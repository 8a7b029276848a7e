//! Directory listings as the client pages through them: the entries of a
//! directory in name order, and the pages cut from them.
use vstd::prelude::*;

use crate::fs_layout::{
    vecs_view, COMPANY_SUBJECTS, FILE_SYSTEM_SUFFIX, GROUP_SUBJECTS, MAX_DIRECTORY_NAME_LENGTH,
    SERVER_SUBJECTS, SHARED_SUBJECTS, SOFTWARE_SUBJECTS, SUBJECT_SUFFIX, USER_SUBJECTS,
};
use crate::sentry::copy_bytes;
use crate::bytes::push_all;
use crate::vfs_protocol::DIRECTORY_ENTRY_PREAMBLE_LEN;

verus! {

/// Whether `a` sorts before `b` or equals it, comparing from byte `i` on:
/// bytes compare as unsigned numbers, and a prefix sorts first.
pub open spec fn name_le_from(a: Seq<u8>, b: Seq<u8>, i: nat) -> bool
    decreases a.len() - i,
{
    if i >= a.len() {
        true
    } else if i >= b.len() {
        false
    } else if a[i as int] < b[i as int] {
        true
    } else if a[i as int] > b[i as int] {
        false
    } else {
        name_le_from(a, b, i + 1)
    }
}

/// The order of names in a listing.
pub open spec fn name_le(a: Seq<u8>, b: Seq<u8>) -> bool {
    name_le_from(a, b, 0)
}

/// Every name sorts before or equal to every later one.
pub open spec fn names_sorted(s: Seq<Seq<u8>>) -> bool {
    forall|i: int, j: int| 0 <= i < j < s.len() ==> name_le(#[trigger] s[i], #[trigger] s[j])
}

proof fn lemma_name_le_from_total(a: Seq<u8>, b: Seq<u8>, i: nat)
    ensures
        name_le_from(a, b, i) || name_le_from(b, a, i),
    decreases a.len() - i,
{
    if i < a.len() && i < b.len() && a[i as int] == b[i as int] {
        lemma_name_le_from_total(a, b, i + 1);
    }
}

proof fn lemma_name_le_from_transitive(a: Seq<u8>, b: Seq<u8>, c: Seq<u8>, i: nat)
    requires
        name_le_from(a, b, i),
        name_le_from(b, c, i),
    ensures
        name_le_from(a, c, i),
    decreases a.len() - i,
{
    if i < a.len() && i < b.len() && i < c.len() && a[i as int] == b[i as int] && b[i as int]
        == c[i as int] {
        lemma_name_le_from_transitive(a, b, c, i + 1);
    }
}

proof fn lemma_name_le_from_antisymmetric(a: Seq<u8>, b: Seq<u8>, i: nat)
    requires
        name_le_from(a, b, i),
        name_le_from(b, a, i),
        i <= a.len(),
        i <= b.len(),
        forall|k: int| 0 <= k < i ==> a[k] == b[k],
    ensures
        a == b,
    decreases a.len() - i,
{
    if i < a.len() && i < b.len() {
        lemma_name_le_from_antisymmetric(a, b, i + 1);
    } else {
        assert(a =~= b);
    }
}

/// Any two names are ordered one way or the other.
pub proof fn lemma_name_le_total(a: Seq<u8>, b: Seq<u8>)
    ensures
        name_le(a, b) || name_le(b, a),
{
    lemma_name_le_from_total(a, b, 0);
}

/// The order of names is transitive.
pub proof fn lemma_name_le_transitive(a: Seq<u8>, b: Seq<u8>, c: Seq<u8>)
    requires
        name_le(a, b),
        name_le(b, c),
    ensures
        name_le(a, c),
{
    lemma_name_le_from_transitive(a, b, c, 0);
}

/// Two names ordered both ways are the same name.
pub proof fn lemma_name_le_antisymmetric(a: Seq<u8>, b: Seq<u8>)
    requires
        name_le(a, b),
        name_le(b, a),
    ensures
        a == b,
{
    lemma_name_le_from_antisymmetric(a, b, 0);
}

/// Whether `a` sorts before `b` or equals it.
pub fn name_le_exec(a: &[u8], b: &[u8]) -> (r: bool)
    ensures
        r == name_le(a@, b@),
{
    let mut i: usize = 0;
    while i < a.len() && i < b.len()
        invariant
            i <= a@.len(),
            i <= b@.len(),
            name_le(a@, b@) == name_le_from(a@, b@, i as nat),
        decreases a@.len() - i,
    {
        if a[i] != b[i] {
            return a[i] < b[i];
        }
        i = i + 1;
    }
    i >= a.len()
}

/// `names` in name order.
pub fn sort_names(names: Vec<Vec<u8>>) -> (r: Vec<Vec<u8>>)
    ensures
        names_sorted(vecs_view(r@)),
        vecs_view(r@).to_multiset() == vecs_view(names@).to_multiset(),
{
    broadcast use vstd::seq_lib::group_to_multiset_ensures;

    let mut sorted: Vec<Vec<u8>> = Vec::new();
    let mut i: usize = 0;
    while i < names.len()
        invariant
            i <= names@.len(),
            names_sorted(vecs_view(sorted@)),
            vecs_view(sorted@).to_multiset() == vecs_view(names@).take(i as int).to_multiset(),
        decreases names@.len() - i,
    {
        let name = copy_bytes(names[i].as_slice());
        let mut p: usize = 0;
        while p < sorted.len() && name_le_exec(sorted[p].as_slice(), name.as_slice())
            invariant
                p <= sorted@.len(),
                forall|k: int| 0 <= k < p ==> name_le(#[trigger] sorted@[k]@, name@),
            decreases sorted@.len() - p,
        {
            p = p + 1;
        }
        let ghost before = vecs_view(sorted@);
        let ghost x = name@;
        proof {
            if p < sorted@.len() {
                assert(!name_le(before[p as int], x));
                lemma_name_le_total(before[p as int], x);
            }
            assert forall|k: int| p <= k < before.len() implies name_le(x, #[trigger] before[k]) by {
                if k > p {
                    lemma_name_le_transitive(x, before[p as int], before[k]);
                }
            }
        }
        sorted.insert(p, name);
        let ghost after = vecs_view(sorted@);
        proof {
            assert(after =~= before.insert(p as int, x));
            assert forall|a: int, b: int| 0 <= a < b < after.len() implies name_le(
                #[trigger] after[a],
                #[trigger] after[b],
            ) by {
                if a < p && b < p {
                } else if a < p && b == p {
                } else if a < p {
                    assert(after[b] == before[b - 1]);
                } else if a == p {
                    assert(after[b] == before[b - 1]);
                } else {
                    assert(after[a] == before[a - 1]);
                    assert(after[b] == before[b - 1]);
                }
            }
            assert(after.remove(p as int) =~= before);
            vstd::seq_lib::to_multiset_remove(after, p as int);
            assert(after[p as int] == x);
            assert(after.contains(x));
            after.to_multiset_ensures();
            before.to_multiset_ensures();
            assert(after.to_multiset().count(x) > 0);
            assert(after.to_multiset() =~= before.to_multiset().insert(x));
            assert(vecs_view(names@).take(i + 1) =~= vecs_view(names@).take(i as int).push(x));
            let t = vecs_view(names@).take(i as int);
            t.to_multiset_ensures();
            assert(t.push(x).to_multiset() =~= t.to_multiset().insert(x));
        }
        i = i + 1;
    }
    assert(vecs_view(names@).take(i as int) =~= vecs_view(names@));
    sorted
}

/// A listing is fixed by the names it holds: two listings in name order with
/// the same names, each as often, are the same listing.
pub proof fn lemma_sorted_names_unique(a: Seq<Seq<u8>>, b: Seq<Seq<u8>>)
    requires
        names_sorted(a),
        names_sorted(b),
        a.to_multiset() == b.to_multiset(),
    ensures
        a == b,
    decreases a.len(),
{
    broadcast use vstd::seq_lib::group_to_multiset_ensures;

    if a.len() == 0 {
        assert(b.to_multiset().len() == 0);
        assert(b.len() == 0);
        assert(a =~= b);
    } else {
        assert(a.to_multiset().len() == a.len());
        assert(b.to_multiset().len() == b.len());
        assert(a.contains(a[0]));
        assert(b.to_multiset().count(a[0]) > 0);
        assert(b.contains(a[0]));
        let j = choose|j: int| 0 <= j < b.len() && b[j] == a[0];
        assert(b.contains(b[0]));
        assert(a.to_multiset().count(b[0]) > 0);
        assert(a.contains(b[0]));
        let k = choose|k: int| 0 <= k < a.len() && a[k] == b[0];
        if j > 0 {
            assert(name_le(b[0], b[j]));
        } else {
            lemma_name_le_from_total(b[0], b[0], 0);
        }
        if k > 0 {
            assert(name_le(a[0], a[k]));
        } else {
            lemma_name_le_from_total(a[0], a[0], 0);
        }
        lemma_name_le_antisymmetric(a[0], b[0]);
        vstd::seq_lib::to_multiset_remove(a, 0);
        vstd::seq_lib::to_multiset_remove(b, 0);
        assert(a.remove(0) =~= a.drop_first());
        assert(b.remove(0) =~= b.drop_first());
        let ta = a.drop_first();
        let tb = b.drop_first();
        assert(names_sorted(ta)) by {
            assert forall|i: int, j: int| 0 <= i < j < ta.len() implies name_le(
                #[trigger] ta[i],
                #[trigger] ta[j],
            ) by {
                assert(ta[i] == a[i + 1] && ta[j] == a[j + 1]);
            }
        }
        assert(names_sorted(tb)) by {
            assert forall|i: int, j: int| 0 <= i < j < tb.len() implies name_le(
                #[trigger] tb[i],
                #[trigger] tb[j],
            ) by {
                assert(tb[i] == b[i + 1] && tb[j] == b[j + 1]);
            }
        }
        lemma_sorted_names_unique(ta, tb);
        assert(a =~= b) by {
            assert forall|i: int| 0 <= i < a.len() implies a[i] == b[i] by {
                if i > 0 {
                    assert(a[i] == ta[i - 1] && b[i] == tb[i - 1]);
                }
            }
        }
    }
}

/// What kind of object a directory holds under a name.
#[derive(Clone, Copy, Debug, PartialEq, Eq)]
pub enum EntryKind {
    File,
    Directory,
    /// Links, devices and the like, which a listing leaves out.
    Other,
}

/// An object found in a directory on the host.
#[derive(Clone, Debug)]
pub struct ScannedEntry {
    pub name: Vec<u8>,
    pub kind: EntryKind,
}

/// The name under which an object appears in a listing, if it appears:
/// directories carry the `~Subject~` suffix, and names longer than a listing
/// entry holds are left out.
pub open spec fn spec_listed_name(e: ScannedEntry) -> Option<Seq<u8>> {
    let name = match e.kind {
        EntryKind::Directory => Some(e.name@ + SUBJECT_SUFFIX@),
        EntryKind::File => Some(e.name@),
        EntryKind::Other => None,
    };
    match name {
        Some(n) => if n.len() <= MAX_DIRECTORY_NAME_LENGTH {
            Some(n)
        } else {
            None
        },
        None => None,
    }
}

/// The names under which `entries` appear in a listing, in their order.
pub open spec fn spec_listed(entries: Seq<ScannedEntry>) -> Seq<Seq<u8>>
    decreases entries.len(),
{
    if entries.len() == 0 {
        Seq::empty()
    } else {
        let rest = spec_listed(entries.drop_last());
        match spec_listed_name(entries.last()) {
            Some(n) => rest.push(n),
            None => rest,
        }
    }
}

/// The listing of a directory holding `entries`: the names they appear under,
/// in name order.
pub fn directory_listing(entries: &[ScannedEntry]) -> (r: Vec<Vec<u8>>)
    ensures
        names_sorted(vecs_view(r@)),
        vecs_view(r@).to_multiset() == spec_listed(entries@).to_multiset(),
{
    let mut names: Vec<Vec<u8>> = Vec::new();
    let mut i: usize = 0;
    while i < entries.len()
        invariant
            i <= entries@.len(),
            vecs_view(names@) == spec_listed(entries@.take(i as int)),
        decreases entries@.len() - i,
    {
        let entry = &entries[i];
        let ghost prev = vecs_view(names@);
        assert(entries@.take(i + 1).drop_last() =~= entries@.take(i as int));
        assert(entries@.take(i + 1).last() == entries@[i as int]);
        match entry.kind {
            EntryKind::Directory => {
                if entry.name.len() <= MAX_DIRECTORY_NAME_LENGTH - SUBJECT_SUFFIX.len() {
                    let mut name = copy_bytes(entry.name.as_slice());
                    push_all(&mut name, SUBJECT_SUFFIX.as_slice());
                    names.push(name);
                    assert(vecs_view(names@) =~= prev.push(entry.name@ + SUBJECT_SUFFIX@));
                }
            },
            EntryKind::File => {
                if entry.name.len() <= MAX_DIRECTORY_NAME_LENGTH {
                    names.push(copy_bytes(entry.name.as_slice()));
                    assert(vecs_view(names@) =~= prev.push(entry.name@));
                }
            },
            EntryKind::Other => {},
        }
        i = i + 1;
    }
    assert(entries@.take(i as int) =~= entries@);
    sort_names(names)
}

/// The names of the resource disks, as the name device lists them.
pub open spec fn spec_resource_names() -> Seq<Seq<u8>> {
    seq![
        USER_SUBJECTS@ + FILE_SYSTEM_SUFFIX@,
        GROUP_SUBJECTS@ + FILE_SYSTEM_SUFFIX@,
        COMPANY_SUBJECTS@ + FILE_SYSTEM_SUFFIX@,
        SOFTWARE_SUBJECTS@ + FILE_SYSTEM_SUFFIX@,
        SERVER_SUBJECTS@ + FILE_SYSTEM_SUFFIX@,
        SHARED_SUBJECTS@ + FILE_SYSTEM_SUFFIX@,
    ]
}

fn resource_name(subject: &[u8]) -> (r: Vec<u8>)
    ensures
        r@ == subject@ + FILE_SYSTEM_SUFFIX@,
{
    let mut name = copy_bytes(subject);
    push_all(&mut name, FILE_SYSTEM_SUFFIX.as_slice());
    name
}

/// The listing of the resource disks.
pub fn resource_entries() -> (r: Vec<Vec<u8>>)
    ensures
        vecs_view(r@) == spec_resource_names(),
{
    let mut r: Vec<Vec<u8>> = Vec::new();
    r.push(resource_name(USER_SUBJECTS.as_slice()));
    r.push(resource_name(GROUP_SUBJECTS.as_slice()));
    r.push(resource_name(COMPANY_SUBJECTS.as_slice()));
    r.push(resource_name(SOFTWARE_SUBJECTS.as_slice()));
    r.push(resource_name(SERVER_SUBJECTS.as_slice()));
    r.push(resource_name(SHARED_SUBJECTS.as_slice()));
    assert(vecs_view(r@) =~= spec_resource_names());
    r
}

/// The room an entry named `name` takes in a page.
pub open spec fn entry_size(name: Seq<u8>) -> int {
    DIRECTORY_ENTRY_PREAMBLE_LEN + name.len()
}

/// The page of `listing` that starts at `position`: the entries from there on,
/// as long as there are fewer than `entries` of them and they fit in `bytes`.
pub open spec fn spec_page(listing: Seq<Seq<u8>>, position: int, entries: int, bytes: int) -> Seq<
    Seq<u8>,
>
    decreases entries,
{
    if entries <= 0 || position < 0 || position >= listing.len() || entry_size(listing[position])
        > bytes {
        Seq::empty()
    } else {
        seq![listing[position]] + spec_page(
            listing,
            position + 1,
            entries - 1,
            bytes - entry_size(listing[position]),
        )
    }
}

/// A page is the run of the listing that starts at its position.
pub proof fn lemma_page_is_run(listing: Seq<Seq<u8>>, position: int, entries: int, bytes: int)
    requires
        0 <= position <= listing.len(),
    ensures
        position + spec_page(listing, position, entries, bytes).len() <= listing.len(),
        spec_page(listing, position, entries, bytes) == listing.subrange(
            position,
            position + spec_page(listing, position, entries, bytes).len(),
        ),
    decreases entries,
{
    let page = spec_page(listing, position, entries, bytes);
    if entries <= 0 || position >= listing.len() || entry_size(listing[position]) > bytes {
        assert(page =~= listing.subrange(position, position));
    } else {
        let rest = spec_page(listing, position + 1, entries - 1, bytes - entry_size(listing[position]));
        lemma_page_is_run(listing, position + 1, entries - 1, bytes - entry_size(listing[position]));
        assert(page =~= listing.subrange(position, position + page.len()));
    }
}

/// Walking a listing page by page, each page going on where the last one
/// ended, gives every entry once and in order: two pages read one after the
/// other are the run of the listing from the first one's position.
pub proof fn lemma_pages_follow_on(
    listing: Seq<Seq<u8>>,
    position: int,
    entries: int,
    bytes: int,
    next_entries: int,
    next_bytes: int,
)
    requires
        0 <= position <= listing.len(),
    ensures
        ({
            let first = spec_page(listing, position, entries, bytes);
            let second = spec_page(listing, position + first.len(), next_entries, next_bytes);
            first + second == listing.subrange(position, position + first.len() + second.len())
        }),
{
    let first = spec_page(listing, position, entries, bytes);
    let next = position + first.len();
    let second = spec_page(listing, next, next_entries, next_bytes);
    lemma_page_is_run(listing, position, entries, bytes);
    lemma_page_is_run(listing, next, next_entries, next_bytes);
    if second.len() == 0 {
        assert(first + second =~= first);
    } else {
        assert(first + second =~= listing.subrange(position, next + second.len()));
    }
}

/// The page of `listing` at `position`, at most `max_entries` entries taking
/// at most `max_bytes`, and the position after it.
pub fn read_page(listing: &[Vec<u8>], position: usize, max_entries: usize, max_bytes: usize) -> (r: (
    Vec<Vec<u8>>,
    usize,
))
    ensures
        vecs_view(r.0@) == spec_page(vecs_view(listing@), position as int, max_entries as int, max_bytes as int),
        r.1 == position + r.0@.len(),
{
    let ghost l = vecs_view(listing@);
    let mut page: Vec<Vec<u8>> = Vec::new();
    let mut p: usize = position;
    let mut used: usize = 0;
    let mut full = false;
    while !full && page.len() < max_entries && p < listing.len()
        invariant
            l == vecs_view(listing@),
            used <= max_bytes,
            p == position + page@.len(),
            page@.len() <= max_entries,
            vecs_view(page@) + spec_page(l, p as int, max_entries - page@.len(), max_bytes - used)
                == spec_page(l, position as int, max_entries as int, max_bytes as int),
            full ==> spec_page(l, p as int, max_entries - page@.len(), max_bytes - used)
                =~= Seq::<Seq<u8>>::empty(),
        decreases max_entries - page@.len(), (if full { 0int } else { 1int }),
    {
        let name_len = listing[p].len();
        let remaining = max_bytes - used;
        if remaining < DIRECTORY_ENTRY_PREAMBLE_LEN || name_len > remaining
            - DIRECTORY_ENTRY_PREAMBLE_LEN {
            full = true;
        } else {
            let ghost prev = vecs_view(page@);
            let ghost rest = spec_page(l, p as int, max_entries - page@.len(), max_bytes - used);
            page.push(copy_bytes(listing[p].as_slice()));
            used = used + DIRECTORY_ENTRY_PREAMBLE_LEN + name_len;
            p = p + 1;
            assert(vecs_view(page@) =~= prev.push(l[p - 1]));
            assert(rest =~= seq![l[p - 1]] + spec_page(
                l,
                p as int,
                max_entries - page@.len(),
                max_bytes - used,
            ));
            assert(vecs_view(page@) + spec_page(
                l,
                p as int,
                max_entries - page@.len(),
                max_bytes - used,
            ) =~= prev + rest);
        }
    }
    assert(spec_page(l, p as int, max_entries - page@.len(), max_bytes - used) =~= Seq::<
        Seq<u8>,
    >::empty());
    assert(vecs_view(page@) =~= vecs_view(page@) + Seq::<Seq<u8>>::empty());
    (page, p)
}

} // verus!
