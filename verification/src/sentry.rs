//! Sentry: the directory of companies, groups and users, and the rules of who
//! may read and change which part of it. The directory itself lives in the
//! database; a command that needs it comes back from
//! [`SentryServer::process`] as a step naming what to read or write, and the
//! caller hands what it found to [`SentryServer::answer`] or to one of the
//! response functions.
use vstd::prelude::*;

use crate::bytes::{push_all, spec_u16_le_bytes, spec_u32_le, spec_u32_le_bytes, u32_from_le, u16_to_le, u32_to_le};
use crate::error::{err_view, invalid, FrameError, FrameErrorView};
use crate::tlv::{entries_view, spec_find, spec_walk, Tlv, TlvEntry, TlvKind};
use crate::wire::u8_len;

verus! {

/// Update and Delete are the two commands the client answers to with a bare
/// acknowledgement; anything else it reads as the error path.
pub const COMMAND_ACK: u8 = 0x01;

pub const COMMAND_STATUS: u8 = 0x02;

pub const COMMAND_REPLY: u8 = 0x03;

pub const COMMAND_VARIANT_QUERY: u8 = 0x04;

pub const COMMAND_CHANGE_PASSWORD: u8 = 0x05;

pub const COMMAND_ADD_USER: u8 = 0x06;

pub const COMMAND_QUERY: u8 = 0x0e;

pub const COMMAND_DELETE: u8 = 0x12;

pub const COMMAND_UPDATE: u8 = 0x16;

pub const COMMAND_ADD_GROUP: u8 = 0x09;

pub const COMMAND_ADD_COMPANY: u8 = 0x0a;

pub const COMMAND_LIST_FIRST: u8 = 0x1e;

pub const COMMAND_LIST_NEXT: u8 = 0x1f;

/// companyProp
pub const PROPERTY_COMPANY: u8 = 0x07;

/// groupProp
pub const PROPERTY_GROUP: u8 = 0x08;

/// userProp
pub const PROPERTY_USER: u8 = 0x09;

/// userPasswordProp
pub const PROPERTY_PASSWORD: u8 = 0x0a;

pub const TAG_AUTHORITY: u8 = 0x1a;

pub const TAG_DISK_SPACE_TEXT: u8 = 0x1b;

pub const TAG_VARIANT: u8 = 0x25;

pub const TAG_QUOTA: u8 = 0x26;

pub const TAG_CURSOR: u8 = 0x27;

pub const TAG_DEVICE: u8 = 0x28;

pub const TAG_DISK_USED: u8 = 0x29;

pub const TAG_CREATED: u8 = 0x2a;

pub const TAG_MODIFIED: u8 = 0x2b;

pub const TAG_LOCKED: u8 = 0x2c;

pub const TAG_QUERY_LEVEL: u8 = 0x34;

pub const QUERY_COMPANY: u8 = 1;

pub const QUERY_GROUP: u8 = 2;

pub const QUERY_USER: u8 = 3;

pub const STATUS_OK: u16 = 0;

/// ePropListValueMissing
pub const STATUS_PROPERTY_MISSING: u16 = 1001;

/// eAuthorizationFile
pub const STATUS_AUTHORIZATION_FILE: u16 = 1004;

/// The listing loop clears `1005: eUnknownUser` silently instead of showing an
/// error dialog, so it is how an enumeration ends.
pub const STATUS_END_OF_LISTING: u16 = 1005;

/// eInvalidAuthority
pub const STATUS_INVALID_AUTHORITY: u16 = 1006;

/// eCompanyNotDefined
pub const STATUS_COMPANY_NOT_DEFINED: u16 = 1015;

/// eAccountNotDefined: the company exists but the group does not.
pub const STATUS_ACCOUNT_NOT_DEFINED: u16 = 1016;

/// eAlreadyDefined
pub const STATUS_ALREADY_DEFINED: u16 = 1017;

/// eInsufficientAccessAuthority
pub const STATUS_INSUFFICIENT_AUTHORITY: u16 = 1030;

/// eInvalidName
pub const STATUS_INVALID_NAME: u16 = 1034;

/// Variant byte reported to the client. Anything but `1` keeps the full
/// administrator menu, `1` replaces it with a "not supported" notice.
pub const VARIANT: u8 = 0x33;

pub const VARIANT_UNSUPPORTED: u8 = 0x31;

pub const QUOTA_UNLIMITED: u32 = 0xffff_ffff;

/// Filter fields are 20 byte wide: all zeros mean "before the first record",
/// all `0xff` mean "past everything below this level".
pub const FILTER_SKIP: u8 = 0xff;

/// The level of a stored account that is a company.
pub const LEVEL_COMPANY: i64 = 0;

/// The level of a stored account that is a group.
pub const LEVEL_GROUP: i64 = 1;

/// The level of a stored account that is a user.
pub const LEVEL_USER: i64 = 2;

/// The authority level of an account.
///
/// This is *not* a plain `u16`: the client sends the field big endian in an
/// add-user request but expects it back little endian in a listing row. The
/// asymmetry is real client behaviour, so it is spelled out once here —
/// [`Authority::read`] and [`Authority::write`] are deliberately different.
#[derive(Clone, Copy, Debug, PartialEq, Eq, Structural)]
pub struct Authority(pub u16);

pub const NORMAL: u16 = 0;

pub const GROUP_ADMIN: u16 = 20;

pub const COMPANY_ADMIN: u16 = 30;

pub const SYSTEM_ADMIN: u16 = 40;

/// Whether `value` is one of the four defined levels.
pub open spec fn spec_is_defined(value: u16) -> bool {
    value == NORMAL || value == GROUP_ADMIN || value == COMPANY_ADMIN || value == SYSTEM_ADMIN
}

impl Authority {
    pub fn from_stored(value: u16) -> (r: Self)
        ensures
            r.0 == value,
    {
        Authority(value)
    }

    /// Anything outside the four defined levels would compare against the
    /// thresholds in ways the client never intends — `0xffff` outranks a
    /// system administrator — so an unknown value is refused rather than
    /// stored.
    pub fn is_defined(self) -> (r: bool)
        ensures
            r == spec_is_defined(self.0),
    {
        self.0 == NORMAL || self.0 == GROUP_ADMIN || self.0 == COMPANY_ADMIN || self.0
            == SYSTEM_ADMIN
    }

    pub fn name(self) -> (r: &'static str)
        ensures
            self.0 == NORMAL ==> r == "normal user",
            self.0 == GROUP_ADMIN ==> r == "group administrator",
            self.0 == COMPANY_ADMIN ==> r == "company administrator",
            self.0 == SYSTEM_ADMIN ==> r == "system administrator",
            !spec_is_defined(self.0) ==> r == "unknown authority",
    {
        if self.0 == NORMAL {
            "normal user"
        } else if self.0 == GROUP_ADMIN {
            "group administrator"
        } else if self.0 == COMPANY_ADMIN {
            "company administrator"
        } else if self.0 == SYSTEM_ADMIN {
            "system administrator"
        } else {
            "unknown authority"
        }
    }

    /// Parses the field as the client writes it in a request: big endian.
    pub fn read(value: &[u8]) -> (r: Option<Self>)
        ensures
            r == spec_authority_read(value@),
    {
        if value.len() == 2 {
            Some(Authority(value[0] as u16 * 256 + value[1] as u16))
        } else {
            None
        }
    }

    /// Serializes the field as the client reads it in a listing row: little
    /// endian, unlike the request encoding above.
    pub fn write(self) -> (r: [u8; 2])
        ensures
            r@ == spec_u16_le_bytes(self.0),
    {
        u16_to_le(self.0)
    }
}

/// The authority a request field holds, big endian.
pub open spec fn spec_authority_read(v: Seq<u8>) -> Option<Authority> {
    if v.len() == 2 {
        Some(Authority((256 * v[0] + v[1]) as u16))
    } else {
        None
    }
}

// ---------------------------------------------------------------------------
// Records
// ---------------------------------------------------------------------------

/// The records of a request body, if every one of them is well formed.
pub open spec fn spec_records(data: Seq<u8>) -> Option<Seq<(u8, Seq<u8>)>> {
    let w = spec_walk(data, 0, TlvKind::TagU8);
    if w.1 is None {
        Some(w.0)
    } else {
        None
    }
}

pub fn records<'a>(data: &'a [u8]) -> (r: Option<Vec<TlvEntry<'a>>>)
    ensures
        match spec_records(data@) {
            Some(rs) => (r matches Some(v) && entries_view(v@) == rs),
            None => r is None,
        },
{
    match Tlv::tag_u8(data).collect_all() {
        Ok(v) => Some(v),
        Err(_) => None,
    }
}

/// The value of the first record with tag `wanted`.
pub fn record<'a>(records: &[TlvEntry<'a>], wanted: u8) -> (r: Option<&'a [u8]>)
    ensures
        match spec_find(entries_view(records@), wanted) {
            Some(v) => (r matches Some(x) && x@ == v),
            None => r is None,
        },
{
    let ghost es = entries_view(records@);
    let mut i: usize = 0;
    assert(es.skip(0) =~= es);
    while i < records.len()
        invariant
            es == entries_view(records@),
            i <= records@.len(),
            spec_find(es, wanted) == spec_find(es.skip(i as int), wanted),
        decreases records@.len() - i,
    {
        assert(es.skip(i as int)[0] == records@[i as int]@);
        if records[i].tag == wanted {
            return Some(records[i].value);
        }
        assert(es.skip(i as int).drop_first() =~= es.skip(i + 1));
        i = i + 1;
    }
    None
}

/// The value of the record `wanted`, or nothing.
pub open spec fn spec_record_or_empty(rs: Seq<(u8, Seq<u8>)>, wanted: u8) -> Seq<u8> {
    match spec_find(rs, wanted) {
        Some(v) => v,
        None => Seq::empty(),
    }
}

pub fn record_or_empty<'a>(records: &[TlvEntry<'a>], wanted: u8) -> (r: &'a [u8])
    ensures
        r@ == spec_record_or_empty(entries_view(records@), wanted),
{
    match record(records, wanted) {
        Some(v) => v,
        None => {
            let e: &[u8] = &[];
            assert(e@ =~= Seq::<u8>::empty());
            e
        },
    }
}

/// The quota a request carries, little endian, if it carries one of four
/// bytes.
pub open spec fn spec_quota_field(rs: Seq<(u8, Seq<u8>)>) -> Option<u32> {
    match spec_find(rs, TAG_QUOTA) {
        Some(v) => if v.len() == 4 {
            Some(spec_u32_le(v))
        } else {
            None
        },
        None => None,
    }
}

/// Update has to tell "leave the quota alone" from "set it to zero", which
/// the add commands never need to.
pub fn quota_field(records: &[TlvEntry]) -> (r: Option<u32>)
    ensures
        r == spec_quota_field(entries_view(records@)),
{
    match record(records, TAG_QUOTA) {
        Some(v) => if v.len() == 4 {
            let q = u32_from_le(v[0], v[1], v[2], v[3]);
            assert(seq![v@[0], v@[1], v@[2], v@[3]] =~= v@);
            Some(q)
        } else {
            None
        },
        None => None,
    }
}

/// The quota is the only numeric field the client writes little endian.
pub fn quota(records: &[TlvEntry]) -> (r: u32)
    ensures
        r == match spec_quota_field(entries_view(records@)) {
            Some(q) => q,
            None => 0,
        },
{
    match quota_field(records) {
        Some(q) => q,
        None => 0,
    }
}

// ---------------------------------------------------------------------------
// Wire forms of the replies
// ---------------------------------------------------------------------------

/// The client reads the status word right after the command byte and reports
/// `Complete` when it is zero.
pub open spec fn spec_status_response(status: u16) -> Seq<u8> {
    seq![COMMAND_STATUS] + spec_u16_le_bytes(status)
}

pub fn status_response(status: u16) -> (r: Vec<u8>)
    ensures
        r@ == spec_status_response(status),
{
    let mut payload: Vec<u8> = Vec::new();
    payload.push(COMMAND_STATUS);
    let le = u16_to_le(status);
    payload.push(le[0]);
    payload.push(le[1]);
    assert(payload@ =~= spec_status_response(status));
    payload
}

/// `<tag><u8 length><value>`.
pub open spec fn spec_tagged(tag: u8, value: Seq<u8>) -> Seq<u8> {
    seq![tag, value.len() as u8] + value
}

/// Every value written here is a fixed width field or a name the client
/// already bounds, so an oversized one is a bug in this server rather than
/// something a client can trigger: it is reported instead of truncated.
pub fn write_tagged(dst: &mut Vec<u8>, tag: u8, value: &[u8]) -> (r: Result<(), FrameError>)
    ensures
        value@.len() <= 255 ==> r is Ok && final(dst)@ == old(dst)@ + spec_tagged(tag, value@),
        value@.len() > 255 ==> err_view(r) == Some(invalid("Sentry record"@)) && final(dst)@
            == old(dst)@.push(tag),
{
    dst.push(tag);
    let length = u8_len(value.len(), "Sentry record")?;
    dst.push(length);
    push_all(dst, value);
    assert(dst@ =~= old(dst)@ + spec_tagged(tag, value@));
    Ok(())
}

/// The reply to a variant query.
pub open spec fn spec_variant_response(actor: u16) -> Seq<u8> {
    seq![
        COMMAND_REPLY,
        TAG_VARIANT,
        1u8,
        if actor > NORMAL {
            VARIANT
        } else {
            VARIANT_UNSUPPORTED
        },
    ]
}

/// A normal user is told the variant is `1`, which makes the client replace
/// the administrator menu with a "not supported" notice — the client's own way
/// of hiding what the account may not do, and cheaper than refusing each
/// command.
pub fn variant_response(actor: Authority) -> (r: Vec<u8>)
    ensures
        r@ == spec_variant_response(actor.0),
{
    let variant = if actor.0 > NORMAL {
        VARIANT
    } else {
        VARIANT_UNSUPPORTED
    };
    let mut payload: Vec<u8> = Vec::new();
    payload.push(COMMAND_REPLY);
    payload.push(TAG_VARIANT);
    payload.push(1);
    payload.push(variant);
    assert(payload@ =~= spec_variant_response(actor.0));
    payload
}

// ---------------------------------------------------------------------------
// Decimal numbers
// ---------------------------------------------------------------------------

/// The decimal digits of `n`, most significant first.
pub open spec fn spec_decimal(n: nat) -> Seq<u8>
    decreases n,
{
    if n < 10 {
        seq![(48 + n) as u8]
    } else {
        spec_decimal(n / 10).push((48 + n % 10) as u8)
    }
}

proof fn lemma_decimal_ascii(n: nat)
    ensures
        forall|k: int| 0 <= k < spec_decimal(n).len() ==> 48 <= #[trigger] spec_decimal(n)[k] < 58,
        spec_decimal(n).len() >= 1,
    decreases n,
{
    if n >= 10 {
        lemma_decimal_ascii(n / 10);
    }
}

/// The decimal digits of `n`.
pub fn decimal(n: usize) -> (r: Vec<u8>)
    ensures
        r@ == spec_decimal(n as nat),
        forall|k: int| 0 <= k < r@.len() ==> r@[k] < 128,
    decreases n,
{
    proof {
        lemma_decimal_ascii(n as nat);
    }
    if n < 10 {
        let mut r: Vec<u8> = Vec::new();
        r.push((48 + n) as u8);
        assert(r@ =~= spec_decimal(n as nat));
        r
    } else {
        let mut r = decimal(n / 10);
        r.push((48 + n % 10) as u8);
        r
    }
}

/// The value of the decimal digits `s`, if every byte is a digit.
pub open spec fn spec_digits_value(s: Seq<u8>) -> Option<nat>
    decreases s.len(),
{
    if s.len() == 0 {
        Some(0)
    } else if s.last() < 48 || s.last() > 57 {
        None
    } else {
        match spec_digits_value(s.drop_last()) {
            Some(v) => Some(10 * v + (s.last() - 48) as nat),
            None => None,
        }
    }
}

/// A number as `usize` parses one: an optional `+`, then at least one digit,
/// and a value that fits.
pub open spec fn spec_parse_usize(s: Seq<u8>) -> Option<usize> {
    let digits = if s.len() > 0 && s[0] == 0x2b {
        s.drop_first()
    } else {
        s
    };
    if digits.len() == 0 {
        None
    } else {
        match spec_digits_value(digits) {
            Some(v) => if v <= usize::MAX {
                Some(v as usize)
            } else {
                None
            },
            None => None,
        }
    }
}

proof fn lemma_digits_value_grows(s: Seq<u8>, k: int)
    requires
        0 <= k <= s.len(),
        spec_digits_value(s) is Some,
    ensures
        spec_digits_value(s.take(k)) is Some,
        spec_digits_value(s.take(k))->Some_0 <= spec_digits_value(s)->Some_0,
    decreases s.len(),
{
    if k < s.len() {
        assert(s.drop_last().take(k) =~= s.take(k));
        lemma_digits_value_grows(s.drop_last(), k);
    } else {
        assert(s.take(k) =~= s);
    }
}

/// Reads a number the way `usize` parses its text.
pub fn parse_usize(s: &[u8]) -> (r: Option<usize>)
    ensures
        r == spec_parse_usize(s@),
{
    let start: usize = if s.len() > 0 && s[0] == 0x2b {
        1
    } else {
        0
    };
    let digits = &s[start..s.len()];
    assert(digits@ =~= (if s@.len() > 0 && s@[0] == 0x2b {
        s@.drop_first()
    } else {
        s@
    }));
    if digits.len() == 0 {
        return None;
    }
    let ghost d = digits@;
    let mut value: usize = 0;
    let mut i: usize = 0;
    assert(d.take(0) =~= Seq::<u8>::empty());
    while i < digits.len()
        invariant
            d == digits@,
            d == (if s@.len() > 0 && s@[0] == 0x2b {
                s@.drop_first()
            } else {
                s@
            }),
            d.len() > 0,
            i <= d.len(),
            spec_digits_value(d.take(i as int)) == Some(value as nat),
        decreases d.len() - i,
    {
        let b = digits[i];
        assert(d.take(i + 1).drop_last() =~= d.take(i as int));
        if b < 48 || b > 57 {
            proof {
                lemma_digits_none(d, i as int + 1);
            }
            return None;
        }
        let next = match value.checked_mul(10) {
            Some(t) => t.checked_add((b - 48) as usize),
            None => None,
        };
        match next {
            Some(v) => {
                value = v;
            },
            None => {
                proof {
                    assert(spec_digits_value(d.take(i + 1)) == Some(
                        (10 * value + (b - 48)) as nat,
                    ));
                    if spec_digits_value(d) is Some {
                        lemma_digits_value_grows(d, i as int + 1);
                    }
                }
                return None;
            },
        }
        i = i + 1;
    }
    assert(d.take(i as int) =~= d);
    Some(value)
}

proof fn lemma_digits_none(s: Seq<u8>, k: int)
    requires
        0 < k <= s.len(),
        spec_digits_value(s.take(k)) is None,
    ensures
        spec_digits_value(s) is None,
    decreases s.len(),
{
    if k < s.len() {
        assert(s.drop_last().take(k) =~= s.take(k));
        lemma_digits_none(s.drop_last(), k);
    } else {
        assert(s.take(k) =~= s);
    }
}


// ---------------------------------------------------------------------------
// Names
// ---------------------------------------------------------------------------

/// `b` in lower case, if it is an ASCII letter.
pub open spec fn lower(b: u8) -> u8 {
    if 65 <= b <= 90 {
        (b + 32) as u8
    } else {
        b
    }
}

/// Whether two names are the same but for the case of ASCII letters.
pub open spec fn spec_eq_ic(a: Seq<u8>, b: Seq<u8>) -> bool {
    a.len() == b.len() && forall|i: int| 0 <= i < a.len() ==> lower(#[trigger] a[i]) == lower(b[i])
}

pub fn eq_ignore_ascii_case(a: &[u8], b: &[u8]) -> (r: bool)
    ensures
        r == spec_eq_ic(a@, b@),
{
    if a.len() != b.len() {
        return false;
    }
    let mut i: usize = 0;
    while i < a.len()
        invariant
            a@.len() == b@.len(),
            i <= a@.len(),
            forall|k: int| 0 <= k < i ==> lower(#[trigger] a@[k]) == lower(b@[k]),
        decreases a@.len() - i,
    {
        let x = a[i];
        let y = b[i];
        let lx = if 65 <= x && x <= 90 {
            x + 32
        } else {
            x
        };
        let ly = if 65 <= y && y <= 90 {
            y + 32
        } else {
            y
        };
        if lx != ly {
            return false;
        }
        i = i + 1;
    }
    true
}

/// One row of the flattened directory as the store keeps it. The levels that
/// do not apply are empty, unlike the wire form, where a company repeats its
/// name at all three.
#[derive(Clone, Debug)]
pub struct Account {
    pub level: i64,
    pub company: Vec<u8>,
    pub group: Vec<u8>,
    pub user: Vec<u8>,
    pub password: Vec<u8>,
    pub authority: u16,
    pub quota: u32,
    pub used: u32,
}

/// The client tells the three record levels apart by comparing the names:
/// `company == group` marks a company, `group == user` a group, anything else
/// a user.
#[derive(Clone, Debug)]
pub struct Row {
    pub company: Vec<u8>,
    pub group: Vec<u8>,
    pub user: Vec<u8>,
    pub authority: Authority,
    pub quota: u32,
    pub used: u32,
}

/// The three names of a row.
pub open spec fn row_names(r: Row) -> Seq<Seq<u8>> {
    seq![r.company@, r.group@, r.user@]
}

/// The names of the row a stored account expands to: the name above repeated
/// into the levels that do not apply.
pub open spec fn spec_account_names(a: Account) -> Seq<Seq<u8>> {
    let company = a.company@;
    let group = if a.level == LEVEL_COMPANY {
        company
    } else {
        a.group@
    };
    let user = if a.level == LEVEL_USER {
        a.user@
    } else {
        group
    };
    seq![company, group, user]
}

/// Whether the names of a row start with `prefix`, but for case.
pub open spec fn spec_matches(names: Seq<Seq<u8>>, prefix: Seq<Seq<u8>>) -> bool {
    forall|k: int| 0 <= k < prefix.len() && k < 3 ==> spec_eq_ic(#[trigger] names[k], prefix[k])
}

pub open spec fn slices_view<'a>(v: Seq<&'a [u8]>) -> Seq<Seq<u8>> {
    v.map_values(|s: &'a [u8]| s@)
}

#[derive(Clone, Copy, PartialEq, Eq, Debug)]
pub enum Level {
    Company,
    Group,
    User,
}

/// The level a row stands for.
pub open spec fn spec_level(names: Seq<Seq<u8>>) -> Level {
    if names[0] == names[1] && names[1] == names[2] {
        Level::Company
    } else if names[1] == names[2] {
        Level::Group
    } else {
        Level::User
    }
}

impl Level {
    pub open spec fn spec_required(self) -> u16 {
        match self {
            Level::Company => SYSTEM_ADMIN,
            Level::Group => COMPANY_ADMIN,
            Level::User => GROUP_ADMIN,
        }
    }

    /// The threshold a write at this level needs, matching the add commands.
    pub fn required(self) -> (r: Authority)
        ensures
            r.0 == self.spec_required(),
    {
        match self {
            Level::Company => Authority(SYSTEM_ADMIN),
            Level::Group => Authority(COMPANY_ADMIN),
            Level::User => Authority(GROUP_ADMIN),
        }
    }
}

impl Row {
    /// Expands a stored row back into the wire form, repeating the name above
    /// into the levels that do not apply.
    pub fn from_account(account: Account) -> (r: Self)
        ensures
            row_names(r) == spec_account_names(account),
            r.authority.0 == account.authority,
            r.quota == account.quota,
            r.used == account.used,
    {
        let company = account.company;
        let group = if account.level == LEVEL_COMPANY {
            company.clone()
        } else {
            account.group
        };
        let user = if account.level == LEVEL_USER {
            account.user
        } else {
            group.clone()
        };
        let r = Row {
            company,
            group,
            user,
            authority: Authority(account.authority),
            quota: account.quota,
            used: account.used,
        };
        assert(row_names(r) =~= spec_account_names(account));
        r
    }

    pub fn matches(&self, prefix: &[&[u8]]) -> (r: bool)
        ensures
            r == spec_matches(row_names(*self), slices_view(prefix@)),
    {
        let mut k: usize = 0;
        while k < prefix.len() && k < 3
            invariant
                k <= 3,
                k <= prefix@.len(),
                forall|j: int|
                    0 <= j < k ==> spec_eq_ic(#[trigger] row_names(*self)[j], slices_view(prefix@)[j]),
            decreases 3 - k,
        {
            let name = if k == 0 {
                self.company.as_slice()
            } else if k == 1 {
                self.group.as_slice()
            } else {
                self.user.as_slice()
            };
            if !eq_ignore_ascii_case(name, prefix[k]) {
                assert(!spec_eq_ic(row_names(*self)[k as int], slices_view(prefix@)[k as int]));
                return false;
            }
            k = k + 1;
        }
        true
    }

    pub fn level(&self) -> (r: Level)
        ensures
            r == spec_level(row_names(*self)),
    {
        let company_group = crate::bytes::bytes_equal(self.company.as_slice(), self.group.as_slice());
        let group_user = crate::bytes::bytes_equal(self.group.as_slice(), self.user.as_slice());
        if company_group && group_user {
            Level::Company
        } else if group_user {
            Level::Group
        } else {
            Level::User
        }
    }
}

/// The index of the last row whose names start with `prefix`.
pub open spec fn spec_rfind(rows: Seq<Row>, prefix: Seq<Seq<u8>>) -> Option<int>
    decreases rows.len(),
{
    if rows.len() == 0 {
        None
    } else if spec_matches(row_names(rows.last()), prefix) {
        Some(rows.len() - 1)
    } else {
        spec_rfind(rows.drop_last(), prefix)
    }
}

/// The whole directory, loaded per request: that keeps the listing cursor a
/// plain index, which is exactly what the client echoes back in `0x1f`.
pub struct Directory {
    pub rows: Vec<Row>,
}

impl Directory {
    pub fn from_accounts(accounts: Vec<Account>) -> (r: Self)
        ensures
            r.rows@.len() == accounts@.len(),
            forall|i: int|
                0 <= i < accounts@.len() ==> row_names(#[trigger] r.rows@[i]) == spec_account_names(
                    accounts@[i],
                ) && r.rows@[i].authority.0 == accounts@[i].authority && r.rows@[i].quota
                    == accounts@[i].quota && r.rows@[i].used == accounts@[i].used,
    {
        let mut rows: Vec<Row> = Vec::new();
        let mut i: usize = 0;
        while i < accounts.len()
            invariant
                i <= accounts@.len(),
                rows@.len() == i,
                forall|k: int|
                    0 <= k < i ==> row_names(#[trigger] rows@[k]) == spec_account_names(
                        accounts@[k],
                    ) && rows@[k].authority.0 == accounts@[k].authority && rows@[k].quota
                        == accounts@[k].quota && rows@[k].used == accounts@[k].used,
            decreases accounts@.len() - i,
        {
            rows.push(Row::from_account(accounts[i].clone_account()));
            i = i + 1;
        }
        Directory { rows }
    }

    /// The index of the last row under the given prefix, which is both the
    /// existence check and, in the stored order, the parent of a new child.
    pub fn find(&self, prefix: &[&[u8]]) -> (r: Option<usize>)
        ensures
            match spec_rfind(self.rows@, slices_view(prefix@)) {
                Some(i) => r matches Some(x) && x == i,
                None => r is None,
            },
    {
        let mut i: usize = self.rows.len();
        assert(self.rows@.take(i as int) =~= self.rows@);
        while i > 0
            invariant
                i <= self.rows@.len(),
                spec_rfind(self.rows@, slices_view(prefix@)) == spec_rfind(
                    self.rows@.take(i as int),
                    slices_view(prefix@),
                ),
            decreases i,
        {
            assert(self.rows@.take(i as int).last() == self.rows@[i - 1]);
            assert(self.rows@.take(i as int).drop_last() =~= self.rows@.take(i - 1));
            if self.rows[i - 1].matches(prefix) {
                return Some(i - 1);
            }
            i = i - 1;
        }
        assert(self.rows@.take(0) =~= Seq::<Row>::empty());
        None
    }
}

impl Account {
    pub fn clone_account(&self) -> (r: Self)
        ensures
            r.level == self.level,
            r.company@ == self.company@,
            r.group@ == self.group@,
            r.user@ == self.user@,
            r.password@ == self.password@,
            r.authority == self.authority,
            r.quota == self.quota,
            r.used == self.used,
    {
        Account {
            level: self.level,
            company: copy_bytes(self.company.as_slice()),
            group: copy_bytes(self.group.as_slice()),
            user: copy_bytes(self.user.as_slice()),
            password: copy_bytes(self.password.as_slice()),
            authority: self.authority,
            quota: self.quota,
            used: self.used,
        }
    }
}

/// A fresh copy of `s`.
pub fn copy_bytes(s: &[u8]) -> (r: Vec<u8>)
    ensures
        r@ == s@,
{
    let mut r: Vec<u8> = Vec::new();
    push_all(&mut r, s);
    r
}

/// How many of the three names actually address something, given that the
/// wire form pads the unused levels by repeating the name above them.
pub open spec fn spec_depth(names: Seq<Seq<u8>>) -> int {
    if spec_eq_ic(names[0], names[1]) {
        1
    } else if spec_eq_ic(names[1], names[2]) {
        2
    } else {
        3
    }
}

pub fn depth(company: &[u8], group: &[u8], user: &[u8]) -> (r: usize)
    ensures
        r == spec_depth(seq![company@, group@, user@]),
{
    if eq_ignore_ascii_case(company, group) {
        1
    } else if eq_ignore_ascii_case(group, user) {
        2
    } else {
        3
    }
}

/// The names of the account a session signed on as.
pub open spec fn own_names(a: Account) -> Seq<Seq<u8>> {
    seq![a.company@, a.group@, a.user@]
}

/// How far an account may look: a system administrator over the whole
/// directory, a company administrator over its own company, a group
/// administrator over its own group, and an account without any of those over
/// nothing but its own record. An administrator is matched on as many names
/// as its level covers, so the company and group its subtree hangs from stay
/// readable while a sibling subtree does not.
pub open spec fn spec_outside(actor: Account, names: Seq<Seq<u8>>) -> bool {
    !(forall|k: int|
        0 <= k < spec_scope_depth(actor, names) ==> spec_eq_ic(
            #[trigger] names[k],
            own_names(actor)[k],
        ))
}

/// How many names of a record must match the actor's own for the record to be
/// in its scope.
pub open spec fn spec_scope_depth(actor: Account, names: Seq<Seq<u8>>) -> int {
    if actor.authority == SYSTEM_ADMIN {
        0
    } else if actor.authority == COMPANY_ADMIN {
        if spec_depth(names) < 1 { spec_depth(names) } else { 1 }
    } else if actor.authority == GROUP_ADMIN {
        if spec_depth(names) < 2 { spec_depth(names) } else { 2 }
    } else {
        3
    }
}

/// Whether every byte of `s` is ASCII.
pub open spec fn spec_ascii(s: Seq<u8>) -> bool {
    forall|i: int| 0 <= i < s.len() ==> s[i] < 128
}

/// The status refusing the first of `fields` that is empty or not ASCII, if
/// one is.
pub open spec fn spec_name_refusal(fields: Seq<Seq<u8>>) -> Option<u16>
    decreases fields.len(),
{
    if fields.len() == 0 {
        None
    } else if fields[0].len() == 0 {
        Some(STATUS_PROPERTY_MISSING)
    } else if !spec_ascii(fields[0]) {
        Some(STATUS_INVALID_NAME)
    } else {
        spec_name_refusal(fields.drop_first())
    }
}

/// Names are stored as text so the database can compare them the way the
/// client does — case insensitively. The GRiD keyboard cannot produce anything
/// outside ASCII, so a name that is not ASCII did not come from the client this
/// server speaks to. An empty field is refused too: an absent record reads as
/// an empty value, and an empty name would create an account that sign-on then
/// matches against its own empty properties.
pub fn ascii_names(fields: &[&[u8]]) -> (r: Result<(), Vec<u8>>)
    ensures
        match spec_name_refusal(slices_view(fields@)) {
            Some(s) => (r matches Err(v) && v@ == spec_status_response(s)),
            None => r is Ok,
        },
{
    let ghost fs = slices_view(fields@);
    let mut i: usize = 0;
    assert(fs.skip(0) =~= fs);
    while i < fields.len()
        invariant
            fs == slices_view(fields@),
            i <= fields@.len(),
            spec_name_refusal(fs) == spec_name_refusal(fs.skip(i as int)),
        decreases fields@.len() - i,
    {
        let field = fields[i];
        assert(fs.skip(i as int)[0] == field@);
        if field.len() == 0 {
            return Err(status_response(STATUS_PROPERTY_MISSING));
        }
        if !crate::postoffice::is_ascii(field) {
            return Err(status_response(STATUS_INVALID_NAME));
        }
        assert(fs.skip(i as int).drop_first() =~= fs.skip(i + 1));
        i = i + 1;
    }
    Ok(())
}

// ---------------------------------------------------------------------------
// Listing
// ---------------------------------------------------------------------------

/// One name out of the `0x1e` filter triple.
#[derive(Clone, Copy, Debug)]
pub enum Filter<'a> {
    /// Zero filled: the listing has not started yet.
    Start,
    /// `0xff` filled: everything below this level is already listed.
    Skip,
    Name(&'a [u8]),
}

/// A filter as plain values.
pub enum FilterView {
    Start,
    Skip,
    Name(Seq<u8>),
}

impl<'a> View for Filter<'a> {
    type V = FilterView;

    open spec fn view(&self) -> FilterView {
        match *self {
            Filter::Start => FilterView::Start,
            Filter::Skip => FilterView::Skip,
            Filter::Name(n) => FilterView::Name(n@),
        }
    }
}

/// `v` without its trailing zero bytes.
pub open spec fn spec_trim_zeros(v: Seq<u8>) -> Seq<u8>
    decreases v.len(),
{
    if v.len() == 0 || v.last() != 0 {
        v
    } else {
        spec_trim_zeros(v.drop_last())
    }
}

/// The filter a `0x1e` request sets at `tag`.
pub open spec fn spec_filter(rs: Seq<(u8, Seq<u8>)>, tag: u8) -> FilterView {
    match spec_find(rs, tag) {
        None => FilterView::Start,
        Some(v) => if v.len() > 0 && forall|i: int| 0 <= i < v.len() ==> v[i] == FILTER_SKIP {
            FilterView::Skip
        } else if spec_trim_zeros(v).len() == 0 {
            FilterView::Start
        } else {
            FilterView::Name(spec_trim_zeros(v))
        },
    }
}

pub fn filter<'a>(records: &[TlvEntry<'a>], tag: u8) -> (r: Filter<'a>)
    ensures
        r@ == spec_filter(entries_view(records@), tag),
{
    let value = match record(records, tag) {
        Some(v) => v,
        None => {
            return Filter::Start;
        },
    };
    let mut all_skip = true;
    let mut i: usize = 0;
    while i < value.len()
        invariant
            i <= value@.len(),
            all_skip == forall|k: int| 0 <= k < i ==> value@[k] == FILTER_SKIP,
        decreases value@.len() - i,
    {
        if value[i] != FILTER_SKIP {
            all_skip = false;
        }
        i = i + 1;
    }
    if all_skip && value.len() > 0 {
        return Filter::Skip;
    }
    let mut end: usize = value.len();
    assert(value@.take(end as int) =~= value@);
    while end > 0 && value[end - 1] == 0
        invariant
            end <= value@.len(),
            spec_trim_zeros(value@) == spec_trim_zeros(value@.take(end as int)),
        decreases end,
    {
        assert(value@.take(end as int).drop_last() =~= value@.take(end - 1));
        end = end - 1;
    }
    let name = &value[0..end];
    assert(name@ =~= value@.take(end as int));
    assert(value@.take(value@.len() as int) =~= value@);
    if end == 0 {
        Filter::Start
    } else {
        Filter::Name(name)
    }
}


/// "Hard Disk"
pub const DEVICE: [u8; 9] = [0x48, 0x61, 0x72, 0x64, 0x20, 0x44, 0x69, 0x73, 0x6b];

/// "82/03/28 09:00:00"
pub const CREATED: [u8; 17] = [
    0x38,
    0x32,
    0x2f,
    0x30,
    0x33,
    0x2f,
    0x32,
    0x38,
    0x20,
    0x30,
    0x39,
    0x3a,
    0x30,
    0x30,
    0x3a,
    0x30,
    0x30,
];

/// "86/03/01 09:15:00"
pub const MODIFIED: [u8; 17] = [
    0x38,
    0x36,
    0x2f,
    0x30,
    0x33,
    0x2f,
    0x30,
    0x31,
    0x20,
    0x30,
    0x39,
    0x3a,
    0x31,
    0x35,
    0x3a,
    0x30,
    0x30,
];

pub const UNLOCKED: [u8; 2] = [0, 0];

/// The eleven records a directory row carries. Listing and query share it
/// because the client parses both replies with the same routine, where a
/// missing tag raises its own error dialog, 5001 through 5011.
pub open spec fn spec_row_bytes(row: Row, index: nat) -> Seq<u8> {
    seq![COMMAND_REPLY] + spec_tagged(TAG_CURSOR, spec_decimal(index)) + spec_tagged(
        PROPERTY_COMPANY,
        row.company@,
    ) + spec_tagged(PROPERTY_GROUP, row.group@) + spec_tagged(PROPERTY_USER, row.user@)
        + spec_tagged(TAG_AUTHORITY, spec_u16_le_bytes(row.authority.0)) + spec_tagged(
        TAG_DEVICE,
        DEVICE@,
    ) + spec_tagged(TAG_QUOTA, spec_u32_le_bytes(row.quota)) + spec_tagged(
        TAG_DISK_USED,
        spec_u32_le_bytes(row.used),
    ) + spec_tagged(TAG_CREATED, CREATED@) + spec_tagged(TAG_MODIFIED, MODIFIED@) + spec_tagged(
        TAG_LOCKED,
        UNLOCKED@,
    )
}

/// The reply for the row at `index`: its records, the end of the listing when
/// there is no such row, or an error when a name outgrows its record.
pub open spec fn spec_row_response(rows: Seq<Row>, index: int) -> Result<Seq<u8>, FrameErrorView> {
    if index < 0 || index >= rows.len() {
        Ok(spec_status_response(STATUS_END_OF_LISTING))
    } else if rows[index].company@.len() > 255 || rows[index].group@.len() > 255
        || rows[index].user@.len() > 255 {
        Err(invalid("Sentry record"@))
    } else {
        Ok(spec_row_bytes(rows[index], index as nat))
    }
}

pub fn row_response(rows: &Vec<Row>, index: usize) -> (r: Result<Vec<u8>, FrameError>)
    ensures
        match spec_row_response(rows@, index as int) {
            Ok(b) => (r matches Ok(v) && v@ == b),
            Err(e) => err_view(r) == Some(e),
        },
{
    if index >= rows.len() {
        return Ok(status_response(STATUS_END_OF_LISTING));
    }
    let row = &rows[index];
    let mut payload: Vec<u8> = Vec::new();
    payload.push(COMMAND_REPLY);
    let digits = decimal(index);
    proof {
        lemma_decimal_short(index as nat);
    }
    write_tagged(&mut payload, TAG_CURSOR, digits.as_slice())?;
    write_tagged(&mut payload, PROPERTY_COMPANY, row.company.as_slice())?;
    write_tagged(&mut payload, PROPERTY_GROUP, row.group.as_slice())?;
    write_tagged(&mut payload, PROPERTY_USER, row.user.as_slice())?;
    let authority = row.authority.write();
    write_tagged(&mut payload, TAG_AUTHORITY, authority.as_slice())?;
    write_tagged(&mut payload, TAG_DEVICE, DEVICE.as_slice())?;
    let quota = u32_to_le(row.quota);
    write_tagged(&mut payload, TAG_QUOTA, quota.as_slice())?;
    let used = u32_to_le(row.used);
    write_tagged(&mut payload, TAG_DISK_USED, used.as_slice())?;
    write_tagged(&mut payload, TAG_CREATED, CREATED.as_slice())?;
    write_tagged(&mut payload, TAG_MODIFIED, MODIFIED.as_slice())?;
    write_tagged(&mut payload, TAG_LOCKED, UNLOCKED.as_slice())?;
    assert(payload@ =~= spec_row_bytes(*row, index as nat));
    Ok(payload)
}

proof fn lemma_decimal_short(n: nat)
    requires
        n <= usize::MAX,
    ensures
        spec_decimal(n).len() <= 20,
{
    assert(ten_pow(20) == 100000000000000000000nat) by {
        reveal_with_fuel(ten_pow, 21);
    }
    lemma_decimal_len(n, 20);
}

/// Ten to the power `k`.
pub open spec fn ten_pow(k: nat) -> nat
    decreases k,
{
    if k == 0 {
        1
    } else {
        10 * ten_pow((k - 1) as nat)
    }
}

proof fn lemma_decimal_len(n: nat, k: nat)
    requires
        k >= 1,
        n < ten_pow(k),
    ensures
        spec_decimal(n).len() <= k,
    decreases k,
{
    if n >= 10 {
        assert(k >= 2) by {
            if k == 1 {
                assert(ten_pow(1) == 10) by {
                    reveal_with_fuel(ten_pow, 2);
                }
            }
        }
        assert(n / 10 < ten_pow((k - 1) as nat));
        lemma_decimal_len(n / 10, (k - 1) as nat);
    }
}

/// Answers one step of a listing. Running past the last row ends the
/// enumeration with the status the client clears without complaining.
pub open spec fn spec_listing_response(rows: Seq<Row>, index: Option<int>) -> Result<Seq<u8>, FrameErrorView> {
    match index {
        Some(i) => spec_row_response(rows, i),
        None => Ok(spec_status_response(STATUS_END_OF_LISTING)),
    }
}

/// The row to list from `rows` starting at `start`: the first at or after it
/// inside the walker's scope.
pub open spec fn spec_first_visible(actor: Account, rows: Seq<Row>, start: int) -> Option<int>
    decreases rows.len() - start,
{
    if start < 0 || start >= rows.len() {
        None
    } else if !spec_outside(actor, row_names(rows[start])) {
        Some(start)
    } else {
        spec_first_visible(actor, rows, start + 1)
    }
}

/// A filter held by the request that carries it over to the directory read.
#[derive(Clone, Debug)]
pub enum OwnedFilter {
    Start,
    Skip,
    Name(Vec<u8>),
}

impl View for OwnedFilter {
    type V = FilterView;

    open spec fn view(&self) -> FilterView {
        match self {
            OwnedFilter::Start => FilterView::Start,
            OwnedFilter::Skip => FilterView::Skip,
            OwnedFilter::Name(n) => FilterView::Name(n@),
        }
    }
}

pub fn own_filter(f: Filter) -> (r: OwnedFilter)
    ensures
        r@ == f@,
{
    match f {
        Filter::Start => OwnedFilter::Start,
        Filter::Skip => OwnedFilter::Skip,
        Filter::Name(n) => OwnedFilter::Name(copy_bytes(n)),
    }
}

/// The prefix a `0x1e` filter triple names, or where the listing starts when
/// it names none: the client repeats the previous row as the filter of the
/// next `0x1e`, so the three names address a record instead of starting a
/// search, and the answer is the row right after the last one matching them.
pub open spec fn spec_seek(rows: Seq<Row>, c: FilterView, g: FilterView, u: FilterView) -> Option<int> {
    match c {
        FilterView::Start => Some(0),
        FilterView::Skip => None,
        FilterView::Name(company) => {
            let prefix = match g {
                FilterView::Name(group) => match u {
                    FilterView::Name(user) => seq![company, group, user],
                    _ => seq![company, group],
                },
                _ => seq![company],
            };
            match spec_rfind(rows, prefix) {
                Some(i) => Some(i + 1),
                None => None,
            }
        },
    }
}

pub fn seek(directory: &Directory, c: &OwnedFilter, g: &OwnedFilter, u: &OwnedFilter) -> (r: Option<usize>)
    ensures
        match spec_seek(directory.rows@, c@, g@, u@) {
            Some(i) => r matches Some(x) && x == i,
            None => r is None,
        },
{
    let company = match c {
        OwnedFilter::Start => {
            return Some(0);
        },
        OwnedFilter::Skip => {
            return None;
        },
        OwnedFilter::Name(company) => company.as_slice(),
    };
    let mut prefix: Vec<&[u8]> = Vec::new();
    prefix.push(company);
    match g {
        OwnedFilter::Name(group) => {
            prefix.push(group.as_slice());
            match u {
                OwnedFilter::Name(user) => {
                    prefix.push(user.as_slice());
                },
                _ => {},
            }
        },
        _ => {},
    }
    proof {
        let expected = match g@ {
            FilterView::Name(group) => match u@ {
                FilterView::Name(user) => seq![company@, group, user],
                _ => seq![company@, group],
            },
            _ => seq![company@],
        };
        assert(slices_view(prefix@) =~= expected);
    }
    let n = directory.rows.len();
    let ghost expected = match g@ {
        FilterView::Name(group) => match u@ {
            FilterView::Name(user) => seq![company@, group, user],
            _ => seq![company@, group],
        },
        _ => seq![company@],
    };
    assert(c@ == FilterView::Name(company@));
    assert(spec_seek(directory.rows@, c@, g@, u@) == match spec_rfind(directory.rows@, expected) {
        Some(i) => Some(i + 1),
        None => None::<int>,
    });
    proof {
        lemma_rfind_bound(directory.rows@, slices_view(prefix@));
    }
    let found = directory.find(prefix.as_slice())?;
    Some(found + 1)
}

proof fn lemma_rfind_bound(rows: Seq<Row>, prefix: Seq<Seq<u8>>)
    ensures
        spec_rfind(rows, prefix) matches Some(i) ==> 0 <= i < rows.len(),
    decreases rows.len(),
{
    if rows.len() > 0 {
        lemma_rfind_bound(rows.drop_last(), prefix);
    }
}

/// The cursor a query handed out, which is the index of the row in the
/// loaded directory.
pub open spec fn spec_cursor(rs: Seq<(u8, Seq<u8>)>) -> Option<usize> {
    match spec_find(rs, TAG_CURSOR) {
        Some(v) => spec_parse_usize(v),
        None => None,
    }
}

pub fn cursor(records: &[TlvEntry]) -> (r: Option<usize>)
    ensures
        r == spec_cursor(entries_view(records@)),
{
    match record(records, TAG_CURSOR) {
        Some(v) => parse_usize(v),
        None => None,
    }
}

/// `0x1f` continues a user listing by echoing the cursor of the previous row;
/// the listing goes on after it. A cursor naming the last index there is goes
/// on past every row.
pub open spec fn spec_resume(rs: Seq<(u8, Seq<u8>)>) -> Option<usize> {
    match spec_cursor(rs) {
        Some(i) => if i < usize::MAX {
            Some((i + 1) as usize)
        } else {
            None
        },
        None => None,
    }
}

pub fn resume(records: &[TlvEntry]) -> (r: Option<usize>)
    ensures
        r == spec_resume(entries_view(records@)),
{
    match cursor(records) {
        Some(i) => if i < usize::MAX {
            Some(i + 1)
        } else {
            None
        },
        None => None,
    }
}


// ---------------------------------------------------------------------------
// The session
// ---------------------------------------------------------------------------

/// What one request asks of the directory before it can be answered.
#[derive(Clone, Debug)]
pub enum DirectoryRequest {
    /// The record named by the full triple, at a query level.
    Query { level: u8, company: Vec<u8>, group: Vec<u8>, user: Vec<u8> },
    /// A listing step after the record the filters name.
    ListFirst { company: OwnedFilter, group: OwnedFilter, user: OwnedFilter },
    /// A listing step from this index on.
    ListNext { start: Option<usize> },
    /// An update of the row at the cursor, with the fields the request sets.
    Update { cursor: Option<usize>, authority: Option<u16>, quota: Option<u32> },
    /// A delete of the row at the cursor.
    Delete { cursor: Option<usize> },
}

/// What a request comes to before the store is consulted.
#[derive(Clone, Debug)]
pub enum SentryStep {
    /// Nothing is sent back.
    Ignore,
    /// This payload is sent back.
    Reply(Vec<u8>),
    /// The directory is read and handed to [`SentryServer::answer`] with this
    /// request; a directory that cannot be read is answered with
    /// [`unreadable_directory`].
    ReadDirectory(DirectoryRequest),
    /// The company is stored; the outcome goes to [`store_response`].
    AddCompany { company: Vec<u8>, quota: u32 },
    /// The company is looked up ([`lookup_refusal`] with
    /// [`STATUS_COMPANY_NOT_DEFINED`]) and the group stored under it.
    AddGroup { company: Vec<u8>, group: Vec<u8>, quota: u32 },
    /// The group is looked up ([`lookup_refusal`] with
    /// [`STATUS_ACCOUNT_NOT_DEFINED`]) and the user stored under it.
    AddUser {
        company: Vec<u8>,
        group: Vec<u8>,
        user: Vec<u8>,
        password: Vec<u8>,
        authority: u16,
        quota: u32,
    },
    /// The password is stored; the outcome goes to [`password_response`].
    ChangePassword { company: Vec<u8>, group: Vec<u8>, user: Vec<u8>, password: Vec<u8> },
}

/// What a request that read the directory comes to.
#[derive(Clone, Debug)]
pub enum DirectoryStep {
    /// Nothing is sent back: the reply could not be built.
    Ignore,
    /// This payload is sent back.
    Reply(Vec<u8>),
    /// These writes are made; the outcome goes to [`write_response`].
    UpdateCompany { company: Vec<u8>, quota: u32 },
    UpdateGroup { company: Vec<u8>, group: Vec<u8>, quota: u32 },
    UpdateUser { company: Vec<u8>, group: Vec<u8>, user: Vec<u8>, authority: u16, quota: u32 },
    DeleteCompany { company: Vec<u8> },
    DeleteGroup { company: Vec<u8>, group: Vec<u8> },
    DeleteUser { company: Vec<u8>, group: Vec<u8>, user: Vec<u8> },
}

pub open spec fn reply_is(r: SentryStep, bytes: Seq<u8>) -> bool {
    r matches SentryStep::Reply(v) && v@ == bytes
}

pub open spec fn status_is(r: SentryStep, status: u16) -> bool {
    reply_is(r, spec_status_response(status))
}

pub open spec fn dir_reply_is(r: DirectoryStep, bytes: Seq<u8>) -> bool {
    r matches DirectoryStep::Reply(v) && v@ == bytes
}

/// A name a request sets, or the account's own when it sets none.
pub open spec fn spec_name_or(rs: Seq<(u8, Seq<u8>)>, tag: u8, own: Seq<u8>) -> Seq<u8> {
    match spec_find(rs, tag) {
        Some(v) => if v.len() > 0 {
            v
        } else {
            own
        },
        None => own,
    }
}

/// The authority an add-user request asks for.
pub open spec fn spec_requested_authority(rs: Seq<(u8, Seq<u8>)>) -> Option<u16> {
    match spec_find(rs, TAG_AUTHORITY) {
        Some(v) => match spec_authority_read(v) {
            Some(a) => Some(a.0),
            None => None,
        },
        None => None,
    }
}

/// The query level a request asks for, the level of a user when it asks for
/// none.
pub open spec fn spec_query_level(rs: Seq<(u8, Seq<u8>)>) -> u8 {
    match spec_find(rs, TAG_QUERY_LEVEL) {
        Some(v) => if v.len() == 1 {
            v[0]
        } else {
            QUERY_USER
        },
        None => QUERY_USER,
    }
}

/// The step an add-company request comes to.
pub open spec fn spec_add_company(actor: Account, rs: Seq<(u8, Seq<u8>)>, r: SentryStep) -> bool {
    let company = spec_record_or_empty(rs, PROPERTY_COMPANY);
    if actor.authority < SYSTEM_ADMIN {
        status_is(r, STATUS_INSUFFICIENT_AUTHORITY)
    } else {
        match spec_name_refusal(seq![company]) {
            Some(s) => status_is(r, s),
            None => (r matches SentryStep::AddCompany { company: c, quota } && c@ == company
                && quota == spec_quota_or_zero(rs)),
        }
    }
}

pub open spec fn spec_quota_or_zero(rs: Seq<(u8, Seq<u8>)>) -> u32 {
    match spec_quota_field(rs) {
        Some(q) => q,
        None => 0,
    }
}

/// The step an add-group request comes to.
pub open spec fn spec_add_group(actor: Account, rs: Seq<(u8, Seq<u8>)>, r: SentryStep) -> bool {
    let company = spec_record_or_empty(rs, PROPERTY_COMPANY);
    let group = spec_record_or_empty(rs, PROPERTY_GROUP);
    if actor.authority < COMPANY_ADMIN {
        status_is(r, STATUS_INSUFFICIENT_AUTHORITY)
    } else {
        match spec_name_refusal(seq![company, group]) {
            Some(s) => status_is(r, s),
            None => (r matches SentryStep::AddGroup { company: c, group: g, quota } && c@ == company
                && g@ == group && quota == spec_quota_or_zero(rs)),
        }
    }
}

/// The step an add-user request comes to. Without the escalation check an
/// account may mint one above itself and sign back on as it, which turns the
/// whole threshold ladder into a single step.
pub open spec fn spec_add_user(actor: Account, rs: Seq<(u8, Seq<u8>)>, r: SentryStep) -> bool {
    let company = spec_record_or_empty(rs, PROPERTY_COMPANY);
    let group = spec_record_or_empty(rs, PROPERTY_GROUP);
    let user = spec_record_or_empty(rs, PROPERTY_USER);
    let password = spec_record_or_empty(rs, PROPERTY_PASSWORD);
    let authority = match spec_requested_authority(rs) {
        Some(a) => a,
        None => NORMAL,
    };
    if actor.authority < GROUP_ADMIN {
        status_is(r, STATUS_INSUFFICIENT_AUTHORITY)
    } else if !spec_is_defined(authority) {
        status_is(r, STATUS_INVALID_AUTHORITY)
    } else if authority > actor.authority {
        status_is(r, STATUS_INSUFFICIENT_AUTHORITY)
    } else {
        match spec_name_refusal(seq![company, group, user, password]) {
            Some(s) => status_is(r, s),
            None => (r matches SentryStep::AddUser {
                company: c,
                group: g,
                user: u,
                password: p,
                authority: a,
                quota,
            } && c@ == company && g@ == group && u@ == user && p@ == password && a == authority
                && quota == spec_quota_or_zero(rs)),
        }
    }
}

/// The step a change-password request comes to. The names an account leaves
/// out mean its own. Any account may change its own password; changing that of
/// another needs the authority and the scope.
pub open spec fn spec_change_password(actor: Account, rs: Seq<(u8, Seq<u8>)>, r: SentryStep) -> bool {
    let company = spec_name_or(rs, PROPERTY_COMPANY, actor.company@);
    let group = spec_name_or(rs, PROPERTY_GROUP, actor.group@);
    let user = spec_name_or(rs, PROPERTY_USER, actor.user@);
    let password = spec_record_or_empty(rs, PROPERTY_PASSWORD);
    let names = seq![company, group, user];
    match spec_name_refusal(seq![company, group, user, password]) {
        Some(s) => status_is(r, s),
        None => if names != own_names(actor) && actor.authority < GROUP_ADMIN {
            status_is(r, STATUS_INSUFFICIENT_AUTHORITY)
        } else if names != own_names(actor) && spec_outside(actor, names) {
            status_is(r, STATUS_INSUFFICIENT_AUTHORITY)
        } else {
            (r matches SentryStep::ChangePassword { company: c, group: g, user: u, password: p }
                && c@ == company && g@ == group && u@ == user && p@ == password)
        },
    }
}

/// The step a query comes to. A name the request leaves out is taken from the
/// signed-on account, which is what makes "Query User Information" work: it
/// sends the level alone, meaning "the account I am".
pub open spec fn spec_query(actor: Account, rs: Seq<(u8, Seq<u8>)>, r: SentryStep) -> bool {
    let level = spec_query_level(rs);
    let company = spec_name_or(rs, PROPERTY_COMPANY, actor.company@);
    let group = spec_name_or(rs, PROPERTY_GROUP, actor.group@);
    let user = spec_name_or(rs, PROPERTY_USER, actor.user@);
    if level != QUERY_COMPANY && level != QUERY_GROUP && level != QUERY_USER {
        status_is(r, STATUS_ACCOUNT_NOT_DEFINED)
    } else {
        let names = if level == QUERY_COMPANY {
            seq![company, company, company]
        } else if level == QUERY_GROUP {
            seq![company, group, group]
        } else {
            seq![company, group, user]
        };
        r matches SentryStep::ReadDirectory(DirectoryRequest::Query { level: l, company: c, group: g, user: u })
            && l == level && c@ == names[0] && g@ == names[1] && u@ == names[2]
    }
}

/// The step a request comes to, whatever the directory holds.
pub open spec fn spec_process(actor: Account, payload: Seq<u8>, r: SentryStep) -> bool {
    if payload.len() == 0 {
        r is Ignore
    } else {
        match spec_records(payload.drop_first()) {
            None => r is Ignore,
            Some(rs) => {
                let command = payload[0];
                if command == COMMAND_VARIANT_QUERY {
                    reply_is(r, spec_variant_response(actor.authority))
                } else if command == COMMAND_ADD_USER {
                    spec_add_user(actor, rs, r)
                } else if command == COMMAND_ADD_GROUP {
                    spec_add_group(actor, rs, r)
                } else if command == COMMAND_ADD_COMPANY {
                    spec_add_company(actor, rs, r)
                } else if command == COMMAND_LIST_FIRST {
                    if actor.authority < GROUP_ADMIN {
                        status_is(r, STATUS_INSUFFICIENT_AUTHORITY)
                    } else {
                        r matches SentryStep::ReadDirectory(DirectoryRequest::ListFirst { company: c, group: g, user: u })
                            && c@ == spec_filter(rs, PROPERTY_COMPANY) && g@ == spec_filter(
                            rs,
                            PROPERTY_GROUP,
                        ) && u@ == spec_filter(rs, PROPERTY_USER)
                    }
                } else if command == COMMAND_LIST_NEXT {
                    if actor.authority < GROUP_ADMIN {
                        status_is(r, STATUS_INSUFFICIENT_AUTHORITY)
                    } else {
                        r matches SentryStep::ReadDirectory(DirectoryRequest::ListNext { start })
                            && start == spec_resume(rs)
                    }
                } else if command == COMMAND_QUERY {
                    spec_query(actor, rs, r)
                } else if command == COMMAND_UPDATE {
                    r matches SentryStep::ReadDirectory(DirectoryRequest::Update { cursor, authority, quota })
                        && cursor == spec_cursor(rs) && authority == spec_requested_authority(rs)
                        && quota == spec_quota_field(rs)
                } else if command == COMMAND_DELETE {
                    r matches SentryStep::ReadDirectory(DirectoryRequest::Delete { cursor })
                        && cursor == spec_cursor(rs)
                } else if command == COMMAND_CHANGE_PASSWORD {
                    spec_change_password(actor, rs, r)
                } else {
                    r is Ignore
                }
            },
        }
    }
}

/// The signed-on session of one account.
pub struct SentryServer {
    /// The account this session signed on as, carried whole rather than
    /// looked up per command. It cannot change while the session lives: a
    /// sign-off drops the whole server.
    actor: Account,
}

impl SentryServer {
    pub closed spec fn actor(self) -> Account {
        self.actor
    }

    pub fn new(actor: Account) -> (r: Self)
        ensures
            r.actor() == actor,
    {
        SentryServer { actor }
    }

    pub fn authority(&self) -> (r: Authority)
        ensures
            r.0 == self.actor().authority,
    {
        Authority(self.actor.authority)
    }

    /// `None` means the command may proceed. The refusal is the whole
    /// enforcement — the variant byte only hides the menu, it does not stop a
    /// client that sends the command anyway.
    pub fn deny_below(&self, required: u16) -> (r: Option<Vec<u8>>)
        ensures
            self.actor().authority >= required ==> r is None,
            self.actor().authority < required ==> (r matches Some(v) && v@ == spec_status_response(
                STATUS_INSUFFICIENT_AUTHORITY,
            )),
    {
        if self.actor.authority >= required {
            None
        } else {
            Some(status_response(STATUS_INSUFFICIENT_AUTHORITY))
        }
    }

    pub fn outside(&self, company: &[u8], group: &[u8], user: &[u8]) -> (r: bool)
        ensures
            r == spec_outside(self.actor(), seq![company@, group@, user@]),
    {
        let ghost names = seq![company@, group@, user@];
        let authority = self.actor.authority;
        let d = depth(company, group, user);
        let depth: usize = if authority == SYSTEM_ADMIN {
            0
        } else if authority == COMPANY_ADMIN {
            if d < 1 {
                d
            } else {
                1
            }
        } else if authority == GROUP_ADMIN {
            if d < 2 {
                d
            } else {
                2
            }
        } else {
            3
        };
        let mut k: usize = 0;
        while k < depth
            invariant
                depth <= 3,
                depth == spec_scope_depth(self.actor(), names),
                k <= depth,
                names == seq![company@, group@, user@],
                forall|j: int| 0 <= j < k ==> spec_eq_ic(#[trigger] names[j], own_names(self.actor())[j]),
            decreases depth - k,
        {
            let (name, own) = if k == 0 {
                (company, self.actor.company.as_slice())
            } else if k == 1 {
                (group, self.actor.group.as_slice())
            } else {
                (user, self.actor.user.as_slice())
            };
            if !eq_ignore_ascii_case(name, own) {
                assert(!spec_eq_ic(names[k as int], own_names(self.actor())[k as int]));
                return true;
            }
            k = k + 1;
        }
        false
    }

    pub fn deny_outside(&self, company: &[u8], group: &[u8], user: &[u8]) -> (r: Option<Vec<u8>>)
        ensures
            !spec_outside(self.actor(), seq![company@, group@, user@]) ==> r is None,
            spec_outside(self.actor(), seq![company@, group@, user@]) ==> (r matches Some(v) && v@
                == spec_status_response(STATUS_INSUFFICIENT_AUTHORITY)),
    {
        if self.outside(company, group, user) {
            Some(status_response(STATUS_INSUFFICIENT_AUTHORITY))
        } else {
            None
        }
    }

    /// A write needs both the level's own threshold and the record being
    /// inside the actor's scope; the two are separate because an account may
    /// well hold the level and still be aiming at another company.
    pub fn deny_write(&self, row: &Row) -> (r: Option<Vec<u8>>)
        ensures
            !spec_denies_write(self.actor(), *row) ==> r is None,
            spec_denies_write(self.actor(), *row) ==> (r matches Some(v) && v@ == spec_status_response(
                STATUS_INSUFFICIENT_AUTHORITY,
            )),
    {
        let level = row.level();
        if self.actor.authority < level.required().0 {
            return Some(status_response(STATUS_INSUFFICIENT_AUTHORITY));
        }
        self.deny_outside(row.company.as_slice(), row.group.as_slice(), row.user.as_slice())
    }

    fn name_or_own<'a>(&'a self, records: &[TlvEntry<'a>], tag: u8, own: &'a [u8]) -> (r: &'a [u8])
        ensures
            r@ == spec_name_or(entries_view(records@), tag, own@),
    {
        match record(records, tag) {
            Some(v) => if v.len() > 0 {
                v
            } else {
                own
            },
            None => own,
        }
    }

    /// Whether `names` are the names of the signed-on account, exactly.
    fn is_own(&self, company: &[u8], group: &[u8], user: &[u8]) -> (r: bool)
        ensures
            r == (seq![company@, group@, user@] == own_names(self.actor())),
    {
        let same = crate::bytes::bytes_equal(company, self.actor.company.as_slice())
            && crate::bytes::bytes_equal(group, self.actor.group.as_slice())
            && crate::bytes::bytes_equal(user, self.actor.user.as_slice());
        proof {
            if seq![company@, group@, user@] == own_names(self.actor()) {
                assert(seq![company@, group@, user@][0] == own_names(self.actor())[0]);
                assert(seq![company@, group@, user@][1] == own_names(self.actor())[1]);
                assert(seq![company@, group@, user@][2] == own_names(self.actor())[2]);
            }
            if same {
                assert(seq![company@, group@, user@] =~= own_names(self.actor()));
            }
        }
        same
    }
}

/// Whether the actor may not write `row`: it lacks the level's threshold or
/// the row is outside its scope.
pub open spec fn spec_denies_write(actor: Account, row: Row) -> bool {
    actor.authority < spec_level(row_names(row)).spec_required() || spec_outside(actor, row_names(row))
}


impl SentryServer {
    fn add_company(&self, records: &[TlvEntry]) -> (r: SentryStep)
        ensures
            spec_add_company(self.actor(), entries_view(records@), r),
    {
        let company = record_or_empty(records, PROPERTY_COMPANY);
        let quota = quota(records);
        if let Some(denied) = self.deny_below(SYSTEM_ADMIN) {
            return SentryStep::Reply(denied);
        }
        let fields = [company];
        assert(slices_view(fields@) =~= seq![company@]);
        if let Err(refused) = ascii_names(fields.as_slice()) {
            return SentryStep::Reply(refused);
        }
        SentryStep::AddCompany { company: copy_bytes(company), quota }
    }

    fn add_group(&self, records: &[TlvEntry]) -> (r: SentryStep)
        ensures
            spec_add_group(self.actor(), entries_view(records@), r),
    {
        let company = record_or_empty(records, PROPERTY_COMPANY);
        let group = record_or_empty(records, PROPERTY_GROUP);
        let quota = quota(records);
        if let Some(denied) = self.deny_below(COMPANY_ADMIN) {
            return SentryStep::Reply(denied);
        }
        let fields = [company, group];
        assert(slices_view(fields@) =~= seq![company@, group@]);
        if let Err(refused) = ascii_names(fields.as_slice()) {
            return SentryStep::Reply(refused);
        }
        SentryStep::AddGroup { company: copy_bytes(company), group: copy_bytes(group), quota }
    }

    fn add_user(&self, records: &[TlvEntry]) -> (r: SentryStep)
        ensures
            spec_add_user(self.actor(), entries_view(records@), r),
    {
        let company = record_or_empty(records, PROPERTY_COMPANY);
        let group = record_or_empty(records, PROPERTY_GROUP);
        let user = record_or_empty(records, PROPERTY_USER);
        let password = record_or_empty(records, PROPERTY_PASSWORD);
        let quota = quota(records);
        let authority = match record(records, TAG_AUTHORITY) {
            Some(v) => match Authority::read(v) {
                Some(a) => a.0,
                None => NORMAL,
            },
            None => NORMAL,
        };
        if let Some(denied) = self.deny_below(GROUP_ADMIN) {
            return SentryStep::Reply(denied);
        }
        if !Authority(authority).is_defined() {
            return SentryStep::Reply(status_response(STATUS_INVALID_AUTHORITY));
        }
        if authority > self.actor.authority {
            return SentryStep::Reply(status_response(STATUS_INSUFFICIENT_AUTHORITY));
        }
        let fields = [company, group, user, password];
        assert(slices_view(fields@) =~= seq![company@, group@, user@, password@]);
        if let Err(refused) = ascii_names(fields.as_slice()) {
            return SentryStep::Reply(refused);
        }
        SentryStep::AddUser {
            company: copy_bytes(company),
            group: copy_bytes(group),
            user: copy_bytes(user),
            password: copy_bytes(password),
            authority,
            quota,
        }
    }

    fn change_password(&self, records: &[TlvEntry]) -> (r: SentryStep)
        ensures
            spec_change_password(self.actor(), entries_view(records@), r),
    {
        let company = self.name_or_own(records, PROPERTY_COMPANY, self.actor.company.as_slice());
        let group = self.name_or_own(records, PROPERTY_GROUP, self.actor.group.as_slice());
        let user = self.name_or_own(records, PROPERTY_USER, self.actor.user.as_slice());
        let password = record_or_empty(records, PROPERTY_PASSWORD);
        let fields = [company, group, user, password];
        assert(slices_view(fields@) =~= seq![company@, group@, user@, password@]);
        if let Err(refused) = ascii_names(fields.as_slice()) {
            return SentryStep::Reply(refused);
        }
        if !self.is_own(company, group, user) {
            if let Some(denied) = self.deny_below(GROUP_ADMIN) {
                return SentryStep::Reply(denied);
            }
            if let Some(denied) = self.deny_outside(company, group, user) {
                return SentryStep::Reply(denied);
            }
        }
        SentryStep::ChangePassword {
            company: copy_bytes(company),
            group: copy_bytes(group),
            user: copy_bytes(user),
            password: copy_bytes(password),
        }
    }

    fn query(&self, records: &[TlvEntry]) -> (r: SentryStep)
        ensures
            spec_query(self.actor(), entries_view(records@), r),
    {
        let level = match record(records, TAG_QUERY_LEVEL) {
            Some(v) => if v.len() == 1 {
                v[0]
            } else {
                QUERY_USER
            },
            None => QUERY_USER,
        };
        let company = self.name_or_own(records, PROPERTY_COMPANY, self.actor.company.as_slice());
        let group = self.name_or_own(records, PROPERTY_GROUP, self.actor.group.as_slice());
        let user = self.name_or_own(records, PROPERTY_USER, self.actor.user.as_slice());
        // Addressed by the full triple rather than a prefix: repeating the
        // name above is what picks a company row out of its own subtree.
        let (c, g, u) = if level == QUERY_COMPANY {
            (company, company, company)
        } else if level == QUERY_GROUP {
            (company, group, group)
        } else if level == QUERY_USER {
            (company, group, user)
        } else {
            return SentryStep::Reply(status_response(STATUS_ACCOUNT_NOT_DEFINED));
        };
        SentryStep::ReadDirectory(
            DirectoryRequest::Query {
                level,
                company: copy_bytes(c),
                group: copy_bytes(g),
                user: copy_bytes(u),
            },
        )
    }

    /// What a request comes to before the store is consulted.
    pub fn process(&self, payload: &[u8]) -> (r: SentryStep)
        ensures
            spec_process(self.actor(), payload@, r),
    {
        if payload.len() == 0 {
            return SentryStep::Ignore;
        }
        let command = payload[0];
        let body = &payload[1..payload.len()];
        assert(body@ =~= payload@.drop_first());
        let records = match records(body) {
            Some(records) => records,
            None => {
                return SentryStep::Ignore;
            },
        };
        let records = records.as_slice();
        if command == COMMAND_VARIANT_QUERY {
            SentryStep::Reply(variant_response(self.authority()))
        } else if command == COMMAND_ADD_USER {
            self.add_user(records)
        } else if command == COMMAND_ADD_GROUP {
            self.add_group(records)
        } else if command == COMMAND_ADD_COMPANY {
            self.add_company(records)
        } else if command == COMMAND_LIST_FIRST {
            // Walking the directory is an administrator's business.
            if let Some(denied) = self.deny_below(GROUP_ADMIN) {
                return SentryStep::Reply(denied);
            }
            SentryStep::ReadDirectory(
                DirectoryRequest::ListFirst {
                    company: own_filter(filter(records, PROPERTY_COMPANY)),
                    group: own_filter(filter(records, PROPERTY_GROUP)),
                    user: own_filter(filter(records, PROPERTY_USER)),
                },
            )
        } else if command == COMMAND_LIST_NEXT {
            if let Some(denied) = self.deny_below(GROUP_ADMIN) {
                return SentryStep::Reply(denied);
            }
            SentryStep::ReadDirectory(DirectoryRequest::ListNext { start: resume(records) })
        } else if command == COMMAND_QUERY {
            self.query(records)
        } else if command == COMMAND_UPDATE {
            // The request carries no names, only the cursor of the preceding
            // query, so an update can never reach a row the client was not
            // allowed to read.
            let authority = match record(records, TAG_AUTHORITY) {
                Some(v) => match Authority::read(v) {
                    Some(a) => Some(a.0),
                    None => None,
                },
                None => None,
            };
            SentryStep::ReadDirectory(
                DirectoryRequest::Update {
                    cursor: cursor(records),
                    authority,
                    quota: quota_field(records),
                },
            )
        } else if command == COMMAND_DELETE {
            SentryStep::ReadDirectory(DirectoryRequest::Delete { cursor: cursor(records) })
        } else if command == COMMAND_CHANGE_PASSWORD {
            self.change_password(records)
        } else {
            SentryStep::Ignore
        }
    }
}


pub open spec fn dir_status_is(r: DirectoryStep, status: u16) -> bool {
    dir_reply_is(r, spec_status_response(status))
}

/// The step a listing reply comes to.
pub open spec fn spec_listing_step(rows: Seq<Row>, index: Option<int>, r: DirectoryStep) -> bool {
    match spec_listing_response(rows, index) {
        Ok(b) => dir_reply_is(r, b),
        Err(_) => r is Ignore,
    }
}

/// What a request that read `rows` comes to.
pub open spec fn spec_answer(actor: Account, request: DirectoryRequest, rows: Seq<Row>, r: DirectoryStep) -> bool {
    match request {
        DirectoryRequest::Query { level, company, group, user } => {
            let names = seq![company@, group@, user@];
            match spec_rfind(rows, names) {
                None => dir_status_is(
                    r,
                    if level == QUERY_COMPANY {
                        STATUS_COMPANY_NOT_DEFINED
                    } else {
                        STATUS_ACCOUNT_NOT_DEFINED
                    },
                ),
                Some(i) => if spec_outside(actor, names) {
                    dir_status_is(r, STATUS_INSUFFICIENT_AUTHORITY)
                } else {
                    spec_listing_step(rows, Some(i), r)
                },
            }
        },
        DirectoryRequest::ListFirst { company, group, user } => {
            let index = match spec_seek(rows, company@, group@, user@) {
                Some(s) => spec_first_visible(actor, rows, s),
                None => None,
            };
            spec_listing_step(rows, index, r)
        },
        DirectoryRequest::ListNext { start } => {
            let index = match start {
                Some(s) => spec_first_visible(actor, rows, s as int),
                None => None,
            };
            spec_listing_step(rows, index, r)
        },
        DirectoryRequest::Update { cursor, authority, quota } => match cursor {
            Some(i) if i < rows.len() => {
                let row = rows[i as int];
                let a = match authority {
                    Some(a) => a,
                    None => row.authority.0,
                };
                let q = match quota {
                    Some(q) => q,
                    None => row.quota,
                };
                if spec_denies_write(actor, row) {
                    dir_status_is(r, STATUS_INSUFFICIENT_AUTHORITY)
                } else if !spec_is_defined(a) {
                    dir_status_is(r, STATUS_INVALID_AUTHORITY)
                } else if a > actor.authority {
                    dir_status_is(r, STATUS_INSUFFICIENT_AUTHORITY)
                } else {
                    match spec_level(row_names(row)) {
                        Level::Company => (r matches DirectoryStep::UpdateCompany { company, quota }
                            && company@ == row.company@ && quota == q),
                        Level::Group => (r matches DirectoryStep::UpdateGroup { company, group, quota }
                            && company@ == row.company@ && group@ == row.group@ && quota == q),
                        Level::User => (r matches DirectoryStep::UpdateUser {
                            company,
                            group,
                            user,
                            authority,
                            quota,
                        } && company@ == row.company@ && group@ == row.group@ && user@
                            == row.user@ && authority == a && quota == q),
                    }
                }
            },
            _ => dir_status_is(r, STATUS_ACCOUNT_NOT_DEFINED),
        },
        DirectoryRequest::Delete { cursor } => match cursor {
            Some(i) if i < rows.len() => {
                let row = rows[i as int];
                if spec_denies_write(actor, row) {
                    dir_status_is(r, STATUS_INSUFFICIENT_AUTHORITY)
                } else if row_names(row) == own_names(actor) {
                    // Deleting the account this session signed on as would
                    // leave the session authenticated against a record that
                    // no longer exists.
                    dir_status_is(r, STATUS_INSUFFICIENT_AUTHORITY)
                } else {
                    match spec_level(row_names(row)) {
                        Level::Company => (r matches DirectoryStep::DeleteCompany { company }
                            && company@ == row.company@),
                        Level::Group => (r matches DirectoryStep::DeleteGroup { company, group }
                            && company@ == row.company@ && group@ == row.group@),
                        Level::User => (r matches DirectoryStep::DeleteUser { company, group, user }
                            && company@ == row.company@ && group@ == row.group@ && user@
                            == row.user@),
                    }
                }
            },
            _ => dir_status_is(r, STATUS_ACCOUNT_NOT_DEFINED),
        },
    }
}

impl SentryServer {
    /// The first row at or after `start` that is inside the walker's scope:
    /// each step skips the rows outside it rather than stopping at them, as an
    /// administrator whose own block sorts after somebody else's has to be
    /// carried past it.
    pub fn first_visible(&self, rows: &Vec<Row>, start: usize) -> (r: Option<usize>)
        ensures
            match spec_first_visible(self.actor(), rows@, start as int) {
                Some(i) => (r matches Some(x) && x == i) && start <= i < rows@.len(),
                None => r is None,
            },
    {
        proof {
            lemma_first_visible_bound(self.actor(), rows@, start as int);
        }
        let mut i = start;
        while i < rows.len()
            invariant
                start <= i,
                spec_first_visible(self.actor(), rows@, start as int) == spec_first_visible(
                    self.actor(),
                    rows@,
                    i as int,
                ),
            decreases rows@.len() - i,
        {
            let row = &rows[i];
            if !self.outside(row.company.as_slice(), row.group.as_slice(), row.user.as_slice()) {
                assert(row_names(*row) == seq![row.company@, row.group@, row.user@]);
                return Some(i);
            }
            i = i + 1;
        }
        None
    }

    fn listing(&self, rows: &Vec<Row>, index: Option<usize>) -> (r: DirectoryStep)
        ensures
            spec_listing_step(
                rows@,
                match index {
                    Some(i) => Some(i as int),
                    None => None,
                },
                r,
            ),
    {
        let response = match index {
            Some(i) => row_response(rows, i),
            None => Ok(status_response(STATUS_END_OF_LISTING)),
        };
        match response {
            Ok(b) => DirectoryStep::Reply(b),
            Err(_) => DirectoryStep::Ignore,
        }
    }

    fn update(
        &self,
        rows: &Vec<Row>,
        cursor: Option<usize>,
        authority: Option<u16>,
        quota: Option<u32>,
    ) -> (r: DirectoryStep)
        ensures
            spec_answer(
                self.actor(),
                DirectoryRequest::Update { cursor, authority, quota },
                rows@,
                r,
            ),
    {
        let row = match cursor {
            Some(i) => if i < rows.len() {
                &rows[i]
            } else {
                return DirectoryStep::Reply(status_response(STATUS_ACCOUNT_NOT_DEFINED));
            },
            None => {
                return DirectoryStep::Reply(status_response(STATUS_ACCOUNT_NOT_DEFINED));
            },
        };
        let a = match authority {
            Some(a) => a,
            None => row.authority.0,
        };
        let q = match quota {
            Some(q) => q,
            None => row.quota,
        };
        if let Some(denied) = self.deny_write(row) {
            return DirectoryStep::Reply(denied);
        }
        if !Authority(a).is_defined() {
            return DirectoryStep::Reply(status_response(STATUS_INVALID_AUTHORITY));
        }
        // The same escalation guard the add path has: an account that may edit
        // a record must still not raise it above itself.
        if a > self.actor.authority {
            return DirectoryStep::Reply(status_response(STATUS_INSUFFICIENT_AUTHORITY));
        }
        match row.level() {
            Level::Company => DirectoryStep::UpdateCompany {
                company: copy_bytes(row.company.as_slice()),
                quota: q,
            },
            Level::Group => DirectoryStep::UpdateGroup {
                company: copy_bytes(row.company.as_slice()),
                group: copy_bytes(row.group.as_slice()),
                quota: q,
            },
            Level::User => DirectoryStep::UpdateUser {
                company: copy_bytes(row.company.as_slice()),
                group: copy_bytes(row.group.as_slice()),
                user: copy_bytes(row.user.as_slice()),
                authority: a,
                quota: q,
            },
        }
    }

    fn delete(&self, rows: &Vec<Row>, cursor: Option<usize>) -> (r: DirectoryStep)
        ensures
            spec_answer(self.actor(), DirectoryRequest::Delete { cursor }, rows@, r),
    {
        let row = match cursor {
            Some(i) => if i < rows.len() {
                &rows[i]
            } else {
                return DirectoryStep::Reply(status_response(STATUS_ACCOUNT_NOT_DEFINED));
            },
            None => {
                return DirectoryStep::Reply(status_response(STATUS_ACCOUNT_NOT_DEFINED));
            },
        };
        if let Some(denied) = self.deny_write(row) {
            return DirectoryStep::Reply(denied);
        }
        if self.is_own(row.company.as_slice(), row.group.as_slice(), row.user.as_slice()) {
            return DirectoryStep::Reply(status_response(STATUS_INSUFFICIENT_AUTHORITY));
        }
        match row.level() {
            Level::Company => DirectoryStep::DeleteCompany {
                company: copy_bytes(row.company.as_slice()),
            },
            Level::Group => DirectoryStep::DeleteGroup {
                company: copy_bytes(row.company.as_slice()),
                group: copy_bytes(row.group.as_slice()),
            },
            Level::User => DirectoryStep::DeleteUser {
                company: copy_bytes(row.company.as_slice()),
                group: copy_bytes(row.group.as_slice()),
                user: copy_bytes(row.user.as_slice()),
            },
        }
    }

    fn answer_query(
        &self,
        directory: &Directory,
        level: u8,
        company: &Vec<u8>,
        group: &Vec<u8>,
        user: &Vec<u8>,
    ) -> (r: DirectoryStep)
        ensures
            spec_answer(
                self.actor(),
                DirectoryRequest::Query {
                    level,
                    company: *company,
                    group: *group,
                    user: *user,
                },
                directory.rows@,
                r,
            ),
    {
        let rows = &directory.rows;
        let mut names: Vec<&[u8]> = Vec::new();
        names.push(company.as_slice());
        names.push(group.as_slice());
        names.push(user.as_slice());
        assert(slices_view(names@) =~= seq![company@, group@, user@]);
        proof {
            lemma_rfind_bound(rows@, slices_view(names@));
        }
        let index = match directory.find(names.as_slice()) {
            Some(index) => index,
            None => {
                let status = if level == QUERY_COMPANY {
                    STATUS_COMPANY_NOT_DEFINED
                } else {
                    STATUS_ACCOUNT_NOT_DEFINED
                };
                return DirectoryStep::Reply(status_response(status));
            },
        };
        if let Some(denied) = self.deny_outside(company.as_slice(), group.as_slice(), user.as_slice()) {
            return DirectoryStep::Reply(denied);
        }
        self.listing(rows, Some(index))
    }

    fn answer_list_first(
        &self,
        directory: &Directory,
        company: &OwnedFilter,
        group: &OwnedFilter,
        user: &OwnedFilter,
    ) -> (r: DirectoryStep)
        ensures
            spec_answer(
                self.actor(),
                DirectoryRequest::ListFirst { company: *company, group: *group, user: *user },
                directory.rows@,
                r,
            ),
    {
        let rows = &directory.rows;
        let index = match seek(directory, company, group, user) {
            Some(s) => self.first_visible(rows, s),
            None => None,
        };
        self.listing(rows, index)
    }

    fn answer_list_next(&self, directory: &Directory, start: Option<usize>) -> (r: DirectoryStep)
        ensures
            spec_answer(self.actor(), DirectoryRequest::ListNext { start }, directory.rows@, r),
    {
        let rows = &directory.rows;
        let index = match start {
            Some(s) => self.first_visible(rows, s),
            None => None,
        };
        self.listing(rows, index)
    }

    /// What a request that read the directory comes to.
    pub fn answer(&self, request: &DirectoryRequest, directory: &Directory) -> (r: DirectoryStep)
        ensures
            spec_answer(self.actor(), *request, directory.rows@, r),
    {
        match request {
            DirectoryRequest::Query { level, company, group, user } => self.answer_query(
                directory,
                *level,
                company,
                group,
                user,
            ),
            DirectoryRequest::ListFirst { company, group, user } => self.answer_list_first(
                directory,
                company,
                group,
                user,
            ),
            DirectoryRequest::ListNext { start } => self.answer_list_next(directory, *start),
            DirectoryRequest::Update { cursor, authority, quota } => self.update(
                &directory.rows,
                *cursor,
                *authority,
                *quota,
            ),
            DirectoryRequest::Delete { cursor } => self.delete(&directory.rows, *cursor),
        }
    }
}

proof fn lemma_first_visible_bound(actor: Account, rows: Seq<Row>, start: int)
    ensures
        spec_first_visible(actor, rows, start) matches Some(i) ==> start <= i < rows.len(),
    decreases rows.len() - start,
{
    if 0 <= start < rows.len() {
        lemma_first_visible_bound(actor, rows, start + 1);
    }
}

// ---------------------------------------------------------------------------
// What the store answered
// ---------------------------------------------------------------------------

/// How an insert into the store went.
#[derive(Clone, Copy, Debug, PartialEq, Eq)]
pub enum StoreOutcome {
    Stored,
    /// The unique indexes are case insensitive, so the insert *is* the
    /// duplicate check: a lookup first would only add a race between the two.
    Duplicate,
    Failed,
}

pub fn store_response(outcome: StoreOutcome) -> (r: Vec<u8>)
    ensures
        r@ == spec_status_response(
            match outcome {
                StoreOutcome::Stored => STATUS_OK,
                StoreOutcome::Duplicate => STATUS_ALREADY_DEFINED,
                StoreOutcome::Failed => STATUS_AUTHORIZATION_FILE,
            },
        ),
{
    status_response(
        match outcome {
            StoreOutcome::Stored => STATUS_OK,
            StoreOutcome::Duplicate => STATUS_ALREADY_DEFINED,
            StoreOutcome::Failed => STATUS_AUTHORIZATION_FILE,
        },
    )
}

/// Update and Delete want a bare acknowledgement rather than the status word
/// the add commands answer with. `written` is how many rows the write touched,
/// or nothing when it failed.
pub fn write_response(written: Option<usize>) -> (r: Vec<u8>)
    ensures
        written == Some(0usize) ==> r@ == spec_status_response(STATUS_ACCOUNT_NOT_DEFINED),
        written matches Some(n) && n > 0 ==> r@ == seq![COMMAND_ACK],
        written is None ==> r@ == spec_status_response(STATUS_AUTHORIZATION_FILE),
{
    match written {
        Some(0) => status_response(STATUS_ACCOUNT_NOT_DEFINED),
        Some(_) => {
            let mut r: Vec<u8> = Vec::new();
            r.push(COMMAND_ACK);
            assert(r@ =~= seq![COMMAND_ACK]);
            r
        },
        None => status_response(STATUS_AUTHORIZATION_FILE),
    }
}

/// The answer to a password change that touched `written` accounts, or
/// failed.
pub fn password_response(written: Option<usize>) -> (r: Vec<u8>)
    ensures
        written == Some(0usize) ==> r@ == spec_status_response(STATUS_ACCOUNT_NOT_DEFINED),
        written matches Some(n) && n > 0 ==> r@ == spec_status_response(STATUS_OK),
        written is None ==> r@ == spec_status_response(STATUS_AUTHORIZATION_FILE),
{
    match written {
        Some(0) => status_response(STATUS_ACCOUNT_NOT_DEFINED),
        Some(_) => status_response(STATUS_OK),
        None => status_response(STATUS_AUTHORIZATION_FILE),
    }
}

/// The id a lookup found, or the reply refusing the request: `missing` when
/// the parent is not defined, and the store's own failure when it could not
/// be read.
pub fn lookup_refusal(found: Option<Option<i64>>, missing: u16) -> (r: Result<i64, Vec<u8>>)
    ensures
        found matches Some(Some(id)) ==> r == Ok::<i64, Vec<u8>>(id),
        found == Some(None::<i64>) ==> (r matches Err(v) && v@ == spec_status_response(missing)),
        found is None ==> (r matches Err(v) && v@ == spec_status_response(STATUS_AUTHORIZATION_FILE)),
{
    match found {
        Some(Some(id)) => Ok(id),
        Some(None) => Err(status_response(missing)),
        None => Err(status_response(STATUS_AUTHORIZATION_FILE)),
    }
}

/// The error arm is already the response: an unreadable store is not an empty
/// one, and answering as if it were would invite the client to recreate
/// accounts that are still there.
pub fn unreadable_directory() -> (r: Vec<u8>)
    ensures
        r@ == spec_status_response(STATUS_AUTHORIZATION_FILE),
{
    status_response(STATUS_AUTHORIZATION_FILE)
}

/// No request lets an account create a user with an authority above its
/// own, nor one outside the defined levels.
pub proof fn lemma_add_user_never_escalates(actor: Account, payload: Seq<u8>, r: SentryStep)
    requires
        spec_process(actor, payload, r),
    ensures
        r matches SentryStep::AddUser { authority, .. } ==> authority <= actor.authority
            && spec_is_defined(authority),
{
}

/// No update gives an account an authority above that of the account making
/// it, nor one outside the defined levels.
pub proof fn lemma_update_never_escalates(
    actor: Account,
    request: DirectoryRequest,
    rows: Seq<Row>,
    r: DirectoryStep,
)
    requires
        spec_answer(actor, request, rows, r),
    ensures
        r matches DirectoryStep::UpdateUser { authority, .. } ==> authority <= actor.authority
            && spec_is_defined(authority),
{
}

/// Every write goes to a record the account may write: one at or below the
/// level its authority covers and inside its own subtree; and a session
/// never deletes the account it is signed on as.
pub proof fn lemma_writes_stay_in_scope(
    actor: Account,
    request: DirectoryRequest,
    rows: Seq<Row>,
    r: DirectoryStep,
)
    requires
        spec_answer(actor, request, rows, r),
    ensures
        (r is UpdateCompany || r is UpdateGroup || r is UpdateUser) ==> (request matches DirectoryRequest::Update {
            cursor: Some(i),
            ..
        } && i < rows.len() && !spec_denies_write(actor, rows[i as int])),
        (r is DeleteCompany || r is DeleteGroup || r is DeleteUser) ==> (request matches DirectoryRequest::Delete {
            cursor: Some(i),
        } && i < rows.len() && !spec_denies_write(actor, rows[i as int]) && row_names(
            rows[i as int],
        ) != own_names(actor)),
{
}

} // verus!
