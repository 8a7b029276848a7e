//! GRiD paths: `` `server:Device`Folder`File|password ``, with every part but
//! the server and the device optional.
use vstd::prelude::*;

use crate::bytes::{contains_byte, lemma_position, position, spec_position};

verus! {

/// The byte that opens a path and separates its components: a backtick.
pub const COMPONENT_SEPARATOR: u8 = 0x60;

/// The byte after the server name: a colon.
pub const SERVER_SEPARATOR: u8 = 0x3a;

/// The byte before the password: a vertical bar.
pub const PASSWORD_SEPARATOR: u8 = 0x7c;

/// Whether splitting `c` at every backtick yields an empty component.
pub open spec fn spec_has_empty_component(c: Seq<u8>) -> bool {
    c.len() == 0 || c[0] == COMPONENT_SEPARATOR || c.last() == COMPONENT_SEPARATOR || exists|
        i: int,
    | 0 <= i < c.len() - 1 && #[trigger] c[i] == COMPONENT_SEPARATOR && c[i + 1] == COMPONENT_SEPARATOR
}

/// The components part of a path, once its trailing backtick, if any, is gone.
pub open spec fn spec_strip_trailing(c: Seq<u8>) -> Seq<u8> {
    if c.len() > 0 && c.last() == COMPONENT_SEPARATOR {
        c.drop_last()
    } else {
        c
    }
}

/// Why `path` is not a GRiD path, if it is not one.
pub open spec fn spec_validate(path: Seq<u8>) -> Result<(), &'static str> {
    if path.len() == 0 || path[0] != COMPONENT_SEPARATOR {
        Err("path must start with `")
    } else {
        let tail = path.drop_first();
        let body = match spec_position(tail, PASSWORD_SEPARATOR) {
            Some(i) => tail.take(i),
            None => tail,
        };
        let bad_password = match spec_position(tail, PASSWORD_SEPARATOR) {
            Some(i) => tail.skip(i + 1).len() == 0 || tail.skip(i + 1).contains(PASSWORD_SEPARATOR),
            None => false,
        };
        if bad_password {
            Err("path password must not be empty or contain |")
        } else {
            match spec_position(body, SERVER_SEPARATOR) {
                None => Err("path must contain a server name followed by :"),
                Some(j) => {
                    let server = body.take(j);
                    let components = body.skip(j + 1);
                    if server.len() == 0 {
                        Err("path server name must not be empty")
                    } else if server.contains(COMPONENT_SEPARATOR) {
                        Err("path server name must not contain `")
                    } else if components.contains(SERVER_SEPARATOR) {
                        Err("path must not contain more than one server separator")
                    } else if spec_strip_trailing(components).len() == 0 {
                        Err("path device must not be empty")
                    } else if spec_has_empty_component(spec_strip_trailing(components)) {
                        Err("path components must not be empty")
                    } else {
                        Ok(())
                    }
                },
            }
        }
    }
}

/// The non-empty runs of bytes between backticks in `s`, in order.
pub open spec fn spec_parts(s: Seq<u8>) -> Seq<Seq<u8>>
    decreases s.len(),
{
    match spec_position(s, COMPONENT_SEPARATOR) {
        None => if s.len() == 0 {
            Seq::empty()
        } else {
            seq![s]
        },
        Some(i) => {
            proof {
                lemma_position(s, COMPONENT_SEPARATOR);
            }
            let rest = spec_parts(s.skip(i + 1));
            if i == 0 {
                rest
            } else {
                seq![s.take(i)] + rest
            }
        },
    }
}

/// The part of a path that names its components: after the first colon and
/// before the first vertical bar that follows it.
pub open spec fn spec_components_part(path: Seq<u8>) -> Seq<u8> {
    let after = match spec_position(path, SERVER_SEPARATOR) {
        Some(i) => path.skip(i + 1),
        None => Seq::empty(),
    };
    match spec_position(after, PASSWORD_SEPARATOR) {
        Some(i) => after.take(i),
        None => after,
    }
}

/// The `k`th element of `s`, if there is one.
pub open spec fn spec_nth(s: Seq<Seq<u8>>, k: int) -> Option<Seq<u8>> {
    if 0 <= k < s.len() {
        Some(s[k])
    } else {
        None
    }
}

pub open spec fn opt_view<'a>(o: Option<&'a [u8]>) -> Option<Seq<u8>> {
    match o {
        Some(v) => Some(v@),
        None => None,
    }
}

/// A path that has been checked to be a GRiD path.
#[derive(Clone, Copy, Debug)]
pub struct GRiDPath<'a>(&'a [u8]);

/// The device, folder and file a path names.
#[derive(Clone, Copy, Debug, PartialEq, Eq)]
pub struct GRiDPathComponents<'a> {
    pub device: Option<&'a [u8]>,
    pub folder: Option<&'a [u8]>,
    pub file: Option<&'a [u8]>,
}

impl<'a> GRiDPathComponents<'a> {
    pub fn new(device: Option<&'a [u8]>, folder: Option<&'a [u8]>, file: Option<&'a [u8]>) -> (r:
        Self)
        ensures
            r.device == device,
            r.folder == folder,
            r.file == file,
    {
        Self { device, folder, file }
    }
}

impl<'a> GRiDPath<'a> {
    #[verifier::type_invariant]
    spec fn valid(self) -> bool {
        spec_validate(self.0@) is Ok
    }

    /// The bytes of the path.
    pub closed spec fn bytes(self) -> Seq<u8> {
        self.0@
    }

    pub fn try_from(path: &'a [u8]) -> (r: Result<Self, &'static str>)
        ensures
            match spec_validate(path@) {
                Ok(()) => (r matches Ok(p) && p.bytes() == path@),
                Err(e) => r == Err::<Self, &'static str>(e),
            },
    {
        Self::validate(path)?;
        Ok(GRiDPath(path))
    }

    pub fn as_bytes(&self) -> (r: &'a [u8])
        ensures
            r@ == self.bytes(),
    {
        self.0
    }

    pub fn validate(path: &[u8]) -> (r: Result<(), &'static str>)
        ensures
            r == spec_validate(path@),
    {
        if path.len() == 0 || path[0] != COMPONENT_SEPARATOR {
            return Err("path must start with `");
        }
        let tail = &path[1..path.len()];
        assert(tail@ =~= path@.drop_first());
        proof {
            lemma_position(tail@, PASSWORD_SEPARATOR);
        }
        let body = match position(tail, PASSWORD_SEPARATOR) {
            Some(i) => {
                let password = &tail[i + 1..tail.len()];
                assert(password@ =~= tail@.skip(i + 1));
                if password.len() == 0 || contains_byte(password, PASSWORD_SEPARATOR) {
                    return Err("path password must not be empty or contain |");
                }
                let body = &tail[0..i];
                assert(body@ =~= tail@.take(i as int));
                body
            },
            None => tail,
        };
        proof {
            lemma_position(body@, SERVER_SEPARATOR);
        }
        let j = match position(body, SERVER_SEPARATOR) {
            Some(j) => j,
            None => {
                return Err("path must contain a server name followed by :");
            },
        };
        let server = &body[0..j];
        let components = &body[j + 1..body.len()];
        assert(server@ =~= body@.take(j as int));
        assert(components@ =~= body@.skip(j + 1));
        if server.len() == 0 {
            return Err("path server name must not be empty");
        }
        if contains_byte(server, COMPONENT_SEPARATOR) {
            return Err("path server name must not contain `");
        }
        if contains_byte(components, SERVER_SEPARATOR) {
            return Err("path must not contain more than one server separator");
        }
        let stripped = if components.len() > 0 && components[components.len() - 1]
            == COMPONENT_SEPARATOR {
            let s = &components[0..components.len() - 1];
            assert(s@ =~= components@.drop_last());
            s
        } else {
            components
        };
        if stripped.len() == 0 {
            return Err("path device must not be empty");
        }
        if has_empty_component(stripped) {
            return Err("path components must not be empty");
        }
        Ok(())
    }

    /// The server the path names.
    pub fn server(&self) -> (r: Option<&'a [u8]>)
        ensures
            opt_view(r) == (if self.bytes().len() > 0 && self.bytes()[0] == COMPONENT_SEPARATOR {
                match spec_position(self.bytes().drop_first(), SERVER_SEPARATOR) {
                    Some(i) => Some(self.bytes().drop_first().take(i)),
                    None => None,
                }
            } else {
                None
            }),
    {
        let path = self.0;
        if path.len() == 0 || path[0] != COMPONENT_SEPARATOR {
            return None;
        }
        let tail = &path[1..path.len()];
        assert(tail@ =~= path@.drop_first());
        proof {
            lemma_position(tail@, SERVER_SEPARATOR);
        }
        match position(tail, SERVER_SEPARATOR) {
            Some(i) => {
                let server = &tail[0..i];
                assert(server@ =~= tail@.take(i as int));
                Some(server)
            },
            None => None,
        }
    }

    /// The password after the first vertical bar, if there is one.
    pub fn password(&self) -> (r: Option<&'a [u8]>)
        ensures
            opt_view(r) == (match spec_position(self.bytes(), PASSWORD_SEPARATOR) {
                Some(i) => Some(self.bytes().skip(i + 1)),
                None => None,
            }),
    {
        let path = self.0;
        let n = path.len();
        proof {
            lemma_position(path@, PASSWORD_SEPARATOR);
        }
        match position(path, PASSWORD_SEPARATOR) {
            Some(i) => {
                let password = &path[i + 1..n];
                assert(password@ =~= path@.skip(i + 1));
                Some(password)
            },
            None => None,
        }
    }

    /// The first three non-empty components after the server: the device, the
    /// folder and the file.
    pub fn components(&self) -> (r: GRiDPathComponents<'a>)
        ensures
            opt_view(r.device) == spec_nth(spec_parts(spec_components_part(self.bytes())), 0),
            opt_view(r.folder) == spec_nth(spec_parts(spec_components_part(self.bytes())), 1),
            opt_view(r.file) == spec_nth(spec_parts(spec_components_part(self.bytes())), 2),
    {
        let path = self.0;
        let n = path.len();
        proof {
            lemma_position(path@, SERVER_SEPARATOR);
        }
        let after = match position(path, SERVER_SEPARATOR) {
            Some(i) => {
                let a = &path[i + 1..n];
                assert(a@ =~= path@.skip(i + 1));
                a
            },
            None => {
                let a = &path[0..0];
                assert(a@ =~= Seq::<u8>::empty());
                a
            },
        };
        proof {
            lemma_position(after@, PASSWORD_SEPARATOR);
        }
        let part = match position(after, PASSWORD_SEPARATOR) {
            Some(i) => {
                let p = &after[0..i];
                assert(p@ =~= after@.take(i as int));
                p
            },
            None => after,
        };
        let ghost all = spec_parts(part@);
        let mut found: Vec<&'a [u8]> = Vec::new();
        let mut rest = part;
        while found.len() < 3 && rest.len() > 0
            invariant
                found@.len() <= 3,
                all == parts_view(found@) + spec_parts(rest@),
            decreases rest@.len(),
        {
            let ghost before = rest@;
            let ghost prev = found@;
            proof {
                lemma_position(rest@, COMPONENT_SEPARATOR);
            }
            match position(rest, COMPONENT_SEPARATOR) {
                Some(i) => {
                    let next = &rest[i + 1..rest.len()];
                    assert(next@ =~= before.skip(i + 1));
                    if i > 0 {
                        let piece = &rest[0..i];
                        assert(piece@ =~= before.take(i as int));
                        found.push(piece);
                        assert(parts_view(found@) =~= parts_view(prev).push(piece@));
                    }
                    rest = next;
                },
                None => {
                    found.push(rest);
                    assert(parts_view(found@) =~= parts_view(prev).push(before));
                    rest = &rest[0..0];
                    assert(rest@ =~= Seq::<u8>::empty());
                },
            }
            assert(all =~= parts_view(found@) + spec_parts(rest@));
        }
        let device = if found.len() > 0 {
            Some(found[0])
        } else {
            None
        };
        let folder = if found.len() > 1 {
            Some(found[1])
        } else {
            None
        };
        let file = if found.len() > 2 {
            Some(found[2])
        } else {
            None
        };
        GRiDPathComponents::new(device, folder, file)
    }
}

pub open spec fn parts_view<'a>(v: Seq<&'a [u8]>) -> Seq<Seq<u8>> {
    v.map_values(|s: &'a [u8]| s@)
}

/// Whether splitting `c` at every backtick yields an empty component.
pub fn has_empty_component(c: &[u8]) -> (r: bool)
    ensures
        r == spec_has_empty_component(c@),
{
    if c.len() == 0 || c[0] == COMPONENT_SEPARATOR || c[c.len() - 1] == COMPONENT_SEPARATOR {
        return true;
    }
    let mut i: usize = 0;
    let n = c.len();
    while i < n - 1
        invariant
            n == c@.len(),
            i < c@.len(),
            forall|k: int|
                0 <= k < i ==> !(#[trigger] c@[k] == COMPONENT_SEPARATOR && c@[k + 1]
                    == COMPONENT_SEPARATOR),
        decreases c@.len() - i,
    {
        if c[i] == COMPONENT_SEPARATOR && c[i + 1] == COMPONENT_SEPARATOR {
            return true;
        }
        i = i + 1;
    }
    false
}

} // verus!
