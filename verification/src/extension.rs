//! Extension identifiers of the form `publisher.name`, and the manifest
//! structure listing the requested identifiers per platform category.
use vstd::prelude::*;
use vstd::string::StrSliceExecFns;
use vstd::string::StringExecFns;

use crate::error::VsixHarvesterError;
use crate::strings::find_char_from;

verus! {

/// The canonical `publisher.name` rendering of an identifier's two parts.
pub open spec fn id_seq(publisher: Seq<char>, name: Seq<char>) -> Seq<char> {
    publisher + seq!['.'] + name
}

/// `i` is the position of the one and only `.` in `s`.
pub open spec fn is_only_dot(s: Seq<char>, i: int) -> bool {
    &&& 0 <= i < s.len()
    &&& s[i] == '.'
    &&& forall|j: int| 0 <= j < s.len() && j != i ==> s[j] != '.'
}

/// `s` is a well-formed identifier: exactly one `.`, separating two
/// non-empty parts.
pub open spec fn valid_extension_id(s: Seq<char>) -> bool {
    exists|i: int| #[trigger] is_only_dot(s, i) && 0 < i && i + 1 < s.len()
}

/// The two parts of an identifier are non-empty and contain no separator.
pub open spec fn parts_wf(publisher: Seq<char>, name: Seq<char>) -> bool {
    &&& publisher.len() > 0
    &&& name.len() > 0
    &&& forall|j: int| 0 <= j < publisher.len() ==> publisher[j] != '.'
    &&& forall|j: int| 0 <= j < name.len() ==> name[j] != '.'
}

/// A parsed extension identifier. Both parts are non-empty and free of `.`,
/// so the identifier round-trips exactly through `to_id`.
#[derive(Clone, Copy)]
pub struct Extension<'a> {
    pub publisher: &'a str,
    pub name: &'a str,
}

impl<'a> Extension<'a> {
    /// The two parts are non-empty and contain no separator.
    pub open spec fn wf(&self) -> bool {
        parts_wf(self.publisher@, self.name@)
    }

    /// Splits `id` on its single `.` into publisher and name. Fails with
    /// `InvalidExtensionId` exactly when `id` is not two non-empty parts
    /// joined by one `.`.
    pub fn from_id(id: &'a str) -> (r: Result<Self, VsixHarvesterError>)
        ensures
            r is Ok <==> valid_extension_id(id@),
            (r matches Ok(e) ==> e.wf() && id_seq(e.publisher@, e.name@) == id@),
            (r matches Err(e) ==> e matches VsixHarvesterError::InvalidExtensionId(s) && s@
                == id@),
    {
        let n = id.unicode_len();
        let fd = match find_char_from(id, 0, '.') {
            None => {
                proof {
                    assert forall|i: int| !(#[trigger] is_only_dot(id@, i) && 0 < i && i + 1
                        < id@.len()) by {
                        if 0 <= i < id@.len() {
                            assert(id@[i] != '.');
                        }
                    }
                }
                return Err(VsixHarvesterError::InvalidExtensionId(id.to_owned()));
            },
            Some(fd) => fd,
        };
        // a second separator anywhere after the first makes the id invalid
        if let Some(sd) = find_char_from(id, fd + 1, '.') {
            proof {
                assert forall|i: int| !(#[trigger] is_only_dot(id@, i) && 0 < i && i + 1
                    < id@.len()) by {
                    if is_only_dot(id@, i) {
                        if i != fd {
                            assert(id@[fd as int] != '.');
                        } else {
                            assert(id@[sd as int] != '.');
                        }
                    }
                }
            }
            return Err(VsixHarvesterError::InvalidExtensionId(id.to_owned()));
        }
        if fd == 0 || fd + 1 == n {
            proof {
                assert forall|i: int| !(#[trigger] is_only_dot(id@, i) && 0 < i && i + 1
                    < id@.len()) by {
                    if is_only_dot(id@, i) && i != fd {
                        assert(id@[fd as int] != '.');
                    }
                }
            }
            return Err(VsixHarvesterError::InvalidExtensionId(id.to_owned()));
        }
        let publisher = id.substring_char(0, fd);
        let name = id.substring_char(fd + 1, n);
        proof {
            assert(is_only_dot(id@, fd as int));
            assert(publisher@ + seq!['.'] + name@ =~= id@);
        }
        Ok(Extension { publisher, name })
    }

    /// Renders the identifier back as `publisher.name`.
    pub fn to_id(&self) -> (r: String)
        ensures
            r@ == id_seq(self.publisher@, self.name@),
    {
        let mut out = self.publisher.to_owned();
        out.append(".");
        out.append(self.name);
        proof {
            reveal_strlit(".");
            assert(out@ =~= id_seq(self.publisher@, self.name@));
        }
        out
    }

    /// A human-readable description of the identifier's parts.
    pub fn to_string(&self) -> (r: String)
        ensures
            r@ == "Publisher: "@ + self.publisher@ + ", Name: "@ + self.name@,
    {
        let mut out = String::from_str("Publisher: ");
        out.append(self.publisher);
        out.append(", Name: ");
        out.append(self.name);
        proof {
            assert(out@ =~= "Publisher: "@ + self.publisher@ + ", Name: "@ + self.name@);
        }
        out
    }
}

/// A well-formed identifier splits at its only dot, so parsing what `to_id`
/// prints gives back exactly the same two parts, and printing what `from_id`
/// parsed gives back exactly the input: the round-trip is the identity in
/// both directions.
pub proof fn lemma_identifier_round_trip(publisher: Seq<char>, name: Seq<char>)
    requires
        publisher.len() > 0,
        name.len() > 0,
        forall|j: int| 0 <= j < publisher.len() ==> publisher[j] != '.',
        forall|j: int| 0 <= j < name.len() ==> name[j] != '.',
    ensures
        valid_extension_id(id_seq(publisher, name)),
        forall|p2: Seq<char>, n2: Seq<char>|
            (p2.len() > 0 && n2.len() > 0 && (forall|j: int| 0 <= j < p2.len() ==> p2[j] != '.')
                && (forall|j: int| 0 <= j < n2.len() ==> n2[j] != '.') && #[trigger] id_seq(
                p2,
                n2,
            ) == id_seq(publisher, name)) ==> p2 == publisher && n2 == name,
{
    let s = id_seq(publisher, name);
    let d = publisher.len() as int;
    assert(is_only_dot(s, d));
    assert(valid_extension_id(s));
    assert forall|p2: Seq<char>, n2: Seq<char>|
        (p2.len() > 0 && n2.len() > 0 && (forall|j: int| 0 <= j < p2.len() ==> p2[j] != '.') && (
        forall|j: int| 0 <= j < n2.len() ==> n2[j] != '.') && #[trigger] id_seq(p2, n2) == id_seq(
            publisher,
            name,
        )) implies p2 == publisher && n2 == name by {
        let s2 = id_seq(p2, n2);
        let d2 = p2.len() as int;
        assert(s2[d2] == '.');
        assert(s[d] == '.');
        if d2 < d {
            assert(s2[d2] == publisher[d2]);
        } else if d2 > d {
            assert(s[d2] == name[d2 - d - 1]);
            assert(s2[d2] == s[d2]);
        }
        assert(d2 == d);
        assert forall|j: int| 0 <= j < d implies p2[j] == publisher[j] by {
            assert(s2[j] == p2[j]);
            assert(s[j] == publisher[j]);
        }
        assert forall|j: int| 0 <= j < name.len() implies n2[j] == name[j] by {
            assert(s2[d + 1 + j] == n2[j]);
            assert(s[d + 1 + j] == name[j]);
        }
        assert(p2 =~= publisher);
        assert(n2 =~= name);
    }
}

/// The requested identifiers of one manifest, one optional list per platform
/// category; an absent list means nothing was requested for that category.
pub struct Extensions {
    pub universal: Option<Vec<String>>,
    pub linux_x64: Option<Vec<String>>,
    pub linux_arm64: Option<Vec<String>>,
    pub darwin_x64: Option<Vec<String>>,
    pub darwin_arm64: Option<Vec<String>>,
    pub win32_x64: Option<Vec<String>>,
    pub win32_arm64: Option<Vec<String>>,
}

} // verus!
