//! A namespaced resource identifier, written `namespace:path`; a missing
//! namespace means the default one.

use vstd::prelude::*;
use vstd::string::{StrSliceExecFns, StringExecFns};
use crate::cursor::McCursor;
use crate::error::BufReadError;
use crate::strings::{read_string, spec_read_string_ok, write_string, MAX_STRING_LENGTH};
use vstd::utf8::encode_utf8;

verus! {

/// A resource identifier: a namespace and a path.
#[derive(Hash, PartialEq, Eq, Debug)]
pub struct ResourceLocation {
    pub namespace: String,
    pub path: String,
}

/// The index of the first colon in `s`, or the sequence's length where
/// there is none.
pub open spec fn first_colon(s: Seq<char>) -> int
    decreases s.len(),
{
    if s.len() == 0 {
        0
    } else if s[0] == ':' {
        0
    } else {
        1 + first_colon(s.skip(1))
    }
}

/// The first-colon index is within bounds, points at a colon when one
/// exists, and nothing before it is a colon.
pub proof fn lemma_first_colon(s: Seq<char>)
    ensures
        0 <= first_colon(s) <= s.len(),
        first_colon(s) < s.len() ==> s[first_colon(s)] == ':',
        forall|j: int| 0 <= j < first_colon(s) ==> s[j] != ':',
    decreases s.len(),
{
    if s.len() != 0 && s[0] != ':' {
        lemma_first_colon(s.skip(1));
        assert forall|j: int| 0 <= j < first_colon(s) implies s[j] != ':' by {
            if j > 0 {
                assert(s.skip(1)[j - 1] == s[j]);
            }
        }
        if first_colon(s) < s.len() {
            assert(s.skip(1)[first_colon(s) - 1] == s[first_colon(s)]);
        }
    }
}

/// The namespace a resource string carries: the text before the first
/// colon, or the default namespace where that text is empty or absent.
pub open spec fn spec_namespace(s: Seq<char>) -> Seq<char> {
    let i = first_colon(s);
    if i == s.len() || i == 0 {
        "minecraft"@
    } else {
        s.take(i)
    }
}

/// The path a resource string carries: the text after the first colon, or
/// the whole string where there is none.
pub open spec fn spec_path(s: Seq<char>) -> Seq<char> {
    let i = first_colon(s);
    if i == s.len() {
        s
    } else {
        s.skip(i + 1)
    }
}

impl ResourceLocation {
    /// Split a resource string at its first colon. A string without a
    /// colon is all path under the default namespace; a leading colon
    /// also selects the default namespace.
    pub fn new(resource_string: &str) -> (r: ResourceLocation)
        ensures
            r.namespace@ == spec_namespace(resource_string@),
            r.path@ == spec_path(resource_string@),
    {
        proof {
            lemma_first_colon(resource_string@);
        }
        let len = resource_string.unicode_len();
        let mut i: usize = 0;
        let mut found: bool = false;
        while i < len && !found
            invariant
                0 <= i <= len,
                len == resource_string@.len(),
                forall|j: int| 0 <= j < i ==> resource_string@[j] != ':',
                found ==> i < len && resource_string@[i as int] == ':',
            decreases len - i + (if found { 0int } else { 1int }),
        {
            if resource_string.get_char(i) == ':' {
                found = true;
            } else {
                i = i + 1;
            }
        }
        proof {
            if found {
                assert(first_colon(resource_string@) == i as int) by {
                    lemma_first_colon_at(resource_string@, i as int);
                }
            } else {
                assert(i == len);
                lemma_first_colon_at(resource_string@, len as int);
            }
        }
        if !found {
            ResourceLocation {
                namespace: String::from_str("minecraft"),
                path: String::from_str(resource_string),
            }
        } else if i == 0 {
            let path = resource_string.substring_char(1, len);
            ResourceLocation { namespace: String::from_str("minecraft"), path: path.to_owned() }
        } else {
            let namespace = resource_string.substring_char(0, i);
            let path = resource_string.substring_char(i + 1, len);
            ResourceLocation { namespace: namespace.to_owned(), path: path.to_owned() }
        }
    }

    /// The textual form, `namespace:path`.
    pub fn to_resource_string(&self) -> (r: String)
        ensures
            r@ == self.namespace@ + seq![':'] + self.path@,
    {
        let mut out = self.namespace.clone();
        crate::text::string_push_char(&mut out, ':');
        out.append(self.path.as_str());
        out
    }

    /// Read a resource location from its string wire form.
    pub fn azalea_read(buf: &mut McCursor) -> (r: Result<ResourceLocation, BufReadError>)
        requires
            old(buf).wf(),
        ensures
            final(buf).wf(),
            final(buf).all_bytes() == old(buf).all_bytes(),
            old(buf).position() <= final(buf).position(),
            match r {
                Ok(rl) => (match spec_read_string_ok(old(buf).remaining(), MAX_STRING_LENGTH) {
                    Some((n, chars)) => {
                        &&& rl.namespace@ == spec_namespace(chars)
                        &&& rl.path@ == spec_path(chars)
                        &&& final(buf).position() == old(buf).position() + n
                    },
                    None => false,
                }),
                Err(_) => spec_read_string_ok(old(buf).remaining(), MAX_STRING_LENGTH) is None,
            },
    {
        match read_string(buf) {
            Ok(s) => Ok(ResourceLocation::new(s.as_str())),
            Err(e) => Err(e),
        }
    }

    /// Append a resource location's string wire form.
    pub fn azalea_write(&self, buf: &mut Vec<u8>)
        requires
            encode_utf8(self.namespace@ + seq![':'] + self.path@).len() <= u32::MAX,
        ensures
            ({
                let full = self.namespace@ + seq![':'] + self.path@;
                final(buf)@ == old(buf)@ + crate::varint::varint_bytes(
                    encode_utf8(full).len() as nat,
                ) + encode_utf8(full)
            }),
    {
        let s = self.to_resource_string();
        write_string(buf, &s);
    }
}

/// Where a scan finds no colon before `i` and either a colon at `i` or
/// the string's end, the first colon is at `i`.
proof fn lemma_first_colon_at(s: Seq<char>, i: int)
    requires
        0 <= i <= s.len(),
        forall|j: int| 0 <= j < i ==> s[j] != ':',
        i < s.len() ==> s[i] == ':',
        i == s.len() ==> forall|j: int| 0 <= j < s.len() ==> s[j] != ':',
    ensures
        first_colon(s) == i,
    decreases s.len(),
{
    if s.len() != 0 && s[0] != ':' {
        assert forall|j: int| 0 <= j < i - 1 implies s.skip(1)[j] != ':' by {
            assert(s.skip(1)[j] == s[j + 1]);
        }
        if i - 1 < s.skip(1).len() {
            assert(s.skip(1)[i - 1] == s[i]);
        }
        lemma_first_colon_at(s.skip(1), i - 1);
    }
}

/// Splitting a joined `namespace:path` string recovers the parts, as long
/// as the namespace is nonempty and carries no colon itself.
pub proof fn lemma_split_roundtrip(ns: Seq<char>, path: Seq<char>)
    requires
        ns.len() > 0,
        forall|j: int| 0 <= j < ns.len() ==> ns[j] != ':',
    ensures
        spec_namespace(ns + seq![':'] + path) == ns,
        spec_path(ns + seq![':'] + path) == path,
{
    let s = ns + seq![':'] + path;
    assert(s[ns.len() as int] == ':');
    assert forall|j: int| 0 <= j < ns.len() implies s[j] != ':' by {
        assert(s[j] == ns[j]);
    }
    lemma_first_colon_at(s, ns.len() as int);
    assert(s.take(ns.len() as int) =~= ns);
    assert(s.skip(ns.len() as int + 1) =~= path);
}

impl Clone for ResourceLocation { 
    fn clone(&self) -> (r: Self)
        ensures
            r == *self,
    {
        ResourceLocation { namespace: self.namespace.clone(), path: self.path.clone() }
    }
}

} // verus!
