//! The resource locator: maps a namespaced location string
//! `"namespace:path"` (namespace defaulting to `"minecraft"`) to a canonical
//! storage path `"namespace/<prefix>/path.<extension>"` and back. The prefix
//! and extension are given per resource kind by [`ResourceType`].
use vstd::prelude::*;

use crate::text::{
    ends_with, find_char, lemma_find_char, spec_ends_with, spec_find_char, spec_starts_with,
    starts_with, substring,
};

verus! {

/// A kind of loadable resource, fixing where its files live and how they are
/// named.
pub trait ResourceType {
    /// The directory under the namespace that holds this kind of resource.
    spec fn spec_prefix() -> Seq<char>;

    /// The file extension of this kind of resource.
    spec fn spec_extension() -> Seq<char>;

    fn prefix() -> (s: &'static str)
        ensures
            s@ == Self::spec_prefix(),
    ;

    fn extension() -> (s: &'static str)
        ensures
            s@ == Self::spec_extension(),
    ;
}

/// Marker for a loader that reads one JSON-described resource kind. The
/// reading and parsing themselves happen outside the library; this type
/// carries the kind and names the file pattern the loader watches.
pub struct JsonLoader<A>(pub core::marker::PhantomData<A>);

impl<A> Default for JsonLoader<A> {
    fn default() -> (r: Self)
        ensures
            r == (JsonLoader::<A>(core::marker::PhantomData)),
    {
        JsonLoader(core::marker::PhantomData)
    }
}

impl<A: ResourceType> JsonLoader<A> {
    /// The file pattern the loader registers for: `"<prefix>.<extension>"`.
    pub fn extension_pattern(&self) -> (s: String)
        ensures
            s@ == A::spec_prefix() + seq!['.'] + A::spec_extension(),
    {
        proof {
            reveal_strlit(".");
        }
        let mut s = String::new();
        s.append(A::prefix());
        s.append(".");
        s.append(A::extension());
        s
    }
}

/// Stands for a loaded texture image. The pixels themselves live outside
/// the library; the type fixes where images are stored and how their files
/// are named.
#[derive(Clone, Copy, PartialEq, Eq, Structural, Debug)]
pub struct Image;

impl ResourceType for Image {
    open spec fn spec_prefix() -> Seq<char> {
        "textures"@
    }

    open spec fn spec_extension() -> Seq<char> {
        "png"@
    }

    fn prefix() -> (s: &'static str) {
        "textures"
    }

    fn extension() -> (s: &'static str) {
        "png"
    }
}

/// The storage path that the location string `loc` names for resource kind
/// `A`: the part before the first `':'` is the namespace (defaulting to
/// `"minecraft"` when there is no `':'`), and the rest is the relative path.
pub open spec fn spec_deserialize<A: ResourceType>(loc: Seq<char>) -> Seq<char> {
    let ns = match spec_find_char(loc, ':') {
        Some(i) => loc.subrange(0, i),
        None => "minecraft"@,
    };
    let rel = match spec_find_char(loc, ':') {
        Some(i) => loc.subrange(i + 1, loc.len() as int),
        None => loc,
    };
    ns + seq!['/'] + A::spec_prefix() + seq!['/'] + rel + seq!['.'] + A::spec_extension()
}

/// Turns a location string into the storage path of the resource it names.
pub fn deserialize<A: ResourceType>(loc: &str) -> (r: String)
    ensures
        r@ == spec_deserialize::<A>(loc@),
{
    proof {
        reveal_strlit("/");
        reveal_strlit(".");
        reveal_strlit(":");
        assert("/"@ =~= seq!['/']);
        assert("."@ =~= seq!['.']);
        lemma_find_char(loc@, ':');
    }
    let len = loc.unicode_len();
    let mut out = String::new();
    match find_char(loc, ':') {
        Some(i) => {
            let ns = substring(loc, 0, i);
            let rel = substring(loc, i + 1, len);
            out.append(ns.as_str());
            out.append("/");
            out.append(A::prefix());
            out.append("/");
            out.append(rel.as_str());
        },
        None => {
            out.append("minecraft");
            out.append("/");
            out.append(A::prefix());
            out.append("/");
            out.append(loc);
        },
    }
    out.append(".");
    out.append(A::extension());
    out
}

/// The location string that the storage path `path` denotes for resource
/// kind `A`, or `None` when the path does not have the shape
/// `"<namespace>/<prefix>/<rest>.<extension>"`.
pub open spec fn spec_serialize<A: ResourceType>(path: Seq<char>) -> Option<Seq<char>> {
    match spec_find_char(path, '/') {
        None => None,
        Some(i) => {
            let ns = path.subrange(0, i);
            let rest = path.subrange(i + 1, path.len() as int);
            let want = A::spec_prefix() + seq!['/'];
            if !spec_starts_with(rest, want) {
                None
            } else {
                let tail = rest.subrange(want.len() as int, rest.len() as int);
                let suffix = seq!['.'] + A::spec_extension();
                if !spec_ends_with(tail, suffix) {
                    None
                } else {
                    Some(ns + seq![':'] + tail.subrange(0, tail.len() - suffix.len()))
                }
            }
        },
    }
}

/// Turns a storage path back into the canonical location string, failing
/// when the path does not match the expected shape for kind `A`.
pub fn serialize<A: ResourceType>(path: &str) -> (r: Option<String>)
    ensures
        match r {
            Some(s) => spec_serialize::<A>(path@) == Some(s@),
            None => spec_serialize::<A>(path@) is None,
        },
{
    proof {
        reveal_strlit("/");
        reveal_strlit(".");
        reveal_strlit(":");
        assert("/"@ =~= seq!['/']);
        assert("."@ =~= seq!['.']);
        assert(":"@ =~= seq![':']);
        lemma_find_char(path@, '/');
    }
    let len = loc_len(path);
    let slash = match find_char(path, '/') {
        Some(i) => i,
        None => {
            return None;
        },
    };
    let ns = substring(path, 0, slash);
    let rest = substring(path, slash + 1, len);

    let mut want = String::new();
    want.append(A::prefix());
    want.append("/");
    if !starts_with(rest.as_str(), want.as_str()) {
        return None;
    }
    let rest_len = rest.as_str().unicode_len();
    let want_len = want.as_str().unicode_len();
    let tail = substring(rest.as_str(), want_len, rest_len);

    let mut suffix = String::new();
    suffix.append(".");
    suffix.append(A::extension());
    if !ends_with(tail.as_str(), suffix.as_str()) {
        return None;
    }
    let tail_len = tail.as_str().unicode_len();
    let suffix_len = suffix.as_str().unicode_len();
    let stem = substring(tail.as_str(), 0, tail_len - suffix_len);

    let mut out = String::new();
    out.append(ns.as_str());
    out.append(":");
    out.append(stem.as_str());
    Some(out)
}

/// The character length of a string slice.
fn loc_len(s: &str) -> (n: usize)
    ensures
        n == s@.len(),
{
    s.unicode_len()
}

/// The canonical form of a location string: the namespace made explicit,
/// `"minecraft"` where it was omitted.
pub open spec fn spec_canonical_location(loc: Seq<char>) -> Seq<char> {
    match spec_find_char(loc, ':') {
        Some(i) => loc.subrange(0, i) + seq![':'] + loc.subrange(i + 1, loc.len() as int),
        None => "minecraft"@ + seq![':'] + loc,
    }
}

/// `spec_find_char` returns exactly the least occurrence.
proof fn lemma_find_char_at(s: Seq<char>, c: char, i: int)
    requires
        0 <= i < s.len(),
        s[i] == c,
        forall|j: int| 0 <= j < i ==> s[j] != c,
    ensures
        spec_find_char(s, c) == Some(i),
{
    lemma_find_char(s, c);
}

/// The locator law: serializing the storage path of a location yields that
/// location back, in canonical form. The one condition is that the
/// namespace, where one is written, contains no `'/'`; a namespace with a
/// `'/'` would blur into the directory structure of the storage path.
pub proof fn lemma_locator_round_trip<A: ResourceType>(loc: Seq<char>)
    requires
        match spec_find_char(loc, ':') {
            Some(i) => forall|j: int| 0 <= j < i ==> loc[j] != '/',
            None => true,
        },
    ensures
        spec_serialize::<A>(spec_deserialize::<A>(loc)) == Some(spec_canonical_location(loc)),
{
    let ns = match spec_find_char(loc, ':') {
        Some(i) => loc.subrange(0, i),
        None => "minecraft"@,
    };
    let rel = match spec_find_char(loc, ':') {
        Some(i) => loc.subrange(i + 1, loc.len() as int),
        None => loc,
    };
    if spec_find_char(loc, ':') is Some {
        lemma_find_char(loc, ':');
    } else {
        reveal_strlit("minecraft");
    }
    assert(forall|j: int| 0 <= j < ns.len() ==> ns[j] != '/');
    let pre = A::spec_prefix();
    let ext = A::spec_extension();
    let path = spec_deserialize::<A>(loc);
    assert(path == ns + seq!['/'] + pre + seq!['/'] + rel + seq!['.'] + ext);
    assert(path[ns.len() as int] == '/');
    lemma_find_char_at(path, '/', ns.len() as int);
    let rest = path.subrange(ns.len() as int + 1, path.len() as int);
    assert(rest =~= pre + seq!['/'] + rel + seq!['.'] + ext);
    let want = pre + seq!['/'];
    assert(rest.subrange(0, want.len() as int) =~= want);
    let tail = rest.subrange(want.len() as int, rest.len() as int);
    assert(tail =~= rel + seq!['.'] + ext);
    let suffix = seq!['.'] + ext;
    assert(tail.subrange(tail.len() - suffix.len(), tail.len() as int) =~= suffix);
    assert(tail.subrange(0, tail.len() - suffix.len()) =~= rel);
    assert(ns + seq![':'] + rel == spec_canonical_location(loc));
}

} // verus!
