//! Remote keys: normalized, forward-slash-separated paths that identify
//! objects in the storage namespace, and the string primitives the engine
//! needs to derive and compare them.

use vstd::prelude::*;
use vstd::string::*;

verus! {

/// The characters of `s` with every backslash replaced by a forward slash.
pub open spec fn normalized(s: Seq<char>) -> Seq<char> {
    Seq::new(s.len(), |i: int| if s[i] == '\\' { '/' } else { s[i] })
}

/// `p` is a leading segment of `k`.
pub open spec fn has_prefix(k: Seq<char>, p: Seq<char>) -> bool {
    p.is_prefix_of(k)
}

/// The remote key of a file at root-relative path `rel` mirrored under
/// `prefix`: the prefix, a slash, and the separator-normalized path.
pub open spec fn key_of(prefix: Seq<char>, rel: Seq<char>) -> Seq<char> {
    prefix + seq!['/'] + normalized(rel)
}

/// Relies on `String::push`: appends exactly the given character.
#[verifier::external_body]
fn push_char(s: &mut String, c: char)
    ensures
        final(s)@ == old(s)@.push(c),
{
    s.push(c);
}

/// Replace every backslash in `path` with a forward slash, so that a local
/// path becomes a valid forward-slash-separated remote key.
pub fn normalize_key(path: &str) -> (r: String)
    ensures
        r@ == normalized(path@),
{
    let n = path.unicode_len();
    let mut out = String::new();
    let mut i: usize = 0;
    while i < n
        invariant
            i <= n,
            n == path@.len(),
            out@ == normalized(path@).subrange(0, i as int),
        decreases n - i,
    {
        let c = path.get_char(i);
        if c == '\\' {
            push_char(&mut out, '/');
        } else {
            push_char(&mut out, c);
        }
        i = i + 1;
        assert(out@ =~= normalized(path@).subrange(0, i as int));
    }
    assert(normalized(path@).subrange(0, n as int) =~= normalized(path@));
    out
}

/// Whether `s` begins with the characters of `p`.
pub fn starts_with(s: &str, p: &str) -> (r: bool)
    ensures
        r == has_prefix(s@, p@),
{
    let sn = s.unicode_len();
    let pn = p.unicode_len();
    if pn > sn {
        return false;
    }
    let mut i: usize = 0;
    while i < pn
        invariant
            i <= pn,
            pn <= sn,
            pn == p@.len(),
            sn == s@.len(),
            forall|j: int| 0 <= j < i ==> s@[j] == p@[j],
        decreases pn - i,
    {
        if s.get_char(i) != p.get_char(i) {
            return false;
        }
        i = i + 1;
    }
    assert(p@ =~= s@.subrange(0, pn as int));
    true
}

/// Character-for-character equality of two string slices.
pub fn str_eq(a: &str, b: &str) -> (r: bool)
    ensures
        r == (a@ == b@),
{
    let an = a.unicode_len();
    let bn = b.unicode_len();
    if an != bn {
        return false;
    }
    let mut i: usize = 0;
    while i < an
        invariant
            i <= an,
            an == a@.len(),
            bn == b@.len(),
            an == bn,
            forall|j: int| 0 <= j < i ==> a@[j] == b@[j],
        decreases an - i,
    {
        if a.get_char(i) != b.get_char(i) {
            return false;
        }
        i = i + 1;
    }
    assert(a@ =~= b@);
    true
}

/// Derive the remote key for a file at root-relative path `rel` mirrored
/// under `prefix`.
pub fn object_key(prefix: &str, rel: &str) -> (r: String)
    ensures
        r@ == key_of(prefix@, rel@),
{
    let mut out = String::from_str(prefix);
    push_char(&mut out, '/');
    let tail = normalize_key(rel);
    out.append(tail.as_str());
    assert(out@ =~= key_of(prefix@, rel@));
    out
}

/// Every derived key lies under its mirror prefix, so a wipe of the prefix
/// covers exactly the namespace the mirror rewrites.
pub proof fn lemma_key_of_has_prefix(prefix: Seq<char>, rel: Seq<char>)
    ensures
        has_prefix(key_of(prefix, rel), prefix),
{
    assert(prefix =~= key_of(prefix, rel).subrange(0, prefix.len() as int));
}

} // verus!
