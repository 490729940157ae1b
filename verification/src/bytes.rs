//! Small verified helpers over byte vectors and slices.

use vstd::prelude::*;

verus! {

/// Appends every byte of `other` to `out`.
pub fn push_all(out: &mut Vec<u8>, other: &[u8])
    ensures
        final(out)@ == old(out)@ + other@,
{
    let n = other.len();
    let mut i: usize = 0;
    while i < n
        invariant
            i <= n == other@.len(),
            out@ == old(out)@ + other@.subrange(0, i as int),
        decreases n - i,
    {
        out.push(other[i]);
        proof {
            assert(old(out)@ + other@.subrange(0, i + 1) =~= (old(out)@ + other@.subrange(
                0,
                i as int,
            )).push(other@[i as int]));
        }
        i += 1;
    }
    proof {
        assert(other@.subrange(0, n as int) =~= other@);
    }
}

/// Compares two byte slices for equality of contents.
pub fn bytes_eq(a: &[u8], b: &[u8]) -> (r: bool)
    ensures
        r == (a@ == b@),
{
    let n = a.len();
    if n != b.len() {
        return false;
    }
    let mut i: usize = 0;
    while i < n
        invariant
            i <= n == a@.len() == b@.len(),
            forall|k: int| 0 <= k < i ==> a@[k] == b@[k],
        decreases n - i,
    {
        if a[i] != b[i] {
            return false;
        }
        i += 1;
    }
    proof {
        assert(a@ =~= b@);
    }
    true
}

/// The characters an ASCII byte string spells, one per byte.
pub open spec fn ascii_chars(b: Seq<u8>) -> Seq<char> {
    Seq::new(b.len(), |i: int| b[i] as char)
}

/// Relies on `String::from_utf8`: ASCII bytes are valid UTF-8 and convert
/// to the string holding exactly those bytes, one character per byte.
#[verifier::external_body]
pub fn ascii_bytes_to_string(v: Vec<u8>) -> (r: String)
    requires
        forall|i: int| 0 <= i < v@.len() ==> v@[i] < 128,
    ensures
        r@ == ascii_chars(v@),
        vstd::utf8::encode_utf8(r@) == v@,
{
    String::from_utf8(v).unwrap()
}

} // verus!
