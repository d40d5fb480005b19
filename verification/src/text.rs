//! Facts about UTF-8 text and small helpers on byte and character sequences.

use vstd::prelude::*;
use vstd::utf8::*;
use vstd::string::*;

verus! {

/// The UTF-8 encoding of a concatenation is the concatenation of the encodings.
pub proof fn lemma_encode_utf8_concat(a: Seq<char>, b: Seq<char>)
    ensures
        encode_utf8(a + b) == encode_utf8(a) + encode_utf8(b),
    decreases a.len(),
{
    if a.len() == 0 {
        assert(a + b =~= b);
    } else {
        lemma_encode_utf8_concat(a.drop_first(), b);
        assert((a + b).drop_first() =~= a.drop_first() + b);
        assert((a + b)[0] == a[0]);
    }
}

/// The encoding of ASCII characters is the sequence of their codes.
pub proof fn lemma_encode_ascii(chars: Seq<char>)
    requires
        is_ascii_chars(chars),
    ensures
        encode_utf8(chars) == Seq::new(chars.len(), |i: int| chars[i] as u8),
{
    is_ascii_chars_encode_utf8(chars);
    assert(encode_utf8(chars) =~= Seq::new(chars.len(), |i: int| chars[i] as u8));
}

/// In valid UTF-8, an ASCII byte begins a character and the byte after it
/// does too.
pub proof fn lemma_ascii_byte_boundaries(b: Seq<u8>, i: int)
    requires
        valid_utf8(b),
        0 <= i < b.len(),
        b[i] < 0x80,
    ensures
        is_char_boundary(b, i),
        is_char_boundary(b, i + 1),
{
    is_char_boundary_iff_not_is_continuation_byte(b, i);
    if i + 1 == b.len() {
        is_char_boundary_start_end_of_seq(b);
    } else {
        valid_utf8_split(b, i);
        let r = b.subrange(i, b.len() as int);
        assert(valid_utf8(r));
        assert(pop_first_scalar(r) =~= b.subrange(i + 1, b.len() as int));
        assert(valid_utf8(pop_first_scalar(r)));
        assert(b[i + 1] == pop_first_scalar(r)[0]);
        is_char_boundary_iff_not_is_continuation_byte(b, i + 1);
    }
}

/// The last character boundary of `b` at or before position `k`: where text
/// is cut so that it keeps at most `k` bytes and stays whole characters.
pub open spec fn boundary_at_most(b: Seq<u8>, k: int) -> int
    decreases k,
{
    if k <= 0 {
        0
    } else if is_char_boundary(b, k) {
        k
    } else {
        boundary_at_most(b, k - 1)
    }
}

/// In valid UTF-8, the cut at or before `k` is a character boundary between
/// 0 and `k`, and is `k` itself when `k` is a boundary.
pub proof fn lemma_boundary_at_most(b: Seq<u8>, k: int)
    requires
        valid_utf8(b),
        0 <= k,
    ensures
        0 <= boundary_at_most(b, k) <= k,
        is_char_boundary(b, boundary_at_most(b, k)),
        is_char_boundary(b, k) ==> boundary_at_most(b, k) == k,
    decreases k,
{
    if k == 0 {
        is_char_boundary_start_end_of_seq(b);
    } else if !is_char_boundary(b, k) {
        lemma_boundary_at_most(b, k - 1);
    }
}

/// In valid UTF-8, every position before an ASCII byte and the end are
/// character boundaries, so ASCII text is cut exactly at `k`.
pub proof fn lemma_boundary_at_most_ascii(b: Seq<u8>, k: int)
    requires
        valid_utf8(b),
        0 <= k <= b.len(),
        forall|i: int| 0 <= i < b.len() ==> b[i] < 0x80,
    ensures
        boundary_at_most(b, k) == k,
{
    if k == b.len() {
        is_char_boundary_start_end_of_seq(b);
    } else {
        lemma_ascii_byte_boundaries(b, k);
    }
}

/// The last character boundary of `s` at or before byte `k`.
pub fn floor_boundary(s: &str, k: usize) -> (r: usize)
    ensures
        r as int == boundary_at_most(s.spec_bytes(), k as int),
        r <= k,
        is_char_boundary(s.spec_bytes(), r as int),
{
    let ghost b = s.spec_bytes();
    proof {
        encode_utf8_valid_utf8(s@);
        lemma_boundary_at_most(b, k as int);
    }
    let mut r = k;
    while r > 0 && !s.is_char_boundary(r)
        invariant
            r <= k,
            b == s.spec_bytes(),
            valid_utf8(b),
            boundary_at_most(b, r as int) == boundary_at_most(b, k as int),
        decreases r,
    {
        r = r - 1;
    }
    proof {
        lemma_boundary_at_most(b, r as int);
    }
    r
}

/// Appends every byte of `src` to `dst`.
pub fn push_all(dst: &mut Vec<u8>, src: &[u8])
    ensures
        final(dst)@ == old(dst)@ + src@,
{
    let mut i: usize = 0;
    while i < src.len()
        invariant
            i <= src@.len(),
            dst@ == old(dst)@ + src@.take(i as int),
        decreases src@.len() - i,
    {
        dst.push(src[i]);
        i = i + 1;
        assert(src@.take(i as int) =~= src@.take((i - 1) as int).push(src@[i - 1]));
    }
    assert(src@.take(i as int) =~= src@);
}

/// Whether two strings hold the same characters.
pub fn str_eq(a: &str, b: &str) -> (same: bool)
    ensures
        same == (a@ == b@),
{
    let x = a.as_bytes();
    let y = b.as_bytes();
    proof {
        encode_utf8_decode_utf8(a@);
        encode_utf8_decode_utf8(b@);
    }
    if x.len() != y.len() {
        return false;
    }
    let mut i: usize = 0;
    while i < x.len()
        invariant
            x@.len() == y@.len(),
            x@ == a.spec_bytes(),
            y@ == b.spec_bytes(),
            i <= x@.len(),
            forall|j: int| 0 <= j < i ==> x@[j] == y@[j],
        decreases x@.len() - i,
    {
        if x[i] != y[i] {
            assert(x@ != y@);
            return false;
        }
        i = i + 1;
    }
    assert(x@ =~= y@);
    true
}

/// The characters of a string slice.
pub fn chars_of(s: &str) -> (v: Vec<char>)
    ensures
        v@ == s@,
{
    let n = s.unicode_len();
    let mut v: Vec<char> = Vec::new();
    let mut i: usize = 0;
    while i < n
        invariant
            i <= n == s@.len(),
            v@ == s@.take(i as int),
        decreases n - i,
    {
        v.push(s.get_char(i));
        i = i + 1;
        assert(v@ =~= s@.take(i as int));
    }
    assert(s@.take(n as int) =~= s@);
    v
}

/// An owned copy of a string slice.
pub fn owned(s: &str) -> (res: String)
    ensures
        res@ == s@,
{
    let mut res = String::new();
    res.append(s);
    res
}

} // verus!
