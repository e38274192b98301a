//! Byte-buffer helpers shared by the record codecs.
use vstd::prelude::*;

verus! {

/// Every byte of `s` is the erased-flash value `0xFF`.
pub open spec fn all_ff(s: Seq<u8>) -> bool {
    forall|i: int| 0 <= i < s.len() ==> s[i] == 0xFFu8
}

/// Every byte of `s` is zero.
pub open spec fn all_zero(s: Seq<u8>) -> bool {
    forall|i: int| 0 <= i < s.len() ==> s[i] == 0u8
}

/// A sequence of `n` erased bytes.
pub open spec fn ff_seq(n: nat) -> Seq<u8> {
    Seq::new(n, |i: int| 0xFFu8)
}

/// `dst` with `src` written over it starting at `off`.
pub open spec fn splice(dst: Seq<u8>, off: int, src: Seq<u8>) -> Seq<u8> {
    dst.subrange(0, off) + src + dst.subrange(off + src.len(), dst.len() as int)
}

pub fn is_all_ff(s: &[u8]) -> (r: bool)
    ensures
        r == all_ff(s@),
{
    let mut i: usize = 0;
    while i < s.len()
        invariant
            i <= s@.len(),
            forall|j: int| 0 <= j < i ==> s@[j] == 0xFFu8,
        decreases s@.len() - i,
    {
        if s[i] != 0xFF {
            return false;
        }
        i += 1;
    }
    true
}

pub fn is_all_zero(s: &[u8]) -> (r: bool)
    ensures
        r == all_zero(s@),
{
    let mut i: usize = 0;
    while i < s.len()
        invariant
            i <= s@.len(),
            forall|j: int| 0 <= j < i ==> s@[j] == 0u8,
        decreases s@.len() - i,
    {
        if s[i] != 0 {
            return false;
        }
        i += 1;
    }
    true
}

/// A fresh buffer of `n` erased bytes.
pub fn ff_vec(n: usize) -> (r: Vec<u8>)
    ensures
        r@ == ff_seq(n as nat),
{
    let r = vec![0xFFu8; n];
    assert(r@ =~= ff_seq(n as nat));
    r
}

/// Overwrite `dst[off .. off + src.len()]` with `src`.
pub fn write_at(dst: &mut Vec<u8>, off: usize, src: &[u8])
    requires
        off + src@.len() <= old(dst)@.len(),
    ensures
        final(dst)@ == splice(old(dst)@, off as int, src@),
        final(dst)@.len() == old(dst)@.len(),
{
    let n = dst.len();
    let mut i: usize = 0;
    while i < src.len()
        invariant
            n == dst@.len(),
            off + src@.len() <= dst@.len(),
            dst@.len() == old(dst)@.len(),
            i <= src@.len(),
            forall|j: int| 0 <= j < off ==> dst@[j] == old(dst)@[j],
            forall|j: int| off + src@.len() <= j < dst@.len() ==> dst@[j] == old(dst)@[j],
            forall|j: int| 0 <= j < i ==> dst@[off + j] == src@[j],
            forall|j: int| off + i <= j < off + src@.len() ==> dst@[j] == old(dst)@[j],
        decreases src@.len() - i,
    {
        dst[off + i] = src[i];
        i += 1;
    }
    assert(dst@ =~= splice(old(dst)@, off as int, src@));
}

/// A copy of `src[start .. start + len]`.
pub fn copy_range(src: &[u8], start: usize, len: usize) -> (r: Vec<u8>)
    requires
        start + len <= src@.len(),
    ensures
        r@ == src@.subrange(start as int, start + len),
{
    let mut r: Vec<u8> = Vec::new();
    let n = src.len();
    let mut i: usize = 0;
    while i < len
        invariant
            n == src@.len(),
            start + len <= src@.len(),
            i <= len,
            r@ == src@.subrange(start as int, start + i),
        decreases len - i,
    {
        r.push(src[start + i]);
        i += 1;
        assert(r@ =~= src@.subrange(start as int, start + i));
    }
    r
}

pub fn seq_eq(a: &[u8], b: &[u8]) -> (r: bool)
    ensures
        r == (a@ == b@),
{
    if a.len() != b.len() {
        assert(a@.len() != b@.len());
        return false;
    }
    let mut i: usize = 0;
    while i < a.len()
        invariant
            a@.len() == b@.len(),
            i <= a@.len(),
            forall|j: int| 0 <= j < i ==> a@[j] == b@[j],
        decreases a@.len() - i,
    {
        if a[i] != b[i] {
            return false;
        }
        i += 1;
    }
    assert(a@ =~= b@);
    true
}

/// The splice of a region read back gives the written bytes.
pub proof fn lemma_splice_read(dst: Seq<u8>, off: int, src: Seq<u8>)
    requires
        0 <= off,
        off + src.len() <= dst.len(),
    ensures
        splice(dst, off, src).len() == dst.len(),
        splice(dst, off, src).subrange(off, off + src.len()) =~= src,
{
}

/// A splice leaves bytes outside the written range untouched.
pub proof fn lemma_splice_outside(dst: Seq<u8>, off: int, src: Seq<u8>, a: int, b: int)
    requires
        0 <= off,
        off + src.len() <= dst.len(),
        0 <= a <= b <= dst.len(),
        b <= off || off + src.len() <= a,
    ensures
        splice(dst, off, src).subrange(a, b) =~= dst.subrange(a, b),
{
    let r = splice(dst, off, src);
    assert forall|i: int| 0 <= i < b - a implies r.subrange(a, b)[i] == dst.subrange(a, b)[i] by {
        if a + i < off {
        } else {
            assert(a + i >= off + src.len());
        }
    }
}

} // verus!
