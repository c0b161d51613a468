//! Little-endian integers and the additive checksum, over byte sequences.

use vstd::prelude::*;
use vstd::slice::{slice_subrange, slice_to_vec};

verus! {

/// The 16-bit little-endian integer held by the two bytes at `at`.
pub open spec fn u16_le(s: Seq<u8>, at: int) -> int {
    s[at] as int + 256 * (s[at + 1] as int)
}

/// The 32-bit little-endian integer held by the four bytes at `at`.
pub open spec fn u32_le(s: Seq<u8>, at: int) -> int {
    s[at] as int + 256 * (s[at + 1] as int) + 65536 * (s[at + 2] as int) + 16777216 * (s[at
        + 3] as int)
}

/// The checksum of a payload: the sum of its bytes, kept to 16 bits.
pub open spec fn checksum(s: Seq<u8>) -> int
    decreases s.len(),
{
    if s.len() == 0 {
        0
    } else {
        (checksum(s.drop_last()) + s.last() as int) % 65536
    }
}

/// `n` rounded up to the next multiple of four.
pub open spec fn padded(n: int) -> int {
    if n % 4 == 0 {
        n
    } else {
        n + 4 - n % 4
    }
}

/// `n` zero bytes.
pub open spec fn zeros(n: int) -> Seq<u8> {
    Seq::new(n as nat, |i: int| 0u8)
}

/// Reads the 16-bit little-endian integer at `at`.
pub fn read_u16_le(data: &[u8], at: usize) -> (v: u16)
    requires
        at + 2 <= data@.len(),
    ensures
        v == u16_le(data@, at as int),
{
    let lo: u16 = data[at] as u16;
    let hi: u16 = data[at + 1] as u16;
    lo + 256 * hi
}

/// Reads the 32-bit little-endian integer at `at`.
pub fn read_u32_le(data: &[u8], at: usize) -> (v: u32)
    requires
        at + 4 <= data@.len(),
    ensures
        v == u32_le(data@, at as int),
{
    let b0: u32 = data[at] as u32;
    let b1: u32 = data[at + 1] as u32;
    let b2: u32 = data[at + 2] as u32;
    let b3: u32 = data[at + 3] as u32;
    b0 + 256 * b1 + 65536 * b2 + 16777216 * b3
}

/// Computes the checksum of a payload.
pub fn compute_checksum(data: &[u8]) -> (c: u16)
    ensures
        c == checksum(data@),
{
    let mut sum: u32 = 0;
    let mut i: usize = 0;
    while i < data.len()
        invariant
            i <= data@.len(),
            sum == checksum(data@.take(i as int)),
            sum < 65536,
        decreases data@.len() - i,
    {
        proof {
            let next = data@.take(i + 1);
            assert(next.drop_last() == data@.take(i as int));
            assert(next.last() == data@[i as int]);
        }
        sum = (sum + data[i] as u32) % 65536;
        i = i + 1;
    }
    proof {
        assert(data@.take(i as int) == data@);
    }
    sum as u16
}

/// `n` rounded up to the next multiple of four.
pub fn pad_to_four(n: u32) -> (p: u64)
    ensures
        p == padded(n as int),
        n <= p < n + 4,
{
    let r: u32 = n % 4;
    if r == 0 {
        n as u64
    } else {
        n as u64 + 4 - r as u64
    }
}

/// `n` zero bytes.
pub fn zero_bytes(n: usize) -> (out: Vec<u8>)
    ensures
        out@ == zeros(n as int),
{
    let mut out: Vec<u8> = Vec::new();
    let mut i: usize = 0;
    while i < n
        invariant
            i <= n,
            out@.len() == i,
            forall|j: int| 0 <= j < i ==> out@[j] == 0u8,
        decreases n - i,
    {
        out.push(0u8);
        i = i + 1;
    }
    assert(out@ =~= zeros(n as int));
    out
}

/// A fresh copy of the bytes from `start` up to, not including, `end`.
pub fn copy_range(data: &[u8], start: usize, end: usize) -> (out: Vec<u8>)
    requires
        start <= end <= data@.len(),
    ensures
        out@ == data@.subrange(start as int, end as int),
{
    slice_to_vec(slice_subrange(data, start, end))
}

} // verus!
