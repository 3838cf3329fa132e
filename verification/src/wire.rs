//! Little-endian numbers in the values of kernel maps.

use vstd::prelude::*;

verus! {

/// The number that a sequence of bytes stands for, the least significant first.
pub open spec fn le_value(s: Seq<u8>) -> nat
    decreases s.len(),
{
    if s.len() == 0 {
        0
    } else {
        s[0] as nat + 256 * le_value(s.skip(1))
    }
}

/// The 64-bit number at position `at`.
pub open spec fn le_u64(data: Seq<u8>, at: int) -> u64 {
    le_value(data.subrange(at, at + 8)) as u64
}

/// The 32-bit number at position `at`.
pub open spec fn le_u32(data: Seq<u8>, at: int) -> u32 {
    le_value(data.subrange(at, at + 4)) as u32
}

/// 256 to the power of `n`.
pub open spec fn bytes_hold(n: nat) -> nat
    decreases n,
{
    if n == 0 {
        1
    } else {
        256 * bytes_hold((n - 1) as nat)
    }
}

/// So many bytes stand for a number below 256 to the power of their count.
pub proof fn le_value_is_bounded(s: Seq<u8>)
    ensures
        le_value(s) < bytes_hold(s.len()),
    decreases s.len(),
{
    if s.len() > 0 {
        le_value_is_bounded(s.skip(1));
    }
}

fn value_at(data: &[u8], at: usize, count: usize) -> (r: u64)
    requires
        count <= 8,
        at + count <= data@.len(),
    ensures
        r == le_value(data@.subrange(at as int, at + count)),
{
    let len: usize = data.len();
    let mut v: u64 = 0;
    let mut i: usize = count;
    assert(data@.subrange(at + count, at + count) =~= Seq::<u8>::empty());
    while i > 0
        invariant
            i <= count <= 8,
            at + count <= data@.len() == len,
            v == le_value(data@.subrange(at + i, at + count)),
        decreases i,
    {
        proof {
            let rest = data@.subrange(at + i, at + count);
            le_value_is_bounded(rest);
            reveal_with_fuel(bytes_hold, 9);
            let s = data@.subrange(at + i - 1, at + count);
            assert(s.skip(1) =~= rest);
        }
        v = data[at + (i - 1)] as u64 + v * 256;
        i = i - 1;
    }
    v
}

/// The 64-bit number at position `at`.
pub fn u64_at(data: &[u8], at: usize) -> (r: u64)
    requires
        at + 8 <= data@.len(),
    ensures
        r == le_u64(data@, at as int),
        r == le_value(data@.subrange(at as int, at + 8)),
{
    value_at(data, at, 8)
}

/// The 32-bit number at position `at`.
pub fn u32_at(data: &[u8], at: usize) -> (r: u32)
    requires
        at + 4 <= data@.len(),
    ensures
        r == le_u32(data@, at as int),
        r == le_value(data@.subrange(at as int, at + 4)),
{
    proof {
        le_value_is_bounded(data@.subrange(at as int, at + 4));
        reveal_with_fuel(bytes_hold, 5);
    }
    value_at(data, at, 4) as u32
}

/// Bytes in a row stand for the first ones plus what follows times 256 for each of these;
/// one byte stands for itself.
pub proof fn later_bytes_weigh_more(low: Seq<u8>, high: Seq<u8>)
    ensures
        le_value(low + high) == le_value(low) + bytes_hold(low.len()) * le_value(high),
        low.len() == 1 ==> le_value(low) == low[0],
    decreases low.len(),
{
    if low.len() == 0 {
        assert(low + high =~= high);
        assert(bytes_hold(low.len()) * le_value(high) == le_value(high)) by (nonlinear_arith)
            requires
                bytes_hold(low.len()) == 1,
        ;
    } else {
        assert((low + high).skip(1) =~= low.skip(1) + high);
        later_bytes_weigh_more(low.skip(1), high);
        let (tail, b) = (le_value(low.skip(1)) as int, le_value(high) as int);
        let (a, more) = (bytes_hold((low.len() - 1) as nat) as int, bytes_hold(low.len()) as int);
        assert(low.skip(1).len() == (low.len() - 1) as nat);
        assert((low + high)[0] == low[0]);
        assert(le_value(low + high) == low[0] + 256 * (tail + a * b));
        assert(256 * (tail + a * b) == 256 * tail + more * b) by (nonlinear_arith)
            requires
                more == 256 * a,
        ;
        assert(low.len() == 1 ==> le_value(low.skip(1)) == 0);
    }
}

} // verus!
