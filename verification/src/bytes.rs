//! Little-endian integers, as they stand in stored blobs and in messages.

use vstd::prelude::*;

verus! {

/// The number whose little-endian digits in base 256 are `s`.
pub open spec fn le_value(s: Seq<u8>) -> int
    decreases s.len(),
{
    if s.len() == 0 {
        0
    } else {
        s[0] + 256 * le_value(s.drop_first())
    }
}

/// The `n` least significant base-256 digits of `v`, the lowest first.
pub open spec fn le_digits(v: int, n: nat) -> Seq<u8>
    decreases n,
{
    if n == 0 {
        Seq::empty()
    } else {
        seq![(v % 256) as u8] + le_digits(v / 256, (n - 1) as nat)
    }
}

/// 256 to the power of `n`.
pub open spec fn pow256(n: nat) -> int
    decreases n,
{
    if n == 0 {
        1
    } else {
        256 * pow256((n - 1) as nat)
    }
}

/// The two's complement reading of the `n`-byte number `v`.
pub open spec fn signed(v: int, n: nat) -> int {
    if 2 * v < pow256(n) {
        v
    } else {
        v - pow256(n)
    }
}

/// The `n`-byte two's complement pattern of `v`.
pub open spec fn unsigned(v: int, n: nat) -> int {
    if v < 0 {
        v + pow256(n)
    } else {
        v
    }
}

/// The signed little-endian integer written as the bytes `s`.
pub open spec fn le_signed(s: Seq<u8>) -> int {
    signed(le_value(s), s.len())
}

/// The `n` bytes of the signed integer `v`, little-endian.
pub open spec fn le_signed_digits(v: int, n: nat) -> Seq<u8> {
    le_digits(unsigned(v, n), n)
}

/// Powers of 256 for the widths in use.
pub proof fn lemma_pow256()
    ensures
        pow256(0) == 1,
        pow256(1) == 0x100,
        pow256(2) == 0x1_0000,
        pow256(4) == 0x1_0000_0000,
        pow256(8) == 0x1_0000_0000_0000_0000,
{
    reveal_with_fuel(pow256, 9);
}

/// `n` digits hold a number below `256^n`.
pub proof fn lemma_le_value_bound(s: Seq<u8>)
    ensures
        0 <= le_value(s) < pow256(s.len()),
    decreases s.len(),
{
    if s.len() > 0 {
        lemma_le_value_bound(s.drop_first());
    }
}

/// Reading back the digits of a number gives the number.
pub proof fn lemma_le_round_trip(v: int, n: nat)
    requires
        0 <= v < pow256(n),
    ensures
        le_digits(v, n).len() == n,
        le_value(le_digits(v, n)) == v,
    decreases n,
{
    if n > 0 {
        let m = (n - 1) as nat;
        lemma_le_round_trip(v / 256, m);
        assert(le_digits(v, n).drop_first() =~= le_digits(v / 256, m));
    }
}

/// Reading back the bytes of a signed integer gives the integer.
pub proof fn lemma_le_signed_round_trip(v: int, n: nat)
    requires
        -pow256(n) <= 2 * v < pow256(n),
    ensures
        le_signed_digits(v, n).len() == n,
        le_signed(le_signed_digits(v, n)) == v,
{
    lemma_le_round_trip(unsigned(v, n), n);
}

/// A longer number of digits has the larger power.
proof fn lemma_pow256_monotone(m: nat, n: nat)
    requires
        m <= n,
    ensures
        1 <= pow256(m) <= pow256(n),
    decreases n,
{
    if m < n {
        lemma_pow256_monotone(m, (n - 1) as nat);
    } else if n > 0 {
        lemma_pow256_monotone((n - 1) as nat, (n - 1) as nat);
    }
}

/// Reads the `n` bytes from `from` on as an unsigned integer.
pub(crate) fn read_le(s: &[u8], from: usize, n: usize) -> (v: u64)
    requires
        n <= 8,
        from + n <= s.len(),
    ensures
        v == le_value(s@.subrange(from as int, from + n)),
{
    let mut v: u64 = 0;
    let mut i: usize = n;
    assert(s@.subrange(from + n, from + n) =~= Seq::<u8>::empty());
    while i > 0
        invariant
            i <= n <= 8,
            from + n <= s.len(),
            v == le_value(s@.subrange(from + i, from + n)),
        decreases i,
    {
        let ghost rest = s@.subrange(from + i, from + n);
        i = i - 1;
        let ghost more = s@.subrange(from + i, from + n);
        proof {
            assert(more.drop_first() =~= rest);
            assert(more[0] == s@[from + i]);
            lemma_le_value_bound(more);
            lemma_pow256_monotone(more.len(), 8);
            lemma_pow256();
        }
        v = v * 256 + s[from + i] as u64;
    }
    v
}

/// Appends the `n` low bytes of `v`.
pub(crate) fn write_le(out: &mut Vec<u8>, v: u64, n: usize)
    ensures
        final(out)@ == old(out)@ + le_digits(v as int, n as nat),
{
    let mut rest: u64 = v;
    let mut i: usize = 0;
    assert(out@ + le_digits(rest as int, n as nat) =~= old(out)@ + le_digits(v as int, n as nat));
    while i < n
        invariant
            i <= n,
            out@ + le_digits(rest as int, (n - i) as nat) == old(out)@ + le_digits(
                v as int,
                n as nat,
            ),
        decreases n - i,
    {
        let ghost before = out@;
        let ghost high = le_digits(rest as int / 256, (n - i - 1) as nat);
        out.push((rest % 256) as u8);
        assert(before + (seq![(rest as int % 256) as u8] + high) =~= out@ + high);
        rest = rest / 256;
        i = i + 1;
    }
    assert(out@ + le_digits(rest as int, 0) =~= out@);
}

/// Reads two bytes as a signed integer.
pub(crate) fn read_i16(s: &[u8], from: usize) -> (v: i16)
    requires
        from + 2 <= s.len(),
    ensures
        v == le_signed(s@.subrange(from as int, from + 2)),
{
    let u: u64 = read_le(s, from, 2);
    proof {
        lemma_le_value_bound(s@.subrange(from as int, from + 2));
        lemma_pow256();
    }
    if u < 0x8000 {
        u as i16
    } else {
        (u as i64 - 0x1_0000) as i16
    }
}

/// Reads four bytes as a signed integer.
pub(crate) fn read_i32(s: &[u8], from: usize) -> (v: i32)
    requires
        from + 4 <= s.len(),
    ensures
        v == le_signed(s@.subrange(from as int, from + 4)),
{
    let u: u64 = read_le(s, from, 4);
    proof {
        lemma_le_value_bound(s@.subrange(from as int, from + 4));
        lemma_pow256();
    }
    if u < 0x8000_0000 {
        u as i32
    } else {
        (u as i64 - 0x1_0000_0000) as i32
    }
}

/// Reads eight bytes as a signed integer.
pub(crate) fn read_i64(s: &[u8], from: usize) -> (v: i64)
    requires
        from + 8 <= s.len(),
    ensures
        v == le_signed(s@.subrange(from as int, from + 8)),
{
    let u: u64 = read_le(s, from, 8);
    proof {
        lemma_pow256();
    }
    to_signed(u)
}

/// The two's complement reading of a 64-bit pattern.
pub fn to_signed(u: u64) -> (v: i64)
    ensures
        v == signed(u as int, 8),
{
    proof {
        lemma_pow256();
    }
    if u < 0x8000_0000_0000_0000 {
        u as i64
    } else {
        (u as i128 - 0x1_0000_0000_0000_0000) as i64
    }
}

/// Appends the two bytes of `v`.
pub(crate) fn write_i16(out: &mut Vec<u8>, v: i16)
    ensures
        final(out)@ == old(out)@ + le_signed_digits(v as int, 2),
{
    proof {
        lemma_pow256();
    }
    let u: u64 = if v < 0 {
        (v as i64 + 0x1_0000) as u64
    } else {
        v as u64
    };
    write_le(out, u, 2);
}

/// Appends the four bytes of `v`.
pub(crate) fn write_i32(out: &mut Vec<u8>, v: i32)
    ensures
        final(out)@ == old(out)@ + le_signed_digits(v as int, 4),
{
    proof {
        lemma_pow256();
    }
    let u: u64 = if v < 0 {
        (v as i64 + 0x1_0000_0000) as u64
    } else {
        v as u64
    };
    write_le(out, u, 4);
}

/// Appends the eight bytes of `v`.
pub(crate) fn write_i64(out: &mut Vec<u8>, v: i64)
    ensures
        final(out)@ == old(out)@ + le_signed_digits(v as int, 8),
{
    proof {
        lemma_pow256();
    }
    let u: u64 = if v < 0 {
        (v as i128 + 0x1_0000_0000_0000_0000) as u64
    } else {
        v as u64
    };
    write_le(out, u, 8);
}

} // verus!
