//! Fixed-width integers as bytes.
//!
//! The model is positional notation in base 256: `be_digits` writes a number
//! with a given count of digits, most significant first, and `be_value` reads
//! such digits back. Little-endian forms are the same digits reversed.

use vstd::prelude::*;

verus! {

/// The `width` low-order base-256 digits of `v`, most significant first.
pub open spec fn be_digits(v: nat, width: nat) -> Seq<u8>
    decreases width,
{
    if width == 0 {
        Seq::empty()
    } else {
        be_digits(v / 256, (width - 1) as nat).push((v % 256) as u8)
    }
}

/// The number whose base-256 digits are `digits`, most significant first.
pub open spec fn be_value(digits: Seq<u8>) -> nat
    decreases digits.len(),
{
    if digits.len() == 0 {
        0
    } else {
        be_value(digits.drop_last()) * 256 + digits.last() as nat
    }
}

/// The `width` low-order base-256 digits of `v`, least significant first.
pub open spec fn le_digits(v: nat, width: nat) -> Seq<u8> {
    be_digits(v, width).reverse()
}

/// The number whose base-256 digits are `digits`, least significant first.
pub open spec fn le_value(digits: Seq<u8>) -> nat {
    be_value(digits.reverse())
}

/// 256 to the power `width`: the count of numbers that `width` bytes hold.
pub open spec fn capacity(width: nat) -> nat
    decreases width,
{
    if width == 0 {
        1
    } else {
        256 * capacity((width - 1) as nat)
    }
}

/// The unsigned number with the same `width` bytes as the signed `v` in
/// two's complement.
pub open spec fn twos_complement(v: int, width: nat) -> nat {
    if v >= 0 {
        v as nat
    } else {
        (v + capacity(width)) as nat
    }
}

/// Writing a number takes exactly as many digits as were asked for.
pub proof fn lemma_be_digits_len(v: nat, width: nat)
    ensures
        be_digits(v, width).len() == width,
    decreases width,
{
    if width > 0 {
        lemma_be_digits_len(v / 256, (width - 1) as nat);
    }
}

/// Digits read back as a number below the capacity of their count.
pub proof fn lemma_be_value_bound(digits: Seq<u8>)
    ensures
        be_value(digits) < capacity(digits.len()),
    decreases digits.len(),
{
    if digits.len() > 0 {
        lemma_be_value_bound(digits.drop_last());
    }
}

/// Reading back what was written gives the number again, as long as it
/// fits in the digits it was written with.
pub proof fn lemma_be_value_of_digits(v: nat, width: nat)
    requires
        v < capacity(width),
    ensures
        be_value(be_digits(v, width)) == v,
    decreases width,
{
    if width > 0 {
        let head = be_digits(v / 256, (width - 1) as nat);
        lemma_be_value_of_digits(v / 256, (width - 1) as nat);
        assert(be_digits(v, width).drop_last() =~= head);
    }
}

/// Writing what was read gives the same digits again.
pub proof fn lemma_be_digits_of_value(digits: Seq<u8>)
    ensures
        be_digits(be_value(digits), digits.len()) == digits,
    decreases digits.len(),
{
    if digits.len() > 0 {
        let n = be_value(digits);
        let head = digits.drop_last();
        lemma_be_digits_of_value(head);
        assert(n / 256 == be_value(head));
        assert(n % 256 == digits.last());
        assert(be_digits(n, digits.len()) =~= digits);
    }
}

/// The little-endian forms round-trip as the big-endian ones do.
pub proof fn lemma_le_value_of_digits(v: nat, width: nat)
    requires
        v < capacity(width),
    ensures
        le_value(le_digits(v, width)) == v,
{
    lemma_be_value_of_digits(v, width);
    assert(be_digits(v, width).reverse().reverse() =~= be_digits(v, width));
}

/// A 16-bit number as two bytes, most significant first.
pub fn u16_to_be_bytes(v: u16) -> (out: [u8; 2])
    ensures
        out@ == be_digits(v as nat, 2),
{
    let out = [(v / 256) as u8, (v % 256) as u8];
    proof {
        reveal_with_fuel(be_digits, 3);
        assert(out@ =~= be_digits(v as nat, 2));
    }
    out
}

/// A 32-bit number as four bytes, least significant first.
pub fn u32_to_le_bytes(v: u32) -> (out: [u8; 4])
    ensures
        out@ == le_digits(v as nat, 4),
{
    let b0 = (v % 256) as u8;
    let v1 = v / 256;
    let b1 = (v1 % 256) as u8;
    let v2 = v1 / 256;
    let b2 = (v2 % 256) as u8;
    let b3 = (v2 / 256) as u8;
    let out = [b0, b1, b2, b3];
    proof {
        reveal_with_fuel(be_digits, 5);
        assert(out@ =~= le_digits(v as nat, 4));
    }
    out
}

/// The 32-bit number that four bytes hold, least significant first.
pub fn u32_from_le_bytes(bytes: &[u8; 4]) -> (v: u32)
    ensures
        v == le_value(bytes@),
{
    let v = ((bytes[3] as u32 * 256 + bytes[2] as u32) * 256 + bytes[1] as u32) * 256
        + bytes[0] as u32;
    proof {
        let r = bytes@.reverse();
        reveal_with_fuel(be_value, 5);
        assert(r.drop_last().drop_last().drop_last().drop_last().len() == 0);
        assert(v == be_value(r));
    }
    v
}

/// A 64-bit number as eight bytes, most significant first.
pub fn u64_to_be_bytes(v: u64) -> (out: [u8; 8])
    ensures
        out@ == be_digits(v as nat, 8),
{
    let b7 = (v % 256) as u8;
    let v1 = v / 256;
    let b6 = (v1 % 256) as u8;
    let v2 = v1 / 256;
    let b5 = (v2 % 256) as u8;
    let v3 = v2 / 256;
    let b4 = (v3 % 256) as u8;
    let v4 = v3 / 256;
    let b3 = (v4 % 256) as u8;
    let v5 = v4 / 256;
    let b2 = (v5 % 256) as u8;
    let v6 = v5 / 256;
    let b1 = (v6 % 256) as u8;
    let b0 = (v6 / 256) as u8;
    let out = [b0, b1, b2, b3, b4, b5, b6, b7];
    proof {
        reveal_with_fuel(be_digits, 9);
        assert(out@ =~= be_digits(v as nat, 8));
    }
    out
}

/// A 64-bit number as eight bytes, least significant first.
pub fn u64_to_le_bytes(v: u64) -> (out: [u8; 8])
    ensures
        out@ == le_digits(v as nat, 8),
{
    let be = u64_to_be_bytes(v);
    let out = [be[7], be[6], be[5], be[4], be[3], be[2], be[1], be[0]];
    proof {
        assert(out@ =~= be@.reverse());
    }
    out
}

/// A signed 32-bit number as four bytes in two's complement, least
/// significant first.
pub fn i32_to_le_bytes(v: i32) -> (out: [u8; 4])
    ensures
        out@ == le_digits(twos_complement(v as int, 4), 4),
{
    let bits: u32 = if v >= 0 {
        v as u32
    } else {
        (v + 1 + i32::MAX) as u32 + 0x8000_0000u32
    };
    proof {
        reveal_with_fuel(capacity, 5);
    }
    u32_to_le_bytes(bits)
}

/// A signed 64-bit number as eight bytes in two's complement, least
/// significant first.
pub fn i64_to_le_bytes(v: i64) -> (out: [u8; 8])
    ensures
        out@ == le_digits(twos_complement(v as int, 8), 8),
{
    let bits: u64 = if v >= 0 {
        v as u64
    } else {
        (v + 1 + i64::MAX) as u64 + 0x8000_0000_0000_0000u64
    };
    proof {
        reveal_with_fuel(capacity, 9);
    }
    u64_to_le_bytes(bits)
}

/// Reading a concatenation backwards gives the second part backwards, then
/// the first part backwards.
pub proof fn lemma_reverse_concat(first: Seq<u8>, second: Seq<u8>)
    ensures
        (first + second).reverse() == second.reverse() + first.reverse(),
{
    assert((first + second).reverse() =~= second.reverse() + first.reverse());
}

/// The bytes of a fixed-size field, last byte first.
pub fn reversed_array<const N: usize>(bytes: &[u8; N]) -> (out: [u8; N])
    ensures
        out@ == bytes@.reverse(),
{
    let mut out = *bytes;
    let mut i: usize = 0;
    while i < N
        invariant
            i <= N,
            forall|k: int| 0 <= k < i ==> out@[k] == bytes@[N - 1 - k],
        decreases N - i,
    {
        out[i] = bytes[N - 1 - i];
        i += 1;
    }
    proof {
        assert(out@ =~= bytes@.reverse());
    }
    out
}

/// The bytes of a buffer, last byte first.
pub fn reversed_bytes(bytes: &[u8]) -> (out: Vec<u8>)
    ensures
        out@ == bytes@.reverse(),
{
    let mut out: Vec<u8> = Vec::with_capacity(bytes.len());
    let mut i: usize = bytes.len();
    while i > 0
        invariant
            i <= bytes.len(),
            out.len() == bytes.len() - i,
            forall|k: int| 0 <= k < out.len() ==> out@[k] == bytes@[bytes.len() - 1 - k],
        decreases i,
    {
        i -= 1;
        out.push(bytes[i]);
    }
    proof {
        assert(out@ =~= bytes@.reverse());
    }
    out
}

/// Writes `field` into `buffer` from position `at` on; the bytes before and
/// after it stay as they are.
pub fn write_field<const N: usize, const M: usize>(
    buffer: &mut [u8; N],
    at: usize,
    field: &[u8; M],
)
    requires
        at + M <= N,
    ensures
        final(buffer)@ == old(buffer)@.subrange(0, at as int) + field@ + old(buffer)@.subrange(
            at + M,
            N as int,
        ),
{
    let mut i: usize = 0;
    while i < M
        invariant
            i <= M,
            at + M <= N,
            forall|k: int| 0 <= k < at ==> buffer@[k] == old(buffer)@[k],
            forall|k: int| at <= k < at + i ==> buffer@[k] == field@[k - at],
            forall|k: int| at + i <= k < N ==> buffer@[k] == old(buffer)@[k],
        decreases M - i,
    {
        buffer[at + i] = field[i];
        i += 1;
    }
    proof {
        assert(buffer@ =~= old(buffer)@.subrange(0, at as int) + field@ + old(buffer)@.subrange(
            at + M,
            N as int,
        ));
    }
}

/// The `M` bytes of `bytes` from position `at` on.
pub fn read_field<const M: usize>(bytes: &[u8], at: usize) -> (field: [u8; M])
    requires
        at + M <= bytes.len(),
    ensures
        field@ == bytes@.subrange(at as int, at + M),
{
    let mut field = [0u8; M];
    let mut i: usize = 0;
    while i < M
        invariant
            i <= M,
            at + M <= bytes.len(),
            forall|k: int| 0 <= k < i ==> field@[k] == bytes@[at + k],
        decreases M - i,
    {
        field[i] = bytes[at + i];
        i += 1;
    }
    proof {
        assert(field@ =~= bytes@.subrange(at as int, at + M));
    }
    field
}

} // verus!
