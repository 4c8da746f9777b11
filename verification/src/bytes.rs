//! Big-endian integers as they stand on the wire and in the cache file.

use vstd::prelude::*;
use crate::cursor::Cursor;

verus! {

/// 256 to the power `width`.
pub open spec fn pow256(width: nat) -> nat
    decreases width,
{
    if width == 0 {
        1
    } else {
        256 * pow256((width - 1) as nat)
    }
}

/// The number that `bytes` spell, most significant byte first.
pub open spec fn be_value(bytes: Seq<u8>) -> nat
    decreases bytes.len(),
{
    if bytes.len() == 0 {
        0
    } else {
        be_value(bytes.drop_last()) * 256 + bytes.last() as nat
    }
}

/// The `width` low-order bytes of `value`, most significant byte first.
pub open spec fn be_bytes(value: nat, width: nat) -> Seq<u8>
    decreases width,
{
    if width == 0 {
        Seq::<u8>::empty()
    } else {
        be_bytes(value / 256, (width - 1) as nat).push((value % 256) as u8)
    }
}

/// `be_bytes` yields exactly `width` bytes.
pub proof fn lemma_be_bytes_len(value: nat, width: nat)
    ensures
        be_bytes(value, width).len() == width,
    decreases width,
{
    if width > 0 {
        lemma_be_bytes_len(value / 256, (width - 1) as nat);
    }
}

/// A sequence of `n` bytes spells a number below 256 to the `n`.
pub proof fn lemma_be_value_bound(bytes: Seq<u8>)
    ensures
        be_value(bytes) < pow256(bytes.len()),
    decreases bytes.len(),
{
    if bytes.len() > 0 {
        lemma_be_value_bound(bytes.drop_last());
        let rest = be_value(bytes.drop_last());
        let p = pow256((bytes.len() - 1) as nat);
        assert(rest * 256 + 255 < 256 * p) by (nonlinear_arith)
            requires
                rest < p,
        ;
    }
}

/// Reading back what was written gives the number written, when it fits.
pub proof fn lemma_be_value_of_bytes(value: nat, width: nat)
    requires
        value < pow256(width),
    ensures
        be_value(be_bytes(value, width)) == value,
    decreases width,
{
    if width > 0 {
        let p = pow256((width - 1) as nat);
        assert(value / 256 < p) by (nonlinear_arith)
            requires
                value < 256 * p,
        ;
        lemma_be_value_of_bytes(value / 256, (width - 1) as nat);
        let written = be_bytes(value, width);
        assert(written.drop_last() =~= be_bytes(value / 256, (width - 1) as nat));
        assert(written.last() == (value % 256) as u8);
    }
}

/// A number that was written behind `front` is read back from there,
/// whatever follows it, as long as it fits in the bytes written.
pub proof fn lemma_number_reads_back(front: Seq<u8>, value: nat, width: nat, back: Seq<u8>)
    requires
        value < pow256(width),
    ensures
        be_value(
            (front + be_bytes(value, width) + back).subrange(
                front.len() as int,
                (front.len() + width) as int,
            ),
        ) == value,
{
    lemma_be_bytes_len(value, width);
    lemma_be_value_of_bytes(value, width);
    assert((front + be_bytes(value, width) + back).subrange(
        front.len() as int,
        (front.len() + width) as int,
    ) =~= be_bytes(value, width));
}

/// The concrete powers that the codec needs.
pub proof fn lemma_pow256_values()
    ensures
        pow256(1) == 0x100,
        pow256(2) == 0x1_0000,
        pow256(4) == 0x1_0000_0000,
        pow256(16) == 0x1_0000_0000_0000_0000_0000_0000_0000_0000,
{
    reveal_with_fuel(pow256, 17);
}

/// Appending a byte shifts the number spelt so far by one byte.
pub proof fn lemma_be_value_push(bytes: Seq<u8>, byte: u8)
    ensures
        be_value(bytes.push(byte)) == be_value(bytes) * 256 + byte as nat,
{
    assert(bytes.push(byte).drop_last() =~= bytes);
}

/// Appends `part` to `out`.
pub fn push_all(out: &mut Vec<u8>, part: &[u8])
    ensures
        final(out)@ == old(out)@ + part@,
{
    let n = part.len();
    let mut i: usize = 0;
    while i < n
        invariant
            n == part@.len(),
            i <= n,
            out@ == old(out)@ + part@.subrange(0, i as int),
        decreases n - i,
    {
        out.push(part[i]);
        i = i + 1;
        assert(out@ =~= old(out)@ + part@.subrange(0, i as int));
    }
    assert(part@.subrange(0, n as int) =~= part@);
}

/// Reads the unsigned number spelt by the next `width` bytes, at most 16.
fn read_number(cursor: &mut Cursor, width: usize) -> (value: u128)
    requires
        width <= 16,
        old(cursor).position() + width <= old(cursor).bytes().len(),
    ensures
        value == be_value(old(cursor).upcoming(width as int)),
        final(cursor).bytes() == old(cursor).bytes(),
        final(cursor).position() == old(cursor).position() + width,
{
    let ghost start = cursor.position() as int;
    let ghost all = cursor.bytes();
    let mut value: u128 = 0;
    let mut i: usize = 0;
    while i < width
        invariant
            width <= 16,
            i <= width,
            0 <= start,
            start + width <= all.len(),
            cursor.bytes() == all,
            cursor.position() == start + i,
            value == be_value(all.subrange(start, start + i)),
        decreases width - i,
    {
        let byte = cursor.take();
        proof {
            let seen = all.subrange(start, start + i);
            lemma_be_value_push(seen, byte);
            assert(seen.push(byte) =~= all.subrange(start, start + i + 1));
            lemma_be_value_bound(all.subrange(start, start + i + 1));
            lemma_pow256_monotone((i + 1) as nat, 16);
            lemma_pow256_values();
        }
        value = value * 256 + byte as u128;
        i = i + 1;
    }
    value
}

/// A higher power of 256 is no smaller.
pub proof fn lemma_pow256_monotone(low: nat, high: nat)
    requires
        low <= high,
    ensures
        pow256(low) <= pow256(high),
    decreases high,
{
    if low < high {
        lemma_pow256_monotone(low, (high - 1) as nat);
    }
}

/// Appends the `width` low-order bytes of `value`, most significant first.
pub fn write_number(out: &mut Vec<u8>, value: u128, width: usize)
    requires
        width <= 16,
    ensures
        final(out)@ == old(out)@ + be_bytes(value as nat, width as nat),
{
    let ghost before = out@;
    let mut digits: Vec<u8> = Vec::new();
    let mut rest: u128 = value;
    let mut i: usize = 0;
    // digits holds the low-order bytes found so far, least significant first
    while i < width
        invariant
            i <= width,
            digits@.len() == i,
            forall|k: nat| #![trigger be_bytes(value as nat, k)]
                i <= k ==> be_bytes(value as nat, k) =~= be_bytes(rest as nat, (k - i) as nat)
                    + digits@.reverse(),
        decreases width - i,
    {
        let digit = (rest % 256) as u8;
        let ghost old_digits = digits@;
        let ghost old_rest = rest;
        digits.push(digit);
        rest = rest / 256;
        i = i + 1;
        proof {
            assert forall|k: nat| #![trigger be_bytes(value as nat, k)] i <= k implies be_bytes(
                value as nat,
                k,
            ) =~= be_bytes(rest as nat, (k - i) as nat) + digits@.reverse() by {
                let shorter = (k - i) as nat;
                assert(be_bytes(old_rest as nat, shorter + 1) == be_bytes(
                    old_rest as nat / 256,
                    shorter,
                ).push((old_rest as nat % 256) as u8));
                assert(digits@.reverse() =~= seq![digit] + old_digits.reverse());
                assert(be_bytes(value as nat, k) =~= be_bytes(old_rest as nat, (k - (i - 1)) as nat)
                    + old_digits.reverse());
            }
        }
    }
    assert(be_bytes(value as nat, width as nat) =~= digits@.reverse());
    let mut j: usize = width;
    while j > 0
        invariant
            j <= width,
            digits@.len() == width,
            out@ == before + digits@.reverse().subrange(0, width - j),
        decreases j,
    {
        j = j - 1;
        out.push(digits[j]);
        assert(out@ =~= before + digits@.reverse().subrange(0, width - j));
    }
    assert(digits@.reverse().subrange(0, width as int) =~= digits@.reverse());
}

/// The number that at most sixteen bytes spell, most significant byte first.
pub fn value_of(bytes: &[u8]) -> (value: u128)
    requires
        bytes@.len() <= 16,
    ensures
        value == be_value(bytes@),
{
    let n = bytes.len();
    let mut value: u128 = 0;
    let mut i: usize = 0;
    while i < n
        invariant
            n == bytes@.len(),
            n <= 16,
            i <= n,
            value == be_value(bytes@.take(i as int)),
        decreases n - i,
    {
        let byte = bytes[i];
        proof {
            let seen = bytes@.take(i as int);
            lemma_be_value_push(seen, byte);
            assert(seen.push(byte) =~= bytes@.take(i + 1));
            lemma_be_value_bound(bytes@.take(i + 1));
            lemma_pow256_monotone((i + 1) as nat, 16);
            lemma_pow256_values();
        }
        value = value * 256 + byte as u128;
        i = i + 1;
    }
    assert(bytes@.take(n as int) =~= bytes@);
    value
}

/// Reads a 16-bit number, most significant byte first.
pub fn read_u16(cursor: &mut Cursor) -> (value: u16)
    requires
        old(cursor).position() + 2 <= old(cursor).bytes().len(),
    ensures
        value == be_value(old(cursor).upcoming(2 as int)),
        final(cursor).bytes() == old(cursor).bytes(),
        final(cursor).position() == old(cursor).position() + 2,
{
    proof {
        lemma_be_value_bound(cursor.upcoming(2));
        lemma_pow256_values();
    }
    let value = read_number(cursor, 2);
    value as u16
}

/// Reads a 32-bit number, most significant byte first.
pub fn read_u32(cursor: &mut Cursor) -> (value: u32)
    requires
        old(cursor).position() + 4 <= old(cursor).bytes().len(),
    ensures
        value == be_value(old(cursor).upcoming(4 as int)),
        final(cursor).bytes() == old(cursor).bytes(),
        final(cursor).position() == old(cursor).position() + 4,
{
    proof {
        lemma_be_value_bound(cursor.upcoming(4));
        lemma_pow256_values();
    }
    let value = read_number(cursor, 4);
    value as u32
}

/// Reads a 128-bit number, most significant byte first.
pub fn read_u128(cursor: &mut Cursor) -> (value: u128)
    requires
        old(cursor).position() + 16 <= old(cursor).bytes().len(),
    ensures
        value == be_value(old(cursor).upcoming(16 as int)),
        final(cursor).bytes() == old(cursor).bytes(),
        final(cursor).position() == old(cursor).position() + 16,
{
    read_number(cursor, 16)
}

/// Appends `value` as two bytes, most significant first.
pub fn write_u16(out: &mut Vec<u8>, value: u16)
    ensures
        final(out)@ == old(out)@ + be_bytes(value as nat, 2),
{
    write_number(out, value as u128, 2)
}

/// Appends `value` as four bytes, most significant first.
pub fn write_u32(out: &mut Vec<u8>, value: u32)
    ensures
        final(out)@ == old(out)@ + be_bytes(value as nat, 4),
{
    write_number(out, value as u128, 4)
}

/// Appends `value` as sixteen bytes, most significant first.
pub fn write_u128(out: &mut Vec<u8>, value: u128)
    ensures
        final(out)@ == old(out)@ + be_bytes(value as nat, 16),
{
    write_number(out, value, 16)
}

} // verus!
