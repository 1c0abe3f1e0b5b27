//! Reading and writing a run of bits inside a byte buffer.
//!
//! Bits are numbered from the most significant bit of the first byte: bit
//! `i` lives in byte `i / 8` at position `7 - i % 8`. A field of `width` bits
//! starting at `offset` holds a number written most significant bit first.

use vstd::prelude::*;
use vstd::arithmetic::power2::{pow2, lemma_pow2_unfold, lemma_pow2_pos, lemma2_to64, lemma2_to64_rest, lemma_pow2_strictly_increases};
use vstd::arithmetic::div_mod::{lemma_div_denominator, lemma_fundamental_div_mod_converse};
use vstd::bits::lemma_u64_shr_is_div;

verus! {

/// Bit `i` of `data` (0 or 1).
pub open spec fn bit_at(data: Seq<u8>, i: int) -> u8 {
    (data[i / 8] >> ((7 - i % 8) as u8)) & 1u8
}

/// Bit `k` of `value`, counting from the least significant bit (0 or 1).
pub open spec fn value_bit(value: u64, k: int) -> u8 {
    ((value >> (k as u64)) & 1u64) as u8
}

/// The number whose binary digits, most significant first, are the `width`
/// bits of `data` that start at bit `offset`.
pub open spec fn field_value(data: Seq<u8>, offset: int, width: nat) -> nat
    decreases width,
{
    if width == 0 {
        0
    } else {
        2 * field_value(data, offset, (width - 1) as nat) + bit_at(data, offset + width - 1) as nat
    }
}

/// The field of `width` bits at `offset` lies inside `data`, and its end is
/// addressable.
pub open spec fn field_fits(data: Seq<u8>, offset: int, width: int) -> bool {
    &&& 0 <= offset
    &&& 0 <= width
    &&& offset + width <= 8 * data.len()
    &&& offset + width <= usize::MAX
}

/// The field of `width` bits at `offset` lies inside `data`, is at most 64
/// bits wide, and its end is addressable.
pub open spec fn field_in_bounds(data: Seq<u8>, offset: int, width: int) -> bool {
    &&& field_fits(data, offset, width)
    &&& width <= 64
}

/// `after` is `before` with the field of `width` bits at `offset` holding
/// the low `width` bits of `value`, most significant first, and every other
/// bit unchanged.
pub open spec fn written(before: Seq<u8>, after: Seq<u8>, offset: int, width: int, value: u64) -> bool {
    &&& after.len() == before.len()
    &&& forall|i: int|
        0 <= i < 8 * before.len() ==> #[trigger] bit_at(after, i) == if offset <= i < offset + width {
            value_bit(value, offset + width - 1 - i)
        } else {
            bit_at(before, i)
        }
}

proof fn lemma_shift_in_bit(acc: u64, e: u8)
    requires
        e <= 1,
    ensures
        ((acc << 1u64) | (e as u64)) as int == (2 * acc + e) % 0x1_0000_0000_0000_0000,
{
    assert(((acc << 1u64) | (e as u64)) as int == (2 * acc + e) % 0x1_0000_0000_0000_0000) by (bit_vector)
        requires
            e <= 1,
    ;
}

proof fn lemma_double_mod(x: nat, e: nat, m: nat)
    requires
        m > 0,
    ensures
        (2 * x + e) % m == (2 * (x % m) + e) % m,
{
    let q = x / m;
    let r = x % m;
    assert(x == m * q + r) by (nonlinear_arith)
        requires
            m > 0,
            q == x / m,
            r == x % m,
    ;
    assert(2 * x + e == m * (2 * q) + (2 * r + e)) by (nonlinear_arith)
        requires
            x == m * q + r,
    ;
    vstd::arithmetic::div_mod::lemma_mod_multiples_vanish((2 * q) as int, (2 * r + e) as int, m as int);
}

/// A field of `width` bits holds a number below `2^width`.
pub proof fn lemma_field_value_bound(data: Seq<u8>, offset: int, width: nat)
    ensures
        field_value(data, offset, width) < pow2(width),
    decreases width,
{
    lemma2_to64();
    if width > 0 {
        lemma_field_value_bound(data, offset, (width - 1) as nat);
        lemma_pow2_unfold(width);
        let x = data[(offset + width - 1) / 8];
        let p = ((7 - (offset + width - 1) % 8) as u8);
        assert((x >> p) & 1u8 <= 1) by (bit_vector);
    }
}

proof fn lemma_byte_bit_is_bit(b: u8, p: u8)
    requires
        p < 8,
    ensures
        (b >> p) & 1u8 <= 1,
{
    assert((b >> p) & 1u8 <= 1) by (bit_vector);
}

/// Reads the field of `width` bits at `offset`, most significant bit first.
/// A field wider than 64 bits keeps the low 64 bits of its number.
pub fn get_bits(data: &[u8], offset: usize, width: usize) -> (value: u64)
    requires
        field_fits(data@, offset as int, width as int),
    ensures
        value as nat == field_value(data@, offset as int, width as nat) % pow2(64),
        width <= 64 ==> value as nat == field_value(data@, offset as int, width as nat),
        width <= 64 ==> (value as nat) < pow2(width as nat),
{
    let mut acc: u64 = 0;
    let mut j: usize = 0;
    proof {
        lemma2_to64();
        lemma2_to64_rest();
    }
    while j < width
        invariant
            field_fits(data@, offset as int, width as int),
            j <= width,
            acc as nat == field_value(data@, offset as int, j as nat) % pow2(64),
            pow2(64) == 0x1_0000_0000_0000_0000,
        decreases width - j,
    {
        let i = offset + j;
        let byte_idx = i / 8;
        let bit_pos = (7 - i % 8) as u8;
        let e = (data[byte_idx] >> bit_pos) & 1;
        proof {
            lemma_byte_bit_is_bit(data@[byte_idx as int], bit_pos);
            lemma_shift_in_bit(acc, e);
            lemma_double_mod(field_value(data@, offset as int, j as nat), e as nat, pow2(64));
            assert(bit_at(data@, offset + j) == e);
        }
        acc = (acc << 1) | (e as u64);
        j = j + 1;
    }
    proof {
        lemma_field_value_bound(data@, offset as int, width as nat);
        if width <= 64 {
            if width < 64 {
                lemma_pow2_strictly_increases(width as nat, 64);
            }
            vstd::arithmetic::div_mod::lemma_small_mod(
                field_value(data@, offset as int, width as nat),
                pow2(64),
            );
        }
    }
    acc
}

proof fn lemma_set_bit_in_byte(b: u8, p: u8, q: u8, v: u8)
    requires
        p < 8,
        q < 8,
        v <= 1,
    ensures
        (((b & !(1u8 << p)) | (v << p)) >> q) & 1u8 == if q == p { v } else { (b >> q) & 1u8 },
{
    assert((((b & !(1u8 << p)) | (v << p)) >> q) & 1u8 == if q == p { v } else { (b >> q) & 1u8 })
        by (bit_vector)
        requires
            p < 8,
            q < 8,
            v <= 1,
    ;
}

proof fn lemma_value_bit_is_bit(value: u64, k: u64)
    requires
        k < 64,
    ensures
        ((value >> k) & 1u64) <= 1,
{
    assert(((value >> k) & 1u64) <= 1) by (bit_vector);
}

/// Writes the low `width` bits of `value` into the field of `width` bits at
/// `offset`, most significant bit first, leaving every other bit as it was.
pub fn set_bits(data: &mut [u8], offset: usize, width: usize, value: u64)
    requires
        field_in_bounds(old(data)@, offset as int, width as int),
    ensures
        written(old(data)@, final(data)@, offset as int, width as int, value),
        field_value(final(data)@, offset as int, width as nat) == value as nat % pow2(width as nat),
{
    let ghost before = data@;
    let mut j: usize = 0;
    while j < width
        invariant
            field_in_bounds(before, offset as int, width as int),
            j <= width,
            data@.len() == before.len(),
            forall|i: int|
                0 <= i < 8 * before.len() ==> #[trigger] bit_at(data@, i) == if offset <= i < offset + j {
                    value_bit(value, offset + width - 1 - i)
                } else {
                    bit_at(before, i)
                },
        decreases width - j,
    {
        let i = offset + j;
        let byte_idx = i / 8;
        let bit_pos = (7 - i % 8) as u8;
        let shift = (width - 1 - j) as u64;
        proof {
            lemma_value_bit_is_bit(value, shift);
        }
        let v = ((value >> shift) & 1) as u8;
        let ghost mid = data@;
        let old_byte = data[byte_idx];
        data[byte_idx] = (old_byte & !(1u8 << bit_pos)) | (v << bit_pos);
        proof {
            assert forall|p: int| 0 <= p < 8 * before.len() implies #[trigger] bit_at(data@, p) == if offset
                <= p < offset + j + 1 {
                value_bit(value, offset + width - 1 - p)
            } else {
                bit_at(before, p)
            } by {
                assert(bit_at(mid, p) == if offset <= p < offset + j {
                    value_bit(value, offset + width - 1 - p)
                } else {
                    bit_at(before, p)
                });
                if p / 8 == byte_idx as int {
                    lemma_set_bit_in_byte(old_byte, bit_pos, (7 - p % 8) as u8, v);
                } else {
                    assert(data@[p / 8] == mid[p / 8]);
                }
            }
        }
        j = j + 1;
    }
    proof {
        lemma_written_field_value(before, data@, offset as int, width as int, value);
    }
}

proof fn lemma_mod_split(x: nat, k: nat)
    requires
        k >= 1,
    ensures
        x % pow2(k) == 2 * ((x / 2) % pow2((k - 1) as nat)) + x % 2,
{
    lemma_pow2_unfold(k);
    lemma_pow2_pos((k - 1) as nat);
    let m = pow2((k - 1) as nat);
    let q = x / 2;
    let r = x % 2;
    let a = q / m;
    let b = q % m;
    assert(x == 2 * q + r);
    assert(q == m * a + b) by (nonlinear_arith)
        requires
            m > 0,
            a == q / m,
            b == q % m,
    ;
    assert(x == (2 * m) * a + (2 * b + r)) by (nonlinear_arith)
        requires
            x == 2 * q + r,
            q == m * a + b,
    ;
    assert(0 <= 2 * b + r < 2 * m);
    lemma_fundamental_div_mod_converse(
        x as int,
        (2 * m) as int,
        a as int,
        (2 * b + r) as int,
    );
}

/// If every bit of a field holds the matching bit of `value`, the field reads
/// back as `value` reduced to the field's width.
proof fn lemma_written_field_value(before: Seq<u8>, after: Seq<u8>, offset: int, width: int, value: u64)
    requires
        field_in_bounds(before, offset, width),
        written(before, after, offset, width, value),
    ensures
        field_value(after, offset, width as nat) == value as nat % pow2(width as nat),
{
    lemma_field_prefix_value(before, after, offset, width, value, width as nat);
    assert(pow2(0) == 1) by {
        lemma2_to64();
    }
    assert(value as nat / 1 == value as nat);
}

proof fn lemma_field_prefix_value(
    before: Seq<u8>,
    after: Seq<u8>,
    offset: int,
    width: int,
    value: u64,
    k: nat,
)
    requires
        field_in_bounds(before, offset, width),
        written(before, after, offset, width, value),
        k <= width,
    ensures
        field_value(after, offset, k) == (value as nat / pow2((width - k) as nat)) % pow2(k),
    decreases k,
{
    lemma2_to64();
    if k == 0 {
        lemma_pow2_pos((width - k) as nat);
    } else {
        lemma_field_prefix_value(before, after, offset, width, value, (k - 1) as nat);
        let s = (width - k) as nat;
        lemma_pow2_pos(s);
        lemma_pow2_unfold(s + 1);
        let x = value as nat / pow2(s);
        assert(bit_at(after, offset + k - 1) == value_bit(value, offset + width - 1 - (offset + k - 1)));
        assert(value_bit(value, s as int) as nat == x % 2) by {
            lemma_u64_shr_is_div(value, s as u64);
            let sh = value >> (s as u64);
            assert((sh & 1u64) == sh % 2) by (bit_vector);
        }
        assert(value as nat / pow2(s + 1) == x / 2) by {
            lemma_div_denominator(value as int, pow2(s) as int, 2);
            assert(pow2(s) * 2 == pow2(s + 1));
        }
        lemma_mod_split(x, k);
    }
}

proof fn lemma_byte_from_bits(x: u8, y: u8)
    requires
        (x >> 0u8) & 1u8 == (y >> 0u8) & 1u8,
        (x >> 1u8) & 1u8 == (y >> 1u8) & 1u8,
        (x >> 2u8) & 1u8 == (y >> 2u8) & 1u8,
        (x >> 3u8) & 1u8 == (y >> 3u8) & 1u8,
        (x >> 4u8) & 1u8 == (y >> 4u8) & 1u8,
        (x >> 5u8) & 1u8 == (y >> 5u8) & 1u8,
        (x >> 6u8) & 1u8 == (y >> 6u8) & 1u8,
        (x >> 7u8) & 1u8 == (y >> 7u8) & 1u8,
    ensures
        x == y,
{
    assert(x == y) by (bit_vector)
        requires
            (x >> 0u8) & 1u8 == (y >> 0u8) & 1u8,
            (x >> 1u8) & 1u8 == (y >> 1u8) & 1u8,
            (x >> 2u8) & 1u8 == (y >> 2u8) & 1u8,
            (x >> 3u8) & 1u8 == (y >> 3u8) & 1u8,
            (x >> 4u8) & 1u8 == (y >> 4u8) & 1u8,
            (x >> 5u8) & 1u8 == (y >> 5u8) & 1u8,
            (x >> 6u8) & 1u8 == (y >> 6u8) & 1u8,
            (x >> 7u8) & 1u8 == (y >> 7u8) & 1u8,
    ;
}

proof fn lemma_bit_at_in_byte(a: Seq<u8>, b: Seq<u8>, k: int, r: int)
    requires
        0 <= r < 8,
        bit_at(a, 8 * k + r) == bit_at(b, 8 * k + r),
    ensures
        (a[k] >> ((7 - r) as u8)) & 1u8 == (b[k] >> ((7 - r) as u8)) & 1u8,
{
    assert((8 * k + r) / 8 == k);
    assert((8 * k + r) % 8 == r);
}

/// Byte `k` of two buffers agrees when all eight of its bits agree.
proof fn lemma_byte_eq_from_bits(a: Seq<u8>, b: Seq<u8>, k: int)
    requires
        0 <= k < a.len(),
        a.len() == b.len(),
        forall|i: int| 8 * k <= i < 8 * k + 8 ==> #[trigger] bit_at(a, i) == bit_at(b, i),
    ensures
        a[k] == b[k],
{
    lemma_bit_at_in_byte(a, b, k, 0);
    lemma_bit_at_in_byte(a, b, k, 1);
    lemma_bit_at_in_byte(a, b, k, 2);
    lemma_bit_at_in_byte(a, b, k, 3);
    lemma_bit_at_in_byte(a, b, k, 4);
    lemma_bit_at_in_byte(a, b, k, 5);
    lemma_bit_at_in_byte(a, b, k, 6);
    lemma_bit_at_in_byte(a, b, k, 7);
    lemma_byte_from_bits(a[k], b[k]);
}

/// Two buffers of one length whose bits all agree are equal.
proof fn lemma_eq_from_bits(a: Seq<u8>, b: Seq<u8>)
    requires
        a.len() == b.len(),
        forall|i: int| 0 <= i < 8 * a.len() ==> #[trigger] bit_at(a, i) == bit_at(b, i),
    ensures
        a == b,
{
    assert forall|k: int| 0 <= k < a.len() implies a[k] == b[k] by {
        assert forall|i: int| 8 * k <= i < 8 * k + 8 implies #[trigger] bit_at(a, i) == bit_at(b, i) by {}
        lemma_byte_eq_from_bits(a, b, k);
    }
    assert(a =~= b);
}

/// Bit `t` of a natural number.
spec fn nat_bit(x: nat, t: nat) -> nat {
    (x / pow2(t)) % 2
}

proof fn lemma_value_bit_is_nat_bit(v: u64, t: nat)
    requires
        t < 64,
    ensures
        value_bit(v, t as int) as nat == nat_bit(v as nat, t),
{
    lemma_u64_shr_is_div(v, t as u64);
    let sh = v >> (t as u64);
    assert((sh & 1u64) == sh % 2) by (bit_vector);
}

proof fn lemma_nat_bit_of_shifted(f: nat, b: nat, t: nat)
    requires
        b <= 1,
    ensures
        nat_bit(2 * f + b, t) == if t == 0 { b } else { nat_bit(f, (t - 1) as nat) },
{
    lemma2_to64();
    if t == 0 {
        assert((2 * f + b) / 1 == 2 * f + b);
    } else {
        lemma_pow2_unfold(t);
        lemma_pow2_pos((t - 1) as nat);
        lemma_div_denominator((2 * f + b) as int, 2, pow2((t - 1) as nat) as int);
        assert((2 * f + b) / 2 == f);
        assert(2 * pow2((t - 1) as nat) == pow2(t));
    }
}

/// The binary digits of a field's value are the field's bits.
proof fn lemma_field_value_bits(data: Seq<u8>, offset: int, width: nat, t: nat)
    requires
        t < width,
    ensures
        nat_bit(field_value(data, offset, width), t) == bit_at(data, offset + width - 1 - t) as nat,
    decreases width,
{
    let f = field_value(data, offset, (width - 1) as nat);
    let b = bit_at(data, offset + width - 1);
    assert(b <= 1) by {
        let x = data[(offset + width - 1) / 8];
        let p = ((7 - (offset + width - 1) % 8) as u8);
        assert((x >> p) & 1u8 <= 1) by (bit_vector);
    }
    lemma_nat_bit_of_shifted(f, b as nat, t);
    if t > 0 {
        lemma_field_value_bits(data, offset, (width - 1) as nat, (t - 1) as nat);
    }
}

/// Law: a field read after a write gives back the written value reduced to
/// the field's width.
pub proof fn law_read_after_write(before: Seq<u8>, after: Seq<u8>, offset: int, width: int, value: u64)
    requires
        field_in_bounds(before, offset, width),
        written(before, after, offset, width, value),
    ensures
        field_value(after, offset, width as nat) == value as nat % pow2(width as nat),
{
    lemma_written_field_value(before, after, offset, width, value);
}

/// Law: a write decides the whole buffer; two writes of one value into one
/// field of one buffer give equal buffers.
pub proof fn law_write_is_deterministic(
    before: Seq<u8>,
    after1: Seq<u8>,
    after2: Seq<u8>,
    offset: int,
    width: int,
    value: u64,
)
    requires
        written(before, after1, offset, width, value),
        written(before, after2, offset, width, value),
    ensures
        after1 == after2,
{
    assert forall|i: int| 0 <= i < 8 * after1.len() implies #[trigger] bit_at(after1, i) == bit_at(
        after2,
        i,
    ) by {
        assert(bit_at(after1, i) == bit_at(after2, i));
    }
    lemma_eq_from_bits(after1, after2);
}

/// Law: a write leaves alone every byte that holds no bit of the field.
pub proof fn law_write_keeps_other_bytes(
    before: Seq<u8>,
    after: Seq<u8>,
    offset: int,
    width: int,
    value: u64,
    k: int,
)
    requires
        written(before, after, offset, width, value),
        0 <= k < before.len(),
        8 * k + 8 <= offset || offset + width <= 8 * k,
    ensures
        after[k] == before[k],
{
    assert forall|i: int| 8 * k <= i < 8 * k + 8 implies #[trigger] bit_at(after, i) == bit_at(before, i) by {
        assert(bit_at(after, i) == bit_at(before, i));
    }
    lemma_byte_eq_from_bits(after, before, k);
}

/// Law: writing back the value just read from a field changes nothing.
pub proof fn law_write_back_read_value(before: Seq<u8>, after: Seq<u8>, offset: int, width: int)
    requires
        field_in_bounds(before, offset, width),
        field_value(before, offset, width as nat) < pow2(64),
        written(before, after, offset, width, field_value(before, offset, width as nat) as u64),
    ensures
        after == before,
{
    let v = field_value(before, offset, width as nat);
    assert forall|i: int| 0 <= i < 8 * after.len() implies #[trigger] bit_at(after, i) == bit_at(before, i) by {
        if offset <= i < offset + width {
            let t = (offset + width - 1 - i) as nat;
            lemma_value_bit_is_nat_bit(v as u64, t);
            lemma_field_value_bits(before, offset, width as nat, t);
            lemma2_to64_rest();
            assert((v as u64) as nat == v);
            assert(offset + width - 1 - t == i);
            assert(bit_at(after, i) == value_bit(v as u64, t as int));
            assert(bit_at(after, i) as nat == bit_at(before, i) as nat);
        }
    }
    lemma_eq_from_bits(after, before);
}

/// Law: of two writes to one field, the later one wins.
pub proof fn law_last_write_wins(
    before: Seq<u8>,
    middle: Seq<u8>,
    after: Seq<u8>,
    offset: int,
    width: int,
    first: u64,
    second: u64,
)
    requires
        written(before, middle, offset, width, first),
        written(middle, after, offset, width, second),
    ensures
        written(before, after, offset, width, second),
{
    assert forall|i: int| 0 <= i < 8 * before.len() implies #[trigger] bit_at(after, i) == if offset <= i
        < offset + width {
        value_bit(second, offset + width - 1 - i)
    } else {
        bit_at(before, i)
    } by {
        assert(bit_at(middle, i) == bit_at(middle, i));
    }
}

/// Law: writes to two fields that share no bit can be done in either order.
pub proof fn law_disjoint_writes_commute(
    before: Seq<u8>,
    mid1: Seq<u8>,
    after1: Seq<u8>,
    mid2: Seq<u8>,
    after2: Seq<u8>,
    offset1: int,
    width1: int,
    value1: u64,
    offset2: int,
    width2: int,
    value2: u64,
)
    requires
        offset1 + width1 <= offset2 || offset2 + width2 <= offset1,
        written(before, mid1, offset1, width1, value1),
        written(mid1, after1, offset2, width2, value2),
        written(before, mid2, offset2, width2, value2),
        written(mid2, after2, offset1, width1, value1),
    ensures
        after1 == after2,
{
    assert forall|i: int| 0 <= i < 8 * after1.len() implies #[trigger] bit_at(after1, i) == bit_at(
        after2,
        i,
    ) by {
        assert(bit_at(mid1, i) == bit_at(mid1, i));
        assert(bit_at(mid2, i) == bit_at(mid2, i));
    }
    lemma_eq_from_bits(after1, after2);
}

} // verus!
