//! The rules by which a fieldless enum becomes a field type of a packed
//! struct: it needs a power-of-two number of variants, its width is the
//! base-two logarithm of that number, and a raw value reads back as the first
//! variant whose discriminant equals it.

use vstd::prelude::*;
use vstd::arithmetic::power2::{pow2, lemma_pow2_unfold, lemma_pow2_pos, lemma_pow2_strictly_increases};
use crate::item::{ItemShape, ItemData, parse_derive_input};
use crate::tokens::{TokenTree, tokens_text};

verus! {

/// Why an enum cannot be a field type.
#[derive(Debug, Clone, Copy, PartialEq, Eq, Structural)]
pub enum EnumSpecifierError {
    /// The item is not an enum.
    NotEnum,
    /// The enum's number of variants is not a power of two.
    VariantCountNotPowerOfTwo,
}

impl EnumSpecifierError {
    /// The message reported to the user.
    pub open spec fn message_spec(self) -> Seq<char> {
        match self {
            EnumSpecifierError::NotEnum => "only enum is applicable"@,
            EnumSpecifierError::VariantCountNotPowerOfTwo => "BitfieldSpecifier expected a number of variants which is a power of 2"@,
        }
    }

    /// The message reported to the user.
    pub fn message(&self) -> (s: &'static str)
        ensures
            s@ == self.message_spec(),
    {
        match self {
            EnumSpecifierError::NotEnum => "only enum is applicable",
            EnumSpecifierError::VariantCountNotPowerOfTwo => {
                "BitfieldSpecifier expected a number of variants which is a power of 2"
            },
        }
    }
}

/// `n` is two raised to some natural power.
pub open spec fn is_power_of_two(n: nat) -> bool {
    exists|b: nat| pow2(b) == n
}

/// The width of an enum field with `count` variants: `Ok(b)` with `2^b`
/// equal to `count` when `count` is a power of two, an error otherwise.
pub fn bits_for_variant_count(count: usize) -> (res: Result<usize, EnumSpecifierError>)
    ensures
        res is Ok <==> is_power_of_two(count as nat),
        res matches Ok(b) ==> pow2(b as nat) == count,
        res matches Err(e) ==> e == EnumSpecifierError::VariantCountNotPowerOfTwo,
{
    if count == 0 {
        proof {
            assert forall|b: nat| pow2(b) != 0 by {
                lemma_pow2_pos(b);
            }
        }
        return Err(EnumSpecifierError::VariantCountNotPowerOfTwo);
    }
    let mut p: usize = 1;
    let mut b: usize = 0;
    proof {
        vstd::arithmetic::power2::lemma2_to64();
    }
    while p < count && p <= count / 2
        invariant
            0 < count,
            p as nat == pow2(b as nat),
            p <= count,
            b < usize::BITS,
        decreases count - p,
    {
        proof {
            lemma_pow2_unfold((b + 1) as nat);
            lemma_pow2_pos(b as nat);
            if b + 1 >= usize::BITS {
                vstd::arithmetic::power2::lemma2_to64();
                vstd::arithmetic::power2::lemma2_to64_rest();
                if b + 1 > 64 {
                    lemma_pow2_strictly_increases(64, (b + 1) as nat);
                }
            }
        }
        p = p * 2;
        b = b + 1;
    }
    if p == count {
        proof {
            assert(pow2(b as nat) == count);
        }
        Ok(b)
    } else {
        proof {
            assert(count < 2 * p);
            lemma_pow2_unfold((b + 1) as nat);
            assert forall|k: nat| pow2(k) != count by {
                if k <= b {
                    if k < b {
                        lemma_pow2_strictly_increases(k, b as nat);
                    }
                } else {
                    if k > b + 1 {
                        lemma_pow2_strictly_increases((b + 1) as nat, k);
                    }
                }
            }
        }
        Err(EnumSpecifierError::VariantCountNotPowerOfTwo)
    }
}

/// Law: the width of an enum field is unique; two widths whose powers of
/// two both equal the variant count are equal.
pub proof fn law_width_is_unique(b1: nat, b2: nat, count: nat)
    requires
        pow2(b1) == count,
        pow2(b2) == count,
    ensures
        b1 == b2,
{
    if b1 < b2 {
        lemma_pow2_strictly_increases(b1, b2);
    } else if b2 < b1 {
        lemma_pow2_strictly_increases(b2, b1);
    }
}

/// The first index at which `d` holds `value`, or `None` when it holds it
/// nowhere.
pub open spec fn first_index_of(d: Seq<u64>, value: u64) -> Option<int>
    decreases d.len(),
{
    if d.len() == 0 {
        None
    } else if d[0] == value {
        Some(0)
    } else {
        match first_index_of(d.subrange(1, d.len() as int), value) {
            Some(j) => Some(j + 1),
            None => None,
        }
    }
}

/// `first_index_of` finds the first occurrence, and finds none exactly when
/// there is none.
pub proof fn lemma_first_index_of(d: Seq<u64>, value: u64)
    ensures
        match first_index_of(d, value) {
            Some(i) => 0 <= i < d.len() && d[i] == value && forall|j: int| 0 <= j < i ==> d[j] != value,
            None => forall|j: int| 0 <= j < d.len() ==> d[j] != value,
        },
    decreases d.len(),
{
    if d.len() > 0 && d[0] != value {
        let rest = d.subrange(1, d.len() as int);
        lemma_first_index_of(rest, value);
        assert forall|j: int| 1 <= j < d.len() implies d[j] == rest[j - 1] by {}
        match first_index_of(rest, value) {
            Some(i) => {
                assert forall|j: int| 0 <= j < i + 1 implies d[j] != value by {
                    if j > 0 {
                        assert(d[j] == rest[j - 1]);
                    }
                }
            },
            None => {
                assert forall|j: int| 0 <= j < d.len() implies d[j] != value by {
                    if j > 0 {
                        assert(d[j] == rest[j - 1]);
                    }
                }
            },
        }
    }
}

/// The variant that a raw value reads back as: the first index whose
/// discriminant equals `value`, or `None` when there is none (reading such a
/// value is an error).
pub fn variant_index(discriminants: &[u64], value: u64) -> (res: Option<usize>)
    ensures
        match res {
            Some(i) => first_index_of(discriminants@, value) == Some(i as int),
            None => first_index_of(discriminants@, value) is None,
        },
        res matches Some(i) ==> i < discriminants@.len() && discriminants@[i as int] == value && forall|
            j: int,
        |
            0 <= j < i ==> discriminants@[j] != value,
        res is None ==> forall|j: int| 0 <= j < discriminants@.len() ==> discriminants@[j] != value,
{
    proof {
        lemma_first_index_of(discriminants@, value);
    }
    let mut i: usize = 0;
    while i < discriminants.len()
        invariant
            i <= discriminants@.len(),
            forall|j: int| 0 <= j < i ==> discriminants@[j] != value,
        decreases discriminants@.len() - i,
    {
        if discriminants[i] == value {
            proof {
                lemma_first_index_of(discriminants@, value);
                match first_index_of(discriminants@, value) {
                    Some(k) => {
                        if k > i {
                            assert(discriminants@[i as int] != value);
                        }
                    },
                    None => {
                        assert(discriminants@[i as int] != value);
                    },
                }
            }
            return Some(i);
        }
        i = i + 1;
    }
    None
}

/// No two variants share a discriminant (the compiler refuses an enum in
/// which two do).
pub open spec fn distinct(d: Seq<u64>) -> bool {
    forall|i: int, j: int| 0 <= i < j < d.len() ==> d[i] != d[j]
}

/// Law: when no two variants share a discriminant, the discriminant of the
/// variant at each index reads back as that index, so reading back the raw
/// value of a variant gives the variant.
pub proof fn law_read_back_inverts(d: Seq<u64>, i: int)
    requires
        distinct(d),
        0 <= i < d.len(),
    ensures
        first_index_of(d, d[i]) == Some(i),
{
    lemma_first_index_of(d, d[i]);
    match first_index_of(d, d[i]) {
        Some(k) => {
            if k < i {
                assert(d[k] != d[i]);
            }
        },
        None => {
            assert(d[i] != d[i]);
        },
    }
}

/// Law: an enum with `2^b` variants whose discriminants all lie below `2^b`
/// has exactly the discriminants `0 .. 2^b - 1`; so every raw value of `b`
/// bits reads back as a variant, the one with that discriminant, and no
/// larger value reads back as any.
pub proof fn law_fitting_discriminants_fill_the_range(d: Seq<u64>, b: nat)
    requires
        distinct(d),
        d.len() == pow2(b),
        forall|i: int| 0 <= i < d.len() ==> d[i] < pow2(b),
    ensures
        forall|x: u64| x < pow2(b) <==> d.contains(x),
        forall|x: u64|
            x < pow2(b) ==> (#[trigger] first_index_of(d, x) matches Some(i) && 0 <= i < d.len()
                && d[i] == x),
        forall|x: u64| x >= pow2(b) ==> #[trigger] first_index_of(d, x) is None,
{
    let n = pow2(b) as int;
    let di = d.map_values(|v: u64| v as int);
    assert(di.no_duplicates()) by {
        assert forall|i: int, j: int| 0 <= i < di.len() && 0 <= j < di.len() && i != j implies di[i]
            != di[j] by {
            if i < j {
                assert(d[i] != d[j]);
            } else {
                assert(d[j] != d[i]);
            }
        }
    }
    di.unique_seq_to_set();
    vstd::set_lib::lemma_int_range(0, n);
    let range = vstd::set_lib::set_int_range(0, n);
    assert(di.to_set().subset_of(range)) by {
        assert forall|v: int| di.to_set().contains(v) implies range.contains(v) by {
            let i = choose|i: int| 0 <= i < di.len() && di[i] == v;
            assert(d[i] < pow2(b));
        }
    }
    vstd::set_lib::lemma_len_subset(di.to_set(), range);
    vstd::set_lib::lemma_subset_equality(di.to_set(), range);
    assert forall|x: u64| x < pow2(b) <==> d.contains(x) by {
        if x < pow2(b) {
            assert(range.contains(x as int));
            assert(di.to_set().contains(x as int));
            let i = choose|i: int| 0 <= i < di.len() && di[i] == x as int;
            assert(d[i] == x);
        }
        if d.contains(x) {
            let i = choose|i: int| 0 <= i < d.len() && d[i] == x;
            assert(d[i] < pow2(b));
        }
    }
    assert forall|x: u64| x < pow2(b) implies (#[trigger] first_index_of(d, x) matches Some(i) && 0 <= i
        < d.len() && d[i] == x) by {
        assert(d.contains(x));
        let i = choose|i: int| 0 <= i < d.len() && d[i] == x;
        law_read_back_inverts(d, i);
    }
    assert forall|x: u64| x >= pow2(b) implies #[trigger] first_index_of(d, x) is None by {
        lemma_first_index_of(d, x);
        if let Some(i) = first_index_of(d, x) {
            assert(d[i] < pow2(b));
        }
    }
}

/// What a `BitfieldSpecifier` derive makes of `shape`: an error when it is
/// not an enum; else the width of the field, whose power of two is the
/// number of variants, or an error when that number is not a power of two.
pub open spec fn specifier_plan_spec(shape: &ItemShape, r: Result<usize, EnumSpecifierError>) -> bool {
    match shape.data {
        ItemData::Enum(vs) => match r {
            Ok(b) => pow2(b as nat) == vs@.len(),
            Err(e) => e == EnumSpecifierError::VariantCountNotPowerOfTwo && !is_power_of_two(vs@.len()),
        },
        _ => r == Err::<usize, EnumSpecifierError>(EnumSpecifierError::NotEnum),
    }
}

/// The width of a field whose type is the enum `shape`.
pub fn specifier_plan(shape: &ItemShape) -> (r: Result<usize, EnumSpecifierError>)
    ensures
        specifier_plan_spec(shape, r),
{
    match &shape.data {
        ItemData::Enum(vs) => bits_for_variant_count(vs.len()),
        _ => Err(EnumSpecifierError::NotEnum),
    }
}

/// Reads the item that a `BitfieldSpecifier` derive receives, as `syn`
/// parses the text of the tokens `input`, and gives the parsed item, its
/// shape and [`specifier_plan`] of it; or the message of `syn`'s error.
pub fn derive_specifier(input: &Vec<TokenTree>) -> (r: Result<
    (syn::DeriveInput, ItemShape, Result<usize, EnumSpecifierError>),
    String,
>)
    ensures
        r matches Ok((_, shape, plan)) ==> specifier_plan_spec(&shape, plan),
{
    let text = tokens_text(input);
    match parse_derive_input(&text) {
        Ok((item, shape)) => {
            let plan = specifier_plan(&shape);
            Ok((item, shape, plan))
        },
        Err(message) => Err(message),
    }
}

} // verus!
