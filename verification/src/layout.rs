//! The layout of a packed struct: its fields follow one another in
//! declaration order, each starting where the previous one ends, and the
//! struct occupies the total width divided by eight bytes.

use vstd::prelude::*;
use crate::bits::{bit_at, field_value, written};

verus! {

/// The bit at which field `i` starts: the sum of the widths before it.
pub open spec fn field_offset(widths: Seq<nat>, i: int) -> nat
    decreases i,
{
    if i <= 0 || widths.len() == 0 {
        0
    } else if i > widths.len() {
        field_offset(widths, widths.len() as int)
    } else {
        field_offset(widths, i - 1) + widths[i - 1]
    }
}

/// The sum of all widths.
pub open spec fn total_width(widths: Seq<nat>) -> nat {
    field_offset(widths, widths.len() as int)
}

proof fn lemma_offset_monotonic(widths: Seq<nat>, i: int, j: int)
    requires
        0 <= i <= j <= widths.len(),
    ensures
        field_offset(widths, i) <= field_offset(widths, j),
    decreases j - i,
{
    if i < j {
        lemma_offset_monotonic(widths, i, j - 1);
    }
}

/// Law: in the layout, each field ends at or before the next one starts,
/// so fields never share a bit.
pub proof fn law_fields_are_disjoint(widths: Seq<nat>, i: int, j: int)
    requires
        0 <= i < j < widths.len(),
    ensures
        field_offset(widths, i) + widths[i] <= field_offset(widths, j),
{
    lemma_offset_monotonic(widths, i + 1, j);
}

/// Law: every field lies within the struct's bytes, when the total width is
/// a whole number of bytes.
pub proof fn law_fields_fit(widths: Seq<nat>, i: int)
    requires
        0 <= i < widths.len(),
        total_width(widths) % 8 == 0,
    ensures
        field_offset(widths, i) + widths[i] <= 8 * (total_width(widths) / 8),
{
    lemma_offset_monotonic(widths, i + 1, widths.len() as int);
}

/// Law: writing one field leaves the value of every field that shares no
/// bit with it unchanged.
pub proof fn law_write_keeps_other_fields(
    before: Seq<u8>,
    after: Seq<u8>,
    offset: int,
    width: int,
    value: u64,
    other_offset: int,
    other_width: nat,
)
    requires
        written(before, after, offset, width, value),
        0 <= other_offset,
        other_offset + other_width <= 8 * before.len(),
        offset + width <= other_offset || other_offset + other_width <= offset,
    ensures
        field_value(after, other_offset, other_width) == field_value(before, other_offset, other_width),
    decreases other_width,
{
    if other_width > 0 {
        law_write_keeps_other_fields(
            before,
            after,
            offset,
            width,
            value,
            other_offset,
            (other_width - 1) as nat,
        );
        let i = other_offset + other_width - 1;
        assert(bit_at(after, i) == bit_at(before, i));
    }
}

/// Law: in a packed struct, writing field `i` leaves the value of every
/// other field `j` unchanged.
pub proof fn law_set_field_keeps_other_fields(
    widths: Seq<nat>,
    before: Seq<u8>,
    after: Seq<u8>,
    i: int,
    j: int,
    value: u64,
)
    requires
        0 <= i < widths.len(),
        0 <= j < widths.len(),
        i != j,
        total_width(widths) % 8 == 0,
        before.len() == total_width(widths) / 8,
        written(before, after, field_offset(widths, i) as int, widths[i] as int, value),
    ensures
        field_value(after, field_offset(widths, j) as int, widths[j]) == field_value(
            before,
            field_offset(widths, j) as int,
            widths[j],
        ),
{
    law_fields_fit(widths, j);
    if i < j {
        law_fields_are_disjoint(widths, i, j);
    } else {
        law_fields_are_disjoint(widths, j, i);
    }
    law_write_keeps_other_fields(
        before,
        after,
        field_offset(widths, i) as int,
        widths[i] as int,
        value,
        field_offset(widths, j) as int,
        widths[j],
    );
}

} // verus!
