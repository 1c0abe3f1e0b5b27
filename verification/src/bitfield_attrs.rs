//! The attribute `#[bits = N]` on a field of a packed struct, which states
//! the width that the field's type must have.

use vstd::prelude::*;
use crate::attrs::{AttrMeta, Attribute, AttributeView};
use crate::syntax::spells;
use crate::tokens::{TokenTree, tokens_text};
use crate::item::{ItemShape, ItemData, struct_fields, parse_item_struct};

verus! {

/// `a` is `#[bits = ...]`.
pub open spec fn is_bits_attr(a: AttributeView) -> bool {
    a.path_ident == Some("bits"@) && a.meta is NameValue
}

/// `r` is the position of the first `#[bits = ...]` among `attrs`, or
/// `None` when there is none.
pub open spec fn bits_attr_at(attrs: Seq<Attribute>, r: Option<usize>) -> bool {
    match r {
        Some(i) => i < attrs.len() && is_bits_attr(attrs[i as int]@) && forall|j: int|
            0 <= j < i ==> !is_bits_attr(#[trigger] attrs[j]@),
        None => forall|j: int| 0 <= j < attrs.len() ==> !is_bits_attr(#[trigger] attrs[j]@),
    }
}

/// The position of the first `#[bits = ...]` among `attrs`, if any; that
/// attribute's value is the width the field's type must have.
pub fn find_bits_attr(attrs: &Vec<Attribute>) -> (r: Option<usize>)
    ensures
        bits_attr_at(attrs@, r),
{
    let mut i: usize = 0;
    while i < attrs.len()
        invariant
            i <= attrs@.len(),
            forall|j: int| 0 <= j < i ==> !is_bits_attr(#[trigger] attrs@[j]@),
        decreases attrs@.len() - i,
    {
        let a = &attrs[i];
        let named_bits = match &a.path_ident {
            Some(p) => spells(p, "bits"),
            None => false,
        };
        let name_value = match &a.meta {
            AttrMeta::NameValue(_) => true,
            _ => false,
        };
        if named_bits && name_value {
            return Some(i);
        }
        i = i + 1;
    }
    None
}

/// What the `bitfield` attribute makes of the struct `shape`: for each field
/// in order, the position of its `#[bits = ...]` attribute, if any.
pub open spec fn bitfield_plan_spec(shape: &ItemShape, r: Vec<Option<usize>>) -> bool {
    match struct_fields(shape) {
        Some(fs) => r@.len() == fs.len() && forall|j: int|
            0 <= j < fs.len() ==> bits_attr_at(fs[j].attrs@, #[trigger] r@[j]),
        None => r@.len() == 0,
    }
}

/// The position of the `#[bits = ...]` attribute of each field of `shape`.
pub fn bitfield_plan(shape: &ItemShape) -> (r: Vec<Option<usize>>)
    ensures
        bitfield_plan_spec(shape, r),
{
    let mut plan: Vec<Option<usize>> = Vec::new();
    let fs = match &shape.data {
        ItemData::Struct(fs) => fs,
        _ => {
            return plan;
        },
    };
    let ghost f = fs.fields@;
    let mut i: usize = 0;
    while i < fs.fields.len()
        invariant
            f == fs.fields@,
            struct_fields(shape) == Some(f),
            i <= f.len(),
            plan@.len() == i,
            forall|j: int| 0 <= j < i ==> bits_attr_at(f[j].attrs@, #[trigger] plan@[j]),
        decreases f.len() - i,
    {
        plan.push(find_bits_attr(&fs.fields[i].attrs));
        i = i + 1;
    }
    proof {
        assert(struct_fields(shape)->0 == f);
    }
    plan
}

/// Reads the struct that the `bitfield` attribute is put on, as `syn`
/// parses the text of the tokens `input`, and gives the parsed struct, its
/// shape and [`bitfield_plan`] of it; or the message of `syn`'s error.
pub fn bitfield(input: &Vec<TokenTree>) -> (r: Result<(syn::ItemStruct, ItemShape, Vec<Option<usize>>), String>)
    ensures
        r matches Ok((_, shape, plan)) ==> shape.data is Struct && bitfield_plan_spec(&shape, plan),
{
    let text = tokens_text(input);
    match parse_item_struct(&text) {
        Ok((item, shape)) => {
            let plan = bitfield_plan(&shape);
            Ok((item, shape, plan))
        },
        Err(message) => Err(message),
    }
}

} // verus!
