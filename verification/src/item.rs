//! The item a derive or attribute macro receives, read by `syn` from the
//! text of its tokens and brought back as plain values: its name, and the
//! fields of a struct or the variants of an enum.
//!
//! The functions here that touch `syn` and `proc_macro2` values only convert
//! them, one value for one; what `syn` makes of a text depends on the lexer
//! that runs, so nothing is promised of it.

use vstd::prelude::*;
use quote::ToTokens;
use crate::tokens::{Delimiter, Spacing, TokenTree};
use crate::attrs::{AttrMeta, Attribute, GenericArgShape, PathArgsShape, SegmentShape, TypeShape};
use crate::builder::Field;

verus! {

/// The fields of a struct: whether they are named, and each field.
pub struct FieldsShape {
    pub named: bool,
    pub fields: Vec<Field>,
}

/// What an item holds: the fields of a struct, the variant names of an
/// enum, or a union.
pub enum ItemData {
    Struct(FieldsShape),
    Enum(Vec<String>),
    Union,
}

/// An item: its name and what it holds.
pub struct ItemShape {
    pub ident: String,
    pub data: ItemData,
}

/// The fields of `shape` when it is a struct.
pub open spec fn struct_fields(shape: &ItemShape) -> Option<Seq<Field>> {
    match shape.data {
        ItemData::Struct(fs) => Some(fs.fields@),
        _ => None,
    }
}

/// Converts a `proc_macro2::Group` into the library's group: its delimiter,
/// variant by variant, and its trees.
#[verifier::external_body]
fn group_of(g: proc_macro2::Group) -> (r: TokenTree) {
    let d = match g.delimiter() {
        proc_macro2::Delimiter::Parenthesis => Delimiter::Parenthesis,
        proc_macro2::Delimiter::Brace => Delimiter::Brace,
        proc_macro2::Delimiter::Bracket => Delimiter::Bracket,
        proc_macro2::Delimiter::None => Delimiter::Invisible,
    };
    TokenTree::Group(d, trees_of(g.stream()))
}

/// Converts a `proc_macro2::Punct` into the library's: its character and
/// its spacing, variant by variant.
#[verifier::external_body]
fn punct_of(p: proc_macro2::Punct) -> (r: TokenTree) {
    let spacing = match p.spacing() {
        proc_macro2::Spacing::Joint => Spacing::Joint,
        proc_macro2::Spacing::Alone => Spacing::Alone,
    };
    TokenTree::Punct(p.as_char(), spacing)
}

/// Converts a `proc_macro2::TokenStream` into the library's token trees, one
/// tree for each; an identifier's and a literal's text as `to_string` gives
/// it.
#[verifier::external_body]
fn trees_of(s: proc_macro2::TokenStream) -> (r: Vec<TokenTree>) {
    let mut out = Vec::new();
    for t in s {
        out.push(match t {
            proc_macro2::TokenTree::Group(g) => group_of(g),
            proc_macro2::TokenTree::Ident(i) => TokenTree::Ident(i.to_string()),
            proc_macro2::TokenTree::Punct(p) => punct_of(p),
            proc_macro2::TokenTree::Literal(l) => TokenTree::Literal(l.to_string()),
        });
    }
    out
}

/// Converts a `syn::Meta` into what follows an attribute's path: nothing,
/// its list's tokens, or its value's tokens.
#[verifier::external_body]
fn meta_of(m: &syn::Meta) -> (r: AttrMeta) {
    match m {
        syn::Meta::Path(_) => AttrMeta::Path,
        syn::Meta::List(l) => AttrMeta::List(trees_of(l.tokens.clone())),
        syn::Meta::NameValue(nv) => AttrMeta::NameValue(trees_of(nv.value.to_token_stream())),
    }
}

/// Converts a `syn::PathSegment` into its identifier and the shape of its
/// arguments.
#[verifier::external_body]
fn segment_of(seg: &syn::PathSegment) -> (r: SegmentShape) {
    let args = match &seg.arguments {
        syn::PathArguments::None => PathArgsShape::Bare,
        syn::PathArguments::AngleBracketed(a) => PathArgsShape::AngleBracketed(match a.args.first() {
            Some(syn::GenericArgument::Type(_)) => Some(GenericArgShape::Type),
            Some(_) => Some(GenericArgShape::Other),
            None => None,
        }),
        syn::PathArguments::Parenthesized(_) => PathArgsShape::Parenthesized,
    };
    SegmentShape { ident: seg.ident.to_string(), args }
}

/// Converts a `syn::Type` into its shape: for a path type, its last segment.
#[verifier::external_body]
fn type_shape_of(t: &syn::Type) -> (r: TypeShape) {
    match t {
        syn::Type::Path(tp) => TypeShape::Path(tp.path.segments.last().map(segment_of)),
        _ => TypeShape::Other,
    }
}

/// Converts `syn::Fields` into whether they are named and each field: its
/// identifier, type shape and attributes (each with the identifier of its
/// path, as `syn::Path::get_ident` gives it).
#[verifier::external_body]
fn fields_of(fs: &syn::Fields) -> (r: FieldsShape) {
    let mut fields = Vec::new();
    for f in fs {
        let mut attrs = Vec::new();
        for a in &f.attrs {
            attrs.push(Attribute { path_ident: a.path().get_ident().map(|i| i.to_string()), meta: meta_of(&a.meta) });
        }
        fields.push(Field { ident: f.ident.as_ref().map(|i| i.to_string()), ty: type_shape_of(&f.ty), attrs });
    }
    FieldsShape { named: matches!(fs, syn::Fields::Named(_)), fields }
}

/// Calls `syn::parse_str::<syn::DeriveInput>` on `text`, and hands back the
/// parsed item with its shape, or the message of `syn`'s error. Nothing is
/// promised of what `syn` makes of the text.
#[verifier::external_body]
pub(crate) fn parse_derive_input(text: &String) -> (r: Result<(syn::DeriveInput, ItemShape), String>) {
    match syn::parse_str::<syn::DeriveInput>(text.as_str()) {
        Ok(d) => {
            let data = match &d.data {
                syn::Data::Struct(s) => ItemData::Struct(fields_of(&s.fields)),
                syn::Data::Enum(e) => ItemData::Enum(e.variants.iter().map(|v| v.ident.to_string()).collect()),
                syn::Data::Union(_) => ItemData::Union,
            };
            let shape = ItemShape { ident: d.ident.to_string(), data };
            Ok((d, shape))
        },
        Err(e) => Err(e.to_string()),
    }
}

/// Calls `syn::parse_str::<syn::ItemStruct>` on `text`, and hands back the
/// parsed struct with its shape, or the message of `syn`'s error. The shape
/// of a parsed struct is a struct; nothing else is promised of what `syn`
/// makes of the text.
#[verifier::external_body]
pub(crate) fn parse_item_struct(text: &String) -> (r: Result<(syn::ItemStruct, ItemShape), String>)
    ensures
        r matches Ok((_, shape)) ==> shape.data is Struct,
{
    match syn::parse_str::<syn::ItemStruct>(text.as_str()) {
        Ok(s) => {
            let shape = ItemShape { ident: s.ident.to_string(), data: ItemData::Struct(fields_of(&s.fields)) };
            Ok((s, shape))
        },
        Err(e) => Err(e.to_string()),
    }
}

} // verus!
