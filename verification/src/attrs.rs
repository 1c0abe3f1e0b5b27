//! Attributes and field types as plain values.

use vstd::prelude::*;
use crate::tokens::{Tok, TokenTree, trees_view};

verus! {

/// What follows an attribute's path: nothing, a delimited list, or `=` and
/// a value.
#[derive(Debug, PartialEq, Eq)]
pub enum AttrMeta {
    Path,
    List(Vec<TokenTree>),
    NameValue(Vec<TokenTree>),
}

/// An attribute `#[path ...]`. `path_ident` is the path's identifier when
/// the path is a single identifier without a leading `::`.
#[derive(Debug, PartialEq, Eq)]
pub struct Attribute {
    pub path_ident: Option<String>,
    pub meta: AttrMeta,
}

/// The model of what follows an attribute's path.
pub enum AttrMetaView {
    Path,
    List(Seq<Tok>),
    NameValue(Seq<Tok>),
}

/// The model of an attribute.
pub struct AttributeView {
    pub path_ident: Option<Seq<char>>,
    pub meta: AttrMetaView,
}

impl View for Attribute {
    type V = AttributeView;

    open spec fn view(&self) -> AttributeView {
        AttributeView {
            path_ident: match self.path_ident {
                Some(s) => Some(s@),
                None => None,
            },
            meta: match self.meta {
                AttrMeta::Path => AttrMetaView::Path,
                AttrMeta::List(ts) => AttrMetaView::List(trees_view(ts@)),
                AttrMeta::NameValue(ts) => AttrMetaView::NameValue(trees_view(ts@)),
            },
        }
    }
}

/// The models of a list of attributes.
pub open spec fn attrs_view(attrs: Seq<Attribute>) -> Seq<AttributeView> {
    Seq::new(attrs.len(), |i: int| attrs[i]@)
}

/// The first argument between angle brackets of a path segment.
#[derive(Debug, Clone, PartialEq, Eq)]
pub enum GenericArgShape {
    Type,
    Other,
}

/// The arguments of a path segment.
#[derive(Debug, Clone, PartialEq, Eq)]
pub enum PathArgsShape {
    /// No arguments.
    Bare,
    /// Angle-bracketed arguments, with the kind of the first one (if any).
    AngleBracketed(Option<GenericArgShape>),
    Parenthesized,
}

/// A path segment: its identifier and arguments.
#[derive(Debug, Clone, PartialEq, Eq)]
pub struct SegmentShape {
    pub ident: String,
    pub args: PathArgsShape,
}

/// What the field rules read of a type: for a path type, its last segment.
#[derive(Debug, Clone, PartialEq, Eq)]
pub enum TypeShape {
    Path(Option<SegmentShape>),
    Other,
}

/// The identifier of the last segment of a path type whose first
/// angle-bracketed argument is a type, as `Vec` in `Vec<T>`.
pub open spec fn wrapper_ident_spec(ty: TypeShape) -> Option<Seq<char>> {
    match ty {
        TypeShape::Path(Some(seg)) => match seg.args {
            PathArgsShape::AngleBracketed(Some(GenericArgShape::Type)) => Some(seg.ident@),
            _ => None,
        },
        _ => None,
    }
}

/// The identifier of the wrapper around the inner type of `ty`, when `ty`
/// is a path whose last segment takes a type as its first angle-bracketed
/// argument.
pub fn get_inner_type(ty: &TypeShape) -> (r: Option<&String>)
    ensures
        match r {
            Some(s) => wrapper_ident_spec(*ty) == Some(s@),
            None => wrapper_ident_spec(*ty) is None,
        },
{
    if let TypeShape::Path(Some(seg)) = ty {
        if let PathArgsShape::AngleBracketed(Some(GenericArgShape::Type)) = &seg.args {
            return Some(&seg.ident);
        }
    }
    None
}

} // verus!
