//! The field rules of a debug derive: a field is printed with the format
//! string of its first attribute `#[debug = "..."]`, or as it is when it has
//! none.

use vstd::prelude::*;
use crate::tokens::{TokenTree, tree_view, trees_view, group_trees_view, tokens_text};
use crate::item::{ItemShape, ItemData, struct_fields, parse_derive_input};
use crate::attrs::{AttrMeta, AttrMetaView, Attribute, AttributeView, attrs_view};
use crate::seq_macro::{is_literal, literal_text};
use crate::syntax::{parse_str_literal, spells, plain_str_literal, plain_contents};

verus! {

broadcast use group_trees_view;

/// The text of the literal in `a` when `a` is `#[debug = literal]`, with a
/// literal as its whole value; `None` otherwise.
pub open spec fn debug_literal(a: AttributeView) -> Option<Seq<char>> {
    if a.path_ident != Some("debug"@) {
        None
    } else {
        match a.meta {
            AttrMetaView::NameValue(v) => {
                if v.len() == 1 && is_literal(v[0]) {
                    Some(literal_text(v[0]))
                } else {
                    None
                }
            },
            _ => None,
        }
    }
}

/// The first format string among the readings `rd` of a field's
/// attributes.
pub open spec fn first_format(rd: Seq<Option<Seq<char>>>) -> Option<Seq<char>>
    decreases rd.len(),
{
    if rd.len() == 0 {
        None
    } else {
        match rd[0] {
            Some(f) => Some(f),
            None => first_format(rd.subrange(1, rd.len() as int)),
        }
    }
}

/// The reading `r` fits the attribute `a`: a format string only for an
/// attribute `#[debug = literal]`, and the characters between the quotes
/// when that literal is a plain string literal.
pub open spec fn format_fits(a: AttributeView, r: Option<Seq<char>>) -> bool {
    &&& r is Some ==> debug_literal(a) is Some
    &&& debug_literal(a) matches Some(t) ==> (plain_str_literal(t) ==> r == Some(plain_contents(t)))
}

/// `rd` holds one reading for each attribute among `attrs`, each fitting
/// its attribute.
pub open spec fn formats_fit(attrs: Seq<AttributeView>, rd: Seq<Option<Seq<char>>>) -> bool {
    &&& rd.len() == attrs.len()
    &&& forall|k: int| 0 <= k < rd.len() ==> format_fits(attrs[k], #[trigger] rd[k])
}

/// The readings of `attrs` that read only their plain string literals.
pub open spec fn plain_formats(attrs: Seq<AttributeView>) -> Seq<Option<Seq<char>>> {
    Seq::new(
        attrs.len(),
        |k: int|
            match debug_literal(attrs[k]) {
                Some(t) => if plain_str_literal(t) {
                    Some(plain_contents(t))
                } else {
                    None
                },
                None => None,
            },
    )
}

/// Readings that give no format string before `rest` leave the first
/// format string to `rest`.
pub proof fn lemma_first_format_skips(pre: Seq<Option<Seq<char>>>, rest: Seq<Option<Seq<char>>>)
    requires
        forall|k: int| 0 <= k < pre.len() ==> #[trigger] pre[k] is None,
    ensures
        first_format(pre + rest) == first_format(rest),
    decreases pre.len(),
{
    if pre.len() > 0 {
        let tail = pre.subrange(1, pre.len() as int);
        assert((pre + rest).subrange(1, (pre + rest).len() as int) =~= tail + rest);
        assert((pre + rest)[0] == pre[0]);
        assert forall|k: int| 0 <= k < tail.len() implies #[trigger] tail[k] is None by {
            assert(tail[k] == pre[k + 1]);
        }
        lemma_first_format_skips(tail, rest);
    }
}

/// The text of the literal in `attr` when `attr` is `#[debug = literal]`.
pub fn debug_literal_text(attr: &Attribute) -> (r: Option<&String>)
    ensures
        r.deep_view() == debug_literal(attr@),
{
    let is_debug = match &attr.path_ident {
        Some(p) => spells(p, "debug"),
        None => false,
    };
    if !is_debug {
        return None;
    }
    match &attr.meta {
        AttrMeta::NameValue(v) => {
            if v.len() == 1 {
                proof {
                    assert(trees_view(v@)[0] == tree_view(v@[0]));
                }
                match &v[0] {
                    TokenTree::Literal(text) => Some(text),
                    _ => None,
                }
            } else {
                None
            }
        },
        _ => None,
    }
}

/// The format string that `attr` gives, if it is `#[debug = "..."]`: `syn`
/// reads the literal that [`debug_literal_text`] finds.
pub fn parse_attr(attr: &Attribute) -> (r: Option<String>)
    ensures
        format_fits(attr@, r.deep_view()),
{
    match debug_literal_text(attr) {
        Some(text) => parse_str_literal(text),
        None => None,
    }
}

/// The format string with which a field with attributes `attrs` is
/// printed, or `None` when it is printed as it is: the first that `syn`
/// reads from an attribute `#[debug = "..."]`.
pub fn field_format(attrs: &Vec<Attribute>) -> (r: Option<String>)
    ensures
        format_outcome(attrs_view(attrs@), r.deep_view()),
{
    let ghost av = attrs_view(attrs@);
    let mut i: usize = 0;
    while i < attrs.len()
        invariant
            i <= attrs@.len(),
            av == attrs_view(attrs@),
            forall|j: int| 0 <= j < i ==> format_fits(av[j], None),
        decreases attrs@.len() - i,
    {
        let r = parse_attr(&attrs[i]);
        proof {
            assert(av[i as int] == attrs@[i as int]@);
        }
        if r.is_some() {
            proof {
                let pre = Seq::new(i as nat, |k: int| None::<Seq<char>>);
                let post = plain_formats(av).subrange(i + 1, av.len() as int);
                let rest = seq![r.deep_view()] + post;
                let rd = pre + rest;
                assert(rest.subrange(1, rest.len() as int) =~= post);
                assert(first_format(rest) == r.deep_view());
                lemma_first_format_skips(pre, rest);
                assert forall|k: int| 0 <= k < rd.len() implies format_fits(av[k], #[trigger] rd[k]) by {
                    if k < i {
                        assert(rd[k] == pre[k]);
                    } else if k == i {
                        assert(rd[k] == r.deep_view());
                    } else {
                        assert(rd[k] == post[k - i - 1]);
                        assert(post[k - i - 1] == plain_formats(av)[k]);
                    }
                }
                assert(formats_fit(av, rd));
            }
            return r;
        }
        i = i + 1;
    }
    proof {
        let rd = Seq::new(attrs@.len(), |k: int| None::<Seq<char>>);
        lemma_first_format_skips(rd, Seq::empty());
        assert(rd + Seq::<Option<Seq<char>>>::empty() =~= rd);
        assert forall|k: int| 0 <= k < rd.len() implies format_fits(av[k], #[trigger] rd[k]) by {}
        assert(formats_fit(av, rd));
    }
    None
}

/// `r` is the format string that a field with attributes `attrs` is
/// printed with, for some fitting readings of its attributes.
pub open spec fn format_outcome(attrs: Seq<AttributeView>, r: Option<Seq<char>>) -> bool {
    exists|rd: Seq<Option<Seq<char>>>| formats_fit(attrs, rd) && #[trigger] first_format(rd) == r
}

/// Why a debug impl cannot be generated for an item.
#[derive(Debug, Clone, Copy, PartialEq, Eq, Structural)]
pub enum DebugError {
    /// The item is not a struct.
    NotStruct,
}

impl DebugError {
    /// The message reported to the user.
    pub open spec fn message_spec(self) -> Seq<char> {
        match self {
            DebugError::NotStruct => "must be struct"@,
        }
    }

    /// The message reported to the user.
    pub fn message(&self) -> (s: &'static str)
        ensures
            s@ == self.message_spec(),
    {
        match self {
            DebugError::NotStruct => "must be struct",
        }
    }
}

/// What a debug derive makes of `shape`: an error when it is not a struct;
/// else, for each field in order, the format string it is printed with.
pub open spec fn debug_plan_spec(shape: &ItemShape, r: Result<Vec<Option<String>>, DebugError>) -> bool {
    match struct_fields(shape) {
        None => r == Err::<Vec<Option<String>>, DebugError>(DebugError::NotStruct),
        Some(fs) => r matches Ok(v) && v@.len() == fs.len() && forall|j: int|
            0 <= j < fs.len() ==> format_outcome(attrs_view(fs[j].attrs@), #[trigger] v@[j].deep_view()),
    }
}

/// The format string of each field of `shape`, in order.
pub fn debug_plan(shape: &ItemShape) -> (r: Result<Vec<Option<String>>, DebugError>)
    ensures
        debug_plan_spec(shape, r),
{
    let fs = match &shape.data {
        ItemData::Struct(fs) => fs,
        _ => {
            return Err(DebugError::NotStruct);
        },
    };
    let ghost f = fs.fields@;
    let mut formats: Vec<Option<String>> = Vec::new();
    let mut i: usize = 0;
    while i < fs.fields.len()
        invariant
            f == fs.fields@,
            struct_fields(shape) == Some(f),
            i <= f.len(),
            formats@.len() == i,
            forall|j: int|
                0 <= j < i ==> format_outcome(attrs_view(f[j].attrs@), #[trigger] formats@[j].deep_view()),
        decreases f.len() - i,
    {
        let format = field_format(&fs.fields[i].attrs);
        formats.push(format);
        i = i + 1;
    }
    proof {
        assert(struct_fields(shape)->0 == f);
    }
    Ok(formats)
}

/// Reads the struct that a debug derive receives, as `syn` parses the text
/// of the tokens `input`, and gives the parsed item, its shape and
/// [`debug_plan`] of it; or the message of `syn`'s error.
pub fn derive(input: &Vec<TokenTree>) -> (r: Result<
    (syn::DeriveInput, ItemShape, Result<Vec<Option<String>>, DebugError>),
    String,
>)
    ensures
        r matches Ok((_, shape, plan)) ==> debug_plan_spec(&shape, plan),
{
    let text = tokens_text(input);
    match parse_derive_input(&text) {
        Ok((item, shape)) => {
            let plan = debug_plan(&shape);
            Ok((item, shape, plan))
        },
        Err(message) => Err(message),
    }
}

/// Law: a field whose first attribute is `#[debug = "format"]`, with a
/// plain string literal, is printed with `format`, whatever its other
/// attributes, for every fitting reading of them.
pub proof fn law_first_plain_format_wins(attrs: Seq<AttributeView>, rd: Seq<Option<Seq<char>>>)
    requires
        attrs.len() >= 1,
        debug_literal(attrs[0]) is Some,
        plain_str_literal(debug_literal(attrs[0])->0),
        formats_fit(attrs, rd),
    ensures
        first_format(rd) == Some(plain_contents(debug_literal(attrs[0])->0)),
{
    assert(format_fits(attrs[0], rd[0]));
}

} // verus!
