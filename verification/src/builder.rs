//! The field rules of a builder derive.
//!
//! A field becomes one of three kinds: `Each` when its first `builder`
//! attribute reads `builder(each = "name")` (the field must then be a
//! `Vec<T>`, and gets a setter `name` that pushes one `T`), `Optional` when
//! its type is `Option<T>`, and `Required` otherwise.

use vstd::prelude::*;
use crate::tokens::{Spacing, Tok, TokenTree, tree_view, trees_view, group_trees_view, push_char, push_str, tokens_text};
use crate::item::{ItemShape, ItemData, parse_derive_input};
use crate::attrs::{AttrMeta, AttrMetaView, Attribute, AttributeView, TypeShape, wrapper_ident_spec, get_inner_type};
use crate::seq_expand::{is_ident, ident_text, is_punct};
use crate::seq_macro::{flatten_invisible, flatten_into, is_literal, literal_text, is_joint_punct};
use crate::syntax::{parse_str_literal, accepts_literal, spells, plain_str_literal, plain_contents};

verus! {

broadcast use group_trees_view;

/// Why a `builder` attribute could not be read.
#[derive(Debug, Clone, Copy, PartialEq, Eq, Structural)]
pub enum BuilderAttrError {
    /// The attribute is a bare path, with no arguments.
    ExpectedArguments,
    /// The attribute is `builder = value` rather than a list.
    ExpectedParentheses,
    /// A `::` ends the arguments where a nested attribute was expected.
    ExpectedNestedAttribute,
    /// A nested attribute starts with a literal.
    UnexpectedLiteral,
    /// A nested attribute starts with a token that is neither an identifier
    /// nor a literal.
    ExpectedNestedIdent,
    /// A `::` in a nested attribute's path is not followed by an identifier.
    ExpectedIdent,
    /// A `::` in a nested attribute's path ends the arguments.
    ExpectedIdentAtEnd,
    /// A nested attribute other than `each`.
    UnknownKey,
    /// `each` is not followed by `=`.
    ExpectedEq,
    /// `each =` is not followed by a string literal.
    ExpectedString,
    /// `each =` ends the arguments.
    ExpectedStringAtEnd,
    /// A nested attribute is followed by something other than `,`.
    ExpectedComma,
}

impl BuilderAttrError {
    /// The message reported to the user.
    pub open spec fn message_spec(self) -> Seq<char> {
        match self {
            BuilderAttrError::ExpectedArguments => "expected attribute arguments in parentheses: #[builder(...)]"@,
            BuilderAttrError::ExpectedParentheses => "expected parentheses: #[builder(...)]"@,
            BuilderAttrError::ExpectedNestedAttribute => "unexpected end of input, expected nested attribute"@,
            BuilderAttrError::UnexpectedLiteral => "unexpected literal in nested attribute, expected ident"@,
            BuilderAttrError::ExpectedNestedIdent => "unexpected token in nested attribute, expected ident"@,
            BuilderAttrError::ExpectedIdent => "expected ident"@,
            BuilderAttrError::ExpectedIdentAtEnd => "unexpected end of input, expected ident"@,
            BuilderAttrError::UnknownKey => "expected `builder(each = \"...\")`"@,
            BuilderAttrError::ExpectedEq => "expected `=`"@,
            BuilderAttrError::ExpectedString => "expected string literal"@,
            BuilderAttrError::ExpectedStringAtEnd => "unexpected end of input, expected string literal"@,
            BuilderAttrError::ExpectedComma => "expected `,`"@,
        }
    }

    /// The message reported to the user.
    pub fn message(&self) -> (s: &'static str)
        ensures
            s@ == self.message_spec(),
    {
        match self {
            BuilderAttrError::ExpectedArguments => "expected attribute arguments in parentheses: #[builder(...)]",
            BuilderAttrError::ExpectedParentheses => "expected parentheses: #[builder(...)]",
            BuilderAttrError::ExpectedNestedAttribute => "unexpected end of input, expected nested attribute",
            BuilderAttrError::UnexpectedLiteral => "unexpected literal in nested attribute, expected ident",
            BuilderAttrError::ExpectedNestedIdent => "unexpected token in nested attribute, expected ident",
            BuilderAttrError::ExpectedIdent => "expected ident",
            BuilderAttrError::ExpectedIdentAtEnd => "unexpected end of input, expected ident",
            BuilderAttrError::UnknownKey => "expected `builder(each = \"...\")`",
            BuilderAttrError::ExpectedEq => "expected `=`",
            BuilderAttrError::ExpectedString => "expected string literal",
            BuilderAttrError::ExpectedStringAtEnd => "unexpected end of input, expected string literal",
            BuilderAttrError::ExpectedComma => "expected `,`",
        }
    }
}

/// What `syn` makes of the token at one position of a list of tokens:
/// `string`, the contents of the string literal there (`None` when it is
/// not read as a string literal), and `signed`, whether a `-` there and the
/// literal after it are read together as one negative literal.
pub struct LiteralReading {
    pub string: Option<String>,
    pub signed: bool,
}

/// The model of a [`LiteralReading`].
pub struct LiteralReadingView {
    pub string: Option<Seq<char>>,
    pub signed: bool,
}

impl View for LiteralReading {
    type V = LiteralReadingView;

    open spec fn view(&self) -> LiteralReadingView {
        LiteralReadingView { string: self.string.deep_view(), signed: self.signed }
    }
}

/// The models of a list of readings.
pub open spec fn readings_view(rd: Seq<LiteralReading>) -> Seq<LiteralReadingView> {
    Seq::new(rd.len(), |k: int| rd[k]@)
}

/// The reading `r` fits the token at `k` of `t`: a string only at a
/// literal, and the characters between the quotes at a plain string
/// literal; a negative literal only at a `-` followed by a literal.
pub open spec fn reading_fits(t: Seq<Tok>, k: int, r: LiteralReadingView) -> bool {
    &&& r.string is Some ==> is_literal(t[k])
    &&& is_literal(t[k]) && plain_str_literal(literal_text(t[k])) ==> r.string == Some(
        plain_contents(literal_text(t[k])),
    )
    &&& r.signed ==> is_punct(t[k], '-') && k + 1 < t.len() && is_literal(t[k + 1])
}

/// The readings of `t` that read only its plain string literals.
pub open spec fn plain_readings(t: Seq<Tok>) -> Seq<LiteralReadingView> {
    Seq::new(
        t.len(),
        |k: int|
            LiteralReadingView {
                string: if is_literal(t[k]) && plain_str_literal(literal_text(t[k])) {
                    Some(plain_contents(literal_text(t[k])))
                } else {
                    None
                },
                signed: false,
            },
    )
}

/// `rd` holds one reading for each token of `t`, each fitting its token.
pub open spec fn readings_fit(t: Seq<Tok>, rd: Seq<LiteralReadingView>) -> bool {
    &&& rd.len() == t.len()
    &&& forall|k: int| 0 <= k < t.len() ==> reading_fits(t, k, #[trigger] rd[k])
}

/// Whether a literal starts at `p`: a literal token, or a `-` followed by a
/// literal token that `rd` reads, with the sign, as one negative literal.
pub open spec fn starts_literal(t: Seq<Tok>, p: int, rd: Seq<LiteralReadingView>) -> bool {
    ||| is_literal(t[p])
    ||| (is_punct(t[p], '-') && p + 1 < t.len() && is_literal(t[p + 1]) && rd[p].signed)
}

/// Where the path that continues at `q` with `:: ident` pairs ends.
pub open spec fn path_end(t: Seq<Tok>, q: int) -> Result<int, BuilderAttrError>
    decreases t.len() - q,
{
    if 0 <= q && q + 1 < t.len() && is_joint_punct(t[q], ':') && is_punct(t[q + 1], ':') {
        if q + 2 < t.len() && is_ident(t[q + 2]) {
            path_end(t, q + 3)
        } else if q + 2 >= t.len() {
            Err(BuilderAttrError::ExpectedIdentAtEnd)
        } else {
            Err(BuilderAttrError::ExpectedIdent)
        }
    } else {
        Ok(q)
    }
}

/// A path continued at `q` ends at or after `q`.
pub proof fn lemma_path_end_ge(t: Seq<Tok>, q: int)
    ensures
        path_end(t, q) matches Ok(e) ==> e >= q,
    decreases t.len() - q,
{
    if 0 <= q && q + 1 < t.len() && is_joint_punct(t[q], ':') && is_punct(t[q + 1], ':') {
        if q + 2 < t.len() && is_ident(t[q + 2]) {
            lemma_path_end_ge(t, q + 3);
        }
    }
}

/// The nested attribute path that starts at `i`: whether it is exactly
/// `each`, and where it ends.
pub open spec fn meta_path_at(t: Seq<Tok>, i: int, rd: Seq<LiteralReadingView>) -> Result<
    (bool, int),
    BuilderAttrError,
> {
    let lead = i + 1 < t.len() && is_joint_punct(t[i], ':') && is_punct(t[i + 1], ':');
    let p: int = if lead {
        i + 2
    } else {
        i
    };
    if t.len() <= p {
        Err(BuilderAttrError::ExpectedNestedAttribute)
    } else if !is_ident(t[p]) {
        if starts_literal(t, p, rd) {
            Err(BuilderAttrError::UnexpectedLiteral)
        } else {
            Err(BuilderAttrError::ExpectedNestedIdent)
        }
    } else {
        match path_end(t, p + 1) {
            Err(e) => Err(e),
            Ok(q) => Ok((!lead && q == p + 1 && ident_text(t[p]) == "each"@, q)),
        }
    }
}

/// The setter name given by the nested attributes `each = "..."` from `i`
/// on, `name` being the one given before `i`, with `rd` the readings of the
/// tokens: the last one wins.
pub open spec fn nested_each_at(t: Seq<Tok>, i: int, name: Seq<char>, rd: Seq<LiteralReadingView>) -> Result<
    Seq<char>,
    BuilderAttrError,
>
    decreases t.len() - i,
{
    if i < 0 || i >= t.len() {
        Ok(name)
    } else {
        match meta_path_at(t, i, rd) {
            Err(e) => Err(e),
            Ok((is_each, q)) => {
                if !is_each {
                    Err(BuilderAttrError::UnknownKey)
                } else if q >= t.len() || !is_punct(t[q], '=') {
                    Err(BuilderAttrError::ExpectedEq)
                } else if q + 1 >= t.len() {
                    Err(BuilderAttrError::ExpectedStringAtEnd)
                } else if !is_literal(t[q + 1]) || rd[q + 1].string is None {
                    Err(BuilderAttrError::ExpectedString)
                } else {
                    let v = rd[q + 1].string->0;
                    if q + 2 >= t.len() {
                        Ok(v)
                    } else if !is_punct(t[q + 2], ',') {
                        Err(BuilderAttrError::ExpectedComma)
                    } else {
                        proof {
                            lemma_path_end_ge(t, i + 1);
                            lemma_path_end_ge(t, i + 3);
                        }
                        nested_each_at(t, q + 3, v, rd)
                    }
                }
            },
        }
    }
}

/// The tokens of a `builder` attribute's arguments, invisible groups
/// flattened; none when it has no list of arguments.
pub open spec fn attr_tokens(a: AttributeView) -> Seq<Tok> {
    match a.meta {
        AttrMetaView::List(ts) => flatten_invisible(ts),
        _ => Seq::empty(),
    }
}

/// `a` is a `builder` attribute.
pub open spec fn is_builder_attr(a: AttributeView) -> bool {
    a.path_ident == Some("builder"@)
}

/// What a `builder` attribute says, with `rd` the readings of its argument
/// tokens: `None` when `a` is not a `builder` attribute, else the setter
/// name it gives or why it cannot be read.
pub open spec fn builder_attr_spec(a: AttributeView, rd: Seq<LiteralReadingView>) -> Option<
    Result<Seq<char>, BuilderAttrError>,
> {
    if !is_builder_attr(a) {
        None
    } else {
        match a.meta {
            AttrMetaView::List(_) => Some(nested_each_at(attr_tokens(a), 0, Seq::empty(), rd)),
            AttrMetaView::Path => Some(Err(BuilderAttrError::ExpectedArguments)),
            AttrMetaView::NameValue(_) => Some(Err(BuilderAttrError::ExpectedParentheses)),
        }
    }
}

/// The model of what reading nested attributes gives.
pub open spec fn each_view(r: Result<String, BuilderAttrError>) -> Result<Seq<char>, BuilderAttrError> {
    match r {
        Ok(s) => Ok(s@),
        Err(e) => Err(e),
    }
}

/// The model of what reading an attribute gives.
pub open spec fn found_view(r: Option<Result<String, BuilderAttrError>>) -> Option<
    Result<Seq<char>, BuilderAttrError>,
> {
    match r {
        Some(x) => Some(each_view(x)),
        None => None,
    }
}

/// `found` is what the attribute `a` can say, for some fitting readings of
/// its argument tokens.
pub open spec fn attr_outcome(a: AttributeView, found: Option<Result<Seq<char>, BuilderAttrError>>) -> bool {
    exists|rd: Seq<LiteralReadingView>|
        readings_fit(attr_tokens(a), rd) && #[trigger] builder_attr_spec(a, rd) == found
}

/// `k` is the index of the first `builder` attribute among `attrs`.
pub open spec fn first_builder_at(attrs: Seq<AttributeView>, k: int) -> bool {
    &&& 0 <= k < attrs.len()
    &&& is_builder_attr(attrs[k])
    &&& forall|j: int| 0 <= j < k ==> !is_builder_attr(#[trigger] attrs[j])
}

/// `found` is what the first `builder` attribute among `attrs` can say:
/// `None` when there is none.
pub open spec fn first_attr_outcome(attrs: Seq<AttributeView>, found: Option<Result<Seq<char>, BuilderAttrError>>) -> bool {
    match found {
        None => forall|j: int| 0 <= j < attrs.len() ==> !is_builder_attr(#[trigger] attrs[j]),
        Some(_) => exists|k: int| first_builder_at(attrs, k) && #[trigger] attr_outcome(attrs[k], found),
    }
}

fn ident_at(t: &TokenTree) -> (r: Option<&String>)
    ensures
        r matches Some(s) ==> tree_view(*t) == Tok::Ident(s@),
        r is None ==> !is_ident(tree_view(*t)),
{
    match t {
        TokenTree::Ident(s) => Some(s),
        _ => None,
    }
}

fn literal_at(t: &TokenTree) -> (r: Option<&String>)
    ensures
        r matches Some(s) ==> tree_view(*t) == Tok::Literal(s@),
        r is None ==> !is_literal(tree_view(*t)),
{
    match t {
        TokenTree::Literal(s) => Some(s),
        _ => None,
    }
}

fn punct_is(t: &TokenTree, c: char) -> (r: bool)
    ensures
        r == is_punct(tree_view(*t), c),
{
    match t {
        TokenTree::Punct(p, _) => *p == c,
        _ => false,
    }
}

fn joint_punct_is(t: &TokenTree, c: char) -> (r: bool)
    ensures
        r == is_joint_punct(tree_view(*t), c),
{
    match t {
        TokenTree::Punct(p, crate::tokens::Spacing::Joint) => *p == c,
        _ => false,
    }
}

fn path_end_exec(f: &Vec<TokenTree>, q: usize) -> (r: Result<usize, BuilderAttrError>)
    requires
        q <= f@.len(),
    ensures
        match r {
            Ok(e) => path_end(trees_view(f@), q as int) == Ok::<int, BuilderAttrError>(e as int) && e <= f@.len(),
            Err(e) => path_end(trees_view(f@), q as int) == Err::<int, BuilderAttrError>(e),
        },
    decreases f@.len() - q,
{
    let ghost t = trees_view(f@);
    if q < f.len() && q + 1 < f.len() && joint_punct_is(&f[q], ':') && punct_is(&f[q + 1], ':') {
        if q + 2 < f.len() && ident_at(&f[q + 2]).is_some() {
            path_end_exec(f, q + 3)
        } else {
            proof {
                if q + 2 < f@.len() {
                    assert(t[q + 2] == tree_view(f@[q + 2]));
                }
            }
            if q + 2 >= f.len() {
                Err(BuilderAttrError::ExpectedIdentAtEnd)
            } else {
                Err(BuilderAttrError::ExpectedIdent)
            }
        }
    } else {
        proof {
            if q + 1 < f@.len() {
                assert(t[q as int] == tree_view(f@[q as int]));
                assert(t[q + 1] == tree_view(f@[q + 1]));
            }
        }
        Ok(q)
    }
}

fn literal_starts_at(f: &Vec<TokenTree>, p: usize, rd: &Vec<LiteralReading>) -> (r: bool)
    requires
        p < f@.len(),
        rd@.len() == f@.len(),
    ensures
        r == starts_literal(trees_view(f@), p as int, readings_view(rd@)),
{
    let ghost t = trees_view(f@);
    proof {
        assert(t[p as int] == tree_view(f@[p as int]));
        if p + 1 < f@.len() {
            assert(t[p + 1] == tree_view(f@[p + 1]));
        }
    }
    if literal_at(&f[p]).is_some() {
        return true;
    }
    if !punct_is(&f[p], '-') || p >= f.len() - 1 {
        return false;
    }
    literal_at(&f[p + 1]).is_some() && rd[p].signed
}

fn meta_path_exec(f: &Vec<TokenTree>, i: usize, rd: &Vec<LiteralReading>) -> (r: Result<
    (bool, usize),
    BuilderAttrError,
>)
    requires
        i < f@.len(),
        rd@.len() == f@.len(),
    ensures
        match r {
            Ok((b, e)) => meta_path_at(trees_view(f@), i as int, readings_view(rd@)) == Ok::<
                (bool, int),
                BuilderAttrError,
            >((b, e as int)) && e <= f@.len(),
            Err(e) => meta_path_at(trees_view(f@), i as int, readings_view(rd@)) == Err::<
                (bool, int),
                BuilderAttrError,
            >(e),
        },
{
    let ghost t = trees_view(f@);
    let lead = i < f.len() && i + 1 < f.len() && joint_punct_is(&f[i], ':') && punct_is(&f[i + 1], ':');
    proof {
        if i + 1 < f@.len() {
            assert(t[i as int] == tree_view(f@[i as int]));
            assert(t[i + 1] == tree_view(f@[i + 1]));
        }
    }
    let p = if lead {
        i + 2
    } else {
        i
    };
    if f.len() <= p {
        return Err(BuilderAttrError::ExpectedNestedAttribute);
    }
    proof {
        assert(t[p as int] == tree_view(f@[p as int]));
    }
    match ident_at(&f[p]) {
        None => if literal_starts_at(f, p, rd) {
            Err(BuilderAttrError::UnexpectedLiteral)
        } else {
            Err(BuilderAttrError::ExpectedNestedIdent)
        },
        Some(name) => {
            let q = path_end_exec(f, p + 1)?;
            let is_each = !lead && q == p + 1 && spells(name, "each");
            Ok((is_each, q))
        },
    }
}

/// Asks `syn` how it reads the tokens of `f`, position by position.
pub fn read_literals(f: &Vec<TokenTree>) -> (rd: Vec<LiteralReading>)
    ensures
        readings_fit(trees_view(f@), readings_view(rd@)),
{
    let ghost t = trees_view(f@);
    let mut rd: Vec<LiteralReading> = Vec::new();
    let mut k: usize = 0;
    while k < f.len()
        invariant
            t == trees_view(f@),
            k <= f@.len(),
            rd@.len() == k,
            forall|j: int| 0 <= j < k ==> reading_fits(t, j, #[trigger] rd@[j]@),
        decreases f@.len() - k,
    {
        proof {
            assert(t[k as int] == tree_view(f@[k as int]));
            if k + 1 < f@.len() {
                assert(t[k + 1] == tree_view(f@[k + 1]));
            }
        }
        let string = match literal_at(&f[k]) {
            Some(text) => parse_str_literal(text),
            None => None,
        };
        let mut signed = false;
        if punct_is(&f[k], '-') && k + 1 < f.len() {
            if let Some(text) = literal_at(&f[k + 1]) {
                let mut written = String::new();
                push_char(&mut written, '-');
                push_str(&mut written, text.as_str());
                signed = accepts_literal(&written);
            }
        }
        let reading = LiteralReading { string, signed };
        proof {
            assert(reading_fits(t, k as int, reading@));
        }
        rd.push(reading);
        proof {
            assert forall|j: int| 0 <= j < k + 1 implies reading_fits(t, j, #[trigger] rd@[j]@) by {
                if j == k {
                    assert(rd@[j] == reading);
                }
            }
        }
        k = k + 1;
    }
    proof {
        assert forall|j: int| 0 <= j < t.len() implies reading_fits(t, j, #[trigger] readings_view(rd@)[j]) by {
            assert(readings_view(rd@)[j] == rd@[j]@);
        }
    }
    rd
}

/// The setter name that the nested attributes in the (flattened) tokens
/// `f` give, with `rd` the readings of those tokens: that of the last
/// `each = "..."`, an empty name when there are none, or why they cannot be
/// read.
pub fn nested_each_with(f: &Vec<TokenTree>, rd: &Vec<LiteralReading>) -> (r: Result<String, BuilderAttrError>)
    requires
        rd@.len() == f@.len(),
    ensures
        each_view(r) == nested_each_at(trees_view(f@), 0, Seq::empty(), readings_view(rd@)),
{
    let ghost t = trees_view(f@);
    let ghost rv = readings_view(rd@);
    let mut name = String::new();
    let mut i: usize = 0;
    while i < f.len()
        invariant
            t == trees_view(f@),
            rv == readings_view(rd@),
            rd@.len() == f@.len(),
            i <= f@.len(),
            nested_each_at(t, 0, Seq::empty(), rv) == nested_each_at(t, i as int, name@, rv),
        decreases f@.len() - i,
    {
        let (is_each, q) = match meta_path_exec(f, i, rd) {
            Ok(pair) => pair,
            Err(e) => {
                return Err(e);
            },
        };
        proof {
            lemma_path_end_ge(t, i + 1);
            lemma_path_end_ge(t, i + 3);
        }
        if !is_each {
            return Err(BuilderAttrError::UnknownKey);
        }
        proof {
            if q < f@.len() {
                assert(t[q as int] == tree_view(f@[q as int]));
            }
        }
        if q >= f.len() || !punct_is(&f[q], '=') {
            return Err(BuilderAttrError::ExpectedEq);
        }
        proof {
            if q + 1 < f@.len() {
                assert(t[q + 1] == tree_view(f@[q + 1]));
            }
        }
        if q + 1 >= f.len() {
            return Err(BuilderAttrError::ExpectedStringAtEnd);
        }
        if literal_at(&f[q + 1]).is_none() {
            return Err(BuilderAttrError::ExpectedString);
        }
        proof {
            assert(rv[q + 1] == rd@[q + 1]@);
        }
        let value = match &rd[q + 1].string {
            None => {
                return Err(BuilderAttrError::ExpectedString);
            },
            Some(v) => v.clone(),
        };
        name = value;
        if q + 2 >= f.len() {
            return Ok(name);
        }
        proof {
            assert(t[q + 2] == tree_view(f@[q + 2]));
        }
        if !punct_is(&f[q + 2], ',') {
            return Err(BuilderAttrError::ExpectedComma);
        }
        i = q + 3;
    }
    Ok(name)
}

/// Reads the nested attributes of a `builder` attribute's argument tokens
/// `args`, asking `syn` how it reads their literals: the outcome is what
/// [`nested_each_with`] gives for some fitting readings.
pub fn parse_nested_each(args: &Vec<TokenTree>) -> (r: Result<String, BuilderAttrError>)
    ensures
        exists|rd: Seq<LiteralReadingView>|
            readings_fit(flatten_invisible(trees_view(args@)), rd) && #[trigger] nested_each_at(
                flatten_invisible(trees_view(args@)),
                0,
                Seq::empty(),
                rd,
            ) == each_view(r),
{
    let mut f: Vec<TokenTree> = Vec::new();
    flatten_into(args, &mut f);
    proof {
        assert(trees_view(f@) =~= flatten_invisible(trees_view(args@)));
    }
    let rd = read_literals(&f);
    let r = nested_each_with(&f, &rd);
    proof {
        let rv = readings_view(rd@);
        assert(readings_fit(flatten_invisible(trees_view(args@)), rv));
        assert(nested_each_at(flatten_invisible(trees_view(args@)), 0, Seq::empty(), rv) == each_view(r));
    }
    r
}

/// What the attribute `attr` says as a `builder` attribute: `None` when it
/// is not one, else the setter name it gives or why it cannot be read.
pub fn parse_attr(attr: &Attribute) -> (r: Option<Result<String, BuilderAttrError>>)
    ensures
        r is None <==> !is_builder_attr(attr@),
        attr_outcome(attr@, found_view(r)),
{
    let is_builder = match &attr.path_ident {
        Some(p) => spells(p, "builder"),
        None => false,
    };
    if !is_builder {
        proof {
            let t = attr_tokens(attr@);
            let rd = plain_readings(t);
            assert forall|k: int| 0 <= k < t.len() implies reading_fits(t, k, #[trigger] rd[k]) by {}
            assert(readings_fit(t, rd));
            assert(builder_attr_spec(attr@, rd) == found_view(None));
        }
        return None;
    }
    match &attr.meta {
        AttrMeta::List(args) => {
            let r = parse_nested_each(args);
            proof {
                let rd = choose|rd: Seq<LiteralReadingView>|
                    readings_fit(flatten_invisible(trees_view(args@)), rd) && #[trigger] nested_each_at(
                        flatten_invisible(trees_view(args@)),
                        0,
                        Seq::empty(),
                        rd,
                    ) == each_view(r);
                assert(builder_attr_spec(attr@, rd) == found_view(Some(r)));
            }
            Some(r)
        },
        AttrMeta::Path => {
            let r = Some(Err(BuilderAttrError::ExpectedArguments));
            proof {
                assert(builder_attr_spec(attr@, Seq::empty()) == found_view(r));
                assert(readings_fit(attr_tokens(attr@), Seq::empty()));
            }
            r
        },
        AttrMeta::NameValue(_) => {
            let r = Some(Err(BuilderAttrError::ExpectedParentheses));
            proof {
                assert(builder_attr_spec(attr@, Seq::empty()) == found_view(r));
                assert(readings_fit(attr_tokens(attr@), Seq::empty()));
            }
            r
        },
    }
}

/// A field as the builder rules read it: its attributes and the shape of
/// its type.
pub struct Field {
    pub ident: Option<String>,
    pub ty: TypeShape,
    pub attrs: Vec<Attribute>,
}

/// The kind of a builder field.
#[derive(Debug, PartialEq, Eq)]
pub enum FieldType {
    /// Must be set before building; the builder holds an `Option` of the
    /// field's type.
    Required,
    /// A field of type `Option<T>`; the setter takes a `T`.
    Optional,
    /// A field of type `Vec<T>` filled one item at a time by the setter
    /// with the given name.
    Each(String),
}

/// The model of a field's kind.
pub enum FieldTypeView {
    Required,
    Optional,
    Each(Seq<char>),
}

impl View for FieldType {
    type V = FieldTypeView;

    open spec fn view(&self) -> FieldTypeView {
        match self {
            FieldType::Required => FieldTypeView::Required,
            FieldType::Optional => FieldTypeView::Optional,
            FieldType::Each(s) => FieldTypeView::Each(s@),
        }
    }
}

/// Why a field has no kind.
#[derive(Debug, Clone, Copy, PartialEq, Eq, Structural)]
pub enum FieldTypeError {
    /// The field's `builder` attribute cannot be read.
    Attr(BuilderAttrError),
    /// The field has an `each` attribute but its type is not a `Vec`.
    NotVec,
}

impl FieldTypeError {
    /// The message reported to the user.
    pub open spec fn message_spec(self) -> Seq<char> {
        match self {
            FieldTypeError::Attr(e) => e.message_spec(),
            FieldTypeError::NotVec => "shold be Vec for field with each"@,
        }
    }

    /// The message reported to the user.
    pub fn message(&self) -> (s: &'static str)
        ensures
            s@ == self.message_spec(),
    {
        match self {
            FieldTypeError::Attr(e) => e.message(),
            FieldTypeError::NotVec => "shold be Vec for field with each",
        }
    }
}

/// The kind of a field of type `ty` whose first `builder` attribute says
/// `found` (`None` when it has none): `None` when the attribute gives a
/// setter name but `ty` takes no type argument (a field the rules give no
/// answer for), else the kind or why there is none.
pub open spec fn field_type_spec(found: Option<Result<Seq<char>, BuilderAttrError>>, ty: TypeShape) -> Option<
    Result<FieldTypeView, FieldTypeError>,
> {
    match found {
        Some(Ok(name)) => match wrapper_ident_spec(ty) {
            None => None,
            Some(w) => if w == "Vec"@ {
                Some(Ok(FieldTypeView::Each(name)))
            } else {
                Some(Err(FieldTypeError::NotVec))
            },
        },
        Some(Err(e)) => Some(Err(FieldTypeError::Attr(e))),
        None => match wrapper_ident_spec(ty) {
            Some(w) => if w == "Option"@ {
                Some(Ok(FieldTypeView::Optional))
            } else {
                Some(Ok(FieldTypeView::Required))
            },
            None => Some(Ok(FieldTypeView::Required)),
        },
    }
}

/// The model of a field's kind or why it has none.
pub open spec fn kind_view(r: Result<FieldType, FieldTypeError>) -> Result<FieldTypeView, FieldTypeError> {
    match r {
        Ok(k) => Ok(k@),
        Err(e) => Err(e),
    }
}

/// What the first `builder` attribute among `attrs` says, or `None` when
/// there is none.
pub fn find_builder_attr(attrs: &Vec<Attribute>) -> (r: Option<Result<String, BuilderAttrError>>)
    ensures
        first_attr_outcome(crate::attrs::attrs_view(attrs@), found_view(r)),
{
    let ghost av = crate::attrs::attrs_view(attrs@);
    let mut i: usize = 0;
    while i < attrs.len()
        invariant
            i <= attrs@.len(),
            av == crate::attrs::attrs_view(attrs@),
            forall|j: int| 0 <= j < i ==> !is_builder_attr(#[trigger] av[j]),
        decreases attrs@.len() - i,
    {
        let r = parse_attr(&attrs[i]);
        proof {
            assert(av[i as int] == attrs@[i as int]@);
        }
        if r.is_some() {
            proof {
                assert(first_builder_at(av, i as int));
                assert(attr_outcome(av[i as int], found_view(r)));
            }
            return r;
        }
        i = i + 1;
    }
    None
}

impl FieldType {
    /// The kind of a field of type `ty` whose first `builder` attribute says
    /// `found`; the field must not be an `each` field whose type takes no
    /// type argument.
    pub fn from(found: Option<Result<String, BuilderAttrError>>, ty: &TypeShape) -> (r: Result<
        FieldType,
        FieldTypeError,
    >)
        requires
            field_type_spec(found_view(found), *ty) is Some,
        ensures
            field_type_spec(found_view(found), *ty) == Some(kind_view(r)),
    {
        match found {
            Some(Ok(name)) => {
                let w = get_inner_type(ty).unwrap();
                if spells(w, "Vec") {
                    Ok(FieldType::Each(name))
                } else {
                    Err(FieldTypeError::NotVec)
                }
            },
            Some(Err(e)) => Err(FieldTypeError::Attr(e)),
            None => match get_inner_type(ty) {
                Some(w) => if spells(w, "Option") {
                    Ok(FieldType::Optional)
                } else {
                    Ok(FieldType::Required)
                },
                None => Ok(FieldType::Required),
            },
        }
    }

    /// The kind of `field`, reading its first `builder` attribute: `None`
    /// for an `each` field whose type takes no type argument, else what
    /// [`FieldType::from`] gives.
    pub fn classify(field: &Field) -> (r: Option<Result<FieldType, FieldTypeError>>)
        ensures
            field_outcome(*field, classify_view(r)),
    {
        let found = find_builder_attr(&field.attrs);
        let ghost fv = found_view(found);
        let each_without_argument = match &found {
            Some(Ok(_)) => get_inner_type(&field.ty).is_none(),
            _ => false,
        };
        if each_without_argument {
            proof {
                assert(field_type_spec(fv, field.ty) == classify_view(None));
            }
            None
        } else {
            let k = FieldType::from(found, &field.ty);
            proof {
                assert(field_type_spec(fv, field.ty) == classify_view(Some(k)));
            }
            Some(k)
        }
    }
}

/// The model of what the rules make of a field.
pub open spec fn classify_view(r: Option<Result<FieldType, FieldTypeError>>) -> Option<
    Result<FieldTypeView, FieldTypeError>,
> {
    match r {
        Some(k) => Some(kind_view(k)),
        None => None,
    }
}

/// `o` is what the rules make of `field` for some reading of its first
/// `builder` attribute: `None` for an `each` field whose type takes no type
/// argument, else its kind or why it has none.
pub open spec fn field_outcome(field: Field, o: Option<Result<FieldTypeView, FieldTypeError>>) -> bool {
    exists|found: Option<Result<Seq<char>, BuilderAttrError>>|
        first_attr_outcome(crate::attrs::attrs_view(field.attrs@), found) && #[trigger] field_type_spec(
            found,
            field.ty,
        ) == o
}

/// The rules give `field` a kind, for some reading of its attribute.
pub open spec fn field_ok(field: Field) -> bool {
    exists|k: FieldTypeView| #[trigger] field_outcome(field, Some(Ok(k)))
}

/// Why a builder cannot be generated for an item.
#[derive(Debug, Clone, Copy, PartialEq, Eq, Structural)]
pub enum BuilderError {
    /// The item is not a struct with named fields.
    NotNamedStruct,
    /// The first field without a kind, and why.
    Field(FieldTypeError),
}

impl BuilderError {
    /// The message reported to the user.
    pub open spec fn message_spec(self) -> Seq<char> {
        match self {
            BuilderError::NotNamedStruct => "expected `builder(each = \"...\")`"@,
            BuilderError::Field(e) => e.message_spec(),
        }
    }

    /// The message reported to the user.
    pub fn message(&self) -> (s: &'static str)
        ensures
            s@ == self.message_spec(),
    {
        match self {
            BuilderError::NotNamedStruct => "expected `builder(each = \"...\")`",
            BuilderError::Field(e) => e.message(),
        }
    }
}

/// The fields of `shape` when it is a struct with named fields.
pub open spec fn named_fields(shape: &ItemShape) -> Option<Seq<Field>> {
    match shape.data {
        ItemData::Struct(fs) => if fs.named {
            Some(fs.fields@)
        } else {
            None
        },
        _ => None,
    }
}

/// The fields before `i` each get a kind, and the rules make `o` of the
/// field at `i`.
pub open spec fn stops_at(fs: Seq<Field>, i: int, o: Option<Result<FieldTypeView, FieldTypeError>>) -> bool {
    &&& 0 <= i < fs.len()
    &&& forall|j: int| 0 <= j < i ==> field_ok(#[trigger] fs[j])
    &&& field_outcome(fs[i], o)
}

/// What a builder derive makes of `shape`: an error when it is not a struct
/// with named fields; else the fields in order, each given a kind, up to the
/// first that has none: `None` when that one is an `each` field whose type
/// takes no type argument, its error otherwise.
pub open spec fn builder_plan_spec(shape: &ItemShape, r: Option<Result<Vec<FieldType>, BuilderError>>) -> bool {
    match named_fields(shape) {
        None => r == Some(Err::<Vec<FieldType>, BuilderError>(BuilderError::NotNamedStruct)),
        Some(fs) => match r {
            Some(Ok(ks)) => ks@.len() == fs.len() && forall|j: int|
                0 <= j < fs.len() ==> field_outcome(fs[j], Some(Ok(#[trigger] ks@[j]@))),
            None => exists|i: int| #[trigger] stops_at(fs, i, None),
            Some(Err(BuilderError::Field(e))) => exists|i: int| #[trigger] stops_at(fs, i, Some(Err(e))),
            Some(Err(BuilderError::NotNamedStruct)) => false,
        },
    }
}

/// The kinds of the fields of `shape`, in order.
pub fn builder_plan(shape: &ItemShape) -> (r: Option<Result<Vec<FieldType>, BuilderError>>)
    ensures
        builder_plan_spec(shape, r),
{
    let fs = match &shape.data {
        ItemData::Struct(fs) => {
            if !fs.named {
                return Some(Err(BuilderError::NotNamedStruct));
            }
            fs
        },
        _ => {
            return Some(Err(BuilderError::NotNamedStruct));
        },
    };
    let ghost f = fs.fields@;
    let mut ks: Vec<FieldType> = Vec::new();
    let mut i: usize = 0;
    while i < fs.fields.len()
        invariant
            f == fs.fields@,
            named_fields(shape) == Some(f),
            i <= f.len(),
            ks@.len() == i,
            forall|j: int| 0 <= j < i ==> field_outcome(f[j], Some(Ok(#[trigger] ks@[j]@))),
        decreases f.len() - i,
    {
        let c = FieldType::classify(&fs.fields[i]);
        proof {
            assert forall|j: int| 0 <= j < i implies field_ok(#[trigger] f[j]) by {
                assert(field_outcome(f[j], Some(Ok(ks@[j]@))));
            }
        }
        match c {
            None => {
                proof {
                    assert(field_outcome(f[i as int], None));
                    assert(named_fields(shape)->0 == f);
                    assert(stops_at(named_fields(shape)->0, i as int, None));
                }
                return None;
            },
            Some(Err(e)) => {
                proof {
                    assert(field_outcome(f[i as int], Some(Err(e))));
                    assert(named_fields(shape)->0 == f);
                    assert(stops_at(named_fields(shape)->0, i as int, Some(Err(e))));
                }
                return Some(Err(BuilderError::Field(e)));
            },
            Some(Ok(k)) => {
                ks.push(k);
            },
        }
        i = i + 1;
    }
    Some(Ok(ks))
}

/// Reads the struct that a builder derive receives, as `syn` parses the
/// text of the tokens `input`, and gives the parsed item, its shape and
/// [`builder_plan`] of it; or the message of `syn`'s error.
pub fn derive(input: &Vec<TokenTree>) -> (r: Result<
    (syn::DeriveInput, ItemShape, Option<Result<Vec<FieldType>, BuilderError>>),
    String,
>)
    ensures
        r matches Ok((_, shape, plan)) ==> builder_plan_spec(&shape, plan),
{
    let text = tokens_text(input);
    match parse_derive_input(&text) {
        Ok((item, shape)) => {
            let plan = builder_plan(&shape);
            Ok((item, shape, plan))
        },
        Err(message) => Err(message),
    }
}

/// Law: a field without a `builder` attribute is optional exactly when its
/// type's wrapper is `Option`, and required otherwise; it is never an
/// `each` field and never in error.
pub proof fn law_plain_field_kind(ty: TypeShape)
    ensures
        field_type_spec(None, ty) == Some(Ok::<FieldTypeView, FieldTypeError>(FieldTypeView::Optional))
            <==> wrapper_ident_spec(ty) == Some("Option"@),
        field_type_spec(None, ty) == Some(Ok::<FieldTypeView, FieldTypeError>(FieldTypeView::Required))
            <==> wrapper_ident_spec(ty) != Some("Option"@),
{
}

/// Law: a field whose `builder` attribute gives the setter name `name` is an
/// `each` field with that setter exactly when its type's wrapper is `Vec`,
/// and is refused when its type has another wrapper.
pub proof fn law_each_field_kind(name: Seq<char>, ty: TypeShape)
    ensures
        field_type_spec(Some(Ok(name)), ty) == Some(Ok::<FieldTypeView, FieldTypeError>(FieldTypeView::Each(name)))
            <==> wrapper_ident_spec(ty) == Some("Vec"@),
        (wrapper_ident_spec(ty) is Some && wrapper_ident_spec(ty) != Some("Vec"@)) ==> field_type_spec(
            Some(Ok(name)),
            ty,
        ) == Some(Err::<FieldTypeView, FieldTypeError>(FieldTypeError::NotVec)),
{
}

/// Law: the arguments `each = "name"`, with a plain string literal, give the
/// setter name `name`, for every fitting reading of their tokens.
pub proof fn law_each_gives_plain_name(sp: Spacing, text: Seq<char>, rd: Seq<LiteralReadingView>)
    requires
        plain_str_literal(text),
        readings_fit(seq![Tok::Ident("each"@), Tok::Punct('=', sp), Tok::Literal(text)], rd),
    ensures
        nested_each_at(
            seq![Tok::Ident("each"@), Tok::Punct('=', sp), Tok::Literal(text)],
            0,
            Seq::empty(),
            rd,
        ) == Ok::<Seq<char>, BuilderAttrError>(plain_contents(text)),
{
    let t = seq![Tok::Ident("each"@), Tok::Punct('=', sp), Tok::Literal(text)];
    assert(reading_fits(t, 2, rd[2]));
    assert(path_end(t, 1) == Ok::<int, BuilderAttrError>(1));
    assert(meta_path_at(t, 0, rd) == Ok::<(bool, int), BuilderAttrError>((true, 1)));
}

} // verus!
