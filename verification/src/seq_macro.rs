//! Reading an invocation `N in start..end { body }` from its tokens, and
//! expanding it.

use vstd::prelude::*;
use crate::tokens::{
    Delimiter, Spacing, Tok, TokenTree, tree_view, trees_view, copy_trees, group_trees_view,
    lemma_trees_view_push, lemma_trees_view_concat, push_char, push_str,
};
use crate::syntax::{
    int_reading_view, accepts_ident, parse_int_literal, spells, short_decimal, decimal_value, ascii_word,
    reserved_word,
};
use crate::seq_expand::{
    expansion_spec, expansion_ok, contains_block, walk, repeat_into, check_blocks, check_pastes,
    is_ident, ident_text, is_punct,
};

verus! {

broadcast use group_trees_view;

/// A grammar error in the tokens of an invocation; each has a fixed
/// message.
#[derive(Debug, Clone, Copy, PartialEq, Eq, Structural)]
pub enum SeqParseError {
    /// The first token is not an identifier.
    ExpectedIdent,
    /// The identifier is not followed by `in`.
    ExpectedIn,
    /// A bound of the range is not an integer literal.
    ExpectedInteger,
    /// The lower bound is not followed by `..`.
    ExpectedDotDot,
    /// The range is not followed by a body in curly braces.
    ExpectedBraces,
    /// Tokens follow the body.
    UnexpectedToken,
    /// An inclusive upper bound is the largest `usize`, so the range has no
    /// exclusive end.
    EndOverflow,
}

impl SeqParseError {
    /// The message reported to the user.
    pub open spec fn message_spec(self) -> Seq<char> {
        match self {
            SeqParseError::ExpectedIdent => "expected identifier"@,
            SeqParseError::ExpectedIn => "expected `in`"@,
            SeqParseError::ExpectedInteger => "expected integer literal"@,
            SeqParseError::ExpectedDotDot => "expected `..`"@,
            SeqParseError::ExpectedBraces => "expected curly braces"@,
            SeqParseError::UnexpectedToken => "unexpected token"@,
            SeqParseError::EndOverflow => "range end is too large"@,
        }
    }

    /// The message reported to the user.
    pub fn message(&self) -> (s: &'static str)
        ensures
            s@ == self.message_spec(),
    {
        match self {
            SeqParseError::ExpectedIdent => "expected identifier",
            SeqParseError::ExpectedIn => "expected `in`",
            SeqParseError::ExpectedInteger => "expected integer literal",
            SeqParseError::ExpectedDotDot => "expected `..`",
            SeqParseError::ExpectedBraces => "expected curly braces",
            SeqParseError::UnexpectedToken => "unexpected token",
            SeqParseError::EndOverflow => "range end is too large",
        }
    }
}

/// Why the tokens of an invocation could not be read.
#[derive(Debug, PartialEq, Eq)]
pub enum SeqError {
    /// A grammar error.
    Grammar(SeqParseError),
    /// A grammar error met at the end of the tokens, where the piece it
    /// expects is missing.
    EndOfInput(SeqParseError),
    /// The identifier is this reserved word.
    Keyword(String),
    /// A bound is an integer literal whose value cannot be read; the
    /// message says why.
    IntegerValue(String),
    /// A bound is an integer literal whose value exceeds the largest
    /// `usize`.
    IntegerTooLarge,
}

/// The model of a [`SeqError`].
pub enum SeqErrorView {
    Grammar(SeqParseError),
    EndOfInput(SeqParseError),
    Keyword(Seq<char>),
    IntegerValue(Seq<char>),
    IntegerTooLarge,
}

impl View for SeqError {
    type V = SeqErrorView;

    open spec fn view(&self) -> SeqErrorView {
        match self {
            SeqError::Grammar(e) => SeqErrorView::Grammar(*e),
            SeqError::EndOfInput(e) => SeqErrorView::EndOfInput(*e),
            SeqError::Keyword(k) => SeqErrorView::Keyword(k@),
            SeqError::IntegerValue(m) => SeqErrorView::IntegerValue(m@),
            SeqError::IntegerTooLarge => SeqErrorView::IntegerTooLarge,
        }
    }
}

/// The message for the reserved word `keyword` where an identifier was
/// expected.
pub open spec fn keyword_message(keyword: Seq<char>) -> Seq<char> {
    "expected identifier, found keyword `"@ + keyword + "`"@
}

impl SeqErrorView {
    /// The message reported to the user.
    pub open spec fn message_spec(self) -> Seq<char> {
        match self {
            SeqErrorView::Grammar(e) => e.message_spec(),
            SeqErrorView::EndOfInput(e) => "unexpected end of input, "@ + e.message_spec(),
            SeqErrorView::Keyword(k) => keyword_message(k),
            SeqErrorView::IntegerValue(m) => m,
            SeqErrorView::IntegerTooLarge => "number too large to fit in target type"@,
        }
    }
}

impl SeqError {
    /// The message reported to the user.
    pub fn message(&self) -> (s: String)
        ensures
            s@ == self@.message_spec(),
    {
        let mut s = String::new();
        match self {
            SeqError::Grammar(e) => {
                push_str(&mut s, e.message());
            },
            SeqError::EndOfInput(e) => {
                let head = "unexpected end of input, ";
                push_str(&mut s, head);
                push_str(&mut s, e.message());
                proof {
                    reveal_strlit("unexpected end of input, ");
                }
            },
            SeqError::Keyword(k) => {
                let head = "expected identifier, found keyword `";
                let tail = "`";
                push_str(&mut s, head);
                push_str(&mut s, k.as_str());
                push_str(&mut s, tail);
                proof {
                    reveal_strlit("expected identifier, found keyword `");
                    reveal_strlit("`");
                    assert(s@ =~= keyword_message(k@));
                }
            },
            SeqError::IntegerValue(m) => {
                push_str(&mut s, m.as_str());
            },
            SeqError::IntegerTooLarge => {
                push_str(&mut s, "number too large to fit in target type");
            },
        }
        proof {
            assert(s@ =~= self@.message_spec());
        }
        s
    }
}

/// `s` with every invisible group replaced by its own (flattened) contents;
/// other groups are kept whole.
pub open spec fn flatten_invisible(s: Seq<Tok>) -> Seq<Tok>
    decreases s,
{
    if s.len() == 0 {
        Seq::empty()
    } else {
        let tail = s.subrange(1, s.len() as int);
        match s[0] {
            Tok::Group(Delimiter::Invisible, inner) => flatten_invisible(inner) + flatten_invisible(tail),
            _ => seq![s[0]] + flatten_invisible(tail),
        }
    }
}

/// `t` is a literal.
pub open spec fn is_literal(t: Tok) -> bool {
    match t {
        Tok::Literal(_) => true,
        _ => false,
    }
}

/// The source text of literal `t`.
pub open spec fn literal_text(t: Tok) -> Seq<char> {
    match t {
        Tok::Literal(s) => s,
        _ => Seq::empty(),
    }
}

/// `t` is the character `c` joined to the next punctuation character.
pub open spec fn is_joint_punct(t: Tok, c: char) -> bool {
    t == Tok::Punct(c, Spacing::Joint)
}

/// The contents of `t` when it is a group in curly braces.
pub open spec fn brace_contents(t: Tok) -> Option<Seq<Tok>> {
    match t {
        Tok::Group(Delimiter::Brace, inner) => Some(inner),
        _ => None,
    }
}

/// The pieces of an invocation's header, before its numbers are read: the
/// pieces found in order up to the first grammar error, and that error.
pub struct HeaderView {
    pub ident: Option<Seq<char>>,
    pub start_text: Option<Seq<char>>,
    pub inclusive: bool,
    pub end_text: Option<Seq<char>>,
    pub body: Seq<Tok>,
    pub error: Option<SeqParseError>,
    pub at_end: bool,
}

/// A header whose pieces stop before the grammar error `e`, met at the end
/// of the tokens when `at_end` holds.
pub open spec fn header_failed(
    ident: Option<Seq<char>>,
    start_text: Option<Seq<char>>,
    inclusive: bool,
    end_text: Option<Seq<char>>,
    e: SeqParseError,
    at_end: bool,
) -> HeaderView {
    HeaderView { ident, start_text, inclusive, end_text, body: Seq::empty(), error: Some(e), at_end }
}

/// The bound that starts at `p`: its text and where it ends. A bound is a
/// literal, or a `-` followed by a literal, read together as one signed
/// literal.
pub open spec fn bound_at(f: Seq<Tok>, p: int) -> Option<(Seq<char>, int)> {
    if 0 <= p < f.len() && is_literal(f[p]) {
        Some((literal_text(f[p]), p + 1))
    } else if 0 <= p && p + 1 < f.len() && is_punct(f[p], '-') && is_literal(f[p + 1]) {
        Some((seq!['-'] + literal_text(f[p + 1]), p + 2))
    } else {
        None
    }
}

/// The header of the (flattened) tokens `f`: an identifier, `in`, a bound,
/// `..`, optionally `=`, a bound, and a group in braces, with nothing after
/// it.
pub open spec fn header_spec(f: Seq<Tok>) -> HeaderView {
    if f.len() < 1 || !is_ident(f[0]) {
        header_failed(None, None, false, None, SeqParseError::ExpectedIdent, f.len() < 1)
    } else {
        let id = Some(ident_text(f[0]));
        if f.len() < 2 || f[1] != Tok::Ident("in"@) {
            header_failed(id, None, false, None, SeqParseError::ExpectedIn, f.len() < 2)
        } else {
            match bound_at(f, 2) {
                None => header_failed(
                    id,
                    None,
                    false,
                    None,
                    SeqParseError::ExpectedInteger,
                    f.len() <= 2,
                ),
                Some((st, q)) => {
                    if f.len() < q + 2 || !(is_joint_punct(f[q], '.') && is_punct(f[q + 1], '.')) {
                        header_failed(id, Some(st), false, None, SeqParseError::ExpectedDotDot, false)
                    } else {
                        let inclusive = f.len() > q + 2 && is_punct(f[q + 2], '=');
                        let k: int = if inclusive {
                            q + 3
                        } else {
                            q + 2
                        };
                        match bound_at(f, k) {
                            None => header_failed(
                                id,
                                Some(st),
                                inclusive,
                                None,
                                SeqParseError::ExpectedInteger,
                                f.len() <= k,
                            ),
                            Some((en, r)) => {
                                if f.len() < r + 1 || brace_contents(f[r]) is None {
                                    header_failed(
                                        id,
                                        Some(st),
                                        inclusive,
                                        Some(en),
                                        SeqParseError::ExpectedBraces,
                                        f.len() <= r,
                                    )
                                } else {
                                    HeaderView {
                                        ident: id,
                                        start_text: Some(st),
                                        inclusive,
                                        end_text: Some(en),
                                        body: brace_contents(f[r])->0,
                                        error: if f.len() > r + 1 {
                                            Some(SeqParseError::UnexpectedToken)
                                        } else {
                                            None
                                        },
                                        at_end: false,
                                    }
                                }
                            },
                        }
                    }
                },
            }
        }
    }
}

/// The grammar error of header `h`.
pub open spec fn header_error(h: HeaderView) -> SeqErrorView {
    match h.error {
        Some(e) => if h.at_end {
            SeqErrorView::EndOfInput(e)
        } else {
            SeqErrorView::Grammar(e)
        },
        None => SeqErrorView::Grammar(SeqParseError::UnexpectedToken),
    }
}

/// The model of a read invocation: the numbers run from `start` up to, not
/// including, `end`.
pub struct SeqMacroView {
    pub ident: Seq<char>,
    pub start: nat,
    pub end: nat,
    pub body: Seq<Tok>,
}

/// The error for a bound whose reading gave `r`, when it gave no value.
pub open spec fn bound_error(r: Result<u128, Option<Seq<char>>>) -> SeqErrorView {
    match r {
        Err(Some(m)) => SeqErrorView::IntegerValue(m),
        _ => SeqErrorView::Grammar(SeqParseError::ExpectedInteger),
    }
}

/// A bound's reading gives a value that a `usize` holds.
pub open spec fn fits_usize(r: Result<u128, Option<Seq<char>>>) -> bool {
    r matches Ok(v) && v <= usize::MAX
}

/// The invocation with header `h`, given whether its identifier is accepted
/// and the readings of its two bounds. Each piece is checked where it
/// stands: a missing piece reports the header's grammar error, a refused one
/// its own.
pub open spec fn assemble_spec(
    h: HeaderView,
    ident_ok: bool,
    start: Result<u128, Option<Seq<char>>>,
    end: Result<u128, Option<Seq<char>>>,
) -> Result<SeqMacroView, SeqErrorView> {
    if h.ident is None {
        Err(header_error(h))
    } else if !ident_ok {
        Err(SeqErrorView::Keyword(h.ident->0))
    } else if h.start_text is None {
        Err(header_error(h))
    } else if start is Err {
        Err(bound_error(start))
    } else if !fits_usize(start) {
        Err(SeqErrorView::IntegerTooLarge)
    } else if h.end_text is None {
        Err(header_error(h))
    } else if end is Err {
        Err(bound_error(end))
    } else if !fits_usize(end) {
        Err(SeqErrorView::IntegerTooLarge)
    } else if h.inclusive && end->Ok_0 == usize::MAX {
        Err(SeqErrorView::Grammar(SeqParseError::EndOverflow))
    } else if h.error is Some {
        Err(header_error(h))
    } else {
        Ok(
            SeqMacroView {
                ident: h.ident->0,
                start: start->Ok_0 as nat,
                end: if h.inclusive {
                    (end->Ok_0 + 1) as nat
                } else {
                    end->Ok_0 as nat
                },
                body: h.body,
            },
        )
    }
}

/// The reading `r` fits the bound text `text`: a bound of at most 38
/// decimal digits reads as its value.
pub open spec fn bound_reading_fits(text: Option<Seq<char>>, r: Result<u128, Option<Seq<char>>>) -> bool {
    match text {
        Some(t) => short_decimal(t) ==> r == Ok::<u128, Option<Seq<char>>>(decimal_value(t) as u128),
        None => true,
    }
}

/// The answer `ok` fits the identifier `ident`: an ASCII word is accepted
/// exactly when it is not a reserved word.
pub open spec fn ident_reading_fits(ident: Option<Seq<char>>, ok: bool) -> bool {
    match ident {
        Some(t) => ascii_word(t) ==> ok == !reserved_word(t),
        None => true,
    }
}

/// `res` is what reading the tokens `input` as an invocation gives, for
/// some answers of `syn` that fit the identifier and the bounds.
pub open spec fn parse_outcome(input: Seq<Tok>, res: Result<SeqMacroView, SeqErrorView>) -> bool {
    let h = header_spec(flatten_invisible(input));
    exists|ident_ok: bool, start: Result<u128, Option<Seq<char>>>, end: Result<u128, Option<Seq<char>>>|
        #[trigger] assemble_spec(h, ident_ok, start, end) == res && ident_reading_fits(h.ident, ident_ok)
            && bound_reading_fits(h.start_text, start) && bound_reading_fits(h.end_text, end)
}

/// Law: an invocation `N in a..b { body }` or `N in a..=b { body }` whose
/// identifier is an ASCII word that is not reserved, and whose bounds are
/// plain decimal numbers that fit a `usize` (with an inclusive end below the
/// largest), reads as exactly that identifier, those numbers (one past an
/// inclusive end) and that body.
pub proof fn law_parse_plain_invocation(input: Seq<Tok>, res: Result<SeqMacroView, SeqErrorView>)
    requires
        parse_outcome(input, res),
        header_spec(flatten_invisible(input)).error is None,
        header_spec(flatten_invisible(input)).ident is Some,
        ascii_word(header_spec(flatten_invisible(input)).ident->0),
        !reserved_word(header_spec(flatten_invisible(input)).ident->0),
        header_spec(flatten_invisible(input)).start_text is Some,
        short_decimal(header_spec(flatten_invisible(input)).start_text->0),
        decimal_value(header_spec(flatten_invisible(input)).start_text->0) <= usize::MAX,
        header_spec(flatten_invisible(input)).end_text is Some,
        short_decimal(header_spec(flatten_invisible(input)).end_text->0),
        decimal_value(header_spec(flatten_invisible(input)).end_text->0) < usize::MAX,
    ensures
        res == Ok::<SeqMacroView, SeqErrorView>(
            SeqMacroView {
                ident: header_spec(flatten_invisible(input)).ident->0,
                start: decimal_value(header_spec(flatten_invisible(input)).start_text->0),
                end: if header_spec(flatten_invisible(input)).inclusive {
                    decimal_value(header_spec(flatten_invisible(input)).end_text->0) + 1
                } else {
                    decimal_value(header_spec(flatten_invisible(input)).end_text->0)
                },
                body: header_spec(flatten_invisible(input)).body,
            },
        ),
{
    let h = header_spec(flatten_invisible(input));
    let (ok, st, en) = choose|
        ident_ok: bool,
        start: Result<u128, Option<Seq<char>>>,
        end: Result<u128, Option<Seq<char>>>,
    |
        #[trigger] assemble_spec(h, ident_ok, start, end) == res && ident_reading_fits(h.ident, ident_ok)
            && bound_reading_fits(h.start_text, start) && bound_reading_fits(h.end_text, end);
    assert(ok);
    assert(st == Ok::<u128, Option<Seq<char>>>(decimal_value(h.start_text->0) as u128));
    assert(en == Ok::<u128, Option<Seq<char>>>(decimal_value(h.end_text->0) as u128));
}

/// The model of the outcome of reading an invocation.
pub open spec fn outcome_view(res: Result<SeqMacro, SeqError>) -> Result<SeqMacroView, SeqErrorView> {
    match res {
        Ok(m) => Ok(m@),
        Err(e) => Err(e@),
    }
}

/// The pieces of an invocation's header.
pub struct SeqHeader {
    pub ident: Option<String>,
    pub start_text: Option<String>,
    pub inclusive: bool,
    pub end_text: Option<String>,
    pub tokens: Vec<TokenTree>,
    pub error: Option<SeqParseError>,
    pub at_end: bool,
}

impl View for SeqHeader {
    type V = HeaderView;

    open spec fn view(&self) -> HeaderView {
        HeaderView {
            ident: self.ident.deep_view(),
            start_text: self.start_text.deep_view(),
            inclusive: self.inclusive,
            end_text: self.end_text.deep_view(),
            body: trees_view(self.tokens@),
            error: self.error,
            at_end: self.at_end,
        }
    }
}

/// A read invocation.
pub struct SeqMacro {
    pub ident: String,
    pub start: usize,
    pub end: usize,
    pub tokens: Vec<TokenTree>,
}

impl View for SeqMacro {
    type V = SeqMacroView;

    open spec fn view(&self) -> SeqMacroView {
        SeqMacroView {
            ident: self.ident@,
            start: self.start as nat,
            end: self.end as nat,
            body: trees_view(self.tokens@),
        }
    }
}

proof fn lemma_step(s: Seq<Tok>, i: int)
    requires
        0 <= i < s.len(),
    ensures
        s.subrange(i, s.len() as int).subrange(1, s.len() - i) == s.subrange(i + 1, s.len() as int),
{
    assert(s.subrange(i, s.len() as int).subrange(1, s.len() - i) =~= s.subrange(i + 1, s.len() as int));
}

/// Appends `input` to `out` with every invisible group replaced by its
/// flattened contents.
pub fn flatten_into(input: &Vec<TokenTree>, out: &mut Vec<TokenTree>)
    ensures
        trees_view(final(out)@) == trees_view(old(out)@) + flatten_invisible(trees_view(input@)),
    decreases input,
{
    let ghost s = trees_view(input@);
    let ghost len = input@.len();
    let ghost before = trees_view(out@);
    let mut i: usize = 0;
    proof {
        assert(s.subrange(0, len as int) =~= s);
        assert(trees_view(out@) + flatten_invisible(s) =~= before + flatten_invisible(s));
    }
    while i < input.len()
        invariant
            i <= len,
            len == input@.len(),
            s == trees_view(input@),
            trees_view(out@) + flatten_invisible(s.subrange(i as int, len as int)) == before
                + flatten_invisible(s),
        decreases len - i,
    {
        let ghost t = s.subrange(i as int, len as int);
        let ghost out_before = out@;
        proof {
            assert(t[0] == tree_view(input@[i as int]));
            lemma_step(s, i as int);
        }
        match &input[i] {
            TokenTree::Group(Delimiter::Invisible, inner) => {
                proof {
                    assert(decreases_to!(input => input@[i as int]));
                }
                flatten_into(inner, out);
                proof {
                    assert(trees_view(out@) + flatten_invisible(s.subrange(i + 1, len as int)) =~= trees_view(
                        out_before,
                    ) + flatten_invisible(t));
                }
            },
            other => {
                out.push(crate::tokens::copy_tree(other));
                proof {
                    lemma_trees_view_push(out_before, out@.last());
                    assert(out@ == out_before.push(out@.last()));
                    assert(trees_view(out@) + flatten_invisible(s.subrange(i + 1, len as int)) =~= trees_view(
                        out_before,
                    ) + flatten_invisible(t));
                }
            },
        }
        i = i + 1;
    }
    proof {
        assert(s.subrange(len as int, len as int) =~= Seq::<Tok>::empty());
        assert(trees_view(out@) =~= trees_view(out@) + Seq::<Tok>::empty());
    }
}

fn ident_of(t: &TokenTree) -> (r: Option<&String>)
    ensures
        r matches Some(s) ==> tree_view(*t) == Tok::Ident(s@),
        r is None ==> !is_ident(tree_view(*t)),
{
    match t {
        TokenTree::Ident(s) => Some(s),
        _ => None,
    }
}

fn literal_of(t: &TokenTree) -> (r: Option<&String>)
    ensures
        r matches Some(s) ==> tree_view(*t) == Tok::Literal(s@),
        r is None ==> !is_literal(tree_view(*t)),
{
    match t {
        TokenTree::Literal(s) => Some(s),
        _ => None,
    }
}

fn punct_of(t: &TokenTree) -> (r: Option<(char, Spacing)>)
    ensures
        r matches Some(p) ==> tree_view(*t) == Tok::Punct(p.0, p.1),
        r is None ==> tree_view(*t) !is Punct,
{
    match t {
        TokenTree::Punct(c, sp) => Some((*c, *sp)),
        _ => None,
    }
}

fn brace_of(t: &TokenTree) -> (r: Option<&Vec<TokenTree>>)
    ensures
        r matches Some(g) ==> brace_contents(tree_view(*t)) == Some(trees_view(g@)),
        r is None ==> brace_contents(tree_view(*t)) is None,
{
    match t {
        TokenTree::Group(Delimiter::Brace, g) => Some(g),
        _ => None,
    }
}

fn failed(
    ident: Option<String>,
    start_text: Option<String>,
    inclusive: bool,
    end_text: Option<String>,
    e: SeqParseError,
    at_end: bool,
) -> (h: SeqHeader)
    ensures
        h@ == header_failed(
            ident.deep_view(),
            start_text.deep_view(),
            inclusive,
            end_text.deep_view(),
            e,
            at_end,
        ),
{
    let h = SeqHeader {
        ident,
        start_text,
        inclusive,
        end_text,
        tokens: Vec::new(),
        error: Some(e),
        at_end,
    };
    proof {
        assert(trees_view(h.tokens@) =~= Seq::<Tok>::empty());
    }
    h
}

/// The bound that starts at `p`, with where it ends.
fn bound_exec(f: &Vec<TokenTree>, p: usize) -> (r: Option<(String, usize)>)
    requires
        p <= f@.len(),
    ensures
        match r {
            Some((t, e)) => bound_at(trees_view(f@), p as int) == Some((t@, e as int)) && e
                <= f@.len(),
            None => bound_at(trees_view(f@), p as int) is None,
        },
{
    let ghost fv = trees_view(f@);
    if p >= f.len() {
        return None;
    }
    proof {
        assert(fv[p as int] == tree_view(f@[p as int]));
        if p + 1 < f@.len() {
            assert(fv[p + 1] == tree_view(f@[p + 1]));
        }
    }
    if let Some(t) = literal_of(&f[p]) {
        return Some((t.clone(), p + 1));
    }
    if p + 1 >= f.len() {
        return None;
    }
    let minus = match punct_of(&f[p]) {
        Some((c, _)) => c == '-',
        None => false,
    };
    if !minus {
        return None;
    }
    match literal_of(&f[p + 1]) {
        None => None,
        Some(t) => {
            let mut signed = String::new();
            push_char(&mut signed, '-');
            push_str(&mut signed, t.as_str());
            proof {
                assert(signed@ =~= seq!['-'] + t@);
            }
            Some((signed, p + 2))
        },
    }
}

/// Splits the tokens of an invocation into the pieces of its header.
pub fn split_header(input: &Vec<TokenTree>) -> (h: SeqHeader)
    ensures
        h@ == header_spec(flatten_invisible(trees_view(input@))),
{
    let mut f: Vec<TokenTree> = Vec::new();
    flatten_into(input, &mut f);
    let ghost fv = trees_view(f@);
    proof {
        assert(fv =~= flatten_invisible(trees_view(input@)));
    }
    let n = f.len();
    if n < 1 || ident_of(&f[0]).is_none() {
        return failed(None, None, false, None, SeqParseError::ExpectedIdent, n < 1);
    }
    proof {
        assert(fv[0] == tree_view(f@[0]));
    }
    let ident = ident_of(&f[0]).unwrap().clone();
    let is_in = if n >= 2 {
        match ident_of(&f[1]) {
            Some(s) => spells(s, "in"),
            None => false,
        }
    } else {
        false
    };
    proof {
        if n >= 2 {
            assert(fv[1] == tree_view(f@[1]));
        }
    }
    if !is_in {
        return failed(Some(ident), None, false, None, SeqParseError::ExpectedIn, n < 2);
    }
    let (start_text, q) = match bound_exec(&f, 2) {
        None => {
            return failed(Some(ident), None, false, None, SeqParseError::ExpectedInteger, n <= 2);
        },
        Some(b) => b,
    };
    let dots = if q + 1 < n {
        match (punct_of(&f[q]), punct_of(&f[q + 1])) {
            (Some((c1, sp1)), Some((c2, _))) => c1 == '.' && sp1 == Spacing::Joint && c2 == '.',
            _ => false,
        }
    } else {
        false
    };
    proof {
        if q + 1 < n {
            assert(fv[q as int] == tree_view(f@[q as int]));
            assert(fv[q + 1] == tree_view(f@[q + 1]));
        }
    }
    if !dots {
        return failed(
            Some(ident),
            Some(start_text),
            false,
            None,
            SeqParseError::ExpectedDotDot,
            false,
        );
    }
    let inclusive = if q + 2 < n {
        match punct_of(&f[q + 2]) {
            Some((c, _)) => c == '=',
            None => false,
        }
    } else {
        false
    };
    proof {
        if q + 2 < n {
            assert(fv[q + 2] == tree_view(f@[q + 2]));
        }
    }
    let k: usize = if inclusive {
        q + 3
    } else {
        q + 2
    };
    let (end_text, r) = match bound_exec(&f, k) {
        None => {
            return failed(
                Some(ident),
                Some(start_text),
                inclusive,
                None,
                SeqParseError::ExpectedInteger,
                n <= k,
            );
        },
        Some(b) => b,
    };
    proof {
        if r < n {
            assert(fv[r as int] == tree_view(f@[r as int]));
        }
    }
    if r >= n || brace_of(&f[r]).is_none() {
        return failed(
            Some(ident),
            Some(start_text),
            inclusive,
            Some(end_text),
            SeqParseError::ExpectedBraces,
            n <= r,
        );
    }
    let tokens = copy_trees(brace_of(&f[r]).unwrap());
    let error = if n > r + 1 {
        Some(SeqParseError::UnexpectedToken)
    } else {
        None
    };
    SeqHeader {
        ident: Some(ident),
        start_text: Some(start_text),
        inclusive,
        end_text: Some(end_text),
        tokens,
        error,
        at_end: false,
    }
}

/// The error for a bound whose reading gave no value.
fn bound_error_exec(r: Result<u128, Option<String>>) -> (e: SeqError)
    requires
        r is Err,
    ensures
        e@ == bound_error(int_reading_view(r)),
{
    match r {
        Err(Some(m)) => SeqError::IntegerValue(m),
        _ => SeqError::Grammar(SeqParseError::ExpectedInteger),
    }
}

impl SeqMacro {
    /// The invocation with header `header`, given whether `syn` accepts its
    /// identifier and `syn`'s readings of its two bounds (`Err(None)` for a
    /// bound that is missing or is not an integer literal).
    pub fn from_header(
        header: SeqHeader,
        ident_ok: bool,
        start: Result<u128, Option<String>>,
        end: Result<u128, Option<String>>,
    ) -> (res: Result<SeqMacro, SeqError>)
        ensures
            outcome_view(res) == assemble_spec(
                header@,
                ident_ok,
                int_reading_view(start),
                int_reading_view(end),
            ),
    {
        let error = match header.error {
            Some(e) => if header.at_end {
                SeqError::EndOfInput(e)
            } else {
                SeqError::Grammar(e)
            },
            None => SeqError::Grammar(SeqParseError::UnexpectedToken),
        };
        let ident = match header.ident {
            Some(i) => i,
            None => {
                return Err(error);
            },
        };
        if !ident_ok {
            return Err(SeqError::Keyword(ident));
        }
        if header.start_text.is_none() {
            return Err(error);
        }
        let s = match start {
            Ok(s) => s,
            Err(m) => {
                return Err(bound_error_exec(Err(m)));
            },
        };
        if s > usize::MAX as u128 {
            return Err(SeqError::IntegerTooLarge);
        }
        if header.end_text.is_none() {
            return Err(error);
        }
        let e = match end {
            Ok(e) => e,
            Err(m) => {
                return Err(bound_error_exec(Err(m)));
            },
        };
        if e > usize::MAX as u128 {
            return Err(SeqError::IntegerTooLarge);
        }
        let s = s as usize;
        let e = e as usize;
        if header.inclusive && e == usize::MAX {
            return Err(SeqError::Grammar(SeqParseError::EndOverflow));
        }
        if header.error.is_some() {
            return Err(error);
        }
        let end = if header.inclusive {
            e + 1
        } else {
            e
        };
        Ok(SeqMacro { ident, start: s, end, tokens: header.tokens })
    }

    /// Reads the tokens `input` as an invocation `N in start..end { body }`
    /// or `N in start..=end { body }`. Whether `syn` accepts the identifier,
    /// and how it reads the two bounds, are asked of `syn`; the outcome is
    /// what [`SeqMacro::from_header`] gives for some such answers.
    pub fn parse(input: &Vec<TokenTree>) -> (res: Result<SeqMacro, SeqError>)
        ensures
            parse_outcome(trees_view(input@), outcome_view(res)),
    {
        let header = split_header(input);
        let ident_ok = match &header.ident {
            Some(s) => accepts_ident(s),
            None => false,
        };
        let start = match &header.start_text {
            Some(t) => parse_int_literal(t),
            None => Err(None),
        };
        let end = match &header.end_text {
            Some(t) => parse_int_literal(t),
            None => Err(None),
        };
        let ghost h = header@;
        let ghost sv = int_reading_view(start);
        let ghost ev = int_reading_view(end);
        let res = SeqMacro::from_header(header, ident_ok, start, end);
        proof {
            assert(assemble_spec(h, ident_ok, sv, ev) == outcome_view(res));
            assert(bound_reading_fits(h.start_text, sv));
            assert(bound_reading_fits(h.end_text, ev));
            assert(ident_reading_fits(h.ident, ident_ok));
        }
        res
    }

    /// Whether the invocation expands without a refused paste: a `~` after
    /// an identifier must be followed by an identifier.
    pub fn can_expand(&self) -> (r: bool)
        ensures
            r == expansion_ok(self@.body, self@.ident, self@.start, self@.end),
    {
        if contains_block(&self.tokens) {
            check_blocks(&self.tokens, &self.ident, self.start < self.end)
        } else {
            self.start >= self.end || check_pastes(&self.tokens, &self.ident)
        }
    }

    /// Appends the expansion of the invocation to `tokens`.
    pub fn to_tokens(&self, tokens: &mut Vec<TokenTree>)
        requires
            expansion_ok(self@.body, self@.ident, self@.start, self@.end),
        ensures
            trees_view(final(tokens)@) == trees_view(old(tokens)@) + expansion_spec(
                self@.body,
                self@.ident,
                self@.start,
                self@.end,
            ),
    {
        if contains_block(&self.tokens) {
            let mut stream = walk(&self.tokens, &self.ident, self.start, self.end);
            let ghost before = tokens@;
            let ghost added = stream@;
            tokens.append(&mut stream);
            proof {
                lemma_trees_view_concat(before, added);
            }
        } else {
            repeat_into(&self.tokens, &self.ident, self.start, self.end, tokens);
        }
    }
}

} // verus!
