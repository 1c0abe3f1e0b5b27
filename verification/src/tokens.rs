//! Token trees as plain values, and their mathematical model.
//!
//! A `TokenTree` is an identifier, a punctuation character, a literal (kept
//! as its source text) or a delimited group of further trees. `Tok` is the
//! same shape built from sequences, in which contracts are stated.

use vstd::prelude::*;

verus! {

/// How a group is delimited. `Invisible` marks a group without visible
/// delimiters, as left by a substituted macro fragment.
#[derive(Debug, Clone, Copy, PartialEq, Eq, Structural)]
pub enum Delimiter {
    Parenthesis,
    Brace,
    Bracket,
    Invisible,
}

/// Whether a punctuation character is joined to the one that follows it.
#[derive(Debug, Clone, Copy, PartialEq, Eq, Structural)]
pub enum Spacing {
    Alone,
    Joint,
}

/// A token tree.
#[derive(Debug, PartialEq, Eq)]
pub enum TokenTree {
    Group(Delimiter, Vec<TokenTree>),
    Ident(String),
    Punct(char, Spacing),
    Literal(String),
}

/// The mathematical model of a token tree.
pub enum Tok {
    Group(Delimiter, Seq<Tok>),
    Ident(Seq<char>),
    Punct(char, Spacing),
    Literal(Seq<char>),
}

/// The model of one token tree.
pub open spec fn tree_view(t: TokenTree) -> Tok
    decreases t,
{
    match t {
        TokenTree::Group(d, ts) => Tok::Group(d, trees_view(ts@)),
        TokenTree::Ident(s) => Tok::Ident(s@),
        TokenTree::Punct(c, sp) => Tok::Punct(c, sp),
        TokenTree::Literal(s) => Tok::Literal(s@),
    }
}

/// The model of a sequence of token trees, element by element.
pub open spec fn trees_view(s: Seq<TokenTree>) -> Seq<Tok>
    decreases s,
{
    if s.len() == 0 {
        Seq::empty()
    } else {
        seq![tree_view(s[0])] + trees_view(s.subrange(1, s.len() as int))
    }
}

pub broadcast proof fn lemma_trees_view_len(s: Seq<TokenTree>)
    ensures
        #[trigger] trees_view(s).len() == s.len(),
    decreases s.len(),
{
    if s.len() > 0 {
        lemma_trees_view_len(s.subrange(1, s.len() as int));
    }
}

pub broadcast proof fn lemma_trees_view_index(s: Seq<TokenTree>, i: int)
    requires
        0 <= i < s.len(),
    ensures
        #[trigger] trees_view(s)[i] == tree_view(s[i]),
    decreases s.len(),
{
    lemma_trees_view_len(s.subrange(1, s.len() as int));
    if i > 0 {
        lemma_trees_view_index(s.subrange(1, s.len() as int), i - 1);
    }
}

pub broadcast group group_trees_view {
    lemma_trees_view_len,
    lemma_trees_view_index,
}

pub proof fn lemma_trees_view_push(s: Seq<TokenTree>, t: TokenTree)
    ensures
        trees_view(s.push(t)) == trees_view(s).push(tree_view(t)),
{
    broadcast use group_trees_view;

    assert(trees_view(s.push(t)) =~= trees_view(s).push(tree_view(t)));
}

pub proof fn lemma_trees_view_concat(a: Seq<TokenTree>, b: Seq<TokenTree>)
    ensures
        trees_view(a + b) == trees_view(a) + trees_view(b),
{
    broadcast use group_trees_view;

    assert(trees_view(a + b) =~= trees_view(a) + trees_view(b));
}

pub proof fn lemma_trees_view_skip(s: Seq<TokenTree>, k: int)
    requires
        0 <= k <= s.len(),
    ensures
        trees_view(s.subrange(k, s.len() as int)) == trees_view(s).subrange(k, s.len() as int),
{
    broadcast use group_trees_view;

    assert(trees_view(s.subrange(k, s.len() as int)) =~= trees_view(s).subrange(k, s.len() as int));
}

/// The opening text of a group with delimiter `d`; none when invisible.
pub open spec fn open_text(d: Delimiter) -> Seq<char> {
    match d {
        Delimiter::Parenthesis => seq!['('],
        Delimiter::Brace => seq!['{'],
        Delimiter::Bracket => seq!['['],
        Delimiter::Invisible => Seq::empty(),
    }
}

/// The closing text of a group with delimiter `d`; none when invisible.
pub open spec fn close_text(d: Delimiter) -> Seq<char> {
    match d {
        Delimiter::Parenthesis => seq![')'],
        Delimiter::Brace => seq!['}'],
        Delimiter::Bracket => seq![']'],
        Delimiter::Invisible => Seq::empty(),
    }
}

/// The source text of the trees `s`: each tree's text, followed by a space
/// unless it is a punctuation character joined to the next one.
pub open spec fn trees_text(s: Seq<Tok>) -> Seq<char>
    decreases s,
{
    if s.len() == 0 {
        Seq::empty()
    } else {
        let tail = s.subrange(1, s.len() as int);
        match s[0] {
            Tok::Group(d, inner) => open_text(d) + trees_text(inner) + close_text(d) + seq![' ']
                + trees_text(tail),
            Tok::Ident(x) => x + seq![' '] + trees_text(tail),
            Tok::Literal(x) => x + seq![' '] + trees_text(tail),
            Tok::Punct(c, Spacing::Joint) => seq![c] + trees_text(tail),
            Tok::Punct(c, Spacing::Alone) => seq![c, ' '] + trees_text(tail),
        }
    }
}

fn push_open(out: &mut String, d: Delimiter)
    ensures
        final(out)@ == old(out)@ + open_text(d),
{
    match d {
        Delimiter::Parenthesis => push_char(out, '('),
        Delimiter::Brace => push_char(out, '{'),
        Delimiter::Bracket => push_char(out, '['),
        Delimiter::Invisible => {
            assert(out@ =~= out@ + open_text(d));
        },
    }
}

fn push_close(out: &mut String, d: Delimiter)
    ensures
        final(out)@ == old(out)@ + close_text(d),
{
    match d {
        Delimiter::Parenthesis => push_char(out, ')'),
        Delimiter::Brace => push_char(out, '}'),
        Delimiter::Bracket => push_char(out, ']'),
        Delimiter::Invisible => {
            assert(out@ =~= out@ + close_text(d));
        },
    }
}

/// Appends the source text of the trees `ts` to `out`.
pub fn write_trees(ts: &Vec<TokenTree>, out: &mut String)
    ensures
        final(out)@ == old(out)@ + trees_text(trees_view(ts@)),
    decreases ts,
{
    broadcast use group_trees_view;

    let ghost s = trees_view(ts@);
    let ghost len = ts@.len();
    let ghost start = out@;
    let mut i: usize = 0;
    proof {
        assert(s.len() == len);
        assert(s.subrange(0, len as int) =~= s);
    }
    while i < ts.len()
        invariant
            i <= len,
            len == ts@.len(),
            s == trees_view(ts@),
            s.len() == len,
            out@ + trees_text(s.subrange(i as int, len as int)) == start + trees_text(s),
        decreases len - i,
    {
        let ghost before = out@;
        let ghost sub = s.subrange(i as int, len as int);
        let ghost rest = s.subrange(i + 1, len as int);
        proof {
            assert(sub.subrange(1, sub.len() as int) =~= rest);
            assert(sub[0] == s[i as int]);
            lemma_trees_view_index(ts@, i as int);
        }
        match &ts[i] {
            TokenTree::Group(d, inner) => {
                push_open(out, *d);
                proof {
                    assert(decreases_to!(ts => ts@[i as int]));
                }
                write_trees(inner, out);
                push_close(out, *d);
                push_char(out, ' ');
                proof {
                    assert(out@ + trees_text(rest) =~= before + trees_text(sub));
                }
            },
            TokenTree::Ident(x) => {
                push_str(out, x.as_str());
                push_char(out, ' ');
                proof {
                    assert(out@ + trees_text(rest) =~= before + trees_text(sub));
                }
            },
            TokenTree::Literal(x) => {
                push_str(out, x.as_str());
                push_char(out, ' ');
                proof {
                    assert(out@ + trees_text(rest) =~= before + trees_text(sub));
                }
            },
            TokenTree::Punct(c, sp) => {
                push_char(out, *c);
                match sp {
                    Spacing::Joint => {},
                    Spacing::Alone => push_char(out, ' '),
                }
                proof {
                    assert(out@ + trees_text(rest) =~= before + trees_text(sub));
                }
            },
        }
        i = i + 1;
    }
    proof {
        assert(s.subrange(len as int, len as int) =~= Seq::<Tok>::empty());
        assert(out@ =~= out@ + trees_text(Seq::<Tok>::empty()));
    }
}

/// The source text of the trees `ts`.
pub fn tokens_text(ts: &Vec<TokenTree>) -> (r: String)
    ensures
        r@ == trees_text(trees_view(ts@)),
{
    let mut out = String::new();
    write_trees(ts, &mut out);
    proof {
        assert(out@ =~= trees_text(trees_view(ts@)));
    }
    out
}

/// The character of a decimal digit.
pub open spec fn digit_char(d: nat) -> char {
    (48 + d) as char
}

/// The decimal numeral of `n`, without sign or leading zeros.
pub open spec fn decimal(n: nat) -> Seq<char>
    decreases n,
{
    if n < 10 {
        seq![digit_char(n)]
    } else {
        decimal(n / 10).push(digit_char(n % 10))
    }
}

/// Calls `String::push`, which appends the character `c` to `s`; the
/// contract states exactly that.
#[verifier::external_body]
pub(crate) fn push_char(s: &mut String, c: char)
    ensures
        final(s)@ == old(s)@.push(c),
{
    s.push(c)
}

/// Appends the characters of `t` to `s`.
pub(crate) fn push_str(s: &mut String, t: &str)
    ensures
        final(s)@ == old(s)@ + t@,
{
    let ghost start = s@;
    let n = t.unicode_len();
    let mut i: usize = 0;
    while i < n
        invariant
            n == t@.len(),
            i <= n,
            s@ == start + t@.subrange(0, i as int),
        decreases n - i,
    {
        let c = t.get_char(i);
        push_char(s, c);
        proof {
            assert(t@.subrange(0, i + 1) =~= t@.subrange(0, i as int).push(c));
        }
        i = i + 1;
    }
    proof {
        assert(t@.subrange(0, n as int) =~= t@);
    }
}

/// The decimal numeral of `n`.
pub fn decimal_string(n: usize) -> (s: String)
    ensures
        s@ == decimal(n as nat),
    decreases n,
{
    let d = (n % 10) as u8;
    let c = (48u8 + d) as char;
    if n < 10 {
        let mut s = String::new();
        push_char(&mut s, c);
        proof {
            assert(s@ =~= seq![digit_char(n as nat)]);
        }
        s
    } else {
        let mut s = decimal_string(n / 10);
        push_char(&mut s, c);
        s
    }
}

/// A copy of `t`.
pub fn copy_tree(t: &TokenTree) -> (r: TokenTree)
    ensures
        tree_view(r) == tree_view(*t),
    decreases t,
{
    match t {
        TokenTree::Group(d, ts) => TokenTree::Group(*d, copy_trees(ts)),
        TokenTree::Ident(s) => TokenTree::Ident(s.clone()),
        TokenTree::Punct(c, sp) => TokenTree::Punct(*c, *sp),
        TokenTree::Literal(s) => TokenTree::Literal(s.clone()),
    }
}

/// A copy of `ts`.
pub fn copy_trees(ts: &Vec<TokenTree>) -> (r: Vec<TokenTree>)
    ensures
        trees_view(r@) == trees_view(ts@),
    decreases ts,
{
    broadcast use group_trees_view;

    let mut r: Vec<TokenTree> = Vec::new();
    let mut i: usize = 0;
    while i < ts.len()
        invariant
            i <= ts@.len(),
            r@.len() == i,
            forall|j: int| 0 <= j < i ==> #[trigger] tree_view(r@[j]) == tree_view(ts@[j]),
        decreases ts@.len() - i,
    {
        proof {
            assert(decreases_to!(ts => ts@[i as int]));
        }
        let c = copy_tree(&ts[i]);
        r.push(c);
        i = i + 1;
    }
    proof {
        assert(trees_view(r@) =~= trees_view(ts@));
    }
    r
}

} // verus!
