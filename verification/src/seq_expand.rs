//! Repetition of a token body over a range of numbers.
//!
//! An invocation reads `N in start..end { body }` (or `..=end`). Without a
//! repetition block the body is emitted once for each `n` in the range, with
//! every identifier `N` replaced by the literal `n` and every pasted
//! identifier `prefix~N` by `prefix` followed by the digits of `n`. With a
//! block `#( ... )*` somewhere in the body, the body is emitted once and
//! only each block is repeated over the range.

use vstd::prelude::*;
use crate::syntax::decimal_value;
use crate::tokens::{
    Delimiter, Spacing, Tok, TokenTree, tree_view, trees_view, decimal, decimal_string, copy_tree,
    group_trees_view, lemma_trees_view_push, lemma_trees_view_concat,
};

verus! {

broadcast use group_trees_view;

/// `t` is the punctuation character `c`.
pub open spec fn is_punct(t: Tok, c: char) -> bool {
    match t {
        Tok::Punct(pc, _) => pc == c,
        _ => false,
    }
}

/// `t` is an identifier.
pub open spec fn is_ident(t: Tok) -> bool {
    match t {
        Tok::Ident(_) => true,
        _ => false,
    }
}

/// The text of identifier `t`.
pub open spec fn ident_text(t: Tok) -> Seq<char> {
    match t {
        Tok::Ident(s) => s,
        _ => Seq::empty(),
    }
}

/// `s` without its first `k` trees (empty when `k` exceeds its length).
pub open spec fn drop(s: Seq<Tok>, k: int) -> Seq<Tok> {
    if k <= s.len() {
        s.subrange(k, s.len() as int)
    } else {
        Seq::empty()
    }
}

/// The body `s` with the number `n` put in for `ident`: `ident` becomes the
/// literal `n`; an identifier followed by `~` and an identifier becomes the
/// two joined, where a second part equal to `ident` stands for the digits of
/// `n`; groups are rewritten inside.
pub open spec fn replace_spec(s: Seq<Tok>, ident: Seq<char>, n: nat) -> Seq<Tok>
    decreases s,
{
    if s.len() == 0 {
        Seq::empty()
    } else {
        let tail = s.subrange(1, s.len() as int);
        match s[0] {
            Tok::Ident(i) => {
                if i == ident {
                    seq![Tok::Literal(decimal(n))] + replace_spec(tail, ident, n)
                } else if s.len() >= 3 && is_punct(s[1], '~') && is_ident(s[2]) {
                    let second = ident_text(s[2]);
                    let joined = if second == ident {
                        i + decimal(n)
                    } else {
                        i + second
                    };
                    seq![Tok::Ident(joined)] + replace_spec(s.subrange(3, s.len() as int), ident, n)
                } else {
                    seq![s[0]] + replace_spec(tail, ident, n)
                }
            },
            Tok::Group(d, inner) => seq![Tok::Group(d, replace_spec(inner, ident, n))]
                + replace_spec(tail, ident, n),
            _ => seq![s[0]] + replace_spec(tail, ident, n),
        }
    }
}

/// Every `~` that follows an identifier other than `ident` in `s` is itself
/// followed by an identifier (otherwise the substitution is refused).
pub open spec fn pastes_ok(s: Seq<Tok>, ident: Seq<char>) -> bool
    decreases s,
{
    if s.len() == 0 {
        true
    } else {
        let tail = s.subrange(1, s.len() as int);
        match s[0] {
            Tok::Ident(i) => {
                if i == ident {
                    pastes_ok(tail, ident)
                } else if s.len() >= 2 && is_punct(s[1], '~') {
                    s.len() >= 3 && is_ident(s[2]) && pastes_ok(s.subrange(3, s.len() as int), ident)
                } else {
                    pastes_ok(tail, ident)
                }
            },
            Tok::Group(_, inner) => pastes_ok(inner, ident) && pastes_ok(tail, ident),
            _ => pastes_ok(tail, ident),
        }
    }
}

/// The body `g` substituted for each `n` from `start` up to, not including,
/// `end`, one copy after another.
pub open spec fn repeat_spec(g: Seq<Tok>, ident: Seq<char>, start: nat, end: nat) -> Seq<Tok>
    decreases end - start,
{
    if start >= end {
        Seq::empty()
    } else {
        replace_spec(g, ident, start) + repeat_spec(g, ident, start + 1, end)
    }
}

/// The parenthesized group `t`, as `Some(contents)`.
pub open spec fn paren_contents(t: Tok) -> Option<Seq<Tok>> {
    match t {
        Tok::Group(Delimiter::Parenthesis, inner) => Some(inner),
        _ => None,
    }
}

/// `s` holds a repetition block: a `#` followed directly by a parenthesized
/// group. The tree right after each `#` is not searched.
pub open spec fn contains_block_spec(s: Seq<Tok>) -> bool
    decreases s,
{
    if s.len() == 0 {
        false
    } else {
        let tail = s.subrange(1, s.len() as int);
        match s[0] {
            Tok::Punct(c, _) => {
                if c == '#' {
                    if s.len() >= 2 {
                        if paren_contents(s[1]) is Some {
                            true
                        } else {
                            contains_block_spec(s.subrange(2, s.len() as int))
                        }
                    } else {
                        false
                    }
                } else {
                    contains_block_spec(tail)
                }
            },
            Tok::Group(_, inner) => contains_block_spec(inner) || contains_block_spec(tail),
            _ => contains_block_spec(tail),
        }
    }
}

/// The body `s` with each block `#( g )` and the tree after it replaced by
/// `g` repeated over the range; everything else is kept, groups rewritten
/// inside.
pub open spec fn walk_spec(s: Seq<Tok>, ident: Seq<char>, start: nat, end: nat) -> Seq<Tok>
    decreases s,
{
    if s.len() == 0 {
        Seq::empty()
    } else {
        let tail = s.subrange(1, s.len() as int);
        match s[0] {
            Tok::Group(d, inner) => seq![Tok::Group(d, walk_spec(inner, ident, start, end))]
                + walk_spec(tail, ident, start, end),
            _ => {
                if is_punct(s[0], '#') && s.len() >= 2 && paren_contents(s[1]) is Some {
                    repeat_spec(paren_contents(s[1])->0, ident, start, end) + if s.len() >= 3 {
                        walk_spec(s.subrange(3, s.len() as int), ident, start, end)
                    } else {
                        Seq::empty()
                    }
                } else {
                    seq![s[0]] + walk_spec(tail, ident, start, end)
                }
            },
        }
    }
}

/// When the range is not empty, every block of `s` passes `pastes_ok`.
pub open spec fn walk_ok(s: Seq<Tok>, ident: Seq<char>, nonempty: bool) -> bool
    decreases s,
{
    if s.len() == 0 {
        true
    } else {
        let tail = s.subrange(1, s.len() as int);
        match s[0] {
            Tok::Group(_, inner) => walk_ok(inner, ident, nonempty) && walk_ok(tail, ident, nonempty),
            _ => {
                if is_punct(s[0], '#') && s.len() >= 2 && paren_contents(s[1]) is Some {
                    (nonempty ==> pastes_ok(paren_contents(s[1])->0, ident)) && (s.len() >= 3
                        ==> walk_ok(s.subrange(3, s.len() as int), ident, nonempty))
                } else {
                    walk_ok(tail, ident, nonempty)
                }
            },
        }
    }
}

/// The output of an invocation with body `body`.
pub open spec fn expansion_spec(body: Seq<Tok>, ident: Seq<char>, start: nat, end: nat) -> Seq<Tok> {
    if contains_block_spec(body) {
        walk_spec(body, ident, start, end)
    } else {
        repeat_spec(body, ident, start, end)
    }
}

/// The invocation with body `body` can be expanded without a refused paste.
pub open spec fn expansion_ok(body: Seq<Tok>, ident: Seq<char>, start: nat, end: nat) -> bool {
    if contains_block_spec(body) {
        walk_ok(body, ident, start < end)
    } else {
        start < end ==> pastes_ok(body, ident)
    }
}

proof fn lemma_drop_step(s: Seq<TokenTree>, i: int, k: int)
    requires
        0 <= i,
        i + k <= s.len(),
        0 <= k,
    ensures
        trees_view(s).subrange(i, s.len() as int).subrange(k, s.len() - i) == trees_view(s).subrange(
            i + k,
            s.len() as int,
        ),
{
    assert(trees_view(s).subrange(i, s.len() as int).subrange(k, s.len() - i) =~= trees_view(s).subrange(
        i + k,
        s.len() as int,
    ));
}

fn is_tilde(t: &TokenTree) -> (r: bool)
    ensures
        r == is_punct(tree_view(*t), '~'),
{
    match t {
        TokenTree::Punct(c, _) => *c == '~',
        _ => false,
    }
}

/// The body `input` with the number `n` put in for `ident`.
pub fn replace(input: &Vec<TokenTree>, ident: &String, n: usize) -> (out: Vec<TokenTree>)
    requires
        pastes_ok(trees_view(input@), ident@),
    ensures
        trees_view(out@) == replace_spec(trees_view(input@), ident@, n as nat),
    decreases input,
{
    let ghost s = trees_view(input@);
    let ghost len = input@.len();
    let mut out: Vec<TokenTree> = Vec::new();
    let mut i: usize = 0;
    proof {
        assert(s.subrange(0, len as int) =~= s);
        assert(trees_view(out@) =~= Seq::<Tok>::empty());
    }
    while i < input.len()
        invariant
            i <= len,
            len == input@.len(),
            s == trees_view(input@),
            pastes_ok(s.subrange(i as int, len as int), ident@),
            replace_spec(s, ident@, n as nat) == trees_view(out@) + replace_spec(
                s.subrange(i as int, len as int),
                ident@,
                n as nat,
            ),
        decreases len - i,
    {
        let ghost t = s.subrange(i as int, len as int);
        let ghost out_before = out@;
        proof {
            assert(t[0] == tree_view(input@[i as int]));
            lemma_drop_step(input@, i as int, 1);
            if i + 1 < len {
                assert(t[1] == tree_view(input@[i + 1]));
            }
            if i + 2 < len {
                assert(t[2] == tree_view(input@[i + 2]));
                lemma_drop_step(input@, i as int, 3);
            }
        }
        let step: usize;
        match &input[i] {
            TokenTree::Ident(name) => {
                if *name == *ident {
                    out.push(TokenTree::Literal(decimal_string(n)));
                    step = 1;
                } else if i + 1 < input.len() && is_tilde(&input[i + 1]) {
                    match &input[i + 2] {
                        TokenTree::Ident(second) => {
                            let mut joined = name.clone();
                            if *second == *ident {
                                let digits = decimal_string(n);
                                joined.append(digits.as_str());
                            } else {
                                joined.append(second.as_str());
                            }
                            out.push(TokenTree::Ident(joined));
                        },
                        other => {
                            proof {
                                assert(false);
                            }
                            out.push(copy_tree(other));
                        },
                    }
                    step = 3;
                } else {
                    out.push(TokenTree::Ident(name.clone()));
                    step = 1;
                }
            },
            TokenTree::Group(d, inner) => {
                proof {
                    assert(decreases_to!(input => input@[i as int]));
                }
                let r = replace(inner, ident, n);
                out.push(TokenTree::Group(*d, r));
                step = 1;
            },
            other => {
                out.push(copy_tree(other));
                step = 1;
            },
        }
        proof {
            lemma_trees_view_push(out_before, out@.last());
            assert(out@ == out_before.push(out@.last()));
            assert(s.subrange(i + step, len as int) == t.subrange(step as int, t.len() as int));
        }
        i = i + step;
    }
    out
}

/// Whether `pastes_ok` holds of `input`.
pub fn check_pastes(input: &Vec<TokenTree>, ident: &String) -> (r: bool)
    ensures
        r == pastes_ok(trees_view(input@), ident@),
    decreases input,
{
    let ghost s = trees_view(input@);
    let ghost len = input@.len();
    let mut i: usize = 0;
    proof {
        assert(s.subrange(0, len as int) =~= s);
    }
    while i < input.len()
        invariant
            i <= len,
            len == input@.len(),
            s == trees_view(input@),
            pastes_ok(s, ident@) == pastes_ok(s.subrange(i as int, len as int), ident@),
        decreases len - i,
    {
        let ghost t = s.subrange(i as int, len as int);
        proof {
            assert(t[0] == tree_view(input@[i as int]));
            lemma_drop_step(input@, i as int, 1);
            if i + 1 < len {
                assert(t[1] == tree_view(input@[i + 1]));
            }
            if i + 2 < len {
                assert(t[2] == tree_view(input@[i + 2]));
                lemma_drop_step(input@, i as int, 3);
            }
        }
        match &input[i] {
            TokenTree::Ident(name) => {
                if *name == *ident {
                    i = i + 1;
                } else if i + 1 < input.len() && is_tilde(&input[i + 1]) {
                    if i + 2 < input.len() {
                        match &input[i + 2] {
                            TokenTree::Ident(_) => {
                                i = i + 3;
                            },
                            _ => {
                                return false;
                            },
                        }
                    } else {
                        return false;
                    }
                } else {
                    i = i + 1;
                }
            },
            TokenTree::Group(_, inner) => {
                proof {
                    assert(decreases_to!(input => input@[i as int]));
                }
                if !check_pastes(inner, ident) {
                    return false;
                }
                i = i + 1;
            },
            _ => {
                i = i + 1;
            },
        }
    }
    true
}

/// Appends to `out` the body `g` substituted for each `n` from `start` up
/// to, not including, `end`.
pub fn repeat_into(g: &Vec<TokenTree>, ident: &String, start: usize, end: usize, out: &mut Vec<TokenTree>)
    requires
        start < end ==> pastes_ok(trees_view(g@), ident@),
    ensures
        trees_view(final(out)@) == trees_view(old(out)@) + repeat_spec(
            trees_view(g@),
            ident@,
            start as nat,
            end as nat,
        ),
{
    let ghost before = trees_view(out@);
    let ghost gv = trees_view(g@);
    let mut n = start;
    proof {
        assert(trees_view(out@) + repeat_spec(gv, ident@, start as nat, end as nat) =~= before
            + repeat_spec(gv, ident@, start as nat, end as nat));
    }
    while n < end
        invariant
            start <= n,
            start < end ==> pastes_ok(gv, ident@),
            gv == trees_view(g@),
            trees_view(out@) + repeat_spec(gv, ident@, n as nat, end as nat) == before + repeat_spec(
                gv,
                ident@,
                start as nat,
                end as nat,
            ),
        decreases end - n,
    {
        let mut r = replace(g, ident, n);
        let ghost out_before = out@;
        let ghost r_before = r@;
        out.append(&mut r);
        proof {
            lemma_trees_view_concat(out_before, r_before);
            assert(trees_view(out@) + repeat_spec(gv, ident@, (n + 1) as nat, end as nat) =~= trees_view(
                out_before,
            ) + repeat_spec(gv, ident@, n as nat, end as nat));
        }
        n = n + 1;
    }
    proof {
        assert(trees_view(out@) =~= before + repeat_spec(gv, ident@, start as nat, end as nat));
    }
}

fn paren_group(t: &TokenTree) -> (r: Option<&Vec<TokenTree>>)
    ensures
        r matches Some(g) ==> paren_contents(tree_view(*t)) == Some(trees_view(g@)),
        r is None ==> paren_contents(tree_view(*t)) is None,
{
    match t {
        TokenTree::Group(Delimiter::Parenthesis, g) => Some(g),
        _ => None,
    }
}

fn is_hash(t: &TokenTree) -> (r: bool)
    ensures
        r == is_punct(tree_view(*t), '#'),
{
    match t {
        TokenTree::Punct(c, _) => *c == '#',
        _ => false,
    }
}

/// Whether the body `input` holds a repetition block.
pub fn contains_block(input: &Vec<TokenTree>) -> (r: bool)
    ensures
        r == contains_block_spec(trees_view(input@)),
    decreases input,
{
    let ghost s = trees_view(input@);
    let ghost len = input@.len();
    let mut i: usize = 0;
    proof {
        assert(s.subrange(0, len as int) =~= s);
    }
    while i < input.len()
        invariant
            i <= len,
            len == input@.len(),
            s == trees_view(input@),
            contains_block_spec(s) == contains_block_spec(s.subrange(i as int, len as int)),
        decreases len - i,
    {
        let ghost t = s.subrange(i as int, len as int);
        proof {
            assert(t[0] == tree_view(input@[i as int]));
            lemma_drop_step(input@, i as int, 1);
            if i + 1 < len {
                assert(t[1] == tree_view(input@[i + 1]));
                lemma_drop_step(input@, i as int, 2);
            }
        }
        match &input[i] {
            TokenTree::Group(_, inner) => {
                proof {
                    assert(decreases_to!(input => input@[i as int]));
                }
                if contains_block(inner) {
                    return true;
                }
                i = i + 1;
            },
            other => {
                if is_hash(other) {
                    if i + 1 < input.len() {
                        if paren_group(&input[i + 1]).is_some() {
                            return true;
                        }
                        i = i + 2;
                    } else {
                        return false;
                    }
                } else {
                    i = i + 1;
                }
            },
        }
    }
    proof {
        assert(s.subrange(len as int, len as int) =~= Seq::<Tok>::empty());
    }
    false
}

/// The body `input` with each repetition block expanded over the range.
pub fn walk(input: &Vec<TokenTree>, ident: &String, start: usize, end: usize) -> (out: Vec<TokenTree>)
    requires
        walk_ok(trees_view(input@), ident@, start < end),
    ensures
        trees_view(out@) == walk_spec(trees_view(input@), ident@, start as nat, end as nat),
    decreases input,
{
    let ghost s = trees_view(input@);
    let ghost len = input@.len();
    let mut out: Vec<TokenTree> = Vec::new();
    let mut i: usize = 0;
    proof {
        assert(s.subrange(0, len as int) =~= s);
        assert(trees_view(out@) =~= Seq::<Tok>::empty());
    }
    while i < input.len()
        invariant
            i <= len,
            len == input@.len(),
            s == trees_view(input@),
            walk_ok(s.subrange(i as int, len as int), ident@, start < end),
            walk_spec(s, ident@, start as nat, end as nat) == trees_view(out@) + walk_spec(
                s.subrange(i as int, len as int),
                ident@,
                start as nat,
                end as nat,
            ),
        decreases len - i,
    {
        let ghost t = s.subrange(i as int, len as int);
        let ghost out_before = out@;
        proof {
            assert(t[0] == tree_view(input@[i as int]));
            lemma_drop_step(input@, i as int, 1);
            if i + 1 < len {
                assert(t[1] == tree_view(input@[i + 1]));
                lemma_drop_step(input@, i as int, 2);
            }
            if i + 2 < len {
                lemma_drop_step(input@, i as int, 3);
            }
        }
        match &input[i] {
            TokenTree::Group(d, inner) => {
                proof {
                    assert(decreases_to!(input => input@[i as int]));
                }
                let r = walk(inner, ident, start, end);
                out.push(TokenTree::Group(*d, r));
                proof {
                    lemma_trees_view_push(out_before, out@.last());
                    assert(out@ == out_before.push(out@.last()));
                }
                i = i + 1;
            },
            other => {
                let block = if is_hash(other) && i + 1 < input.len() {
                    paren_group(&input[i + 1])
                } else {
                    None
                };
                match block {
                    Some(g) => {
                        repeat_into(g, ident, start, end, &mut out);
                        if i + 2 < input.len() {
                            i = i + 3;
                        } else {
                            proof {
                                assert(s.subrange(len as int, len as int) =~= Seq::<Tok>::empty());
                            }
                            i = i + 2;
                        }
                    },
                    None => {
                        out.push(copy_tree(other));
                        proof {
                            lemma_trees_view_push(out_before, out@.last());
                            assert(out@ == out_before.push(out@.last()));
                        }
                        i = i + 1;
                    },
                }
            },
        }
    }
    proof {
        assert(s.subrange(len as int, len as int) =~= Seq::<Tok>::empty());
        assert(trees_view(out@) + Seq::<Tok>::empty() =~= trees_view(out@));
    }
    out
}

/// Whether `walk_ok` holds of `input`.
pub fn check_blocks(input: &Vec<TokenTree>, ident: &String, nonempty: bool) -> (r: bool)
    ensures
        r == walk_ok(trees_view(input@), ident@, nonempty),
    decreases input,
{
    let ghost s = trees_view(input@);
    let ghost len = input@.len();
    let mut i: usize = 0;
    proof {
        assert(s.subrange(0, len as int) =~= s);
    }
    while i < input.len()
        invariant
            i <= len,
            len == input@.len(),
            s == trees_view(input@),
            walk_ok(s, ident@, nonempty) == walk_ok(s.subrange(i as int, len as int), ident@, nonempty),
        decreases len - i,
    {
        let ghost t = s.subrange(i as int, len as int);
        proof {
            assert(t[0] == tree_view(input@[i as int]));
            lemma_drop_step(input@, i as int, 1);
            if i + 1 < len {
                assert(t[1] == tree_view(input@[i + 1]));
                lemma_drop_step(input@, i as int, 2);
            }
            if i + 2 < len {
                lemma_drop_step(input@, i as int, 3);
            }
        }
        match &input[i] {
            TokenTree::Group(_, inner) => {
                proof {
                    assert(decreases_to!(input => input@[i as int]));
                }
                if !check_blocks(inner, ident, nonempty) {
                    return false;
                }
                i = i + 1;
            },
            other => {
                let block = if is_hash(other) && i + 1 < input.len() {
                    paren_group(&input[i + 1])
                } else {
                    None
                };
                match block {
                    Some(g) => {
                        if nonempty && !check_pastes(g, ident) {
                            return false;
                        }
                        if i + 2 < input.len() {
                            i = i + 3;
                        } else {
                            proof {
                                assert(s.subrange(len as int, len as int) =~= Seq::<Tok>::empty());
                            }
                            i = i + 2;
                        }
                    },
                    None => {
                        i = i + 1;
                    },
                }
            },
        }
    }
    proof {
        assert(s.subrange(len as int, len as int) =~= Seq::<Tok>::empty());
    }
    true
}

/// `s` holds, at no depth, the identifier `ident` or a `~`.
pub open spec fn free_of(s: Seq<Tok>, ident: Seq<char>) -> bool
    decreases s,
{
    if s.len() == 0 {
        true
    } else {
        let tail = s.subrange(1, s.len() as int);
        match s[0] {
            Tok::Ident(i) => i != ident && free_of(tail, ident),
            Tok::Punct(c, _) => c != '~' && free_of(tail, ident),
            Tok::Group(_, inner) => free_of(inner, ident) && free_of(tail, ident),
            _ => free_of(tail, ident),
        }
    }
}

/// `s` holds no `#` at any depth.
pub open spec fn free_of_hash(s: Seq<Tok>) -> bool
    decreases s,
{
    if s.len() == 0 {
        true
    } else {
        let tail = s.subrange(1, s.len() as int);
        match s[0] {
            Tok::Group(_, inner) => free_of_hash(inner) && free_of_hash(tail),
            _ => !is_punct(s[0], '#') && free_of_hash(tail),
        }
    }
}

/// Law: a body without any `#`, at any depth, goes through the search for
/// repetition blocks unchanged: same tokens, same groups, and the
/// identifier not replaced.
pub proof fn law_walk_without_hash(s: Seq<Tok>, ident: Seq<char>, start: nat, end: nat)
    requires
        free_of_hash(s),
    ensures
        walk_spec(s, ident, start, end) == s,
    decreases s,
{
    if s.len() > 0 {
        let tail = s.subrange(1, s.len() as int);
        law_walk_without_hash(tail, ident, start, end);
        assert(s =~= seq![s[0]] + tail);
        match s[0] {
            Tok::Group(d, inner) => {
                law_walk_without_hash(inner, ident, start, end);
            },
            _ => {},
        }
    } else {
        assert(s =~= Seq::<Tok>::empty());
    }
}

/// `k` copies of `g`, one after another.
pub open spec fn copies(g: Seq<Tok>, k: nat) -> Seq<Tok>
    decreases k,
{
    if k == 0 {
        Seq::empty()
    } else {
        g + copies(g, (k - 1) as nat)
    }
}

/// Law: substitution leaves alone a body that holds neither the identifier
/// nor a `~`.
pub proof fn law_replace_free_body(s: Seq<Tok>, ident: Seq<char>, n: nat)
    requires
        free_of(s, ident),
    ensures
        replace_spec(s, ident, n) == s,
    decreases s,
{
    reveal_with_fuel(free_of, 2);
    if s.len() == 0 {
        assert(s =~= Seq::<Tok>::empty());
    } else {
        let tail = s.subrange(1, s.len() as int);
        law_replace_free_body(tail, ident, n);
        assert(s =~= seq![s[0]] + tail);
        match s[0] {
            Tok::Group(d, inner) => {
                law_replace_free_body(inner, ident, n);
                assert(replace_spec(s, ident, n) == seq![Tok::Group(d, inner)] + tail);
            },
            Tok::Ident(i) => {
                if s.len() >= 2 {
                    assert(s[1] == tail[0]);
                    assert(!is_punct(s[1], '~'));
                }
                assert(replace_spec(s, ident, n) == seq![s[0]] + tail);
            },
            _ => {
                assert(replace_spec(s, ident, n) == seq![s[0]] + tail);
            },
        }
    }
}

/// Law: a body that holds neither the identifier nor a `~` repeats
/// unchanged, once for each number of the range.
pub proof fn law_repeat_free_body(g: Seq<Tok>, ident: Seq<char>, start: nat, end: nat)
    requires
        free_of(g, ident),
    ensures
        repeat_spec(g, ident, start, end) == copies(g, (if start <= end { end - start } else { 0 }) as nat),
    decreases end - start,
{
    if start < end {
        law_replace_free_body(g, ident, start);
        law_repeat_free_body(g, ident, start + 1, end);
        assert(((end - start) - 1) as nat == (end - (start + 1)) as nat);
    }
}

/// Law: wrapping a whole body without blocks in a block `#( ... )*`
/// changes nothing in its expansion.
pub proof fn law_block_around_body(g: Seq<Tok>, hash: Spacing, star: Tok, ident: Seq<char>, start: nat, end: nat)
    requires
        !contains_block_spec(g),
    ensures
        expansion_spec(seq![Tok::Punct('#', hash), Tok::Group(Delimiter::Parenthesis, g), star], ident, start, end)
            == expansion_spec(g, ident, start, end),
        expansion_spec(seq![Tok::Punct('#', hash), Tok::Group(Delimiter::Parenthesis, g)], ident, start, end)
            == expansion_spec(g, ident, start, end),
{
    let b3 = seq![Tok::Punct('#', hash), Tok::Group(Delimiter::Parenthesis, g), star];
    let b2 = seq![Tok::Punct('#', hash), Tok::Group(Delimiter::Parenthesis, g)];
    assert(contains_block_spec(b3));
    assert(contains_block_spec(b2));
    assert(b3.subrange(3, 3) =~= Seq::<Tok>::empty());
    assert(walk_spec(b3.subrange(3, 3), ident, start, end) =~= Seq::<Tok>::empty());
    assert(walk_spec(b3, ident, start, end) =~= repeat_spec(g, ident, start, end));
    assert(walk_spec(b2, ident, start, end) =~= repeat_spec(g, ident, start, end));
}

/// Law: a block is found wherever it sits, inside a group of any
/// delimiter: a group holds a block exactly when its contents do.
pub proof fn law_block_found_in_any_group(d: Delimiter, g: Seq<Tok>)
    ensures
        contains_block_spec(seq![Tok::Group(d, g)]) == contains_block_spec(g),
{
    let s = seq![Tok::Group(d, g)];
    assert(s.subrange(1, 1) =~= Seq::<Tok>::empty());
    assert(!contains_block_spec(s.subrange(1, 1)));
    assert(s[0] == Tok::Group(d, g));
}

/// Law: blocks are expanded inside groups of every delimiter: the walk of
/// a group is the group, with the same delimiter, of the walk of its
/// contents.
pub proof fn law_walk_enters_any_group(d: Delimiter, g: Seq<Tok>, ident: Seq<char>, start: nat, end: nat)
    ensures
        walk_spec(seq![Tok::Group(d, g)], ident, start, end) == seq![Tok::Group(d, walk_spec(g, ident, start, end))],
{
    let s = seq![Tok::Group(d, g)];
    assert(s.subrange(1, 1) =~= Seq::<Tok>::empty());
    assert(walk_spec(s.subrange(1, 1), ident, start, end) =~= Seq::<Tok>::empty());
    assert(walk_spec(s, ident, start, end) =~= seq![Tok::Group(d, walk_spec(g, ident, start, end))]);
}

/// Law: a body made of one group, of any delimiter, that holds only a
/// block `#( g )*` (with no block inside `g`) expands to that group holding
/// the copies of `g`, one for each number of the range, and nothing else.
pub proof fn law_block_in_group_expands_inside(
    d: Delimiter,
    g: Seq<Tok>,
    hash: Spacing,
    star: Tok,
    ident: Seq<char>,
    start: nat,
    end: nat,
)
    requires
        !contains_block_spec(g),
    ensures
        expansion_spec(
            seq![Tok::Group(d, seq![Tok::Punct('#', hash), Tok::Group(Delimiter::Parenthesis, g), star])],
            ident,
            start,
            end,
        ) == seq![Tok::Group(d, repeat_spec(g, ident, start, end))],
{
    let b = seq![Tok::Punct('#', hash), Tok::Group(Delimiter::Parenthesis, g), star];
    assert(contains_block_spec(b));
    law_block_found_in_any_group(d, b);
    law_walk_enters_any_group(d, b, ident, start, end);
    assert(b.subrange(3, 3) =~= Seq::<Tok>::empty());
    assert(walk_spec(b.subrange(3, 3), ident, start, end) =~= Seq::<Tok>::empty());
    assert(walk_spec(b, ident, start, end) =~= repeat_spec(g, ident, start, end));
}

/// Law: substitution reaches inside groups of every delimiter: the
/// substitution of a group is the group, with the same delimiter, of the
/// substitution of its contents.
pub proof fn law_replace_enters_any_group(d: Delimiter, g: Seq<Tok>, ident: Seq<char>, n: nat)
    ensures
        replace_spec(seq![Tok::Group(d, g)], ident, n) == seq![Tok::Group(d, replace_spec(g, ident, n))],
{
    let s = seq![Tok::Group(d, g)];
    assert(s.subrange(1, 1) =~= Seq::<Tok>::empty());
    assert(replace_spec(s.subrange(1, 1), ident, n) =~= Seq::<Tok>::empty());
    assert(replace_spec(s, ident, n) =~= seq![Tok::Group(d, replace_spec(g, ident, n))]);
}

/// Law: the identifier becomes the literal whose text is the numeral of
/// the number, and that numeral reads back as the number.
pub proof fn law_ident_becomes_its_number(ident: Seq<char>, n: nat)
    ensures
        replace_spec(seq![Tok::Ident(ident)], ident, n) == seq![Tok::Literal(decimal(n))],
        decimal_value(decimal(n)) == n,
{
    let s = seq![Tok::Ident(ident)];
    assert(s.subrange(1, 1) =~= Seq::<Tok>::empty());
    assert(replace_spec(s.subrange(1, 1), ident, n) =~= Seq::<Tok>::empty());
    assert(replace_spec(s, ident, n) =~= seq![Tok::Literal(decimal(n))]);
    lemma_decimal_reads_back(n);
}

/// The numeral of `n` reads back as `n`.
proof fn lemma_decimal_reads_back(n: nat)
    ensures
        decimal_value(decimal(n)) == n,
    decreases n,
{
    if n < 10 {
        let d = decimal(n);
        assert(d.drop_last() =~= Seq::<char>::empty());
        assert(decimal_value(d.drop_last()) == 0);
    } else {
        lemma_decimal_reads_back(n / 10);
        let d = decimal(n);
        assert(d.drop_last() =~= decimal(n / 10));
        assert(d.last() == crate::tokens::digit_char(n % 10));
        assert((n / 10) * 10 + n % 10 == n) by (nonlinear_arith);
    }
}

/// Law: an identifier other than the substituted one, pasted with `~` to
/// the substituted identifier, becomes one identifier: itself followed by
/// the numeral of the number.
pub proof fn law_paste_joins_number(prefix: Seq<char>, sp: Spacing, ident: Seq<char>, n: nat)
    requires
        prefix != ident,
    ensures
        replace_spec(seq![Tok::Ident(prefix), Tok::Punct('~', sp), Tok::Ident(ident)], ident, n)
            == seq![Tok::Ident(prefix + decimal(n))],
{
    let s = seq![Tok::Ident(prefix), Tok::Punct('~', sp), Tok::Ident(ident)];
    assert(s.subrange(3, 3) =~= Seq::<Tok>::empty());
    assert(replace_spec(s.subrange(3, 3), ident, n) =~= Seq::<Tok>::empty());
    assert(replace_spec(s, ident, n) =~= seq![Tok::Ident(prefix + decimal(n))]);
}

} // verus!
