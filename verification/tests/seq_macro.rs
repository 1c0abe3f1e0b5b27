use std::str::FromStr;

use macrokit::seq_macro::{split_header, SeqError, SeqMacro, SeqParseError};
use macrokit::seq_expand::{contains_block, replace, walk};
use macrokit::tokens::{decimal_string, Delimiter, Spacing, TokenTree};

fn to_model(ts: proc_macro2::TokenStream) -> Vec<TokenTree> {
    ts.into_iter()
        .map(|tt| match tt {
            proc_macro2::TokenTree::Group(g) => {
                let d = match g.delimiter() {
                    proc_macro2::Delimiter::Parenthesis => Delimiter::Parenthesis,
                    proc_macro2::Delimiter::Brace => Delimiter::Brace,
                    proc_macro2::Delimiter::Bracket => Delimiter::Bracket,
                    proc_macro2::Delimiter::None => Delimiter::Invisible,
                };
                TokenTree::Group(d, to_model(g.stream()))
            }
            proc_macro2::TokenTree::Ident(i) => TokenTree::Ident(i.to_string()),
            proc_macro2::TokenTree::Punct(p) => TokenTree::Punct(
                p.as_char(),
                match p.spacing() {
                    proc_macro2::Spacing::Joint => Spacing::Joint,
                    proc_macro2::Spacing::Alone => Spacing::Alone,
                },
            ),
            proc_macro2::TokenTree::Literal(l) => TokenTree::Literal(l.to_string()),
        })
        .collect()
}

fn toks(s: &str) -> Vec<TokenTree> {
    to_model(proc_macro2::TokenStream::from_str(s).unwrap())
}

fn render(ts: &[TokenTree]) -> String {
    let mut out: Vec<String> = Vec::new();
    let mut glue = false;
    for t in ts {
        let piece = match t {
            TokenTree::Group(d, inner) => {
                let body = render(inner);
                match d {
                    Delimiter::Parenthesis => format!("({})", body),
                    Delimiter::Brace => format!("{{{}}}", body),
                    Delimiter::Bracket => format!("[{}]", body),
                    Delimiter::Invisible => format!("<{}>", body),
                }
            }
            TokenTree::Ident(s) => s.clone(),
            TokenTree::Punct(c, _) => c.to_string(),
            TokenTree::Literal(s) => s.clone(),
        };
        if glue {
            let last = out.pop().unwrap();
            out.push(last + &piece);
        } else {
            out.push(piece);
        }
        glue = matches!(t, TokenTree::Punct(_, Spacing::Joint));
    }
    out.join(" ")
}

fn expand(src: &str) -> String {
    let m = SeqMacro::parse(&toks(src)).expect("parses");
    assert!(m.can_expand());
    let mut out = Vec::new();
    m.to_tokens(&mut out);
    render(&out)
}

fn parse_err(src: &str) -> SeqError {
    match SeqMacro::parse(&toks(src)) {
        Ok(_) => panic!("expected an error"),
        Err(e) => e,
    }
}

#[test]
fn parses_exclusive_range() {
    let m = SeqMacro::parse(&toks("N in 0..4 { x }")).unwrap();
    assert_eq!(m.ident, "N");
    assert_eq!(m.start, 0);
    assert_eq!(m.end, 4);
    assert_eq!(render(&m.tokens), "x");
}

#[test]
fn parses_inclusive_range_as_one_past_end() {
    let m = SeqMacro::parse(&toks("N in 1..=16 {}")).unwrap();
    assert_eq!(m.start, 1);
    assert_eq!(m.end, 17);
    assert!(m.tokens.is_empty());
}

#[test]
fn reads_integer_literals_as_syn_does() {
    let m = SeqMacro::parse(&toks("N in 0x10..1_000usize {}")).unwrap();
    assert_eq!(m.start, 16);
    assert_eq!(m.end, 1000);
}

#[test]
fn looks_through_invisible_groups() {
    let mut input = toks("N in");
    input.push(TokenTree::Group(Delimiter::Invisible, toks("0..=8")));
    input.extend(toks("{ N }"));
    let m = SeqMacro::parse(&input).unwrap();
    assert_eq!(m.start, 0);
    assert_eq!(m.end, 9);
}

#[test]
fn refuses_a_reserved_word_as_variable() {
    assert_eq!(parse_err("in in 0..4 {}"), SeqError::Keyword("in".to_string()));
    assert_eq!(parse_err("fn 0..4 {}"), SeqError::Keyword("fn".to_string()));
    assert_eq!(parse_err("_ in 0..4 {}"), SeqError::Keyword("_".to_string()));
    assert_eq!(parse_err("fn 0..4 {}").message(), "expected identifier, found keyword `fn`");
}

fn grammar(e: SeqParseError) -> SeqError {
    SeqError::Grammar(e)
}

#[test]
fn reports_each_missing_piece() {
    assert_eq!(parse_err(""), SeqError::EndOfInput(SeqParseError::ExpectedIdent));
    assert_eq!(parse_err("0 in 0..4 {}"), grammar(SeqParseError::ExpectedIdent));
    assert_eq!(parse_err("N 0..4 {}"), grammar(SeqParseError::ExpectedIn));
    assert_eq!(parse_err("N in x..4 {}"), grammar(SeqParseError::ExpectedInteger));
    assert_eq!(parse_err("N in 1.5..4 {}"), grammar(SeqParseError::ExpectedInteger));
    assert_eq!(parse_err("N in 0 4 {}"), grammar(SeqParseError::ExpectedDotDot));
    assert_eq!(parse_err("N in 0..{}"), grammar(SeqParseError::ExpectedInteger));
    assert_eq!(parse_err("N in 0..4 (x)"), grammar(SeqParseError::ExpectedBraces));
    assert_eq!(parse_err("N in 0..4 {} x"), grammar(SeqParseError::UnexpectedToken));
    assert_eq!(parse_err("N in - x..4 {}"), grammar(SeqParseError::ExpectedInteger));
    assert_eq!(parse_err("N in -1.5..4 {}"), grammar(SeqParseError::ExpectedInteger));
}

#[test]
fn reports_a_missing_piece_at_the_end() {
    assert_eq!(parse_err("N"), SeqError::EndOfInput(SeqParseError::ExpectedIn));
    assert_eq!(parse_err("N").message(), "unexpected end of input, expected `in`");
    assert_eq!(parse_err("N in"), SeqError::EndOfInput(SeqParseError::ExpectedInteger));
    assert_eq!(parse_err("N in 0.."), SeqError::EndOfInput(SeqParseError::ExpectedInteger));
    assert_eq!(parse_err("N in 0..4"), SeqError::EndOfInput(SeqParseError::ExpectedBraces));
    assert_eq!(parse_err("N in 0..4").message(), "unexpected end of input, expected curly braces");
    assert_eq!(parse_err("N in 0"), grammar(SeqParseError::ExpectedDotDot));
}

#[test]
fn reports_an_integer_that_is_not_a_usize() {
    assert_eq!(parse_err("N in 0..99999999999999999999999 {}"), SeqError::IntegerTooLarge);
    assert_eq!(
        parse_err("N in 0..99999999999999999999999 {}").message(),
        "number too large to fit in target type"
    );
    assert_eq!(
        parse_err("N in 0..999999999999999999999999999999999999999999 {}"),
        SeqError::IntegerValue("number too large to fit in target type".to_string())
    );
    assert_eq!(
        parse_err("N in -1..4 {}"),
        SeqError::IntegerValue("invalid digit found in string".to_string())
    );
    assert_eq!(
        parse_err("N in 0..=-3 {}").message(),
        "invalid digit found in string"
    );
}

#[test]
fn reports_an_inclusive_end_without_successor() {
    let src = format!("N in 0..={} {{}}", usize::MAX);
    assert_eq!(parse_err(&src), grammar(SeqParseError::EndOverflow));
    let src = format!("N in 0..{} {{}}", usize::MAX);
    assert!(SeqMacro::parse(&toks(&src)).is_ok());
}

#[test]
fn error_messages() {
    assert_eq!(SeqParseError::ExpectedIn.message(), "expected `in`");
    assert_eq!(SeqParseError::ExpectedBraces.message(), "expected curly braces");
    assert_eq!(grammar(SeqParseError::ExpectedInteger).message(), "expected integer literal");
}

#[test]
fn repeats_the_body_with_the_number() {
    assert_eq!(expand("N in 0..4 { f(N); }"), "f (0) ; f (1) ; f (2) ; f (3) ;");
}

#[test]
fn empty_range_expands_to_nothing() {
    assert_eq!(expand("N in 4..4 { f(N); }"), "");
    assert_eq!(expand("N in 5..2 { f(N); }"), "");
}

#[test]
fn pastes_the_number_onto_an_identifier() {
    assert_eq!(
        expand("N in 1..3 { fn f~N () -> u64 { N * 2 } }"),
        "fn f1 () -> u64 {1 * 2} fn f2 () -> u64 {2 * 2}"
    );
}

#[test]
fn pastes_two_identifiers() {
    assert_eq!(expand("N in 0..2 { a~b }"), "ab ab");
}

#[test]
fn the_variable_itself_before_a_tilde_is_the_number() {
    assert_eq!(expand("N in 0..2 { N~x }"), "0 ~ x 1 ~ x");
}

#[test]
fn expands_repetition_blocks_only() {
    assert_eq!(
        expand("N in 0..3 { enum E { #( V~N, )* } }"),
        "enum E {V0 , V1 , V2 ,}"
    );
}

#[test]
fn block_at_top_level_equals_plain_body() {
    assert_eq!(expand("N in 0..3 { #( x~N )* }"), expand("N in 0..3 { x~N }"));
}

#[test]
fn hash_without_parentheses_is_kept() {
    assert_eq!(expand("N in 0..2 { #[a] #( N )* }"), "# [a] 0 1");
}

#[test]
fn nested_block_is_found_inside_groups() {
    assert_eq!(expand("N in 0..2 { f { #(N,)* } }"), "f {0 , 1 ,}");
}

#[test]
fn a_group_right_after_a_hash_is_not_searched_for_blocks() {
    let body = toks("# [ #(x)* ]");
    assert!(!contains_block(&body));
    let body = toks("# ( x )");
    assert!(contains_block(&body));
}

#[test]
fn refuses_a_tilde_without_identifier() {
    let m = SeqMacro::parse(&toks("N in 0..2 { a ~ }")).unwrap();
    assert!(!m.can_expand());
    let m = SeqMacro::parse(&toks("N in 0..2 { a ~ 3 }")).unwrap();
    assert!(!m.can_expand());
    let m = SeqMacro::parse(&toks("N in 2..2 { a ~ }")).unwrap();
    assert!(m.can_expand());
    let m = SeqMacro::parse(&toks("N in 0..2 { #( a ~ )* }")).unwrap();
    assert!(!m.can_expand());
}

#[test]
fn replace_and_walk_directly() {
    let ident = String::from("N");
    let out = replace(&toks("N [N] x~N"), &ident, 12);
    assert_eq!(render(&out), "12 [12] x12");
    let out = walk(&toks("a #(N)* b"), &ident, 0, 2);
    assert_eq!(render(&out), "a 0 1 b");
}

#[test]
fn decimal_numerals() {
    assert_eq!(decimal_string(0), "0");
    assert_eq!(decimal_string(7), "7");
    assert_eq!(decimal_string(10), "10");
    assert_eq!(decimal_string(12345), "12345");
    assert_eq!(decimal_string(usize::MAX), usize::MAX.to_string());
}

#[test]
fn body_without_variable_repeats_unchanged() {
    let ident = String::from("N");
    let body = toks("struct S { x: [u8; 4] } #[a] b");
    assert_eq!(render(&replace(&body, &ident, 7)), render(&body));
    assert_eq!(expand("N in 0..3 { x }"), "x x x");
}

#[test]
fn assembles_from_the_readings_it_is_given() {
    let h = || split_header(&toks("N in 0..4 { x }"));
    let m = SeqMacro::from_header(h(), true, Ok(2), Ok(9)).unwrap();
    assert_eq!((m.start, m.end), (2, 9));
    assert_eq!(
        SeqMacro::from_header(h(), false, Ok(0), Ok(4)).err(),
        Some(SeqError::Keyword("N".to_string()))
    );
    assert_eq!(
        SeqMacro::from_header(h(), true, Ok(0), Ok(u128::MAX)).err(),
        Some(SeqError::IntegerTooLarge)
    );
    assert_eq!(
        SeqMacro::from_header(h(), true, Err(Some("bad".to_string())), Ok(4)).err(),
        Some(SeqError::IntegerValue("bad".to_string()))
    );
    assert_eq!(
        SeqMacro::from_header(h(), true, Err(None), Ok(4)).err(),
        Some(SeqError::Grammar(SeqParseError::ExpectedInteger))
    );
}

#[test]
fn plain_bodies_pass_through_unchanged() {
    assert_eq!(expand("N in 0..2 { f(x) [y] }"), "f (x) [y] f (x) [y]");
}
