//! Lexical questions about single tokens, answered by the `syn` parser, and
//! exact comparison of token text.

use vstd::prelude::*;

verus! {

// How `syn` reads a text depends on more than the text: `syn::parse_str`
// lexes it with the compiler's own lexer inside a procedural macro and with
// `proc-macro2`'s fallback lexer elsewhere. So the wrappers below promise
// only what every lexer gives: the value of a plain decimal literal and the
// contents of a plain string literal. The functions that call them state
// what holds whatever comes back, and verified functions that take the
// readings as arguments say exactly what follows from each.

/// `text` is a string literal `"..."` with no quote, backslash or carriage
/// return between its quotes: its contents are the characters between them.
pub open spec fn plain_str_literal(text: Seq<char>) -> bool {
    &&& text.len() >= 2
    &&& text[0] == '"'
    &&& text[text.len() - 1] == '"'
    &&& forall|i: int|
        1 <= i < text.len() - 1 ==> #[trigger] text[i] != '"' && text[i] != '\\' && text[i] != '\r'
}

/// The characters between the quotes of a plain string literal.
pub open spec fn plain_contents(text: Seq<char>) -> Seq<char> {
    text.subrange(1, text.len() - 1)
}

/// `text` is one to 38 ASCII decimal digits, so its value fits a `u128`.
pub open spec fn short_decimal(text: Seq<char>) -> bool {
    &&& 1 <= text.len() <= 38
    &&& forall|i: int| 0 <= i < text.len() ==> '0' <= #[trigger] text[i] <= '9'
}

/// The value of the decimal digits `text`.
pub open spec fn decimal_value(text: Seq<char>) -> nat
    decreases text.len(),
{
    if text.len() == 0 {
        0
    } else {
        decimal_value(text.drop_last()) * 10 + (text.last() as nat - '0' as nat) as nat
    }
}

/// The model of the outcome of reading an integer literal: its value, or
/// `Err(None)` when the text is not an integer literal, or `Err(Some(m))`
/// with the message of the error met in taking its value.
pub open spec fn int_reading_view(r: Result<u128, Option<String>>) -> Result<u128, Option<Seq<char>>> {
    match r {
        Ok(v) => Ok(v),
        Err(None) => Err(None),
        Err(Some(m)) => Err(Some(m@)),
    }
}

/// Calls `syn::parse_str::<syn::Lit>` on `text` and reports whether it
/// succeeded, that is whether `syn` reads `text` as one literal (a negative
/// number written with a leading `-` among them). Nothing is promised of
/// the result.
#[verifier::external_body]
pub(crate) fn accepts_literal(text: &String) -> (r: bool) {
    syn::parse_str::<syn::Lit>(text.as_str()).is_ok()
}

/// `name` is an ASCII letter followed by ASCII letters, digits and
/// underscores.
pub open spec fn ascii_word(name: Seq<char>) -> bool {
    &&& name.len() >= 1
    &&& ('a' <= name[0] <= 'z' || 'A' <= name[0] <= 'Z')
    &&& forall|i: int|
        0 <= i < name.len() ==> ('a' <= #[trigger] name[i] <= 'z' || 'A' <= name[i] <= 'Z' || '0' <= name[i]
            <= '9' || name[i] == '_')
}

/// `name` is one of the reserved words that `syn` refuses as an identifier.
pub open spec fn reserved_word(name: Seq<char>) -> bool {
    ||| name == "abstract"@
    ||| name == "as"@
    ||| name == "async"@
    ||| name == "await"@
    ||| name == "become"@
    ||| name == "box"@
    ||| name == "break"@
    ||| name == "const"@
    ||| name == "continue"@
    ||| name == "crate"@
    ||| name == "do"@
    ||| name == "dyn"@
    ||| name == "else"@
    ||| name == "enum"@
    ||| name == "extern"@
    ||| name == "false"@
    ||| name == "final"@
    ||| name == "fn"@
    ||| name == "for"@
    ||| name == "if"@
    ||| name == "impl"@
    ||| name == "in"@
    ||| name == "let"@
    ||| name == "loop"@
    ||| name == "macro"@
    ||| name == "match"@
    ||| name == "mod"@
    ||| name == "move"@
    ||| name == "mut"@
    ||| name == "override"@
    ||| name == "priv"@
    ||| name == "pub"@
    ||| name == "ref"@
    ||| name == "return"@
    ||| name == "Self"@
    ||| name == "self"@
    ||| name == "static"@
    ||| name == "struct"@
    ||| name == "super"@
    ||| name == "trait"@
    ||| name == "true"@
    ||| name == "try"@
    ||| name == "type"@
    ||| name == "typeof"@
    ||| name == "unsafe"@
    ||| name == "unsized"@
    ||| name == "use"@
    ||| name == "virtual"@
    ||| name == "where"@
    ||| name == "while"@
    ||| name == "yield"@
}

/// Calls `syn::parse_str::<syn::Ident>` on `name` and reports whether it
/// succeeded (`syn` refuses the reserved words of Rust and `_`). The
/// contract promises only what every lexer gives: an ASCII word is accepted
/// exactly when it is not one of `syn`'s reserved words.
#[verifier::external_body]
pub(crate) fn accepts_ident(name: &String) -> (r: bool)
    ensures
        ascii_word(name@) ==> r == !reserved_word(name@),
{
    syn::parse_str::<syn::Ident>(name.as_str()).is_ok()
}

/// Calls `syn::parse_str::<syn::LitInt>` on `text`, then
/// `syn::LitInt::base10_parse::<u128>` on the literal, and hands back the
/// value, `Err(None)` when the first call fails, or the text of the error
/// that the second call returns. The contract promises only that a text of
/// at most 38 decimal digits reads as its value, which every lexer gives.
#[verifier::external_body]
pub(crate) fn parse_int_literal(text: &String) -> (r: Result<u128, Option<String>>)
    ensures
        short_decimal(text@) ==> r is Ok && r->Ok_0 == decimal_value(text@),
{
    match syn::parse_str::<syn::LitInt>(text.as_str()) {
        Ok(lit) => match lit.base10_parse::<u128>() {
            Ok(v) => Ok(v),
            Err(e) => Err(Some(e.to_string())),
        },
        Err(_) => Err(None),
    }
}

/// Calls `syn::parse_str::<syn::LitStr>` on `text`, then
/// `syn::LitStr::value` on the literal: the contents of the string literal,
/// escapes resolved, or `None` when `text` is not read as one. The contract
/// promises only that a plain string literal reads as the characters
/// between its quotes, which every lexer gives.
#[verifier::external_body]
pub(crate) fn parse_str_literal(text: &String) -> (r: Option<String>)
    ensures
        plain_str_literal(text@) ==> r.deep_view() == Some(plain_contents(text@)),
{
    match syn::parse_str::<syn::LitStr>(text.as_str()) {
        Ok(lit) => Some(lit.value()),
        Err(_) => None,
    }
}

/// Whether `s` spells exactly `word`.
pub fn spells(s: &String, word: &str) -> (r: bool)
    ensures
        r == (s@ == word@),
{
    let a = s.as_str();
    let n = a.unicode_len();
    if n != word.unicode_len() {
        return false;
    }
    let mut i: usize = 0;
    while i < n
        invariant
            n == a@.len(),
            n == word@.len(),
            a@ == s@,
            i <= n,
            forall|j: int| 0 <= j < i ==> a@[j] == word@[j],
        decreases n - i,
    {
        if a.get_char(i) != word.get_char(i) {
            return false;
        }
        i = i + 1;
    }
    proof {
        assert(a@ =~= word@);
    }
    true
}

} // verus!
