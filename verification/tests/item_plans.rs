use std::str::FromStr;

use macrokit::bitfield_attrs::bitfield;
use macrokit::builder::{BuilderAttrError, BuilderError, FieldType, FieldTypeError};
use macrokit::debug::DebugError;
use macrokit::enum_specifier::{derive_specifier, EnumSpecifierError};
use macrokit::item::ItemData;
use macrokit::seq_expand::walk;
use macrokit::tokens::{tokens_text, Delimiter, Spacing, TokenTree};

fn to_model(ts: proc_macro2::TokenStream) -> Vec<TokenTree> {
    ts.into_iter()
        .map(|tt| match tt {
            proc_macro2::TokenTree::Group(g) => {
                let d = match g.delimiter() {
                    proc_macro2::Delimiter::Parenthesis => Delimiter::Parenthesis,
                    proc_macro2::Delimiter::Brace => Delimiter::Brace,
                    proc_macro2::Delimiter::Bracket => Delimiter::Bracket,
                    proc_macro2::Delimiter::None => Delimiter::Invisible,
                };
                TokenTree::Group(d, to_model(g.stream()))
            }
            proc_macro2::TokenTree::Ident(i) => TokenTree::Ident(i.to_string()),
            proc_macro2::TokenTree::Punct(p) => TokenTree::Punct(
                p.as_char(),
                match p.spacing() {
                    proc_macro2::Spacing::Joint => Spacing::Joint,
                    proc_macro2::Spacing::Alone => Spacing::Alone,
                },
            ),
            proc_macro2::TokenTree::Literal(l) => TokenTree::Literal(l.to_string()),
        })
        .collect()
}

fn toks(s: &str) -> Vec<TokenTree> {
    to_model(proc_macro2::TokenStream::from_str(s).unwrap())
}

#[test]
fn token_text_keeps_joined_punctuation_together() {
    assert_eq!(tokens_text(&toks("a::b(c, 'x) [1]")), "a :: b (c , 'x ) [1 ] ");
    let invisible = vec![TokenTree::Group(Delimiter::Invisible, toks("x"))];
    assert_eq!(tokens_text(&invisible), "x  ");
}

#[test]
fn specifier_width_from_the_enum() {
    let (_, shape, plan) = derive_specifier(&toks("enum E { A, B, C, D }")).unwrap();
    assert_eq!(plan, Ok(2));
    match shape.data {
        ItemData::Enum(names) => assert_eq!(names, vec!["A", "B", "C", "D"]),
        _ => panic!("an enum"),
    }
    let (_, _, plan) = derive_specifier(&toks("enum E { A, B, C }")).unwrap();
    assert_eq!(plan, Err(EnumSpecifierError::VariantCountNotPowerOfTwo));
}

#[test]
fn specifier_refuses_a_struct() {
    let (_, _, plan) = derive_specifier(&toks("struct S { a: u8 }")).unwrap();
    assert_eq!(plan, Err(EnumSpecifierError::NotEnum));
    assert_eq!(EnumSpecifierError::NotEnum.message(), "only enum is applicable");
}

#[test]
fn unparsable_input_reports_syn_error() {
    assert!(derive_specifier(&toks("fn f() {}")).is_err());
    assert!(bitfield(&toks("enum E { A }")).is_err());
}

#[test]
fn builder_plan_gives_each_field_its_kind() {
    let src = "pub struct Command { executable: String, #[builder(each = \"arg\")] args: Vec<String>, current_dir: Option<String> }";
    let (_, _, plan) = macrokit::builder::derive(&toks(src)).unwrap();
    assert_eq!(
        plan,
        Some(Ok(vec![FieldType::Required, FieldType::Each("arg".to_string()), FieldType::Optional]))
    );
}

#[test]
fn builder_plan_reports_the_first_field_in_error() {
    let src = "struct S { #[builder(eac = \"x\")] a: Vec<u8>, #[builder(each)] b: Vec<u8> }";
    let (_, _, plan) = macrokit::builder::derive(&toks(src)).unwrap();
    assert_eq!(plan, Some(Err(BuilderError::Field(FieldTypeError::Attr(BuilderAttrError::UnknownKey)))));
    let (_, _, plan) = macrokit::builder::derive(&toks("struct T(u8);")).unwrap();
    assert_eq!(plan, Some(Err(BuilderError::NotNamedStruct)));
    let src = "struct S { #[builder(each = \"x\")] a: String, #[builder(eac)] b: Vec<u8> }";
    let (_, _, plan) = macrokit::builder::derive(&toks(src)).unwrap();
    assert_eq!(plan, None);
}

#[test]
fn debug_plan_gives_each_field_its_format() {
    let src = "struct S { #[debug = \"0b{:08b}\"] a: u8, b: u8 }";
    let (_, _, plan) = macrokit::debug::derive(&toks(src)).unwrap();
    assert_eq!(plan, Ok(vec![Some("0b{:08b}".to_string()), None]));
    let (_, _, plan) = macrokit::debug::derive(&toks("enum E { A }")).unwrap();
    assert_eq!(plan, Err(DebugError::NotStruct));
    assert_eq!(DebugError::NotStruct.message(), "must be struct");
}

#[test]
fn bitfield_plan_finds_each_bits_attribute() {
    let src = "pub struct S { a: B1, #[doc = \"x\"] #[bits = 3] b: E, c: B4 }";
    let (_, _, plan) = bitfield(&toks(src)).unwrap();
    assert_eq!(plan, vec![None, Some(1), None]);
}

#[test]
fn walk_leaves_a_body_without_hash_unchanged() {
    let body = toks("f(N) [N] { x ~ N }");
    assert_eq!(walk(&body, &"N".to_string(), 0, 3), body);
}
