use std::str::FromStr;

use macrokit::attrs::{AttrMeta, Attribute};
use macrokit::bitfield_attrs::find_bits_attr;
use macrokit::debug::{field_format, parse_attr};
use macrokit::tokens::{Delimiter, TokenTree};

fn literal(s: &str) -> Vec<TokenTree> {
    let lit = proc_macro2::Literal::from_str(s).unwrap();
    vec![TokenTree::Literal(lit.to_string())]
}

fn name_value(path: &str, value: Vec<TokenTree>) -> Attribute {
    Attribute { path_ident: Some(path.to_string()), meta: AttrMeta::NameValue(value) }
}

#[test]
fn debug_attribute_gives_the_format() {
    let a = name_value("debug", literal("\"0b{:08b}\""));
    assert_eq!(parse_attr(&a), Some("0b{:08b}".to_string()));
}

#[test]
fn other_forms_give_no_format() {
    assert_eq!(parse_attr(&name_value("display", literal("\"x\""))), None);
    assert_eq!(parse_attr(&name_value("debug", literal("5"))), None);
    let grouped = vec![TokenTree::Group(Delimiter::Invisible, literal("\"x\""))];
    assert_eq!(parse_attr(&name_value("debug", grouped)), None);
    let two = vec![TokenTree::Literal("\"a\"".to_string()), TokenTree::Literal("\"b\"".to_string())];
    assert_eq!(parse_attr(&name_value("debug", two)), None);
    let list = Attribute { path_ident: Some("debug".to_string()), meta: AttrMeta::List(literal("\"x\"")) };
    assert_eq!(parse_attr(&list), None);
}

#[test]
fn first_usable_debug_attribute_wins() {
    let attrs = vec![
        name_value("doc", literal("\"text\"")),
        name_value("debug", literal("7")),
        name_value("debug", literal("\"{:?}!\"")),
        name_value("debug", literal("\"second\"")),
    ];
    assert_eq!(field_format(&attrs), Some("{:?}!".to_string()));
    assert_eq!(field_format(&vec![]), None);
}

#[test]
fn bits_attribute_is_found() {
    let attrs = vec![
        name_value("doc", literal("\"text\"")),
        Attribute { path_ident: Some("bits".to_string()), meta: AttrMeta::Path },
        name_value("bits", literal("3")),
        name_value("bits", literal("4")),
    ];
    assert_eq!(find_bits_attr(&attrs), Some(2));
    assert_eq!(find_bits_attr(&vec![name_value("doc", literal("\"text\""))]), None);
}
