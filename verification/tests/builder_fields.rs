use std::str::FromStr;

use macrokit::attrs::{
    get_inner_type, AttrMeta, Attribute, GenericArgShape, PathArgsShape, SegmentShape, TypeShape,
};
use macrokit::builder::{
    find_builder_attr, nested_each_with, parse_attr, parse_nested_each, read_literals,
    BuilderAttrError, Field, FieldType, FieldTypeError, LiteralReading,
};
use macrokit::tokens::{Delimiter, Spacing, TokenTree};

fn to_model(ts: proc_macro2::TokenStream) -> Vec<TokenTree> {
    ts.into_iter()
        .map(|tt| match tt {
            proc_macro2::TokenTree::Group(g) => {
                let d = match g.delimiter() {
                    proc_macro2::Delimiter::Parenthesis => Delimiter::Parenthesis,
                    proc_macro2::Delimiter::Brace => Delimiter::Brace,
                    proc_macro2::Delimiter::Bracket => Delimiter::Bracket,
                    proc_macro2::Delimiter::None => Delimiter::Invisible,
                };
                TokenTree::Group(d, to_model(g.stream()))
            }
            proc_macro2::TokenTree::Ident(i) => TokenTree::Ident(i.to_string()),
            proc_macro2::TokenTree::Punct(p) => TokenTree::Punct(
                p.as_char(),
                match p.spacing() {
                    proc_macro2::Spacing::Joint => Spacing::Joint,
                    proc_macro2::Spacing::Alone => Spacing::Alone,
                },
            ),
            proc_macro2::TokenTree::Literal(l) => TokenTree::Literal(l.to_string()),
        })
        .collect()
}

fn toks(s: &str) -> Vec<TokenTree> {
    to_model(proc_macro2::TokenStream::from_str(s).unwrap())
}

fn list_attr(path: &str, args: &str) -> Attribute {
    Attribute { path_ident: Some(path.to_string()), meta: AttrMeta::List(toks(args)) }
}

fn path_type(ident: &str, args: PathArgsShape) -> TypeShape {
    TypeShape::Path(Some(SegmentShape { ident: ident.to_string(), args }))
}

fn generic(ident: &str) -> TypeShape {
    path_type(ident, PathArgsShape::AngleBracketed(Some(GenericArgShape::Type)))
}

fn field(ty: TypeShape, attrs: Vec<Attribute>) -> Field {
    Field { ident: Some("f".to_string()), ty, attrs }
}

#[test]
fn plain_field_is_required() {
    let f = field(path_type("String", PathArgsShape::Bare), vec![]);
    assert_eq!(FieldType::classify(&f), Some(Ok(FieldType::Required)));
    let f = field(TypeShape::Other, vec![]);
    assert_eq!(FieldType::classify(&f), Some(Ok(FieldType::Required)));
}

#[test]
fn vec_without_attribute_is_required() {
    let f = field(generic("Vec"), vec![]);
    assert_eq!(FieldType::classify(&f), Some(Ok(FieldType::Required)));
}

#[test]
fn option_field_is_optional() {
    let f = field(generic("Option"), vec![]);
    assert_eq!(FieldType::classify(&f), Some(Ok(FieldType::Optional)));
}

#[test]
fn option_with_lifetime_argument_is_required() {
    let f = field(path_type("Option", PathArgsShape::AngleBracketed(Some(GenericArgShape::Other))), vec![]);
    assert_eq!(FieldType::classify(&f), Some(Ok(FieldType::Required)));
}

#[test]
fn each_attribute_names_the_setter() {
    let f = field(generic("Vec"), vec![list_attr("builder", "each = \"arg\"")]);
    assert_eq!(FieldType::classify(&f), Some(Ok(FieldType::Each("arg".to_string()))));
}

#[test]
fn last_each_wins() {
    let f = field(generic("Vec"), vec![list_attr("builder", "each = \"a\", each = \"b\",")]);
    assert_eq!(FieldType::classify(&f), Some(Ok(FieldType::Each("b".to_string()))));
}

#[test]
fn only_the_first_builder_attribute_counts() {
    let f = field(
        generic("Vec"),
        vec![
            list_attr("doc", "x"),
            list_attr("builder", "each = \"first\""),
            list_attr("builder", "oops"),
        ],
    );
    assert_eq!(FieldType::classify(&f), Some(Ok(FieldType::Each("first".to_string()))));
}

#[test]
fn each_on_other_type_is_refused() {
    let f = field(generic("HashSet"), vec![list_attr("builder", "each = \"x\"")]);
    assert_eq!(FieldType::classify(&f), Some(Err(FieldTypeError::NotVec)));
    assert_eq!(FieldTypeError::NotVec.message(), "shold be Vec for field with each");
}

#[test]
fn each_on_type_without_argument_has_no_kind() {
    let f = field(path_type("Vec", PathArgsShape::Bare), vec![list_attr("builder", "each = \"x\"")]);
    assert_eq!(FieldType::classify(&f), None);
}

#[test]
fn classify_agrees_with_from_elsewhere() {
    let f = field(generic("Vec"), vec![list_attr("builder", "each = \"item\"")]);
    assert_eq!(FieldType::classify(&f), Some(Ok(FieldType::Each("item".to_string()))));
    let f = field(path_type("String", PathArgsShape::Bare), vec![]);
    assert_eq!(FieldType::classify(&f), Some(Ok(FieldType::Required)));
    let f = field(path_type("Vec", PathArgsShape::Bare), vec![list_attr("builder", "oops")]);
    assert_eq!(
        FieldType::classify(&f),
        Some(Err(FieldTypeError::Attr(BuilderAttrError::UnknownKey)))
    );
}

#[test]
fn unknown_key_is_refused() {
    let f = field(generic("Vec"), vec![list_attr("builder", "eac = \"arg\"")]);
    assert_eq!(FieldType::classify(&f), Some(Err(FieldTypeError::Attr(BuilderAttrError::UnknownKey))));
    assert_eq!(BuilderAttrError::UnknownKey.message(), "expected `builder(each = \"...\")`");
}

#[test]
fn malformed_arguments_are_refused() {
    let cases = [
        ("each \"x\"", BuilderAttrError::ExpectedEq),
        ("each", BuilderAttrError::ExpectedEq),
        ("each = x", BuilderAttrError::ExpectedString),
        ("each = 5", BuilderAttrError::ExpectedString),
        ("each = b\"x\"", BuilderAttrError::ExpectedString),
        ("each = \"a\" \"b\"", BuilderAttrError::ExpectedComma),
        ("\"x\"", BuilderAttrError::UnexpectedLiteral),
        ("5", BuilderAttrError::UnexpectedLiteral),
        ("-5", BuilderAttrError::UnexpectedLiteral),
        ("-1.5", BuilderAttrError::UnexpectedLiteral),
        ("-\"s\"", BuilderAttrError::ExpectedNestedIdent),
        ("- x", BuilderAttrError::ExpectedNestedIdent),
        ("# x", BuilderAttrError::ExpectedNestedIdent),
        ("true", BuilderAttrError::UnknownKey),
        ("::", BuilderAttrError::ExpectedNestedAttribute),
        ("a::", BuilderAttrError::ExpectedIdentAtEnd),
        ("a:: =", BuilderAttrError::ExpectedIdent),
        ("each =", BuilderAttrError::ExpectedStringAtEnd),
        ("::each = \"x\"", BuilderAttrError::UnknownKey),
        ("a::each = \"x\"", BuilderAttrError::UnknownKey),
        ("each = \"a\", ,", BuilderAttrError::ExpectedNestedIdent),
    ];
    for (args, err) in cases {
        assert_eq!(parse_nested_each(&toks(args)), Err(err), "{}", args);
    }
}

#[test]
fn empty_arguments_give_an_empty_name() {
    assert_eq!(parse_nested_each(&toks("")), Ok(String::new()));
}

#[test]
fn string_escapes_are_resolved() {
    assert_eq!(parse_nested_each(&toks("each = \"a\\u{62}c\"")), Ok("abc".to_string()));
    assert_eq!(parse_nested_each(&toks("each = r\"raw\"")), Ok("raw".to_string()));
}

#[test]
fn attribute_without_list_is_refused() {
    let a = Attribute { path_ident: Some("builder".to_string()), meta: AttrMeta::Path };
    assert_eq!(parse_attr(&a), Some(Err(BuilderAttrError::ExpectedArguments)));
    let a = Attribute { path_ident: Some("builder".to_string()), meta: AttrMeta::NameValue(toks("\"x\"")) };
    assert_eq!(parse_attr(&a), Some(Err(BuilderAttrError::ExpectedParentheses)));
}

#[test]
fn attribute_error_messages() {
    assert_eq!(
        BuilderAttrError::ExpectedArguments.message(),
        "expected attribute arguments in parentheses: #[builder(...)]"
    );
    assert_eq!(BuilderAttrError::ExpectedParentheses.message(), "expected parentheses: #[builder(...)]");
    assert_eq!(
        BuilderAttrError::UnexpectedLiteral.message(),
        "unexpected literal in nested attribute, expected ident"
    );
    assert_eq!(
        BuilderAttrError::ExpectedNestedIdent.message(),
        "unexpected token in nested attribute, expected ident"
    );
    assert_eq!(BuilderAttrError::ExpectedIdent.message(), "expected ident");
    assert_eq!(
        BuilderAttrError::ExpectedNestedAttribute.message(),
        "unexpected end of input, expected nested attribute"
    );
    assert_eq!(
        BuilderAttrError::ExpectedStringAtEnd.message(),
        "unexpected end of input, expected string literal"
    );
    assert_eq!(BuilderAttrError::ExpectedIdentAtEnd.message(), "unexpected end of input, expected ident");
}

#[test]
fn other_attributes_are_ignored() {
    assert_eq!(parse_attr(&list_attr("serde", "each = \"x\"")), None);
    let a = Attribute { path_ident: None, meta: AttrMeta::List(toks("each = \"x\"")) };
    assert_eq!(parse_attr(&a), None);
    assert_eq!(find_builder_attr(&vec![list_attr("a", ""), list_attr("b", "")]), None);
}

#[test]
fn inner_type_wrapper() {
    assert_eq!(get_inner_type(&generic("Vec")), Some(&"Vec".to_string()));
    assert_eq!(get_inner_type(&path_type("Vec", PathArgsShape::Parenthesized)), None);
    assert_eq!(get_inner_type(&path_type("Vec", PathArgsShape::AngleBracketed(None))), None);
    assert_eq!(get_inner_type(&TypeShape::Path(None)), None);
    assert_eq!(get_inner_type(&TypeShape::Other), None);
}

#[test]
fn field_kind_from_what_the_attribute_says() {
    let vec = generic("Vec");
    assert_eq!(FieldType::from(None, &vec), Ok(FieldType::Required));
    assert_eq!(FieldType::from(None, &generic("Option")), Ok(FieldType::Optional));
    assert_eq!(FieldType::from(Some(Ok("x".to_string())), &vec), Ok(FieldType::Each("x".to_string())));
    assert_eq!(FieldType::from(Some(Ok("x".to_string())), &generic("Box")), Err(FieldTypeError::NotVec));
    assert_eq!(
        FieldType::from(Some(Err(BuilderAttrError::ExpectedEq)), &vec),
        Err(FieldTypeError::Attr(BuilderAttrError::ExpectedEq))
    );
}

#[test]
fn readings_come_from_syn() {
    let f = toks("each = \"a\\u{62}\", - 5, - x");
    let rd = read_literals(&f);
    assert_eq!(rd.len(), f.len());
    assert_eq!(rd[2].string, Some("ab".to_string()));
    assert!(rd[4].signed);
    assert!(!rd[7].signed);
    assert_eq!(rd[0].string, None);
}

#[test]
fn nested_attributes_follow_the_readings() {
    let f = toks("each = \"x\"");
    let unread = || LiteralReading { string: None, signed: false };
    let rd = vec![unread(), unread(), LiteralReading { string: Some("given".to_string()), signed: false }];
    assert_eq!(nested_each_with(&f, &rd), Ok("given".to_string()));
    let rd = vec![unread(), unread(), unread()];
    assert_eq!(nested_each_with(&f, &rd), Err(BuilderAttrError::ExpectedString));
    let f = toks("- 5");
    let rd = vec![LiteralReading { string: None, signed: true }, unread()];
    assert_eq!(nested_each_with(&f, &rd), Err(BuilderAttrError::UnexpectedLiteral));
    let rd = vec![unread(), unread()];
    assert_eq!(nested_each_with(&f, &rd), Err(BuilderAttrError::ExpectedNestedIdent));
}
