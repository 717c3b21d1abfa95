use pin_init::init::{expand, InitError};
use pin_init::token::{Delimiter, Spacing, TokenTree};

fn ident(s: &str) -> TokenTree {
    TokenTree::Ident(s.to_string())
}

fn punct(c: char) -> TokenTree {
    TokenTree::Punct(c, Spacing::Alone)
}

fn joint(c: char) -> TokenTree {
    TokenTree::Punct(c, Spacing::Joint)
}

fn lit(s: &str) -> TokenTree {
    TokenTree::Literal(s.to_string())
}

fn group(d: Delimiter, v: Vec<TokenTree>) -> TokenTree {
    TokenTree::Group(d, v)
}

fn brace(v: Vec<TokenTree>) -> TokenTree {
    group(Delimiter::Brace, v)
}

fn names(v: &[TokenTree]) -> Vec<String> {
    v.iter()
        .map(|t| match t {
            TokenTree::Ident(s) | TokenTree::Literal(s) => s.clone(),
            TokenTree::Punct(c, _) => c.to_string(),
            TokenTree::Group(_, _) => "{}".to_string(),
        })
        .collect()
}

fn magic_fields() -> Vec<TokenTree> {
    vec![ident("a"), punct(':'), lit("1"), punct(','), ident("b"), punct(':'), lit("2"), punct(',')]
}

#[test]
fn test_scanner_skips_unused() {
    let input = vec![ident("MagicStruct"), brace(magic_fields()), punct('?'), ident("Infallible")];
    let e = expand(input).unwrap();
    assert_eq!(names(&e.path), vec!["MagicStruct"]);
    assert_eq!(e.fields.len(), 8);
    assert_eq!(names(&e.err.unwrap()), vec!["Infallible"]);
    assert!(e.statements.is_empty());
    assert!(e.ty.is_none());
}

#[test]
fn test_scanner_finds_used() {
    let mut fields = magic_fields();
    fields.extend(vec![
        punct('_'),
        punct(':'),
        brace(vec![ident("let"), punct('_'), punct('='), ident("b"), punct(';')]),
    ]);
    let input = vec![ident("MagicStruct"), brace(fields), punct('?'), ident("Infallible")];
    let e = expand(input).unwrap();
    assert_eq!(names(&e.path), vec!["MagicStruct"]);
    assert_eq!(e.fields.len(), 11);
    assert_eq!(names(&e.err.unwrap()), vec!["Infallible"]);
}

#[test]
fn create_array() {
    let fields = vec![
        ident("array"),
        joint('<'),
        punct('-'),
        ident("init_zeroed"),
        group(Delimiter::Parenthesis, vec![]),
    ];
    let e = expand(vec![ident("Array"), brace(fields)]).unwrap();
    assert_eq!(names(&e.path), vec!["Array"]);
    assert_eq!(e.fields.len(), 5);
    assert!(e.err.is_none());
}

#[test]
fn default_error_is_used_without_other_error() {
    let input = vec![
        punct('#'),
        group(Delimiter::Bracket, vec![ident("default_error"), ident("Error")]),
        ident("Foo"),
        brace(vec![]),
    ];
    let e = expand(input).unwrap();
    assert_eq!(names(&e.err.unwrap()), vec!["Error"]);
    assert_eq!(names(&e.path), vec!["Foo"]);
}

#[test]
fn closure_with_result_and_placeholder_error() {
    // #[default_error(E)] |x: u8| -> Result<Foo, _> { let y = x; Foo { a: y } }
    let input = vec![
        punct('#'),
        group(Delimiter::Bracket, vec![ident("default_error"), ident("E")]),
        punct('|'),
        ident("x"),
        punct(':'),
        ident("u8"),
        punct('|'),
        joint('-'),
        punct('>'),
        ident("Result"),
        punct('<'),
        ident("Foo"),
        punct(','),
        punct('_'),
        punct('>'),
        brace(vec![
            ident("let"),
            ident("y"),
            punct('='),
            ident("x"),
            punct(';'),
            ident("Foo"),
            brace(vec![ident("a"), punct(':'), ident("y")]),
        ]),
    ];
    let e = expand(input).unwrap();
    assert_eq!(names(&e.ty.unwrap()), vec!["Foo"]);
    assert_eq!(names(&e.err.unwrap()), vec!["E"]);
    assert_eq!(e.statements.len(), 1);
    assert_eq!(names(&e.statements[0]), vec!["let", "y", "=", "x", ";"]);
    assert_eq!(names(&e.path), vec!["Foo"]);
    assert_eq!(e.fields.len(), 3);
}

#[test]
fn closure_with_plain_return_type() {
    // || -> Foo<u8> { Foo { } }
    let input = vec![
        punct('|'),
        punct('|'),
        joint('-'),
        punct('>'),
        ident("Foo"),
        punct('<'),
        ident("u8"),
        punct('>'),
        brace(vec![ident("Foo"), brace(vec![])]),
    ];
    let e = expand(input).unwrap();
    assert_eq!(names(&e.ty.unwrap()), vec!["Foo", "<", "u8", ">"]);
    assert!(e.err.is_none());
}

#[test]
fn closure_error_type_wins() {
    let input = vec![
        punct('|'),
        punct('|'),
        joint('-'),
        punct('>'),
        ident("Result"),
        punct('<'),
        ident("Foo"),
        punct(','),
        ident("MyErr"),
        punct(','),
        punct('>'),
        brace(vec![ident("Foo"), brace(vec![])]),
    ];
    let e = expand(input).unwrap();
    assert_eq!(names(&e.err.unwrap()), vec!["MyErr"]);
}

#[test]
fn placeholder_without_default_error_is_rejected() {
    let input = vec![
        punct('|'),
        punct('|'),
        joint('-'),
        punct('>'),
        ident("Result"),
        punct('<'),
        ident("Foo"),
        punct(','),
        ident("_"),
        punct('>'),
        brace(vec![ident("Foo"), brace(vec![])]),
    ];
    assert_eq!(expand(input).err(), Some(InitError::MissingDefaultError));
}

#[test]
fn errors_of_malformed_input() {
    assert_eq!(expand(vec![]).err(), Some(InitError::MissingBody));
    assert_eq!(expand(vec![ident("Foo")]).err(), Some(InitError::ExpectedBraceLast));
    assert_eq!(
        expand(vec![brace(vec![ident("Foo"), brace(vec![])]), ident("x")]).err(),
        Some(InitError::UnexpectedAfterBody)
    );
    assert_eq!(
        expand(vec![punct('|'), punct('|'), ident("Foo"), brace(vec![])]).err(),
        Some(InitError::ExpectedBodyWithClosure)
    );
    assert_eq!(
        expand(vec![punct('#'), ident("x")]).err(),
        Some(InitError::ExpectedBracketAfterHash)
    );
    assert_eq!(
        expand(vec![punct('#'), group(Delimiter::Bracket, vec![ident("what")]), brace(vec![])])
            .err(),
        Some(InitError::UnknownAttrName)
    );
    assert_eq!(
        expand(vec![punct('#'), group(Delimiter::Bracket, vec![]), brace(vec![])]).err(),
        Some(InitError::ExpectedAttrName)
    );
    assert_eq!(
        expand(vec![punct('#'), group(Delimiter::Bracket, vec![lit("1")]), brace(vec![])]).err(),
        Some(InitError::UnexpectedInAttr)
    );
    assert_eq!(
        expand(vec![
            punct('#'),
            group(Delimiter::Bracket, vec![ident("pin"), ident("x")]),
            brace(vec![])
        ])
        .err(),
        Some(InitError::UnexpectedInPinAttr)
    );
    assert_eq!(
        expand(vec![punct('|'), ident("x"), ident("y")]).err(),
        Some(InitError::ExpectedCommaAfterArg)
    );
    assert_eq!(
        expand(vec![punct('|'), lit("1"), punct('|')]).err(),
        Some(InitError::UnexpectedInSignature)
    );
    assert_eq!(
        expand(vec![punct('|'), punct('|'), joint('-'), ident("x")]).err(),
        Some(InitError::ExpectedArrow)
    );
    assert_eq!(
        expand(vec![punct('|'), punct('|'), joint('-'), punct('>'), ident("Result"), ident("x")])
            .err(),
        Some(InitError::ExpectedLtAfterResult)
    );
    assert_eq!(
        expand(vec![punct('|'), punct('|'), joint('-'), punct('>'), ident("Foo"), punct('>')])
            .err(),
        Some(InitError::NegativeNesting)
    );
    assert_eq!(
        expand(vec![punct('|'), punct('|'), joint('-'), punct('>'), ident("Foo")]).err(),
        Some(InitError::IncompleteBody)
    );
    assert_eq!(
        expand(vec![
            punct('|'),
            punct('|'),
            joint('-'),
            punct('>'),
            ident("Result"),
            punct('<'),
            ident("Foo"),
            punct(','),
            punct('_'),
            ident("x"),
            punct('>'),
            brace(vec![])
        ])
        .err(),
        Some(InitError::UnderscoreNotAlone)
    );
    assert_eq!(
        expand(vec![
            punct('|'),
            punct('|'),
            joint('-'),
            punct('>'),
            ident("Result"),
            punct('<'),
            ident("Foo"),
            punct(','),
            ident("E"),
            punct(','),
            ident("x"),
            brace(vec![])
        ])
        .err(),
        Some(InitError::ExpectedGtInResult)
    );
}
