use pin_init::fields::{check_keys, parse_entries, Entry, EntryKind, FieldsError};
use pin_init::token::{Delimiter, Spacing, TokenTree};

fn ident(s: &str) -> TokenTree {
    TokenTree::Ident(s.to_string())
}

fn lit(s: &str) -> TokenTree {
    TokenTree::Literal(s.to_string())
}

fn punct(c: char) -> TokenTree {
    TokenTree::Punct(c, Spacing::Alone)
}

fn joint(c: char) -> TokenTree {
    TokenTree::Punct(c, Spacing::Joint)
}

fn brace(v: Vec<TokenTree>) -> TokenTree {
    TokenTree::Group(Delimiter::Brace, v)
}

fn key_name(e: &Entry) -> Option<String> {
    match e {
        Entry::Field { key: TokenTree::Ident(s), .. } | Entry::Field { key: TokenTree::Literal(s), .. } => {
            Some(s.clone())
        }
        _ => None,
    }
}

#[test]
fn entries_in_written_order() {
    // _: { let x = 3; }, a: x, b <- init(y), ..Zeroable::init_zeroed()
    let toks = vec![
        punct('_'),
        punct(':'),
        brace(vec![ident("let"), ident("x"), punct('='), lit("3"), punct(';')]),
        punct(','),
        ident("a"),
        punct(':'),
        ident("x"),
        punct(','),
        ident("b"),
        joint('<'),
        punct('-'),
        ident("init"),
        TokenTree::Group(Delimiter::Parenthesis, vec![ident("y"), punct(','), ident("z")]),
        punct(','),
        joint('.'),
        punct('.'),
        ident("Zeroable"),
        joint(':'),
        punct(':'),
        ident("init_zeroed"),
        TokenTree::Group(Delimiter::Parenthesis, vec![]),
    ];
    let es = parse_entries(toks).unwrap();
    assert_eq!(es.len(), 4);
    assert!(matches!(&es[0], Entry::Stmts(s) if s.len() == 5));
    assert!(matches!(&es[1], Entry::Field { kind: EntryKind::Value, expr, .. } if expr.len() == 1));
    assert_eq!(key_name(&es[1]), Some("a".to_string()));
    assert!(matches!(&es[2], Entry::Field { kind: EntryKind::Init, expr, .. } if expr.len() == 2));
    assert_eq!(key_name(&es[2]), Some("b".to_string()));
    assert!(matches!(&es[3], Entry::ZeroRest(z) if z.len() == 5));
    assert_eq!(check_keys(&es), Ok(()));
}

#[test]
fn tuple_positions_as_keys() {
    let toks = vec![lit("0"), punct(':'), lit("42"), punct(','), lit("1"), punct(':'), lit("24")];
    let es = parse_entries(toks).unwrap();
    assert_eq!(key_name(&es[0]), Some("0".to_string()));
    assert_eq!(key_name(&es[1]), Some("1".to_string()));
    assert_eq!(check_keys(&es), Ok(()));
}

#[test]
fn duplicate_key_is_rejected() {
    let toks = vec![
        ident("a"),
        punct(':'),
        lit("1"),
        punct(','),
        ident("b"),
        punct(':'),
        lit("2"),
        punct(','),
        ident("a"),
        punct(':'),
        lit("3"),
    ];
    let es = parse_entries(toks).unwrap();
    assert_eq!(check_keys(&es), Err(FieldsError::DuplicateKey));
}

#[test]
fn malformed_entries() {
    assert_eq!(parse_entries(vec![ident("a")]).err(), Some(FieldsError::ExpectedSeparator));
    assert_eq!(
        parse_entries(vec![ident("a"), punct(':'), punct(',')]).err(),
        Some(FieldsError::MissingValue)
    );
    assert_eq!(
        parse_entries(vec![punct('_'), punct(':'), ident("x")]).err(),
        Some(FieldsError::ExpectedStmtBlock)
    );
    assert_eq!(parse_entries(vec![punct(';')]).err(), Some(FieldsError::UnexpectedToken));
    assert_eq!(
        parse_entries(vec![joint('.'), punct('.')]).err(),
        Some(FieldsError::MissingZeroInit)
    );
    assert!(parse_entries(vec![]).unwrap().is_empty());
}
