//! The field entries of an initializer literal's braces: `key: value`, `key <- initializer`,
//! `_: { statements }`, and a closing `..zero_initializer`. Keys are names or tuple
//! positions; each may appear once.
use crate::init::{is_joint, is_underscore};
use crate::token::{
    group_is, into_queue, into_vec, is_group, is_punct, punct_is, Delimiter, Spacing, TokenTree,
};
use crate::token::str_eq;
use std::collections::VecDeque;
use vstd::prelude::*;

verus! {

/// How a field is given its value.
#[derive(PartialEq, Eq, Structural, Clone, Copy, Debug)]
pub enum EntryKind {
    /// `key: value`, written as is.
    Value,
    /// `key <- init`, driven through the field's initializing function.
    Init,
}

/// One entry of the literal.
pub enum Entry {
    Field { key: TokenTree, kind: EntryKind, expr: Vec<TokenTree> },
    Stmts(Vec<TokenTree>),
    ZeroRest(Vec<TokenTree>),
}

/// An entry, with token sequences.
pub enum EntrySpec {
    Field { key: TokenTree, kind: EntryKind, expr: Seq<TokenTree> },
    Stmts(Seq<TokenTree>),
    ZeroRest(Seq<TokenTree>),
}

/// An entry with its token lists as sequences.
pub open spec fn entry_view(e: Entry) -> EntrySpec {
    match e {
        Entry::Field { key, kind, expr } => EntrySpec::Field { key, kind, expr: expr@ },
        Entry::Stmts(s) => EntrySpec::Stmts(s@),
        Entry::ZeroRest(z) => EntrySpec::ZeroRest(z@),
    }
}

/// Why the field entries are rejected.
#[derive(PartialEq, Eq, Structural, Clone, Copy, Debug)]
pub enum FieldsError {
    /// `_` is not followed by `: { ... }`.
    ExpectedStmtBlock,
    /// A key is not followed by `:` or `<-`.
    ExpectedSeparator,
    /// A key has no value or initializer.
    MissingValue,
    /// An entry starts with something other than a key, `_` or `..`.
    UnexpectedToken,
    /// `..` ends the literal.
    MissingZeroInit,
    /// The same key appears twice.
    DuplicateKey,
}

/// Length of an expression: up to the first `,` outside any group.
pub open spec fn expr_len(toks: Seq<TokenTree>) -> nat
    decreases toks.len(),
{
    if toks.len() == 0 || is_punct(toks[0], ',') {
        0
    } else {
        expr_len(toks.drop_first()) + 1
    }
}

/// A token that can be a key: a name or a tuple position.
pub open spec fn is_key(t: TokenTree) -> bool {
    t is Ident || t is Literal
}

/// Drops one leading `,`.
pub open spec fn skip_comma(toks: Seq<TokenTree>) -> Seq<TokenTree> {
    if toks.len() > 0 && is_punct(toks[0], ',') {
        toks.drop_first()
    } else {
        toks
    }
}

/// `e` in front of the entries parsed after it.
pub open spec fn prepend(e: EntrySpec, r: Result<Seq<EntrySpec>, FieldsError>) -> Result<
    Seq<EntrySpec>,
    FieldsError,
> {
    match r {
        Ok(es) => Ok(seq![e] + es),
        Err(err) => Err(err),
    }
}

/// The entries of a literal's braces.
pub open spec fn entries_spec(toks: Seq<TokenTree>) -> Result<Seq<EntrySpec>, FieldsError>
    decreases toks.len(),
    via entries_spec_decreases
{
    if toks.len() == 0 {
        Ok(Seq::empty())
    } else if toks.len() >= 2 && is_joint(toks[0], '.') && is_punct(toks[1], '.') {
        if toks.len() == 2 {
            Err(FieldsError::MissingZeroInit)
        } else {
            Ok(seq![EntrySpec::ZeroRest(toks.skip(2))])
        }
    } else if is_underscore(toks[0]) {
        if toks.len() >= 3 && is_punct(toks[1], ':') && is_group(toks[2], Delimiter::Brace) {
            match toks[2] {
                TokenTree::Group(_, s) => prepend(
                    EntrySpec::Stmts(s@),
                    entries_spec(skip_comma(toks.skip(3))),
                ),
                _ => Err(FieldsError::ExpectedStmtBlock),
            }
        } else {
            Err(FieldsError::ExpectedStmtBlock)
        }
    } else if is_key(toks[0]) {
        let sep: Option<(EntryKind, int)> = if toks.len() >= 2 && is_punct(toks[1], ':') {
            Some((EntryKind::Value, 2))
        } else if toks.len() >= 3 && is_joint(toks[1], '<') && is_punct(toks[2], '-') {
            Some((EntryKind::Init, 3))
        } else {
            None
        };
        match sep {
            None => Err(FieldsError::ExpectedSeparator),
            Some((kind, start)) => {
                let e = expr_len(toks.skip(start));
                if e == 0 {
                    Err(FieldsError::MissingValue)
                } else {
                    prepend(
                        EntrySpec::Field { key: toks[0], kind, expr: toks.subrange(start, start + e) },
                        entries_spec(skip_comma(toks.skip(start + e))),
                    )
                }
            },
        }
    } else {
        Err(FieldsError::UnexpectedToken)
    }
}

#[via_fn]
proof fn entries_spec_decreases(toks: Seq<TokenTree>) {
    lemma_expr_len(toks.skip(2));
    lemma_expr_len(toks.skip(3));
}

proof fn lemma_expr_len(toks: Seq<TokenTree>)
    ensures
        expr_len(toks) <= toks.len(),
        forall|i: int| 0 <= i < expr_len(toks) ==> !is_punct(#[trigger] toks[i], ','),
        expr_len(toks) < toks.len() ==> is_punct(toks[expr_len(toks) as int], ','),
    decreases toks.len(),
{
    if toks.len() > 0 && !is_punct(toks[0], ',') {
        lemma_expr_len(toks.drop_first());
        assert forall|i: int| 0 <= i < expr_len(toks) implies !is_punct(#[trigger] toks[i], ',') by {
            if i > 0 {
                assert(toks[i] == toks.drop_first()[i - 1]);
            }
        }
    }
}

/// Takes the tokens of one expression, up to (not including) a `,` outside any group.
fn take_expr(tokens: &mut VecDeque<TokenTree>) -> (r: Vec<TokenTree>)
    ensures
        r@ == old(tokens)@.take(expr_len(old(tokens)@) as int),
        final(tokens)@ == old(tokens)@.skip(expr_len(old(tokens)@) as int),
{
    let ghost orig = tokens@;
    proof {
        lemma_expr_len(orig);
    }
    let mut res: Vec<TokenTree> = Vec::new();
    while tokens.len() > 0 && !punct_is(&tokens[0], ',')
        invariant
            orig == old(tokens)@,
            orig == res@ + tokens@,
            expr_len(orig) == expr_len(tokens@) + res@.len(),
        decreases tokens@.len(),
    {
        let ghost cur = tokens@;
        let t = tokens.pop_front().unwrap();
        res.push(t);
        assert(tokens@ =~= cur.drop_first());
    }
    assert(orig.take(res@.len() as int) =~= res@);
    assert(orig.skip(res@.len() as int) =~= tokens@);
    res
}

/// Drops one leading `,`.
fn pop_comma(tokens: &mut VecDeque<TokenTree>)
    ensures
        final(tokens)@ == skip_comma(old(tokens)@),
{
    if tokens.len() > 0 && punct_is(&tokens[0], ',') {
        let _ = tokens.pop_front();
        assert(tokens@ =~= old(tokens)@.drop_first());
    }
}

fn parse_entries_queue(tokens: &mut VecDeque<TokenTree>) -> (r: Result<Vec<Entry>, FieldsError>)
    ensures
        match entries_spec(old(tokens)@) {
            Ok(es) => r matches Ok(v) && v@.map_values(|e: Entry| entry_view(e)) == es,
            Err(e) => r == Err::<Vec<Entry>, FieldsError>(e),
        },
    decreases old(tokens)@.len(),
{
    let ghost orig = tokens@;
    if tokens.len() == 0 {
        return Ok(Vec::new());
    }
    let dot_joint = match &tokens[0] {
        TokenTree::Punct(c, s) => *c == '.' && *s == Spacing::Joint,
        _ => false,
    };
    if tokens.len() >= 2 && dot_joint && punct_is(&tokens[1], '.') {
        if tokens.len() == 2 {
            return Err(FieldsError::MissingZeroInit);
        }
        let _ = tokens.pop_front();
        let _ = tokens.pop_front();
        let mut rest = VecDeque::new();
        core::mem::swap(&mut rest, tokens);
        assert(rest@ =~= orig.skip(2));
        let v = vec![Entry::ZeroRest(into_vec(rest))];
        assert(v@.map_values(|e: Entry| entry_view(e)) =~= entries_spec(orig)->Ok_0);
        return Ok(v);
    }
    let underscore = match &tokens[0] {
        TokenTree::Punct(c, _) => *c == '_',
        TokenTree::Ident(s) => str_eq(s.as_str(), "_"),
        _ => false,
    };
    if underscore {
        if !(tokens.len() >= 3 && punct_is(&tokens[1], ':') && group_is(&tokens[2], Delimiter::Brace)) {
            return Err(FieldsError::ExpectedStmtBlock);
        }
        let _ = tokens.pop_front();
        let _ = tokens.pop_front();
        let g = tokens.pop_front().unwrap();
        assert(tokens@ =~= orig.skip(3));
        let body = match g {
            TokenTree::Group(_, s) => s,
            _ => {
                return Err(FieldsError::ExpectedStmtBlock);
            },
        };
        pop_comma(tokens);
        let mut rest = match parse_entries_queue(tokens) {
            Ok(v) => v,
            Err(e) => return Err(e),
        };
        let ghost rv = rest@;
        rest.insert(0, Entry::Stmts(body));
        assert(rest@.map_values(|e: Entry| entry_view(e)) =~= seq![entry_view(rest@[0])]
            + rv.map_values(|e: Entry| entry_view(e)));
        return Ok(rest);
    }
    let is_key_tok = match &tokens[0] {
        TokenTree::Ident(_) | TokenTree::Literal(_) => true,
        _ => false,
    };
    if !is_key_tok {
        return Err(FieldsError::UnexpectedToken);
    }
    let lt_joint = tokens.len() >= 2 && match &tokens[1] {
        TokenTree::Punct(c, s) => *c == '<' && *s == Spacing::Joint,
        _ => false,
    };
    let kind = if tokens.len() >= 2 && punct_is(&tokens[1], ':') {
        EntryKind::Value
    } else if tokens.len() >= 3 && lt_joint && punct_is(&tokens[2], '-') {
        EntryKind::Init
    } else {
        return Err(FieldsError::ExpectedSeparator);
    };
    let ghost start: int = if kind == EntryKind::Value { 2 } else { 3 };
    let key = tokens.pop_front().unwrap();
    let _ = tokens.pop_front();
    if kind == EntryKind::Init {
        let _ = tokens.pop_front();
    }
    assert(tokens@ =~= orig.skip(start));
    proof {
        lemma_expr_len(orig.skip(start));
    }
    let expr = take_expr(tokens);
    if expr.len() == 0 {
        return Err(FieldsError::MissingValue);
    }
    proof {
        let e = expr_len(orig.skip(start));
        assert(expr@ =~= orig.subrange(start, start + e));
        assert(tokens@ =~= orig.skip(start + e));
    }
    pop_comma(tokens);
    let mut rest = match parse_entries_queue(tokens) {
        Ok(v) => v,
        Err(e) => return Err(e),
    };
    let ghost rv = rest@;
    rest.insert(0, Entry::Field { key, kind, expr });
    assert(rest@.map_values(|e: Entry| entry_view(e)) =~= seq![entry_view(rest@[0])]
        + rv.map_values(|e: Entry| entry_view(e)));
    Ok(rest)
}

/// Parses the entries between a literal's braces, in the order written.
pub fn parse_entries(fields: Vec<TokenTree>) -> (r: Result<Vec<Entry>, FieldsError>)
    ensures
        match entries_spec(fields@) {
            Ok(es) => r matches Ok(v) && v@.map_values(|e: Entry| entry_view(e)) == es,
            Err(e) => r == Err::<Vec<Entry>, FieldsError>(e),
        },
{
    let mut q = into_queue(fields);
    parse_entries_queue(&mut q)
}


/// Two keys name the same field.
pub open spec fn key_eq(a: TokenTree, b: TokenTree) -> bool {
    match (a, b) {
        (TokenTree::Ident(x), TokenTree::Ident(y)) => x@ == y@,
        (TokenTree::Literal(x), TokenTree::Literal(y)) => x@ == y@,
        _ => false,
    }
}

/// The key of entry `e`, if it initializes a field.
pub open spec fn key_of(e: EntrySpec) -> Option<TokenTree> {
    match e {
        EntrySpec::Field { key, .. } => Some(key),
        _ => None,
    }
}

/// Entries `i` and `j` initialize the same field.
pub open spec fn same_field(es: Seq<EntrySpec>, i: int, j: int) -> bool {
    &&& key_of(es[i]) is Some
    &&& key_of(es[j]) is Some
    &&& key_eq(key_of(es[i])->0, key_of(es[j])->0)
}

/// No field is initialized twice.
pub open spec fn keys_distinct(es: Seq<EntrySpec>) -> bool {
    forall|i: int, j: int| 0 <= i < j < es.len() ==> !#[trigger] same_field(es, i, j)
}

fn same_key(a: &TokenTree, b: &TokenTree) -> (r: bool)
    ensures
        r == key_eq(*a, *b),
{
    match (a, b) {
        (TokenTree::Ident(x), TokenTree::Ident(y)) => str_eq(x.as_str(), y.as_str()),
        (TokenTree::Literal(x), TokenTree::Literal(y)) => str_eq(x.as_str(), y.as_str()),
        _ => false,
    }
}

fn entry_key(e: &Entry) -> (r: Option<&TokenTree>)
    ensures
        match key_of(entry_view(*e)) {
            Some(k) => r == Some(&k),
            None => r is None,
        },
{
    match e {
        Entry::Field { key, .. } => Some(key),
        _ => None,
    }
}

/// Checks that no field is initialized twice, keeping the list of keys seen so far.
pub fn check_keys(entries: &Vec<Entry>) -> (r: Result<(), FieldsError>)
    ensures
        r is Ok <==> keys_distinct(entries@.map_values(|e: Entry| entry_view(e))),
        r is Err ==> r == Err::<(), FieldsError>(FieldsError::DuplicateKey),
{
    let ghost es = entries@.map_values(|e: Entry| entry_view(e));
    let mut i: usize = 0;
    while i < entries.len()
        invariant
            es == entries@.map_values(|e: Entry| entry_view(e)),
            i <= entries@.len(),
            forall|a: int, b: int| 0 <= a < b < i ==> !#[trigger] same_field(es, a, b),
        decreases entries@.len() - i,
    {
        assert(es[i as int] == entry_view(entries@[i as int]));
        match entry_key(&entries[i]) {
            None => {},
            Some(ki) => {
                let mut j: usize = 0;
                while j < i
                    invariant
                        es == entries@.map_values(|e: Entry| entry_view(e)),
                        j <= i,
                        i < entries@.len(),
                        key_of(es[i as int]) == Some(*ki),
                        forall|a: int| 0 <= a < j ==> !#[trigger] same_field(es, a, i as int),
                    decreases i - j,
                {
                    assert(es[j as int] == entry_view(entries@[j as int]));
                    match entry_key(&entries[j]) {
                        Some(kj) => {
                            if same_key(kj, ki) {
                                assert(same_field(es, j as int, i as int));
                                return Err(FieldsError::DuplicateKey);
                            }
                        },
                        None => {},
                    }
                    j = j + 1;
                }
            },
        }
        i = i + 1;
    }
    Ok(())
}

} // verus!
