//! Front end of the initializer-expression macro.
//!
//! It reads optional attributes (`#[default_error(E)]`), an optional closure signature
//! (`|args| -> T` or `|args| -> Result<T, E>`), and then either a braced body of statements
//! ending in a struct literal, or directly a struct literal `Path { fields }`, optionally
//! followed by `? E`. Every spec function below reads a token sequence from its front and
//! says how many tokens it consumes.
use crate::token::{
    group_is, group_stream, ident_is, into_queue, into_vec, is_group, is_ident, is_punct,
    punct_char, punct_is, Delimiter, Spacing, TokenTree,
};
use std::collections::VecDeque;
use vstd::prelude::*;

verus! {

/// Why an initializer expression was rejected while expanding it.
#[derive(PartialEq, Eq, Structural, Clone, Copy, Debug)]
pub enum InitError {
    /// The input ended before an initializer body was found.
    MissingBody,
    /// The input ended in the middle of the expression.
    IncompleteBody,
    /// Tokens follow the braced body of a closure.
    UnexpectedAfterBody,
    /// A closure signature is not followed by a braced body.
    ExpectedBodyWithClosure,
    /// The struct literal does not end in a `{ ... }` group.
    ExpectedBraceLast,
    /// `#` is not followed by `[...]`.
    ExpectedBracketAfterHash,
    /// An attribute is empty.
    ExpectedAttrName,
    /// An attribute starts with something other than a name.
    UnexpectedInAttr,
    /// An attribute other than `pin` and `default_error`.
    UnknownAttrName,
    /// `#[pin]` carries arguments.
    UnexpectedInPinAttr,
    /// A closure argument is followed by something other than `,`, `|` or `:`.
    ExpectedCommaAfterArg,
    /// A closure signature holds something other than arguments.
    UnexpectedInSignature,
    /// `-` in a closure signature is not followed by `>`.
    ExpectedArrow,
    /// `Result` is not followed by `<`.
    ExpectedLtAfterResult,
    /// A trailing `,` in `Result<..., ...,` is not followed by `>`.
    ExpectedGtInResult,
    /// An error type that starts with `_` holds more than `_`.
    UnderscoreNotAlone,
    /// `_` as error type without a `#[default_error(...)]` attribute.
    MissingDefaultError,
    /// More `>` than `<` in a type.
    NegativeNesting,
}

/// An attribute in front of the expression.
pub enum Attr {
    Pin,
    DefaultError(Vec<TokenTree>),
}

/// An attribute, with its tokens as a sequence.
pub enum AttrSpec {
    Pin,
    DefaultError(Seq<TokenTree>),
}

/// An attribute with its tokens as a sequence.
pub open spec fn attr_view(a: Attr) -> AttrSpec {
    match a {
        Attr::Pin => AttrSpec::Pin,
        Attr::DefaultError(v) => AttrSpec::DefaultError(v@),
    }
}

/// The error half of a closure's `Result<T, E>` return type.
pub enum ErrSpec {
    Absent,
    Placeholder,
    Given(Seq<TokenTree>),
}

/// What the closure signature contributes.
pub struct ClosureSpec {
    pub ty: Option<Seq<TokenTree>>,
    pub err: ErrSpec,
}

/// What the expansion hands to the code generator.
pub struct ExpansionSpec {
    pub statements: Seq<Seq<TokenTree>>,
    pub ty: Option<Seq<TokenTree>>,
    pub err: Option<Seq<TokenTree>>,
    pub path: Seq<TokenTree>,
    pub fields: Seq<TokenTree>,
}

/// The parsed initializer expression. `ty` is `None` where the type is left to inference,
/// `err` is `None` where the initializer cannot fail.
pub struct InitExpansion {
    pub statements: Vec<Vec<TokenTree>>,
    pub ty: Option<Vec<TokenTree>>,
    pub err: Option<Vec<TokenTree>>,
    pub path: Vec<TokenTree>,
    pub fields: Vec<TokenTree>,
}

/// An optional token list as an optional sequence.
pub open spec fn opt_view(o: Option<Vec<TokenTree>>) -> Option<Seq<TokenTree>> {
    match o {
        Some(v) => Some(v@),
        None => None,
    }
}

/// A parsed expression with its token lists as sequences.
pub open spec fn expansion_view(e: InitExpansion) -> ExpansionSpec {
    ExpansionSpec {
        statements: e.statements@.map_values(|s: Vec<TokenTree>| s@),
        ty: opt_view(e.ty),
        err: opt_view(e.err),
        path: e.path@,
        fields: e.fields@,
    }
}

/// A consumed length, `k` tokens further on.
pub open spec fn shift(r: Result<nat, InitError>, k: nat) -> Result<nat, InitError> {
    match r {
        Ok(n) => Ok(n + k),
        Err(e) => Err(e),
    }
}

/// Length of a type that ends before a character of `stop` seen outside any `<...>`.
pub open spec fn ty_len_punct(toks: Seq<TokenTree>, stop: Seq<char>, nest: nat) -> Result<
    nat,
    InitError,
>
    decreases toks.len(),
{
    if toks.len() == 0 {
        Err(InitError::IncompleteBody)
    } else {
        match toks[0] {
            TokenTree::Punct(c, _) => {
                if nest == 0 && stop.contains(c) {
                    Ok(0)
                } else if c == '<' {
                    shift(ty_len_punct(toks.drop_first(), stop, nest + 1), 1)
                } else if c == '>' {
                    if nest == 0 {
                        Err(InitError::NegativeNesting)
                    } else {
                        shift(ty_len_punct(toks.drop_first(), stop, (nest - 1) as nat), 1)
                    }
                } else {
                    shift(ty_len_punct(toks.drop_first(), stop, nest), 1)
                }
            },
            _ => shift(ty_len_punct(toks.drop_first(), stop, nest), 1),
        }
    }
}

/// Length of a type that ends before a `{ ... }` group seen outside any `<...>`.
pub open spec fn ty_len_brace(toks: Seq<TokenTree>, nest: nat) -> Result<nat, InitError>
    decreases toks.len(),
{
    if toks.len() == 0 {
        Err(InitError::IncompleteBody)
    } else {
        match toks[0] {
            TokenTree::Punct(c, _) => {
                if c == '<' {
                    shift(ty_len_brace(toks.drop_first(), nest + 1), 1)
                } else if c == '>' {
                    if nest == 0 {
                        Err(InitError::NegativeNesting)
                    } else {
                        shift(ty_len_brace(toks.drop_first(), (nest - 1) as nat), 1)
                    }
                } else {
                    shift(ty_len_brace(toks.drop_first(), nest), 1)
                }
            },
            TokenTree::Group(d, _) => {
                if nest == 0 && d == Delimiter::Brace {
                    Ok(0)
                } else {
                    shift(ty_len_brace(toks.drop_first(), nest), 1)
                }
            },
            _ => shift(ty_len_brace(toks.drop_first(), nest), 1),
        }
    }
}

/// Where the scan succeeds it stops at a character of `stop`.
proof fn lemma_ty_len_punct_stops(toks: Seq<TokenTree>, stop: Seq<char>, nest: nat)
    ensures
        ty_len_punct(toks, stop, nest) matches Ok(n) ==> {
            &&& n < toks.len()
            &&& toks[n as int] matches TokenTree::Punct(c, _) && stop.contains(c)
        },
    decreases toks.len(),
{
    if toks.len() > 0 {
        let rest = toks.drop_first();
        match toks[0] {
            TokenTree::Punct(c, _) => {
                if c == '<' {
                    lemma_ty_len_punct_stops(rest, stop, nest + 1);
                } else if c == '>' && nest > 0 {
                    lemma_ty_len_punct_stops(rest, stop, (nest - 1) as nat);
                } else {
                    lemma_ty_len_punct_stops(rest, stop, nest);
                }
            },
            _ => lemma_ty_len_punct_stops(rest, stop, nest),
        }
        if let Ok(n) = ty_len_punct(toks, stop, nest) {
            if n > 0 {
                assert(toks[n as int] == rest[n - 1]);
            }
        }
    }
}

/// Whether `c` is one of `set`.
fn char_in(c: char, set: &Vec<char>) -> (r: bool)
    ensures
        r == set@.contains(c),
{
    let mut i: usize = 0;
    while i < set.len()
        invariant
            i <= set@.len(),
            forall|j: int| 0 <= j < i ==> set@[j] != c,
        decreases set@.len() - i,
    {
        if set[i] == c {
            return true;
        }
        i = i + 1;
    }
    false
}

/// Collects the tokens of a type up to (not including) a character of `stop` at nesting
/// level zero.
fn parse_ty_until_punct(tokens: &mut VecDeque<TokenTree>, stop: &Vec<char>) -> (r: Result<
    Vec<TokenTree>,
    InitError,
>)
    ensures
        match ty_len_punct(old(tokens)@, stop@, 0) {
            Ok(n) => {
                &&& n <= old(tokens)@.len()
                &&& final(tokens)@ == old(tokens)@.skip(n as int)
                &&& r matches Ok(ty) && ty@ == old(tokens)@.take(n as int)
            },
            Err(e) => r == Err::<Vec<TokenTree>, InitError>(e),
        },
{
    let ghost orig = tokens@;
    let total = tokens.len();
    let mut nesting: usize = 0;
    let mut res: Vec<TokenTree> = Vec::new();
    loop
        invariant
            orig == old(tokens)@,
            orig.len() == total,
            orig == res@ + tokens@,
            nesting <= res@.len(),
            ty_len_punct(orig, stop@, 0) == shift(
                ty_len_punct(tokens@, stop@, nesting as nat),
                res@.len(),
            ),
        decreases tokens@.len(),
    {
        if tokens.len() == 0 {
            return Err(InitError::IncompleteBody);
        }
        let ghost cur = tokens@;
        match punct_char(&tokens[0]) {
            Some(c) => {
                if nesting == 0 && char_in(c, stop) {
                    assert(orig.take(res@.len() as int) =~= res@);
                    assert(orig.skip(res@.len() as int) =~= tokens@);
                    return Ok(res);
                }
                if c == '<' {
                    nesting = nesting + 1;
                } else if c == '>' {
                    if nesting == 0 {
                        return Err(InitError::NegativeNesting);
                    }
                    nesting = nesting - 1;
                }
            },
            None => {},
        }
        let t = tokens.pop_front().unwrap();
        res.push(t);
        assert(tokens@ =~= cur.drop_first());
    }
}

/// Collects the tokens of a type up to (not including) a `{ ... }` group at nesting level
/// zero.
fn parse_ty_until_brace(tokens: &mut VecDeque<TokenTree>) -> (r: Result<
    Vec<TokenTree>,
    InitError,
>)
    ensures
        match ty_len_brace(old(tokens)@, 0) {
            Ok(n) => {
                &&& n <= old(tokens)@.len()
                &&& final(tokens)@ == old(tokens)@.skip(n as int)
                &&& r matches Ok(ty) && ty@ == old(tokens)@.take(n as int)
            },
            Err(e) => r == Err::<Vec<TokenTree>, InitError>(e),
        },
{
    let ghost orig = tokens@;
    let total = tokens.len();
    let mut nesting: usize = 0;
    let mut res: Vec<TokenTree> = Vec::new();
    loop
        invariant
            orig == old(tokens)@,
            orig.len() == total,
            orig == res@ + tokens@,
            nesting <= res@.len(),
            ty_len_brace(orig, 0) == shift(ty_len_brace(tokens@, nesting as nat), res@.len()),
        decreases tokens@.len(),
    {
        if tokens.len() == 0 {
            return Err(InitError::IncompleteBody);
        }
        let ghost cur = tokens@;
        match punct_char(&tokens[0]) {
            Some(c) => {
                if c == '<' {
                    nesting = nesting + 1;
                } else if c == '>' {
                    if nesting == 0 {
                        return Err(InitError::NegativeNesting);
                    }
                    nesting = nesting - 1;
                }
            },
            None => {
                if nesting == 0 && group_is(&tokens[0], Delimiter::Brace) {
                    assert(orig.take(res@.len() as int) =~= res@);
                    assert(orig.skip(res@.len() as int) =~= tokens@);
                    return Ok(res);
                }
            },
        }
        let t = tokens.pop_front().unwrap();
        res.push(t);
        assert(tokens@ =~= cur.drop_first());
    }
}


/// What one attribute's tokens (inside `#[...]`) mean.
pub open spec fn attr_spec(meta: Seq<TokenTree>) -> Result<AttrSpec, InitError> {
    if meta.len() == 0 {
        Err(InitError::ExpectedAttrName)
    } else if is_ident(meta[0], "pin"@) {
        if meta.len() == 1 {
            Ok(AttrSpec::Pin)
        } else {
            Err(InitError::UnexpectedInPinAttr)
        }
    } else if is_ident(meta[0], "default_error"@) {
        Ok(AttrSpec::DefaultError(meta.drop_first()))
    } else if meta[0] is Ident {
        Err(InitError::UnknownAttrName)
    } else {
        Err(InitError::UnexpectedInAttr)
    }
}

/// The leading `#[...]` attributes and how many tokens they take.
pub open spec fn attrs_spec(toks: Seq<TokenTree>) -> Result<(Seq<AttrSpec>, nat), InitError>
    decreases toks.len(),
{
    if toks.len() == 0 {
        Err(InitError::MissingBody)
    } else if is_punct(toks[0], '#') {
        if toks.len() >= 2 && is_group(toks[1], Delimiter::Bracket) {
            match attr_spec(group_stream(toks[1])) {
                Err(e) => Err(e),
                Ok(a) => match attrs_spec(toks.skip(2)) {
                    Ok((rest, n)) => Ok((seq![a] + rest, n + 2)),
                    Err(e) => Err(e),
                },
            }
        } else {
            Err(InitError::ExpectedBracketAfterHash)
        }
    } else {
        Ok((Seq::empty(), 0))
    }
}

/// The tokens of the last `#[default_error(...)]` attribute.
pub open spec fn last_default_error(attrs: Seq<AttrSpec>) -> Option<Seq<TokenTree>>
    decreases attrs.len(),
{
    if attrs.len() == 0 {
        None
    } else {
        match attrs.last() {
            AttrSpec::DefaultError(t) => Some(t),
            AttrSpec::Pin => last_default_error(attrs.drop_last()),
        }
    }
}

fn parse_attr(meta: Vec<TokenTree>) -> (r: Result<Attr, InitError>)
    ensures
        match attr_spec(meta@) {
            Ok(a) => r matches Ok(x) && attr_view(x) == a,
            Err(e) => r == Err::<Attr, InitError>(e),
        },
{
    if meta.len() == 0 {
        return Err(InitError::ExpectedAttrName);
    }
    if ident_is(&meta[0], "pin") {
        if meta.len() == 1 {
            Ok(Attr::Pin)
        } else {
            Err(InitError::UnexpectedInPinAttr)
        }
    } else if ident_is(&meta[0], "default_error") {
        let ghost m = meta@;
        let mut q = into_queue(meta);
        let _ = q.pop_front();
        let rest = into_vec(q);
        assert(rest@ =~= m.drop_first());
        Ok(Attr::DefaultError(rest))
    } else {
        match &meta[0] {
            TokenTree::Ident(_) => Err(InitError::UnknownAttrName),
            _ => Err(InitError::UnexpectedInAttr),
        }
    }
}

fn parse_attrs(tokens: &mut VecDeque<TokenTree>) -> (r: Result<Vec<Attr>, InitError>)
    ensures
        match attrs_spec(old(tokens)@) {
            Ok((attrs, n)) => {
                &&& n <= old(tokens)@.len()
                &&& final(tokens)@ == old(tokens)@.skip(n as int)
                &&& r matches Ok(v) && v@.map_values(|a: Attr| attr_view(a)) == attrs
            },
            Err(e) => r == Err::<Vec<Attr>, InitError>(e),
        },
    decreases old(tokens)@.len(),
{
    let ghost orig = tokens@;
    if tokens.len() == 0 {
        return Err(InitError::MissingBody);
    }
    if !punct_is(&tokens[0], '#') {
        assert(orig.skip(0) =~= orig);
        return Ok(Vec::new());
    }
    if !(tokens.len() >= 2 && group_is(&tokens[1], Delimiter::Bracket)) {
        return Err(InitError::ExpectedBracketAfterHash);
    }
    let _ = tokens.pop_front();
    let g = tokens.pop_front().unwrap();
    assert(tokens@ =~= orig.skip(2));
    let attr = match g {
        TokenTree::Group(_, s) => parse_attr(s),
        _ => Err(InitError::ExpectedBracketAfterHash),
    };
    let attr = match attr {
        Ok(a) => a,
        Err(e) => return Err(e),
    };
    let mut rest = match parse_attrs(tokens) {
        Ok(v) => v,
        Err(e) => return Err(e),
    };
    let ghost rv = rest@;
    rest.insert(0, attr);
    proof {
        let f = |a: Attr| attr_view(a);
        assert(rest@.map_values(f) =~= seq![attr_view(attr)] + rv.map_values(f));
        let n = attrs_spec(orig.skip(2))->Ok_0.1;
        assert(orig.skip(2).skip(n as int) =~= orig.skip((n + 2) as int));
    }
    Ok(rest)
}

/// Keeps the tokens of the last `#[default_error(...)]` attribute.
fn take_default_error(list: Vec<Attr>) -> (r: Option<Vec<TokenTree>>)
    ensures
        opt_view(r) == last_default_error(list@.map_values(|a: Attr| attr_view(a))),
{
    let ghost orig = list@;
    let mut attrs = list;
    loop
        invariant
            orig == list@,
            last_default_error(orig.map_values(|a: Attr| attr_view(a)))
                == last_default_error(attrs@.map_values(|a: Attr| attr_view(a))),
        decreases attrs@.len(),
    {
        let ghost before = attrs@;
        match attrs.pop() {
            None => {
                return None;
            },
            Some(Attr::DefaultError(t)) => {
                return Some(t);
            },
            Some(Attr::Pin) => {
                assert(before.map_values(|a: Attr| attr_view(a)).drop_last() =~= attrs@.map_values(
                    |a: Attr| attr_view(a),
                ));
            },
        }
    }
}

/// `t` stands for an error type left open (`_`).
pub open spec fn is_underscore(t: TokenTree) -> bool {
    is_punct(t, '_') || is_ident(t, "_"@)
}

/// `t` is `c` joined to the next punctuation character.
pub open spec fn is_joint(t: TokenTree, c: char) -> bool {
    match t {
        TokenTree::Punct(p, s) => p == c && s == Spacing::Joint,
        _ => false,
    }
}

/// How many tokens the closure arguments take, up to and including the closing `|` (the
/// opening `|` already consumed).
pub open spec fn args_spec(toks: Seq<TokenTree>) -> Result<nat, InitError>
    decreases toks.len(),
{
    if toks.len() == 0 {
        Err(InitError::IncompleteBody)
    } else if toks[0] is Ident {
        let after_name: Result<nat, InitError> = if toks.len() >= 2 && is_punct(toks[1], ':') {
            shift(ty_len_punct(toks.skip(2), seq![',', '|'], 0), 2)
        } else {
            Ok(1)
        };
        match after_name {
            Err(e) => Err(e),
            Ok(k) => if k >= toks.len() {
                Err(InitError::IncompleteBody)
            } else if is_punct(toks[k as int], ',') {
                shift(args_spec(toks.skip((k + 1) as int)), k + 1)
            } else if is_punct(toks[k as int], '|') {
                Ok(k + 1)
            } else {
                Err(InitError::ExpectedCommaAfterArg)
            },
        }
    } else if is_punct(toks[0], '|') {
        Ok(1)
    } else {
        Err(InitError::UnexpectedInSignature)
    }
}

fn parse_args(tokens: &mut VecDeque<TokenTree>) -> (r: Result<(), InitError>)
    ensures
        match args_spec(old(tokens)@) {
            Ok(n) => n <= old(tokens)@.len() && r is Ok && final(tokens)@ == old(tokens)@.skip(
                n as int,
            ),
            Err(e) => r == Err::<(), InitError>(e),
        },
    decreases old(tokens)@.len(),
{
    let ghost orig = tokens@;
    if tokens.len() == 0 {
        return Err(InitError::IncompleteBody);
    }
    let is_name = match &tokens[0] {
        TokenTree::Ident(_) => true,
        _ => false,
    };
    if !is_name {
        if punct_is(&tokens[0], '|') {
            let _ = tokens.pop_front();
            return Ok(());
        }
        return Err(InitError::UnexpectedInSignature);
    }
    let _ = tokens.pop_front();
    if tokens.len() >= 1 && punct_is(&tokens[0], ':') {
        let _ = tokens.pop_front();
        assert(tokens@ =~= orig.skip(2));
        let stop: Vec<char> = vec![',', '|'];
        assert(stop@ =~= seq![',', '|']);
        match parse_ty_until_punct(tokens, &stop) {
            Ok(_) => {},
            Err(e) => return Err(e),
        }
        proof {
            let a = ty_len_punct(orig.skip(2), seq![',', '|'], 0)->Ok_0;
            assert(tokens@ =~= orig.skip((a + 2) as int));
        }
    } else {
        assert(tokens@ =~= orig.skip(1));
    }
    if tokens.len() == 0 {
        return Err(InitError::IncompleteBody);
    }
    if punct_is(&tokens[0], ',') {
        let ghost mid = tokens@;
        let _ = tokens.pop_front();
        assert(tokens@ =~= mid.drop_first());
        proof {
            let k = (orig.len() - mid.len()) as nat;
            assert(mid =~= orig.skip(k as int));
            assert(tokens@ =~= orig.skip((k + 1) as int));
        }
        let r = parse_args(tokens);
        proof {
            let k = (orig.len() - mid.len()) as nat;
            if let Ok(n) = args_spec(orig.skip((k + 1) as int)) {
                assert(orig.skip((k + 1) as int).skip(n as int) =~= orig.skip((n + k + 1) as int));
            }
        }
        r
    } else if punct_is(&tokens[0], '|') {
        let ghost mid = tokens@;
        let _ = tokens.pop_front();
        proof {
            let k = (orig.len() - mid.len()) as nat;
            assert(mid =~= orig.skip(k as int));
            assert(tokens@ =~= orig.skip((k + 1) as int));
        }
        Ok(())
    } else {
        Err(InitError::ExpectedCommaAfterArg)
    }
}


/// The error half of a closure's return type.
pub enum ErrType {
    Absent,
    Placeholder,
    Given(Vec<TokenTree>),
}

/// An error half with its tokens as a sequence.
pub open spec fn err_type_view(e: ErrType) -> ErrSpec {
    match e {
        ErrType::Absent => ErrSpec::Absent,
        ErrType::Placeholder => ErrSpec::Placeholder,
        ErrType::Given(v) => ErrSpec::Given(v@),
    }
}

/// The return type after `->`: `Result<T, E>` or a type ending before the body's `{`.
pub open spec fn ret_ty_spec(toks: Seq<TokenTree>) -> Result<
    (Option<Seq<TokenTree>>, ErrSpec, nat),
    InitError,
> {
    if toks.len() == 0 {
        Err(InitError::IncompleteBody)
    } else if is_ident(toks[0], "Result"@) {
        if !(toks.len() >= 2 && is_punct(toks[1], '<')) {
            Err(InitError::ExpectedLtAfterResult)
        } else {
            match ty_len_punct(toks.skip(2), seq![','], 0) {
                Err(e) => Err(e),
                Ok(a) => {
                    let i: int = a as int + 2;
                    match ty_len_punct(toks.skip(i + 1), seq![',', '>'], 0) {
                        Err(e) => Err(e),
                        Ok(b) => {
                            let j: int = i + 1 + b as int;
                            let err = toks.subrange(i + 1, j);
                            let end: Result<nat, InitError> = if is_punct(toks[j], ',') {
                                if j + 1 < toks.len() && is_punct(toks[j + 1], '>') {
                                    Ok((j + 2) as nat)
                                } else {
                                    Err(InitError::ExpectedGtInResult)
                                }
                            } else {
                                Ok((j + 1) as nat)
                            };
                            match end {
                                Err(e) => Err(e),
                                Ok(n) => if err.len() > 0 && is_underscore(err[0]) {
                                    if err.len() == 1 {
                                        Ok((Some(toks.subrange(2, i)), ErrSpec::Placeholder, n))
                                    } else {
                                        Err(InitError::UnderscoreNotAlone)
                                    }
                                } else {
                                    Ok((Some(toks.subrange(2, i)), ErrSpec::Given(err), n))
                                },
                            }
                        },
                    }
                },
            }
        }
    } else {
        match ty_len_brace(toks, 0) {
            Ok(a) => Ok((Some(toks.take(a as int)), ErrSpec::Absent, a)),
            Err(e) => Err(e),
        }
    }
}

/// The closure's `-> ...` part, if any.
pub open spec fn ret_spec(toks: Seq<TokenTree>) -> Result<
    (Option<Seq<TokenTree>>, ErrSpec, nat),
    InitError,
> {
    if toks.len() >= 1 && is_joint(toks[0], '-') {
        if toks.len() < 2 {
            Err(InitError::IncompleteBody)
        } else if !is_punct(toks[1], '>') {
            Err(InitError::ExpectedArrow)
        } else {
            match ret_ty_spec(toks.skip(2)) {
                Ok((ty, err, n)) => Ok((ty, err, n + 2)),
                Err(e) => Err(e),
            }
        }
    } else {
        Ok((None, ErrSpec::Absent, 0))
    }
}

/// The optional closure signature `|args| -> R` and how many tokens it takes.
pub open spec fn closure_spec(toks: Seq<TokenTree>) -> Result<
    (Option<ClosureSpec>, nat),
    InitError,
> {
    if toks.len() == 0 {
        Err(InitError::MissingBody)
    } else if !is_punct(toks[0], '|') {
        Ok((None, 0))
    } else {
        match args_spec(toks.drop_first()) {
            Err(e) => Err(e),
            Ok(a) => match ret_spec(toks.skip(a + 1 as int)) {
                Err(e) => Err(e),
                Ok((ty, err, b)) => Ok((Some(ClosureSpec { ty, err }), a + 1 + b)),
            },
        }
    }
}

/// Pops the front token, which must be there.
fn pop_known(tokens: &mut VecDeque<TokenTree>) -> (t: TokenTree)
    requires
        old(tokens)@.len() > 0,
    ensures
        t == old(tokens)@[0],
        final(tokens)@ == old(tokens)@.drop_first(),
{
    let t = tokens.pop_front().unwrap();
    assert(tokens@ =~= old(tokens)@.drop_first());
    t
}

/// Whether the front token is the punctuation character `c`.
fn front_is(tokens: &VecDeque<TokenTree>, c: char) -> (r: bool)
    ensures
        r == (tokens@.len() > 0 && is_punct(tokens@[0], c)),
{
    tokens.len() > 0 && punct_is(&tokens[0], c)
}

fn parse_ret_ty(tokens: &mut VecDeque<TokenTree>) -> (r: Result<
    (Option<Vec<TokenTree>>, ErrType),
    InitError,
>)
    ensures
        match ret_ty_spec(old(tokens)@) {
            Ok((ty, err, n)) => {
                &&& n <= old(tokens)@.len()
                &&& final(tokens)@ == old(tokens)@.skip(n as int)
                &&& r matches Ok((t, e)) && opt_view(t) == ty && err_type_view(e) == err
            },
            Err(e) => r == Err::<(Option<Vec<TokenTree>>, ErrType), InitError>(e),
        },
{
    let ghost orig = tokens@;
    if tokens.len() == 0 {
        return Err(InitError::IncompleteBody);
    }
    if !ident_is(&tokens[0], "Result") {
        let ty = match parse_ty_until_brace(tokens) {
            Ok(t) => t,
            Err(e) => return Err(e),
        };
        return Ok((Some(ty), ErrType::Absent));
    }
    let _ = pop_known(tokens);
    if !front_is(tokens, '<') {
        return Err(InitError::ExpectedLtAfterResult);
    }
    let _ = pop_known(tokens);
    assert(tokens@ =~= orig.skip(2));
    let stop1: Vec<char> = vec![','];
    assert(stop1@ =~= seq![',']);
    let ty = match parse_ty_until_punct(tokens, &stop1) {
        Ok(t) => t,
        Err(e) => return Err(e),
    };
    let ghost a = ty_len_punct(orig.skip(2), seq![','], 0)->Ok_0;
    let ghost i: int = a as int + 2;
    assert(tokens@ =~= orig.skip(i));
    assert(ty@ =~= orig.subrange(2, i));
    proof {
        lemma_ty_len_punct_stops(orig.skip(2), seq![','], 0);
        assert(tokens@[0] == orig.skip(2)[a as int]);
    }
    let _ = pop_known(tokens);
    assert(tokens@ =~= orig.skip(i + 1));
    let stop2: Vec<char> = vec![',', '>'];
    assert(stop2@ =~= seq![',', '>']);
    let err = match parse_ty_until_punct(tokens, &stop2) {
        Ok(t) => t,
        Err(e) => return Err(e),
    };
    let ghost b = ty_len_punct(orig.skip(i + 1), seq![',', '>'], 0)->Ok_0;
    let ghost j: int = i + 1 + b as int;
    assert(tokens@ =~= orig.skip(j));
    assert(err@ =~= orig.subrange(i + 1, j));
    proof {
        lemma_ty_len_punct_stops(orig.skip(i + 1), seq![',', '>'], 0);
        assert(tokens@[0] == orig.skip(i + 1)[b as int]);
    }
    if front_is(tokens, ',') {
        let _ = pop_known(tokens);
        if !front_is(tokens, '>') {
            return Err(InitError::ExpectedGtInResult);
        }
        let _ = pop_known(tokens);
        assert(tokens@ =~= orig.skip(j + 2));
    } else {
        let _ = pop_known(tokens);
        assert(tokens@ =~= orig.skip(j + 1));
    }
    if err.len() > 0 && (punct_is(&err[0], '_') || ident_is(&err[0], "_")) {
        if err.len() == 1 {
            Ok((Some(ty), ErrType::Placeholder))
        } else {
            Err(InitError::UnderscoreNotAlone)
        }
    } else {
        Ok((Some(ty), ErrType::Given(err)))
    }
}

fn parse_ret(tokens: &mut VecDeque<TokenTree>) -> (r: Result<
    (Option<Vec<TokenTree>>, ErrType),
    InitError,
>)
    ensures
        match ret_spec(old(tokens)@) {
            Ok((ty, err, n)) => {
                &&& n <= old(tokens)@.len()
                &&& final(tokens)@ == old(tokens)@.skip(n as int)
                &&& r matches Ok((t, e)) && opt_view(t) == ty && err_type_view(e) == err
            },
            Err(e) => r == Err::<(Option<Vec<TokenTree>>, ErrType), InitError>(e),
        },
{
    let ghost orig = tokens@;
    let joint = tokens.len() > 0 && match &tokens[0] {
        TokenTree::Punct(c, sp) => *c == '-' && *sp == Spacing::Joint,
        _ => false,
    };
    if !joint {
        assert(orig.skip(0) =~= orig);
        return Ok((None, ErrType::Absent));
    }
    let _ = pop_known(tokens);
    if tokens.len() == 0 {
        return Err(InitError::IncompleteBody);
    }
    if !front_is(tokens, '>') {
        return Err(InitError::ExpectedArrow);
    }
    let _ = pop_known(tokens);
    assert(tokens@ =~= orig.skip(2));
    let r = parse_ret_ty(tokens);
    proof {
        if let Ok((_, _, n)) = ret_ty_spec(orig.skip(2)) {
            assert(orig.skip(2).skip(n as int) =~= orig.skip((n + 2) as int));
        }
    }
    r
}

/// A parsed closure signature: the return type and its error half.
pub struct ClosureSig {
    pub ty: Option<Vec<TokenTree>>,
    pub err: ErrType,
}

/// A closure signature with its token lists as sequences.
pub open spec fn closure_view(c: Option<ClosureSig>) -> Option<ClosureSpec> {
    match c {
        Some(sig) => Some(ClosureSpec { ty: opt_view(sig.ty), err: err_type_view(sig.err) }),
        None => None,
    }
}

fn parse_closure(tokens: &mut VecDeque<TokenTree>) -> (r: Result<Option<ClosureSig>, InitError>)
    ensures
        match closure_spec(old(tokens)@) {
            Ok((sig, n)) => {
                &&& n <= old(tokens)@.len()
                &&& final(tokens)@ == old(tokens)@.skip(n as int)
                &&& r matches Ok(c) && closure_view(c) == sig
            },
            Err(e) => r == Err::<Option<ClosureSig>, InitError>(e),
        },
{
    let ghost orig = tokens@;
    if tokens.len() == 0 {
        return Err(InitError::MissingBody);
    }
    if !punct_is(&tokens[0], '|') {
        assert(orig.skip(0) =~= orig);
        return Ok(None);
    }
    let _ = pop_known(tokens);
    match parse_args(tokens) {
        Ok(_) => {},
        Err(e) => return Err(e),
    }
    let ghost a: int = args_spec(orig.drop_first())->Ok_0 as int;
    assert(tokens@ =~= orig.skip(a + 1));
    let (ty, err) = match parse_ret(tokens) {
        Ok(p) => p,
        Err(e) => return Err(e),
    };
    proof {
        let b = ret_spec(orig.skip(a + 1))->Ok_0.2;
        assert(orig.skip(a + 1).skip(b as int) =~= orig.skip(a + 1 + b));
    }
    Ok(Some(ClosureSig { ty, err }))
}


/// Index of the first `;`, or the length where there is none.
pub open spec fn semi_pos(toks: Seq<TokenTree>) -> nat
    decreases toks.len(),
{
    if toks.len() == 0 || is_punct(toks[0], ';') {
        0
    } else {
        semi_pos(toks.drop_first()) + 1
    }
}

/// Splits a body into the statements ending in `;` (each with its `;`) and what follows the
/// last `;`.
pub open spec fn split_stmts(toks: Seq<TokenTree>) -> (Seq<Seq<TokenTree>>, Seq<TokenTree>)
    decreases toks.len(),
{
    let k = semi_pos(toks);
    if k >= toks.len() {
        (Seq::empty(), toks)
    } else {
        let (ss, rest) = split_stmts(toks.skip(k + 1 as int));
        (seq![toks.take(k + 1 as int)] + ss, rest)
    }
}

/// No token of `a` is `;`.
pub open spec fn no_semi(a: Seq<TokenTree>) -> bool {
    forall|i: int| 0 <= i < a.len() ==> !is_punct(#[trigger] a[i], ';')
}

proof fn lemma_semi_pos(a: Seq<TokenTree>, b: Seq<TokenTree>)
    requires
        no_semi(a),
        b.len() == 0 || is_punct(b[0], ';'),
    ensures
        semi_pos(a + b) == a.len(),
    decreases a.len(),
{
    if a.len() > 0 {
        assert((a + b).drop_first() =~= a.drop_first() + b);
        lemma_semi_pos(a.drop_first(), b);
    } else {
        assert(a + b =~= b);
    }
}

/// Splits the tokens of a braced body at each `;`.
fn split_statements(body: Vec<TokenTree>) -> (r: (Vec<Vec<TokenTree>>, Vec<TokenTree>))
    ensures
        r.0@.map_values(|v: Vec<TokenTree>| v@) == split_stmts(body@).0,
        r.1@ == split_stmts(body@).1,
{
    let ghost orig = body@;
    let mut q = into_queue(body);
    let mut stmts: Vec<Vec<TokenTree>> = Vec::new();
    let mut cur: Vec<TokenTree> = Vec::new();
    while q.len() > 0
        invariant
            no_semi(cur@),
            split_stmts(orig).0 == stmts@.map_values(|v: Vec<TokenTree>| v@) + split_stmts(
                cur@ + q@,
            ).0,
            split_stmts(orig).1 == split_stmts(cur@ + q@).1,
        decreases q@.len(),
    {
        let ghost before = cur@ + q@;
        let ghost rest = q@.drop_first();
        let t = pop_known(&mut q);
        if punct_is(&t, ';') {
            proof {
                lemma_semi_pos(cur@, seq![t] + rest);
                assert(cur@ + (seq![t] + rest) =~= before);
                assert(before.take(cur@.len() + 1 as int) =~= cur@.push(t));
                assert(before.skip(cur@.len() + 1 as int) =~= rest);
            }
            cur.push(t);
            let mut done: Vec<TokenTree> = Vec::new();
            core::mem::swap(&mut done, &mut cur);
            let ghost sv = stmts@;
            stmts.push(done);
            proof {
                let f = |v: Vec<TokenTree>| v@;
                assert(stmts@.map_values(f) =~= sv.map_values(f).push(done@));
                assert(cur@ + q@ =~= rest);
                assert(split_stmts(before).0 =~= seq![done@] + split_stmts(rest).0);
            }
        } else {
            cur.push(t);
            assert(cur@ + q@ =~= before);
        }
    }
    proof {
        lemma_semi_pos(cur@, Seq::empty());
        assert(cur@ + q@ =~= cur@);
        assert(cur@ + Seq::<TokenTree>::empty() =~= cur@);
        assert(stmts@.map_values(|v: Vec<TokenTree>| v@) + Seq::<Seq<TokenTree>>::empty()
            =~= stmts@.map_values(|v: Vec<TokenTree>| v@));
    }
    (stmts, cur)
}

/// Index of the last `{ ... }` group before `n`, or -1.
pub open spec fn last_brace_before(toks: Seq<TokenTree>, n: int) -> int
    decreases n,
{
    if n <= 0 {
        -1
    } else if is_group(toks[n - 1], Delimiter::Brace) {
        n - 1
    } else {
        last_brace_before(toks, n - 1)
    }
}

/// A struct literal `Path { fields }`, optionally followed by `? Error`: the path, the
/// fields, and the error type.
pub open spec fn tail_spec(toks: Seq<TokenTree>) -> Result<
    (Seq<TokenTree>, Seq<TokenTree>, Option<Seq<TokenTree>>),
    InitError,
> {
    if toks.len() == 0 {
        Err(InitError::IncompleteBody)
    } else {
        let k = last_brace_before(toks, toks.len() as int);
        if k < 0 {
            Err(InitError::ExpectedBraceLast)
        } else {
            let after = toks.skip(k + 1);
            if after.len() == 0 {
                Ok((toks.take(k), group_stream(toks[k]), None))
            } else if after.len() >= 2 && is_punct(after[0], '?') {
                Ok((toks.take(k), group_stream(toks[k]), Some(after.drop_first())))
            } else {
                Err(InitError::ExpectedBraceLast)
            }
        }
    }
}

/// The struct literal closing an initializer.
pub struct Tail {
    pub path: Vec<TokenTree>,
    pub fields: Vec<TokenTree>,
    pub err: Option<Vec<TokenTree>>,
}

fn parse_initializer_tail(tokens: Vec<TokenTree>) -> (r: Result<Tail, InitError>)
    ensures
        match tail_spec(tokens@) {
            Ok((path, fields, err)) => r matches Ok(t) && t.path@ == path && t.fields@ == fields
                && opt_view(t.err) == err,
            Err(e) => r == Err::<Tail, InitError>(e),
        },
{
    let ghost orig = tokens@;
    if tokens.len() == 0 {
        return Err(InitError::IncompleteBody);
    }
    let mut k = tokens.len();
    while k > 0 && !group_is(&tokens[k - 1], Delimiter::Brace)
        invariant
            k <= tokens@.len(),
            last_brace_before(tokens@, tokens@.len() as int) == last_brace_before(
                tokens@,
                k as int,
            ),
        decreases k,
    {
        k = k - 1;
    }
    if k == 0 {
        return Err(InitError::ExpectedBraceLast);
    }
    let k = k - 1;
    let mut path = tokens;
    let after = path.split_off(k);
    let mut q = into_queue(after);
    let g = pop_known(&mut q);
    assert(q@ =~= orig.skip(k + 1));
    let fields = match g {
        TokenTree::Group(_, s) => s,
        _ => {
            return Err(InitError::ExpectedBraceLast);
        },
    };
    if q.len() == 0 {
        Ok(Tail { path, fields, err: None })
    } else if q.len() >= 2 && punct_is(&q[0], '?') {
        let _ = pop_known(&mut q);
        Ok(Tail { path, fields, err: Some(into_vec(q)) })
    } else {
        Err(InitError::ExpectedBraceLast)
    }
}

/// The error type of the whole initializer: the closure's, else the one after `?`, else the
/// default one.
pub open spec fn resolve_err(
    sig_err: ErrSpec,
    default_error: Option<Seq<TokenTree>>,
    tail_err: Option<Seq<TokenTree>>,
) -> Option<Seq<TokenTree>> {
    match sig_err {
        ErrSpec::Given(e) => Some(e),
        ErrSpec::Placeholder => default_error,
        ErrSpec::Absent => if tail_err is Some {
            tail_err
        } else {
            default_error
        },
    }
}

/// The meaning of a whole initializer expression.
pub open spec fn expand_spec(toks: Seq<TokenTree>) -> Result<ExpansionSpec, InitError> {
    match attrs_spec(toks) {
        Err(e) => Err(e),
        Ok((attrs, n1)) => {
            let de = last_default_error(attrs);
            let rest1 = toks.skip(n1 as int);
            match closure_spec(rest1) {
                Err(e) => Err(e),
                Ok((sig, n2)) => {
                    let sig_err = match sig {
                        Some(c) => c.err,
                        None => ErrSpec::Absent,
                    };
                    let ty = match sig {
                        Some(c) => c.ty,
                        None => None,
                    };
                    let rest2 = rest1.skip(n2 as int);
                    if sig_err is Placeholder && de is None {
                        Err(InitError::MissingDefaultError)
                    } else if rest2.len() == 0 {
                        Err(InitError::MissingBody)
                    } else if is_group(rest2[0], Delimiter::Brace) {
                        if rest2.len() > 1 {
                            Err(InitError::UnexpectedAfterBody)
                        } else {
                            let (stmts, rem) = split_stmts(group_stream(rest2[0]));
                            match tail_spec(rem) {
                                Err(e) => Err(e),
                                Ok((path, fields, terr)) => Ok(
                                    ExpansionSpec {
                                        statements: stmts,
                                        ty,
                                        err: resolve_err(sig_err, de, terr),
                                        path,
                                        fields,
                                    },
                                ),
                            }
                        }
                    } else if sig is Some {
                        Err(InitError::ExpectedBodyWithClosure)
                    } else {
                        match tail_spec(rest2) {
                            Err(e) => Err(e),
                            Ok((path, fields, terr)) => Ok(
                                ExpansionSpec {
                                    statements: Seq::empty(),
                                    ty,
                                    err: resolve_err(sig_err, de, terr),
                                    path,
                                    fields,
                                },
                            ),
                        }
                    }
                },
            }
        },
    }
}


/// Parses an initializer expression into what the code generator needs: the statements to
/// run first, the type and error type, the struct path and its field entries.
pub fn expand(input: Vec<TokenTree>) -> (r: Result<InitExpansion, InitError>)
    ensures
        match expand_spec(input@) {
            Ok(x) => r matches Ok(e) && expansion_view(e) == x,
            Err(err) => r == Err::<InitExpansion, InitError>(err),
        },
{
    let ghost toks = input@;
    let mut tokens = into_queue(input);
    let attrs = match parse_attrs(&mut tokens) {
        Ok(a) => a,
        Err(e) => return Err(e),
    };
    let default_error = take_default_error(attrs);
    let closure = match parse_closure(&mut tokens) {
        Ok(c) => c,
        Err(e) => return Err(e),
    };
    let (ty, sig_err, has_closure) = match closure {
        Some(c) => (c.ty, c.err, true),
        None => (None, ErrType::Absent, false),
    };
    if matches!(sig_err, ErrType::Placeholder) && default_error.is_none() {
        return Err(InitError::MissingDefaultError);
    }
    if tokens.len() == 0 {
        return Err(InitError::MissingBody);
    }
    let (statements, tail) = if group_is(&tokens[0], Delimiter::Brace) {
        let g = pop_known(&mut tokens);
        if tokens.len() > 0 {
            return Err(InitError::UnexpectedAfterBody);
        }
        let body = match g {
            TokenTree::Group(_, s) => s,
            _ => {
                return Err(InitError::UnexpectedAfterBody);
            },
        };
        let (statements, rest) = split_statements(body);
        (statements, rest)
    } else {
        if has_closure {
            return Err(InitError::ExpectedBodyWithClosure);
        }
        let statements: Vec<Vec<TokenTree>> = Vec::new();
        (statements, into_vec(tokens))
    };
    let Tail { path, fields, err: tail_err } = match parse_initializer_tail(tail) {
        Ok(t) => t,
        Err(e) => return Err(e),
    };
    let err = match sig_err {
        ErrType::Given(e) => Some(e),
        ErrType::Placeholder => default_error,
        ErrType::Absent => if tail_err.is_some() {
            tail_err
        } else {
            default_error
        },
    };
    let r = InitExpansion { statements, ty, err, path, fields };
    proof {
        assert(r.statements@.map_values(|s: Vec<TokenTree>| s@) =~= expand_spec(toks)->Ok_0.statements);
    }
    Ok(r)
}

} // verus!
