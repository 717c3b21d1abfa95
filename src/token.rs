//! A plain model of a macro's token stream, and the few queries the parsers make on it.
use std::collections::VecDeque;
use vstd::prelude::*;
use vstd::string::StrSliceExecFns;

verus! {

/// How a group is delimited.
#[derive(PartialEq, Eq, Structural, Clone, Copy, Debug)]
pub enum Delimiter {
    Parenthesis,
    Brace,
    Bracket,
    Invisible,
}

/// Whether a punctuation character is joined to the next one (as `-` in `->`).
#[derive(PartialEq, Eq, Structural, Clone, Copy, Debug)]
pub enum Spacing {
    Alone,
    Joint,
}

/// One token tree: an identifier, a punctuation character, a literal, or a delimited group.
#[derive(Debug)]
pub enum TokenTree {
    Ident(String),
    Punct(char, Spacing),
    Literal(String),
    Group(Delimiter, Vec<TokenTree>),
}

/// `t` is the punctuation character `c`.
pub open spec fn is_punct(t: TokenTree, c: char) -> bool {
    match t {
        TokenTree::Punct(p, _) => p == c,
        _ => false,
    }
}

/// `t` is the identifier spelled `s`.
pub open spec fn is_ident(t: TokenTree, s: Seq<char>) -> bool {
    match t {
        TokenTree::Ident(name) => name@ == s,
        _ => false,
    }
}

/// `t` is a group with delimiter `d`.
pub open spec fn is_group(t: TokenTree, d: Delimiter) -> bool {
    match t {
        TokenTree::Group(g, _) => g == d,
        _ => false,
    }
}

/// The tokens inside a group.
pub open spec fn group_stream(t: TokenTree) -> Seq<TokenTree> {
    match t {
        TokenTree::Group(_, s) => s@,
        _ => Seq::empty(),
    }
}

/// Character-wise equality of two strings.
pub fn str_eq(a: &str, b: &str) -> (r: bool)
    ensures
        r == (a@ == b@),
{
    let n = a.unicode_len();
    if n != b.unicode_len() {
        return false;
    }
    let mut i: usize = 0;
    while i < n
        invariant
            n == a@.len(),
            n == b@.len(),
            i <= n,
            a@.take(i as int) == b@.take(i as int),
        decreases n - i,
    {
        if a.get_char(i) != b.get_char(i) {
            return false;
        }
        assert(a@.take(i + 1) == a@.take(i as int).push(a@[i as int]));
        assert(b@.take(i + 1) == b@.take(i as int).push(b@[i as int]));
        i = i + 1;
    }
    assert(a@ == a@.take(n as int));
    assert(b@ == b@.take(n as int));
    true
}

/// The character of a punctuation token.
pub fn punct_char(t: &TokenTree) -> (r: Option<char>)
    ensures
        match r {
            Some(c) => is_punct(*t, c),
            None => !(t is Punct),
        },
{
    match t {
        TokenTree::Punct(c, _) => Some(*c),
        _ => None,
    }
}

/// Whether `t` is the punctuation character `c`.
pub fn punct_is(t: &TokenTree, c: char) -> (r: bool)
    ensures
        r == is_punct(*t, c),
{
    match t {
        TokenTree::Punct(p, _) => *p == c,
        _ => false,
    }
}

/// Whether `t` is the identifier `s`.
pub fn ident_is(t: &TokenTree, s: &str) -> (r: bool)
    ensures
        r == is_ident(*t, s@),
{
    match t {
        TokenTree::Ident(name) => str_eq(name.as_str(), s),
        _ => false,
    }
}

/// Whether `t` is a group delimited by `d`.
pub fn group_is(t: &TokenTree, d: Delimiter) -> (r: bool)
    ensures
        r == is_group(*t, d),
{
    match t {
        TokenTree::Group(g, _) => *g == d,
        _ => false,
    }
}

/// Turns a list into a queue, first element in front.
pub fn into_queue<T>(v: Vec<T>) -> (q: VecDeque<T>)
    ensures
        q@ == v@,
{
    let ghost orig = v@;
    let mut v = v;
    let mut q: VecDeque<T> = VecDeque::new();
    while v.len() > 0
        invariant
            v@ + q@ == orig,
        decreases v.len(),
    {
        let t = v.pop().unwrap();
        q.push_front(t);
        assert(v@ + q@ =~= orig);
    }
    assert(q@ =~= orig);
    q
}

/// Turns a queue back into a list, front token first.
pub fn into_vec(q: VecDeque<TokenTree>) -> (v: Vec<TokenTree>)
    ensures
        v@ == q@,
{
    let ghost orig = q@;
    let mut q = q;
    let mut v: Vec<TokenTree> = Vec::new();
    while q.len() > 0
        invariant
            v@ + q@ == orig,
        decreases q.len(),
    {
        let t = q.pop_front().unwrap();
        v.push(t);
        assert(v@ + q@ =~= orig);
    }
    assert(v@ =~= orig);
    v
}

} // verus!
