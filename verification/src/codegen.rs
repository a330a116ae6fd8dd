//! Building the generated code token by token.

use vstd::prelude::*;
use vstd::string::StringExecFns;
use crate::syntax::{Delim, Tok, TokV, toks};

verus! {

/// An identifier.
pub open spec fn t_id(s: Seq<char>) -> Seq<TokV> {
    seq![TokV::Ident(s)]
}

/// A punctuation character on its own.
pub open spec fn t_p(c: char) -> Seq<TokV> {
    seq![TokV::Punct(c, false)]
}

/// A two-character operator such as `::` or `=>`.
pub open spec fn t_pp(c1: char, c2: char) -> Seq<TokV> {
    seq![TokV::Punct(c1, true), TokV::Punct(c2, false)]
}

/// A literal written as it stands in the source.
pub open spec fn t_lit(s: Seq<char>) -> Seq<TokV> {
    seq![TokV::Literal(s)]
}

/// The string literal of a value.
pub open spec fn t_str(s: Seq<char>) -> Seq<TokV> {
    seq![TokV::Str(s)]
}

/// Tokens between delimiters.
pub open spec fn t_group(d: Delim, inner: Seq<TokV>) -> Seq<TokV> {
    seq![TokV::Open(d)] + inner + seq![TokV::Close(d)]
}

/// Tokens between parentheses.
pub open spec fn t_paren(inner: Seq<TokV>) -> Seq<TokV> {
    t_group(Delim::Paren, inner)
}

/// `::`.
pub open spec fn t_colon2() -> Seq<TokV> {
    t_pp(':', ':')
}

/// A method call `.name(args)`.
pub open spec fn t_call(name: Seq<char>, args: Seq<TokV>) -> Seq<TokV> {
    t_p('.') + t_id(name) + t_paren(args)
}

/// The tokens of `a` followed by those of `b`.
pub fn cat(a: Vec<Tok>, b: Vec<Tok>) -> (r: Vec<Tok>)
    ensures
        toks(r@) == toks(a@) + toks(b@),
{
    let mut r = a;
    let mut b = b;
    let ghost av = r@;
    let ghost bv = b@;
    r.append(&mut b);
    assert(toks(r@) =~= toks(av) + toks(bv));
    r
}

/// No tokens.
pub fn nothing() -> (r: Vec<Tok>)
    ensures
        toks(r@) == Seq::<TokV>::empty(),
{
    let r: Vec<Tok> = Vec::new();
    assert(toks(r@) =~= Seq::<TokV>::empty());
    r
}

/// The single token `t`.
pub fn one(t: Tok) -> (r: Vec<Tok>)
    ensures
        toks(r@) == seq![t@],
{
    let mut r: Vec<Tok> = Vec::new();
    r.push(t);
    assert(toks(r@) =~= seq![t@]);
    r
}

pub fn id(s: &str) -> (r: Vec<Tok>)
    ensures
        toks(r@) == t_id(s@),
{
    one(Tok::Ident(String::from_str(s)))
}

pub fn id_string(s: String) -> (r: Vec<Tok>)
    ensures
        toks(r@) == t_id(s@),
{
    one(Tok::Ident(s))
}

pub fn p(c: char) -> (r: Vec<Tok>)
    ensures
        toks(r@) == t_p(c),
{
    one(Tok::Punct(c, false))
}

pub fn pp(c1: char, c2: char) -> (r: Vec<Tok>)
    ensures
        toks(r@) == t_pp(c1, c2),
{
    let r = cat(one(Tok::Punct(c1, true)), one(Tok::Punct(c2, false)));
    assert(toks(r@) =~= t_pp(c1, c2));
    r
}

pub fn colon2() -> (r: Vec<Tok>)
    ensures
        toks(r@) == t_colon2(),
{
    pp(':', ':')
}

pub fn lit(s: &str) -> (r: Vec<Tok>)
    ensures
        toks(r@) == t_lit(s@),
{
    one(Tok::Literal(String::from_str(s)))
}

pub fn str_tok(s: String) -> (r: Vec<Tok>)
    ensures
        toks(r@) == t_str(s@),
{
    one(Tok::Str(s))
}

pub fn group(d: Delim, inner: Vec<Tok>) -> (r: Vec<Tok>)
    ensures
        toks(r@) == t_group(d, toks(inner@)),
{
    cat(cat(one(Tok::Open(d)), inner), one(Tok::Close(d)))
}

pub fn paren(inner: Vec<Tok>) -> (r: Vec<Tok>)
    ensures
        toks(r@) == t_paren(toks(inner@)),
{
    group(Delim::Paren, inner)
}

/// The method call `.name(args)`.
pub fn call(name: &str, args: Vec<Tok>) -> (r: Vec<Tok>)
    ensures
        toks(r@) == t_call(name@, toks(args@)),
{
    cat(cat(p('.'), id(name)), paren(args))
}

} // verus!
