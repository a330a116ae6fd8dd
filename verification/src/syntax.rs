//! Rust tokens and the facts about Rust source that proc-macro2 and syn compute.
//!
//! Every function here that calls into proc-macro2 or syn is trusted: its contract ties its
//! result to a named function of its arguments, and nothing more is claimed of that name.

use vstd::prelude::*;
use proc_macro2::{Delimiter, Spacing, TokenTree};
use quote::ToTokens;
use syn::ext::IdentExt;
use syn::{parse_file, FnArg, Item, Pat};
use crate::text::{chars_of, string_of};

verus! {

/// The delimiter of a group of tokens.
#[derive(Clone, Copy, Debug, PartialEq, Eq, Structural)]
pub enum Delim {
    Paren,
    Brace,
    Bracket,
    /// A group that is delimited by nothing visible.
    Invisible,
}

/// One token of Rust code; a group is written flat, between its `Open` and `Close`.
pub enum Tok {
    Ident(String),
    /// A punctuation character, and whether it is joined to the punctuation after it.
    Punct(char, bool),
    /// A literal, by its source text.
    Literal(String),
    /// The string literal whose value is the given text.
    Str(String),
    /// The character literal of the given character.
    Char(char),
    Open(Delim),
    Close(Delim),
}

/// A token seen as a mathematical value.
pub enum TokV {
    Ident(Seq<char>),
    Punct(char, bool),
    Literal(Seq<char>),
    Str(Seq<char>),
    Char(char),
    Open(Delim),
    Close(Delim),
}

impl View for Tok {
    type V = TokV;

    open spec fn view(&self) -> TokV {
        match self {
            Tok::Ident(s) => TokV::Ident(s@),
            Tok::Punct(c, j) => TokV::Punct(*c, *j),
            Tok::Literal(s) => TokV::Literal(s@),
            Tok::Str(s) => TokV::Str(s@),
            Tok::Char(c) => TokV::Char(*c),
            Tok::Open(d) => TokV::Open(*d),
            Tok::Close(d) => TokV::Close(*d),
        }
    }
}

impl Tok {
    /// A token equal to this one.
    pub fn copy(&self) -> (t: Tok)
        ensures
            t@ == self@,
    {
        match self {
            Tok::Ident(s) => Tok::Ident(s.clone()),
            Tok::Punct(c, j) => Tok::Punct(*c, *j),
            Tok::Literal(s) => Tok::Literal(s.clone()),
            Tok::Str(s) => Tok::Str(s.clone()),
            Tok::Char(c) => Tok::Char(*c),
            Tok::Open(d) => Tok::Open(*d),
            Tok::Close(d) => Tok::Close(*d),
        }
    }
}

/// Tokens equal to the given ones.
pub fn copy_toks(v: &Vec<Tok>) -> (r: Vec<Tok>)
    ensures
        toks(r@) == toks(v@),
{
    let mut r: Vec<Tok> = Vec::new();
    let mut i: usize = 0;
    while i < v.len()
        invariant
            i <= v.len(),
            toks(r@) == toks(v@.take(i as int)),
        decreases v.len() - i,
    {
        let ghost before = r@;
        let t = v[i].copy();
        r.push(t);
        assert(r@ =~= before.push(t));
        assert(v@.take(i + 1) =~= v@.take(i as int).push(v@[i as int]));
        assert(toks(r@) =~= toks(before).push(t@));
        assert(toks(v@.take(i + 1)) =~= toks(v@.take(i as int)).push(v@[i as int]@));
        i = i + 1;
    }
    assert(v@.take(v.len() as int) =~= v@);
    r
}

/// A sequence of tokens seen as mathematical values.
pub open spec fn toks(v: Seq<Tok>) -> Seq<TokV> {
    v.map_values(|t: Tok| t@)
}

/// The characters that open a group.
pub open spec fn open_text(d: Delim) -> Seq<char> {
    match d {
        Delim::Paren => seq!['('],
        Delim::Brace => seq!['{'],
        Delim::Bracket => seq!['['],
        Delim::Invisible => seq![],
    }
}

/// The characters that close a group.
pub open spec fn close_text(d: Delim) -> Seq<char> {
    match d {
        Delim::Paren => seq![')'],
        Delim::Brace => seq!['}'],
        Delim::Bracket => seq![']'],
        Delim::Invisible => seq![],
    }
}

/// The source text of one token: each token is followed by a space, except punctuation
/// that is joined to the punctuation after it. A string literal is written between quotes
/// as it is (such tokens are made for output only, and are never read back).
pub open spec fn tok_text(t: TokV) -> Seq<char> {
    match t {
        TokV::Ident(s) => s + seq![' '],
        TokV::Punct(c, joint) => if joint {
            seq![c]
        } else {
            seq![c, ' ']
        },
        TokV::Literal(s) => s + seq![' '],
        TokV::Str(s) => seq!['"'] + s + seq!['"', ' '],
        TokV::Char(c) => seq!['\'', c, '\'', ' '],
        TokV::Open(d) => open_text(d) + seq![' '],
        TokV::Close(d) => close_text(d) + seq![' '],
    }
}

/// The source text of a sequence of tokens.
pub open spec fn tokens_text(ts: Seq<TokV>) -> Seq<char>
    decreases ts.len(),
{
    if ts.len() == 0 {
        seq![]
    } else {
        tokens_text(ts.drop_last()) + tok_text(ts.last())
    }
}

fn push_chars(out: &mut Vec<char>, s: &String)
    ensures
        final(out)@ == old(out)@ + s@,
{
    let v = chars_of(s.as_str());
    let mut i: usize = 0;
    while i < v.len()
        invariant
            i <= v.len(),
            v@ == s@,
            out@ == old(out)@ + v@.take(i as int),
        decreases v.len() - i,
    {
        out.push(v[i]);
        i = i + 1;
    }
    assert(v@.take(v.len() as int) =~= v@);
}

fn push_delim(out: &mut Vec<char>, d: Delim, open: bool)
    ensures
        final(out)@ == old(out)@ + (if open { open_text(d) } else { close_text(d) }) + seq![' '],
{
    let c = match d {
        Delim::Paren => if open { '(' } else { ')' },
        Delim::Brace => if open { '{' } else { '}' },
        Delim::Bracket => if open { '[' } else { ']' },
        Delim::Invisible => ' ',
    };
    if d != Delim::Invisible {
        out.push(c);
    }
    out.push(' ');
}

/// Writes tokens as source text: each token, then a space unless it is punctuation joined
/// to the next one. A `Str` token is written between quotes as it is, unescaped.
pub fn render_text(ts: &Vec<Tok>) -> (r: String)
    ensures
        r@ == tokens_text(toks(ts@)),
{
    let mut out: Vec<char> = Vec::new();
    let mut i: usize = 0;
    while i < ts.len()
        invariant
            i <= ts.len(),
            out@ == tokens_text(toks(ts@.take(i as int))),
        decreases ts.len() - i,
    {
        let ghost before = out@;
        match &ts[i] {
            Tok::Ident(s) => {
                push_chars(&mut out, s);
                out.push(' ');
            },
            Tok::Punct(c, joint) => {
                out.push(*c);
                if !*joint {
                    out.push(' ');
                }
            },
            Tok::Literal(s) => {
                push_chars(&mut out, s);
                out.push(' ');
            },
            Tok::Str(s) => {
                out.push('"');
                push_chars(&mut out, s);
                out.push('"');
                out.push(' ');
            },
            Tok::Char(c) => {
                out.push('\'');
                out.push(*c);
                out.push('\'');
                out.push(' ');
            },
            Tok::Open(d) => push_delim(&mut out, *d, true),
            Tok::Close(d) => push_delim(&mut out, *d, false),
        }
        proof {
            let prefix = toks(ts@.take(i + 1));
            assert(prefix.drop_last() =~= toks(ts@.take(i as int)));
            assert(prefix.last() == ts@[i as int]@);
            assert(out@ =~= before + tok_text(ts@[i as int]@));
        }
        i = i + 1;
    }
    assert(ts@.take(ts.len() as int) =~= ts@);
    string_of(&out)
}

/// A token stream of proc-macro2; it is opaque, and is read through `stream_toks`.
#[verifier::external_type_specification]
#[verifier::external_body]
pub struct ExTokenStream(proc_macro2::TokenStream);

/// The tokens that a token stream holds, in order, each group written flat between its
/// delimiters.
pub uninterp spec fn stream_toks(s: proc_macro2::TokenStream) -> Seq<TokV>;

/// One token tree of a stream: a group keeps the stream that it encloses.
pub enum Tree {
    Ident(String),
    Punct(char, bool),
    Literal(String),
    Group(Delim, proc_macro2::TokenStream),
}

/// The tokens of one tree, written flat.
pub open spec fn tree_toks(t: Tree) -> Seq<TokV> {
    match t {
        Tree::Ident(s) => seq![TokV::Ident(s@)],
        Tree::Punct(c, joint) => seq![TokV::Punct(c, joint)],
        Tree::Literal(s) => seq![TokV::Literal(s@)],
        Tree::Group(d, g) => seq![TokV::Open(d)] + stream_toks(g) + seq![TokV::Close(d)],
    }
}

/// The tokens of a sequence of trees, written flat.
pub open spec fn trees_toks(ts: Seq<Tree>) -> Seq<TokV>
    decreases ts.len(),
{
    if ts.len() == 0 {
        seq![]
    } else {
        trees_toks(ts.drop_last()) + tree_toks(ts.last())
    }
}

/// Trusted: iterating a `proc_macro2::TokenStream` gives its token trees in order; each is
/// taken one for one (an identifier and a literal by their text, a punctuation by its
/// character and whether its spacing is `Joint`, a group by its delimiter and its stream).
#[verifier::external_body]
pub(crate) fn trees(s: &proc_macro2::TokenStream) -> (r: Vec<Tree>)
    ensures
        trees_toks(r@) == stream_toks(*s),
{
    s.clone().into_iter().map(|t| match t {
        TokenTree::Ident(i) => Tree::Ident(i.to_string()),
        TokenTree::Punct(p) => Tree::Punct(p.as_char(), p.spacing() == Spacing::Joint),
        TokenTree::Literal(l) => Tree::Literal(l.to_string()),
        TokenTree::Group(g) => Tree::Group(match g.delimiter() {
            Delimiter::Parenthesis => Delim::Paren,
            Delimiter::Brace => Delim::Brace,
            Delimiter::Bracket => Delim::Bracket,
            Delimiter::None => Delim::Invisible,
        }, g.stream()),
    }).collect()
}

proof fn lemma_tree_within(ts: Seq<Tree>, i: int)
    requires
        0 <= i < ts.len(),
    ensures
        tree_toks(ts[i]).len() <= trees_toks(ts).len(),
    decreases ts.len(),
{
    if i < ts.len() - 1 {
        lemma_tree_within(ts.drop_last(), i);
    }
}

/// The tokens of a token stream.
pub fn tokens_of(s: &proc_macro2::TokenStream) -> (r: Vec<Tok>)
    ensures
        toks(r@) == stream_toks(*s),
    decreases stream_toks(*s).len(),
{
    let ts = trees(s);
    let mut out: Vec<Tok> = Vec::new();
    let mut i: usize = 0;
    while i < ts.len()
        invariant
            i <= ts.len(),
            trees_toks(ts@) == stream_toks(*s),
            toks(out@) == trees_toks(ts@.take(i as int)),
        decreases ts.len() - i,
    {
        let ghost before = toks(out@);
        proof {
            assert(ts@.take(i + 1).drop_last() =~= ts@.take(i as int));
            lemma_tree_within(ts@, i as int);
        }
        match &ts[i] {
            Tree::Ident(x) => out.push(Tok::Ident(x.clone())),
            Tree::Punct(c, joint) => out.push(Tok::Punct(*c, *joint)),
            Tree::Literal(x) => out.push(Tok::Literal(x.clone())),
            Tree::Group(d, g) => {
                out.push(Tok::Open(*d));
                let mut inner = tokens_of(g);
                out.append(&mut inner);
                out.push(Tok::Close(*d));
            },
        }
        assert(toks(out@) =~= before + tree_toks(ts@[i as int]));
        i = i + 1;
    }
    assert(ts@.take(ts.len() as int) =~= ts@);
    out
}

/// The identifier that `text` is, when it is exactly one identifier token (a keyword, or a
/// raw identifier, among them), by its text.
pub uninterp spec fn single_ident(text: Seq<char>) -> Option<Seq<char>>;

/// Trusted: `syn::Ident::parse_any` (of `syn::ext::IdentExt`), run by `Parser::parse_str` on
/// `text`, succeeds when `text` is one identifier token; the identifier is taken by its text.
#[verifier::external_body]
pub(crate) fn ident_of(text: &str) -> (r: Option<String>)
    ensures
        r matches Some(v) ==> single_ident(text@) == Some(v@),
        r is None ==> single_ident(text@) is None,
{
    syn::parse::Parser::parse_str(syn::Ident::parse_any, text).ok().map(|i| i.to_string())
}

/// Whether `s` can name an identifier token: it is one identifier token, written as itself,
/// and not as a raw identifier (`proc_macro2::Ident::new` panics on anything else).
pub open spec fn valid_ident(s: Seq<char>) -> bool {
    single_ident(s) == Some(s) && !(s.len() >= 2 && s[0] == 'r' && s[1] == '#')
}

/// Whether `s` can name an identifier token.
pub fn is_valid_ident(s: &String) -> (b: bool)
    ensures
        b == valid_ident(s@),
{
    let cs = chars_of(s.as_str());
    if cs.len() >= 2 && cs[0] == 'r' && cs[1] == '#' {
        return false;
    }
    match ident_of(s.as_str()) {
        Some(t) => t == *s,
        None => false,
    }
}

/// The value of the string literal whose source text is `text`, as syn's `LitStr` gives it;
/// `None` when `text` is not a string literal.
pub uninterp spec fn string_literal_value(text: Seq<char>) -> Option<Seq<char>>;

/// Trusted: `syn::parse_str::<syn::LitStr>` parses `text`, and `LitStr::value` unescapes it.
#[verifier::external_body]
pub(crate) fn string_value(text: &str) -> (r: Option<String>)
    ensures
        r matches Some(v) ==> string_literal_value(text@) == Some(v@),
        r is None ==> string_literal_value(text@) is None,
{
    syn::parse_str::<syn::LitStr>(text).ok().map(|lit| lit.value())
}

/// The identifiers that syn's `Ident` parser refuses: `_` and the keywords of Rust.
pub open spec fn syn_reserved(k: Seq<char>) -> bool {
    ||| k == "_"@ ||| k == "abstract"@ ||| k == "as"@ ||| k == "async"@ ||| k == "await"@
    ||| k == "become"@ ||| k == "box"@ ||| k == "break"@ ||| k == "const"@ ||| k == "continue"@
    ||| k == "crate"@ ||| k == "do"@ ||| k == "dyn"@ ||| k == "else"@ ||| k == "enum"@
    ||| k == "extern"@ ||| k == "false"@ ||| k == "final"@ ||| k == "fn"@ ||| k == "for"@
    ||| k == "if"@ ||| k == "impl"@ ||| k == "in"@ ||| k == "let"@ ||| k == "loop"@
    ||| k == "macro"@ ||| k == "match"@ ||| k == "mod"@ ||| k == "move"@ ||| k == "mut"@
    ||| k == "override"@ ||| k == "priv"@ ||| k == "pub"@ ||| k == "ref"@ ||| k == "return"@
    ||| k == "Self"@ ||| k == "self"@ ||| k == "static"@ ||| k == "struct"@ ||| k == "super"@
    ||| k == "trait"@ ||| k == "true"@ ||| k == "try"@ ||| k == "type"@ ||| k == "typeof"@
    ||| k == "unsafe"@ ||| k == "unsized"@ ||| k == "use"@ ||| k == "virtual"@ ||| k == "where"@
    ||| k == "while"@ ||| k == "yield"@
}

fn same(a: &String, b: &str) -> (r: bool)
    ensures
        r == (a@ == b@),
{
    let b = String::from_str(b);
    *a == b
}

/// Whether syn's `Ident` parser refuses the identifier token `k`.
pub fn is_syn_reserved(k: &String) -> (b: bool)
    ensures
        b == syn_reserved(k@),
{
    same(k, "_") || same(k, "abstract") || same(k, "as") || same(k, "async") || same(k, "await")
        || same(k, "become") || same(k, "box") || same(k, "break") || same(k, "const") || same(
        k,
        "continue",
    ) || same(k, "crate") || same(k, "do") || same(k, "dyn") || same(k, "else") || same(k, "enum")
        || same(k, "extern") || same(k, "false") || same(k, "final") || same(k, "fn") || same(
        k,
        "for",
    ) || same(k, "if") || same(k, "impl") || same(k, "in") || same(k, "let") || same(k, "loop")
        || same(k, "macro") || same(k, "match") || same(k, "mod") || same(k, "move") || same(
        k,
        "mut",
    ) || same(k, "override") || same(k, "priv") || same(k, "pub") || same(k, "ref") || same(
        k,
        "return",
    ) || same(k, "Self") || same(k, "self") || same(k, "static") || same(k, "struct") || same(
        k,
        "super",
    ) || same(k, "trait") || same(k, "true") || same(k, "try") || same(k, "type") || same(
        k,
        "typeof",
    ) || same(k, "unsafe") || same(k, "unsized") || same(k, "use") || same(k, "virtual") || same(
        k,
        "where",
    ) || same(k, "while") || same(k, "yield")
}

/// A parameter of a function.
pub enum Param {
    /// `self` in any of its forms.
    Receiver,
    /// A typed parameter: the identifier it binds when its pattern is an identifier, and the
    /// tokens of its type.
    Typed(Option<String>, proc_macro2::TokenStream),
}

/// A parameter seen as a mathematical value.
pub enum ParamV {
    Receiver,
    Typed { binding: Option<Seq<char>>, ty: Seq<TokV> },
}

pub open spec fn param_v(p: Param) -> ParamV {
    match p {
        Param::Receiver => ParamV::Receiver,
        Param::Typed(binding, ty) => ParamV::Typed {
            binding: match binding {
                Some(b) => Some(b@),
                None => None,
            },
            ty: stream_toks(ty),
        },
    }
}

pub open spec fn params_v(ps: Seq<Param>) -> Seq<ParamV> {
    ps.map_values(|p: Param| param_v(p))
}

/// An item at the top level of a source file, as far as the commands read it.
pub enum TopItem {
    /// A function: for each attribute, its path when that path is a single identifier; its
    /// name; and its parameters.
    Function { attributes: Vec<Option<String>>, name: String, params: Vec<Param> },
    Other,
}

/// A top-level item seen as a mathematical value.
pub enum ItemV {
    Function { attributes: Seq<Option<Seq<char>>>, name: Seq<char>, params: Seq<ParamV> },
    Other,
}

pub open spec fn opt_str(o: Option<String>) -> Option<Seq<char>> {
    match o {
        Some(s) => Some(s@),
        None => None,
    }
}

pub open spec fn item_v(item: TopItem) -> ItemV {
    match item {
        TopItem::Function { attributes, name, params } => ItemV::Function {
            attributes: attributes@.map_values(|a: Option<String>| opt_str(a)),
            name: name@,
            params: params_v(params@),
        },
        TopItem::Other => ItemV::Other,
    }
}

pub open spec fn items_v(items: Seq<TopItem>) -> Seq<ItemV> {
    items.map_values(|i: TopItem| item_v(i))
}

/// The top-level items of the file `content` as syn parses it, or syn's error message.
pub uninterp spec fn parsed_items(content: Seq<char>) -> Result<Seq<ItemV>, Seq<char>>;

/// Trusted: `syn::parse_file` parses `content`; each `syn::Item::Fn` is taken with the
/// `Path::get_ident` of each attribute, the identifier of its signature, and each input one
/// for one (a `syn::Pat::Ident` pattern by its identifier, the type by its tokens); every other
/// item as `Other`; an error is taken by its message.
#[verifier::external_body]
pub(crate) fn parse_items(content: &str) -> (r: Result<Vec<TopItem>, String>)
    ensures
        r matches Ok(v) ==> (parsed_items(content@) matches Ok(items) && items == items_v(v@)),
        r matches Err(e) ==> (parsed_items(content@) matches Err(m) && m == e@),
{
    Ok(parse_file(content).map_err(|e| e.to_string())?.items.iter().map(|item| match item {
        Item::Fn(f) => TopItem::Function {
            attributes: f.attrs.iter().map(|a| a.path().get_ident().map(ToString::to_string)).collect(),
            name: f.sig.ident.to_string(),
            params: f.sig.inputs.iter().map(|arg| match arg {
                FnArg::Receiver(_) => Param::Receiver,
                FnArg::Typed(t) => Param::Typed(
                    match &*t.pat { Pat::Ident(p) => Some(p.ident.to_string()), _ => None },
                    t.ty.to_token_stream(),
                ),
            }).collect(),
        },
        _ => TopItem::Other,
    }).collect())
}

/// The parts of a type that say whether it is an `Option` or a `Vec` of something.
pub struct TypeShape {
    /// The identifier of the last segment, when the type is a path.
    pub head: Option<String>,
    /// The tokens of the first generic argument of that segment, when it is a type written in
    /// angle brackets.
    pub first_type_arg: Option<proc_macro2::TokenStream>,
}

/// The shape of the type whose tokens are `ty`, as syn parses it: the identifier of the last
/// path segment, and the tokens of that segment's first generic type argument.
pub uninterp spec fn shape_of(ty: Seq<TokV>) -> Option<(Option<Seq<char>>, Option<Seq<TokV>>)>;

pub open spec fn shape_v(sh: TypeShape) -> (Option<Seq<char>>, Option<Seq<TokV>>) {
    (
        opt_str(sh.head),
        match sh.first_type_arg {
            Some(a) => Some(stream_toks(a)),
            None => None,
        },
    )
}

/// Trusted: `syn::parse2::<syn::Type>` parses the tokens `ty`; for a `syn::Type::Path`, the
/// last segment's identifier and, for `PathArguments::AngleBracketed` whose first argument is
/// a `GenericArgument::Type`, that type's tokens are taken.
#[verifier::external_body]
pub(crate) fn type_shape(ty: &proc_macro2::TokenStream) -> (r: Option<TypeShape>)
    ensures
        r matches Some(sh) ==> shape_of(stream_toks(*ty)) == Some(shape_v(sh)),
        r is None ==> shape_of(stream_toks(*ty)) is None,
{
    let parsed: syn::Type = syn::parse2(ty.clone()).ok()?;
    let segment = match &parsed { syn::Type::Path(p) => p.path.segments.last(), _ => None };
    let arg = match segment.map(|s| &s.arguments) {
        Some(syn::PathArguments::AngleBracketed(a)) => a.args.first(),
        _ => None,
    };
    let first_type_arg = match arg {
        Some(syn::GenericArgument::Type(t)) => Some(t.to_token_stream()),
        _ => None,
    };
    Some(TypeShape { head: segment.map(|s| s.ident.to_string()), first_type_arg })
}

} // verus!
