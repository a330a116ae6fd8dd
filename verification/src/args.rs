//! The arguments of the macro: `src = "..."`, `exec_func = "..."`, `help_message = "..."`.

use vstd::prelude::*;
use vstd::string::StringExecFns;
use crate::errors::{CommandError, ErrorV};
use crate::syntax::{Delim, Tok, TokV, toks, tokens_of, stream_toks, valid_ident, is_valid_ident, string_value,
    string_literal_value, is_syn_reserved, syn_reserved};

verus! {

/// The directory of command modules and the name of the function that runs the commands.
pub struct MacroArgs {
    pub src: String,
    pub exec_func: String,
}

/// Whether `t` is the punctuation character `c`, whatever its spacing.
pub open spec fn is_punct(t: TokV, c: char) -> bool {
    t matches TokV::Punct(p, _) && p == c
}

/// The value of the string literal at position `j` of `t`, if one stands there.
pub open spec fn string_at(t: Seq<TokV>, j: int) -> Option<Seq<char>> {
    if 0 <= j < t.len() && t[j] is Literal {
        string_literal_value(t[j]->Literal_0)
    } else {
        None
    }
}

/// The three keys that the macro knows.
pub open spec fn known_key(k: Seq<char>) -> bool {
    k == "src"@ || k == "exec_func"@ || k == "help_message"@
}

/// The values given so far for `src` and `exec_func`, after reading `t` from position `i`
/// on: each argument is `key = "value"`, optionally followed by a comma, and a later value
/// of a key replaces an earlier one.
pub open spec fn read_args(
    t: Seq<TokV>,
    i: int,
    src: Option<Seq<char>>,
    exec: Option<Seq<char>>,
) -> Result<(Option<Seq<char>>, Option<Seq<char>>), ErrorV>
    decreases t.len() - i,
{
    if i < 0 || i >= t.len() {
        Ok((src, exec))
    } else if !(t[i] is Ident) {
        Err(ErrorV::ExpectedIdent)
    } else {
        let k = t[i]->Ident_0;
        if syn_reserved(k) {
            Err(ErrorV::KeywordAsIdent(k))
        } else if !(i + 1 < t.len() && is_punct(t[i + 1], '=')) {
            Err(ErrorV::ExpectedEq)
        } else if !known_key(k) {
            Err(ErrorV::UnknownArgument(k))
        } else {
            match string_at(t, i + 2) {
                None => Err(ErrorV::ExpectedStringLiteral),
                Some(v) => if k == "exec_func"@ && !valid_ident(v) {
                    Err(ErrorV::InvalidIdent(v))
                } else {
                    let next = if i + 3 < t.len() && is_punct(t[i + 3], ',') {
                        i + 4
                    } else {
                        i + 3
                    };
                    read_args(
                        t,
                        next,
                        if k == "src"@ { Some(v) } else { src },
                        if k == "exec_func"@ { Some(v) } else { exec },
                    )
                },
            }
        }
    }
}

/// Whether a token opens or closes a group that is delimited by nothing visible (such as
/// one around a fragment that `macro_rules!` passed on).
pub open spec fn is_invisible(t: TokV) -> bool {
    t == TokV::Open(Delim::Invisible) || t == TokV::Close(Delim::Invisible)
}

/// The tokens without the delimiters of invisible groups, which syn's parsers look through.
pub open spec fn visible(t: Seq<TokV>) -> Seq<TokV>
    decreases t.len(),
{
    if t.len() == 0 {
        seq![]
    } else if is_invisible(t.last()) {
        visible(t.drop_last())
    } else {
        visible(t.drop_last()).push(t.last())
    }
}

/// What the macro makes of its argument tokens: the values read, through invisible groups,
/// with `src/command` and `exec_command` where a key is not given.
pub open spec fn macro_args(t: Seq<TokV>) -> Result<(Seq<char>, Seq<char>), ErrorV> {
    read_macro_args(visible(t))
}

/// What the macro makes of argument tokens among which no group is invisible.
pub open spec fn read_macro_args(t: Seq<TokV>) -> Result<(Seq<char>, Seq<char>), ErrorV> {
    match read_args(t, 0, None, None) {
        Ok((src, exec)) => Ok(
            (
                match src {
                    Some(s) => s,
                    None => "src/command"@,
                },
                match exec {
                    Some(e) => e,
                    None => "exec_command"@,
                },
            ),
        ),
        Err(e) => Err(e),
    }
}

/// An optional string seen as an optional character sequence.
pub open spec fn opt_view(o: Option<String>) -> Option<Seq<char>> {
    match o {
        Some(s) => Some(s@),
        None => None,
    }
}

fn str_eq(a: &String, b: &str) -> (r: bool)
    ensures
        r == (a@ == b@),
{
    let b = String::from_str(b);
    *a == b
}

/// The tokens without the delimiters of invisible groups.
fn visible_tokens(t: &Vec<Tok>) -> (r: Vec<Tok>)
    ensures
        toks(r@) == visible(toks(t@)),
{
    let mut out: Vec<Tok> = Vec::new();
    let mut i: usize = 0;
    while i < t.len()
        invariant
            i <= t.len(),
            toks(out@) == visible(toks(t@.take(i as int))),
        decreases t.len() - i,
    {
        let ghost before = out@;
        proof {
            assert(toks(t@.take(i + 1)).drop_last() =~= toks(t@.take(i as int)));
            assert(toks(t@.take(i + 1)).last() == t@[i as int]@);
        }
        let invisible = match &t[i] {
            Tok::Open(d) => *d == Delim::Invisible,
            Tok::Close(d) => *d == Delim::Invisible,
            _ => false,
        };
        if !invisible {
            let c = t[i].copy();
            out.push(c);
            assert(toks(out@) =~= toks(before).push(c@));
        }
        i = i + 1;
    }
    assert(t@.take(t.len() as int) =~= t@);
    out
}

impl MacroArgs {
    /// Reads the arguments of the macro from its tokens, looking through invisible groups.
    pub fn parse(t: &Vec<Tok>) -> (r: Result<MacroArgs, CommandError>)
        ensures
            r matches Ok(a) ==> macro_args(toks(t@)) == Ok::<(Seq<char>, Seq<char>), ErrorV>(
                (a.src@, a.exec_func@),
            ),
            r matches Err(e) ==> macro_args(toks(t@)) == Err::<(Seq<char>, Seq<char>), ErrorV>(
                e@,
            ),
    {
        let v = visible_tokens(t);
        MacroArgs::parse_visible(&v)
    }

    /// Reads the arguments of the macro from tokens among which no group is invisible.
    fn parse_visible(t: &Vec<Tok>) -> (r: Result<MacroArgs, CommandError>)
        ensures
            r matches Ok(a) ==> read_macro_args(toks(t@)) == Ok::<(Seq<char>, Seq<char>), ErrorV>(
                (a.src@, a.exec_func@),
            ),
            r matches Err(e) ==> read_macro_args(toks(t@)) == Err::<(Seq<char>, Seq<char>), ErrorV>(
                e@,
            ),
    {
        let ghost tv = toks(t@);
        let mut src: Option<String> = None;
        let mut exec: Option<String> = None;
        let mut i: usize = 0;
        while i < t.len()
            invariant
                i <= t.len(),
                tv == toks(t@),
                read_args(tv, 0, None, None) == read_args(tv, i as int, opt_view(src), opt_view(exec)),
            decreases t.len() - i,
        {
            let ghost i0 = i as int;
            let ghost src0 = opt_view(src);
            let ghost exec0 = opt_view(exec);
            assert(tv[i0] == t@[i0]@);
            let key = match &t[i] {
                Tok::Ident(k) => k,
                _ => {
                    return Err(CommandError::ExpectedIdent);
                },
            };
            if is_syn_reserved(key) {
                return Err(CommandError::KeywordAsIdent(key.clone()));
            }
            let eq = i + 1 < t.len() && match &t[i + 1] {
                Tok::Punct(c, _) => *c == '=',
                _ => false,
            };
            if !eq {
                return Err(CommandError::ExpectedEq);
            }
            let is_src = str_eq(key, "src");
            let is_exec = str_eq(key, "exec_func");
            let is_help = str_eq(key, "help_message");
            if !(is_src || is_exec || is_help) {
                return Err(CommandError::UnknownArgument(key.clone()));
            }
            let value = if i + 2 < t.len() {
                match &t[i + 2] {
                    Tok::Literal(text) => string_value(text.as_str()),
                    _ => None,
                }
            } else {
                None
            };
            let value = match value {
                Some(v) => v,
                None => {
                    return Err(CommandError::ExpectedStringLiteral);
                },
            };
            if is_exec && !is_valid_ident(&value) {
                return Err(CommandError::InvalidIdent(value));
            }
            let comma = i + 3 < t.len() && match &t[i + 3] {
                Tok::Punct(c, _) => *c == ',',
                _ => false,
            };
            proof {
                assert(tv[i0 + 1] == t@[i0 + 1]@);
                assert(tv[i0 + 2] == t@[i0 + 2]@);
                if i0 + 3 < t.len() {
                    assert(tv[i0 + 3] == t@[i0 + 3]@);
                }
                assert(string_at(tv, i0 + 2) == Some(value@));
                assert(comma == (i0 + 3 < tv.len() && is_punct(tv[i0 + 3], ',')));
            }
            if is_exec {
                exec = Some(value.clone());
            }
            if is_src {
                src = Some(value);
            }
            i = if comma { i + 4 } else { i + 3 };
            proof {
                assert(tv[i0] == TokV::Ident(key@));
                assert(is_punct(tv[i0 + 1], '='));
                assert(read_args(tv, i0, src0, exec0) == read_args(tv, i as int, opt_view(src), opt_view(exec)));
            }
        }
        let src = match src {
            Some(s) => s,
            None => String::from_str("src/command"),
        };
        let exec_func = match exec {
            Some(e) => e,
            None => String::from_str("exec_command"),
        };
        Ok(MacroArgs { src, exec_func })
    }
}

/// Reads the arguments of the macro from the token stream it was given.
pub fn parse_token(item: &proc_macro2::TokenStream) -> (r: Result<MacroArgs, CommandError>)
    ensures
        match r {
            Ok(a) => macro_args(stream_toks(*item)) == Ok::<(Seq<char>, Seq<char>), ErrorV>(
                (a.src@, a.exec_func@),
            ),
            Err(e) => macro_args(stream_toks(*item)) == Err::<(Seq<char>, Seq<char>), ErrorV>(e@),
        },
{
    let t = tokens_of(item);
    MacroArgs::parse(&t)
}

} // verus!
