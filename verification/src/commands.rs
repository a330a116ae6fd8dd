//! Command modules: the `clap::Command` that each describes, and the call of its `#[run]`
//! function with the values that the command line received.

use vstd::prelude::*;
use vstd::string::StringExecFns;
use crate::codegen::{t_call, t_colon2, t_id, t_lit, t_p, t_paren, t_pp, t_str, call, cat,
    colon2, id, nothing, id_string, lit, one, p, paren, pp, str_tok};
use crate::errors::{CommandError, ErrorV};
use crate::header::{ArgDefV, args_code, args_tokens, header_defs, parse_header_args, defs_view};
use crate::signature::{ArgType, RunParam, extract_fn_signature, find_run_fn, params_view, run_fn_position, spec_run_params};
use crate::syntax::{Tok, TokV, TopItem, ItemV, items_v, valid_ident, is_valid_ident, copy_toks, parse_items,
    parsed_items, toks};
use crate::text::{chars_of, find_line, first_with_prefix, lines, seqs, split_lines, split_str,
    split_str_vec, string_of, trim, trim_start_matches, trim_start_matches_vec, trim_vec};

verus! {

/// `a`, then `sep` between each two of the token sequences `items`.
pub open spec fn joined(items: Seq<Seq<TokV>>, sep: Seq<TokV>) -> Seq<TokV>
    decreases items.len(),
{
    if items.len() == 0 {
        seq![]
    } else if items.len() == 1 {
        items[0]
    } else {
        joined(items.drop_last(), sep) + sep + items.last()
    }
}

/// `.method::<ty>(args)`.
pub open spec fn turbofish_call(method: Seq<char>, ty: Seq<TokV>, args: Seq<TokV>) -> Seq<TokV> {
    t_p('.') + t_id(method) + t_colon2() + t_p('<') + ty + t_p('>') + t_paren(args)
}

/// `.collect::<Vec<ty>>()`.
pub open spec fn collect_vec(ty: Seq<TokV>) -> Seq<TokV> {
    t_p('.') + t_id("collect"@) + t_colon2() + t_p('<') + t_id("Vec"@) + t_p('<') + ty + t_pp('>', '>')
        + t_paren(seq![])
}

/// `.expect("missing required argument")`.
pub open spec fn expect_present() -> Seq<TokV> {
    t_call("expect"@, t_lit("\"missing required argument\""@))
}

/// The expression that takes the value of one `#[run]` parameter from the matches `sub_m`:
/// an `Option` stays optional, a `Vec` takes all the values, and a plain parameter must be
/// present.
pub open spec fn param_call(name: Seq<char>, kind: ArgType, ty: Seq<TokV>) -> Seq<TokV> {
    if kind.is_option {
        if kind.is_vec {
            t_id("sub_m"@) + turbofish_call("get_many"@, ty, t_str(name)) + t_call(
                "map"@,
                t_p('|') + t_id("vals"@) + t_p('|') + t_id("vals"@) + t_call("cloned"@, seq![])
                    + collect_vec(ty),
            )
        } else {
            t_id("sub_m"@) + turbofish_call("get_one"@, ty, t_str(name)) + t_call("cloned"@, seq![])
        }
    } else if kind.is_vec {
        t_id("sub_m"@) + turbofish_call("get_many"@, ty, t_str(name)) + expect_present() + t_call(
            "cloned"@,
            seq![],
        ) + collect_vec(ty)
    } else {
        t_id("sub_m"@) + turbofish_call("get_one"@, ty, t_str(name)) + expect_present() + t_call(
            "clone"@,
            seq![],
        )
    }
}

/// The expressions for all the parameters, in order.
pub open spec fn param_calls(ps: Seq<(Seq<char>, ArgType, Seq<TokV>)>) -> Seq<Seq<TokV>> {
    ps.map_values(|q: (Seq<char>, ArgType, Seq<TokV>)| param_call(q.0, q.1, q.2))
}

/// The identifiers of a path, in order.
pub open spec fn path_idents(segments: Seq<Seq<char>>) -> Seq<Seq<TokV>> {
    segments.map_values(|s: Seq<char>| t_id(s))
}

/// The statement `module::path::run_fn(values...);` that runs a command.
pub open spec fn call_tokens(
    path: Seq<char>,
    fn_name: Seq<char>,
    ps: Seq<(Seq<char>, ArgType, Seq<TokV>)>,
) -> Seq<TokV> {
    joined(path_idents(split_str(path, "::"@)), t_colon2()) + t_colon2() + t_id(fn_name) + t_paren(
        joined(param_calls(ps), t_p(',')),
    ) + t_p(';')
}

/// `clap::Command::new(name)`.
pub open spec fn command_new(name: Seq<char>) -> Seq<TokV> {
    t_id("clap"@) + t_colon2() + t_id("Command"@) + t_colon2() + t_id("new"@) + t_paren(t_str(name))
}

/// The `clap::Command` of a command module, with its arguments.
pub open spec fn command_tokens(
    name: Seq<char>,
    about: Seq<char>,
    defs: Seq<ArgDefV>,
    ps: Seq<(Seq<char>, ArgType, Seq<TokV>)>,
) -> Seq<TokV> {
    command_new(name) + t_call("about"@, t_str(about)) + args_tokens(defs, ps)
}

/// The first of the names that cannot become an identifier.
pub open spec fn first_invalid(names: Seq<Seq<char>>) -> Option<Seq<char>>
    decreases names.len(),
{
    if names.len() == 0 {
        None
    } else if !valid_ident(names[0]) {
        Some(names[0])
    } else {
        first_invalid(names.drop_first())
    }
}

/// Checks that each component of a module path can become an identifier.
pub fn check_path(path: &String) -> (r: Result<(), CommandError>)
    ensures
        match r {
            Ok(()) => first_invalid(split_str(path@, "::"@)) is None,
            Err(e) => first_invalid(split_str(path@, "::"@)) matches Some(s) && e@ == ErrorV::InvalidIdent(s),
        },
{
    let sep = chars_of("::");
    proof {
        reveal_strlit("::");
    }
    let segments = split_str_vec(&chars_of(path.as_str()), &sep);
    let mut i: usize = 0;
    assert(seqs(segments@).skip(0) =~= seqs(segments@));
    while i < segments.len()
        invariant
            i <= segments.len(),
            sep@ == "::"@,
            seqs(segments@) == split_str(path@, "::"@),
            first_invalid(seqs(segments@)) == first_invalid(seqs(segments@).skip(i as int)),
        decreases segments.len() - i,
    {
        let ghost rest = seqs(segments@).skip(i as int);
        assert(rest[0] == segments@[i as int]@);
        assert(rest.drop_first() =~= seqs(segments@).skip(i + 1));
        let segment = string_of(&segments[i]);
        if !is_valid_ident(&segment) {
            return Err(CommandError::InvalidIdent(segment));
        }
        i = i + 1;
    }
    Ok(())
}

/// The value of the directive `key` on its line.
pub open spec fn directive(line: Seq<char>, key: Seq<char>) -> Seq<char> {
    trim(trim_start_matches(line, key))
}

/// What a command module gives: nothing when it lacks the `//! router:` or the
/// `//! description:` line; otherwise its `clap::Command`, its name and the statement that
/// runs it, or the first error met.
pub open spec fn spec_command_file(content: Seq<char>, path: Seq<char>) -> Result<
    Option<(Seq<TokV>, Seq<char>, Seq<TokV>)>,
    ErrorV,
> {
    let ls = lines(content);
    match (first_with_prefix(ls, "//! router:"@), first_with_prefix(ls, "//! description:"@)) {
        (Some(router), Some(description)) => {
            let name = directive(router, "//! router:"@);
            let about = directive(description, "//! description:"@);
            match parsed_items(content) {
                Err(m) => Err(ErrorV::Syntax(m)),
                Ok(items) => match run_fn_position(items, path) {
                    Err(e) => Err(e),
                    Ok(i) => match items[i] {
                        ItemV::Function { name: fn_name, params, .. } => match spec_run_params(params) {
                            Err(e) => Err(e),
                            Ok(ps) => match header_defs(ls) {
                                Err(e) => Err(e),
                                Ok(defs) => match first_invalid(split_str(path, "::"@)) {
                                    Some(segment) => Err(ErrorV::InvalidIdent(segment)),
                                    None => Ok(
                                        Some(
                                            (
                                                command_tokens(name, about, defs, ps),
                                                name,
                                                call_tokens(path, fn_name, ps),
                                            ),
                                        ),
                                    ),
                                },
                            },
                        },
                        // `run_fn_position` only gives the position of a function.
                        ItemV::Other => Err(ErrorV::MissingRunFunction(path)),
                    },
                },
            }
        },
        _ => Ok(None),
    }
}

/// The tokens `sep` joining token sequences.
fn join_tokens(items: Vec<Vec<Tok>>, sep: &Vec<Tok>) -> (r: Vec<Tok>)
    ensures
        toks(r@) == joined(items@.map_values(|v: Vec<Tok>| toks(v@)), toks(sep@)),
{
    let ghost all = items@.map_values(|v: Vec<Tok>| toks(v@));
    let mut items = items;
    let mut rest: Vec<Vec<Tok>> = Vec::new();
    // Take the items from the back, then put them together from the front.
    while items.len() > 0
        invariant
            items@.map_values(|v: Vec<Tok>| toks(v@)) + rest@.map_values(|v: Vec<Tok>| toks(v@)).reverse()
                == all,
        decreases items.len(),
    {
        let ghost before_items = items@;
        let v = items.pop().unwrap();
        rest.push(v);
        assert(items@.map_values(|v: Vec<Tok>| toks(v@)) + rest@.map_values(|v: Vec<Tok>| toks(v@)).reverse()
            =~= all) by {
            assert(before_items =~= items@.push(v));
        }
    }
    assert(rest@.map_values(|v: Vec<Tok>| toks(v@)).reverse() =~= all);
    let mut out: Vec<Tok> = Vec::new();
    let mut n: usize = 0;
    let total = rest.len();
    assert(toks(out@) =~= joined(all.take(0), toks(sep@)));
    while rest.len() > 0
        invariant
            n + rest.len() == total,
            total == all.len(),
            forall|k: int| 0 <= k < rest.len() ==> toks(#[trigger] rest@[k]@) == all[total - 1 - k],
            toks(out@) == joined(all.take(n as int), toks(sep@)),
        decreases rest.len(),
    {
        let ghost before = rest@;
        let v = rest.pop().unwrap();
        assert(toks(v@) == all[n as int]) by {
            assert(v == before[before.len() - 1]);
        }
        if n == 0 {
            out = v;
        } else {
            out = cat(cat(out, copy_toks(sep)), v);
        }
        proof {
            let t = all.take(n + 1);
            assert(t.drop_last() =~= all.take(n as int));
            if n == 0 {
                assert(t =~= seq![all[0]]);
            }
            assert forall|k: int| 0 <= k < rest.len() implies toks(#[trigger] rest@[k]@) == all[total
                - 1 - k] by {
                assert(rest@[k] == before[k]);
            }
        }
        n = n + 1;
    }
    assert(all.take(total as int) =~= all);
    out
}

fn turbofish(method: &str, ty: &Vec<Tok>, args: Vec<Tok>) -> (r: Vec<Tok>)
    ensures
        toks(r@) == turbofish_call(method@, toks(ty@), toks(args@)),
{
    cat(
        cat(cat(cat(cat(cat(p('.'), id(method)), colon2()), p('<')), copy_toks(ty)), p('>')),
        paren(args),
    )
}

fn collect_vec_tokens(ty: &Vec<Tok>) -> (r: Vec<Tok>)
    ensures
        toks(r@) == collect_vec(toks(ty@)),
{
    cat(
        cat(
            cat(
                cat(cat(cat(cat(p('.'), id("collect")), colon2()), p('<')), id("Vec")),
                p('<'),
            ),
            cat(copy_toks(ty), pp('>', '>')),
        ),
        paren(nothing()),
    )
}

/// The expression that takes the value of one `#[run]` parameter from the matches `sub_m`.
pub fn param_code(q: &RunParam) -> (r: Vec<Tok>)
    ensures
        toks(r@) == param_call(q.name@, q.kind, toks(q.inner@)),
{
    let name = str_tok(q.name.clone());
    let r = if q.kind.is_option {
        if q.kind.is_vec {
            let head = cat(id("sub_m"), turbofish("get_many", &q.inner, name));
            let closure = cat(
                cat(cat(cat(cat(p('|'), id("vals")), p('|')), id("vals")), call("cloned", nothing())),
                collect_vec_tokens(&q.inner),
            );
            cat(head, call("map", closure))
        } else {
            cat(
                cat(id("sub_m"), turbofish("get_one", &q.inner, name)),
                call("cloned", nothing()),
            )
        }
    } else if q.kind.is_vec {
        cat(
            cat(
                cat(
                    cat(id("sub_m"), turbofish("get_many", &q.inner, name)),
                    call("expect", lit("\"missing required argument\"")),
                ),
                call("cloned", nothing()),
            ),
            collect_vec_tokens(&q.inner),
        )
    } else {
        cat(
            cat(
                cat(id("sub_m"), turbofish("get_one", &q.inner, name)),
                call("expect", lit("\"missing required argument\"")),
            ),
            call("clone", nothing()),
        )
    };
    r
}


/// The token sequences seen as mathematical values.
pub open spec fn pieces(v: Seq<Vec<Tok>>) -> Seq<Seq<TokV>> {
    v.map_values(|t: Vec<Tok>| toks(t@))
}

/// The statement `module::path::run_fn(values...);` that runs a command.
pub fn call_code(path: &String, fn_name: &String, params: &Vec<RunParam>) -> (r: Vec<Tok>)
    ensures
        toks(r@) == call_tokens(path@, fn_name@, params_view(params@)),
{
    let sep = chars_of("::");
    proof {
        reveal_strlit("::");
    }
    let segments = split_str_vec(&chars_of(path.as_str()), &sep);
    let mut idents: Vec<Vec<Tok>> = Vec::new();
    let mut i: usize = 0;
    while i < segments.len()
        invariant
            i <= segments.len(),
            pieces(idents@) == path_idents(seqs(segments@)).take(i as int),
        decreases segments.len() - i,
    {
        let ghost before = idents@;
        idents.push(id_string(string_of(&segments[i])));
        assert(pieces(idents@) =~= pieces(before).push(t_id(segments@[i as int]@)));
        assert(path_idents(seqs(segments@)).take(i + 1) =~= path_idents(seqs(segments@)).take(
            i as int,
        ).push(t_id(segments@[i as int]@)));
        i = i + 1;
    }
    assert(path_idents(seqs(segments@)).take(segments.len() as int) =~= path_idents(
        seqs(segments@),
    ));
    let mut values: Vec<Vec<Tok>> = Vec::new();
    let mut j: usize = 0;
    while j < params.len()
        invariant
            j <= params.len(),
            pieces(values@) == param_calls(params_view(params@)).take(j as int),
        decreases params.len() - j,
    {
        let ghost before = values@;
        let q = &params[j];
        values.push(param_code(q));
        assert(pieces(values@) =~= pieces(before).push(param_call(q.name@, q.kind, toks(q.inner@))));
        assert(param_calls(params_view(params@)).take(j + 1) =~= param_calls(params_view(params@)).take(
            j as int,
        ).push(param_call(q.name@, q.kind, toks(q.inner@))));
        j = j + 1;
    }
    assert(param_calls(params_view(params@)).take(params.len() as int) =~= param_calls(
        params_view(params@),
    ));
    cat(
        cat(
            cat(cat(join_tokens(idents, &colon2()), colon2()), id_string(fn_name.clone())),
            paren(join_tokens(values, &p(','))),
        ),
        p(';'),
    )
}

pub fn command_new_code(name: String) -> (r: Vec<Tok>)
    ensures
        toks(r@) == command_new(name@),
{
    cat(
        cat(cat(cat(cat(id("clap"), colon2()), id("Command")), colon2()), id("new")),
        paren(str_tok(name)),
    )
}

/// The `clap::Command` of a command module, with its arguments.
pub fn command_code(name: String, about: String, defs: &Vec<crate::header::ArgDef>, params: &Vec<RunParam>) -> (r: Vec<Tok>)
    ensures
        toks(r@) == command_tokens(name@, about@, defs_view(defs@), params_view(params@)),
{
    cat(cat(command_new_code(name), call("about", str_tok(about))), args_code(defs, params))
}

/// What a command module gives: its `clap::Command`, its name, and the statement that runs it.
pub struct LeafCommand {
    pub command: Vec<Tok>,
    pub name: String,
    pub call: Vec<Tok>,
}

/// Reads a command module: `content` is its source and `path` its module path (such as
/// `command::start`).
pub fn parse_command_and_run_from_file(content: &str, path: &String) -> (r: Result<
    Option<LeafCommand>,
    CommandError,
>)
    ensures
        match r {
            Ok(Some(c)) => spec_command_file(content@, path@) == Ok::<
                Option<(Seq<TokV>, Seq<char>, Seq<TokV>)>,
                ErrorV,
            >(Some((toks(c.command@), c.name@, toks(c.call@)))),
            Ok(None) => spec_command_file(content@, path@) == Ok::<
                Option<(Seq<TokV>, Seq<char>, Seq<TokV>)>,
                ErrorV,
            >(None),
            Err(e) => spec_command_file(content@, path@) == Err::<
                Option<(Seq<TokV>, Seq<char>, Seq<TokV>)>,
                ErrorV,
            >(e@),
        },
{
    let ls = split_lines(&chars_of(content));
    let router_key = chars_of("//! router:");
    let description_key = chars_of("//! description:");
    let router = find_line(&ls, &router_key);
    let description = find_line(&ls, &description_key);
    let (ri, di) = match (router, description) {
        (Some(ri), Some(di)) => (ri, di),
        _ => {
            return Ok(None);
        },
    };
    let name = string_of(&trim_vec(&trim_start_matches_vec(&ls[ri], &router_key)));
    let about = string_of(&trim_vec(&trim_start_matches_vec(&ls[di], &description_key)));
    let items = match parse_items(content) {
        Ok(items) => items,
        Err(m) => {
            return Err(CommandError::Syntax(m));
        },
    };
    let i = find_run_fn(&items, path)?;
    proof {
        crate::signature::lemma_run_position_in_range(items_v(items@), path@);
        assert(items_v(items@)[i as int] == crate::syntax::item_v(items@[i as int]));
    }
    let (fn_name, params) = match &items[i] {
        TopItem::Function { name: fn_name, params, .. } => extract_fn_signature(fn_name, params)?,
        TopItem::Other => {
            return Err(CommandError::MissingRunFunction(path.clone()));
        },
    };
    let defs = parse_header_args(&ls)?;
    check_path(path)?;
    let call = call_code(path, &fn_name, &params);
    Ok(Some(LeafCommand { command: command_code(name.clone(), about, &defs, &params), name, call }))
}

/// The name and the description that a `mod.rs` gives its command.
pub struct Modfile {
    pub command_name: String,
    pub description: String,
}

/// What a `mod.rs` gives: the values of its first `//! router:` and `//! description:` lines.
pub open spec fn spec_modfile(content: Seq<char>) -> Result<(Seq<char>, Seq<char>), ErrorV> {
    let ls = lines(content);
    match first_with_prefix(ls, "//! router:"@) {
        None => Err(ErrorV::MissingRouter),
        Some(router) => match first_with_prefix(ls, "//! description:"@) {
            None => Err(ErrorV::MissingDescription),
            Some(description) => Ok(
                (directive(router, "//! router:"@), directive(description, "//! description:"@)),
            ),
        },
    }
}

/// Reads a `mod.rs`.
pub fn parse_modfile(content: &str) -> (r: Result<Modfile, CommandError>)
    ensures
        match r {
            Ok(m) => spec_modfile(content@) == Ok::<(Seq<char>, Seq<char>), ErrorV>(
                (m.command_name@, m.description@),
            ),
            Err(e) => spec_modfile(content@) == Err::<(Seq<char>, Seq<char>), ErrorV>(e@),
        },
{
    let ls = split_lines(&chars_of(content));
    let router_key = chars_of("//! router:");
    let description_key = chars_of("//! description:");
    let ri = match find_line(&ls, &router_key) {
        Some(ri) => ri,
        None => {
            return Err(CommandError::MissingRouter);
        },
    };
    let di = match find_line(&ls, &description_key) {
        Some(di) => di,
        None => {
            return Err(CommandError::MissingDescription);
        },
    };
    Ok(Modfile {
        command_name: string_of(&trim_vec(&trim_start_matches_vec(&ls[ri], &router_key))),
        description: string_of(&trim_vec(&trim_start_matches_vec(&ls[di], &description_key))),
    })
}

} // verus!
