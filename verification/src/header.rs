//! The leading `//!` comments of a command module, which describe the command.
//!
//! ```text
//! //! router: start
//! //! description: Start the server
//! //! args: <name> <file:default.txt>(input file) [extra(optional)]
//! //! log_level required
//! //! --config -c <config>, config path (optional\, default: none)
//! ```

use vstd::prelude::*;
use crate::errors::{CommandError, ErrorV};
use crate::codegen::{t_call, t_colon2, t_id, t_lit, t_paren, t_str, call, cat, colon2, id, lit,
    one, paren, str_tok};
use crate::signature::{prepend, ArgType, RunParam, num_args_spec, param_view, params_view};
use crate::syntax::{Tok, TokV, toks};
use crate::text::{chars_of, copy_range, ends_with, ends_with_char, find_line, first_with_prefix,
    replace, replace_vec, seqs, split, split_char, split_whitespace, split_whitespace_vec,
    starts_with, starts_with_at, starts_with_char, string_of, trim, trim_end_matches,
    trim_end_matches_char, trim_start_matches, trim_start_matches_char, trim_start_matches_vec,
    trim_vec};

verus! {

/// An argument of a command.
pub enum ArgDef {
    /// An argument given by position.
    Positional { name: String, required: bool, default: Option<String>, help: String },
    /// The `--log_level` option.
    LogLevel,
    /// An option with a short and a long flag.
    Flag { value_name: String, short: char, long: String, help: String },
}

/// An argument of a command seen as a mathematical value.
pub enum ArgDefV {
    Positional { name: Seq<char>, required: bool, default: Option<Seq<char>>, help: Seq<char> },
    LogLevel,
    Flag { value_name: Seq<char>, short: char, long: Seq<char>, help: Seq<char> },
}

impl View for ArgDef {
    type V = ArgDefV;

    open spec fn view(&self) -> ArgDefV {
        match self {
            ArgDef::Positional { name, required, default, help } => ArgDefV::Positional {
                name: name@,
                required: *required,
                default: match default {
                    Some(d) => Some(d@),
                    None => None,
                },
                help: help@,
            },
            ArgDef::LogLevel => ArgDefV::LogLevel,
            ArgDef::Flag { value_name, short, long, help } => ArgDefV::Flag {
                value_name: value_name@,
                short: *short,
                long: long@,
                help: help@,
            },
        }
    }
}

/// Arguments seen as mathematical values.
pub open spec fn defs_view(v: Seq<ArgDef>) -> Seq<ArgDefV> {
    v.map_values(|a: ArgDef| a@)
}

/// The second of some pieces, or nothing.
pub open spec fn second_piece(parts: Seq<Seq<char>>) -> Seq<char> {
    if parts.len() > 1 {
        parts[1]
    } else {
        seq![]
    }
}

/// A positional argument from `name` or `name:default`; anything else names none.
pub open spec fn named_arg(parts: Seq<Seq<char>>, required: bool, help: Seq<char>) -> Option<ArgDefV> {
    if parts.len() == 1 {
        Some(ArgDefV::Positional { name: parts[0], required, default: None, help })
    } else if parts.len() == 2 {
        Some(ArgDefV::Positional { name: parts[0], required, default: Some(parts[1]), help })
    } else {
        None
    }
}

/// The argument that a word of the `//! args:` line describes: `<name>` or
/// `<name:default>` is required, `[name]` or `[name:default]` is not, and either may be
/// followed by `(help)`.
pub open spec fn positional_arg(word: Seq<char>) -> Option<ArgDefV> {
    if starts_with(word, seq!['<']) && (ends_with_char(word, '>') || ends_with_char(word, ')')) {
        let a = trim_end_matches(trim_start_matches(word, seq!['<']), '>');
        let help = trim_end_matches(second_piece(split(a, '(')), ')');
        let a = trim_end_matches(trim_start_matches(split(a, '(')[0], seq!['<']), '>');
        named_arg(split(a, ':'), true, help)
    } else if starts_with(word, seq!['[']) && (ends_with_char(word, ']') || ends_with_char(word, ')')) {
        let help = trim_end_matches(second_piece(split(word, '(')), ')');
        let a = trim_end_matches(trim_start_matches(split(word, '(')[0], seq!['[']), ']');
        named_arg(split(a, ':'), false, help)
    } else {
        None
    }
}

/// The arguments that the words of the `//! args:` line describe, in order.
pub open spec fn positional_args(words: Seq<Seq<char>>) -> Seq<ArgDefV>
    decreases words.len(),
{
    if words.len() == 0 {
        seq![]
    } else {
        let r = positional_args(words.drop_last());
        match positional_arg(words.last()) {
            Some(a) => r.push(a),
            None => r,
        }
    }
}

/// The arguments of the first `//! args:` line.
pub open spec fn args_line_defs(ls: Seq<Seq<char>>) -> Seq<ArgDefV> {
    match first_with_prefix(ls, "//! args:"@) {
        Some(l) => positional_args(split_whitespace(trim(trim_start_matches(l, "//! args:"@)))),
        None => seq![],
    }
}

/// The `--log_level` option, when a line asks for it.
pub open spec fn log_level_defs(ls: Seq<Seq<char>>) -> Seq<ArgDefV> {
    if first_with_prefix(ls, "//! log_level required"@) is Some {
        seq![ArgDefV::LogLevel]
    } else {
        seq![]
    }
}

/// The option that an option line describes: `--long -s <value>, help`, where `\,` stands
/// for a comma in the help. A line without exactly one other comma, or with fewer than three
/// words before it, describes none; an empty short flag is an error.
pub open spec fn option_def(line: Seq<char>) -> Result<Option<ArgDefV>, ErrorV> {
    let def = replace(trim(trim_start_matches(line, "//! "@)), "\\,"@, "PLACEHOLDER"@);
    let parts = split(def, ',');
    if parts.len() != 2 {
        Ok(None)
    } else {
        let words = split_whitespace(parts[0]);
        let help = replace(trim(parts[1]), "PLACEHOLDER"@, ","@);
        if words.len() < 3 {
            Ok(None)
        } else {
            let long = trim_start_matches(words[0], "--"@);
            let short = trim_start_matches(words[1], seq!['-']);
            let value = trim_end_matches(trim_start_matches(words[2], seq!['<']), '>');
            if short.len() == 0 {
                Err(ErrorV::EmptyShortFlag)
            } else {
                Ok(Some(ArgDefV::Flag { value_name: value, short: short[0], long, help }))
            }
        }
    }
}

/// An optional argument as a sequence of none or one.
pub open spec fn opt_seq(o: Option<ArgDefV>) -> Seq<ArgDefV> {
    match o {
        Some(a) => seq![a],
        None => seq![],
    }
}

/// The options of the lines that begin with `//! --`, in order.
pub open spec fn option_defs(ls: Seq<Seq<char>>) -> Result<Seq<ArgDefV>, ErrorV>
    decreases ls.len(),
{
    if ls.len() == 0 {
        Ok(seq![])
    } else if starts_with(ls[0], "//! --"@) {
        match option_def(ls[0]) {
            Err(e) => Err(e),
            Ok(o) => prepend(opt_seq(o), option_defs(ls.drop_first())),
        }
    } else {
        option_defs(ls.drop_first())
    }
}

/// All the arguments that the comment lines describe: those of the `//! args:` line, then
/// `--log_level`, then the options.
pub open spec fn header_defs(ls: Seq<Seq<char>>) -> Result<Seq<ArgDefV>, ErrorV> {
    prepend(args_line_defs(ls) + log_level_defs(ls), option_defs(ls))
}

fn second(parts: &Vec<Vec<char>>) -> (r: Vec<char>)
    ensures
        r@ == second_piece(seqs(parts@)),
{
    if parts.len() > 1 {
        copy_range(&parts[1], 0, parts[1].len())
    } else {
        Vec::new()
    }
}

fn named(parts: &Vec<Vec<char>>, required: bool, help: &Vec<char>) -> (r: Option<ArgDef>)
    ensures
        match r {
            Some(a) => named_arg(seqs(parts@), required, help@) == Some(a@),
            None => named_arg(seqs(parts@), required, help@) is None,
        },
{
    if parts.len() == 1 {
        Some(ArgDef::Positional {
            name: string_of(&parts[0]),
            required,
            default: None,
            help: string_of(help),
        })
    } else if parts.len() == 2 {
        Some(ArgDef::Positional {
            name: string_of(&parts[0]),
            required,
            default: Some(string_of(&parts[1])),
            help: string_of(help),
        })
    } else {
        None
    }
}

/// The argument that a word of the `//! args:` line describes.
pub fn parse_positional(word: &Vec<char>) -> (r: Option<ArgDef>)
    ensures
        match r {
            Some(a) => positional_arg(word@) == Some(a@),
            None => positional_arg(word@) is None,
        },
{
    if starts_with_char(word, '<') && (ends_with(word, '>') || ends_with(word, ')')) {
        let a = trim_end_matches_char(&trim_start_matches_char(word, '<'), '>');
        let pieces = split_char(&a, '(');
        let help = trim_end_matches_char(&second(&pieces), ')');
        let a = trim_end_matches_char(&trim_start_matches_char(&pieces[0], '<'), '>');
        named(&split_char(&a, ':'), true, &help)
    } else if starts_with_char(word, '[') && (ends_with(word, ']') || ends_with(word, ')')) {
        let pieces = split_char(word, '(');
        let help = trim_end_matches_char(&second(&pieces), ')');
        let a = trim_end_matches_char(&trim_start_matches_char(&pieces[0], '['), ']');
        named(&split_char(&a, ':'), false, &help)
    } else {
        None
    }
}

/// The arguments that some words of the `//! args:` line describe, in order.
pub fn parse_positionals(words: &Vec<Vec<char>>) -> (r: Vec<ArgDef>)
    ensures
        defs_view(r@) == positional_args(seqs(words@)),
{
    let mut out: Vec<ArgDef> = Vec::new();
    let mut i: usize = 0;
    assert(seqs(words@).take(0) =~= Seq::<Seq<char>>::empty());
    assert(defs_view(out@) =~= Seq::<ArgDefV>::empty());
    while i < words.len()
        invariant
            i <= words.len(),
            defs_view(out@) == positional_args(seqs(words@).take(i as int)),
        decreases words.len() - i,
    {
        let ghost before = defs_view(out@);
        let a = parse_positional(&words[i]);
        proof {
            let w = seqs(words@).take(i + 1);
            assert(w.drop_last() =~= seqs(words@).take(i as int));
            assert(w.last() == words@[i as int]@);
        }
        match a {
            Some(a) => {
                out.push(a);
                assert(defs_view(out@) =~= before.push(out@.last()@));
            },
            None => {},
        }
        i = i + 1;
    }
    assert(seqs(words@).take(words.len() as int) =~= seqs(words@));
    out
}

/// The option that an option line describes.
pub fn parse_option(line: &Vec<char>) -> (r: Result<Option<ArgDef>, CommandError>)
    ensures
        match r {
            Ok(Some(a)) => option_def(line@) == Ok::<Option<ArgDefV>, ErrorV>(Some(a@)),
            Ok(None) => option_def(line@) == Ok::<Option<ArgDefV>, ErrorV>(None),
            Err(e) => option_def(line@) == Err::<Option<ArgDefV>, ErrorV>(e@),
        },
{
    let def = trim_vec(&trim_start_matches_vec(line, &chars_of("//! ")));
    let def = replace_vec(&def, &chars_of("\\,"), &chars_of("PLACEHOLDER"));
    let parts = split_char(&def, ',');
    if parts.len() != 2 {
        return Ok(None);
    }
    let words = split_whitespace_vec(&parts[0]);
    let help = replace_vec(&trim_vec(&parts[1]), &chars_of("PLACEHOLDER"), &chars_of(","));
    if words.len() < 3 {
        return Ok(None);
    }
    let long = trim_start_matches_vec(&words[0], &chars_of("--"));
    let short = trim_start_matches_char(&words[1], '-');
    let value = trim_end_matches_char(&trim_start_matches_char(&words[2], '<'), '>');
    if short.len() == 0 {
        return Err(CommandError::EmptyShortFlag);
    }
    Ok(Some(ArgDef::Flag {
        value_name: string_of(&value),
        short: short[0],
        long: string_of(&long),
        help: string_of(&help),
    }))
}

/// The options of the lines that begin with `//! --`, in order.
pub fn parse_options(ls: &Vec<Vec<char>>) -> (r: Result<Vec<ArgDef>, CommandError>)
    ensures
        match r {
            Ok(v) => option_defs(seqs(ls@)) == Ok::<Seq<ArgDefV>, ErrorV>(defs_view(v@)),
            Err(e) => option_defs(seqs(ls@)) == Err::<Seq<ArgDefV>, ErrorV>(e@),
        },
{
    let prefix = chars_of("//! --");
    let mut out: Vec<ArgDef> = Vec::new();
    let mut i: usize = 0;
    assert(seqs(ls@).skip(0) =~= seqs(ls@));
    assert(defs_view(out@) =~= Seq::<ArgDefV>::empty());
    while i < ls.len()
        invariant
            i <= ls.len(),
            prefix@ == "//! --"@,
            option_defs(seqs(ls@)) == prepend(defs_view(out@), option_defs(seqs(ls@).skip(i as int))),
        decreases ls.len() - i,
    {
        let ghost rest = seqs(ls@).skip(i as int);
        let ghost before = defs_view(out@);
        assert(rest[0] == ls@[i as int]@);
        assert(rest.drop_first() =~= seqs(ls@).skip(i + 1));
        assert(ls@[i as int]@.skip(0) =~= ls@[i as int]@);
        if starts_with_at(&ls[i], 0, &prefix) {
            match parse_option(&ls[i]) {
                Err(e) => {
                    return Err(e);
                },
                Ok(Some(a)) => {
                    out.push(a);
                    assert(defs_view(out@) =~= before + seq![out@.last()@]);
                    proof {
                        match option_defs(seqs(ls@).skip(i + 1)) {
                            Ok(r) => {
                                assert(before + (seq![out@.last()@] + r) =~= defs_view(out@) + r);
                            },
                            Err(_) => {},
                        }
                    }
                },
                Ok(None) => {
                    proof {
                        match option_defs(seqs(ls@).skip(i + 1)) {
                            Ok(r) => {
                                assert(Seq::<ArgDefV>::empty() + r =~= r);
                            },
                            Err(_) => {},
                        }
                    }
                },
            }
        }
        i = i + 1;
    }
    assert(defs_view(out@) + Seq::<ArgDefV>::empty() =~= defs_view(out@));
    Ok(out)
}

/// All the arguments that the comment lines `ls` describe.
pub fn parse_header_args(ls: &Vec<Vec<char>>) -> (r: Result<Vec<ArgDef>, CommandError>)
    ensures
        match r {
            Ok(v) => header_defs(seqs(ls@)) == Ok::<Seq<ArgDefV>, ErrorV>(defs_view(v@)),
            Err(e) => header_defs(seqs(ls@)) == Err::<Seq<ArgDefV>, ErrorV>(e@),
        },
{
    let args_key = chars_of("//! args:");
    let mut out = match find_line(ls, &args_key) {
        Some(i) => {
            let value = trim_vec(&trim_start_matches_vec(&ls[i], &args_key));
            parse_positionals(&split_whitespace_vec(&value))
        },
        None => Vec::new(),
    };
    assert(defs_view(out@) == args_line_defs(seqs(ls@)));
    let ghost before = defs_view(out@);
    if find_line(ls, &chars_of("//! log_level required")).is_some() {
        out.push(ArgDef::LogLevel);
        assert(defs_view(out@) =~= before + seq![ArgDefV::LogLevel]);
    } else {
        assert(defs_view(out@) =~= before + Seq::<ArgDefV>::empty());
    }
    let ghost front = defs_view(out@);
    match parse_options(ls) {
        Ok(mut options) => {
            let ghost ov = defs_view(options@);
            out.append(&mut options);
            assert(defs_view(out@) =~= front + ov);
            Ok(out)
        },
        Err(e) => Err(e),
    }
}


/// The kind of the `#[run]` parameter called `name`: the last one of that name decides, and
/// an argument that no parameter takes is plain.
pub open spec fn arg_type_of(ps: Seq<(Seq<char>, ArgType, Seq<TokV>)>, name: Seq<char>) -> ArgType
    decreases ps.len(),
{
    if ps.len() == 0 {
        ArgType { is_option: false, is_vec: false }
    } else if ps.last().0 == name {
        ps.last().1
    } else {
        arg_type_of(ps.drop_last(), name)
    }
}

/// The kind of the `#[run]` parameter called `name`.
pub fn lookup_arg_type(params: &Vec<RunParam>, name: &String) -> (t: ArgType)
    ensures
        t == arg_type_of(params_view(params@), name@),
{
    let mut j = params.len();
    assert(params_view(params@).take(j as int) =~= params_view(params@));
    while j > 0
        invariant
            j <= params.len(),
            arg_type_of(params_view(params@), name@) == arg_type_of(
                params_view(params@).take(j as int),
                name@,
            ),
        decreases j,
    {
        let ghost pre = params_view(params@).take(j as int);
        assert(pre.last() == param_view(params@[j - 1]));
        assert(pre.drop_last() =~= params_view(params@).take(j - 1));
        if params[j - 1].name == *name {
            return params[j - 1].kind;
        }
        j = j - 1;
    }
    ArgType::plain()
}

/// `clap::Arg::new`.
pub open spec fn clap_arg_new() -> Seq<TokV> {
    t_id("clap"@) + t_colon2() + t_id("Arg"@) + t_colon2() + t_id("new"@)
}

/// The text of a boolean in code.
pub open spec fn bool_word(b: bool) -> Seq<char> {
    if b {
        "true"@
    } else {
        "false"@
    }
}

/// The tokens after `clap::Arg::new` for a positional argument.
pub open spec fn positional_inner(
    name: Seq<char>,
    required: bool,
    default: Option<Seq<char>>,
    help: Seq<char>,
    ps: Seq<(Seq<char>, ArgType, Seq<TokV>)>,
) -> Seq<TokV> {
    t_paren(t_str(name)) + t_call("required"@, t_id(bool_word(required))) + match default {
        Some(d) => t_call("default_value"@, t_str(d)),
        None => seq![],
    } + t_call("help"@, t_str(help)) + num_args_spec(arg_type_of(ps, name))
}

/// The tokens after `clap::Arg::new` for the `--log_level` option.
pub open spec fn log_level_inner() -> Seq<TokV> {
    t_paren(t_lit("\"log_level\""@)) + t_call("long"@, t_lit("\"log_level\""@)) + t_call(
        "value_name"@,
        t_lit("\"log_level\""@),
    ) + t_call("default_value"@, t_lit("\"info\""@)) + t_call(
        "help"@,
        t_lit("\"Set Log level(trace, debug, info, warn, error, off)\""@),
    )
}

/// The tokens after `clap::Arg::new` for an option with flags.
pub open spec fn flag_inner(
    value_name: Seq<char>,
    short: char,
    long: Seq<char>,
    help: Seq<char>,
    ps: Seq<(Seq<char>, ArgType, Seq<TokV>)>,
) -> Seq<TokV> {
    t_paren(t_str(value_name)) + t_call("short"@, seq![TokV::Char(short)]) + t_call(
        "long"@,
        t_str(long),
    ) + t_call("value_name"@, t_str(value_name)) + t_call("help"@, t_str(help)) + num_args_spec(
        arg_type_of(ps, value_name),
    )
}

/// The code `.arg(clap::Arg::new(...)...)` that adds one argument to a `clap::Command`.
pub open spec fn arg_tokens(a: ArgDefV, ps: Seq<(Seq<char>, ArgType, Seq<TokV>)>) -> Seq<TokV> {
    t_call(
        "arg"@,
        clap_arg_new() + match a {
            ArgDefV::Positional { name, required, default, help } => positional_inner(
                name,
                required,
                default,
                help,
                ps,
            ),
            ArgDefV::LogLevel => log_level_inner(),
            ArgDefV::Flag { value_name, short, long, help } => flag_inner(
                value_name,
                short,
                long,
                help,
                ps,
            ),
        },
    )
}

/// The code that adds arguments to a `clap::Command`, in order.
pub open spec fn args_tokens(defs: Seq<ArgDefV>, ps: Seq<(Seq<char>, ArgType, Seq<TokV>)>) -> Seq<TokV>
    decreases defs.len(),
{
    if defs.len() == 0 {
        seq![]
    } else {
        args_tokens(defs.drop_last(), ps) + arg_tokens(defs.last(), ps)
    }
}

fn clap_arg_new_tokens() -> (r: Vec<Tok>)
    ensures
        toks(r@) == clap_arg_new(),
{
    cat(cat(cat(cat(id("clap"), colon2()), id("Arg")), colon2()), id("new"))
}

fn positional_inner_tokens(
    name: &String,
    required: bool,
    default: &Option<String>,
    help: &String,
    params: &Vec<RunParam>,
) -> (r: Vec<Tok>)
    ensures
        toks(r@) == positional_inner(
            name@,
            required,
            match default {
                Some(d) => Some(d@),
                None => None,
            },
            help@,
            params_view(params@),
        ),
{
    let d = match default {
        Some(d) => call("default_value", str_tok(d.clone())),
        None => Vec::new(),
    };
    let r = cat(
        cat(
            cat(
                cat(paren(str_tok(name.clone())), call("required", id(if required { "true" } else { "false" }))),
                d,
            ),
            call("help", str_tok(help.clone())),
        ),
        lookup_arg_type(params, name).num_args_tokens(),
    );
    proof {
        if default is None {
            assert(toks(d@) =~= Seq::<TokV>::empty());
        }
    }
    r
}

fn log_level_inner_tokens() -> (r: Vec<Tok>)
    ensures
        toks(r@) == log_level_inner(),
{
    cat(
        cat(
            cat(
                cat(paren(lit("\"log_level\"")), call("long", lit("\"log_level\""))),
                call("value_name", lit("\"log_level\"")),
            ),
            call("default_value", lit("\"info\"")),
        ),
        call("help", lit("\"Set Log level(trace, debug, info, warn, error, off)\"")),
    )
}

fn flag_inner_tokens(
    value_name: &String,
    short: char,
    long: &String,
    help: &String,
    params: &Vec<RunParam>,
) -> (r: Vec<Tok>)
    ensures
        toks(r@) == flag_inner(value_name@, short, long@, help@, params_view(params@)),
{
    cat(
        cat(
            cat(
                cat(
                    cat(paren(str_tok(value_name.clone())), call("short", one(Tok::Char(short)))),
                    call("long", str_tok(long.clone())),
                ),
                call("value_name", str_tok(value_name.clone())),
            ),
            call("help", str_tok(help.clone())),
        ),
        lookup_arg_type(params, value_name).num_args_tokens(),
    )
}

/// The code that adds one argument to a `clap::Command`.
pub fn arg_code(a: &ArgDef, params: &Vec<RunParam>) -> (r: Vec<Tok>)
    ensures
        toks(r@) == arg_tokens(a@, params_view(params@)),
{
    let inner = match a {
        ArgDef::Positional { name, required, default, help } => positional_inner_tokens(
            name,
            *required,
            default,
            help,
            params,
        ),
        ArgDef::LogLevel => log_level_inner_tokens(),
        ArgDef::Flag { value_name, short, long, help } => flag_inner_tokens(
            value_name,
            *short,
            long,
            help,
            params,
        ),
    };
    call("arg", cat(clap_arg_new_tokens(), inner))
}

/// The code that adds arguments to a `clap::Command`, in order.
pub fn args_code(defs: &Vec<ArgDef>, params: &Vec<RunParam>) -> (r: Vec<Tok>)
    ensures
        toks(r@) == args_tokens(defs_view(defs@), params_view(params@)),
{
    let mut out: Vec<Tok> = Vec::new();
    let mut i: usize = 0;
    assert(defs_view(defs@).take(0) =~= Seq::<ArgDefV>::empty());
    assert(toks(out@) =~= Seq::<TokV>::empty());
    while i < defs.len()
        invariant
            i <= defs.len(),
            toks(out@) == args_tokens(defs_view(defs@).take(i as int), params_view(params@)),
        decreases defs.len() - i,
    {
        out = cat(out, arg_code(&defs[i], params));
        proof {
            let d = defs_view(defs@).take(i + 1);
            assert(d.drop_last() =~= defs_view(defs@).take(i as int));
            assert(d.last() == defs@[i as int]@);
        }
        i = i + 1;
    }
    assert(defs_view(defs@).take(defs.len() as int) =~= defs_view(defs@));
    out
}

} // verus!
