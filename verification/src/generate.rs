//! Walking a command directory: each command module becomes a subcommand, each
//! subdirectory a nested command, and the generated code builds the `clap::Command` and
//! dispatches on what the command line matched.

use vstd::prelude::*;
use vstd::string::StringExecFns;
use crate::args::MacroArgs;
use crate::codegen::{t_call, t_colon2, t_group, t_id, t_lit, t_p, t_paren, t_pp, t_str, call, cat,
    colon2, group, id, id_string, lit, nothing, p, paren, pp, str_tok};
use crate::commands::{LeafCommand, Modfile, command_new, command_new_code, parse_command_and_run_from_file, parse_modfile,
    spec_command_file, spec_modfile, pieces};
use crate::errors::{CommandError, ErrorV};
use crate::syntax::{Delim, Tok, TokV, toks};

verus! {

/// The last component of a directory's path.
pub enum DirName {
    Name(String),
    /// The path has no last component (such as `..`).
    Missing,
    /// The last component is not valid UTF-8.
    NotUtf8,
}

/// A command directory as read from the file system: its name, and its entries in the order
/// in which the directory listed them (or the system's message when it could not be listed).
pub struct CommandDir {
    pub name: DirName,
    pub listing: Result<Vec<DirEntry>, String>,
}

/// An entry of a command directory.
pub enum DirEntry {
    /// The entry could not be read (with the system's message).
    Unreadable(String),
    /// A file: whether its extension is `rs`, whether it is `mod.rs`, the stem of its name
    /// (when valid UTF-8), and its content (or the system's message when it could not be read).
    File { is_rs: bool, is_mod_rs: bool, stem: Option<String>, content: Result<String, String> },
    /// A subdirectory.
    Directory(CommandDir),
    /// Anything else.
    Other,
}

/// What the entries read so far have given: the name and description from `mod.rs`, the
/// subcommands, and the match arms as the name they dispatch on and the code they run.
#[verifier::ext_equal]
pub struct ScanV {
    pub info: Option<(Seq<char>, Seq<char>)>,
    pub subs: Seq<Seq<TokV>>,
    pub arms: Seq<(Seq<char>, Seq<TokV>)>,
}

/// The module path of the commands in a directory called `name` inside the module `basic`.
pub open spec fn now_ident(basic: Seq<char>, name: Seq<char>) -> Seq<char> {
    if basic.len() == 0 {
        name
    } else {
        basic + "::"@ + name
    }
}

/// What reading a directory gives: its `clap::Command`, the `match` that dispatches on the
/// matches called `matches`, and its command name; or the first error met.
pub open spec fn spec_dir(d: CommandDir, basic: Seq<char>, matches: Seq<TokV>) -> Result<
    (Seq<TokV>, Seq<TokV>, Seq<char>),
    ErrorV,
>
    decreases d, 1int,
{
    match d.name {
        DirName::Missing => Err(ErrorV::InvalidCommandDirectory),
        DirName::NotUtf8 => Err(ErrorV::InvalidCommandDirectoryName),
        DirName::Name(n) => {
            let now = now_ident(basic, n@);
            match d.listing {
                Err(m) => Err(ErrorV::ReadDirectory(m@)),
                Ok(entries) => dir_result(
                    scan(entries@, now, ScanV { info: None, subs: seq![], arms: seq![] }),
                    matches,
                ),
            }
        },
    }
}

/// What a directory gives once its entries have been read.
pub open spec fn dir_result(r: Result<ScanV, ErrorV>, matches: Seq<TokV>) -> Result<
    (Seq<TokV>, Seq<TokV>, Seq<char>),
    ErrorV,
> {
    match r {
        Err(e) => Err(e),
        Ok(st) => match st.info {
            None => Err(ErrorV::MissingModFile),
            Some((name, description)) => Ok(
                (dir_command(name, description, st.subs), dir_match(matches, st.arms), name),
            ),
        },
    }
}

/// Reads `entries` in order, from the state `st`.
pub open spec fn scan(entries: Seq<DirEntry>, now: Seq<char>, st: ScanV) -> Result<ScanV, ErrorV>
    decreases entries, 0int,
{
    if entries.len() == 0 {
        Ok(st)
    } else {
        let rest = entries.drop_first();
        match entries[0] {
            DirEntry::Unreadable(m) => Err(ErrorV::ReadEntry(m@)),
            DirEntry::File { is_rs, is_mod_rs, stem, content } => if is_rs && !is_mod_rs {
                match content {
                    Err(m) => Err(ErrorV::ReadFile(m@)),
                    Ok(text) => match stem {
                        None => Err(ErrorV::InvalidFileName),
                        Some(file_stem) => match spec_command_file(
                            text@,
                            now + "::"@ + file_stem@,
                        ) {
                            Err(e) => Err(e),
                            Ok(None) => scan(rest, now, st),
                            Ok(Some((command, name, call))) => scan(
                                rest,
                                now,
                                ScanV { subs: st.subs.push(command), arms: st.arms.push((name, call)), ..st },
                            ),
                        },
                    },
                }
            } else if is_mod_rs {
                match content {
                    Err(m) => Err(ErrorV::ReadModFile(m@)),
                    Ok(text) => match spec_modfile(text@) {
                        Err(e) => Err(e),
                        Ok(info) => scan(rest, now, ScanV { info: Some(info), ..st }),
                    },
                }
            } else {
                scan(rest, now, st)
            },
            DirEntry::Directory(child) => if child.name is NotUtf8 {
                Err(ErrorV::InvalidSubcommandDirectory)
            } else {
                match spec_dir(child, now, t_id("sub_m"@)) {
                    Err(e) => Err(e),
                    Ok((command, dispatch, name)) => scan(
                        rest,
                        now,
                        ScanV { subs: st.subs.push(command), arms: st.arms.push((name, dispatch)), ..st },
                    ),
                }
            },
            DirEntry::Other => scan(rest, now, st),
        }
    }
}

/// The concatenation of token sequences, in order.
pub open spec fn concat_all(items: Seq<Seq<TokV>>) -> Seq<TokV>
    decreases items.len(),
{
    if items.len() == 0 {
        seq![]
    } else {
        concat_all(items.drop_last()) + items.last()
    }
}

/// `.subcommand(...)` for each subcommand.
pub open spec fn subcommand_calls(subs: Seq<Seq<TokV>>) -> Seq<Seq<TokV>> {
    subs.map_values(|c: Seq<TokV>| t_call("subcommand"@, c))
}

/// The `clap::Command` of a directory.
pub open spec fn dir_command(name: Seq<char>, description: Seq<char>, subs: Seq<Seq<TokV>>) -> Seq<TokV> {
    command_new(name) + t_call("arg_required_else_help"@, t_id("true"@)) + t_call(
        "about"@,
        t_str(description),
    ) + concat_all(subcommand_calls(subs))
}

/// `Some((name, sub_m)) => { body },`.
pub open spec fn arm(name: Seq<char>, body: Seq<TokV>) -> Seq<TokV> {
    t_id("Some"@) + t_paren(t_paren(t_str(name) + t_p(',') + t_id("sub_m"@))) + t_pp('=', '>')
        + t_group(Delim::Brace, body) + t_p(',')
}

/// The arms for the subcommands.
pub open spec fn arms(a: Seq<(Seq<char>, Seq<TokV>)>) -> Seq<Seq<TokV>> {
    a.map_values(|x: (Seq<char>, Seq<TokV>)| arm(x.0, x.1))
}

/// `Some((_,_)) => {} None => { log::warn!("") }`.
pub open spec fn fallback_arms() -> Seq<TokV> {
    t_id("Some"@) + t_paren(t_paren(t_id("_"@) + t_p(',') + t_id("_"@))) + t_pp('=', '>') + t_group(
        Delim::Brace,
        seq![],
    ) + t_id("None"@) + t_pp('=', '>') + t_group(
        Delim::Brace,
        t_id("log"@) + t_colon2() + t_id("warn"@) + t_p('!') + t_paren(t_lit("\"\""@)),
    )
}

/// `match matches.subcommand() { arms... }`.
pub open spec fn dir_match(matches: Seq<TokV>, a: Seq<(Seq<char>, Seq<TokV>)>) -> Seq<TokV> {
    t_id("match"@) + matches + t_call("subcommand"@, seq![]) + t_group(
        Delim::Brace,
        concat_all(arms(a)) + fallback_arms(),
    )
}


/// What a directory gives: its `clap::Command`, the `match` that dispatches its subcommands,
/// and its command name.
pub struct GeneratedDir {
    pub generate_code: Vec<Tok>,
    pub match_code: Vec<Tok>,
    pub command_name: String,
}

/// The state of reading a directory seen as a mathematical value.
pub open spec fn state_view(
    info: Option<Modfile>,
    subs: Seq<Vec<Tok>>,
    arms: Seq<(String, Vec<Tok>)>,
) -> ScanV {
    ScanV {
        info: match info {
            Some(m) => Some((m.command_name@, m.description@)),
            None => None,
        },
        subs: pieces(subs),
        arms: arm_views(arms),
    }
}

/// Match arms seen as mathematical values.
pub open spec fn arm_views(arms: Seq<(String, Vec<Tok>)>) -> Seq<(Seq<char>, Seq<TokV>)> {
    arms.map_values(|a: (String, Vec<Tok>)| (a.0@, toks(a.1@)))
}

fn subcommands_code(subs: Vec<Vec<Tok>>) -> (r: Vec<Tok>)
    ensures
        toks(r@) == concat_all(subcommand_calls(pieces(subs@))),
{
    let ghost all = subcommand_calls(pieces(subs@));
    let mut rest = subs;
    let mut out = nothing();
    let mut k: usize = 0;
    let total = rest.len();
    assert(all.take(0) =~= Seq::<Seq<TokV>>::empty());
    while rest.len() > 0
        invariant
            k + rest.len() == total,
            total == all.len(),
            forall|j: int| 0 <= j < rest.len() ==> t_call("subcommand"@, toks(#[trigger] rest@[j]@)) == all[k + j],
            toks(out@) == concat_all(all.take(k as int)),
        decreases rest.len(),
    {
        let ghost before = rest@;
        let s = rest.remove(0);
        assert(t_call("subcommand"@, toks(s@)) == all[k as int]) by {
            assert(s == before[0]);
        }
        assert forall|j: int| 0 <= j < rest.len() implies t_call("subcommand"@, toks(#[trigger] rest@[j]@))
            == all[k + 1 + j] by {
            assert(rest@[j] == before[j + 1]);
        }
        out = cat(out, call("subcommand", s));
        assert(all.take(k + 1).drop_last() =~= all.take(k as int));
        k = k + 1;
    }
    assert(all.take(total as int) =~= all);
    out
}

fn arm_code(name: String, body: Vec<Tok>) -> (r: Vec<Tok>)
    ensures
        toks(r@) == arm(name@, toks(body@)),
{
    cat(
        cat(
            cat(
                cat(id("Some"), paren(paren(cat(cat(str_tok(name), p(',')), id("sub_m"))))),
                pp('=', '>'),
            ),
            group(Delim::Brace, body),
        ),
        p(','),
    )
}

fn arms_code(a: Vec<(String, Vec<Tok>)>) -> (r: Vec<Tok>)
    ensures
        toks(r@) == concat_all(arms(arm_views(a@))),
{
    let ghost all = arms(arm_views(a@));
    let mut rest = a;
    let mut out = nothing();
    let mut k: usize = 0;
    let total = rest.len();
    assert(all.take(0) =~= Seq::<Seq<TokV>>::empty());
    while rest.len() > 0
        invariant
            k + rest.len() == total,
            total == all.len(),
            forall|j: int| 0 <= j < rest.len() ==> arm((#[trigger] rest@[j]).0@, toks(rest@[j].1@)) == all[k + j],
            toks(out@) == concat_all(all.take(k as int)),
        decreases rest.len(),
    {
        let ghost before = rest@;
        let (name, body) = rest.remove(0);
        assert(arm(name@, toks(body@)) == all[k as int]) by {
            assert((name, body) == before[0]);
        }
        assert forall|j: int| 0 <= j < rest.len() implies arm((#[trigger] rest@[j]).0@, toks(rest@[j].1@))
            == all[k + 1 + j] by {
            assert(rest@[j] == before[j + 1]);
        }
        out = cat(out, arm_code(name, body));
        assert(all.take(k + 1).drop_last() =~= all.take(k as int));
        k = k + 1;
    }
    assert(all.take(total as int) =~= all);
    out
}

fn fallback_code() -> (r: Vec<Tok>)
    ensures
        toks(r@) == fallback_arms(),
{
    cat(
        cat(
            cat(
                cat(
                    cat(
                        cat(id("Some"), paren(paren(cat(cat(id("_"), p(',')), id("_"))))),
                        pp('=', '>'),
                    ),
                    group(Delim::Brace, nothing()),
                ),
                id("None"),
            ),
            pp('=', '>'),
        ),
        group(
            Delim::Brace,
            cat(cat(cat(cat(id("log"), colon2()), id("warn")), p('!')), paren(lit("\"\""))),
        ),
    )
}

fn dir_command_code(name: String, description: String, subs: Vec<Vec<Tok>>) -> (r: Vec<Tok>)
    ensures
        toks(r@) == dir_command(name@, description@, pieces(subs@)),
{
    cat(
        cat(
            cat(command_new_code(name), call("arg_required_else_help", id("true"))),
            call("about", str_tok(description)),
        ),
        subcommands_code(subs),
    )
}

fn dir_match_code(matches: Vec<Tok>, a: Vec<(String, Vec<Tok>)>) -> (r: Vec<Tok>)
    ensures
        toks(r@) == dir_match(toks(matches@), arm_views(a@)),
{
    cat(
        cat(cat(id("match"), matches), call("subcommand", nothing())),
        group(Delim::Brace, cat(arms_code(a), fallback_code())),
    )
}

/// Reads a command directory: `ident_basic` is the module path of its parent (empty for the
/// root) and `matches_ident` the variable that holds the matches it dispatches on.
pub fn generate_from_dir(dir: &CommandDir, ident_basic: &String, matches_ident: Vec<Tok>) -> (r: Result<
    GeneratedDir,
    CommandError,
>)
    ensures
        match r {
            Ok(g) => spec_dir(*dir, ident_basic@, toks(matches_ident@)) == Ok::<
                (Seq<TokV>, Seq<TokV>, Seq<char>),
                ErrorV,
            >((toks(g.generate_code@), toks(g.match_code@), g.command_name@)),
            Err(e) => spec_dir(*dir, ident_basic@, toks(matches_ident@)) == Err::<
                (Seq<TokV>, Seq<TokV>, Seq<char>),
                ErrorV,
            >(e@),
        },
    decreases dir,
{
    let name = match &dir.name {
        DirName::Missing => {
            return Err(CommandError::InvalidCommandDirectory);
        },
        DirName::NotUtf8 => {
            return Err(CommandError::InvalidCommandDirectoryName);
        },
        DirName::Name(n) => n,
    };
    let now = if ident_basic.as_str().is_empty() {
        name.clone()
    } else {
        ident_basic.clone().concat("::").concat(name.as_str())
    };
    let entries = match &dir.listing {
        Err(m) => {
            return Err(CommandError::ReadDirectory(m.clone()));
        },
        Ok(v) => v,
    };
    let mut info: Option<Modfile> = None;
    let mut subs: Vec<Vec<Tok>> = Vec::new();
    let mut arm_list: Vec<(String, Vec<Tok>)> = Vec::new();
    let ghost start = ScanV { info: None, subs: seq![], arms: seq![] };
    assert(now@ == now_ident(ident_basic@, name@));
    assert(state_view(info, subs@, arm_list@) =~= start);
    assert(entries@.skip(0) =~= entries@);
    let mut i: usize = 0;
    while i < entries.len()
        invariant
            i <= entries.len(),
            dir.listing == Ok::<Vec<DirEntry>, String>(*entries),
            spec_dir(*dir, ident_basic@, toks(matches_ident@)) == dir_result(
                scan(entries@, now@, start),
                toks(matches_ident@),
            ),
            scan(entries@, now@, start) == scan(
                entries@.skip(i as int),
                now@,
                state_view(info, subs@, arm_list@),
            ),
        decreases entries.len() - i,
    {
        let ghost rest = entries@.skip(i as int);
        let ghost st = state_view(info, subs@, arm_list@);
        assert(rest.drop_first() =~= entries@.skip(i + 1));
        assert(rest[0] == entries@[i as int]);
        match &entries[i] {
            DirEntry::Unreadable(m) => {
                return Err(CommandError::ReadEntry(m.clone()));
            },
            DirEntry::File { is_rs, is_mod_rs, stem, content } => {
                if *is_rs && !*is_mod_rs {
                    let text = match content {
                        Err(m) => {
                            return Err(CommandError::ReadFile(m.clone()));
                        },
                        Ok(t) => t,
                    };
                    let file_stem = match stem {
                        None => {
                            return Err(CommandError::InvalidFileName);
                        },
                        Some(s) => s,
                    };
                    let path = now.clone().concat("::").concat(file_stem.as_str());
                    match parse_command_and_run_from_file(text.as_str(), &path) {
                        Err(e) => {
                            return Err(e);
                        },
                        Ok(None) => {},
                        Ok(Some(LeafCommand { command, name, call })) => {
                            subs.push(command);
                            arm_list.push((name, call));
                            assert(state_view(info, subs@, arm_list@) =~= ScanV {
                                subs: st.subs.push(toks(subs@.last()@)),
                                arms: st.arms.push((arm_list@.last().0@, toks(arm_list@.last().1@))),
                                ..st
                            });
                        },
                    }
                } else if *is_mod_rs {
                    let text = match content {
                        Err(m) => {
                            return Err(CommandError::ReadModFile(m.clone()));
                        },
                        Ok(t) => t,
                    };
                    match parse_modfile(text.as_str()) {
                        Err(e) => {
                            return Err(e);
                        },
                        Ok(m) => {
                            info = Some(m);
                        },
                    }
                }
            },
            DirEntry::Directory(child) => {
                if matches!(child.name, DirName::NotUtf8) {
                    return Err(CommandError::InvalidSubcommandDirectory);
                }
                match generate_from_dir(child, &now, id("sub_m")) {
                    Err(e) => {
                        return Err(e);
                    },
                    Ok(GeneratedDir { generate_code, match_code, command_name }) => {
                        subs.push(generate_code);
                        arm_list.push((command_name, match_code));
                        assert(state_view(info, subs@, arm_list@) =~= ScanV {
                            subs: st.subs.push(toks(subs@.last()@)),
                            arms: st.arms.push((arm_list@.last().0@, toks(arm_list@.last().1@))),
                            ..st
                        });
                    },
                }
            },
            DirEntry::Other => {},
        }
        i = i + 1;
    }
    assert(entries@.skip(i as int) =~= Seq::<DirEntry>::empty());
    match info {
        None => Err(CommandError::MissingModFile),
        Some(Modfile { command_name, description }) => {
            let generate_code = dir_command_code(command_name.clone(), description, subs);
            let match_code = dir_match_code(matches_ident, arm_list);
            Ok(GeneratedDir { generate_code, match_code, command_name })
        },
    }
}


/// The code that the macro expands to: `build_cli`, which builds the `clap::Command`, and the
/// function called `exec`, which matches the command line and runs the chosen command.
pub open spec fn expansion(build: Seq<TokV>, dispatch: Seq<TokV>, exec: Seq<char>) -> Seq<TokV> {
    t_id("pub"@) + t_id("fn"@) + t_id("build_cli"@) + t_paren(seq![]) + t_pp('-', '>') + t_id(
        "clap"@,
    ) + t_colon2() + t_id("Command"@) + t_group(Delim::Brace, build) + t_id("pub"@) + t_id("fn"@)
        + t_id(exec) + t_paren(seq![]) + t_group(
        Delim::Brace,
        t_id("let"@) + t_id("matches"@) + t_p('=') + t_id("build_cli"@) + t_paren(seq![]) + t_call(
            "get_matches"@,
            seq![],
        ) + t_p(';') + dispatch,
    )
}

/// What the macro makes of the command directory `root` and the name `exec` of the function
/// that runs the commands.
pub open spec fn spec_generate(exec: Seq<char>, root: CommandDir) -> Result<Seq<TokV>, ErrorV> {
    match spec_dir(root, seq![], t_id("matches"@)) {
        Ok((build, dispatch, _)) => Ok(expansion(build, dispatch, exec)),
        Err(e) => Err(e),
    }
}

/// The code that the macro expands to, for the arguments `args` and the command directory
/// `root` that `args.src` names.
pub fn generate_commands(args: &MacroArgs, root: &CommandDir) -> (r: Result<Vec<Tok>, CommandError>)
    ensures
        match r {
            Ok(v) => spec_generate(args.exec_func@, *root) == Ok::<Seq<TokV>, ErrorV>(toks(v@)),
            Err(e) => spec_generate(args.exec_func@, *root) == Err::<Seq<TokV>, ErrorV>(e@),
        },
{
    let basic = String::new();
    assert(basic@ =~= Seq::<char>::empty());
    let generated = match generate_from_dir(root, &basic, id("matches")) {
        Ok(g) => g,
        Err(e) => {
            return Err(e);
        },
    };
    let GeneratedDir { generate_code, match_code, .. } = generated;
    let build_fn = cat(
        cat(
            cat(
                cat(
                    cat(cat(cat(cat(id("pub"), id("fn")), id("build_cli")), paren(nothing())), pp('-', '>')),
                    id("clap"),
                ),
                colon2(),
            ),
            id("Command"),
        ),
        group(Delim::Brace, generate_code),
    );
    let body = cat(
        cat(
            cat(
                cat(cat(cat(cat(id("let"), id("matches")), p('=')), id("build_cli")), paren(nothing())),
                call("get_matches", nothing()),
            ),
            p(';'),
        ),
        match_code,
    );
    let r = cat(
        cat(
            cat(cat(cat(build_fn, id("pub")), id("fn")), id_string(args.exec_func.clone())),
            paren(nothing()),
        ),
        group(Delim::Brace, body),
    );
    Ok(r)
}

/// The `#[run]` attribute marks the function that runs a command; it leaves the item as it is.
pub fn run(attr: Vec<Tok>, item: Vec<Tok>) -> (r: Vec<Tok>)
    ensures
        toks(r@) == toks(item@),
{
    item
}

} // verus!
