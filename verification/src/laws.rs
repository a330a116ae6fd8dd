//! Properties of the library as a whole.

use vstd::prelude::*;
use crate::args::{is_punct, read_args, macro_args, string_at, is_invisible, visible};
use crate::errors::ErrorV;
use crate::syntax::{string_literal_value, syn_reserved, valid_ident};
use crate::commands::{command_new, spec_command_file, spec_modfile};
use crate::codegen::t_id;
use crate::generate::{CommandDir, DirEntry, DirName, ScanV, dir_command, dir_match, expansion, now_ident, scan,
    spec_dir, spec_generate};
use crate::header::{ArgDefV, positional_arg};
use crate::syntax::TokV;
use crate::text::{first_with_prefix, lines, replace, starts_with};

verus! {

/// `s` begins with the tokens `p`.
pub open spec fn begins_with(s: Seq<TokV>, p: Seq<TokV>) -> bool {
    p.len() <= s.len() && s.subrange(0, p.len() as int) == p
}

/// Each subcommand is registered under the name that its match arm dispatches on, in the same
/// order.
pub open spec fn registers(subs: Seq<Seq<TokV>>, arms: Seq<(Seq<char>, Seq<TokV>)>) -> bool {
    &&& subs.len() == arms.len()
    &&& forall|k: int| 0 <= k < subs.len() ==> begins_with(#[trigger] subs[k], command_new(arms[k].0))
}

/// The `clap::Command` of a command module is made under the module's command name.
proof fn lemma_file_command_name(content: Seq<char>, path: Seq<char>)
    ensures
        spec_command_file(content, path) matches Ok(Some((command, name, _))) ==> begins_with(
            command,
            command_new(name),
        ),
{
    if let Ok(Some((command, name, _))) = spec_command_file(content, path) {
        assert(command.subrange(0, command_new(name).len() as int) =~= command_new(name));
    }
}

/// The `clap::Command` of a directory is made under the directory's command name.
proof fn lemma_dir_command_name(d: CommandDir, basic: Seq<char>, matches: Seq<TokV>)
    ensures
        spec_dir(d, basic, matches) matches Ok((command, _, name)) ==> begins_with(
            command,
            command_new(name),
        ),
{
    if let Ok((command, _, name)) = spec_dir(d, basic, matches) {
        assert(command.subrange(0, command_new(name).len() as int) =~= command_new(name));
    }
}

proof fn lemma_scan_registers(entries: Seq<crate::generate::DirEntry>, now: Seq<char>, st: ScanV)
    requires
        registers(st.subs, st.arms),
    ensures
        scan(entries, now, st) matches Ok(end) ==> registers(end.subs, end.arms),
    decreases entries.len(),
{
    if entries.len() > 0 {
        let rest = entries.drop_first();
        match entries[0] {
            crate::generate::DirEntry::File { is_rs, is_mod_rs, stem, content } => {
                if is_rs && !is_mod_rs {
                    if let (Ok(text), Some(file_stem)) = (content, stem) {
                        let path = now + "::"@ + file_stem@;
                        lemma_file_command_name(text@, path);
                        match spec_command_file(text@, path) {
                            Ok(Some((command, name, call))) => {
                                let next = ScanV {
                                    subs: st.subs.push(command),
                                    arms: st.arms.push((name, call)),
                                    ..st
                                };
                                assert(registers(next.subs, next.arms)) by {
                                    assert forall|k: int| 0 <= k < next.subs.len() implies begins_with(
                                        #[trigger] next.subs[k],
                                        command_new(next.arms[k].0),
                                    ) by {
                                        if k < st.subs.len() {
                                            assert(next.subs[k] == st.subs[k]);
                                            assert(next.arms[k] == st.arms[k]);
                                        }
                                    }
                                }
                                lemma_scan_registers(rest, now, next);
                            },
                            Ok(None) => {
                                lemma_scan_registers(rest, now, st);
                            },
                            Err(_) => {},
                        }
                    }
                } else if is_mod_rs {
                    if let Ok(text) = content {
                        if let Ok(info) = crate::commands::spec_modfile(text@) {
                            lemma_scan_registers(rest, now, ScanV { info: Some(info), ..st });
                        }
                    }
                } else {
                    lemma_scan_registers(rest, now, st);
                }
            },
            crate::generate::DirEntry::Directory(child) => {
                if !(child.name is NotUtf8) {
                    lemma_dir_command_name(child, now, seq![TokV::Ident("sub_m"@)]);
                    if let Ok((command, dispatch, name)) = spec_dir(child, now, seq![TokV::Ident("sub_m"@)]) {
                        let next = ScanV {
                            subs: st.subs.push(command),
                            arms: st.arms.push((name, dispatch)),
                            ..st
                        };
                        assert(registers(next.subs, next.arms)) by {
                            assert forall|k: int| 0 <= k < next.subs.len() implies begins_with(
                                #[trigger] next.subs[k],
                                command_new(next.arms[k].0),
                            ) by {
                                if k < st.subs.len() {
                                    assert(next.subs[k] == st.subs[k]);
                                    assert(next.arms[k] == st.arms[k]);
                                }
                            }
                        }
                        lemma_scan_registers(rest, now, next);
                    }
                }
            },
            crate::generate::DirEntry::Other => {
                lemma_scan_registers(rest, now, st);
            },
            crate::generate::DirEntry::Unreadable(_) => {},
        }
    }
}

/// Every subcommand that the generated `build_cli` registers is dispatched by the generated
/// `match`, under the same name and in the same order: when a directory yields code, that
/// code is its command over some subcommands and its `match` over arms that correspond to
/// them one for one.
pub proof fn law_every_subcommand_is_dispatched(
    d: CommandDir,
    basic: Seq<char>,
    matches: Seq<TokV>,
)
    ensures
        spec_dir(d, basic, matches) matches Ok((command, dispatch, name)) ==> exists|st: ScanV|
            {
                &&& registers(st.subs, st.arms)
                &&& st.info matches Some((n, description))
                &&& n == name
                &&& command == dir_command(name, description, st.subs)
                &&& dispatch == dir_match(matches, st.arms)
            },
{
    if let Ok((command, dispatch, name)) = spec_dir(d, basic, matches) {
        if let (DirName::Name(n), Ok(entries)) = (d.name, d.listing) {
            let start = ScanV { info: None, subs: seq![], arms: seq![] };
            lemma_scan_registers(entries@, now_ident(basic, n@), start);
            let st = scan(entries@, now_ident(basic, n@), start)->Ok_0;
            assert(registers(st.subs, st.arms));
        }
    }
}

/// The code that the macro generates registers each subcommand of the command directory in
/// `build_cli` under the name on which the function `exec` dispatches it.
pub proof fn law_generated_cli_dispatches_every_subcommand(exec: Seq<char>, root: CommandDir)
    ensures
        spec_generate(exec, root) matches Ok(code) ==> exists|st: ScanV|
            {
                &&& registers(st.subs, st.arms)
                &&& st.info matches Some((name, description))
                &&& code == expansion(
                    dir_command(name, description, st.subs),
                    dir_match(seq![TokV::Ident("matches"@)], st.arms),
                    exec,
                )
            },
{
    law_every_subcommand_is_dispatched(root, seq![], seq![TokV::Ident("matches"@)]);
    if let Ok((command, dispatch, name)) = spec_dir(root, seq![], seq![TokV::Ident("matches"@)]) {
        let st = choose|st: ScanV|
            {
                &&& registers(st.subs, st.arms)
                &&& st.info matches Some((n, description))
                &&& n == name
                &&& command == dir_command(name, description, st.subs)
                &&& dispatch == dir_match(seq![TokV::Ident("matches"@)], st.arms)
            };
        assert(seq![TokV::Ident("matches"@)] == crate::codegen::t_id("matches"@));
    }
}

/// A command module that lacks the `//! router:` or the `//! description:` line is not a
/// command: it gives nothing, whatever else it holds.
pub proof fn law_no_router_no_command(content: Seq<char>, path: Seq<char>)
    requires
        first_with_prefix(lines(content), "//! router:"@) is None || first_with_prefix(
            lines(content),
            "//! description:"@,
        ) is None,
    ensures
        spec_command_file(content, path) == Ok::<Option<(Seq<TokV>, Seq<char>, Seq<TokV>)>, crate::errors::ErrorV>(None),
{
}

/// A positional argument is required exactly when it is written in angle brackets.
pub proof fn law_angle_brackets_mean_required(word: Seq<char>)
    ensures
        positional_arg(word) matches Some(ArgDefV::Positional { required, .. }) ==> (required
            <==> starts_with(word, seq!['<'])),
{
    if starts_with(word, seq!['<']) && starts_with(word, seq!['[']) {
        assert(word.subrange(0, 1)[0] == '<');
        assert(word.subrange(0, 1)[0] == '[');
    }
}

/// A key that no argument names keeps the value it had: reading the arguments from position
/// `i` changes the value of `src` only where some identifier `src` stands.
pub proof fn law_unnamed_key_keeps_its_value(
    t: Seq<TokV>,
    i: int,
    src: Option<Seq<char>>,
    exec: Option<Seq<char>>,
)
    requires
        forall|j: int| i <= j < t.len() ==> t[j] != TokV::Ident("src"@),
    ensures
        read_args(t, i, src, exec) matches Ok((s, _)) ==> s == src,
    decreases t.len() - i,
{
    if 0 <= i < t.len() && t[i] is Ident {
        let k = t[i]->Ident_0;
        let next = if i + 3 < t.len() && is_punct(t[i + 3], ',') {
            i + 4
        } else {
            i + 3
        };
        assert(k != "src"@);
        if next <= t.len() {
            law_unnamed_key_keeps_its_value(t, next, src, if k == "exec_func"@ {
                crate::args::string_at(t, i + 2)
            } else {
                exec
            });
        }
    }
}

/// Arguments compose: reading arguments `a` followed by `b` is reading `b` from the values
/// that `a` gave, unless `a` ends without its comma and `b` begins with one (that comma would
/// close the last argument of `a`). So a key given again later takes its later value.
pub proof fn law_arguments_compose(
    a: Seq<TokV>,
    b: Seq<TokV>,
    i: int,
    src: Option<Seq<char>>,
    exec: Option<Seq<char>>,
)
    requires
        0 <= i <= a.len(),
        a.len() == 0 || is_punct(a.last(), ',') || !(b.len() > 0 && is_punct(b[0], ',')),
        read_args(a, i, src, exec) is Ok,
    ensures
        read_args(a + b, i, src, exec) == read_args(
            b,
            0,
            read_args(a, i, src, exec)->Ok_0.0,
            read_args(a, i, src, exec)->Ok_0.1,
        ),
    decreases a.len() - i,
{
    let ab = a + b;
    if i == a.len() {
        assert(ab.skip(i) =~= b);
        lemma_read_args_shift(a, b, 0, src, exec);
    } else {
        assert(ab[i] == a[i]);
        assert(ab[i + 1] == a[i + 1]);
        assert(ab[i + 2] == a[i + 2]);
        assert(crate::args::string_at(a, i + 2) is Some);
        if i + 3 < a.len() {
            assert(ab[i + 3] == a[i + 3]);
        } else {
            // The literal at `i + 2` ends `a`, so `b` does not begin with a comma.
            assert(a[i + 2] is Literal);
            assert(a.last() == a[i + 2]);
            if b.len() > 0 {
                assert(ab[i + 3] == b[0]);
            }
        }
        let k = a[i]->Ident_0;
        let v = crate::args::string_at(a, i + 2)->Some_0;
        assert(crate::args::string_at(ab, i + 2) == crate::args::string_at(a, i + 2));
        let next = if i + 3 < a.len() && is_punct(a[i + 3], ',') {
            i + 4
        } else {
            i + 3
        };
        law_arguments_compose(
            a,
            b,
            next,
            if k == "src"@ { Some(v) } else { src },
            if k == "exec_func"@ { Some(v) } else { exec },
        );
    }
}

/// Reading `a + b` from the end of `a` is reading `b` from its start.
proof fn lemma_read_args_shift(
    a: Seq<TokV>,
    b: Seq<TokV>,
    j: int,
    src: Option<Seq<char>>,
    exec: Option<Seq<char>>,
)
    requires
        0 <= j,
    ensures
        read_args(a + b, a.len() + j, src, exec) == read_args(b, j, src, exec),
    decreases b.len() - j,
{
    let ab = a + b;
    let i = a.len() + j;
    if j < b.len() {
        assert(ab[i] == b[j]);
        if j + 1 < b.len() {
            assert(ab[i + 1] == b[j + 1]);
        }
        if j + 2 < b.len() {
            assert(ab[i + 2] == b[j + 2]);
        }
        if j + 3 < b.len() {
            assert(ab[i + 3] == b[j + 3]);
        }
        assert(crate::args::string_at(ab, i + 2) == crate::args::string_at(b, j + 2));
        if b[j] is Ident {
            let k = b[j]->Ident_0;
            let v = crate::args::string_at(b, j + 2);
            if v is Some {
                let next = if j + 3 < b.len() && is_punct(b[j + 3], ',') {
                    j + 4
                } else {
                    j + 3
                };
                lemma_read_args_shift(
                    a,
                    b,
                    next,
                    if k == "src"@ { v } else { src },
                    if k == "exec_func"@ { v } else { exec },
                );
            }
        }
    }
}

/// Replacing `\,` by `PLACEHOLDER` adds no text that begins with a word free of `P`: if the
/// result begins with such a word, so does the text.
proof fn lemma_placeholder_keeps_prefix(t: Seq<char>, w: Seq<char>)
    requires
        forall|j: int| 0 <= j < w.len() ==> w[j] != 'P',
        starts_with(replace(t, "\\,"@, "PLACEHOLDER"@), w),
    ensures
        starts_with(t, w),
    decreases t.len(),
{
    reveal_strlit("\\,");
    reveal_strlit("PLACEHOLDER");
    let e = "\\,"@;
    let p = "PLACEHOLDER"@;
    if w.len() > 0 {
        let x = replace(t, e, p);
        assert(x.subrange(0, w.len() as int)[0] == w[0]);
        if starts_with(t, e) {
            assert(x[0] == p[0]);
        } else {
            let rest = replace(t.drop_first(), e, p);
            assert(x =~= seq![t[0]] + rest);
            let v = w.drop_first();
            assert(rest.subrange(0, v.len() as int) =~= x.subrange(0, w.len() as int).drop_first());
            lemma_placeholder_keeps_prefix(t.drop_first(), v);
            assert(x[0] == t[0]);
            assert(w =~= seq![w[0]] + v);
            assert(t.subrange(0, w.len() as int) =~= seq![t[0]] + t.drop_first().subrange(
                0,
                v.len() as int,
            ));
        }
    } else {
        assert(t.subrange(0, 0) =~= w);
    }
}

/// `\,` reads as a comma in the help of an option: replacing it by the placeholder and then
/// the placeholder by a comma is replacing it by a comma, for a text in which the word
/// `PLACEHOLDER` does not occur.
#[verifier::spinoff_prover]
#[verifier::rlimit(30)]
pub proof fn law_escaped_comma_reads_as_comma(s: Seq<char>)
    requires
        forall|j: int| 0 <= j <= s.len() ==> !starts_with(#[trigger] s.skip(j), "PLACEHOLDER"@),
    ensures
        replace(replace(s, "\\,"@, "PLACEHOLDER"@), "PLACEHOLDER"@, ","@) == replace(s, "\\,"@, ","@),
    decreases s.len(),
{
    reveal_strlit("\\,");
    reveal_strlit("PLACEHOLDER");
    reveal_strlit(",");
    let e = "\\,"@;
    let p = "PLACEHOLDER"@;
    let c = ","@;
    if s.len() > 0 {
        if starts_with(s, e) {
            let rest = s.skip(2);
            assert forall|j: int| 0 <= j <= rest.len() implies !starts_with(#[trigger] rest.skip(j), p) by {
                assert(rest.skip(j) =~= s.skip(j + 2));
            }
            law_escaped_comma_reads_as_comma(rest);
            let x = replace(rest, e, p);
            assert((p + x).subrange(0, p.len() as int) =~= p);
            assert((p + x).skip(p.len() as int) =~= x);
        } else {
            let rest = s.drop_first();
            assert forall|j: int| 0 <= j <= rest.len() implies !starts_with(#[trigger] rest.skip(j), p) by {
                assert(rest.skip(j) =~= s.skip(j + 1));
            }
            law_escaped_comma_reads_as_comma(rest);
            let x = replace(rest, e, p);
            let y = seq![s[0]] + x;
            assert(y[0] == s[0]);
            if starts_with(y, p) {
                let w = p.drop_first();
                assert(x.subrange(0, w.len() as int) =~= y.subrange(0, p.len() as int).drop_first());
                lemma_placeholder_keeps_prefix(rest, w);
                assert(y.subrange(0, p.len() as int)[0] == p[0]);
                assert(p =~= seq![p[0]] + w);
                assert(s.subrange(0, p.len() as int) =~= seq![s[0]] + rest.subrange(0, w.len() as int));
                assert(s.skip(0) =~= s);
            }
            assert(y.drop_first() =~= x);
        }
    }
}


proof fn lemma_ne_len(a: Seq<char>, b: Seq<char>)
    requires
        a.len() != b.len(),
    ensures
        a != b,
{
}

proof fn lemma_ne_at(a: Seq<char>, b: Seq<char>, i: int)
    requires
        0 <= i < a.len(),
        i < b.len(),
        a[i] != b[i],
    ensures
        a != b,
{
}

/// `src` is a key that syn takes as an identifier.
proof fn lemma_src_not_reserved()
    ensures
        !syn_reserved("src"@),
{
    reveal_strlit("src");
    reveal_strlit("_");
    lemma_ne_len("src"@, "_"@);
    reveal_strlit("abstract");
    lemma_ne_len("src"@, "abstract"@);
    reveal_strlit("as");
    lemma_ne_len("src"@, "as"@);
    reveal_strlit("async");
    lemma_ne_len("src"@, "async"@);
    reveal_strlit("await");
    lemma_ne_len("src"@, "await"@);
    reveal_strlit("become");
    lemma_ne_len("src"@, "become"@);
    reveal_strlit("box");
    lemma_ne_at("src"@, "box"@, 0);
    reveal_strlit("break");
    lemma_ne_len("src"@, "break"@);
    reveal_strlit("const");
    lemma_ne_len("src"@, "const"@);
    reveal_strlit("continue");
    lemma_ne_len("src"@, "continue"@);
    reveal_strlit("crate");
    lemma_ne_len("src"@, "crate"@);
    reveal_strlit("do");
    lemma_ne_len("src"@, "do"@);
    reveal_strlit("dyn");
    lemma_ne_at("src"@, "dyn"@, 0);
    reveal_strlit("else");
    lemma_ne_len("src"@, "else"@);
    reveal_strlit("enum");
    lemma_ne_len("src"@, "enum"@);
    reveal_strlit("extern");
    lemma_ne_len("src"@, "extern"@);
    reveal_strlit("false");
    lemma_ne_len("src"@, "false"@);
    reveal_strlit("final");
    lemma_ne_len("src"@, "final"@);
    reveal_strlit("fn");
    lemma_ne_len("src"@, "fn"@);
    reveal_strlit("for");
    lemma_ne_at("src"@, "for"@, 0);
    reveal_strlit("if");
    lemma_ne_len("src"@, "if"@);
    reveal_strlit("impl");
    lemma_ne_len("src"@, "impl"@);
    reveal_strlit("in");
    lemma_ne_len("src"@, "in"@);
    reveal_strlit("let");
    lemma_ne_at("src"@, "let"@, 0);
    reveal_strlit("loop");
    lemma_ne_len("src"@, "loop"@);
    reveal_strlit("macro");
    lemma_ne_len("src"@, "macro"@);
    reveal_strlit("match");
    lemma_ne_len("src"@, "match"@);
    reveal_strlit("mod");
    lemma_ne_at("src"@, "mod"@, 0);
    reveal_strlit("move");
    lemma_ne_len("src"@, "move"@);
    reveal_strlit("mut");
    lemma_ne_at("src"@, "mut"@, 0);
    reveal_strlit("override");
    lemma_ne_len("src"@, "override"@);
    reveal_strlit("priv");
    lemma_ne_len("src"@, "priv"@);
    reveal_strlit("pub");
    lemma_ne_at("src"@, "pub"@, 0);
    reveal_strlit("ref");
    lemma_ne_at("src"@, "ref"@, 0);
    reveal_strlit("return");
    lemma_ne_len("src"@, "return"@);
    reveal_strlit("Self");
    lemma_ne_len("src"@, "Self"@);
    reveal_strlit("self");
    lemma_ne_len("src"@, "self"@);
    reveal_strlit("static");
    lemma_ne_len("src"@, "static"@);
    reveal_strlit("struct");
    lemma_ne_len("src"@, "struct"@);
    reveal_strlit("super");
    lemma_ne_len("src"@, "super"@);
    reveal_strlit("trait");
    lemma_ne_len("src"@, "trait"@);
    reveal_strlit("true");
    lemma_ne_len("src"@, "true"@);
    reveal_strlit("try");
    lemma_ne_at("src"@, "try"@, 0);
    reveal_strlit("type");
    lemma_ne_len("src"@, "type"@);
    reveal_strlit("typeof");
    lemma_ne_len("src"@, "typeof"@);
    reveal_strlit("unsafe");
    lemma_ne_len("src"@, "unsafe"@);
    reveal_strlit("unsized");
    lemma_ne_len("src"@, "unsized"@);
    reveal_strlit("use");
    lemma_ne_at("src"@, "use"@, 0);
    reveal_strlit("virtual");
    lemma_ne_len("src"@, "virtual"@);
    reveal_strlit("where");
    lemma_ne_len("src"@, "where"@);
    reveal_strlit("while");
    lemma_ne_len("src"@, "while"@);
    reveal_strlit("yield");
    lemma_ne_len("src"@, "yield"@);
}

/// `exec_func` is a key that syn takes as an identifier.
proof fn lemma_exec_func_not_reserved()
    ensures
        !syn_reserved("exec_func"@),
{
    reveal_strlit("exec_func");
    reveal_strlit("_");
    lemma_ne_len("exec_func"@, "_"@);
    reveal_strlit("abstract");
    lemma_ne_len("exec_func"@, "abstract"@);
    reveal_strlit("as");
    lemma_ne_len("exec_func"@, "as"@);
    reveal_strlit("async");
    lemma_ne_len("exec_func"@, "async"@);
    reveal_strlit("await");
    lemma_ne_len("exec_func"@, "await"@);
    reveal_strlit("become");
    lemma_ne_len("exec_func"@, "become"@);
    reveal_strlit("box");
    lemma_ne_len("exec_func"@, "box"@);
    reveal_strlit("break");
    lemma_ne_len("exec_func"@, "break"@);
    reveal_strlit("const");
    lemma_ne_len("exec_func"@, "const"@);
    reveal_strlit("continue");
    lemma_ne_len("exec_func"@, "continue"@);
    reveal_strlit("crate");
    lemma_ne_len("exec_func"@, "crate"@);
    reveal_strlit("do");
    lemma_ne_len("exec_func"@, "do"@);
    reveal_strlit("dyn");
    lemma_ne_len("exec_func"@, "dyn"@);
    reveal_strlit("else");
    lemma_ne_len("exec_func"@, "else"@);
    reveal_strlit("enum");
    lemma_ne_len("exec_func"@, "enum"@);
    reveal_strlit("extern");
    lemma_ne_len("exec_func"@, "extern"@);
    reveal_strlit("false");
    lemma_ne_len("exec_func"@, "false"@);
    reveal_strlit("final");
    lemma_ne_len("exec_func"@, "final"@);
    reveal_strlit("fn");
    lemma_ne_len("exec_func"@, "fn"@);
    reveal_strlit("for");
    lemma_ne_len("exec_func"@, "for"@);
    reveal_strlit("if");
    lemma_ne_len("exec_func"@, "if"@);
    reveal_strlit("impl");
    lemma_ne_len("exec_func"@, "impl"@);
    reveal_strlit("in");
    lemma_ne_len("exec_func"@, "in"@);
    reveal_strlit("let");
    lemma_ne_len("exec_func"@, "let"@);
    reveal_strlit("loop");
    lemma_ne_len("exec_func"@, "loop"@);
    reveal_strlit("macro");
    lemma_ne_len("exec_func"@, "macro"@);
    reveal_strlit("match");
    lemma_ne_len("exec_func"@, "match"@);
    reveal_strlit("mod");
    lemma_ne_len("exec_func"@, "mod"@);
    reveal_strlit("move");
    lemma_ne_len("exec_func"@, "move"@);
    reveal_strlit("mut");
    lemma_ne_len("exec_func"@, "mut"@);
    reveal_strlit("override");
    lemma_ne_len("exec_func"@, "override"@);
    reveal_strlit("priv");
    lemma_ne_len("exec_func"@, "priv"@);
    reveal_strlit("pub");
    lemma_ne_len("exec_func"@, "pub"@);
    reveal_strlit("ref");
    lemma_ne_len("exec_func"@, "ref"@);
    reveal_strlit("return");
    lemma_ne_len("exec_func"@, "return"@);
    reveal_strlit("Self");
    lemma_ne_len("exec_func"@, "Self"@);
    reveal_strlit("self");
    lemma_ne_len("exec_func"@, "self"@);
    reveal_strlit("static");
    lemma_ne_len("exec_func"@, "static"@);
    reveal_strlit("struct");
    lemma_ne_len("exec_func"@, "struct"@);
    reveal_strlit("super");
    lemma_ne_len("exec_func"@, "super"@);
    reveal_strlit("trait");
    lemma_ne_len("exec_func"@, "trait"@);
    reveal_strlit("true");
    lemma_ne_len("exec_func"@, "true"@);
    reveal_strlit("try");
    lemma_ne_len("exec_func"@, "try"@);
    reveal_strlit("type");
    lemma_ne_len("exec_func"@, "type"@);
    reveal_strlit("typeof");
    lemma_ne_len("exec_func"@, "typeof"@);
    reveal_strlit("unsafe");
    lemma_ne_len("exec_func"@, "unsafe"@);
    reveal_strlit("unsized");
    lemma_ne_len("exec_func"@, "unsized"@);
    reveal_strlit("use");
    lemma_ne_len("exec_func"@, "use"@);
    reveal_strlit("virtual");
    lemma_ne_len("exec_func"@, "virtual"@);
    reveal_strlit("where");
    lemma_ne_len("exec_func"@, "where"@);
    reveal_strlit("while");
    lemma_ne_len("exec_func"@, "while"@);
    reveal_strlit("yield");
    lemma_ne_len("exec_func"@, "yield"@);
}

/// Tokens with no invisible delimiter among them are all visible.
proof fn lemma_all_visible(t: Seq<TokV>)
    requires
        forall|i: int| 0 <= i < t.len() ==> !is_invisible(#[trigger] t[i]),
    ensures
        visible(t) == t,
    decreases t.len(),
{
    if t.len() > 0 {
        lemma_all_visible(t.drop_last());
        assert(t.drop_last().push(t.last()) =~= t);
    }
}

/// Empty macro arguments read as the explicit defaults `src = "src/command", exec_func =
/// "exec_command"`, whatever the spacing of the punctuation: both give `src/command` and
/// `exec_command`.
pub proof fn law_empty_arguments_are_the_defaults(
    l1: Seq<char>,
    l2: Seq<char>,
    j1: bool,
    j2: bool,
    j3: bool,
)
    requires
        string_literal_value(l1) == Some("src/command"@),
        string_literal_value(l2) == Some("exec_command"@),
        valid_ident("exec_command"@),
    ensures
        macro_args(
            seq![
                TokV::Ident("src"@),
                TokV::Punct('=', j1),
                TokV::Literal(l1),
                TokV::Punct(',', j2),
                TokV::Ident("exec_func"@),
                TokV::Punct('=', j3),
                TokV::Literal(l2),
            ],
        ) == macro_args(seq![]),
        macro_args(seq![]) == Ok::<(Seq<char>, Seq<char>), ErrorV>(("src/command"@, "exec_command"@)),
{
    lemma_src_not_reserved();
    lemma_exec_func_not_reserved();
    reveal_strlit("src");
    reveal_strlit("exec_func");
    reveal_strlit("help_message");
    let t = seq![
        TokV::Ident("src"@),
        TokV::Punct('=', j1),
        TokV::Literal(l1),
        TokV::Punct(',', j2),
        TokV::Ident("exec_func"@),
        TokV::Punct('=', j3),
        TokV::Literal(l2),
    ];
    lemma_ne_len("src"@, "exec_func"@);
    lemma_ne_len("exec_func"@, "src"@);
    assert(t[4] == TokV::Ident("exec_func"@));
    assert(is_punct(t[5], '='));
    assert(t[0] == TokV::Ident("src"@));
    assert(is_punct(t[1], '='));
    assert(is_punct(t[3], ','));
    lemma_all_visible(t);
    lemma_all_visible(seq![]);
    assert(string_at(t, 2) == Some("src/command"@));
    assert(string_at(t, 6) == Some("exec_command"@));
    assert(read_args(t, 7, Some("src/command"@), Some("exec_command"@)) == Ok::<
        (Option<Seq<char>>, Option<Seq<char>>),
        ErrorV,
    >((Some("src/command"@), Some("exec_command"@))));
    assert(read_args(t, 4, Some("src/command"@), None) == read_args(
        t,
        7,
        Some("src/command"@),
        Some("exec_command"@),
    ));
    assert(read_args(t, 0, None, None) == read_args(t, 4, Some("src/command"@), None));
}


/// What reading one entry does to the state of reading a directory.
#[verifier::opaque]
pub open spec fn step(e: DirEntry, now: Seq<char>, st: ScanV) -> Result<ScanV, ErrorV> {
    match e {
        DirEntry::Unreadable(m) => Err(ErrorV::ReadEntry(m@)),
        DirEntry::File { is_rs, is_mod_rs, stem, content } => if is_rs && !is_mod_rs {
            match content {
                Err(m) => Err(ErrorV::ReadFile(m@)),
                Ok(text) => match stem {
                    None => Err(ErrorV::InvalidFileName),
                    Some(file_stem) => match spec_command_file(text@, now + "::"@ + file_stem@) {
                        Err(e) => Err(e),
                        Ok(None) => Ok(st),
                        Ok(Some((command, name, call))) => Ok(
                            ScanV { subs: st.subs.push(command), arms: st.arms.push((name, call)), ..st },
                        ),
                    },
                },
            }
        } else if is_mod_rs {
            match content {
                Err(m) => Err(ErrorV::ReadModFile(m@)),
                Ok(text) => match spec_modfile(text@) {
                    Err(e) => Err(e),
                    Ok(info) => Ok(ScanV { info: Some(info), ..st }),
                },
            }
        } else {
            Ok(st)
        },
        DirEntry::Directory(child) => if child.name is NotUtf8 {
            Err(ErrorV::InvalidSubcommandDirectory)
        } else {
            match spec_dir(child, now, t_id("sub_m"@)) {
                Err(e) => Err(e),
                Ok((command, dispatch, name)) => Ok(
                    ScanV { subs: st.subs.push(command), arms: st.arms.push((name, dispatch)), ..st },
                ),
            }
        },
        DirEntry::Other => Ok(st),
    }
}

/// Reading entries is reading the first, then the rest from the state it leaves.
proof fn lemma_scan_step(entries: Seq<DirEntry>, now: Seq<char>, st: ScanV)
    requires
        entries.len() > 0,
    ensures
        scan(entries, now, st) == match step(entries[0], now, st) {
            Err(e) => Err(e),
            Ok(next) => scan(entries.drop_first(), now, next),
        },
{
    reveal(step);
}

/// The text lacks the `//! router:` or the `//! description:` line.
pub open spec fn lacks_header(text: Seq<char>) -> bool {
    first_with_prefix(lines(text), "//! router:"@) is None || first_with_prefix(
        lines(text),
        "//! description:"@,
    ) is None
}

/// An entry that is no command: a file other than `mod.rs` whose extension is not `rs`, a
/// readable `.rs` file with a name that lacks the `//! router:` or the `//! description:`
/// line, or an entry that is neither a file nor a directory.
pub open spec fn not_a_command(x: DirEntry) -> bool {
    match x {
        DirEntry::File { is_rs, is_mod_rs, stem, content } => !is_mod_rs && (!is_rs || (stem is Some
            && content is Ok && lacks_header(content->Ok_0@))),
        DirEntry::Other => true,
        _ => false,
    }
}

proof fn lemma_scan_passes_over(a: Seq<DirEntry>, x: DirEntry, b: Seq<DirEntry>, now: Seq<char>, st: ScanV)
    requires
        not_a_command(x),
    ensures
        scan(a + seq![x] + b, now, st) == scan(a + b, now, st),
    decreases a.len(),
{
    reveal(step);
    let l = a + seq![x] + b;
    let r = a + b;
    lemma_scan_step(l, now, st);
    if a.len() == 0 {
        assert(l[0] == x);
        assert(l.drop_first() =~= b);
        assert(r =~= b);
        if let DirEntry::File { is_rs, is_mod_rs, stem, content } = x {
            if is_rs {
                if let (Ok(text), Some(file_stem)) = (content, stem) {
                    law_no_router_no_command(text@, now + "::"@ + file_stem@);
                }
            }
        }
    } else {
        lemma_scan_step(r, now, st);
        assert(l[0] == a[0]);
        assert(r[0] == a[0]);
        assert(l.drop_first() =~= a.drop_first() + seq![x] + b);
        assert(r.drop_first() =~= a.drop_first() + b);
        if let Ok(next) = step(a[0], now, st) {
            lemma_scan_passes_over(a.drop_first(), x, b, now, next);
        }
    }
}

/// A directory entry that is no command changes nothing: with such an entry added anywhere
/// to its listing, a directory gives what it gave without it.
pub proof fn law_extra_entry_changes_nothing(
    d1: CommandDir,
    d2: CommandDir,
    k: int,
    x: DirEntry,
    basic: Seq<char>,
    matches: Seq<TokV>,
)
    requires
        d1.name == d2.name,
        d1.listing matches Ok(v1) && d2.listing matches Ok(v2) && 0 <= k <= v1.len() && v2@
            == v1@.insert(k, x),
        not_a_command(x),
    ensures
        spec_dir(d2, basic, matches) == spec_dir(d1, basic, matches),
{
    if let (DirName::Name(n), Ok(v1), Ok(v2)) = (d1.name, d1.listing, d2.listing) {
        let a = v1@.take(k);
        let b = v1@.skip(k);
        assert(v2@ =~= a + seq![x] + b);
        assert(v1@ =~= a + b);
        lemma_scan_passes_over(a, x, b, now_ident(basic, n@), ScanV { info: None, subs: seq![], arms: seq![] });
    }
}


/// A subcommand and the match arm that dispatches it.
pub type SubPair = (Seq<TokV>, (Seq<char>, Seq<TokV>));

/// The subcommands of pairs.
pub open spec fn firsts(p: Seq<SubPair>) -> Seq<Seq<TokV>> {
    p.map_values(|x: SubPair| x.0)
}

/// The arms of pairs.
pub open spec fn seconds(p: Seq<SubPair>) -> Seq<(Seq<char>, Seq<TokV>)> {
    p.map_values(|x: SubPair| x.1)
}

/// Whether an entry is a `mod.rs`.
pub open spec fn is_mod_file(e: DirEntry) -> bool {
    e matches DirEntry::File { is_mod_rs, .. } && is_mod_rs
}

/// At most one entry is a `mod.rs`, as in a listing of a directory.
pub open spec fn one_mod(s: Seq<DirEntry>) -> bool {
    forall|i: int, j: int|
        0 <= i < s.len() && 0 <= j < s.len() && is_mod_file(#[trigger] s[i]) && is_mod_file(
            #[trigger] s[j],
        ) ==> i == j
}

/// What a directory builds: a command module gives its `clap::Command`, its name and the
/// statement that runs it; a directory its name, its description and, for each of its entries
/// in the order listed, what that entry builds if it is a command.
pub enum Built {
    Leaf(Seq<TokV>, Seq<char>, Seq<TokV>),
    Dir(Seq<char>, Seq<char>, Seq<Option<Built>>),
}

/// The subcommand and the match arm of what was built.
pub open spec fn built_pair(b: Built) -> SubPair
    decreases b,
{
    match b {
        Built::Leaf(c, n, call) => (c, (n, call)),
        Built::Dir(n, desc, cs) => (
            dir_command(n, desc, firsts(pairs_of(cs))),
            (n, dir_match(t_id("sub_m"@), seconds(pairs_of(cs)))),
        ),
    }
}

/// The subcommands and arms of the entries that are commands, in order.
pub open spec fn pairs_of(cs: Seq<Option<Built>>) -> Seq<SubPair>
    decreases cs,
{
    if cs.len() == 0 {
        seq![]
    } else {
        match cs[0] {
            Some(b) => seq![built_pair(b)] + pairs_of(cs.subrange(1, cs.len() as int)),
            None => pairs_of(cs.subrange(1, cs.len() as int)),
        }
    }
}

/// The code of a directory: its `clap::Command`, its `match` on `matches`, and its name.
pub open spec fn render_dir(b: Built, matches: Seq<TokV>) -> (Seq<TokV>, Seq<TokV>, Seq<char>) {
    match b {
        Built::Dir(n, desc, cs) => (
            dir_command(n, desc, firsts(pairs_of(cs))),
            dir_match(matches, seconds(pairs_of(cs))),
            n,
        ),
        Built::Leaf(c, n, _) => (c, seq![], n),
    }
}

/// What one entry builds.
pub enum EntryBuilt {
    Nothing,
    Info((Seq<char>, Seq<char>)),
    Sub(Built),
}

/// What one entry builds, or the error it stops on.
pub open spec fn entry_built(e: DirEntry, now: Seq<char>) -> Result<EntryBuilt, ErrorV>
    decreases e,
{
    match e {
        DirEntry::Unreadable(m) => Err(ErrorV::ReadEntry(m@)),
        DirEntry::File { is_rs, is_mod_rs, stem, content } => if is_rs && !is_mod_rs {
            match content {
                Err(m) => Err(ErrorV::ReadFile(m@)),
                Ok(text) => match stem {
                    None => Err(ErrorV::InvalidFileName),
                    Some(file_stem) => match spec_command_file(text@, now + "::"@ + file_stem@) {
                        Err(x) => Err(x),
                        Ok(None) => Ok(EntryBuilt::Nothing),
                        Ok(Some((c, n, call))) => Ok(EntryBuilt::Sub(Built::Leaf(c, n, call))),
                    },
                },
            }
        } else if is_mod_rs {
            match content {
                Err(m) => Err(ErrorV::ReadModFile(m@)),
                Ok(text) => match spec_modfile(text@) {
                    Err(x) => Err(x),
                    Ok(info) => Ok(EntryBuilt::Info(info)),
                },
            }
        } else {
            Ok(EntryBuilt::Nothing)
        },
        DirEntry::Directory(child) => if child.name is NotUtf8 {
            Err(ErrorV::InvalidSubcommandDirectory)
        } else {
            match built_dir(child, now) {
                Err(x) => Err(x),
                Ok(b) => Ok(EntryBuilt::Sub(b)),
            }
        },
        DirEntry::Other => Ok(EntryBuilt::Nothing),
    }
}

/// What an entry adds to the children of its directory.
pub open spec fn child_of(x: EntryBuilt) -> Option<Built> {
    match x {
        EntryBuilt::Sub(b) => Some(b),
        _ => None,
    }
}

/// What the entries build: the name and description of the last `mod.rs`, and for each entry
/// what it builds if it is a command; or the first error met.
pub open spec fn built_scan(s: Seq<DirEntry>, now: Seq<char>) -> Result<
    (Option<(Seq<char>, Seq<char>)>, Seq<Option<Built>>),
    ErrorV,
>
    decreases s,
{
    if s.len() == 0 {
        Ok((None, seq![]))
    } else {
        match entry_built(s[0], now) {
            Err(x) => Err(x),
            Ok(x) => match built_scan(s.subrange(1, s.len() as int), now) {
                Err(y) => Err(y),
                Ok((info, cs)) => Ok(
                    (
                        if info is Some {
                            info
                        } else {
                            match x {
                                EntryBuilt::Info(i) => Some(i),
                                _ => None,
                            }
                        },
                        seq![child_of(x)] + cs,
                    ),
                ),
            },
        }
    }
}

/// What a directory builds, or the first error met.
pub open spec fn built_dir(d: CommandDir, basic: Seq<char>) -> Result<Built, ErrorV>
    decreases d,
{
    match d.name {
        DirName::Missing => Err(ErrorV::InvalidCommandDirectory),
        DirName::NotUtf8 => Err(ErrorV::InvalidCommandDirectoryName),
        DirName::Name(n) => match d.listing {
            Err(m) => Err(ErrorV::ReadDirectory(m@)),
            Ok(v) => match built_scan(v@, now_ident(basic, n@)) {
                Err(x) => Err(x),
                Ok((info, cs)) => match info {
                    None => Err(ErrorV::MissingModFile),
                    Some((name, desc)) => Ok(Built::Dir(name, desc, cs)),
                },
            },
        },
    }
}

/// The code of a directory is the rendering of what it builds.
proof fn lemma_dir_built(d: CommandDir, basic: Seq<char>, matches: Seq<TokV>)
    ensures
        built_dir(d, basic) matches Ok(b) ==> b is Dir,
        spec_dir(d, basic, matches) == match built_dir(d, basic) {
            Err(x) => Err(x),
            Ok(b) => Ok::<(Seq<TokV>, Seq<TokV>, Seq<char>), ErrorV>(render_dir(b, matches)),
        },
    decreases d,
{
    if let (DirName::Name(n), Ok(v)) = (d.name, d.listing) {
        let st = ScanV { info: None, subs: seq![], arms: seq![] };
        lemma_scan_built(v@, now_ident(basic, n@), st);
        if let Ok((info, cs)) = built_scan(v@, now_ident(basic, n@)) {
            assert(st.subs + firsts(pairs_of(cs)) =~= firsts(pairs_of(cs)));
            assert(st.arms + seconds(pairs_of(cs)) =~= seconds(pairs_of(cs)));
        }
    }
}

/// Reading entries from a state adds what they build to it.
proof fn lemma_scan_built(s: Seq<DirEntry>, now: Seq<char>, st: ScanV)
    ensures
        scan(s, now, st) == match built_scan(s, now) {
            Err(x) => Err(x),
            Ok((info, cs)) => Ok::<ScanV, ErrorV>(
                ScanV {
                    info: if info is Some {
                        info
                    } else {
                        st.info
                    },
                    subs: st.subs + firsts(pairs_of(cs)),
                    arms: st.arms + seconds(pairs_of(cs)),
                },
            ),
        },
    decreases s,
{
    if s.len() == 0 {
        assert(st.subs + firsts(pairs_of(seq![])) =~= st.subs);
        assert(st.arms + seconds(pairs_of(seq![])) =~= st.arms);
    } else {
        let rest = s.subrange(1, s.len() as int);
        assert(rest =~= s.drop_first());
        lemma_scan_step(s, now, st);
        lemma_entry_step(s[0], now, st);
        if let Ok(x) = entry_built(s[0], now) {
            let next = match x {
                EntryBuilt::Nothing => st,
                EntryBuilt::Info(i) => ScanV { info: Some(i), ..st },
                EntryBuilt::Sub(b) => ScanV {
                    subs: st.subs.push(built_pair(b).0),
                    arms: st.arms.push(built_pair(b).1),
                    ..st
                },
            };
            lemma_scan_built(rest, now, next);
            if let Ok((info, cs)) = built_scan(rest, now) {
                let all = seq![child_of(x)] + cs;
                assert(all[0] == child_of(x));
                assert(all.subrange(1, all.len() as int) =~= cs);
                match x {
                    EntryBuilt::Sub(b) => {
                        assert(pairs_of(all) == seq![built_pair(b)] + pairs_of(cs));
                        assert(st.subs.push(built_pair(b).0) + firsts(pairs_of(cs)) =~= st.subs + firsts(
                            pairs_of(all),
                        ));
                        assert(st.arms.push(built_pair(b).1) + seconds(pairs_of(cs)) =~= st.arms
                            + seconds(pairs_of(all)));
                    },
                    _ => {
                        assert(pairs_of(all) == pairs_of(cs));
                    },
                }
            }
        }
    }
}

/// One step adds what its entry builds.
proof fn lemma_entry_step(e: DirEntry, now: Seq<char>, st: ScanV)
    ensures
        step(e, now, st) == match entry_built(e, now) {
            Err(x) => Err(x),
            Ok(EntryBuilt::Nothing) => Ok(st),
            Ok(EntryBuilt::Info(i)) => Ok(ScanV { info: Some(i), ..st }),
            Ok(EntryBuilt::Sub(b)) => Ok::<ScanV, ErrorV>(
                ScanV { subs: st.subs.push(built_pair(b).0), arms: st.arms.push(built_pair(b).1), ..st },
            ),
        },
    decreases e,
{
    reveal(step);
    if let DirEntry::Directory(child) = e {
        lemma_dir_built(child, now, t_id("sub_m"@));
    }
}


/// `f` and `g` map the positions `0..n` onto each other, one to one.
pub open spec fn is_perm(f: spec_fn(int) -> int, g: spec_fn(int) -> int, n: int) -> bool {
    &&& forall|i: int| 0 <= i < n ==> 0 <= #[trigger] f(i) < n && g(f(i)) == i
    &&& forall|j: int| 0 <= j < n ==> 0 <= #[trigger] g(j) < n && f(g(j)) == j
}

/// `d2` is the directory `d1`, with the entries of each directory (itself and those within it)
/// listed in some order.
pub open spec fn same_tree(d1: CommandDir, d2: CommandDir) -> bool
    decreases d1,
{
    d1.name == d2.name && match (d1.listing, d2.listing) {
        (Ok(v1), Ok(v2)) => v1@.len() == v2@.len() && exists|f: spec_fn(int) -> int, g: spec_fn(int) -> int|
            #[trigger] is_perm(f, g, v1@.len() as int) && forall|i: int|
                0 <= i < v1@.len() ==> same_entry(#[trigger] v1@[i], v2@[f(i)]),
        (Err(a), Err(b)) => a == b,
        _ => false,
    }
}

/// Two entries are the same, subdirectories up to the order of their listings.
pub open spec fn same_entry(e1: DirEntry, e2: DirEntry) -> bool
    decreases e1,
{
    match (e1, e2) {
        (DirEntry::Directory(c1), DirEntry::Directory(c2)) => same_tree(c1, c2),
        _ => e1 == e2,
    }
}

/// Each directory within `d`, and `d` itself, lists at most one `mod.rs`.
pub open spec fn mods_ok(d: CommandDir) -> bool
    decreases d,
{
    match d.listing {
        Ok(v) => one_mod(v@) && forall|i: int| 0 <= i < v@.len() ==> mods_ok_entry(#[trigger] v@[i]),
        Err(_) => true,
    }
}

/// A subdirectory entry lists at most one `mod.rs` at each level.
pub open spec fn mods_ok_entry(e: DirEntry) -> bool
    decreases e,
{
    match e {
        DirEntry::Directory(c) => mods_ok(c),
        _ => true,
    }
}

/// Two builds are the same up to the order of the children of each directory: the same
/// permutation of a directory's children orders its subcommands and its match arms alike.
pub open spec fn equiv_built(b1: Built, b2: Built) -> bool
    decreases b1,
{
    match (b1, b2) {
        (Built::Leaf(..), Built::Leaf(..)) => b1 == b2,
        (Built::Dir(n1, x1, c1), Built::Dir(n2, x2, c2)) => n1 == n2 && x1 == x2 && c1.len() == c2.len()
            && exists|f: spec_fn(int) -> int, g: spec_fn(int) -> int|
            #[trigger] is_perm(f, g, c1.len() as int) && forall|i: int|
                0 <= i < c1.len() ==> equiv_child(#[trigger] c1[i], c2[f(i)]),
        _ => false,
    }
}

/// Two children are both absent, or the same up to order.
pub open spec fn equiv_child(o1: Option<Built>, o2: Option<Built>) -> bool
    decreases o1,
{
    match (o1, o2) {
        (None, None) => true,
        (Some(b1), Some(b2)) => equiv_built(b1, b2),
        _ => false,
    }
}

/// Two entries stop alike, or build the same up to order.
pub open spec fn entry_equiv(x1: Result<EntryBuilt, ErrorV>, x2: Result<EntryBuilt, ErrorV>) -> bool {
    match (x1, x2) {
        (Err(_), Err(_)) => true,
        (Ok(EntryBuilt::Nothing), Ok(EntryBuilt::Nothing)) => true,
        (Ok(EntryBuilt::Info(a)), Ok(EntryBuilt::Info(b))) => a == b,
        (Ok(EntryBuilt::Sub(b1)), Ok(EntryBuilt::Sub(b2))) => equiv_built(b1, b2),
        _ => false,
    }
}

/// Whether an entry gives a name and description.
pub open spec fn is_info(x: Result<EntryBuilt, ErrorV>) -> bool {
    x matches Ok(EntryBuilt::Info(_))
}

/// Only a `mod.rs` gives a name and description.
proof fn lemma_entry_info_mod(e: DirEntry, now: Seq<char>)
    ensures
        entry_built(e, now) matches Ok(EntryBuilt::Info(_)) ==> is_mod_file(e),
{
}

/// What the entries build, entry by entry.
proof fn lemma_built_closed(s: Seq<DirEntry>, now: Seq<char>)
    ensures
        (built_scan(s, now) is Ok) == (forall|i: int| 0 <= i < s.len() ==> entry_built(#[trigger] s[i], now) is Ok),
        built_scan(s, now) matches Ok((info, cs)) ==> cs.len() == s.len() && (forall|i: int|
            0 <= i < s.len() ==> #[trigger] cs[i] == child_of(entry_built(s[i], now)->Ok_0)),
        one_mod(s) ==> (built_scan(s, now) matches Ok((info, cs)) ==> (forall|i: int|
            0 <= i < s.len() && is_info(#[trigger] entry_built(s[i], now)) ==> info == Some(
                entry_built(s[i], now)->Ok_0->Info_0,
            ))),
        built_scan(s, now) matches Ok((info, cs)) ==> (info matches Some(x) ==> exists|i: int|
            0 <= i < s.len() && #[trigger] entry_built(s[i], now) == Ok::<EntryBuilt, ErrorV>(EntryBuilt::Info(x))),
    decreases s.len(),
{
    if s.len() > 0 {
        let rest = s.subrange(1, s.len() as int);
        lemma_built_closed(rest, now);
        assert forall|i: int| 0 < i < s.len() implies s[i] == rest[i - 1] by {}
        if one_mod(s) {
            assert(one_mod(rest)) by {
                assert forall|a: int, b: int|
                    0 <= a < rest.len() && 0 <= b < rest.len() && is_mod_file(#[trigger] rest[a])
                        && is_mod_file(#[trigger] rest[b]) implies a == b by {
                    assert(rest[a] == s[a + 1]);
                    assert(rest[b] == s[b + 1]);
                }
            }
        }
        if (forall|i: int| 0 <= i < s.len() ==> entry_built(#[trigger] s[i], now) is Ok) {
            assert(entry_built(s[0], now) is Ok);
            assert forall|i: int| 0 <= i < rest.len() implies entry_built(#[trigger] rest[i], now) is Ok by {
                assert(rest[i] == s[i + 1]);
            }
        }
        if built_scan(s, now) is Ok {
            assert forall|i: int| 0 <= i < s.len() implies entry_built(#[trigger] s[i], now) is Ok by {
                if i > 0 {
                    assert(rest[i - 1] == s[i]);
                }
            }
        }
        if let Ok((info, cs)) = built_scan(s, now) {
            let x = entry_built(s[0], now)->Ok_0;
            let (info_r, cs_r) = built_scan(rest, now)->Ok_0;
            assert(cs == seq![child_of(x)] + cs_r);
            assert forall|i: int| 0 <= i < s.len() implies #[trigger] cs[i] == child_of(
                entry_built(s[i], now)->Ok_0,
            ) by {
                if i > 0 {
                    assert(rest[i - 1] == s[i]);
                    assert(cs[i] == cs_r[i - 1]);
                }
            }
            lemma_entry_info_mod(s[0], now);
            if one_mod(s) {
                assert forall|i: int|
                    0 <= i < s.len() && is_info(#[trigger] entry_built(s[i], now))
                        implies info == Some(entry_built(s[i], now)->Ok_0->Info_0) by {
                    lemma_entry_info_mod(s[i], now);
                    if i > 0 {
                        assert(rest[i - 1] == s[i]);
                        if x is Info {
                            assert(is_mod_file(s[0]));
                            assert(false);
                        }
                    } else {
                        if let Some(z) = info_r {
                            let k = choose|k: int|
                                0 <= k < rest.len() && #[trigger] entry_built(rest[k], now) == Ok::<
                                    EntryBuilt,
                                    ErrorV,
                                >(EntryBuilt::Info(z));
                            lemma_entry_info_mod(rest[k], now);
                            assert(rest[k] == s[k + 1]);
                            assert(false);
                        }
                    }
                }
            }
            if let Some(z) = info {
                if info_r is Some {
                    let k = choose|k: int|
                        0 <= k < rest.len() && #[trigger] entry_built(rest[k], now) == Ok::<EntryBuilt, ErrorV>(
                            EntryBuilt::Info(z),
                        );
                    assert(rest[k] == s[k + 1]);
                } else {
                    assert(entry_built(s[0], now) == Ok::<EntryBuilt, ErrorV>(EntryBuilt::Info(z)));
                }
            }
        }
    }
}

/// Entries in another order, each built the same up to order, build the same up to order.
proof fn lemma_level(
    s1: Seq<DirEntry>,
    s2: Seq<DirEntry>,
    f: spec_fn(int) -> int,
    g: spec_fn(int) -> int,
    now: Seq<char>,
)
    requires
        s1.len() == s2.len(),
        is_perm(f, g, s1.len() as int),
        forall|i: int| 0 <= i < s1.len() ==> entry_equiv(entry_built(#[trigger] s1[i], now), entry_built(s2[f(i)], now)),
        one_mod(s1),
        one_mod(s2),
    ensures
        (built_scan(s1, now) is Ok) == (built_scan(s2, now) is Ok),
        built_scan(s1, now) matches Ok((info1, cs1)) ==> built_scan(s2, now) matches Ok((info2, cs2))
            && info1 == info2 && cs1.len() == cs2.len() && cs1.len() == s1.len() && (forall|i: int|
            0 <= i < cs1.len() ==> equiv_child(#[trigger] cs1[i], cs2[f(i)])),
{
    lemma_built_closed(s1, now);
    lemma_built_closed(s2, now);
    let n = s1.len();
    if built_scan(s1, now) is Ok {
        assert forall|j: int| 0 <= j < n implies entry_built(#[trigger] s2[j], now) is Ok by {
            let i = g(j);
            assert(entry_equiv(entry_built(s1[i], now), entry_built(s2[f(i)], now)));
        }
    }
    if built_scan(s2, now) is Ok {
        assert forall|i: int| 0 <= i < n implies entry_built(#[trigger] s1[i], now) is Ok by {
            assert(entry_equiv(entry_built(s1[i], now), entry_built(s2[f(i)], now)));
        }
    }
    if let (Ok((info1, cs1)), Ok((info2, cs2))) = (built_scan(s1, now), built_scan(s2, now)) {
        assert forall|i: int| 0 <= i < cs1.len() implies equiv_child(#[trigger] cs1[i], cs2[f(i)]) by {
            assert(entry_equiv(entry_built(s1[i], now), entry_built(s2[f(i)], now)));
            assert(cs1[i] == child_of(entry_built(s1[i], now)->Ok_0));
            assert(cs2[f(i)] == child_of(entry_built(s2[f(i)], now)->Ok_0));
        }
        if let Some(x) = info1 {
            let i = choose|i: int|
                0 <= i < s1.len() && #[trigger] entry_built(s1[i], now) == Ok::<EntryBuilt, ErrorV>(
                    EntryBuilt::Info(x),
                );
            assert(entry_equiv(entry_built(s1[i], now), entry_built(s2[f(i)], now)));
        } else if let Some(y) = info2 {
            let j = choose|j: int|
                0 <= j < s2.len() && #[trigger] entry_built(s2[j], now) == Ok::<EntryBuilt, ErrorV>(
                    EntryBuilt::Info(y),
                );
            let i = g(j);
            assert(entry_equiv(entry_built(s1[i], now), entry_built(s2[f(i)], now)));
        }
    }
}

/// Directories with children the same up to one reordering are the same up to order.
proof fn lemma_dir_equiv(
    name: Seq<char>,
    desc: Seq<char>,
    cs1: Seq<Option<Built>>,
    cs2: Seq<Option<Built>>,
    f: spec_fn(int) -> int,
    g: spec_fn(int) -> int,
)
    requires
        cs1.len() == cs2.len(),
        is_perm(f, g, cs1.len() as int),
        forall|i: int| 0 <= i < cs1.len() ==> equiv_child(#[trigger] cs1[i], cs2[f(i)]),
    ensures
        equiv_built(Built::Dir(name, desc, cs1), Built::Dir(name, desc, cs2)),
{
    let n = cs1.len() as int;
    assert(is_perm(f, g, n) && forall|i: int| 0 <= i < cs1.len() ==> equiv_child(#[trigger] cs1[i], cs2[f(i)]));
    assert(exists|f2: spec_fn(int) -> int, g2: spec_fn(int) -> int|
        #[trigger] is_perm(f2, g2, n) && forall|i: int| 0 <= i < cs1.len() ==> equiv_child(#[trigger] cs1[i], cs2[f2(i)]));
}

/// The same tree, listed in other orders, builds the same up to order, or stops alike.
#[verifier::spinoff_prover]
proof fn lemma_tree_same(d1: CommandDir, d2: CommandDir, basic: Seq<char>)
    requires
        same_tree(d1, d2),
        mods_ok(d1),
        mods_ok(d2),
    ensures
        (built_dir(d1, basic) is Ok) == (built_dir(d2, basic) is Ok),
        built_dir(d1, basic) matches Ok(b1) ==> equiv_built(b1, built_dir(d2, basic)->Ok_0),
    decreases d1,
{
    if let (DirName::Name(n), Ok(v1), Ok(v2)) = (d1.name, d1.listing, d2.listing) {
        let now = now_ident(basic, n@);
        let (f, g) = choose|f: spec_fn(int) -> int, g: spec_fn(int) -> int|
            #[trigger] is_perm(f, g, v1@.len() as int) && forall|i: int|
                0 <= i < v1@.len() ==> same_entry(#[trigger] v1@[i], v2@[f(i)]);
        assert forall|i: int| 0 <= i < v1@.len() implies entry_equiv(
            entry_built(#[trigger] v1@[i], now),
            entry_built(v2@[f(i)], now),
        ) by {
            assert(mods_ok_entry(v1@[i]));
            assert(mods_ok_entry(v2@[f(i)]));
            lemma_entry_same(v1@[i], v2@[f(i)], now);
        }
        lemma_level(v1@, v2@, f, g, now);
        if let (Ok((info1, cs1)), Ok((info2, cs2))) = (built_scan(v1@, now), built_scan(v2@, now)) {
            if let Some((name, desc)) = info1 {
                lemma_dir_equiv(name, desc, cs1, cs2, f, g);
            }
        }
    }
}

/// The same entry, with subdirectories listed in other orders, builds the same up to order,
/// or stops alike.
proof fn lemma_entry_same(e1: DirEntry, e2: DirEntry, now: Seq<char>)
    requires
        same_entry(e1, e2),
        mods_ok_entry(e1),
        mods_ok_entry(e2),
    ensures
        entry_equiv(entry_built(e1, now), entry_built(e2, now)),
    decreases e1,
{
    if let (DirEntry::Directory(c1), DirEntry::Directory(c2)) = (e1, e2) {
        lemma_tree_same(c1, c2, now);
    } else {
        assert(e1 == e2);
        if let Ok(EntryBuilt::Sub(b)) = entry_built(e1, now) {
            assert(b is Leaf);
        }
    }
}

/// The order in which directories list their entries does not matter: with the entries of
/// each directory, at every depth, listed in another order (and one `mod.rs` at most in each,
/// as a directory has), a directory gives code or an error alike. When it gives code, both
/// are the rendering of the same build up to order: at each directory the same command name
/// and description, and subcommands and match arms permuted by one same permutation, each
/// nested directory again so.
pub proof fn law_listing_order_does_not_matter(
    d1: CommandDir,
    d2: CommandDir,
    basic: Seq<char>,
    matches: Seq<TokV>,
)
    requires
        same_tree(d1, d2),
        mods_ok(d1),
        mods_ok(d2),
    ensures
        (spec_dir(d1, basic, matches) is Ok) == (spec_dir(d2, basic, matches) is Ok),
        spec_dir(d1, basic, matches) is Ok ==> exists|b1: Built, b2: Built|
            {
                &&& equiv_built(b1, b2)
                &&& spec_dir(d1, basic, matches) == Ok::<(Seq<TokV>, Seq<TokV>, Seq<char>), ErrorV>(
                    render_dir(b1, matches),
                )
                &&& spec_dir(d2, basic, matches) == Ok::<(Seq<TokV>, Seq<TokV>, Seq<char>), ErrorV>(
                    render_dir(b2, matches),
                )
            },
{
    lemma_tree_same(d1, d2, basic);
    lemma_dir_built(d1, basic, matches);
    lemma_dir_built(d2, basic, matches);
}

} // verus!
