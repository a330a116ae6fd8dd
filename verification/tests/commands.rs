use command_tool::args::{parse_token, MacroArgs};
use command_tool::commands::{parse_command_and_run_from_file, parse_modfile, LeafCommand};
use command_tool::errors::CommandError;
use command_tool::generate::{generate_commands, run, CommandDir, DirEntry, DirName};
use command_tool::syntax::{is_valid_ident, render_text, Delim, Tok};
use proc_macro2::{Delimiter, Group, TokenStream, TokenTree};

/// Token streams compared by their normal text.
fn norm(code: &str) -> String {
    code.parse::<TokenStream>().expect("tokens").to_string()
}

/// Tokens written as source text, string and character literals escaped.
fn text(tokens: &Vec<Tok>) -> String {
    let mut out = String::new();
    for t in tokens {
        match t {
            Tok::Ident(s) | Tok::Literal(s) => out.push_str(&format!("{s} ")),
            Tok::Punct(c, true) => out.push(*c),
            Tok::Punct(c, false) => out.push_str(&format!("{c} ")),
            Tok::Str(s) => out.push_str(&format!("{s:?} ")),
            Tok::Char(c) => out.push_str(&format!("{c:?} ")),
            Tok::Open(Delim::Paren) => out.push_str("( "),
            Tok::Open(Delim::Brace) => out.push_str("{ "),
            Tok::Open(Delim::Bracket) => out.push_str("[ "),
            Tok::Close(Delim::Paren) => out.push_str(") "),
            Tok::Close(Delim::Brace) => out.push_str("} "),
            Tok::Close(Delim::Bracket) => out.push_str("] "),
            Tok::Open(Delim::Invisible) | Tok::Close(Delim::Invisible) => {}
        }
    }
    norm(&out)
}

fn args(input: &str) -> Result<(String, String), String> {
    parse_token(&input.parse::<TokenStream>().expect("tokens")).map(|a: MacroArgs| (a.src, a.exec_func)).map_err(|e| e.message())
}

fn leaf(content: &str, path: &str) -> Result<Option<(String, String, String)>, String> {
    parse_command_and_run_from_file(content, &path.to_string())
        .map(|o| o.map(|LeafCommand { command, name, call }| (text(&command), name, text(&call))))
        .map_err(|e| e.message())
}

fn file(name: &str, content: &str) -> DirEntry {
    let stem = name.rsplit_once('.').map(|(s, _)| s).unwrap_or(name).to_string();
    DirEntry::File {
        is_rs: name.ends_with(".rs"),
        is_mod_rs: name == "mod.rs",
        stem: Some(stem),
        content: Ok(content.to_string()),
    }
}

fn dir(name: &str, entries: Vec<DirEntry>) -> CommandDir {
    CommandDir { name: DirName::Name(name.to_string()), listing: Ok(entries) }
}

fn expand(exec: &str, root: &CommandDir) -> Result<String, String> {
    let a = MacroArgs { src: "src/command".to_string(), exec_func: exec.to_string() };
    generate_commands(&a, root).map(|t| text(&t)).map_err(|e| e.message())
}

const START: &str = "//! router: start
//! description: Start the server
//! log_level required
//! --config -c <config>, config path (optional\\, default: none)
//! --port -p <port>, server port

#[run]
pub fn run(log_level: String, config: Option<String>, port: Option<u16>) {}
";

#[test]
fn macro_arguments_are_read() {
    assert_eq!(args("src = \"src/cmd\", exec_func = \"exec\""), Ok(("src/cmd".to_string(), "exec".to_string())));
}

#[test]
fn macro_arguments_have_defaults() {
    assert_eq!(args(""), Ok(("src/command".to_string(), "exec_command".to_string())));
    assert_eq!(args("help_message = \"hi\""), Ok(("src/command".to_string(), "exec_command".to_string())));
}

#[test]
fn macro_arguments_last_value_wins_and_commas_are_optional() {
    assert_eq!(
        args("src = \"a\" src = \"b\", exec_func = r\"run_it\""),
        Ok(("b".to_string(), "run_it".to_string()))
    );
}

#[test]
fn macro_argument_errors() {
    assert_eq!(args("source = \"a\""), Err("Unknown argument".to_string()));
    assert_eq!(args("type = \"a\""), Err("expected identifier, found keyword `type`".to_string()));
    assert_eq!(args("\"a\""), Err("expected identifier".to_string()));
    assert_eq!(args("src \"a\""), Err("expected `=`".to_string()));
    assert_eq!(args("src = 1"), Err("expected string literal".to_string()));
    assert_eq!(args("src ="), Err("expected string literal".to_string()));
    assert_eq!(args("src = \"a\" ;"), Err("expected identifier".to_string()));
}

#[test]
fn function_name_must_be_an_identifier() {
    assert_eq!(args("exec_func = \"a b\", bad = \"x\""), Err("`a b` is not a valid identifier".to_string()));
    assert_eq!(args("exec_func = \"type\""), Ok(("src/command".to_string(), "type".to_string())));
    assert_eq!(args("exec_func = \"r#x\""), Err("`r#x` is not a valid identifier".to_string()));
}

#[test]
fn module_names_must_be_identifiers() {
    let content = "//! router: x\n//! description: y\n#[run]\nfn a() {}\n";
    assert_eq!(leaf(content, "command::my-cmd"), Err("`my-cmd` is not a valid identifier".to_string()));
}

#[test]
fn string_escapes_in_arguments_are_read() {
    assert_eq!(args("src = \"a\\tb\""), Ok(("a\tb".to_string(), "exec_command".to_string())));
}

#[test]
fn modfile_is_read() {
    let m = parse_modfile("//! router: set\n//! description:  settings  \npub mod abc;\n").ok().unwrap();
    assert_eq!(m.command_name, "set");
    assert_eq!(m.description, "settings");
    assert_eq!(parse_modfile("//! description: x\n").err().unwrap().message(), "Missing //! router:");
    assert_eq!(parse_modfile("//! router: x\n").err().unwrap().message(), "Missing //! description:");
}

#[test]
fn file_without_router_is_no_command() {
    assert_eq!(leaf("//! description: x\n#[run]\nfn run() {}\n", "c::x"), Ok(None));
    assert_eq!(leaf("//! router: x\nfn run() {}\n", "c::x"), Ok(None));
}

#[test]
fn options_and_log_level() {
    let (command, name, call) = leaf(START, "command::start").unwrap().unwrap();
    assert_eq!(name, "start");
    assert_eq!(
        command,
        norm(
            "clap::Command::new(\"start\").about(\"Start the server\")
             .arg(clap::Arg::new(\"log_level\").long(\"log_level\").value_name(\"log_level\")
                  .default_value(\"info\").help(\"Set Log level(trace, debug, info, warn, error, off)\"))
             .arg(clap::Arg::new(\"config\").short('c').long(\"config\").value_name(\"config\")
                  .help(\"config path (optional, default: none)\"))
             .arg(clap::Arg::new(\"port\").short('p').long(\"port\").value_name(\"port\")
                  .help(\"server port\"))"
        )
    );
    assert_eq!(
        call,
        norm(
            "command::start::run(
                sub_m.get_one :: <String>(\"log_level\").expect(\"missing required argument\").clone(),
                sub_m.get_one :: <String>(\"config\").cloned(),
                sub_m.get_one :: <u16>(\"port\").cloned());"
        )
    );
}

#[test]
fn positional_arguments_and_vectors() {
    let content = "//! router: copy
//! description: Copy files
//! args: <files>(inputs) <out:out.txt> [mode:fast](copy_mode) [tag] plain <two words>
#[run]
fn go(files: Vec<String>, out: String, mode: Option<String>, tag: Option<Vec<u8>>) {}
";
    let (command, _, call) = leaf(content, "cmd::copy").unwrap().unwrap();
    assert_eq!(
        command,
        norm(
            "clap::Command::new(\"copy\").about(\"Copy files\")
             .arg(clap::Arg::new(\"files\").required(true).help(\"inputs\").num_args(1..))
             .arg(clap::Arg::new(\"out\").required(true).default_value(\"out.txt\").help(\"\"))
             .arg(clap::Arg::new(\"mode\").required(false).default_value(\"fast\").help(\"copy_mode\"))
             .arg(clap::Arg::new(\"tag\").required(false).help(\"\").num_args(1..))"
        )
    );
    assert_eq!(
        call,
        norm(
            "cmd::copy::go(
                sub_m.get_many :: <String>(\"files\").expect(\"missing required argument\").cloned().collect :: <Vec<String>>(),
                sub_m.get_one :: <String>(\"out\").expect(\"missing required argument\").clone(),
                sub_m.get_one :: <String>(\"mode\").cloned(),
                sub_m.get_many :: <u8>(\"tag\").map(|vals| vals.cloned().collect :: <Vec<u8>>()));"
        )
    );
}

#[test]
fn run_function_errors() {
    let head = "//! router: x\n//! description: y\n";
    assert_eq!(leaf(&format!("{head}fn a() {{}}\n"), "c::x"), Err("Missing #[run] function in c::x".to_string()));
    assert_eq!(
        leaf(&format!("{head}#[run]\nfn a() {{}}\n#[run]\nfn b() {{}}\n"), "c::x"),
        Err("Multiple #[run] functions found in c::x".to_string())
    );
    assert_eq!(
        leaf(&format!("{head}#[run]\nfn a(&self) {{}}\n"), "c::x"),
        Err("#[run] function cannot take self parameter".to_string())
    );
    assert_eq!(
        leaf(&format!("{head}#[run]\nfn a((x, y): (u8, u8)) {{}}\n"), "c::x"),
        Err("#[run] argument must be an identifier".to_string())
    );
    assert!(leaf(&format!("{head}fn a( {{\n"), "c::x").is_err());
}

#[test]
fn only_the_run_attribute_itself_marks_the_function() {
    let head = "//! router: x\n//! description: y\n";
    let content = format!("{head}#[other::run]\nfn a() {{}}\n#[run]\nfn b() {{}}\n");
    let (_, _, call) = leaf(&content, "c::x").unwrap().unwrap();
    assert_eq!(call, norm("c::x::b();"));
}

#[test]
fn empty_short_flag_is_an_error() {
    let content = "//! router: x\n//! description: y\n//! --config - <c>, help\n#[run]\nfn a() {}\n";
    assert_eq!(leaf(content, "c::x"), Err("called `Option::unwrap()` on a `None` value".to_string()));
}

#[test]
fn option_lines_without_one_comma_or_three_words_are_ignored() {
    let content = "//! router: x\n//! description: y\n//! --a -a <a>, one, two\n//! --b -b, help\n#[run]\nfn a() {}\n";
    let (command, _, _) = leaf(content, "c::x").unwrap().unwrap();
    assert_eq!(command, norm("clap::Command::new(\"x\").about(\"y\")"));
}

#[test]
fn whole_directory_expands() {
    let set = dir("set", vec![
        file("mod.rs", "//! router: set\n//! description: settings\npub mod abc;\n"),
        file("abc.rs", "//! router: abc\n//! description: set abc\n#[run]\npub fn run() {}\n"),
    ]);
    let root = dir("command", vec![
        file("mod.rs", "//! router: ctl\n//! description: control\npub mod start;\n"),
        file("start.rs", "//! router: start\n//! description: start it\n#[run]\npub fn run(port: u16) {}\n"),
        file("notes.txt", "not rust"),
        DirEntry::Directory(set),
        DirEntry::Other,
    ]);
    let expected = norm(
        "pub fn build_cli() -> clap::Command {
            clap::Command::new(\"ctl\").arg_required_else_help(true).about(\"control\")
              .subcommand(clap::Command::new(\"start\").about(\"start it\"))
              .subcommand(clap::Command::new(\"set\").arg_required_else_help(true).about(\"settings\")
                  .subcommand(clap::Command::new(\"abc\").about(\"set abc\")))
         }
         pub fn exec() {
            let matches = build_cli().get_matches();
            match matches.subcommand() {
                Some((\"start\", sub_m)) => {
                    command::start::run(sub_m.get_one :: <u16>(\"port\").expect(\"missing required argument\").clone());
                },
                Some((\"set\", sub_m)) => {
                    match sub_m.subcommand() {
                        Some((\"abc\", sub_m)) => { command::set::abc::run(); },
                        Some((_,_)) => {}
                        None => { log::warn!(\"\") }
                    }
                },
                Some((_,_)) => {}
                None => { log::warn!(\"\") }
            }
         }",
    );
    assert_eq!(expand("exec", &root), Ok(expected));
}

#[test]
fn directory_errors() {
    let no_mod = dir("command", vec![file("a.txt", "")]);
    assert_eq!(expand("exec", &no_mod), Err("Missing mod.rs with router/description".to_string()));
    let unlisted = CommandDir { name: DirName::Name("c".to_string()), listing: Err("denied".to_string()) };
    assert_eq!(expand("exec", &unlisted), Err("Failed to read command directory: denied".to_string()));
    let nameless = CommandDir { name: DirName::Missing, listing: Ok(vec![]) };
    assert_eq!(expand("exec", &nameless), Err("Invalid command directory".to_string()));
    let bad_sub = dir("c", vec![DirEntry::Directory(CommandDir { name: DirName::NotUtf8, listing: Ok(vec![]) })]);
    assert_eq!(expand("exec", &bad_sub), Err("Invalid subcommand directory".to_string()));
    let unreadable = dir("c", vec![DirEntry::File {
        is_rs: true,
        is_mod_rs: false,
        stem: Some("a".to_string()),
        content: Err("gone".to_string()),
    }]);
    assert_eq!(expand("exec", &unreadable), Err("Failed to read file: gone".to_string()));
    let entry = dir("c", vec![DirEntry::Unreadable("io".to_string())]);
    assert_eq!(expand("exec", &entry), Err("Failed to read directory entry: io".to_string()));
    let not_utf8 = CommandDir { name: DirName::NotUtf8, listing: Ok(vec![]) };
    assert_eq!(expand("exec", &not_utf8), Err("Invalid command directory name".to_string()));
    let mod_gone = dir("c", vec![DirEntry::File {
        is_rs: true,
        is_mod_rs: true,
        stem: Some("mod".to_string()),
        content: Err("gone".to_string()),
    }]);
    assert_eq!(expand("exec", &mod_gone), Err("Failed to read mod.rs file: gone".to_string()));
    let no_stem = dir("c", vec![DirEntry::File {
        is_rs: true,
        is_mod_rs: false,
        stem: None,
        content: Ok(String::new()),
    }]);
    assert_eq!(expand("exec", &no_stem), Err("Invalid file name".to_string()));
    let bad_mod = dir("c", vec![file("mod.rs", "//! router: c\n")]);
    assert_eq!(expand("exec", &bad_mod), Err("Missing //! description:".to_string()));
}

#[test]
fn a_file_error_stops_before_later_entries() {
    let root = dir("c", vec![
        file("a.rs", "//! router: a\n//! description: b\nfn x() {}\n"),
        file("mod.rs", "//! router: c\n"),
    ]);
    assert_eq!(expand("exec", &root), Err("Missing #[run] function in c::a".to_string()));
}

#[test]
fn run_attribute_keeps_the_item() {
    let ident = |s: &str| Tok::Ident(s.to_string());
    let item = vec![
        ident("fn"),
        ident("a"),
        Tok::Open(Delim::Paren),
        Tok::Close(Delim::Paren),
        Tok::Open(Delim::Brace),
        ident("b"),
        Tok::Open(Delim::Paren),
        Tok::Close(Delim::Paren),
        Tok::Punct(';', false),
        Tok::Close(Delim::Brace),
    ];
    let kept = run(Vec::new(), item);
    assert_eq!(text(&kept), norm("fn a() { b(); }"));
}

#[test]
fn identifiers_are_single_identifier_tokens() {
    assert!(is_valid_ident(&"exec".to_string()));
    assert!(is_valid_ident(&"_x1".to_string()));
    assert!(!is_valid_ident(&"a b".to_string()));
    assert!(!is_valid_ident(&"a::b".to_string()));
    assert!(!is_valid_ident(&"1a".to_string()));
    assert!(!is_valid_ident(&"r#x".to_string()));
    assert!(!is_valid_ident(&"\"x\"".to_string()));
    assert!(!is_valid_ident(&String::new()));
}

#[test]
fn error_messages() {
    assert_eq!(CommandError::ReadModFile("x".to_string()).message(), "Failed to read mod.rs file: x");
    assert_eq!(CommandError::InvalidFileName.message(), "Invalid file name");
    assert_eq!(CommandError::Syntax("bad".to_string()).message(), "bad");
}

#[test]
fn the_placeholder_word_in_a_help_reads_as_a_comma() {
    let content = "//! router: r\n//! description: d\n//! --name -n <name>, keep\\, PLACEHOLDER\n#[run]\nfn go(name: String) {}\n";
    let (command, _, _) = leaf(content, "c::r").unwrap().unwrap();
    assert_eq!(
        command,
        norm(
            "clap::Command::new(\"r\").about(\"d\")
             .arg(clap::Arg::new(\"name\").short('n').long(\"name\").value_name(\"name\").help(\"keep, ,\"))"
        )
    );
}

#[test]
fn a_function_named_run_runs_the_command_when_none_carries_the_attribute() {
    let content = "//! router: start
//! description: Start the server
//! --config -c <config>, config path (optional\\)
//! --port -p <port>, server port (optional\\, default: read by config or 1824)
//! --worker -w <worker>, worker number (optional\\, default: 4)


pub fn run(log_level: String, config: Option<String>, port: Option<String>, worker: Option<String>) {
    // your code .....
}
";
    let (command, name, call) = leaf(content, "command::start").unwrap().unwrap();
    assert_eq!(name, "start");
    assert_eq!(
        command,
        norm(
            "clap::Command::new(\"start\").about(\"Start the server\")
             .arg(clap::Arg::new(\"config\").short('c').long(\"config\").value_name(\"config\")
                  .help(\"config path (optional\\\\)\"))
             .arg(clap::Arg::new(\"port\").short('p').long(\"port\").value_name(\"port\")
                  .help(\"server port (optional, default: read by config or 1824)\"))
             .arg(clap::Arg::new(\"worker\").short('w').long(\"worker\").value_name(\"worker\")
                  .help(\"worker number (optional, default: 4)\"))"
        )
    );
    assert_eq!(
        call,
        norm(
            "command::start::run(
                sub_m.get_one :: <String>(\"log_level\").expect(\"missing required argument\").clone(),
                sub_m.get_one :: <String>(\"config\").cloned(),
                sub_m.get_one :: <String>(\"port\").cloned(),
                sub_m.get_one :: <String>(\"worker\").cloned());"
        )
    );
}

#[test]
fn the_run_attribute_is_preferred_to_the_name() {
    let content = "//! router: x\n//! description: y\nfn run() {}\n#[run]\nfn go() {}\nfn run2() {}\n";
    let (_, _, call) = leaf(content, "c::x").unwrap().unwrap();
    assert_eq!(call, norm("c::x::go();"));
    let two = "//! router: x\n//! description: y\nfn run() {}\nfn run() {}\n";
    let (_, _, call) = leaf(two, "c::x").unwrap().unwrap();
    assert_eq!(call, norm("c::x::run();"));
}

#[test]
fn keys_are_refused_only_when_syn_reserves_them() {
    assert_eq!(args("src = \"a\""), Ok(("a".to_string(), "exec_command".to_string())));
    assert_eq!(args("fn = \"a\""), Err("expected identifier, found keyword `fn`".to_string()));
    assert_eq!(args("_ = \"a\""), Err("expected identifier, found keyword `_`".to_string()));
}

#[test]
fn tokens_render_as_source_text() {
    let t = vec![
        Tok::Ident("a".to_string()),
        Tok::Punct(':', true),
        Tok::Punct(':', false),
        Tok::Open(Delim::Paren),
        Tok::Str("x".to_string()),
        Tok::Char('y'),
        Tok::Close(Delim::Paren),
    ];
    assert_eq!(render_text(&t), "a :: ( \"x\" 'y' ) ");
}

fn two_commands(reversed: bool) -> CommandDir {
    let mut entries = vec![
        file("mod.rs", "//! router: ctl\n//! description: control\n"),
        file("a.rs", "//! router: a\n//! description: first\n#[run]\npub fn run() {}\n"),
        file("b.rs", "//! router: b\n//! description: second\n#[run]\npub fn run() {}\n"),
    ];
    if reversed {
        entries.reverse();
    }
    dir("command", entries)
}

#[test]
fn listing_order_permutes_subcommands_and_arms_alike() {
    let forward = expand("exec", &two_commands(false)).unwrap();
    let backward = expand("exec", &two_commands(true)).unwrap();
    let sub_a = ".subcommand(clap::Command::new(\"a\").about(\"first\"))";
    let sub_b = ".subcommand(clap::Command::new(\"b\").about(\"second\"))";
    let arm_a = "Some((\"a\", sub_m)) => { command::a::run(); },";
    let arm_b = "Some((\"b\", sub_m)) => { command::b::run(); },";
    let code = |s1: &str, s2: &str, a1: &str, a2: &str| {
        norm(&format!(
            "pub fn build_cli() -> clap::Command {{
                clap::Command::new(\"ctl\").arg_required_else_help(true).about(\"control\") {s1} {s2}
             }}
             pub fn exec() {{
                let matches = build_cli().get_matches();
                match matches.subcommand() {{ {a1} {a2} Some((_, _)) => {{}} None => {{ log::warn!(\"\") }} }}
             }}"
        ))
    };
    assert_eq!(forward, code(sub_a, sub_b, arm_a, arm_b));
    assert_eq!(backward, code(sub_b, sub_a, arm_b, arm_a));
}

#[test]
fn entries_that_are_no_commands_change_nothing() {
    let plain = expand("exec", &two_commands(false)).unwrap();
    let mut with_extra = two_commands(false);
    if let Ok(entries) = &mut with_extra.listing {
        entries.insert(1, file("notes.txt", "anything"));
        entries.insert(3, file("helpers.rs", "//! router: h\npub fn helper() {}\n"));
        entries.push(DirEntry::Other);
    }
    assert_eq!(expand("exec", &with_extra).unwrap(), plain);
}

#[test]
fn empty_arguments_are_the_explicit_defaults() {
    assert_eq!(args(""), args("src = \"src/command\", exec_func = \"exec_command\""));
    assert_eq!(args(""), Ok(("src/command".to_string(), "exec_command".to_string())));
}

#[test]
fn an_option_of_an_option_keeps_the_inner_option() {
    let content = "//! router: x\n//! description: y\n#[run]\nfn go(a: Option<Option<u8>>, b: Vec<String>) {}\n";
    let (_, _, call) = leaf(content, "c::x").unwrap().unwrap();
    assert_eq!(
        call,
        norm(
            "c::x::go(sub_m.get_one :: <Option<u8> >(\"a\").cloned(),
                sub_m.get_many :: <String>(\"b\").expect(\"missing required argument\").cloned()
                    .collect :: <Vec<String>>());"
        )
    );
}

#[test]
fn unicode_white_space_is_trimmed() {
    let m = match parse_modfile("//! router:\u{a0}ctl\t\n//! description:\u{3000}control\u{2009}\n") {
        Ok(m) => m,
        Err(e) => panic!("{}", e.message()),
    };
    assert_eq!(m.command_name, "ctl");
    assert_eq!(m.description, "control");
}

#[test]
fn arguments_are_read_through_invisible_groups() {
    let value: TokenStream = "\"src/cmd\"".parse().expect("tokens");
    let mut item: TokenStream = "src =".parse().expect("tokens");
    item.extend([TokenTree::Group(Group::new(Delimiter::None, value))]);
    let rest: TokenStream = ", exec_func = \"go\"".parse().expect("tokens");
    item.extend(rest);
    let read = parse_token(&item).map(|a: MacroArgs| (a.src, a.exec_func)).map_err(|e| e.message());
    assert_eq!(read, Ok(("src/cmd".to_string(), "go".to_string())));
}

#[test]
fn listing_order_inside_a_subdirectory_permutes_its_subcommands() {
    let nested = |reversed: bool| {
        let mut inner = vec![
            file("mod.rs", "//! router: set\n//! description: settings\n"),
            file("a.rs", "//! router: a\n//! description: first\n#[run]\npub fn run() {}\n"),
            file("b.rs", "//! router: b\n//! description: second\n#[run]\npub fn run() {}\n"),
        ];
        if reversed {
            inner.reverse();
        }
        dir("command", vec![
            file("mod.rs", "//! router: ctl\n//! description: control\n"),
            DirEntry::Directory(dir("set", inner)),
        ])
    };
    let forward = expand("exec", &nested(false)).unwrap();
    let backward = expand("exec", &nested(true)).unwrap();
    let a = ".subcommand(clap::Command::new(\"a\").about(\"first\"))";
    let b = ".subcommand(clap::Command::new(\"b\").about(\"second\"))";
    let arm_a = "Some((\"a\", sub_m)) => { command::set::a::run(); },";
    let arm_b = "Some((\"b\", sub_m)) => { command::set::b::run(); },";
    let code = |s1: &str, s2: &str, a1: &str, a2: &str| {
        norm(&format!(
            "pub fn build_cli() -> clap::Command {{
                clap::Command::new(\"ctl\").arg_required_else_help(true).about(\"control\")
                .subcommand(clap::Command::new(\"set\").arg_required_else_help(true).about(\"settings\") {s1} {s2})
             }}
             pub fn exec() {{
                let matches = build_cli().get_matches();
                match matches.subcommand() {{
                    Some((\"set\", sub_m)) => {{
                        match sub_m.subcommand() {{ {a1} {a2} Some((_, _)) => {{}} None => {{ log::warn!(\"\") }} }}
                    }},
                    Some((_, _)) => {{}} None => {{ log::warn!(\"\") }}
                }}
             }}"
        ))
    };
    assert_eq!(forward, code(a, b, arm_a, arm_b));
    assert_eq!(backward, code(b, a, arm_b, arm_a));
}
