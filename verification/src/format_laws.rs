//! Properties of the comment format and of the run function, over all inputs.

use vstd::prelude::*;
use crate::codegen::{t_call, t_str};
use crate::commands::{command_new, spec_command_file};
use crate::header::{ArgDefV, arg_tokens, arg_type_of, option_def};
use crate::generate::DirEntry;
use crate::laws::{begins_with, built_pair, entry_built, EntryBuilt};
use crate::signature::{ArgType, first_named_run, is_named_run, is_run_attr, is_run_fn, run_fn_position,
    run_indices, spec_has_run_attr};
use crate::syntax::{Delim, ItemV, TokV};
use crate::text::{find_space, first_with_prefix, lemma_find_char_at, lemma_find_space, lines, replace, split,
    split_whitespace, starts_with, trim, trim_end_matches, trim_start, trim_start_matches, white_space};

verus! {

/// `s` ends with the tokens `p`.
pub open spec fn ends_with_toks(s: Seq<TokV>, p: Seq<TokV>) -> bool {
    p.len() <= s.len() && s.subrange(s.len() - p.len(), s.len() as int) == p
}

/// The tokens `.num_args(1..)`, which let an argument take several values.
pub open spec fn many_values() -> Seq<TokV> {
    seq![
        TokV::Punct('.', false),
        TokV::Ident("num_args"@),
        TokV::Open(Delim::Paren),
        TokV::Literal("1"@),
        TokV::Punct('.', true),
        TokV::Punct('.', false),
        TokV::Close(Delim::Paren),
    ]
}

/// The kind of the parameter called `name` is that of its last occurrence.
proof fn lemma_last_param_decides(ps: Seq<(Seq<char>, ArgType, Seq<TokV>)>, name: Seq<char>, k: int)
    requires
        0 <= k < ps.len(),
        ps[k].0 == name,
        forall|j: int| k < j < ps.len() ==> (#[trigger] ps[j]).0 != name,
    ensures
        arg_type_of(ps, name) == ps[k].1,
    decreases ps.len(),
{
    if k < ps.len() - 1 {
        assert(ps.last() == ps[ps.len() - 1]);
        let pre = ps.drop_last();
        assert forall|j: int| k < j < pre.len() implies (#[trigger] pre[j]).0 != name by {
            assert(pre[j] == ps[j]);
        }
        lemma_last_param_decides(pre, name, k);
    }
}

/// An option `//! --L -s <V>, H` whose value `V` the run function takes as a `Vec` (or as an
/// `Option` of one) takes several values: its `.arg(..)` ends with the help and then
/// `.num_args(1..)`; for a parameter of any other type it ends with the help. The parameter
/// named `V` is the last one of that name.
pub proof fn law_vec_option_takes_many_values(
    value_name: Seq<char>,
    short: char,
    long: Seq<char>,
    help: Seq<char>,
    ps: Seq<(Seq<char>, ArgType, Seq<TokV>)>,
    k: int,
)
    requires
        0 <= k < ps.len(),
        ps[k].0 == value_name,
        forall|j: int| k < j < ps.len() ==> (#[trigger] ps[j]).0 != value_name,
    ensures
        ends_with_toks(
            arg_tokens(ArgDefV::Flag { value_name, short, long, help }, ps),
            t_call("help"@, t_str(help)) + (if ps[k].1.is_vec {
                many_values()
            } else {
                seq![]
            }) + seq![TokV::Close(Delim::Paren)],
        ),
{
    lemma_last_param_decides(ps, value_name, k);
    reveal_strlit("num_args");
    reveal_strlit("1");
    let t = arg_tokens(ArgDefV::Flag { value_name, short, long, help }, ps);
    let suffix = t_call("help"@, t_str(help)) + (if ps[k].1.is_vec {
        many_values()
    } else {
        seq![]
    }) + seq![TokV::Close(Delim::Paren)];
    assert(t.subrange(t.len() - suffix.len(), t.len() as int) =~= suffix);
}

/// A positional argument `<V>` or `[V]` (with or without a default and help) whose value the
/// run function takes as a `Vec` takes several values: its `.arg(..)` ends with the help and
/// then `.num_args(1..)`; for a parameter of any other type it ends with the help.
pub proof fn law_vec_positional_takes_many_values(
    name: Seq<char>,
    required: bool,
    default: Option<Seq<char>>,
    help: Seq<char>,
    ps: Seq<(Seq<char>, ArgType, Seq<TokV>)>,
    k: int,
)
    requires
        0 <= k < ps.len(),
        ps[k].0 == name,
        forall|j: int| k < j < ps.len() ==> (#[trigger] ps[j]).0 != name,
    ensures
        ends_with_toks(
            arg_tokens(ArgDefV::Positional { name, required, default, help }, ps),
            t_call("help"@, t_str(help)) + (if ps[k].1.is_vec {
                many_values()
            } else {
                seq![]
            }) + seq![TokV::Close(Delim::Paren)],
        ),
{
    lemma_last_param_decides(ps, name, k);
    reveal_strlit("num_args");
    reveal_strlit("1");
    let t = arg_tokens(ArgDefV::Positional { name, required, default, help }, ps);
    let suffix = t_call("help"@, t_str(help)) + (if ps[k].1.is_vec {
        many_values()
    } else {
        seq![]
    }) + seq![TokV::Close(Delim::Paren)];
    assert(t.subrange(t.len() - suffix.len(), t.len() as int) =~= suffix);
}

/// The command name of a command module is the trimmed text after `//! router:` on its first
/// router line, whatever the module path: its `clap::Command` is made under that name, and
/// two module paths give the same name.
pub proof fn law_command_named_by_router_line(content: Seq<char>, p1: Seq<char>, p2: Seq<char>)
    ensures
        spec_command_file(content, p1) matches Ok(Some((command, name, _))) ==> {
            &&& first_with_prefix(lines(content), "//! router:"@) matches Some(line)
            &&& name == trim(trim_start_matches(line, "//! router:"@))
            &&& begins_with(command, command_new(name))
        },
        spec_command_file(content, p1) matches Ok(Some((_, n1, _))) ==> (spec_command_file(
            content,
            p2,
        ) matches Ok(Some((_, n2, _))) ==> n1 == n2),
{
    if let Ok(Some((command, name, _))) = spec_command_file(content, p1) {
        assert(command.subrange(0, command_new(name).len() as int) =~= command_new(name));
    }
}

/// Whether some attribute of `attrs`, at any position, is the bare path `run`.
pub open spec fn run_among(attrs: Seq<Option<Seq<char>>>) -> bool {
    exists|j: int| 0 <= j < attrs.len() && attrs[j] == Some("run"@)
}

/// Which functions carry `#[run]` and which are named `run` decides the position.
proof fn lemma_same_marks(items1: Seq<ItemV>, items2: Seq<ItemV>)
    requires
        items1.len() == items2.len(),
        forall|m: int| 0 <= m < items1.len() ==> is_run_fn(#[trigger] items1[m]) == is_run_fn(items2[m])
            && is_named_run(items1[m]) == is_named_run(items2[m]),
    ensures
        run_indices(items1) == run_indices(items2),
        first_named_run(items1) == first_named_run(items2),
    decreases items1.len(),
{
    if items1.len() > 0 {
        let (a, b) = (items1.drop_last(), items2.drop_last());
        assert forall|m: int| 0 <= m < a.len() implies is_run_fn(#[trigger] a[m]) == is_run_fn(b[m])
            && is_named_run(a[m]) == is_named_run(b[m]) by {
            assert(a[m] == items1[m]);
            assert(b[m] == items2[m]);
        }
        lemma_same_marks(a, b);
        assert(items1.last() == items1[items1.len() - 1]);
        assert(items2.last() == items2[items2.len() - 1]);
    }
}

/// Other attributes do not hide `#[run]`, nor stand for it: adding an attribute that is not
/// `run`, before or after the others, to one of the functions of a module never changes which
/// function runs the command, nor the error when none or several do.
pub proof fn law_other_attributes_change_nothing(
    items: Seq<ItemV>,
    i: int,
    k: int,
    a: Option<Seq<char>>,
    path: Seq<char>,
)
    requires
        0 <= i < items.len(),
        items[i] is Function,
        0 <= k <= items[i]->Function_attributes.len(),
        a != Some("run"@),
    ensures
        run_fn_position(
            items.update(
                i,
                ItemV::Function {
                    attributes: items[i]->Function_attributes.insert(k, a),
                    name: items[i]->Function_name,
                    params: items[i]->Function_params,
                },
            ),
            path,
        ) == run_fn_position(items, path),
{
    let attrs = items[i]->Function_attributes;
    let more = attrs.insert(k, a);
    let items2 = items.update(
        i,
        ItemV::Function { attributes: more, name: items[i]->Function_name, params: items[i]->Function_params },
    );
    assert(spec_has_run_attr(more) == spec_has_run_attr(attrs)) by {
        if spec_has_run_attr(attrs) {
            let j = choose|j: int| 0 <= j < attrs.len() && is_run_attr(#[trigger] attrs[j]);
            if j < k {
                assert(more[j] == attrs[j]);
            } else {
                assert(more[j + 1] == attrs[j]);
            }
        }
        if spec_has_run_attr(more) {
            let j = choose|j: int| 0 <= j < more.len() && is_run_attr(#[trigger] more[j]);
            if j < k {
                assert(more[j] == attrs[j]);
            } else if j > k {
                assert(more[j] == attrs[j - 1]);
            }
        }
    }
    assert forall|m: int| 0 <= m < items.len() implies is_run_fn(#[trigger] items[m]) == is_run_fn(items2[m])
        && is_named_run(items[m]) == is_named_run(items2[m]) by {
        if m != i {
            assert(items2[m] == items[m]);
        }
    }
    lemma_same_marks(items, items2);
}

/// The runs among the first `n` items.
proof fn lemma_only_run(items: Seq<ItemV>, i: int)
    requires
        0 <= i < items.len(),
        is_run_fn(items[i]),
        forall|m: int| 0 <= m < items.len() && m != i ==> !is_run_fn(#[trigger] items[m]),
    ensures
        run_indices(items) == seq![i],
    decreases items.len(),
{
    let pre = items.drop_last();
    assert forall|m: int| 0 <= m < pre.len() && m != i implies !is_run_fn(#[trigger] pre[m]) by {
        assert(pre[m] == items[m]);
    }
    assert(items.last() == items[items.len() - 1]);
    if i < items.len() - 1 {
        assert(pre[i] == items[i]);
        lemma_only_run(pre, i);
    } else {
        lemma_no_run(pre);
    }
}

proof fn lemma_no_run(items: Seq<ItemV>)
    requires
        forall|m: int| 0 <= m < items.len() ==> !is_run_fn(#[trigger] items[m]),
    ensures
        run_indices(items) == Seq::<int>::empty(),
    decreases items.len(),
{
    if items.len() > 0 {
        let pre = items.drop_last();
        assert forall|m: int| 0 <= m < pre.len() implies !is_run_fn(#[trigger] pre[m]) by {
            assert(pre[m] == items[m]);
        }
        assert(items.last() == items[items.len() - 1]);
        lemma_no_run(pre);
    }
}

/// The function that carries `#[run]`, at any position among its attributes, runs the
/// command when no other function carries it.
pub proof fn law_run_attribute_anywhere_marks_the_function(items: Seq<ItemV>, i: int, path: Seq<char>)
    requires
        0 <= i < items.len(),
        items[i] matches ItemV::Function { attributes, .. } && run_among(attributes),
        forall|m: int|
            0 <= m < items.len() && m != i ==> !((#[trigger] items[m]) matches ItemV::Function {
                attributes,
                ..
            } && run_among(attributes)),
    ensures
        run_fn_position(items, path) == Ok::<int, crate::errors::ErrorV>(i),
{
    let attrs = items[i]->Function_attributes;
    let j = choose|j: int| 0 <= j < attrs.len() && attrs[j] == Some("run"@);
    assert(is_run_attr(attrs[j]));
    assert forall|m: int| 0 <= m < items.len() && m != i implies !is_run_fn(#[trigger] items[m]) by {
        if is_run_fn(items[m]) {
            let at = items[m]->Function_attributes;
            let j2 = choose|j2: int| 0 <= j2 < at.len() && is_run_attr(#[trigger] at[j2]);
            assert(run_among(at));
        }
    }
    lemma_only_run(items, i);
}


/// A word with no white space, comma or backslash.
pub open spec fn plain_word(w: Seq<char>) -> bool {
    forall|j: int| 0 <= j < w.len() ==> !white_space(#[trigger] w[j]) && w[j] != ',' && w[j] != '\\'
}

/// The option line `//! --L -S <V>, H`.
pub open spec fn option_line(l: Seq<char>, s: Seq<char>, v: Seq<char>, h: Seq<char>) -> Seq<char> {
    "//! "@ + (seq!['-', '-'] + l) + seq![' '] + (seq!['-'] + s) + seq![' '] + (seq!['<'] + v + seq!['>'])
        + seq![',', ' '] + h
}

proof fn lemma_trim_prefix_once(p: Seq<char>, r: Seq<char>)
    requires
        p.len() > 0,
        !starts_with(r, p),
    ensures
        trim_start_matches(p + r, p) == r,
{
    assert((p + r).subrange(0, p.len() as int) =~= p);
    assert((p + r).skip(p.len() as int) =~= r);
    assert(trim_start_matches(r, p) == r);
}

proof fn lemma_replace_absent(s: Seq<char>, from: Seq<char>, to: Seq<char>)
    requires
        forall|j: int| 0 <= j <= s.len() ==> !starts_with(#[trigger] s.skip(j), from),
    ensures
        replace(s, from, to) == s,
    decreases s.len(),
{
    if s.len() > 0 {
        assert(s.skip(0) =~= s);
        let rest = s.drop_first();
        assert forall|j: int| 0 <= j <= rest.len() implies !starts_with(#[trigger] rest.skip(j), from) by {
            assert(rest.skip(j) =~= s.skip(j + 1));
        }
        lemma_replace_absent(rest, from, to);
        assert(seq![s[0]] + rest =~= s);
    }
}

/// Text whose characters are not `c` has no occurrence of anything that begins with `c`.
proof fn lemma_absent_by_first(s: Seq<char>, p: Seq<char>, c: char)
    requires
        p.len() > 0,
        p[0] == c,
        forall|j: int| 0 <= j < s.len() ==> s[j] != c,
    ensures
        forall|j: int| 0 <= j <= s.len() ==> !starts_with(#[trigger] s.skip(j), p),
{
    assert forall|j: int| 0 <= j <= s.len() implies !starts_with(#[trigger] s.skip(j), p) by {
        if starts_with(s.skip(j), p) {
            assert(s.skip(j).subrange(0, p.len() as int)[0] == p[0]);
            assert(s.skip(j)[0] == s[j]);
        }
    }
}

proof fn lemma_split_at_one(a: Seq<char>, b: Seq<char>, c: char)
    requires
        forall|j: int| 0 <= j < a.len() ==> a[j] != c,
        forall|j: int| 0 <= j < b.len() ==> b[j] != c,
    ensures
        split(a + seq![c] + b, c) == seq![a, b],
{
    let s = a + seq![c] + b;
    assert forall|j: int| 0 <= j < a.len() implies s[j] != c by {
        assert(s[j] == a[j]);
    }
    lemma_find_char_at(s, c, a.len() as int);
    assert(s.take(a.len() as int) =~= a);
    assert(s.skip(a.len() as int + 1) =~= b);
    lemma_find_char_at(b, c, b.len() as int);
    assert(split(b, c) == seq![b]);
    assert(seq![a] + seq![b] =~= seq![a, b]);
}

proof fn lemma_find_space_at(s: Seq<char>, k: int)
    requires
        0 <= k <= s.len(),
        forall|j: int| 0 <= j < k ==> !white_space(#[trigger] s[j]),
        k < s.len() ==> white_space(s[k]),
    ensures
        find_space(s) == k,
{
    lemma_find_space(s);
}

proof fn lemma_words_first(w: Seq<char>, sp: char, rest: Seq<char>)
    requires
        w.len() > 0,
        forall|j: int| 0 <= j < w.len() ==> !white_space(#[trigger] w[j]),
        white_space(sp),
    ensures
        split_whitespace(w + seq![sp] + rest) == seq![w] + split_whitespace(rest),
{
    let s = w + seq![sp] + rest;
    assert(s[0] == w[0]);
    assert forall|j: int| 0 <= j < w.len() implies !white_space(#[trigger] s[j]) by {
        assert(s[j] == w[j]);
    }
    assert(s[w.len() as int] == sp);
    lemma_find_space_at(s, w.len() as int);
    assert(s.take(w.len() as int) =~= w);
    let t = s.skip(w.len() as int);
    assert(t[0] == sp);
    assert(t.drop_first() =~= rest);
    assert(t.len() > 0);
    assert(split_whitespace(t) == split_whitespace(rest));
    assert(find_space(s) == w.len());
    assert(split_whitespace(s) == seq![s.take(w.len() as int)] + split_whitespace(t));
}

proof fn lemma_words_one(w: Seq<char>)
    requires
        w.len() > 0,
        forall|j: int| 0 <= j < w.len() ==> !white_space(#[trigger] w[j]),
    ensures
        split_whitespace(w) == seq![w],
{
    lemma_find_space_at(w, w.len() as int);
    assert(w.take(w.len() as int) =~= w);
    assert(w.skip(w.len() as int) =~= Seq::<char>::empty());
    assert(seq![w] + Seq::<Seq<char>>::empty() =~= seq![w]);
    assert(split_whitespace(Seq::<char>::empty()) =~= Seq::<Seq<char>>::empty());
    assert(w[0] == w[0] && !white_space(w[0]));
    assert(find_space(w) == w.len());
    assert(split_whitespace(w) == seq![w.take(w.len() as int)] + split_whitespace(w.skip(w.len() as int)));
}

/// An option line `//! --L -S <V>, H` describes the flag `--L` with the short flag `S`, the
/// value `V` and the help `H`: the long flag is the first word without its `--`, the value
/// the third word without its angle brackets, and the one does not depend on the other. The
/// words have no white space, comma or backslash, `L` does not itself begin with `--`, `S`
/// is not empty and does not begin with `-`, `V` is not itself wrapped in angle brackets, and
/// the help, trimmed and without commas or backslashes, holds no `PLACEHOLDER`.
pub proof fn law_option_line_fields(l: Seq<char>, s: Seq<char>, v: Seq<char>, h: Seq<char>)
    requires
        plain_word(l),
        plain_word(s),
        plain_word(v),
        !starts_with(l, seq!['-', '-']),
        s.len() > 0,
        s[0] != '-',
        v.len() > 0 ==> v[0] != '<' && v.last() != '>',
        h.len() > 0,
        !white_space(h[0]),
        !white_space(h.last()),
        forall|j: int| 0 <= j < h.len() ==> h[j] != ',' && h[j] != '\\',
        forall|j: int| 0 <= j <= h.len() ==> !starts_with(#[trigger] h.skip(j), "PLACEHOLDER"@),
    ensures
        option_def(option_line(l, s, v, h)) == Ok::<Option<ArgDefV>, crate::errors::ErrorV>(
            Some(ArgDefV::Flag { value_name: v, short: s[0], long: l, help: h }),
        ),
{
    reveal_strlit("//! ");
    reveal_strlit("--");
    reveal_strlit("\\,");
    reveal_strlit("PLACEHOLDER");
    reveal_strlit(",");
    let w1 = seq!['-', '-'] + l;
    let w2 = seq!['-'] + s;
    let w3 = seq!['<'] + v + seq!['>'];
    let head = w1 + seq![' '] + w2 + seq![' '] + w3;
    let rest = head + seq![',', ' '] + h;
    let line = option_line(l, s, v, h);
    assert(line =~= "//! "@ + rest);
    // The prefix `//! ` goes once: what follows begins with `-`.
    assert(rest[0] == '-');
    if starts_with(rest, "//! "@) {
        assert(rest.subrange(0, 4)[0] == '/');
    }
    lemma_trim_prefix_once("//! "@, rest);
    // Nothing to trim: `rest` begins with `-` and ends with the last character of the help.
    assert(rest.last() == h.last());
    assert(trim(rest) == rest);
    // No backslash, so no escaped comma.
    assert forall|j: int| 0 <= j < rest.len() implies rest[j] != '\\' by {
        if j < w1.len() {
            assert(rest[j] == w1[j]);
            if j >= 2 {
                assert(w1[j] == l[j - 2]);
            }
        } else if j >= head.len() + 2 {
            assert(rest[j] == h[j - head.len() - 2]);
        } else if j >= w1.len() + 1 && j < w1.len() + 1 + w2.len() {
            assert(rest[j] == w2[j - w1.len() - 1]);
            if j > w1.len() + 1 {
                assert(w2[j - w1.len() - 1] == s[j - w1.len() - 2]);
            }
        } else if j >= w1.len() + 2 + w2.len() && j < head.len() {
            assert(rest[j] == w3[j - w1.len() - 2 - w2.len()]);
            let m = j - w1.len() - 2 - w2.len();
            if m > 0 && m < w3.len() - 1 {
                assert(w3[m] == v[m - 1]);
            }
        }
    }
    lemma_absent_by_first(rest, "\\,"@, '\\');
    lemma_replace_absent(rest, "\\,"@, "PLACEHOLDER"@);
    // One comma: the words before it, the help after it.
    let tail = seq![' '] + h;
    assert(rest =~= head + seq![','] + tail);
    assert forall|j: int| 0 <= j < head.len() implies head[j] != ',' by {
        if j < w1.len() {
            assert(head[j] == w1[j]);
            if j >= 2 {
                assert(w1[j] == l[j - 2]);
            }
        } else if j >= w1.len() + 1 && j < w1.len() + 1 + w2.len() {
            assert(head[j] == w2[j - w1.len() - 1]);
            if j > w1.len() + 1 {
                assert(w2[j - w1.len() - 1] == s[j - w1.len() - 2]);
            }
        } else if j >= w1.len() + 2 + w2.len() {
            assert(head[j] == w3[j - w1.len() - 2 - w2.len()]);
            let m = j - w1.len() - 2 - w2.len();
            if m > 0 && m < w3.len() - 1 {
                assert(w3[m] == v[m - 1]);
            }
        }
    }
    assert forall|j: int| 0 <= j < tail.len() implies tail[j] != ',' by {
        if j > 0 {
            assert(tail[j] == h[j - 1]);
        }
    }
    lemma_split_at_one(head, tail, ',');
    // Three words.
    assert(white_space(' ')) by {
        assert(' ' as u32 == 0x20);
    }
    assert forall|j: int| 0 <= j < w1.len() implies !white_space(#[trigger] w1[j]) by {
        if j >= 2 {
            assert(w1[j] == l[j - 2]);
        } else {
            assert(w1[j] == '-');
            assert('-' as u32 == 0x2D);
        }
    }
    assert forall|j: int| 0 <= j < w2.len() implies !white_space(#[trigger] w2[j]) by {
        if j >= 1 {
            assert(w2[j] == s[j - 1]);
        } else {
            assert('-' as u32 == 0x2D);
        }
    }
    assert forall|j: int| 0 <= j < w3.len() implies !white_space(#[trigger] w3[j]) by {
        if j >= 1 && j < w3.len() - 1 {
            assert(w3[j] == v[j - 1]);
        } else if j == 0 {
            assert(w3[j] == '<');
            assert('<' as u32 == 0x3C);
        } else {
            assert(w3[j] == '>');
            assert('>' as u32 == 0x3E);
        }
    }
    assert(head =~= w1 + seq![' '] + (w2 + seq![' '] + w3));
    lemma_words_first(w1, ' ', w2 + seq![' '] + w3);
    lemma_words_first(w2, ' ', w3);
    lemma_words_one(w3);
    assert(split_whitespace(head) =~= seq![w1, w2, w3]);
    // The long flag, the short flag and the value.
    assert("--"@ =~= seq!['-', '-']);
    assert(!starts_with(l, "--"@));
    lemma_trim_prefix_once("--"@, l);
    assert(w1 =~= "--"@ + l);
    if starts_with(s, seq!['-']) {
        assert(s.subrange(0, 1)[0] == s[0]);
    }
    lemma_trim_prefix_once(seq!['-'], s);
    let v2 = v + seq!['>'];
    if starts_with(v2, seq!['<']) {
        assert(v2.subrange(0, 1)[0] == v2[0]);
        if v.len() > 0 {
            assert(v2[0] == v[0]);
        }
    }
    assert(w3 =~= seq!['<'] + v2);
    lemma_trim_prefix_once(seq!['<'], v2);
    assert(v2.drop_last() =~= v);
    if v.len() > 0 {
        assert(v.last() != '>');
    }
    assert(trim_end_matches(v2, '>') == trim_end_matches(v, '>'));
    assert(trim_end_matches(v, '>') == v);
    // The help.
    assert(tail.drop_first() =~= h);
    assert(trim_start(tail) == trim_start(h));
    assert(trim(tail) == h);
    lemma_replace_absent(h, "PLACEHOLDER"@, ","@);
}


/// In a directory, a command module is both registered and dispatched under the trimmed text
/// after its first `//! router:` line: its subcommand is made under that name, and its match
/// arm matches that name.
pub proof fn law_command_module_dispatched_by_router_name(e: DirEntry, now: Seq<char>)
    requires
        e is File,
    ensures
        entry_built(e, now) matches Ok(EntryBuilt::Sub(b)) ==> {
            &&& e->File_content matches Ok(text)
            &&& first_with_prefix(lines(text@), "//! router:"@) matches Some(line)
            &&& built_pair(b).1.0 == trim(trim_start_matches(line, "//! router:"@))
            &&& begins_with(built_pair(b).0, command_new(built_pair(b).1.0))
        },
{
    if let Ok(EntryBuilt::Sub(b)) = entry_built(e, now) {
        if let DirEntry::File { is_rs, is_mod_rs, stem, content } = e {
            if let (Ok(text), Some(file_stem)) = (content, stem) {
                law_command_named_by_router_line(text@, now + "::"@ + file_stem@, now + "::"@ + file_stem@);
            }
        }
    }
}

} // verus!
