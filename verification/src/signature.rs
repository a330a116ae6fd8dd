//! The function that runs a command (the one that carries `#[run]`, or else the one named
//! `run`), and what its parameters ask of the command line.

use vstd::prelude::*;
use vstd::string::StringExecFns;
use crate::errors::{CommandError, ErrorV};
use crate::codegen::{t_call, t_lit, t_pp, call, cat, lit, pp};
use crate::syntax::{Tok, TokV, toks, TopItem, ItemV, items_v, item_v, opt_str, Param, ParamV, params_v,
    param_v, TypeShape, shape_v, type_shape, shape_of, tokens_of, stream_toks};

verus! {

/// Whether a parameter is an `Option` and whether it holds a `Vec`.
#[derive(Clone, Copy, Debug, PartialEq, Eq, Structural)]
pub struct ArgType {
    pub is_option: bool,
    pub is_vec: bool,
}

impl ArgType {
    /// A parameter that is neither an `Option` nor a `Vec`.
    pub fn plain() -> (t: ArgType)
        ensures
            t == (ArgType { is_option: false, is_vec: false }),
    {
        ArgType { is_option: false, is_vec: false }
    }
}

/// The tokens `.num_args(1..)` for a `Vec`, which lets an argument take several values.
pub open spec fn num_args_spec(t: ArgType) -> Seq<TokV> {
    if t.is_vec {
        t_call("num_args"@, t_lit("1"@) + t_pp('.', '.'))
    } else {
        seq![]
    }
}

impl ArgType {
    /// The tokens `.num_args(1..)` for a `Vec`, and nothing otherwise.
    pub fn num_args_tokens(self) -> (r: Vec<Tok>)
        ensures
            toks(r@) == num_args_spec(self),
    {
        if self.is_vec {
            call("num_args", cat(lit("1"), pp('.', '.')))
        } else {
            Vec::new()
        }
    }
}

/// A parameter of the `#[run]` function: its name, its kind, and the type of the values that
/// the command line hands it.
pub struct RunParam {
    pub name: String,
    pub kind: ArgType,
    pub inner: Vec<Tok>,
}

/// Whether an attribute path is the single identifier `run`.
pub open spec fn is_run_attr(a: Option<Seq<char>>) -> bool {
    a == Some("run"@)
}

/// Whether some attribute is `#[run]`.
pub open spec fn spec_has_run_attr(attrs: Seq<Option<Seq<char>>>) -> bool {
    exists|j: int| 0 <= j < attrs.len() && is_run_attr(#[trigger] attrs[j])
}

/// Whether an item is a function that carries `#[run]`.
pub open spec fn is_run_fn(item: ItemV) -> bool {
    item matches ItemV::Function { attributes, .. } && spec_has_run_attr(attributes)
}

/// Whether an item is a function named `run`.
pub open spec fn is_named_run(item: ItemV) -> bool {
    item matches ItemV::Function { name, .. } && name == "run"@
}

/// The positions of the `#[run]` functions among `items`, in order.
pub open spec fn run_indices(items: Seq<ItemV>) -> Seq<int>
    decreases items.len(),
{
    if items.len() == 0 {
        seq![]
    } else if is_run_fn(items.last()) {
        run_indices(items.drop_last()).push(items.len() - 1)
    } else {
        run_indices(items.drop_last())
    }
}

/// The position of the first function named `run` among `items`.
pub open spec fn first_named_run(items: Seq<ItemV>) -> Option<int>
    decreases items.len(),
{
    if items.len() == 0 {
        None
    } else if first_named_run(items.drop_last()) is Some {
        first_named_run(items.drop_last())
    } else if is_named_run(items.last()) {
        Some(items.len() - 1)
    } else {
        None
    }
}

/// The position of the function that runs the command: the one function that carries
/// `#[run]`; when none does, the first function named `run`; otherwise the error for none or
/// several.
pub open spec fn run_fn_position(items: Seq<ItemV>, path: Seq<char>) -> Result<int, ErrorV> {
    let r = run_indices(items);
    if r.len() > 1 {
        Err(ErrorV::MultipleRunFunctions(path))
    } else if r.len() == 1 {
        Ok(r[0])
    } else {
        match first_named_run(items) {
            Some(k) => Ok(k),
            None => Err(ErrorV::MissingRunFunction(path)),
        }
    }
}

/// Whether some attribute path is the single identifier `run`.
pub fn has_run_attr(attrs: &Vec<Option<String>>) -> (b: bool)
    ensures
        b == spec_has_run_attr(attrs@.map_values(|a: Option<String>| opt_str(a))),
{
    let ghost av = attrs@.map_values(|a: Option<String>| opt_str(a));
    let run = String::from_str("run");
    let mut j: usize = 0;
    while j < attrs.len()
        invariant
            j <= attrs.len(),
            run@ == "run"@,
            av == attrs@.map_values(|a: Option<String>| opt_str(a)),
            forall|k: int| 0 <= k < j ==> !is_run_attr(#[trigger] av[k]),
        decreases attrs.len() - j,
    {
        assert(av[j as int] == opt_str(attrs@[j as int]));
        if let Some(s) = &attrs[j] {
            if *s == run {
                assert(is_run_attr(av[j as int]));
                return true;
            }
        }
        j = j + 1;
    }
    false
}

fn name_is_run(name: &String) -> (b: bool)
    ensures
        b == (name@ == "run"@),
{
    let run = String::from_str("run");
    *name == run
}

/// The position that `run_fn_position` gives is that of a function.
pub proof fn lemma_run_position_in_range(items: Seq<ItemV>, path: Seq<char>)
    ensures
        run_fn_position(items, path) matches Ok(i) ==> 0 <= i < items.len() && items[i] is Function,
{
    lemma_run_indices_range(items);
    lemma_first_named_run(items);
}

proof fn lemma_first_named_run(items: Seq<ItemV>)
    ensures
        first_named_run(items) matches Some(k) ==> 0 <= k < items.len() && is_named_run(items[k]),
    decreases items.len(),
{
    if items.len() > 0 {
        lemma_first_named_run(items.drop_last());
        if let Some(k) = first_named_run(items.drop_last()) {
            assert(items[k] == items.drop_last()[k]);
        }
    }
}

proof fn lemma_run_indices_range(items: Seq<ItemV>)
    ensures
        forall|k: int|
            0 <= k < run_indices(items).len() ==> 0 <= #[trigger] run_indices(items)[k] < items.len()
                && is_run_fn(items[run_indices(items)[k]]),
    decreases items.len(),
{
    if items.len() > 0 {
        lemma_run_indices_range(items.drop_last());
        let r = run_indices(items.drop_last());
        assert forall|k: int| 0 <= k < run_indices(items).len() implies 0 <= #[trigger] run_indices(
            items,
        )[k] < items.len() && is_run_fn(items[run_indices(items)[k]]) by {
            if k < r.len() {
                assert(run_indices(items)[k] == r[k]);
                assert(items[r[k]] == items.drop_last()[r[k]]);
            }
        }
    }
}

/// Finds the function that runs the command among `items`: the one that carries `#[run]`,
/// or else the first named `run`; `path` names the module in the errors.
pub fn find_run_fn(items: &Vec<TopItem>, path: &String) -> (r: Result<usize, CommandError>)
    ensures
        r matches Ok(i) ==> run_fn_position(items_v(items@), path@) == Ok::<int, ErrorV>(i as int),
        r matches Err(e) ==> run_fn_position(items_v(items@), path@) == Err::<int, ErrorV>(e@),
{
    let ghost iv = items_v(items@);
    let mut found: Option<usize> = None;
    let mut named: Option<usize> = None;
    let mut i: usize = 0;
    while i < items.len()
        invariant
            i <= items.len(),
            iv == items_v(items@),
            run_indices(iv.take(i as int)) == match found {
                Some(f) => seq![f as int],
                None => Seq::<int>::empty(),
            },
            first_named_run(iv.take(i as int)) == match named {
                Some(k) => Some(k as int),
                None => None::<int>,
            },
        decreases items.len() - i,
    {
        let (is_run, is_named) = match &items[i] {
            TopItem::Function { attributes, name, .. } => (has_run_attr(attributes), name_is_run(name)),
            TopItem::Other => (false, false),
        };
        proof {
            assert(iv.take(i + 1).drop_last() =~= iv.take(i as int));
            assert(iv.take(i + 1).last() == item_v(items@[i as int]));
        }
        if is_run {
            if found.is_some() {
                proof {
                    assert(run_indices(iv.take(i + 1)).len() == 2);
                    lemma_prefix_runs(iv, i as int + 1);
                }
                return Err(CommandError::MultipleRunFunctions(path.clone()));
            }
            found = Some(i);
        }
        if is_named && named.is_none() {
            named = Some(i);
        }
        i = i + 1;
    }
    assert(iv.take(items.len() as int) =~= iv);
    match found {
        Some(f) => Ok(f),
        None => match named {
            Some(k) => Ok(k),
            None => Err(CommandError::MissingRunFunction(path.clone())),
        },
    }
}

/// The runs of a prefix are a prefix of the runs.
proof fn lemma_prefix_runs(items: Seq<ItemV>, n: int)
    requires
        0 <= n <= items.len(),
    ensures
        run_indices(items.take(n)).len() <= run_indices(items).len(),
    decreases items.len() - n,
{
    if n < items.len() {
        lemma_prefix_runs(items, n + 1);
        assert(items.take(n + 1).drop_last() =~= items.take(n));
    } else {
        assert(items.take(n) =~= items);
    }
}

/// The shape of a type seen as a mathematical value.
pub open spec fn shape_opt_v(shape: Option<TypeShape>) -> Option<(Option<Seq<char>>, Option<Seq<TokV>>)> {
    match shape {
        Some(sh) => Some(shape_v(sh)),
        None => None,
    }
}

/// Given the shape of the type `ty`, whether it is a `Vec` and the type of the values it holds
/// (`ty` itself if it is not one).
pub open spec fn vec_of_shape(
    ty: Seq<TokV>,
    shape: Option<(Option<Seq<char>>, Option<Seq<TokV>>)>,
) -> (bool, Seq<TokV>) {
    match shape {
        Some((Some(h), Some(a))) => if h == "Vec"@ {
            (true, a)
        } else {
            (false, ty)
        },
        _ => (false, ty),
    }
}

/// Whether the type `ty` is a `Vec`, and the type of the values it holds.
pub open spec fn spec_normalize_vec_type(ty: Seq<TokV>) -> (bool, Seq<TokV>) {
    vec_of_shape(ty, shape_of(ty))
}

/// Given the shape of the type `ty`, its kind and the type of the values it is made of: for
/// `Option<A>`, whether `A` is a `Vec` and the type of its values; otherwise whether `ty` is a
/// `Vec` and the type of its values.
pub open spec fn normalize_with_shape(
    ty: Seq<TokV>,
    shape: Option<(Option<Seq<char>>, Option<Seq<TokV>>)>,
) -> (ArgType, Seq<TokV>) {
    let (v, inner) = spec_normalize_vec_type(ty);
    let plain = (ArgType { is_option: false, is_vec: v }, inner);
    match shape {
        Some((Some(h), Some(a))) => if h == "Option"@ {
            let (v, inner) = spec_normalize_vec_type(a);
            (ArgType { is_option: true, is_vec: v }, inner)
        } else {
            plain
        },
        _ => plain,
    }
}

/// The kind of the type `ty` and the type of the values it is made of: `Option<Vec<T>>`,
/// `Option<T>`, `Vec<T>` and `T` give `T`.
pub open spec fn spec_normalize_type(ty: Seq<TokV>) -> (ArgType, Seq<TokV>) {
    normalize_with_shape(ty, shape_of(ty))
}

/// Given the shape of the type `ty`, whether it is a `Vec` and the type of its values.
pub fn vec_from_shape(ty: &proc_macro2::TokenStream, shape: Option<TypeShape>) -> (r: (bool, Vec<Tok>))
    ensures
        (r.0, toks(r.1@)) == vec_of_shape(stream_toks(*ty), shape_opt_v(shape)),
{
    match shape {
        Some(TypeShape { head: Some(h), first_type_arg: Some(a) }) => {
            if h == String::from_str("Vec") {
                return (true, tokens_of(&a));
            }
        },
        _ => {},
    }
    (false, tokens_of(ty))
}

/// Whether the type `ty` is a `Vec`, and the type of the values it holds.
pub fn normalize_vec_type(ty: &proc_macro2::TokenStream) -> (r: (bool, Vec<Tok>))
    ensures
        (r.0, toks(r.1@)) == spec_normalize_vec_type(stream_toks(*ty)),
{
    let shape = type_shape(ty);
    vec_from_shape(ty, shape)
}

/// Given the shape of the type `ty`, its kind and the type of the values it is made of.
pub fn normalize_from_shape(ty: &proc_macro2::TokenStream, shape: Option<TypeShape>) -> (r: (ArgType, Vec<Tok>))
    ensures
        (r.0, toks(r.1@)) == normalize_with_shape(stream_toks(*ty), shape_opt_v(shape)),
{
    match shape {
        Some(TypeShape { head: Some(h), first_type_arg: Some(a) }) => {
            if h == String::from_str("Option") {
                let (v, inner) = normalize_vec_type(&a);
                return (ArgType { is_option: true, is_vec: v }, inner);
            }
        },
        _ => {},
    }
    let (v, inner) = normalize_vec_type(ty);
    (ArgType { is_option: false, is_vec: v }, inner)
}

/// The kind of the type `ty` and the type of the values it is made of.
pub fn normalize_type(ty: &proc_macro2::TokenStream) -> (r: (ArgType, Vec<Tok>))
    ensures
        (r.0, toks(r.1@)) == spec_normalize_type(stream_toks(*ty)),
{
    let shape = type_shape(ty);
    normalize_from_shape(ty, shape)
}

/// A parameter of the `#[run]` function seen as a mathematical value.
pub open spec fn param_view(p: RunParam) -> (Seq<char>, ArgType, Seq<TokV>) {
    (p.name@, p.kind, toks(p.inner@))
}

/// The parameters of the `#[run]` function seen as mathematical values.
pub open spec fn params_view(ps: Seq<RunParam>) -> Seq<(Seq<char>, ArgType, Seq<TokV>)> {
    ps.map_values(|p: RunParam| param_view(p))
}

/// The parameters that a `#[run]` function hands on to the command line, in order; the
/// first parameter that is `self` or not bound to an identifier is an error.
pub open spec fn spec_run_params(ps: Seq<ParamV>) -> Result<
    Seq<(Seq<char>, ArgType, Seq<TokV>)>,
    ErrorV,
>
    decreases ps.len(),
{
    if ps.len() == 0 {
        Ok(seq![])
    } else {
        match ps[0] {
            ParamV::Receiver => Err(ErrorV::SelfParameter),
            ParamV::Typed { binding, ty } => match binding {
                None => Err(ErrorV::NonIdentParameter),
                Some(n) => match spec_run_params(ps.drop_first()) {
                    Ok(rest) => {
                        let (k, inner) = spec_normalize_type(ty);
                        Ok(seq![(n, k, inner)] + rest)
                    },
                    Err(e) => Err(e),
                },
            },
        }
    }
}

/// `done` put in front of what `r` holds.
pub open spec fn prepend<A>(done: Seq<A>, r: Result<Seq<A>, ErrorV>) -> Result<Seq<A>, ErrorV> {
    match r {
        Ok(rest) => Ok(done + rest),
        Err(e) => Err(e),
    }
}

/// The name of the function that runs the command and what each of its parameters asks of
/// the command line.
pub fn extract_fn_signature(name: &String, params: &Vec<Param>) -> (r: Result<(String, Vec<RunParam>), CommandError>)
    ensures
        r matches Ok((n, ps)) ==> n@ == name@ && spec_run_params(params_v(params@)) == Ok::<
            Seq<(Seq<char>, ArgType, Seq<TokV>)>,
            ErrorV,
        >(params_view(ps@)),
        r matches Err(e) ==> spec_run_params(params_v(params@)) == Err::<
            Seq<(Seq<char>, ArgType, Seq<TokV>)>,
            ErrorV,
        >(e@),
{
    let ghost pv = params_v(params@);
    let mut out: Vec<RunParam> = Vec::new();
    let mut j: usize = 0;
    assert(params_view(out@) =~= Seq::<(Seq<char>, ArgType, Seq<TokV>)>::empty());
    assert(pv.skip(0) =~= pv);
    while j < params.len()
        invariant
            j <= params.len(),
            pv == params_v(params@),
            spec_run_params(pv) == prepend(params_view(out@), spec_run_params(pv.skip(j as int))),
        decreases params.len() - j,
    {
        let ghost rest = pv.skip(j as int);
        assert(rest[0] == param_v(params@[j as int]));
        assert(rest.drop_first() =~= pv.skip(j + 1));
        match &params[j] {
            Param::Receiver => {
                return Err(CommandError::SelfParameter);
            },
            Param::Typed(binding, ty) => match binding {
                None => {
                    return Err(CommandError::NonIdentParameter);
                },
                Some(n) => {
                    let (kind, inner) = normalize_type(ty);
                    let ghost done = params_view(out@);
                    out.push(RunParam { name: n.clone(), kind, inner });
                    assert(params_view(out@) =~= done + seq![param_view(out@.last())]);
                    proof {
                        match spec_run_params(pv.skip(j + 1)) {
                            Ok(r) => {
                                assert(done + (seq![param_view(out@.last())] + r) =~= params_view(out@)
                                    + r);
                            },
                            Err(_) => {},
                        }
                    }
                },
            },
        }
        j = j + 1;
    }
    assert(pv.skip(params.len() as int) =~= Seq::<ParamV>::empty());
    assert(params_view(out@) + Seq::<(Seq<char>, ArgType, Seq<TokV>)>::empty() =~= params_view(out@));
    Ok((name.clone(), out))
}

} // verus!
