//! The query engine: each query walks the program once and returns every
//! fact that matches its location exactly.

use vstd::prelude::*;

use crate::diag::{diagnostic_view, diagnostics_view, Diagnostic, DiagnosticModel};
use crate::expr_elevate::{as_rtk_lua_values, elevate_exprs, exprs_warnings};
use crate::fact::{
    lemma_function_call_view, lemma_method_call_view, method_call_view, method_calls_view,
    function_call_view, function_calls_view, FunctionCall, FunctionCallModel, MethodCall,
    MethodCallModel,
};
use crate::location::{
    clone_location, clone_query, def_path_to_rtk_location, fmt_rtk_location, location_of,
    location_text, query_view, FatalError, HirIdItemIdExt, Location, LocationModel, MethodCallQuery,
};
use crate::native::{
    attributes_for_did, attributes_of, doc_comment_for_did, doc_comment_of, NativeExpr,
    NativeFnItem, NativeImplItem, NativeItem, Program, TypeTable,
};
use crate::fact::{
    function_view, functions_view, lemma_struct_view, trait_impl_view, trait_impls_view, type_view,
    FunctionModel, FunctionTypeValue, StructModel, StructTypeValue, TraitImpl, TraitImplModel,
};
use crate::type_elevate::{
    box_opt, elevate, elevate_output, elevate_warnings, hir_type_as_rtk_lua_type_value, list_warnings,
    output_warnings, elevate_params,
    elevate_params_exec,
    type_as_rtk_lua_type_value,
};

verus! {

broadcast use vstd::std_specs::vec::axiom_vec_index_decreases;

/// The last segment of a path, if it has any.
pub open spec fn last_segment(p: Seq<Seq<char>>) -> Option<Seq<char>> {
    if p.len() == 0 {
        None
    } else {
        Some(p.last())
    }
}

/// Whether a method found at `found` looks like what a query for `query`
/// meant: the locations differ but their last segments agree.
pub open spec fn near_miss(query: LocationModel, found: LocationModel) -> bool {
    query != found && last_segment(query.path) == last_segment(found.path)
}

/// Whether the expression `e` is a call that the query `q` matches, and what
/// it reports. With a parent, the call's receiver must itself be a call that
/// the parent matches; only the direct receiver is examined.
pub open spec fn match_method_call(tab: TypeTable, q: MethodCallQuery, e: NativeExpr) -> Result<(Option<MethodCallModel>, Seq<DiagnosticModel>), FatalError>
    decreases q,
{
    match e {
        NativeExpr::MethodCall { target, receiver, args, hir_id } => {
            let pre = match q.parent {
                None => Ok((true, Seq::<DiagnosticModel>::empty())),
                Some(p) => match match_method_call(tab, *p, *receiver) {
                    Err(x) => Err(x),
                    Ok((m, ds)) => Ok((m is Some, ds)),
                },
            };
            match pre {
                Err(x) => Err(x),
                Ok((parent_ok, ds)) => if !parent_ok {
                    Ok((None, ds))
                } else {
                    match target {
                        None => Ok((None, ds)),
                        Some(dp) => match location_of(dp) {
                            None => Err(FatalError::NestedImplBlocks),
                            Some(loc) => if loc != q.location@ {
                                Ok((None, if near_miss(q.location@, loc) {
                                    ds.push(DiagnosticModel::DidYouMean { query: q.location@, found: loc })
                                } else {
                                    ds
                                }))
                            } else {
                                match elevate_exprs(tab, args, args.len() as int) {
                                    Err(x) => Err(x),
                                    Ok(vs) => Ok((Some(MethodCallModel {
                                        origin: query_view(q),
                                        args: vs,
                                        in_item_id: hir_id.item_id_spec(),
                                    }), ds + exprs_warnings(tab, args, args.len() as int))),
                                }
                            },
                        },
                    }
                },
            }
        },
        _ => Ok((None, Seq::empty())),
    }
}

/// Matches one expression against a method-call query, appending what it
/// reports to `diags`.
pub fn method_call_from_expr(tab: &TypeTable, q: &MethodCallQuery, e: &NativeExpr, diags: &mut Vec<Diagnostic>) -> (r: Result<Option<MethodCall>, FatalError>)
    ensures
        match r {
            Ok(m) => match match_method_call(*tab, *q, *e) {
                Ok((mm, ds)) => diagnostics_view(final(diags)@) == diagnostics_view(old(diags)@) + ds
                    && mm == (match m { Some(c) => Some(method_call_view(c)), None => None::<MethodCallModel> }),
                Err(_) => false,
            },
            Err(x) => match_method_call(*tab, *q, *e) == Err::<(Option<MethodCallModel>, Seq<DiagnosticModel>), FatalError>(x),
        },
    decreases q,
{
    let ghost d0 = diagnostics_view(diags@);
    match e {
        NativeExpr::MethodCall { target, receiver, args, hir_id } => {
            match &q.parent {
                None => {
                    proof {
                        assert(diagnostics_view(diags@) =~= d0 + Seq::<DiagnosticModel>::empty());
                    }
                },
                Some(p) => match method_call_from_expr(tab, p, receiver, diags) {
                    Err(x) => return Err(x),
                    Ok(None) => return Ok(None),
                    Ok(Some(_)) => {},
                },
            }
            let dp = match target {
                Some(dp) => dp,
                None => return Ok(None),
            };
            let loc = match def_path_to_rtk_location(dp) {
                Ok(l) => l,
                Err(x) => return Err(x),
            };
            if !loc.same_as(&q.location) {
                let found_last = loc.last_segment();
                let query_last = q.location.last_segment();
                let near = match (found_last, query_last) {
                    (Some(a), Some(b)) => *a == *b,
                    (None, None) => true,
                    _ => false,
                };
                if near {
                    let ghost before = diags@;
                    let d = Diagnostic::DidYouMean { query: clone_location(&q.location), found: loc };
                    diags.push(d);
                    proof {
                        assert(diagnostics_view(diags@) =~= diagnostics_view(before).push(diagnostic_view(d)));
                    }
                }
                return Ok(None);
            }
            let ghost d1 = diagnostics_view(diags@);
            let vs = match as_rtk_lua_values(tab, args, diags) {
                Ok(v) => v,
                Err(x) => return Err(x),
            };
            let mc = MethodCall { origin: clone_query(q), args: vs, in_item_id: hir_id.rtk_item_id() };
            proof {
                lemma_method_call_view(mc);
            }
            Ok(Some(mc))
        },
        _ => {
            proof {
                assert(diagnostics_view(diags@) =~= d0 + Seq::<DiagnosticModel>::empty());
            }
            Ok(None)
        },
    }
}

pub open spec fn opt_seq<A>(o: Option<A>) -> Seq<A> {
    match o {
        Some(a) => seq![a],
        None => Seq::empty(),
    }
}

/// The method calls that `q` matches in `e` and below it, in pre-order, with
/// what the matching reports.
pub open spec fn walk_method_calls(tab: TypeTable, q: MethodCallQuery, e: NativeExpr) -> Result<(Seq<MethodCallModel>, Seq<DiagnosticModel>), FatalError>
    decreases e, 1int,
{
    match match_method_call(tab, q, e) {
        Err(x) => Err(x),
        Ok((m, ds)) => match walk_method_call_children(tab, q, e) {
            Err(x) => Err(x),
            Ok((ms, ds2)) => Ok((opt_seq(m) + ms, ds + ds2)),
        },
    }
}

/// The same, for the sub-expressions of `e`, in order.
pub open spec fn walk_method_call_children(tab: TypeTable, q: MethodCallQuery, e: NativeExpr) -> Result<(Seq<MethodCallModel>, Seq<DiagnosticModel>), FatalError>
    decreases e, 0int,
{
    match e {
        NativeExpr::StrLit(_) => Ok((Seq::empty(), Seq::empty())),
        NativeExpr::MethodCall { receiver, args, .. } => match walk_method_calls(tab, q, *receiver) {
            Err(x) => Err(x),
            Ok((a, da)) => match walk_method_call_list(tab, q, args, args.len() as int) {
                Err(x) => Err(x),
                Ok((b, db)) => Ok((a + b, da + db)),
            },
        },
        NativeExpr::Call { args, .. } => walk_method_call_list(tab, q, args, args.len() as int),
        NativeExpr::Closure { body, .. } => walk_method_calls(tab, q, *body),
        NativeExpr::Other { children, .. } => walk_method_call_list(tab, q, children, children.len() as int),
    }
}

/// The same, for the first `n` expressions of `v`, in order.
pub open spec fn walk_method_call_list(tab: TypeTable, q: MethodCallQuery, v: Vec<NativeExpr>, n: int) -> Result<(Seq<MethodCallModel>, Seq<DiagnosticModel>), FatalError>
    decreases v, n,
{
    if n <= 0 || n > v.len() {
        Ok((Seq::empty(), Seq::empty()))
    } else {
        match walk_method_call_list(tab, q, v, n - 1) {
            Err(x) => Err(x),
            Ok((a, da)) => match walk_method_calls(tab, q, v[n - 1]) {
                Err(x) => Err(x),
                Ok((b, db)) => Ok((a + b, da + db)),
            },
        }
    }
}

proof fn lemma_mc_list_err(tab: TypeTable, q: MethodCallQuery, v: Vec<NativeExpr>, k: int, n: int)
    requires
        0 <= k <= n <= v.len(),
        walk_method_call_list(tab, q, v, k) is Err,
    ensures
        walk_method_call_list(tab, q, v, n) == walk_method_call_list(tab, q, v, k),
    decreases n - k,
{
    if n > k {
        lemma_mc_list_err(tab, q, v, k, n - 1);
    }
}

/// Appends to `out` the method calls that `q` matches in `e` and below it.
fn walk_method_calls_exec(
    tab: &TypeTable,
    q: &MethodCallQuery,
    e: &NativeExpr,
    out: &mut Vec<MethodCall>,
    diags: &mut Vec<Diagnostic>,
) -> (r: Result<(), FatalError>)
    ensures
        match r {
            Ok(_) => match walk_method_calls(*tab, *q, *e) {
                Ok((ms, ds)) => method_calls_view(final(out)@) == method_calls_view(old(out)@) + ms
                    && diagnostics_view(final(diags)@) == diagnostics_view(old(diags)@) + ds,
                Err(_) => false,
            },
            Err(x) => walk_method_calls(*tab, *q, *e) == Err::<(Seq<MethodCallModel>, Seq<DiagnosticModel>), FatalError>(x),
        },
    decreases e, 1int,
{
    let ghost o0 = method_calls_view(out@);
    let ghost d0 = diagnostics_view(diags@);
    match method_call_from_expr(tab, q, e, diags) {
        Err(x) => return Err(x),
        Ok(m) => {
            let ghost before = out@;
            match m {
                Some(c) => {
                    out.push(c);
                    proof {
                        assert(method_calls_view(out@) =~= method_calls_view(before) + seq![method_call_view(c)]);
                    }
                },
                None => {
                    proof {
                        assert(method_calls_view(out@) =~= method_calls_view(before) + Seq::<MethodCallModel>::empty());
                    }
                },
            }
        },
    }
    let ghost o1 = method_calls_view(out@);
    let ghost d1 = diagnostics_view(diags@);
    let r = walk_method_call_children_exec(tab, q, e, out, diags);
    proof {
        if r is Ok {
            assert(method_calls_view(out@) =~= o0 + (o1.subrange(o0.len() as int, o1.len() as int) + method_calls_view(out@).subrange(o1.len() as int, method_calls_view(out@).len() as int)));
            assert(diagnostics_view(diags@) =~= d0 + (d1.subrange(d0.len() as int, d1.len() as int) + diagnostics_view(diags@).subrange(d1.len() as int, diagnostics_view(diags@).len() as int)));
        }
    }
    r
}

/// Appends to `out` the method calls that `q` matches below `e`.
fn walk_method_call_children_exec(
    tab: &TypeTable,
    q: &MethodCallQuery,
    e: &NativeExpr,
    out: &mut Vec<MethodCall>,
    diags: &mut Vec<Diagnostic>,
) -> (r: Result<(), FatalError>)
    ensures
        match r {
            Ok(_) => match walk_method_call_children(*tab, *q, *e) {
                Ok((ms, ds)) => method_calls_view(final(out)@) == method_calls_view(old(out)@) + ms
                    && diagnostics_view(final(diags)@) == diagnostics_view(old(diags)@) + ds,
                Err(_) => false,
            },
            Err(x) => walk_method_call_children(*tab, *q, *e) == Err::<(Seq<MethodCallModel>, Seq<DiagnosticModel>), FatalError>(x),
        },
    decreases e, 0int,
{
    let ghost o0 = method_calls_view(out@);
    let ghost d0 = diagnostics_view(diags@);
    match e {
        NativeExpr::StrLit(_) => {
            proof {
                assert(method_calls_view(out@) =~= o0 + Seq::<MethodCallModel>::empty());
                assert(diagnostics_view(diags@) =~= d0 + Seq::<DiagnosticModel>::empty());
            }
            Ok(())
        },
        NativeExpr::MethodCall { receiver, args, .. } => {
            match walk_method_calls_exec(tab, q, receiver, out, diags) {
                Err(x) => return Err(x),
                Ok(_) => {},
            }
            let ghost o1 = method_calls_view(out@);
            let ghost d1 = diagnostics_view(diags@);
            let r = walk_method_call_list_exec(tab, q, args, out, diags);
            proof {
                if r is Ok {
                    assert(method_calls_view(out@) =~= o0 + (o1.subrange(o0.len() as int, o1.len() as int) + method_calls_view(out@).subrange(o1.len() as int, method_calls_view(out@).len() as int)));
                    assert(diagnostics_view(diags@) =~= d0 + (d1.subrange(d0.len() as int, d1.len() as int) + diagnostics_view(diags@).subrange(d1.len() as int, diagnostics_view(diags@).len() as int)));
                }
            }
            r
        },
        NativeExpr::Call { args, .. } => walk_method_call_list_exec(tab, q, args, out, diags),
        NativeExpr::Closure { body, .. } => walk_method_calls_exec(tab, q, body, out, diags),
        NativeExpr::Other { children, .. } => walk_method_call_list_exec(tab, q, children, out, diags),
    }
}

/// Appends to `out` the method calls that `q` matches in each expression of
/// `v` and below it.
fn walk_method_call_list_exec(
    tab: &TypeTable,
    q: &MethodCallQuery,
    v: &Vec<NativeExpr>,
    out: &mut Vec<MethodCall>,
    diags: &mut Vec<Diagnostic>,
) -> (r: Result<(), FatalError>)
    ensures
        match r {
            Ok(_) => match walk_method_call_list(*tab, *q, *v, v.len() as int) {
                Ok((ms, ds)) => method_calls_view(final(out)@) == method_calls_view(old(out)@) + ms
                    && diagnostics_view(final(diags)@) == diagnostics_view(old(diags)@) + ds,
                Err(_) => false,
            },
            Err(x) => walk_method_call_list(*tab, *q, *v, v.len() as int) == Err::<(Seq<MethodCallModel>, Seq<DiagnosticModel>), FatalError>(x),
        },
    decreases v, v.len() as int,
{
    let ghost o0 = method_calls_view(out@);
    let ghost d0 = diagnostics_view(diags@);
    let mut i: usize = 0;
    proof {
        assert(method_calls_view(out@) =~= o0 + Seq::<MethodCallModel>::empty());
        assert(diagnostics_view(diags@) =~= d0 + Seq::<DiagnosticModel>::empty());
    }
    while i < v.len()
        invariant
            i <= v@.len(),
            o0 == method_calls_view(old(out)@),
            d0 == diagnostics_view(old(diags)@),
            match walk_method_call_list(*tab, *q, *v, i as int) {
                Ok((ms, ds)) => method_calls_view(out@) == o0 + ms && diagnostics_view(diags@) == d0 + ds,
                Err(_) => false,
            },
        decreases v@.len() - i,
    {
        let ghost o1 = method_calls_view(out@);
        let ghost d1 = diagnostics_view(diags@);
        match walk_method_calls_exec(tab, q, &v[i], out, diags) {
            Err(x) => {
                proof {
                    lemma_mc_list_err(*tab, *q, *v, i + 1, v.len() as int);
                }
                return Err(x);
            },
            Ok(_) => {},
        }
        proof {
            let (a, da) = walk_method_call_list(*tab, *q, *v, i as int)->Ok_0;
            let (b, db) = walk_method_calls(*tab, *q, v@[i as int])->Ok_0;
            assert(method_calls_view(out@) =~= o0 + (a + b));
            assert(diagnostics_view(diags@) =~= d0 + (da + db));
        }
        i = i + 1;
    }
    Ok(())
}

/// Every method call in the program that `query` matches, in the order of the
/// walk; what the matching reports is appended to `diags`.
pub fn query_method_calls(program: &Program, query: &MethodCallQuery, diags: &mut Vec<Diagnostic>) -> (r: Result<Vec<MethodCall>, FatalError>)
    ensures
        match r {
            Ok(out) => match walk_method_call_list(program.types, *query, program.bodies, program.bodies.len() as int) {
                Ok((ms, ds)) => method_calls_view(out@) == ms
                    && diagnostics_view(final(diags)@) == diagnostics_view(old(diags)@) + ds,
                Err(_) => false,
            },
            Err(x) => walk_method_call_list(program.types, *query, program.bodies, program.bodies.len() as int) == Err::<(Seq<MethodCallModel>, Seq<DiagnosticModel>), FatalError>(x),
        },
{
    let mut out: Vec<MethodCall> = Vec::new();
    proof {
        assert(method_calls_view(out@) =~= Seq::empty());
    }
    match walk_method_call_list_exec(&program.types, query, &program.bodies, &mut out, diags) {
        Err(x) => Err(x),
        Ok(_) => {
            proof {
                let ms = walk_method_call_list(program.types, *query, program.bodies, program.bodies.len() as int)->Ok_0.0;
                assert(method_calls_view(out@) =~= ms);
            }
            Ok(out)
        },
    }
}

/// Whether the expression `e` is a call of the function at `loc`, and what
/// elevating its arguments reports.
pub open spec fn match_function_call(tab: TypeTable, loc: LocationModel, e: NativeExpr) -> Result<(Option<FunctionCallModel>, Seq<DiagnosticModel>), FatalError> {
    match e {
        NativeExpr::Call { callee, args, hir_id } => match callee {
            None => Ok((None, Seq::empty())),
            Some(dp) => match location_of(dp) {
                None => Err(FatalError::NestedImplBlocks),
                Some(found) => if found != loc {
                    Ok((None, Seq::empty()))
                } else {
                    match elevate_exprs(tab, args, args.len() as int) {
                        Err(x) => Err(x),
                        Ok(vs) => Ok((
                            Some(FunctionCallModel { location: found, args: vs, in_item_id: hir_id.item_id_spec() }),
                            exprs_warnings(tab, args, args.len() as int),
                        )),
                    }
                },
            },
        },
        _ => Ok((None, Seq::empty())),
    }
}

/// Matches one expression against a function location, appending what it
/// reports to `diags`.
pub fn function_call_from_expr(tab: &TypeTable, loc: &Location, e: &NativeExpr, diags: &mut Vec<Diagnostic>) -> (r: Result<Option<FunctionCall>, FatalError>)
    ensures
        match r {
            Ok(m) => match match_function_call(*tab, loc@, *e) {
                Ok((mm, ds)) => diagnostics_view(final(diags)@) == diagnostics_view(old(diags)@) + ds
                    && mm == (match m { Some(c) => Some(function_call_view(c)), None => None::<FunctionCallModel> }),
                Err(_) => false,
            },
            Err(x) => match_function_call(*tab, loc@, *e) == Err::<(Option<FunctionCallModel>, Seq<DiagnosticModel>), FatalError>(x),
        },
{
    let ghost d0 = diagnostics_view(diags@);
    proof {
        assert(d0 + Seq::<DiagnosticModel>::empty() =~= d0);
    }
    match e {
        NativeExpr::Call { callee, args, hir_id } => {
            let dp = match callee {
                Some(dp) => dp,
                None => return Ok(None),
            };
            let found = match def_path_to_rtk_location(dp) {
                Ok(l) => l,
                Err(x) => return Err(x),
            };
            if !found.same_as(loc) {
                return Ok(None);
            }
            let vs = match as_rtk_lua_values(tab, args, diags) {
                Ok(v) => v,
                Err(x) => return Err(x),
            };
            let fc = FunctionCall { location: found, args: vs, in_item_id: hir_id.rtk_item_id() };
            proof {
                lemma_function_call_view(fc);
            }
            Ok(Some(fc))
        },
        _ => Ok(None),
    }
}

/// The calls of the function at `q` in `e` and below it, in pre-order, with
/// what the matching reports.
pub open spec fn walk_function_calls(tab: TypeTable, q: LocationModel, e: NativeExpr) -> Result<(Seq<FunctionCallModel>, Seq<DiagnosticModel>), FatalError>
    decreases e, 1int,
{
    match match_function_call(tab, q, e) {
        Err(x) => Err(x),
        Ok((m, ds)) => match walk_function_call_children(tab, q, e) {
            Err(x) => Err(x),
            Ok((ms, ds2)) => Ok((opt_seq(m) + ms, ds + ds2)),
        },
    }
}

/// The same, for the sub-expressions of `e`, in order.
pub open spec fn walk_function_call_children(tab: TypeTable, q: LocationModel, e: NativeExpr) -> Result<(Seq<FunctionCallModel>, Seq<DiagnosticModel>), FatalError>
    decreases e, 0int,
{
    match e {
        NativeExpr::StrLit(_) => Ok((Seq::empty(), Seq::empty())),
        NativeExpr::MethodCall { receiver, args, .. } => match walk_function_calls(tab, q, *receiver) {
            Err(x) => Err(x),
            Ok((a, da)) => match walk_function_call_list(tab, q, args, args.len() as int) {
                Err(x) => Err(x),
                Ok((b, db)) => Ok((a + b, da + db)),
            },
        },
        NativeExpr::Call { args, .. } => walk_function_call_list(tab, q, args, args.len() as int),
        NativeExpr::Closure { body, .. } => walk_function_calls(tab, q, *body),
        NativeExpr::Other { children, .. } => walk_function_call_list(tab, q, children, children.len() as int),
    }
}

/// The same, for the first `n` expressions of `v`, in order.
pub open spec fn walk_function_call_list(tab: TypeTable, q: LocationModel, v: Vec<NativeExpr>, n: int) -> Result<(Seq<FunctionCallModel>, Seq<DiagnosticModel>), FatalError>
    decreases v, n,
{
    if n <= 0 || n > v.len() {
        Ok((Seq::empty(), Seq::empty()))
    } else {
        match walk_function_call_list(tab, q, v, n - 1) {
            Err(x) => Err(x),
            Ok((a, da)) => match walk_function_calls(tab, q, v[n - 1]) {
                Err(x) => Err(x),
                Ok((b, db)) => Ok((a + b, da + db)),
            },
        }
    }
}

proof fn lemma_fc_list_err(tab: TypeTable, q: LocationModel, v: Vec<NativeExpr>, k: int, n: int)
    requires
        0 <= k <= n <= v.len(),
        walk_function_call_list(tab, q, v, k) is Err,
    ensures
        walk_function_call_list(tab, q, v, n) == walk_function_call_list(tab, q, v, k),
    decreases n - k,
{
    if n > k {
        lemma_fc_list_err(tab, q, v, k, n - 1);
    }
}

/// Appends to `out` the calls of the function at `q` in `e` and below it.
fn walk_function_calls_exec(
    tab: &TypeTable,
    q: &Location,
    e: &NativeExpr,
    out: &mut Vec<FunctionCall>,
    diags: &mut Vec<Diagnostic>,
) -> (r: Result<(), FatalError>)
    ensures
        match r {
            Ok(_) => match walk_function_calls(*tab, q@, *e) {
                Ok((ms, ds)) => function_calls_view(final(out)@) == function_calls_view(old(out)@) + ms
                    && diagnostics_view(final(diags)@) == diagnostics_view(old(diags)@) + ds,
                Err(_) => false,
            },
            Err(x) => walk_function_calls(*tab, q@, *e) == Err::<(Seq<FunctionCallModel>, Seq<DiagnosticModel>), FatalError>(x),
        },
    decreases e, 1int,
{
    let ghost o0 = function_calls_view(out@);
    let ghost d0 = diagnostics_view(diags@);
    match function_call_from_expr(tab, q, e, diags) {
        Err(x) => return Err(x),
        Ok(m) => {
            let ghost before = out@;
            match m {
                Some(c) => {
                    out.push(c);
                    proof {
                        assert(function_calls_view(out@) =~= function_calls_view(before) + seq![function_call_view(c)]);
                    }
                },
                None => {
                    proof {
                        assert(function_calls_view(out@) =~= function_calls_view(before) + Seq::<FunctionCallModel>::empty());
                    }
                },
            }
        },
    }
    let ghost o1 = function_calls_view(out@);
    let ghost d1 = diagnostics_view(diags@);
    let r = walk_function_call_children_exec(tab, q, e, out, diags);
    proof {
        if r is Ok {
            assert(function_calls_view(out@) =~= o0 + (o1.subrange(o0.len() as int, o1.len() as int) + function_calls_view(out@).subrange(o1.len() as int, function_calls_view(out@).len() as int)));
            assert(diagnostics_view(diags@) =~= d0 + (d1.subrange(d0.len() as int, d1.len() as int) + diagnostics_view(diags@).subrange(d1.len() as int, diagnostics_view(diags@).len() as int)));
        }
    }
    r
}

/// Appends to `out` the calls of the function at `q` below `e`.
fn walk_function_call_children_exec(
    tab: &TypeTable,
    q: &Location,
    e: &NativeExpr,
    out: &mut Vec<FunctionCall>,
    diags: &mut Vec<Diagnostic>,
) -> (r: Result<(), FatalError>)
    ensures
        match r {
            Ok(_) => match walk_function_call_children(*tab, q@, *e) {
                Ok((ms, ds)) => function_calls_view(final(out)@) == function_calls_view(old(out)@) + ms
                    && diagnostics_view(final(diags)@) == diagnostics_view(old(diags)@) + ds,
                Err(_) => false,
            },
            Err(x) => walk_function_call_children(*tab, q@, *e) == Err::<(Seq<FunctionCallModel>, Seq<DiagnosticModel>), FatalError>(x),
        },
    decreases e, 0int,
{
    let ghost o0 = function_calls_view(out@);
    let ghost d0 = diagnostics_view(diags@);
    match e {
        NativeExpr::StrLit(_) => {
            proof {
                assert(function_calls_view(out@) =~= o0 + Seq::<FunctionCallModel>::empty());
                assert(diagnostics_view(diags@) =~= d0 + Seq::<DiagnosticModel>::empty());
            }
            Ok(())
        },
        NativeExpr::MethodCall { receiver, args, .. } => {
            match walk_function_calls_exec(tab, q, receiver, out, diags) {
                Err(x) => return Err(x),
                Ok(_) => {},
            }
            let ghost o1 = function_calls_view(out@);
            let ghost d1 = diagnostics_view(diags@);
            let r = walk_function_call_list_exec(tab, q, args, out, diags);
            proof {
                if r is Ok {
                    assert(function_calls_view(out@) =~= o0 + (o1.subrange(o0.len() as int, o1.len() as int) + function_calls_view(out@).subrange(o1.len() as int, function_calls_view(out@).len() as int)));
                    assert(diagnostics_view(diags@) =~= d0 + (d1.subrange(d0.len() as int, d1.len() as int) + diagnostics_view(diags@).subrange(d1.len() as int, diagnostics_view(diags@).len() as int)));
                }
            }
            r
        },
        NativeExpr::Call { args, .. } => walk_function_call_list_exec(tab, q, args, out, diags),
        NativeExpr::Closure { body, .. } => walk_function_calls_exec(tab, q, body, out, diags),
        NativeExpr::Other { children, .. } => walk_function_call_list_exec(tab, q, children, out, diags),
    }
}

/// Appends to `out` the calls of the function at `q` in each expression of
/// `v` and below it.
fn walk_function_call_list_exec(
    tab: &TypeTable,
    q: &Location,
    v: &Vec<NativeExpr>,
    out: &mut Vec<FunctionCall>,
    diags: &mut Vec<Diagnostic>,
) -> (r: Result<(), FatalError>)
    ensures
        match r {
            Ok(_) => match walk_function_call_list(*tab, q@, *v, v.len() as int) {
                Ok((ms, ds)) => function_calls_view(final(out)@) == function_calls_view(old(out)@) + ms
                    && diagnostics_view(final(diags)@) == diagnostics_view(old(diags)@) + ds,
                Err(_) => false,
            },
            Err(x) => walk_function_call_list(*tab, q@, *v, v.len() as int) == Err::<(Seq<FunctionCallModel>, Seq<DiagnosticModel>), FatalError>(x),
        },
    decreases v, v.len() as int,
{
    let ghost o0 = function_calls_view(out@);
    let ghost d0 = diagnostics_view(diags@);
    let mut i: usize = 0;
    proof {
        assert(function_calls_view(out@) =~= o0 + Seq::<FunctionCallModel>::empty());
        assert(diagnostics_view(diags@) =~= d0 + Seq::<DiagnosticModel>::empty());
    }
    while i < v.len()
        invariant
            i <= v@.len(),
            o0 == function_calls_view(old(out)@),
            d0 == diagnostics_view(old(diags)@),
            match walk_function_call_list(*tab, q@, *v, i as int) {
                Ok((ms, ds)) => function_calls_view(out@) == o0 + ms && diagnostics_view(diags@) == d0 + ds,
                Err(_) => false,
            },
        decreases v@.len() - i,
    {
        let ghost o1 = function_calls_view(out@);
        let ghost d1 = diagnostics_view(diags@);
        match walk_function_calls_exec(tab, q, &v[i], out, diags) {
            Err(x) => {
                proof {
                    lemma_fc_list_err(*tab, q@, *v, i + 1, v.len() as int);
                }
                return Err(x);
            },
            Ok(_) => {},
        }
        proof {
            let (a, da) = walk_function_call_list(*tab, q@, *v, i as int)->Ok_0;
            let (b, db) = walk_function_calls(*tab, q@, v@[i as int])->Ok_0;
            assert(function_calls_view(out@) =~= o0 + (a + b));
            assert(diagnostics_view(diags@) =~= d0 + (da + db));
        }
        i = i + 1;
    }
    Ok(())
}

/// Every call in the program of the function at `query`, in the order of the
/// walk; what the matching reports is appended to `diags`.
pub fn query_function_calls(program: &Program, query: &Location, diags: &mut Vec<Diagnostic>) -> (r: Result<Vec<FunctionCall>, FatalError>)
    ensures
        match r {
            Ok(out) => match walk_function_call_list(program.types, query@, program.bodies, program.bodies.len() as int) {
                Ok((ms, ds)) => function_calls_view(out@) == ms
                    && diagnostics_view(final(diags)@) == diagnostics_view(old(diags)@) + ds,
                Err(_) => false,
            },
            Err(x) => walk_function_call_list(program.types, query@, program.bodies, program.bodies.len() as int) == Err::<(Seq<FunctionCallModel>, Seq<DiagnosticModel>), FatalError>(x),
        },
{
    let mut out: Vec<FunctionCall> = Vec::new();
    proof {
        assert(function_calls_view(out@) =~= Seq::empty());
    }
    match walk_function_call_list_exec(&program.types, query, &program.bodies, &mut out, diags) {
        Err(x) => Err(x),
        Ok(_) => {
            proof {
                let ms = walk_function_call_list(program.types, query@, program.bodies, program.bodies.len() as int)->Ok_0.0;
                assert(function_calls_view(out@) =~= ms);
            }
            Ok(out)
        },
    }
}

/// A function declaration as a fact-model function: each parameter that
/// elevates becomes a positional field of a struct placed at `sig_loc`, and
/// an asynchronous function's return type is what its future resolves to.
pub open spec fn fn_item_model(tab: TypeTable, f: NativeFnItem, sig_loc: LocationModel) -> Result<FunctionModel, FatalError> {
    match elevate_params(tab, Seq::empty(), f.inputs, f.inputs.len() as int, false) {
        Err(x) => Err(x),
        Ok(fields) => match location_of(f.def_path) {
            None => Err(FatalError::NestedImplBlocks),
            Some(loc) => {
                let ret = match f.output {
                    None => Ok(None),
                    Some(o) => elevate_output(tab, Seq::empty(), o, f.is_async),
                };
                match ret {
                    Err(x) => Err(x),
                    Ok(r) => Ok(FunctionModel {
                        location: loc,
                        args_struct: StructModel {
                            location: sig_loc,
                            fields,
                            doc_comment: doc_comment_of(f.attrs@),
                            attributes: attributes_of(f.attrs@),
                        },
                        return_type: box_opt(r),
                        item_id: f.body_id.item_id_spec(),
                        attributes: attributes_of(f.attrs@),
                        doc_comment: doc_comment_of(f.attrs@),
                        is_async: f.is_async,
                    }),
                }
            },
        },
    }
}

/// What building the fact-model function of a declaration reports.
pub open spec fn fn_item_warnings(tab: TypeTable, f: NativeFnItem) -> Seq<DiagnosticModel> {
    list_warnings(tab, Seq::empty(), f.inputs, f.inputs.len() as int) + match f.output {
        None => Seq::empty(),
        Some(o) => output_warnings(tab, Seq::empty(), o, f.is_async),
    }
}

/// Builds the fact-model function of a declaration.
pub fn fn_sig_into_rtk_function_value_type(
    tab: &TypeTable,
    f: &NativeFnItem,
    sig_loc: &Location,
    diags: &mut Vec<Diagnostic>,
) -> (r: Result<FunctionTypeValue, FatalError>)
    ensures
        r is Ok ==> diagnostics_view(final(diags)@) == diagnostics_view(old(diags)@) + fn_item_warnings(*tab, *f),
        match r {
            Ok(m) => fn_item_model(*tab, *f, sig_loc@) == Ok::<FunctionModel, FatalError>(function_view(m)),
            Err(x) => fn_item_model(*tab, *f, sig_loc@) == Err::<FunctionModel, FatalError>(x),
        },
{
    let ghost d0 = diagnostics_view(diags@);
    let mut visited: Vec<usize> = Vec::new();
    let fields = match elevate_params_exec(tab, &f.inputs, false, &mut visited, diags) {
        Ok(x) => x,
        Err(e) => return Err(e),
    };
    let location = match def_path_to_rtk_location(&f.def_path) {
        Ok(l) => l,
        Err(e) => return Err(e),
    };
    let ghost d1 = diagnostics_view(diags@);
    let ret = match &f.output {
        None => None,
        Some(o) => match hir_type_as_rtk_lua_type_value(tab, o, f.is_async, &mut visited, diags) {
            Ok(x) => x,
            Err(e) => return Err(e),
        },
    };
    proof {
        let a = list_warnings(*tab, Seq::empty(), f.inputs, f.inputs.len() as int);
        let gf = *f;
        let b = match gf.output {
            None => Seq::<DiagnosticModel>::empty(),
            Some(o) => output_warnings(*tab, Seq::empty(), o, f.is_async),
        };
        assert(d1 + Seq::<DiagnosticModel>::empty() =~= d1);
        assert(diagnostics_view(diags@) =~= d0 + (a + b));
    }
    let return_type = match ret {
        Some(x) => Some(Box::new(x)),
        None => None,
    };
    let args_struct = StructTypeValue {
        location: clone_location(sig_loc),
        fields,
        doc_comment: doc_comment_for_did(&f.attrs),
        attributes: attributes_for_did(&f.attrs),
    };
    proof {
        lemma_struct_view(args_struct);
    }
    Ok(FunctionTypeValue {
        location,
        args_struct,
        return_type,
        item_id: f.body_id.rtk_item_id(),
        attributes: attributes_for_did(&f.attrs),
        doc_comment: doc_comment_for_did(&f.attrs),
        is_async: f.is_async,
    })
}

/// Whether the item is a function declared exactly at `loc`, its fact-model
/// function if so, and what examining it reports.
pub open spec fn match_function(tab: TypeTable, loc: LocationModel, item: NativeItem) -> Result<(Option<FunctionModel>, Seq<DiagnosticModel>), FatalError> {
    match item {
        NativeItem::Fn(f) => {
            let ds = if f.has_generics { seq![DiagnosticModel::GenericParamsIgnored] } else { Seq::empty() };
            if !f.has_body {
                Ok((None, ds.push(DiagnosticModel::MissingBody)))
            } else {
                match location_of(f.def_path) {
                    None => Err(FatalError::NestedImplBlocks),
                    Some(found) => if found != loc {
                        Ok((None, ds))
                    } else {
                        match fn_item_model(tab, f, loc) {
                            Err(x) => Err(x),
                            Ok(m) => Ok((Some(m), ds + fn_item_warnings(tab, f))),
                        }
                    },
                }
            }
        },
        _ => Ok((None, Seq::empty())),
    }
}

/// Matches one declaration against a function location.
pub fn function_from_item(tab: &TypeTable, loc: &Location, item: &NativeItem, diags: &mut Vec<Diagnostic>) -> (r: Result<Option<FunctionTypeValue>, FatalError>)
    ensures
        match r {
            Ok(m) => match match_function(*tab, loc@, *item) {
                Ok((mm, ds)) => diagnostics_view(final(diags)@) == diagnostics_view(old(diags)@) + ds
                    && mm == (match m { Some(c) => Some(function_view(c)), None => None::<FunctionModel> }),
                Err(_) => false,
            },
            Err(x) => match_function(*tab, loc@, *item) == Err::<(Option<FunctionModel>, Seq<DiagnosticModel>), FatalError>(x),
        },
{
    let ghost d0 = diagnostics_view(diags@);
    match item {
        NativeItem::Fn(f) => {
            if f.has_generics {
                diags.push(Diagnostic::GenericParamsIgnored);
            }
            proof {
                let ds = if f.has_generics { seq![DiagnosticModel::GenericParamsIgnored] } else { Seq::empty() };
                assert(diagnostics_view(diags@) =~= d0 + ds);
            }
            if !f.has_body {
                let ghost before = diags@;
                diags.push(Diagnostic::MissingBody);
                proof {
                    assert(diagnostics_view(diags@) =~= diagnostics_view(before).push(DiagnosticModel::MissingBody));
                }
                return Ok(None);
            }
            let found = match def_path_to_rtk_location(&f.def_path) {
                Ok(l) => l,
                Err(e) => return Err(e),
            };
            if !found.same_as(loc) {
                return Ok(None);
            }
            let ghost d1 = diagnostics_view(diags@);
            match fn_sig_into_rtk_function_value_type(tab, f, loc, diags) {
                Ok(m) => {
                    proof {
                        let ds = if f.has_generics { seq![DiagnosticModel::GenericParamsIgnored] } else { Seq::<DiagnosticModel>::empty() };
                        assert(diagnostics_view(diags@) =~= d0 + (ds + fn_item_warnings(*tab, *f)));
                    }
                    Ok(Some(m))
                },
                Err(e) => Err(e),
            }
        },
        _ => {
            proof {
                assert(diagnostics_view(diags@) =~= d0 + Seq::<DiagnosticModel>::empty());
            }
            Ok(None)
        },
    }
}

/// The functions among the first `n` items of an impl block, and what
/// examining them reports; constants and associated types are reported and
/// left out.
pub open spec fn impl_functions(tab: TypeTable, loc: LocationModel, items: Vec<NativeImplItem>, n: int) -> Result<(Seq<FunctionModel>, Seq<DiagnosticModel>), FatalError>
    decreases n,
{
    if n <= 0 || n > items.len() {
        Ok((Seq::empty(), Seq::empty()))
    } else {
        match impl_functions(tab, loc, items, n - 1) {
            Err(x) => Err(x),
            Ok((fs, ds)) => match items[n - 1] {
                NativeImplItem::Const => Ok((fs, ds.push(DiagnosticModel::ConstInTraitImpl))),
                NativeImplItem::Type => Ok((fs, ds.push(DiagnosticModel::TypeInTraitImpl))),
                NativeImplItem::Fn(f) => match fn_item_model(tab, f, loc) {
                    Err(x) => Err(x),
                    Ok(m) => Ok((fs.push(m), ds + fn_item_warnings(tab, f))),
                },
            },
        }
    }
}

/// Whether the item implements the trait at `loc`, the implementation if so,
/// and what examining it reports.
pub open spec fn match_trait_impl(tab: TypeTable, loc: LocationModel, item: NativeItem) -> Result<(Option<TraitImplModel>, Seq<DiagnosticModel>), FatalError> {
    match item {
        NativeItem::Impl { of_trait: Some(tp), self_ty, items } => match location_of(tp) {
            None => Err(FatalError::NestedImplBlocks),
            Some(found) => if found != loc {
                Ok((None, Seq::empty()))
            } else {
                match elevate(tab, Seq::empty(), self_ty) {
                    Err(x) => Err(x),
                    Ok(None) => Ok((None, elevate_warnings(tab, Seq::empty(), self_ty).push(DiagnosticModel::SelfTypeNotElevated))),
                    Ok(Some(t)) => match impl_functions(tab, loc, items, items.len() as int) {
                        Err(x) => Err(x),
                        Ok((fs, ds)) => Ok((
                            Some(TraitImplModel { trait_location: loc, for_type: t, functions: fs }),
                            elevate_warnings(tab, Seq::empty(), self_ty) + ds,
                        )),
                    },
                }
            },
        },
        _ => Ok((None, Seq::empty())),
    }
}

proof fn lemma_impl_functions_err(tab: TypeTable, loc: LocationModel, items: Vec<NativeImplItem>, k: int, n: int)
    requires
        0 <= k <= n <= items.len(),
        impl_functions(tab, loc, items, k) is Err,
    ensures
        impl_functions(tab, loc, items, n) == impl_functions(tab, loc, items, k),
    decreases n - k,
{
    if n > k {
        lemma_impl_functions_err(tab, loc, items, k, n - 1);
    }
}

/// Matches one declaration against a trait location.
pub fn trait_impl_from_item(tab: &TypeTable, loc: &Location, item: &NativeItem, diags: &mut Vec<Diagnostic>) -> (r: Result<Option<TraitImpl>, FatalError>)
    ensures
        match r {
            Ok(m) => match match_trait_impl(*tab, loc@, *item) {
                Ok((mm, ds)) => diagnostics_view(final(diags)@) == diagnostics_view(old(diags)@) + ds
                    && mm == (match m { Some(c) => Some(trait_impl_view(c)), None => None::<TraitImplModel> }),
                Err(_) => false,
            },
            Err(x) => match_trait_impl(*tab, loc@, *item) == Err::<(Option<TraitImplModel>, Seq<DiagnosticModel>), FatalError>(x),
        },
{
    let ghost d0 = diagnostics_view(diags@);
    proof {
        assert(diagnostics_view(diags@) =~= d0 + Seq::<DiagnosticModel>::empty());
    }
    let (tp, self_ty, items) = match item {
        NativeItem::Impl { of_trait: Some(tp), self_ty, items } => (tp, self_ty, items),
        _ => return Ok(None),
    };
    let found = match def_path_to_rtk_location(tp) {
        Ok(l) => l,
        Err(e) => return Err(e),
    };
    if !found.same_as(loc) {
        return Ok(None);
    }
    let mut visited: Vec<usize> = Vec::new();
    let ghost w = elevate_warnings(*tab, Seq::empty(), *self_ty);
    let for_type = match type_as_rtk_lua_type_value(tab, self_ty, &mut visited, diags) {
        Err(e) => return Err(e),
        Ok(None) => {
            let ghost da = diags@;
            diags.push(Diagnostic::SelfTypeNotElevated);
            proof {
                assert(diagnostics_view(diags@) =~= diagnostics_view(da).push(DiagnosticModel::SelfTypeNotElevated));
                assert(diagnostics_view(diags@) =~= d0 + w.push(DiagnosticModel::SelfTypeNotElevated));
            }
            return Ok(None);
        },
        Ok(Some(t)) => t,
    };
    let ghost dself = diagnostics_view(diags@);
    proof {
        assert(dself + Seq::<DiagnosticModel>::empty() =~= dself);
    }
    let mut functions: Vec<FunctionTypeValue> = Vec::new();
    let mut i: usize = 0;
    proof {
        assert(functions_view(functions@) =~= Seq::empty());
    }
    let ghost ft = type_view(for_type);
    proof {
        assert(match_trait_impl(*tab, loc@, *item) == (match impl_functions(*tab, loc@, *items, items.len() as int) {
            Err(x) => Err(x),
            Ok((fs, ds)) => Ok((Some(TraitImplModel { trait_location: loc@, for_type: ft, functions: fs }), w + ds)),
        }));
    }
    while i < items.len()
        invariant
            i <= items@.len(),
            d0 == diagnostics_view(old(diags)@),
            dself == d0 + w,
            ft == type_view(for_type),
            match_trait_impl(*tab, loc@, *item) == (match impl_functions(*tab, loc@, *items, items.len() as int) {
                Err(x) => Err(x),
                Ok((fs, ds)) => Ok((Some(TraitImplModel { trait_location: loc@, for_type: ft, functions: fs }), w + ds)),
            }),
            match impl_functions(*tab, loc@, *items, i as int) {
                Ok((fs, ds)) => functions_view(functions@) == fs && diagnostics_view(diags@) == dself + ds,
                Err(_) => false,
            },
        decreases items@.len() - i,
    {
        let ghost fb = functions@;
        let ghost db = diags@;
        match &items[i] {
            NativeImplItem::Const => {
                diags.push(Diagnostic::ConstInTraitImpl);
                proof {
                    assert(diagnostics_view(diags@) =~= diagnostics_view(db).push(DiagnosticModel::ConstInTraitImpl));
                }
            },
            NativeImplItem::Type => {
                diags.push(Diagnostic::TypeInTraitImpl);
                proof {
                    assert(diagnostics_view(diags@) =~= diagnostics_view(db).push(DiagnosticModel::TypeInTraitImpl));
                }
            },
            NativeImplItem::Fn(f) => match fn_sig_into_rtk_function_value_type(tab, f, loc, diags) {
                Err(e) => {
                    proof {
                        assert(impl_functions(*tab, loc@, *items, i + 1) == Err::<(Seq<FunctionModel>, Seq<DiagnosticModel>), FatalError>(e));
                        lemma_impl_functions_err(*tab, loc@, *items, i + 1, items.len() as int);
                    }
                    return Err(e);
                },
                Ok(m) => {
                    functions.push(m);
                    proof {
                        assert(functions_view(functions@) =~= functions_view(fb).push(function_view(m)));
                        let (fs0, ds0) = impl_functions(*tab, loc@, *items, i as int)->Ok_0;
                        assert(diagnostics_view(diags@) =~= dself + (ds0 + fn_item_warnings(*tab, *f)));
                    }
                },
            },
        }
        i = i + 1;
    }
    let ti = TraitImpl { trait_location: clone_location(loc), for_type, functions };
    proof {
        let (fs0, ds0) = impl_functions(*tab, loc@, *items, items.len() as int)->Ok_0;
        assert(diagnostics_view(diags@) =~= d0 + (w + ds0));
    }
    Ok(Some(ti))
}

/// The functions declared exactly at `loc` among the first `n` items, and
/// what examining the items reports.
pub open spec fn walk_functions(tab: TypeTable, loc: LocationModel, items: Vec<NativeItem>, n: int) -> Result<(Seq<FunctionModel>, Seq<DiagnosticModel>), FatalError>
    decreases n,
{
    if n <= 0 || n > items.len() {
        Ok((Seq::empty(), Seq::empty()))
    } else {
        match walk_functions(tab, loc, items, n - 1) {
            Err(x) => Err(x),
            Ok((fs, ds)) => match match_function(tab, loc, items[n - 1]) {
                Err(x) => Err(x),
                Ok((m, ds2)) => Ok((fs + opt_seq(m), ds + ds2)),
            },
        }
    }
}

proof fn lemma_walk_functions_err(tab: TypeTable, loc: LocationModel, items: Vec<NativeItem>, k: int, n: int)
    requires
        0 <= k <= n <= items.len(),
        walk_functions(tab, loc, items, k) is Err,
    ensures
        walk_functions(tab, loc, items, n) == walk_functions(tab, loc, items, k),
    decreases n - k,
{
    if n > k {
        lemma_walk_functions_err(tab, loc, items, k, n - 1);
    }
}

/// Every function of the program declared exactly at `query`; what examining
/// the declarations reports is appended to `diags`.
pub fn query_functions(program: &Program, query: &Location, diags: &mut Vec<Diagnostic>) -> (r: Result<Vec<FunctionTypeValue>, FatalError>)
    ensures
        match r {
            Ok(out) => match walk_functions(program.types, query@, program.items, program.items.len() as int) {
                Ok((fs, ds)) => functions_view(out@) == fs
                    && diagnostics_view(final(diags)@) == diagnostics_view(old(diags)@) + ds,
                Err(_) => false,
            },
            Err(x) => walk_functions(program.types, query@, program.items, program.items.len() as int)
                == Err::<(Seq<FunctionModel>, Seq<DiagnosticModel>), FatalError>(x),
        },
{
    let ghost d0 = diagnostics_view(diags@);
    let mut out: Vec<FunctionTypeValue> = Vec::new();
    let mut i: usize = 0;
    proof {
        assert(functions_view(out@) =~= Seq::empty());
        assert(diagnostics_view(diags@) =~= d0 + Seq::<DiagnosticModel>::empty());
    }
    while i < program.items.len()
        invariant
            i <= program.items@.len(),
            d0 == diagnostics_view(old(diags)@),
            match walk_functions(program.types, query@, program.items, i as int) {
                Ok((fs, ds)) => functions_view(out@) == fs && diagnostics_view(diags@) == d0 + ds,
                Err(_) => false,
            },
        decreases program.items@.len() - i,
    {
        let ghost ob = out@;
        let ghost db = diagnostics_view(diags@);
        match function_from_item(&program.types, query, &program.items[i], diags) {
            Err(e) => {
                proof {
                    lemma_walk_functions_err(program.types, query@, program.items, i + 1, program.items.len() as int);
                }
                return Err(e);
            },
            Ok(m) => {
                match m {
                    Some(f) => {
                        out.push(f);
                        proof {
                            assert(functions_view(out@) =~= functions_view(ob) + seq![function_view(f)]);
                        }
                    },
                    None => {
                        proof {
                            assert(functions_view(out@) =~= functions_view(ob) + Seq::<FunctionModel>::empty());
                        }
                    },
                }
                proof {
                    let (fs, ds) = walk_functions(program.types, query@, program.items, i as int)->Ok_0;
                    let (m2, ds2) = match_function(program.types, query@, program.items@[i as int])->Ok_0;
                    assert(diagnostics_view(diags@) =~= d0 + (ds + ds2));
                }
            },
        }
        i = i + 1;
    }
    Ok(out)
}

/// The implementations of the trait at `loc` among the first `n` items, and
/// what examining the items reports.
pub open spec fn walk_trait_impls(tab: TypeTable, loc: LocationModel, items: Vec<NativeItem>, n: int) -> Result<(Seq<TraitImplModel>, Seq<DiagnosticModel>), FatalError>
    decreases n,
{
    if n <= 0 || n > items.len() {
        Ok((Seq::empty(), Seq::empty()))
    } else {
        match walk_trait_impls(tab, loc, items, n - 1) {
            Err(x) => Err(x),
            Ok((ts, ds)) => match match_trait_impl(tab, loc, items[n - 1]) {
                Err(x) => Err(x),
                Ok((m, ds2)) => Ok((ts + opt_seq(m), ds + ds2)),
            },
        }
    }
}

proof fn lemma_walk_trait_impls_err(tab: TypeTable, loc: LocationModel, items: Vec<NativeItem>, k: int, n: int)
    requires
        0 <= k <= n <= items.len(),
        walk_trait_impls(tab, loc, items, k) is Err,
    ensures
        walk_trait_impls(tab, loc, items, n) == walk_trait_impls(tab, loc, items, k),
    decreases n - k,
{
    if n > k {
        lemma_walk_trait_impls_err(tab, loc, items, k, n - 1);
    }
}

/// Every implementation in the program of the trait at `query`; what
/// examining the declarations reports is appended to `diags`.
pub fn query_trait_impls(program: &Program, query: &Location, diags: &mut Vec<Diagnostic>) -> (r: Result<Vec<TraitImpl>, FatalError>)
    ensures
        match r {
            Ok(out) => match walk_trait_impls(program.types, query@, program.items, program.items.len() as int) {
                Ok((ts, ds)) => trait_impls_view(out@) == ts
                    && diagnostics_view(final(diags)@) == diagnostics_view(old(diags)@) + ds,
                Err(_) => false,
            },
            Err(x) => walk_trait_impls(program.types, query@, program.items, program.items.len() as int)
                == Err::<(Seq<TraitImplModel>, Seq<DiagnosticModel>), FatalError>(x),
        },
{
    let ghost d0 = diagnostics_view(diags@);
    let mut out: Vec<TraitImpl> = Vec::new();
    let mut i: usize = 0;
    proof {
        assert(trait_impls_view(out@) =~= Seq::empty());
        assert(diagnostics_view(diags@) =~= d0 + Seq::<DiagnosticModel>::empty());
    }
    while i < program.items.len()
        invariant
            i <= program.items@.len(),
            d0 == diagnostics_view(old(diags)@),
            match walk_trait_impls(program.types, query@, program.items, i as int) {
                Ok((ts, ds)) => trait_impls_view(out@) == ts && diagnostics_view(diags@) == d0 + ds,
                Err(_) => false,
            },
        decreases program.items@.len() - i,
    {
        let ghost ob = out@;
        match trait_impl_from_item(&program.types, query, &program.items[i], diags) {
            Err(e) => {
                proof {
                    lemma_walk_trait_impls_err(program.types, query@, program.items, i + 1, program.items.len() as int);
                }
                return Err(e);
            },
            Ok(m) => {
                match m {
                    Some(t) => {
                        out.push(t);
                        proof {
                            assert(trait_impls_view(out@) =~= trait_impls_view(ob) + seq![trait_impl_view(t)]);
                        }
                    },
                    None => {
                        proof {
                            assert(trait_impls_view(out@) =~= trait_impls_view(ob) + Seq::<TraitImplModel>::empty());
                        }
                    },
                }
                proof {
                    let (ts, ds) = walk_trait_impls(program.types, query@, program.items, i as int)->Ok_0;
                    let (m2, ds2) = match_trait_impl(program.types, query@, program.items@[i as int])->Ok_0;
                    assert(diagnostics_view(diags@) =~= d0 + (ds + ds2));
                }
            },
        }
        i = i + 1;
    }
    Ok(out)
}

/// A method call matches a query with a parent only if the call's direct
/// receiver is itself a method call that the parent matches.
pub proof fn lemma_parent_required(tab: TypeTable, q: MethodCallQuery, e: NativeExpr)
    requires
        q.parent is Some,
        match_method_call(tab, q, e) matches Ok((Some(_), _)),
    ensures
        e matches NativeExpr::MethodCall { receiver, .. } && match_method_call(tab, *q.parent->0, *receiver) matches Ok((Some(_), _)),
{
}

/// A call whose receiver is not a method call never matches a query with a
/// parent, and nothing is reported.
pub proof fn lemma_no_parent_call_no_match(tab: TypeTable, q: MethodCallQuery, e: NativeExpr)
    requires
        q.parent is Some,
        e matches NativeExpr::MethodCall { receiver, .. } && !(*receiver is MethodCall),
    ensures
        match_method_call(tab, q, e) == Ok::<(Option<MethodCallModel>, Seq<DiagnosticModel>), FatalError>((None, Seq::empty())),
{
    reveal_with_fuel(match_method_call, 2);
}

/// In `a.foo().bar(args)`, a query for `bar` whose parent queries `foo`
/// matches: the outer call resolves to `bar`, its receiver is a call that
/// resolves to `foo`, and the arguments elevate without a fatal error.
pub proof fn lemma_parent_chain_matches(
    tab: TypeTable,
    q: MethodCallQuery,
    e: NativeExpr,
)
    requires
        q.parent matches Some(p) && p.parent is None,
        e matches NativeExpr::MethodCall { target: Some(bar), receiver, args, .. }
            && location_of(bar) == Some(q.location@)
            && elevate_exprs(tab, args, args.len() as int) is Ok
            && (*receiver matches NativeExpr::MethodCall { target: Some(foo), args: inner_args, .. }
                && location_of(foo) == Some(q.parent->0.location@)
                && elevate_exprs(tab, inner_args, inner_args.len() as int) is Ok),
    ensures
        match_method_call(tab, q, e) matches Ok((Some(_), _)),
{
    reveal_with_fuel(match_method_call, 2);
}

/// Two locations that differ only in the impl block number are different:
/// a method call found at the one is not returned for a query of the other,
/// and the query reports the near miss.
pub proof fn lemma_near_miss_reported(tab: TypeTable, q: MethodCallQuery, e: NativeExpr)
    requires
        q.parent is None,
        e matches NativeExpr::MethodCall { target: Some(dp), .. } && location_of(dp) matches Some(found)
            && found.crate_name == q.location@.crate_name
            && found.path == q.location@.path
            && found.impl_block_number != q.location@.impl_block_number,
    ensures
        match_method_call(tab, q, e) == Ok::<(Option<MethodCallModel>, Seq<DiagnosticModel>), FatalError>((
            None,
            seq![DiagnosticModel::DidYouMean {
                query: q.location@,
                found: location_of(e->target->0)->0,
            }],
        )),
{
    assert(seq![DiagnosticModel::DidYouMean { query: q.location@, found: location_of(e->target->0)->0 }]
        =~= Seq::<DiagnosticModel>::empty().push(DiagnosticModel::DidYouMean { query: q.location@, found: location_of(e->target->0)->0 }));
}

/// A program whose one body is a method call `x.m()` found at a location that
/// differs from the query's only in the impl block number: the query returns
/// nothing and reports the near miss.
pub proof fn lemma_query_near_miss(tab: TypeTable, q: MethodCallQuery, bodies: Vec<NativeExpr>)
    requires
        q.parent is None,
        bodies.len() == 1,
        bodies[0] is MethodCall,
        bodies[0]->target is Some,
        (bodies[0] matches NativeExpr::MethodCall { args, .. } && args.len() == 0),
        *bodies[0]->receiver is Other,
        (*bodies[0]->receiver)->children.len() == 0,
        location_of(bodies[0]->target->0) is Some,
        location_of(bodies[0]->target->0)->0.crate_name == q.location@.crate_name,
        location_of(bodies[0]->target->0)->0.path == q.location@.path,
        location_of(bodies[0]->target->0)->0.impl_block_number != q.location@.impl_block_number,
    ensures
        walk_method_call_list(tab, q, bodies, 1) == Ok::<(Seq<MethodCallModel>, Seq<DiagnosticModel>), FatalError>((
            Seq::empty(),
            seq![DiagnosticModel::DidYouMean { query: q.location@, found: location_of(bodies[0]->target->0)->0 }],
        )),
{
    let e = bodies[0];
    let d = seq![DiagnosticModel::DidYouMean { query: q.location@, found: location_of(e->target->0)->0 }];
    lemma_near_miss_reported(tab, q, e);
    let r = *e->receiver;
    assert(walk_method_call_children(tab, q, r) == Ok::<(Seq<MethodCallModel>, Seq<DiagnosticModel>), FatalError>((Seq::empty(), Seq::empty())));
    assert(walk_method_calls(tab, q, r) == Ok::<(Seq<MethodCallModel>, Seq<DiagnosticModel>), FatalError>((
        Seq::<MethodCallModel>::empty() + Seq::empty(),
        Seq::<DiagnosticModel>::empty() + Seq::empty(),
    )));
    assert(Seq::<MethodCallModel>::empty() + Seq::empty() =~= Seq::<MethodCallModel>::empty());
    assert(Seq::<DiagnosticModel>::empty() + Seq::empty() =~= Seq::<DiagnosticModel>::empty());
    let args = match e {
        NativeExpr::MethodCall { args, .. } => args,
        _ => arbitrary(),
    };
    assert(walk_method_call_list(tab, q, args, 0) == Ok::<(Seq<MethodCallModel>, Seq<DiagnosticModel>), FatalError>((Seq::empty(), Seq::empty())));
    assert(walk_method_call_children(tab, q, e) == Ok::<(Seq<MethodCallModel>, Seq<DiagnosticModel>), FatalError>((Seq::empty(), Seq::empty())));
    assert(walk_method_calls(tab, q, e) == Ok::<(Seq<MethodCallModel>, Seq<DiagnosticModel>), FatalError>((
        Seq::<MethodCallModel>::empty() + Seq::empty(),
        d + Seq::empty(),
    )));
    assert(d + Seq::<DiagnosticModel>::empty() =~= d);
    assert(Seq::<DiagnosticModel>::empty() + d =~= d);
    assert(walk_method_call_list(tab, q, bodies, 0) == Ok::<(Seq<MethodCallModel>, Seq<DiagnosticModel>), FatalError>((Seq::empty(), Seq::empty())));
}

} // verus!
