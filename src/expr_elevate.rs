//! Expression elevation: a host expression becomes a fact-model value.

use vstd::prelude::*;

use crate::diag::{diagnostics_view, Diagnostic, DiagnosticModel};
use crate::type_elevate::{elevate_warnings, list_warnings};
use crate::fact::{
    lemma_closure_view, lemma_function_call_view, lemma_method_call_view, value_view, values_view,
    ClosureModel, ClosureTypeValue, FunctionCall, FunctionCallModel, MethodCall, MethodCallModel,
    TypeModel, TypeValue, Value, ValueModel,
};
use crate::location::{
    def_path_to_rtk_location, location_of, FatalError, HirIdItemIdExt, MethodCallQuery,
    MethodCallQueryModel,
};
use crate::native::{NativeExpr, TypeTable};
use crate::type_elevate::{box_opt, elevate, elevate_list, type_as_rtk_lua_type_value};

verus! {

broadcast use vstd::std_specs::vec::axiom_vec_index_decreases;

/// The elevation of an expression: `Ok(None)` when it has no fact-model
/// form, `Err` when it cannot be represented faithfully.
pub open spec fn elevate_expr(tab: TypeTable, e: NativeExpr) -> Result<Option<ValueModel>, FatalError>
    decreases e, 0int,
{
    match e {
        NativeExpr::StrLit(s) => Ok(Some(ValueModel::StringLiteral(s@))),
        NativeExpr::MethodCall { target, receiver, args, hir_id } => match elevate_expr(tab, *receiver) {
            Err(e) => Err(e),
            Ok(rv) => {
                let parent = match rv {
                    Some(ValueModel::MethodCall(mc)) => Some(Box::new(mc.origin)),
                    _ => None,
                };
                match target {
                    None => Ok(None),
                    Some(dp) => match location_of(dp) {
                        None => Err(FatalError::NestedImplBlocks),
                        Some(loc) => match elevate_exprs(tab, args, args.len() as int) {
                            Err(e) => Err(e),
                            Ok(vs) => Ok(Some(ValueModel::MethodCall(MethodCallModel {
                                origin: MethodCallQueryModel { parent, location: loc },
                                args: vs,
                                in_item_id: hir_id.item_id_spec(),
                            }))),
                        },
                    },
                }
            },
        },
        NativeExpr::Call { callee, args, hir_id } => match callee {
            None => Ok(None),
            Some(dp) => match location_of(dp) {
                None => Err(FatalError::NestedImplBlocks),
                Some(loc) => match elevate_exprs(tab, args, args.len() as int) {
                    Err(e) => Err(e),
                    Ok(vs) => Ok(Some(ValueModel::FunctionCall(FunctionCallModel {
                        location: loc,
                        args: vs,
                        in_item_id: hir_id.item_id_spec(),
                    }))),
                },
            },
        },
        NativeExpr::Closure { inputs, output, .. } => match elevate_list(tab, Seq::empty(), inputs, inputs.len() as int) {
            Err(e) => Err(e),
            Ok(ms) => match elevate(tab, Seq::empty(), *output) {
                Err(e) => Err(e),
                Ok(o) => Ok(Some(ValueModel::Type(TypeModel::Closure(ClosureModel { args: ms, return_type: box_opt(o) })))),
            },
        },
        NativeExpr::Other { ty, .. } => match elevate(tab, Seq::empty(), ty) {
            Err(e) => Err(e),
            Ok(None) => Ok(None),
            Ok(Some(m)) => Ok(Some(ValueModel::Type(m))),
        },
    }
}

/// The elevations of the first `n` expressions of `v` that have one, in order.
pub open spec fn elevate_exprs(tab: TypeTable, v: Vec<NativeExpr>, n: int) -> Result<Seq<ValueModel>, FatalError>
    decreases v, n,
{
    if n <= 0 || n > v.len() {
        Ok(Seq::empty())
    } else {
        match elevate_exprs(tab, v, n - 1) {
            Err(e) => Err(e),
            Ok(rest) => match elevate_expr(tab, v[n - 1]) {
                Err(e) => Err(e),
                Ok(None) => Ok(rest),
                Ok(Some(m)) => Ok(rest.push(m)),
            },
        }
    }
}

/// What elevating an expression reports: what elevating the types within it
/// reports, in the order they are elevated. (Only meaningful when the
/// elevation is not fatal.)
pub open spec fn expr_warnings(tab: TypeTable, e: NativeExpr) -> Seq<DiagnosticModel>
    decreases e, 0int,
{
    match e {
        NativeExpr::StrLit(_) => Seq::empty(),
        NativeExpr::MethodCall { target, receiver, args, .. } => expr_warnings(tab, *receiver) + if target matches Some(dp) && location_of(dp) is Some {
            exprs_warnings(tab, args, args.len() as int)
        } else {
            Seq::empty()
        },
        NativeExpr::Call { callee, args, .. } => if callee matches Some(dp) && location_of(dp) is Some {
            exprs_warnings(tab, args, args.len() as int)
        } else {
            Seq::empty()
        },
        NativeExpr::Closure { inputs, output, .. } => list_warnings(tab, Seq::empty(), inputs, inputs.len() as int)
            + elevate_warnings(tab, Seq::empty(), *output),
        NativeExpr::Other { ty, .. } => elevate_warnings(tab, Seq::empty(), ty),
    }
}

/// What elevating the first `n` expressions of `v` reports.
pub open spec fn exprs_warnings(tab: TypeTable, v: Vec<NativeExpr>, n: int) -> Seq<DiagnosticModel>
    decreases v, n,
{
    if n <= 0 || n > v.len() {
        Seq::empty()
    } else {
        exprs_warnings(tab, v, n - 1) + expr_warnings(tab, v[n - 1])
    }
}

pub open spec fn value_result_view(r: Result<Option<Value>, FatalError>) -> Result<Option<ValueModel>, FatalError> {
    match r {
        Ok(Some(v)) => Ok(Some(value_view(v))),
        Ok(None) => Ok(None),
        Err(e) => Err(e),
    }
}

proof fn lemma_exprs_err(tab: TypeTable, v: Vec<NativeExpr>, k: int, n: int)
    requires
        0 <= k <= n <= v.len(),
        elevate_exprs(tab, v, k) is Err,
    ensures
        elevate_exprs(tab, v, n) == elevate_exprs(tab, v, k),
    decreases n - k,
{
    if n > k {
        lemma_exprs_err(tab, v, k, n - 1);
    }
}

/// Elevates an expression.
pub fn as_rtk_lua_value(tab: &TypeTable, e: &NativeExpr, diags: &mut Vec<Diagnostic>) -> (r: Result<Option<Value>, FatalError>)
    ensures
        value_result_view(r) == elevate_expr(*tab, *e),
        r is Ok ==> diagnostics_view(final(diags)@) == diagnostics_view(old(diags)@) + expr_warnings(*tab, *e),
    decreases e, 0int,
{
    let ghost d0 = diagnostics_view(diags@);
    proof {
        assert(d0 + Seq::<DiagnosticModel>::empty() =~= d0);
    }
    match e {
        NativeExpr::StrLit(s) => Ok(Some(Value::StringLiteral(s.clone()))),
        NativeExpr::MethodCall { target, receiver, args, hir_id } => {
            let rv = match as_rtk_lua_value(tab, receiver, diags) {
                Ok(v) => v,
                Err(err) => return Err(err),
            };
            let ghost d1 = diagnostics_view(diags@);
            proof {
                assert(d1 + Seq::<DiagnosticModel>::empty() =~= d1);
            }
            let parent = match rv {
                Some(Value::MethodCall(mc)) => Some(Box::new(mc.origin)),
                _ => None,
            };
            let dp = match target {
                Some(dp) => dp,
                None => return Ok(None),
            };
            let location = match def_path_to_rtk_location(dp) {
                Ok(l) => l,
                Err(err) => return Err(err),
            };
            let vs = match as_rtk_lua_values(tab, args, diags) {
                Ok(v) => v,
                Err(err) => return Err(err),
            };
            proof {
                let a = expr_warnings(*tab, **receiver);
                let b = exprs_warnings(*tab, *args, args.len() as int);
                assert(diagnostics_view(diags@) =~= d0 + (a + b));
            }
            let mc = MethodCall {
                origin: MethodCallQuery { parent, location },
                args: vs,
                in_item_id: hir_id.rtk_item_id(),
            };
            proof {
                lemma_method_call_view(mc);
            }
            Ok(Some(Value::MethodCall(mc)))
        },
        NativeExpr::Call { callee, args, hir_id } => {
            let dp = match callee {
                Some(dp) => dp,
                None => return Ok(None),
            };
            let location = match def_path_to_rtk_location(dp) {
                Ok(l) => l,
                Err(err) => return Err(err),
            };
            let vs = match as_rtk_lua_values(tab, args, diags) {
                Ok(v) => v,
                Err(err) => return Err(err),
            };
            let fc = FunctionCall { location, args: vs, in_item_id: hir_id.rtk_item_id() };
            proof {
                lemma_function_call_view(fc);
            }
            Ok(Some(Value::FunctionCall(fc)))
        },
        NativeExpr::Closure { inputs, output, .. } => {
            let mut visited: Vec<usize> = Vec::new();
            let args = match crate::type_elevate::elevate_list_exec(tab, inputs, &mut visited, diags) {
                Ok(a) => a,
                Err(err) => return Err(err),
            };
            let ret = match type_as_rtk_lua_type_value(tab, output, &mut visited, diags) {
                Ok(o) => o,
                Err(err) => return Err(err),
            };
            proof {
                let a = list_warnings(*tab, Seq::empty(), *inputs, inputs.len() as int);
                let b = elevate_warnings(*tab, Seq::empty(), **output);
                assert(diagnostics_view(diags@) =~= d0 + (a + b));
            }
            let return_type = match ret {
                Some(x) => Some(Box::new(x)),
                None => None,
            };
            let c = ClosureTypeValue { args, return_type };
            proof {
                lemma_closure_view(c);
            }
            Ok(Some(Value::Type(TypeValue::Closure(c))))
        },
        NativeExpr::Other { ty, .. } => {
            let mut visited: Vec<usize> = Vec::new();
            match type_as_rtk_lua_type_value(tab, ty, &mut visited, diags) {
                Err(err) => Err(err),
                Ok(None) => Ok(None),
                Ok(Some(m)) => Ok(Some(Value::Type(m))),
            }
        },
    }
}

/// Elevates each expression of `v`, leaving out those without a form.
pub fn as_rtk_lua_values(tab: &TypeTable, v: &Vec<NativeExpr>, diags: &mut Vec<Diagnostic>) -> (r: Result<Vec<Value>, FatalError>)
    ensures
        r is Ok ==> diagnostics_view(final(diags)@) == diagnostics_view(old(diags)@) + exprs_warnings(*tab, *v, v.len() as int),
        match r {
            Ok(out) => elevate_exprs(*tab, *v, v.len() as int) == Ok::<Seq<ValueModel>, FatalError>(values_view(out@)),
            Err(e) => elevate_exprs(*tab, *v, v.len() as int) == Err::<Seq<ValueModel>, FatalError>(e),
        },
    decreases v, v.len() as int,
{
    let mut out: Vec<Value> = Vec::new();
    let mut i: usize = 0;
    proof {
        assert(values_view(out@) =~= Seq::empty());
        assert(diagnostics_view(diags@) =~= diagnostics_view(old(diags)@) + Seq::<DiagnosticModel>::empty());
    }
    while i < v.len()
        invariant
            i <= v@.len(),
            elevate_exprs(*tab, *v, i as int) == Ok::<Seq<ValueModel>, FatalError>(values_view(out@)),
            diagnostics_view(diags@) == diagnostics_view(old(diags)@) + exprs_warnings(*tab, *v, i as int),
        decreases v@.len() - i,
    {
        let ghost before = out@;
        let r = as_rtk_lua_value(tab, &v[i], diags);
        proof {
            if r is Ok {
                assert(diagnostics_view(diags@) =~= diagnostics_view(old(diags)@) + exprs_warnings(*tab, *v, i + 1));
            }
        }
        match r {
            Err(e) => {
                proof {
                    lemma_exprs_err(*tab, *v, i + 1, v.len() as int);
                }
                return Err(e);
            },
            Ok(None) => {},
            Ok(Some(m)) => {
                out.push(m);
                proof {
                    assert(values_view(out@) =~= values_view(before).push(value_view(m)));
                }
            },
        }
        i = i + 1;
    }
    Ok(out)
}

} // verus!
