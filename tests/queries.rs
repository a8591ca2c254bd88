use rtk::bridge::{
    location_from_script, location_into_script, query_from_script, query_into_script,
    DecodeError, ScriptField, ScriptValue,
};
use rtk::encode::{type_into_script, value_into_script};
use rtk::fact::{TypeValue, Value};
use rtk::location::{DefPath, DefPathSegment, HirId, Location, MethodCallQuery};
use rtk::native::{
    NativeExpr, NativeFnItem, NativeImplItem, NativeItem, NativeType, Program, TypeTable,
};
use rtk::diag::Diagnostic;
use rtk::queries::{query_function_calls, query_functions, query_method_calls, query_trait_impls};

fn dp(krate: &str, segs: &[&str], ibn: Option<usize>) -> DefPath {
    let mut segments: Vec<DefPathSegment> = Vec::new();
    for (i, s) in segs.iter().enumerate() {
        if i + 1 == segs.len() {
            if let Some(n) = ibn {
                segments.push(DefPathSegment::Impl(n));
            }
        }
        segments.push(DefPathSegment::Named(s.to_string()));
    }
    DefPath { crate_name: krate.to_string(), segments }
}

fn loc(krate: &str, segs: &[&str], ibn: Option<usize>) -> Location {
    Location {
        crate_name: krate.to_string(),
        path: segs.iter().map(|s| s.to_string()).collect(),
        impl_block_number: ibn,
    }
}

const HIR: HirId = HirId { owner_krate: 0, owner_index: 3 };

fn method(target: DefPath, receiver: NativeExpr, args: Vec<NativeExpr>) -> NativeExpr {
    NativeExpr::MethodCall { target: Some(target), receiver: Box::new(receiver), args, hir_id: HIR }
}

fn var() -> NativeExpr {
    NativeExpr::Other { ty: NativeType::Other, children: vec![] }
}

fn foo() -> DefPath {
    dp("lib", &["Table", "foo"], Some(1))
}

fn bar() -> DefPath {
    dp("lib", &["Table", "bar"], Some(1))
}

fn program(bodies: Vec<NativeExpr>) -> Program {
    Program { types: TypeTable { adts: vec![] }, items: vec![], bodies }
}

fn bar_after_foo() -> MethodCallQuery {
    MethodCallQuery {
        parent: Some(Box::new(MethodCallQuery {
            parent: None,
            location: loc("lib", &["Table", "foo"], Some(1)),
        })),
        location: loc("lib", &["Table", "bar"], Some(1)),
    }
}

#[test]
fn parent_chain_is_enforced() {
    // a.foo().bar("x")
    let chained = method(bar(), method(foo(), var(), vec![]), vec![NativeExpr::StrLit("x".to_string())]);
    // other.bar("y")
    let direct = method(bar(), var(), vec![NativeExpr::StrLit("y".to_string())]);
    let p = program(vec![chained, direct]);
    let mut diags = Vec::new();
    let calls = query_method_calls(&p, &bar_after_foo(), &mut diags).unwrap();
    assert_eq!(calls.len(), 1);
    assert_eq!(calls[0].origin, bar_after_foo());
    assert!(matches!(&calls[0].args[0], Value::StringLiteral(s) if s == "x"));
    assert_eq!(calls[0].in_item_id, "0/3");
    assert!(diags.is_empty());
}

#[test]
fn receiver_chain_becomes_parent() {
    let chained = method(bar(), method(foo(), var(), vec![]), vec![]);
    let tab = TypeTable { adts: vec![] };
    let mut diags = Vec::new();
    match rtk::expr_elevate::as_rtk_lua_value(&tab, &chained, &mut diags) {
        Ok(Some(Value::MethodCall(mc))) => {
            assert_eq!(mc.origin, bar_after_foo());
        }
        other => panic!("unexpected {:?}", other),
    }
}

#[test]
fn wrong_impl_block_number_matches_nothing_but_is_reported() {
    let p = program(vec![method(bar(), var(), vec![])]);
    let q = MethodCallQuery { parent: None, location: loc("lib", &["Table", "bar"], None) };
    let mut diags = Vec::new();
    let calls = query_method_calls(&p, &q, &mut diags).unwrap();
    assert!(calls.is_empty());
    assert_eq!(diags.len(), 1);
    assert_eq!(
        diags[0].message(),
        "query for `lib::Table::bar` likely intended to match against `lib::Table::bar{impl#1}`, consider changing the impl block number"
    );
    match &diags[0] {
        Diagnostic::DidYouMean { query, found } => {
            assert_eq!(*query, loc("lib", &["Table", "bar"], None));
            assert_eq!(*found, loc("lib", &["Table", "bar"], Some(1)));
        }
        other => panic!("unexpected {:?}", other),
    }
}

#[test]
fn nested_calls_are_found() {
    let inner = NativeExpr::Call {
        callee: Some(dp("app", &["make"], None)),
        args: vec![],
        hir_id: HIR,
    };
    let outer = NativeExpr::Call {
        callee: Some(dp("app", &["make"], None)),
        args: vec![NativeExpr::Closure {
            inputs: vec![],
            output: Box::new(NativeType::Bool),
            body: Box::new(inner),
        }],
        hir_id: HIR,
    };
    let p = program(vec![outer]);
    let mut diags = Vec::new();
    let calls = query_function_calls(&p, &loc("app", &["make"], None), &mut diags).unwrap();
    assert!(diags.is_empty());
    assert_eq!(calls.len(), 2);
    assert_eq!(calls[0].args.len(), 1);
    assert!(matches!(&calls[0].args[0], Value::Type(TypeValue::Closure(_))));
    assert_eq!(calls[1].args.len(), 0);
}

fn fn_item(path: &[&str], generics: bool, body: bool) -> NativeFnItem {
    NativeFnItem {
        def_path: dp("app", path, None),
        inputs: vec![NativeType::Bool],
        output: Some(NativeType::Str),
        is_async: false,
        attrs: vec![],
        has_generics: generics,
        has_body: body,
        body_id: HirId { owner_krate: 0, owner_index: 9 },
    }
}

#[test]
fn functions_and_trait_impls() {
    let p = Program {
        types: TypeTable { adts: vec![] },
        items: vec![
            NativeItem::Fn(fn_item(&["handler"], true, true)),
            NativeItem::Fn(fn_item(&["other"], false, false)),
            NativeItem::Impl {
                of_trait: Some(dp("serde", &["Serialize"], None)),
                self_ty: NativeType::Bool,
                items: vec![NativeImplItem::Const, NativeImplItem::Fn(fn_item(&["serialize"], false, true))],
            },
        ],
        bodies: vec![],
    };
    let mut diags = Vec::new();
    let fs = query_functions(&p, &loc("app", &["handler"], None), &mut diags).unwrap();
    assert_eq!(fs.len(), 1);
    assert_eq!(fs[0].item_id, "0/9");
    assert!(matches!(fs[0].return_type.as_deref(), Some(TypeValue::String)));
    assert!(matches!(diags[0], Diagnostic::GenericParamsIgnored));
    assert!(matches!(diags[1], Diagnostic::MissingBody));
    let mut diags = Vec::new();
    let ts = query_trait_impls(&p, &loc("serde", &["Serialize"], None), &mut diags).unwrap();
    assert_eq!(ts.len(), 1);
    assert!(matches!(ts[0].for_type, TypeValue::Bool));
    assert_eq!(ts[0].functions.len(), 1);
    assert_eq!(ts[0].functions[0].args_struct.location, loc("serde", &["Serialize"], None));
    assert!(matches!(diags[0], Diagnostic::ConstInTraitImpl));
}

#[test]
fn locations_and_queries_round_trip() {
    let l = loc("axum", &["routing", "get"], Some(4));
    assert_eq!(location_from_script(&location_into_script(&l)), Ok(l.clone()));
    let q = bar_after_foo();
    assert_eq!(query_from_script(&query_into_script(&q)).unwrap(), q);
}

#[test]
fn malformed_tables_are_refused() {
    assert_eq!(location_from_script(&ScriptValue::Nil), Err(DecodeError::LocationNotTable));
    let no_path = ScriptValue::Record(vec![ScriptField {
        key: "crate_name".to_string(),
        value: ScriptValue::Str("c".to_string()),
    }]);
    assert_eq!(location_from_script(&no_path), Err(DecodeError::LocationPath));
    let bad_ibn = ScriptValue::Record(vec![
        ScriptField { key: "crate_name".to_string(), value: ScriptValue::Str("c".to_string()) },
        ScriptField { key: "path".to_string(), value: ScriptValue::List(vec![]) },
        ScriptField { key: "impl_block_number".to_string(), value: ScriptValue::Integer(-1) },
    ]);
    assert_eq!(location_from_script(&bad_ibn), Err(DecodeError::LocationImplBlockNumber));
    let bad_query = ScriptValue::Record(vec![ScriptField {
        key: "location".to_string(),
        value: ScriptValue::Nil,
    }]);
    assert_eq!(query_from_script(&bad_query).unwrap_err(), DecodeError::QueryLocation);
    assert!(DecodeError::QueryLocation.message().contains("Location"));
}

fn field<'a>(v: &'a ScriptValue, key: &str) -> &'a ScriptValue {
    match v {
        ScriptValue::Record(fs) => &fs.iter().find(|f| f.key == key).unwrap().value,
        other => panic!("not a record: {:?}", other),
    }
}

#[test]
fn unions_become_tagged_pairs() {
    let t = TypeValue::Vec(Box::new(TypeValue::U8));
    let s = type_into_script(&t);
    assert!(matches!(field(&s, "variant_name"), ScriptValue::Str(n) if n == "Vec"));
    let inner = field(&s, "variant_data");
    assert!(matches!(field(inner, "variant_name"), ScriptValue::Str(n) if n == "U8"));
    assert!(matches!(field(inner, "variant_data"), ScriptValue::Nil));
    let v = value_into_script(&Value::IntegerLiteral(-5));
    assert!(matches!(field(&v, "variant_data"), ScriptValue::Integer(-5)));
}

#[test]
fn remaining_decode_errors() {
    let bad_crate = ScriptValue::Record(vec![ScriptField {
        key: "crate_name".to_string(),
        value: ScriptValue::Integer(3),
    }]);
    assert_eq!(location_from_script(&bad_crate), Err(DecodeError::LocationCrateName));
    assert_eq!(
        query_from_script(&ScriptValue::Str("q".to_string())).unwrap_err(),
        DecodeError::QueryNotTable
    );
    let mixed_path = ScriptValue::Record(vec![
        ScriptField { key: "crate_name".to_string(), value: ScriptValue::Str("c".to_string()) },
        ScriptField {
            key: "path".to_string(),
            value: ScriptValue::List(vec![ScriptValue::Str("a".to_string()), ScriptValue::Boolean(true)]),
        },
    ]);
    assert_eq!(location_from_script(&mixed_path), Err(DecodeError::LocationPath));
}

#[test]
fn trait_impl_reports() {
    let p = Program {
        types: TypeTable { adts: vec![] },
        items: vec![
            NativeItem::Impl {
                of_trait: Some(dp("core", &["fmt", "Display"], None)),
                self_ty: NativeType::Other,
                items: vec![],
            },
            NativeItem::Impl {
                of_trait: Some(dp("core", &["fmt", "Display"], None)),
                self_ty: NativeType::Str,
                items: vec![NativeImplItem::Type],
            },
            NativeItem::Impl { of_trait: None, self_ty: NativeType::Bool, items: vec![] },
        ],
        bodies: vec![],
    };
    let mut diags = Vec::new();
    let ts = query_trait_impls(&p, &loc("core", &["fmt", "Display"], None), &mut diags).unwrap();
    assert_eq!(ts.len(), 1);
    assert!(ts[0].functions.is_empty());
    assert_eq!(diags.len(), 2);
    assert!(matches!(diags[0], Diagnostic::SelfTypeNotElevated));
    assert!(matches!(diags[1], Diagnostic::TypeInTraitImpl));
    assert_eq!(diags[1].message(), "trait impls cannot contain type items currently");
}

#[test]
fn empty_program_answers_nothing() {
    let p = program(vec![]);
    let mut diags = Vec::new();
    assert!(query_method_calls(&p, &bar_after_foo(), &mut diags).unwrap().is_empty());
    assert!(query_function_calls(&p, &loc("a", &["b"], None), &mut diags).unwrap().is_empty());
    assert!(query_functions(&p, &loc("a", &["b"], None), &mut diags).unwrap().is_empty());
    assert!(diags.is_empty());
}
