use rtk::diag::Diagnostic;
use rtk::expr_elevate::as_rtk_lua_value;
use rtk::fact::{FieldName, TypeValue, Value};
use rtk::location::{DefPath, DefPathSegment, FatalError, HirId};
use rtk::native::{
    AdtInstance, AdtKind, AttrArgs, NativeAttr, NativeExpr, NativeField, NativeFnDef,
    NativeType, NativeVariant, TokenTree, TypeTable, UintTy,
};
use rtk::type_elevate::{peel_future_output, type_as_rtk_lua_type_value};

fn dp(krate: &str, segs: &[&str]) -> DefPath {
    DefPath {
        crate_name: krate.to_string(),
        segments: segs.iter().map(|s| DefPathSegment::Named(s.to_string())).collect(),
    }
}

fn field(name: &str, ty: NativeType) -> NativeField {
    NativeField { name: name.to_string(), ty, attrs: vec![] }
}

fn option_instance() -> AdtInstance {
    AdtInstance {
        def_path: dp("core", &["option", "Option"]),
        kind: AdtKind::Enum(vec![]),
        attrs: vec![],
    }
}

fn elevate_reporting(tab: &TypeTable, t: &NativeType) -> (Result<Option<TypeValue>, FatalError>, Vec<Diagnostic>) {
    let mut visited = Vec::new();
    let mut diags = Vec::new();
    let r = type_as_rtk_lua_type_value(tab, t, &mut visited, &mut diags);
    assert!(visited.is_empty());
    (r, diags)
}

fn elevate(tab: &TypeTable, t: &NativeType) -> Result<Option<TypeValue>, FatalError> {
    elevate_reporting(tab, t).0
}

#[test]
fn primitives_and_references() {
    let tab = TypeTable { adts: vec![] };
    let t = NativeType::Ref(Box::new(NativeType::Uint(UintTy::U16)));
    assert!(matches!(elevate(&tab, &t), Ok(Some(TypeValue::U16))));
    assert!(matches!(elevate(&tab, &NativeType::Str), Ok(Some(TypeValue::String))));
    assert!(matches!(elevate(&tab, &NativeType::Other), Ok(None)));
}

#[test]
fn tuple_drops_elements_without_a_form() {
    let tab = TypeTable { adts: vec![] };
    let t = NativeType::Tuple(vec![NativeType::Bool, NativeType::Other, NativeType::Str]);
    match elevate(&tab, &t) {
        Ok(Some(TypeValue::Tuple(ts))) => {
            assert_eq!(ts.len(), 2);
            assert!(matches!(ts[0], TypeValue::Bool));
            assert!(matches!(ts[1], TypeValue::String));
        }
        other => panic!("unexpected {:?}", other),
    }
}

#[test]
fn option_of_option_keeps_both_levels() {
    let tab = TypeTable { adts: vec![option_instance()] };
    let inner = NativeType::Adt { id: 0, args: vec![NativeType::Bool] };
    let outer = NativeType::Adt { id: 0, args: vec![inner] };
    match elevate(&tab, &outer) {
        Ok(Some(TypeValue::Option(a))) => match *a {
            TypeValue::Option(b) => assert!(matches!(*b, TypeValue::Bool)),
            other => panic!("unexpected {:?}", other),
        },
        other => panic!("unexpected {:?}", other),
    }
}

#[test]
fn self_referential_struct_ends_in_a_back_reference() {
    // struct Node { children: Vec<Node> }
    let node = NativeType::Adt { id: 1, args: vec![] };
    let tab = TypeTable {
        adts: vec![
            AdtInstance {
                def_path: dp("alloc", &["vec", "Vec"]),
                kind: AdtKind::Struct(vec![]),
                attrs: vec![],
            },
            AdtInstance {
                def_path: dp("app", &["tree", "Node"]),
                kind: AdtKind::Struct(vec![field(
                    "children",
                    NativeType::Adt { id: 0, args: vec![node] },
                )]),
                attrs: vec![NativeAttr::DocComment(" A node.".to_string())],
            },
        ],
    };
    let t = NativeType::Adt { id: 1, args: vec![] };
    match elevate(&tab, &t) {
        Ok(Some(TypeValue::Struct(s))) => {
            assert_eq!(s.location.path, vec!["tree", "Node"]);
            assert_eq!(s.doc_comment.as_deref(), Some(" A node."));
            assert_eq!(s.fields.len(), 1);
            assert!(matches!(&s.fields[0].name, FieldName::Named(n) if n == "children"));
            match &s.fields[0].value {
                TypeValue::Vec(e) => match &**e {
                    TypeValue::RecursiveRef(l) => {
                        assert_eq!(l.crate_name, "app");
                        assert_eq!(l.path, vec!["tree", "Node"]);
                    }
                    other => panic!("unexpected {:?}", other),
                },
                other => panic!("unexpected {:?}", other),
            }
        }
        other => panic!("unexpected {:?}", other),
    }
}

#[test]
fn mutual_recursion_and_siblings() {
    // enum A { Leaf, Pair(B, B) }  struct B(A)
    let a = || NativeType::Adt { id: 0, args: vec![] };
    let b = || NativeType::Adt { id: 1, args: vec![] };
    let tab = TypeTable {
        adts: vec![
            AdtInstance {
                def_path: dp("m", &["A"]),
                kind: AdtKind::Enum(vec![
                    NativeVariant { name: "Leaf".to_string(), fields: vec![], attrs: vec![] },
                    NativeVariant {
                        name: "Pair".to_string(),
                        fields: vec![field("0", b()), field("1", b())],
                        attrs: vec![],
                    },
                ]),
                attrs: vec![],
            },
            AdtInstance {
                def_path: dp("m", &["B"]),
                kind: AdtKind::Struct(vec![field("0", a())]),
                attrs: vec![],
            },
        ],
    };
    match elevate(&tab, &a()) {
        Ok(Some(TypeValue::Enum(e))) => {
            assert_eq!(e.variants.len(), 2);
            assert!(e.variants[0].value.is_none());
            match &e.variants[1].value {
                Some(TypeValue::Struct(pair)) => {
                    assert_eq!(pair.fields.len(), 2);
                    for f in &pair.fields {
                        match &f.value {
                            TypeValue::Struct(bs) => {
                                assert!(matches!(&bs.fields[0].name, FieldName::Index(0)));
                                assert!(matches!(&bs.fields[0].value, TypeValue::RecursiveRef(_)));
                            }
                            other => panic!("unexpected {:?}", other),
                        }
                    }
                    assert!(matches!(&pair.fields[1].name, FieldName::Index(1)));
                }
                other => panic!("unexpected {:?}", other),
            }
        }
        other => panic!("unexpected {:?}", other),
    }
}

#[test]
fn union_has_no_form_and_nested_impls_are_fatal() {
    let tab = TypeTable {
        adts: vec![
            AdtInstance { def_path: dp("m", &["U"]), kind: AdtKind::Union, attrs: vec![] },
            AdtInstance {
                def_path: DefPath {
                    crate_name: "m".to_string(),
                    segments: vec![DefPathSegment::Impl(0), DefPathSegment::Impl(1)],
                },
                kind: AdtKind::Struct(vec![]),
                attrs: vec![],
            },
        ],
    };
    let (r, diags) = elevate_reporting(&tab, &NativeType::Adt { id: 0, args: vec![] });
    assert!(matches!(r, Ok(None)));
    assert_eq!(diags.len(), 1);
    assert_eq!(diags[0].message(), "encountered a union type `m::U` in a query");
    assert_eq!(
        elevate(&tab, &NativeType::Adt { id: 1, args: vec![] }).unwrap_err(),
        FatalError::NestedImplBlocks
    );
}

#[test]
fn async_function_returns_its_future_output() {
    let f = NativeFnDef {
        def_path: dp("app", &["handler"]),
        inputs: vec![NativeType::Str, NativeType::Other],
        output: NativeType::Opaque(Box::new(NativeType::Coroutine {
            output: Box::new(NativeType::Bool),
        })),
        is_async: true,
        attrs: vec![NativeAttr::Normal {
            name: "serde".to_string(),
            args: AttrArgs::Delimited(vec![
                TokenTree::Ident("rename".to_string()),
                TokenTree::Eq,
                TokenTree::Literal("\"x\"".to_string()),
            ]),
        }],
    };
    let tab = TypeTable { adts: vec![] };
    match elevate(&tab, &NativeType::FnDef(Box::new(f))) {
        Ok(Some(TypeValue::Function(fv))) => {
            assert!(fv.is_async);
            assert!(matches!(fv.return_type.as_deref(), Some(TypeValue::Bool)));
            assert_eq!(fv.args_struct.fields.len(), 1);
            assert_eq!(fv.attributes[0].name, "serde");
            assert_eq!(fv.attributes[0].value_str.as_deref(), Some("rename=\"x\""));
        }
        other => panic!("unexpected {:?}", other),
    }
    assert_eq!(peel_future_output(&NativeType::Bool).unwrap_err(), FatalError::NotACoroutine);
}

#[test]
fn expressions_elevate() {
    let tab = TypeTable { adts: vec![] };
    let hir = HirId { owner_krate: 0, owner_index: 7 };
    let e = NativeExpr::Call {
        callee: Some(dp("app", &["route"])),
        args: vec![
            NativeExpr::StrLit("/users".to_string()),
            NativeExpr::Other { ty: NativeType::Uint(UintTy::U8), children: vec![] },
            NativeExpr::Other { ty: NativeType::Other, children: vec![] },
        ],
        hir_id: hir,
    };
    let mut diags = Vec::new();
    match as_rtk_lua_value(&tab, &e, &mut diags) {
        Ok(Some(Value::FunctionCall(fc))) => {
            assert_eq!(fc.in_item_id, "0/7");
            assert_eq!(fc.args.len(), 2);
            assert!(matches!(&fc.args[0], Value::StringLiteral(s) if s == "/users"));
            assert!(matches!(&fc.args[1], Value::Type(TypeValue::U8)));
        }
        other => panic!("unexpected {:?}", other),
    }
}

#[test]
fn dropped_fields_are_reported() {
    // struct S { a: bool, b: *const u8, c: U } with U a union
    let tab = TypeTable {
        adts: vec![
            AdtInstance {
                def_path: dp("m", &["S"]),
                kind: AdtKind::Struct(vec![
                    field("a", NativeType::Bool),
                    field("b", NativeType::Other),
                    field("c", NativeType::Adt { id: 1, args: vec![] }),
                ]),
                attrs: vec![],
            },
            AdtInstance { def_path: dp("m", &["U"]), kind: AdtKind::Union, attrs: vec![] },
        ],
    };
    let (r, diags) = elevate_reporting(&tab, &NativeType::Adt { id: 0, args: vec![] });
    match r {
        Ok(Some(TypeValue::Struct(s))) => {
            assert_eq!(s.fields.len(), 1);
            assert!(matches!(&s.fields[0].name, FieldName::Named(n) if n == "a"));
        }
        other => panic!("unexpected {:?}", other),
    }
    assert_eq!(diags.len(), 3);
    assert!(matches!(&diags[0], Diagnostic::FieldSkipped { field, .. } if field == "b"));
    assert!(matches!(&diags[1], Diagnostic::UnionSkipped(l) if l.path == vec!["U"]));
    assert!(matches!(&diags[2], Diagnostic::FieldSkipped { field, .. } if field == "c"));
    assert_eq!(
        diags[0].message(),
        "field `b` of `m::S` has no fact-model form; the rest of the fields are still described"
    );
}
