//! Type elevation: a host type becomes a fact-model type. Standard
//! containers are folded into their built-in forms, and a declaration that is
//! already being described further up the current branch becomes a
//! back-reference, which keeps every result finite.

use vstd::prelude::*;

use crate::diag::{diagnostic_view, diagnostics_view, Diagnostic, DiagnosticModel};
use crate::fact::{
    field_view, fields_view, type_result_view, type_view, types_view, variant_view, variants_view,
    ClosureTypeValue, EnumTypeValue, EnumTypeValueVariant, FieldName, FunctionTypeValue,
    StructTypeValue, StructTypeValueField, TypeValue, ClosureModel, EnumModel, FieldModel,
    FieldNameModel, FunctionModel, StructModel, TypeModel, VariantModel,
};
use crate::location::{
    clone_location, def_path_to_rtk_location, fmt_rtk_location, location_of, location_text,
    FatalError, Location, LocationModel,
};
use crate::native::{
    attributes_for_did, doc_comment_for_did, AdtInstance, attributes_of, doc_comment_of, AdtKind,
    FloatTy, IntTy, NativeFnDef, NativeField, NativeType, NativeVariant, TypeTable, UintTy,
};
use crate::text::{all_digits, same_text};

verus! {

broadcast use vstd::std_specs::vec::axiom_vec_index_decreases;

/// How many more declarations the current branch can take.
pub open spec fn unvisited(tab: TypeTable, visited: Seq<usize>) -> int {
    if visited.len() <= tab.adts.len() {
        tab.adts.len() - visited.len()
    } else {
        0
    }
}

/// The declarations on the current branch of an elevation: distinct, and
/// each an index of the table.
pub open spec fn wf_visited(tab: TypeTable, visited: Seq<usize>) -> bool {
    &&& visited.no_duplicates()
    &&& forall|i: int| 0 <= i < visited.len() ==> #[trigger] visited[i] < tab.adts.len()
}

pub open spec fn int_model(w: IntTy) -> TypeModel {
    match w {
        IntTy::I8 => TypeModel::I8,
        IntTy::I16 => TypeModel::I16,
        IntTy::I32 => TypeModel::I32,
        IntTy::I64 => TypeModel::I64,
        IntTy::I128 => TypeModel::I128,
        IntTy::Isize => TypeModel::Isize,
    }
}

pub open spec fn uint_model(w: UintTy) -> TypeModel {
    match w {
        UintTy::U8 => TypeModel::U8,
        UintTy::U16 => TypeModel::U16,
        UintTy::U32 => TypeModel::U32,
        UintTy::U64 => TypeModel::U64,
        UintTy::U128 => TypeModel::U128,
        UintTy::Usize => TypeModel::Usize,
    }
}

pub open spec fn float_model(w: FloatTy) -> TypeModel {
    match w {
        FloatTy::F32 => TypeModel::F32,
        FloatTy::F64 => TypeModel::F64,
    }
}

/// The standard containers that fold into built-in fact-model types.
#[derive(Clone, Copy, Debug, PartialEq, Eq, Structural)]
pub enum KnownType {
    Boxed,
    Optional,
    Outcome,
    Dictionary,
    Text,
    List,
}

/// Which standard container, if any, a written location names.
pub open spec fn known_type_of(text: Seq<char>) -> Option<KnownType> {
    if text == "alloc::boxed::Box"@ {
        Some(KnownType::Boxed)
    } else if text == "core::option::Option"@ {
        Some(KnownType::Optional)
    } else if text == "core::result::Result"@ {
        Some(KnownType::Outcome)
    } else if text == "hashbrown::map::HashMap"@ || text == "std::collections::hash::map::HashMap"@ {
        Some(KnownType::Dictionary)
    } else if text == "alloc::string::String"@ {
        Some(KnownType::Text)
    } else if text == "alloc::vec::Vec"@ {
        Some(KnownType::List)
    } else {
        None
    }
}

/// Whether an asynchronous output type resolves to a coroutine.
pub open spec fn peels(t: NativeType) -> bool
    decreases t,
{
    match t {
        NativeType::Opaque(inner) => peels(*inner),
        NativeType::Coroutine { .. } => true,
        _ => false,
    }
}

/// The output of the coroutine that an asynchronous output type resolves to.
pub open spec fn peeled(t: NativeType) -> NativeType
    decreases t,
{
    match t {
        NativeType::Opaque(inner) => peeled(*inner),
        NativeType::Coroutine { output } => *output,
        _ => t,
    }
}

/// The attributes a function parameter takes from its type's declaration.
pub open spec fn type_attributes(tab: TypeTable, t: NativeType) -> Seq<crate::fact::AttributeModel> {
    match t {
        NativeType::Adt { id, .. } => if id < tab.adts.len() {
            attributes_of(tab.adts[id as int].attrs@)
        } else {
            Seq::empty()
        },
        NativeType::FnDef(f) => attributes_of(f.attrs@),
        _ => Seq::empty(),
    }
}

pub open spec fn box_opt(o: Option<TypeModel>) -> Option<Box<TypeModel>> {
    match o {
        Some(m) => Some(Box::new(m)),
        None => None,
    }
}

/// The elevation of `t` with the declarations `visited` on the current
/// branch: `Ok(None)` when `t` has no fact-model form, `Err` when it cannot
/// be represented faithfully.
pub open spec fn elevate(tab: TypeTable, visited: Seq<usize>, t: NativeType) -> Result<Option<TypeModel>, FatalError>
    decreases 4 * unvisited(tab, visited) + 3, t, 0int,
{
    match t {
        NativeType::Bool => Ok(Some(TypeModel::Bool)),
        NativeType::Int(w) => Ok(Some(int_model(w))),
        NativeType::Uint(w) => Ok(Some(uint_model(w))),
        NativeType::Float(w) => Ok(Some(float_model(w))),
        NativeType::Str => Ok(Some(TypeModel::Text)),
        NativeType::Ref(inner) => elevate(tab, visited, *inner),
        NativeType::Tuple(v) => match elevate_list(tab, visited, v, v.len() as int) {
            Ok(ms) => Ok(Some(TypeModel::Tuple(ms))),
            Err(e) => Err(e),
        },
        NativeType::Adt { id, args } => elevate_adt(tab, visited, id, args),
        NativeType::Closure { inputs, output } => match elevate_list(tab, visited, inputs, inputs.len() as int) {
            Err(e) => Err(e),
            Ok(ms) => match elevate(tab, visited, *output) {
                Err(e) => Err(e),
                Ok(o) => Ok(Some(TypeModel::Closure(ClosureModel { args: ms, return_type: box_opt(o) }))),
            },
        },
        NativeType::FnDef(f) => match elevate_fn_def(tab, visited, *f) {
            Err(e) => Err(e),
            Ok(m) => Ok(Some(TypeModel::Function(m))),
        },
        _ => Ok(None),
    }
}

/// The elevations of the first `n` types of `v` that have one, in order.
pub open spec fn elevate_list(tab: TypeTable, visited: Seq<usize>, v: Vec<NativeType>, n: int) -> Result<Seq<TypeModel>, FatalError>
    decreases 4 * unvisited(tab, visited) + 3, v, n,
{
    if n <= 0 || n > v.len() {
        Ok(Seq::empty())
    } else {
        match elevate_list(tab, visited, v, n - 1) {
            Err(e) => Err(e),
            Ok(rest) => match elevate(tab, visited, v[n - 1]) {
                Err(e) => Err(e),
                Ok(None) => Ok(rest),
                Ok(Some(m)) => Ok(rest.push(m)),
            },
        }
    }
}

/// The parameters among the first `n` of `v` that elevate, as positional
/// fields named by their position in the signature; with `type_attrs`, each
/// carries the attributes of its type's declaration.
pub open spec fn elevate_params(tab: TypeTable, visited: Seq<usize>, v: Vec<NativeType>, n: int, type_attrs: bool) -> Result<Seq<FieldModel>, FatalError>
    decreases 4 * unvisited(tab, visited) + 3, v, n,
{
    if n <= 0 || n > v.len() {
        Ok(Seq::empty())
    } else {
        match elevate_params(tab, visited, v, n - 1, type_attrs) {
            Err(e) => Err(e),
            Ok(rest) => match elevate(tab, visited, v[n - 1]) {
                Err(e) => Err(e),
                Ok(None) => Ok(rest),
                Ok(Some(m)) => Ok(rest.push(FieldModel {
                    name: FieldNameModel::Index((n - 1) as usize),
                    doc_comment: None,
                    attributes: if type_attrs { type_attributes(tab, v[n - 1]) } else { Seq::empty() },
                    value: m,
                })),
            },
        }
    }
}

/// The output of a function: for an asynchronous one, what its future
/// resolves to.
pub open spec fn elevate_output(tab: TypeTable, visited: Seq<usize>, t: NativeType, is_async: bool) -> Result<Option<TypeModel>, FatalError>
    decreases 4 * unvisited(tab, visited) + 3, t, 1int,
{
    if !is_async {
        elevate(tab, visited, t)
    } else {
        match t {
            NativeType::Opaque(inner) => elevate_output(tab, visited, *inner, true),
            NativeType::Coroutine { output } => elevate(tab, visited, *output),
            _ => Err(FatalError::NotACoroutine),
        }
    }
}

/// A function item as a fact-model function.
pub open spec fn elevate_fn_def(tab: TypeTable, visited: Seq<usize>, f: NativeFnDef) -> Result<FunctionModel, FatalError>
    decreases 4 * unvisited(tab, visited) + 3, f, 0int,
{
    match location_of(f.def_path) {
        None => Err(FatalError::NestedImplBlocks),
        Some(loc) => if f.is_async && !peels(f.output) {
            Err(FatalError::NotACoroutine)
        } else {
            match elevate_params(tab, visited, f.inputs, f.inputs.len() as int, true) {
                Err(e) => Err(e),
                Ok(fields) => match elevate_output(tab, visited, f.output, f.is_async) {
                    Err(e) => Err(e),
                    Ok(o) => Ok(FunctionModel {
                        location: loc,
                        args_struct: StructModel {
                            location: loc,
                            fields,
                            doc_comment: doc_comment_of(f.attrs@),
                            attributes: attributes_of(f.attrs@),
                        },
                        return_type: box_opt(o),
                        item_id: Seq::empty(),
                        attributes: attributes_of(f.attrs@),
                        doc_comment: doc_comment_of(f.attrs@),
                        is_async: f.is_async,
                    }),
                },
            }
        },
    }
}

/// The name of the `i`-th field: its position if the name is numeric.
pub open spec fn field_name_of(f: NativeField, i: int) -> FieldNameModel {
    if all_digits(f.name@) {
        FieldNameModel::Index(i as usize)
    } else {
        FieldNameModel::Named(f.name@)
    }
}

/// The first `n` fields of `fs` that elevate, in order; the others are left
/// out.
pub open spec fn elevate_fields(tab: TypeTable, visited: Seq<usize>, fs: Vec<NativeField>, n: int) -> Result<Seq<FieldModel>, FatalError>
    decreases 4 * unvisited(tab, visited) + 4, fs, n,
{
    if n <= 0 || n > fs.len() {
        Ok(Seq::empty())
    } else {
        match elevate_fields(tab, visited, fs, n - 1) {
            Err(e) => Err(e),
            Ok(rest) => match elevate(tab, visited, fs[n - 1].ty) {
                Err(e) => Err(e),
                Ok(None) => Ok(rest),
                Ok(Some(m)) => Ok(rest.push(FieldModel {
                    name: field_name_of(fs[n - 1], n - 1),
                    doc_comment: doc_comment_of(fs[n - 1].attrs@),
                    attributes: attributes_of(fs[n - 1].attrs@),
                    value: m,
                })),
            },
        }
    }
}

/// One variant of an enum declared at `loc` by the table entry `owner`; a
/// variant without fields carries no payload.
pub open spec fn elevate_variant(
    tab: TypeTable,
    visited: Seq<usize>,
    v: NativeVariant,
    loc: LocationModel,
    owner: usize,
) -> Result<VariantModel, FatalError>
    decreases 4 * unvisited(tab, visited) + 5, v, 0int,
{
    match elevate_fields(tab, visited, v.fields, v.fields.len() as int) {
        Err(e) => Err(e),
        Ok(fields) => Ok(VariantModel {
            name: v.name@,
            value: if v.fields.len() == 0 || owner >= tab.adts.len() {
                None
            } else {
                Some(TypeModel::Struct(StructModel {
                    location: loc,
                    fields,
                    doc_comment: doc_comment_of(tab.adts[owner as int].attrs@),
                    attributes: attributes_of(tab.adts[owner as int].attrs@),
                }))
            },
            doc_comment: doc_comment_of(v.attrs@),
            attributes: attributes_of(v.attrs@),
        }),
    }
}

/// The first `n` variants of `vs`, in order.
pub open spec fn elevate_variants(
    tab: TypeTable,
    visited: Seq<usize>,
    vs: Vec<NativeVariant>,
    loc: LocationModel,
    owner: usize,
    n: int,
) -> Result<Seq<VariantModel>, FatalError>
    decreases 4 * unvisited(tab, visited) + 6, vs, n,
{
    if n <= 0 || n > vs.len() {
        Ok(Seq::empty())
    } else {
        match elevate_variants(tab, visited, vs, loc, owner, n - 1) {
            Err(e) => Err(e),
            Ok(rest) => match elevate_variant(tab, visited, vs[n - 1], loc, owner) {
                Err(e) => Err(e),
                Ok(m) => Ok(rest.push(m)),
            },
        }
    }
}

/// The built-in form of a standard container with generic arguments `args`;
/// `Ok(None)` when an argument it needs does not elevate.
pub open spec fn elevate_known(tab: TypeTable, visited: Seq<usize>, k: KnownType, args: Vec<NativeType>) -> Result<Option<TypeModel>, FatalError>
    decreases 4 * unvisited(tab, visited) + 3, args, 0int,
{
    match k {
        KnownType::Text => Ok(Some(TypeModel::Text)),
        KnownType::Boxed => if args.len() == 0 {
            Ok(None)
        } else {
            elevate(tab, visited, args[0])
        },
        KnownType::Optional => if args.len() == 0 {
            Ok(None)
        } else {
            match elevate(tab, visited, args[0]) {
                Ok(Some(m)) => Ok(Some(TypeModel::Optional(Box::new(m)))),
                other => other,
            }
        },
        KnownType::List => if args.len() == 0 {
            Ok(None)
        } else {
            match elevate(tab, visited, args[0]) {
                Ok(Some(m)) => Ok(Some(TypeModel::List(Box::new(m)))),
                other => other,
            }
        },
        KnownType::Outcome | KnownType::Dictionary => if args.len() == 0 {
            Ok(None)
        } else {
            match elevate(tab, visited, args[0]) {
                Ok(Some(a)) => if args.len() < 2 {
                    Ok(None)
                } else {
                    match elevate(tab, visited, args[1]) {
                        Ok(Some(b)) => Ok(Some(if k == KnownType::Outcome {
                            TypeModel::Result(Box::new(a), Box::new(b))
                        } else {
                            TypeModel::HashMap(Box::new(a), Box::new(b))
                        })),
                        other => other,
                    }
                },
                other => other,
            }
        },
    }
}

/// A struct, enum or union. A standard container folds; a declaration
/// already on the branch becomes a back-reference to its location; a union
/// has no form; otherwise the declaration joins the branch while its fields
/// or variants are elevated. (The length test is never decisive when
/// `visited` holds distinct indices of the table.)
pub open spec fn elevate_adt(tab: TypeTable, visited: Seq<usize>, id: usize, args: Vec<NativeType>) -> Result<Option<TypeModel>, FatalError>
    decreases 4 * unvisited(tab, visited) + 3, args, 1int,
{
    if id >= tab.adts.len() {
        Ok(None)
    } else {
        let inst = tab.adts[id as int];
        match location_of(inst.def_path) {
            None => Err(FatalError::NestedImplBlocks),
            Some(loc) => {
                let known = match known_type_of(location_text(loc)) {
                    Some(k) => elevate_known(tab, visited, k, args),
                    None => Ok(None),
                };
                match known {
                    Err(e) => Err(e),
                    Ok(Some(m)) => Ok(Some(m)),
                    Ok(None) => if visited.contains(id) {
                        Ok(Some(TypeModel::RecursiveRef(loc)))
                    } else if visited.len() >= tab.adts.len() {
                        Ok(None)
                    } else {
                        match inst.kind {
                            AdtKind::Union => Ok(None),
                            AdtKind::Struct(fs) => match elevate_fields(tab, visited.push(id), fs, fs.len() as int) {
                                Err(e) => Err(e),
                                Ok(fields) => Ok(Some(TypeModel::Struct(StructModel {
                                    location: loc,
                                    fields,
                                    doc_comment: doc_comment_of(inst.attrs@),
                                    attributes: attributes_of(inst.attrs@),
                                }))),
                            },
                            AdtKind::Enum(vs) => match elevate_variants(tab, visited.push(id), vs, loc, id, vs.len() as int) {
                                Err(e) => Err(e),
                                Ok(variants) => Ok(Some(TypeModel::Enum(EnumModel {
                                    location: loc,
                                    variants,
                                    doc_comment: doc_comment_of(inst.attrs@),
                                    attributes: attributes_of(inst.attrs@),
                                }))),
                            },
                        }
                    },
                }
            },
        }
    }
}

/// What elevating `t` reports: one entry for each field left out because its
/// type has no form, and one for each union met, in the order they are met.
/// (Only meaningful when the elevation is not fatal.)
pub open spec fn elevate_warnings(tab: TypeTable, visited: Seq<usize>, t: NativeType) -> Seq<DiagnosticModel>
    decreases 4 * unvisited(tab, visited) + 3, t, 0int,
{
    match t {
        NativeType::Ref(inner) => elevate_warnings(tab, visited, *inner),
        NativeType::Tuple(v) => list_warnings(tab, visited, v, v.len() as int),
        NativeType::Adt { id, args } => adt_warnings(tab, visited, id, args),
        NativeType::Closure { inputs, output } => list_warnings(tab, visited, inputs, inputs.len() as int)
            + elevate_warnings(tab, visited, *output),
        NativeType::FnDef(f) => fn_def_warnings(tab, visited, *f),
        _ => Seq::empty(),
    }
}

/// What elevating the first `n` types of `v` reports.
pub open spec fn list_warnings(tab: TypeTable, visited: Seq<usize>, v: Vec<NativeType>, n: int) -> Seq<DiagnosticModel>
    decreases 4 * unvisited(tab, visited) + 3, v, n,
{
    if n <= 0 || n > v.len() {
        Seq::empty()
    } else {
        list_warnings(tab, visited, v, n - 1) + elevate_warnings(tab, visited, v[n - 1])
    }
}

/// What elevating a function's output reports.
pub open spec fn output_warnings(tab: TypeTable, visited: Seq<usize>, t: NativeType, is_async: bool) -> Seq<DiagnosticModel>
    decreases 4 * unvisited(tab, visited) + 3, t, 1int,
{
    if !is_async {
        elevate_warnings(tab, visited, t)
    } else {
        match t {
            NativeType::Opaque(inner) => output_warnings(tab, visited, *inner, true),
            NativeType::Coroutine { output } => elevate_warnings(tab, visited, *output),
            _ => Seq::empty(),
        }
    }
}

/// What elevating a function item reports.
pub open spec fn fn_def_warnings(tab: TypeTable, visited: Seq<usize>, f: NativeFnDef) -> Seq<DiagnosticModel>
    decreases 4 * unvisited(tab, visited) + 3, f, 0int,
{
    list_warnings(tab, visited, f.inputs, f.inputs.len() as int) + output_warnings(tab, visited, f.output, f.is_async)
}

/// What elevating the first `n` fields of the declaration at `owner`
/// reports: what each field's type reports, then a note when the field is
/// left out.
pub open spec fn fields_warnings(tab: TypeTable, visited: Seq<usize>, fs: Vec<NativeField>, owner: LocationModel, n: int) -> Seq<DiagnosticModel>
    decreases 4 * unvisited(tab, visited) + 4, fs, n,
{
    if n <= 0 || n > fs.len() {
        Seq::empty()
    } else {
        fields_warnings(tab, visited, fs, owner, n - 1) + elevate_warnings(tab, visited, fs[n - 1].ty)
            + if elevate(tab, visited, fs[n - 1].ty) == Ok::<Option<TypeModel>, FatalError>(None) {
                seq![DiagnosticModel::FieldSkipped { owner, field: fs[n - 1].name@ }]
            } else {
                Seq::empty()
            }
    }
}

/// What elevating one variant of the enum at `owner` reports.
pub open spec fn variant_warnings(tab: TypeTable, visited: Seq<usize>, v: NativeVariant, owner: LocationModel) -> Seq<DiagnosticModel>
    decreases 4 * unvisited(tab, visited) + 5, v, 0int,
{
    fields_warnings(tab, visited, v.fields, owner, v.fields.len() as int)
}

/// What elevating the first `n` variants of the enum at `owner` reports.
pub open spec fn variants_warnings(tab: TypeTable, visited: Seq<usize>, vs: Vec<NativeVariant>, owner: LocationModel, n: int) -> Seq<DiagnosticModel>
    decreases 4 * unvisited(tab, visited) + 6, vs, n,
{
    if n <= 0 || n > vs.len() {
        Seq::empty()
    } else {
        variants_warnings(tab, visited, vs, owner, n - 1) + variant_warnings(tab, visited, vs[n - 1], owner)
    }
}

/// What folding a standard container reports.
pub open spec fn known_warnings(tab: TypeTable, visited: Seq<usize>, k: KnownType, args: Vec<NativeType>) -> Seq<DiagnosticModel>
    decreases 4 * unvisited(tab, visited) + 3, args, 0int,
{
    if k == KnownType::Text || args.len() == 0 {
        Seq::empty()
    } else if k == KnownType::Outcome || k == KnownType::Dictionary {
        elevate_warnings(tab, visited, args[0]) + if elevate(tab, visited, args[0]) matches Ok(Some(_)) && args.len() >= 2 {
            elevate_warnings(tab, visited, args[1])
        } else {
            Seq::empty()
        }
    } else {
        elevate_warnings(tab, visited, args[0])
    }
}

/// What elevating a struct, enum or union reports; a union reports itself.
pub open spec fn adt_warnings(tab: TypeTable, visited: Seq<usize>, id: usize, args: Vec<NativeType>) -> Seq<DiagnosticModel>
    decreases 4 * unvisited(tab, visited) + 3, args, 1int,
{
    if id >= tab.adts.len() {
        Seq::empty()
    } else {
        let inst = tab.adts[id as int];
        match location_of(inst.def_path) {
            None => Seq::empty(),
            Some(loc) => {
                let kw = match known_type_of(location_text(loc)) {
                    Some(k) => known_warnings(tab, visited, k, args),
                    None => Seq::empty(),
                };
                let kr = match known_type_of(location_text(loc)) {
                    Some(k) => elevate_known(tab, visited, k, args),
                    None => Ok(None),
                };
                if kr != Ok::<Option<TypeModel>, FatalError>(None) || visited.contains(id) || visited.len() >= tab.adts.len() {
                    kw
                } else {
                    kw + match inst.kind {
                        AdtKind::Union => seq![DiagnosticModel::UnionSkipped(loc)],
                        AdtKind::Struct(fs) => fields_warnings(tab, visited.push(id), fs, loc, fs.len() as int),
                        AdtKind::Enum(vs) => variants_warnings(tab, visited.push(id), vs, loc, vs.len() as int),
                    }
                }
            },
        }
    }
}

proof fn lemma_distinct_bound(s: Seq<usize>, n: nat)
    requires
        s.no_duplicates(),
        forall|i: int| 0 <= i < s.len() ==> #[trigger] s[i] < n,
    ensures
        s.len() <= n,
    decreases n,
{
    if n == 0 {
        if s.len() > 0 {
            assert(s[0] < n);
        }
    } else {
        let m = (n - 1) as usize;
        if s.contains(m) {
            let k = choose|k: int| 0 <= k < s.len() && s[k] == m;
            let t = s.subrange(0, k) + s.subrange(k + 1, s.len() as int);
            assert forall|i: int| 0 <= i < t.len() implies #[trigger] t[i] < n - 1 by {
                if i < k {
                    assert(t[i] == s[i]);
                } else {
                    assert(t[i] == s[i + 1]);
                }
            }
            assert forall|i: int, j: int| 0 <= i < t.len() && 0 <= j < t.len() && i != j implies t[i] != t[j] by {
                let si = if i < k { i } else { i + 1 };
                let sj = if j < k { j } else { j + 1 };
                assert(t[i] == s[si]);
                assert(t[j] == s[sj]);
            }
            lemma_distinct_bound(t, (n - 1) as nat);
        } else {
            assert forall|i: int| 0 <= i < s.len() implies #[trigger] s[i] < n - 1 by {
                assert(s[i] < n);
                if s[i] == m {
                    assert(s.contains(m));
                }
            }
            lemma_distinct_bound(s, (n - 1) as nat);
        }
    }
}

/// A declaration not yet on a well-formed branch leaves room on it.
proof fn lemma_room_for(tab: TypeTable, visited: Seq<usize>, id: usize)
    requires
        wf_visited(tab, visited),
        id < tab.adts.len(),
        !visited.contains(id),
    ensures
        visited.len() < tab.adts.len(),
        wf_visited(tab, visited.push(id)),
{
    let s = visited.push(id);
    assert forall|i: int| 0 <= i < s.len() implies #[trigger] s[i] < tab.adts.len() by {
        if i < visited.len() {
            assert(s[i] == visited[i]);
        }
    }
    assert forall|i: int, j: int| 0 <= i < s.len() && 0 <= j < s.len() && i != j implies s[i] != s[j] by {
        if i == visited.len() as int && j < visited.len() {
            assert(s[j] == visited[j]);
        }
        if j == visited.len() as int && i < visited.len() {
            assert(s[i] == visited[i]);
        }
    }
    lemma_distinct_bound(s, tab.adts.len() as nat);
}

proof fn lemma_list_err(tab: TypeTable, vis: Seq<usize>, v: Vec<NativeType>, k: int, n: int)
    requires
        0 <= k <= n <= v.len(),
        elevate_list(tab, vis, v, k) is Err,
    ensures
        elevate_list(tab, vis, v, n) == elevate_list(tab, vis, v, k),
    decreases n - k,
{
    if n > k {
        lemma_list_err(tab, vis, v, k, n - 1);
    }
}

proof fn lemma_params_err(tab: TypeTable, vis: Seq<usize>, v: Vec<NativeType>, k: int, n: int, ta: bool)
    requires
        0 <= k <= n <= v.len(),
        elevate_params(tab, vis, v, k, ta) is Err,
    ensures
        elevate_params(tab, vis, v, n, ta) == elevate_params(tab, vis, v, k, ta),
    decreases n - k,
{
    if n > k {
        lemma_params_err(tab, vis, v, k, n - 1, ta);
    }
}

proof fn lemma_fields_err(tab: TypeTable, vis: Seq<usize>, v: Vec<NativeField>, k: int, n: int)
    requires
        0 <= k <= n <= v.len(),
        elevate_fields(tab, vis, v, k) is Err,
    ensures
        elevate_fields(tab, vis, v, n) == elevate_fields(tab, vis, v, k),
    decreases n - k,
{
    if n > k {
        lemma_fields_err(tab, vis, v, k, n - 1);
    }
}

proof fn lemma_variants_err(tab: TypeTable, vis: Seq<usize>, v: Vec<NativeVariant>, loc: LocationModel, owner: usize, k: int, n: int)
    requires
        0 <= k <= n <= v.len(),
        elevate_variants(tab, vis, v, loc, owner, k) is Err,
    ensures
        elevate_variants(tab, vis, v, loc, owner, n) == elevate_variants(tab, vis, v, loc, owner, k),
    decreases n - k,
{
    if n > k {
        lemma_variants_err(tab, vis, v, loc, owner, k, n - 1);
    }
}

/// Whether `id` is on the branch.
fn contains_id(v: &Vec<usize>, id: usize) -> (r: bool)
    ensures
        r == v@.contains(id),
{
    let mut i: usize = 0;
    while i < v.len()
        invariant
            i <= v@.len(),
            forall|k: int| 0 <= k < i ==> v@[k] != id,
        decreases v@.len() - i,
    {
        if v[i] == id {
            return true;
        }
        i = i + 1;
    }
    false
}

/// The type that an asynchronous function's future resolves to: opaque
/// types are looked through down to the coroutine, whose output it is.
pub fn peel_future_output(t: &NativeType) -> (r: Result<&NativeType, FatalError>)
    ensures
        r is Ok <==> peels(*t),
        r matches Ok(x) ==> *x == peeled(*t),
        r is Err ==> r == Err::<&NativeType, FatalError>(FatalError::NotACoroutine),
    decreases t,
{
    match t {
        NativeType::Opaque(inner) => peel_future_output(inner),
        NativeType::Coroutine { output } => Ok(output),
        _ => Err(FatalError::NotACoroutine),
    }
}

/// Which standard container a written location names.
fn known_type(text: &String) -> (r: Option<KnownType>)
    ensures
        r == known_type_of(text@),
{
    let t = text.as_str();
    if same_text(t, "alloc::boxed::Box") {
        Some(KnownType::Boxed)
    } else if same_text(t, "core::option::Option") {
        Some(KnownType::Optional)
    } else if same_text(t, "core::result::Result") {
        Some(KnownType::Outcome)
    } else if same_text(t, "hashbrown::map::HashMap") || same_text(
        t,
        "std::collections::hash::map::HashMap",
    ) {
        Some(KnownType::Dictionary)
    } else if same_text(t, "alloc::string::String") {
        Some(KnownType::Text)
    } else if same_text(t, "alloc::vec::Vec") {
        Some(KnownType::List)
    } else {
        None
    }
}

/// Elevates a host type. `visited` holds the declarations on the current
/// branch; it is the same on return.
pub fn type_as_rtk_lua_type_value(
    tab: &TypeTable,
    t: &NativeType,
    visited: &mut Vec<usize>,
    diags: &mut Vec<Diagnostic>,
) -> (r: Result<Option<TypeValue>, FatalError>)
    requires
        wf_visited(*tab, old(visited)@),
    ensures
        final(visited)@ == old(visited)@,
        type_result_view(r) == elevate(*tab, old(visited)@, *t),
        r is Ok ==> diagnostics_view(final(diags)@) == diagnostics_view(old(diags)@) + elevate_warnings(*tab, old(visited)@, *t),
    decreases 4 * unvisited(*tab, old(visited)@) + 3, t, 0int,
{
    let ghost d0 = diagnostics_view(diags@);
    proof {
        assert(d0 + Seq::<DiagnosticModel>::empty() =~= d0);
    }
    match t {
        NativeType::Bool => Ok(Some(TypeValue::Bool)),
        NativeType::Int(w) => Ok(Some(match w {
            IntTy::I8 => TypeValue::I8,
            IntTy::I16 => TypeValue::I16,
            IntTy::I32 => TypeValue::I32,
            IntTy::I64 => TypeValue::I64,
            IntTy::I128 => TypeValue::I128,
            IntTy::Isize => TypeValue::Isize,
        })),
        NativeType::Uint(w) => Ok(Some(match w {
            UintTy::U8 => TypeValue::U8,
            UintTy::U16 => TypeValue::U16,
            UintTy::U32 => TypeValue::U32,
            UintTy::U64 => TypeValue::U64,
            UintTy::U128 => TypeValue::U128,
            UintTy::Usize => TypeValue::Usize,
        })),
        NativeType::Float(w) => Ok(Some(match w {
            FloatTy::F32 => TypeValue::F32,
            FloatTy::F64 => TypeValue::F64,
        })),
        NativeType::Str => Ok(Some(TypeValue::String)),
        NativeType::Ref(inner) => type_as_rtk_lua_type_value(tab, inner, visited, diags),
        NativeType::Tuple(v) => match elevate_list_exec(tab, v, visited, diags) {
            Ok(out) => {
                proof {
                    crate::fact::lemma_tuple_view(out);
                }
                Ok(Some(TypeValue::Tuple(out)))
            },
            Err(e) => Err(e),
        },
        NativeType::Adt { id, args } => adt_type_as_rtk_lua_type_value(tab, *id, args, visited, diags),
        NativeType::Closure { inputs, output } => {
            let args = match elevate_list_exec(tab, inputs, visited, diags) {
                Ok(a) => a,
                Err(e) => return Err(e),
            };
            let ghost d1 = diagnostics_view(diags@);
            let ret = match type_as_rtk_lua_type_value(tab, output, visited, diags) {
                Ok(o) => o,
                Err(e) => return Err(e),
            };
            proof {
                let a = list_warnings(*tab, visited@, *inputs, inputs.len() as int);
                let b = elevate_warnings(*tab, visited@, **output);
                assert(diagnostics_view(diags@) =~= d0 + (a + b));
            }
            let return_type = match ret {
                Some(x) => Some(Box::new(x)),
                None => None,
            };
            let c = ClosureTypeValue { args, return_type };
            proof {
                crate::fact::lemma_closure_view(c);
            }
            Ok(Some(TypeValue::Closure(c)))
        },
        NativeType::FnDef(f) => match fn_def_as_function(tab, f, visited, diags) {
            Ok(m) => Ok(Some(TypeValue::Function(m))),
            Err(e) => Err(e),
        },
        _ => Ok(None),
    }
}

/// Elevates each type of `v`, leaving out those without a form.
pub fn elevate_list_exec(
    tab: &TypeTable,
    v: &Vec<NativeType>,
    visited: &mut Vec<usize>,
    diags: &mut Vec<Diagnostic>,
) -> (r: Result<Vec<TypeValue>, FatalError>)
    requires
        wf_visited(*tab, old(visited)@),
    ensures
        final(visited)@ == old(visited)@,
        r is Ok ==> diagnostics_view(final(diags)@) == diagnostics_view(old(diags)@) + list_warnings(*tab, old(visited)@, *v, v.len() as int),
        match r {
            Ok(out) => elevate_list(*tab, old(visited)@, *v, v.len() as int) == Ok::<Seq<TypeModel>, FatalError>(types_view(out@)),
            Err(e) => elevate_list(*tab, old(visited)@, *v, v.len() as int) == Err::<Seq<TypeModel>, FatalError>(e),
        },
    decreases 4 * unvisited(*tab, old(visited)@) + 3, v, v.len() as int,
{
    let ghost vis = visited@;
    let mut out: Vec<TypeValue> = Vec::new();
    let mut i: usize = 0;
    proof {
        assert(types_view(out@) =~= Seq::empty());
        assert(diagnostics_view(diags@) =~= diagnostics_view(old(diags)@) + Seq::<DiagnosticModel>::empty());
    }
    while i < v.len()
        invariant
            i <= v@.len(),
            visited@ == vis,
            vis == old(visited)@,
            wf_visited(*tab, vis),
            elevate_list(*tab, vis, *v, i as int) == Ok::<Seq<TypeModel>, FatalError>(types_view(out@)),
            diagnostics_view(diags@) == diagnostics_view(old(diags)@) + list_warnings(*tab, vis, *v, i as int),
        decreases v@.len() - i,
    {
        let ghost before = out@;
        let ghost db = diagnostics_view(diags@);
        let r = type_as_rtk_lua_type_value(tab, &v[i], visited, diags);
        proof {
            if r is Ok {
                assert(diagnostics_view(diags@) =~= diagnostics_view(old(diags)@) + list_warnings(*tab, vis, *v, i + 1));
            }
        }
        match r {
            Err(e) => {
                proof {
                    lemma_list_err(*tab, vis, *v, i + 1, v.len() as int);
                }
                return Err(e);
            },
            Ok(None) => {},
            Ok(Some(m)) => {
                out.push(m);
                proof {
                    assert(types_view(out@) =~= types_view(before).push(type_view(m)));
                }
            },
        }
        i = i + 1;
    }
    Ok(out)
}

/// The attributes a function parameter takes from its type's declaration.
fn type_attributes_exec(tab: &TypeTable, t: &NativeType) -> (r: Vec<crate::fact::Attribute>)
    ensures
        crate::fact::attributes_view(r@) == type_attributes(*tab, *t),
{
    match t {
        NativeType::Adt { id, .. } => if *id < tab.adts.len() {
            attributes_for_did(&tab.adts[*id].attrs)
        } else {
            Vec::new()
        },
        NativeType::FnDef(f) => attributes_for_did(&f.attrs),
        _ => {
            let r: Vec<crate::fact::Attribute> = Vec::new();
            proof {
                assert(crate::fact::attributes_view(r@) =~= Seq::empty());
            }
            r
        },
    }
}

/// Elevates a function's parameters into positional fields.
pub fn elevate_params_exec(
    tab: &TypeTable,
    v: &Vec<NativeType>,
    type_attrs: bool,
    visited: &mut Vec<usize>,
    diags: &mut Vec<Diagnostic>,
) -> (r: Result<Vec<StructTypeValueField>, FatalError>)
    requires
        wf_visited(*tab, old(visited)@),
    ensures
        final(visited)@ == old(visited)@,
        r is Ok ==> diagnostics_view(final(diags)@) == diagnostics_view(old(diags)@) + list_warnings(*tab, old(visited)@, *v, v.len() as int),
        match r {
            Ok(out) => elevate_params(*tab, old(visited)@, *v, v.len() as int, type_attrs) == Ok::<Seq<FieldModel>, FatalError>(fields_view(out@)),
            Err(e) => elevate_params(*tab, old(visited)@, *v, v.len() as int, type_attrs) == Err::<Seq<FieldModel>, FatalError>(e),
        },
    decreases 4 * unvisited(*tab, old(visited)@) + 3, v, v.len() as int,
{
    let ghost vis = visited@;
    let mut out: Vec<StructTypeValueField> = Vec::new();
    let mut i: usize = 0;
    proof {
        assert(fields_view(out@) =~= Seq::empty());
        assert(diagnostics_view(diags@) =~= diagnostics_view(old(diags)@) + Seq::<DiagnosticModel>::empty());
    }
    while i < v.len()
        invariant
            i <= v@.len(),
            visited@ == vis,
            vis == old(visited)@,
            wf_visited(*tab, vis),
            elevate_params(*tab, vis, *v, i as int, type_attrs) == Ok::<Seq<FieldModel>, FatalError>(fields_view(out@)),
            diagnostics_view(diags@) == diagnostics_view(old(diags)@) + list_warnings(*tab, vis, *v, i as int),
        decreases v@.len() - i,
    {
        let ghost before = out@;
        let r = type_as_rtk_lua_type_value(tab, &v[i], visited, diags);
        proof {
            if r is Ok {
                assert(diagnostics_view(diags@) =~= diagnostics_view(old(diags)@) + list_warnings(*tab, vis, *v, i + 1));
            }
        }
        match r {
            Err(e) => {
                proof {
                    lemma_params_err(*tab, vis, *v, i + 1, v.len() as int, type_attrs);
                }
                return Err(e);
            },
            Ok(None) => {},
            Ok(Some(m)) => {
                let attributes = if type_attrs {
                    type_attributes_exec(tab, &v[i])
                } else {
                    let none: Vec<crate::fact::Attribute> = Vec::new();
                    proof {
                        assert(crate::fact::attributes_view(none@) =~= Seq::empty());
                    }
                    none
                };
                let field = StructTypeValueField {
                    name: FieldName::Index(i),
                    doc_comment: None,
                    attributes,
                    value: m,
                };
                out.push(field);
                proof {
                    assert(fields_view(out@) =~= fields_view(before).push(field_view(field)));
                }
            },
        }
        i = i + 1;
    }
    Ok(out)
}

/// Elevates a type written in a signature; for the output of an asynchronous
/// function, the type its future resolves to.
pub fn hir_type_as_rtk_lua_type_value(
    tab: &TypeTable,
    t: &NativeType,
    is_async: bool,
    visited: &mut Vec<usize>,
    diags: &mut Vec<Diagnostic>,
) -> (r: Result<Option<TypeValue>, FatalError>)
    requires
        wf_visited(*tab, old(visited)@),
    ensures
        final(visited)@ == old(visited)@,
        type_result_view(r) == elevate_output(*tab, old(visited)@, *t, is_async),
        r is Ok ==> diagnostics_view(final(diags)@) == diagnostics_view(old(diags)@) + output_warnings(*tab, old(visited)@, *t, is_async),
    decreases 4 * unvisited(*tab, old(visited)@) + 3, t, 1int,
{
    if !is_async {
        return type_as_rtk_lua_type_value(tab, t, visited, diags);
    }
    match t {
        NativeType::Opaque(inner) => hir_type_as_rtk_lua_type_value(tab, inner, true, visited, diags),
        NativeType::Coroutine { output } => type_as_rtk_lua_type_value(tab, output, visited, diags),
        _ => Err(FatalError::NotACoroutine),
    }
}

/// A function item as a fact-model function.
pub fn fn_def_as_function(
    tab: &TypeTable,
    f: &NativeFnDef,
    visited: &mut Vec<usize>,
    diags: &mut Vec<Diagnostic>,
) -> (r: Result<FunctionTypeValue, FatalError>)
    requires
        wf_visited(*tab, old(visited)@),
    ensures
        final(visited)@ == old(visited)@,
        r is Ok ==> diagnostics_view(final(diags)@) == diagnostics_view(old(diags)@) + fn_def_warnings(*tab, old(visited)@, *f),
        match r {
            Ok(m) => elevate_fn_def(*tab, old(visited)@, *f) == Ok::<FunctionModel, FatalError>(crate::fact::function_view(m)),
            Err(e) => elevate_fn_def(*tab, old(visited)@, *f) == Err::<FunctionModel, FatalError>(e),
        },
    decreases 4 * unvisited(*tab, old(visited)@) + 3, f, 0int,
{
    let location = match def_path_to_rtk_location(&f.def_path) {
        Ok(l) => l,
        Err(e) => return Err(e),
    };
    if f.is_async {
        if let Err(e) = peel_future_output(&f.output) {
            return Err(e);
        }
    }
    let ghost d0 = diagnostics_view(diags@);
    let fields = match elevate_params_exec(tab, &f.inputs, true, visited, diags) {
        Ok(x) => x,
        Err(e) => return Err(e),
    };
    let ret = match hir_type_as_rtk_lua_type_value(tab, &f.output, f.is_async, visited, diags) {
        Ok(o) => o,
        Err(e) => return Err(e),
    };
    proof {
        let a = list_warnings(*tab, visited@, f.inputs, f.inputs.len() as int);
        let b = output_warnings(*tab, visited@, f.output, f.is_async);
        assert(diagnostics_view(diags@) =~= d0 + (a + b));
    }
    let return_type = match ret {
        Some(x) => Some(Box::new(x)),
        None => None,
    };
    let args_struct = StructTypeValue {
        location: clone_location(&location),
        fields,
        doc_comment: doc_comment_for_did(&f.attrs),
        attributes: attributes_for_did(&f.attrs),
    };
    proof {
        crate::fact::lemma_struct_view(args_struct);
    }
    let item_id = String::new();
    Ok(FunctionTypeValue {
        location,
        args_struct,
        return_type,
        item_id,
        attributes: attributes_for_did(&f.attrs),
        doc_comment: doc_comment_for_did(&f.attrs),
        is_async: f.is_async,
    })
}

/// The name of the `i`-th field: its position if the name is numeric.
fn field_name(f: &NativeField, i: usize) -> (r: FieldName)
    ensures
        crate::fact::field_name_view(r) == field_name_of(*f, i as int),
{
    let n = f.name.as_str();
    let len = n.unicode_len();
    let mut k: usize = 0;
    while k < len
        invariant
            n@ == f.name@,
            len == f.name@.len(),
            k <= len,
            forall|j: int| 0 <= j < k ==> crate::text::is_digit(#[trigger] f.name@[j]),
        decreases len - k,
    {
        let c = n.get_char(k);
        if !('0' <= c && c <= '9') {
            proof {
                assert(!crate::text::is_digit(f.name@[k as int]));
            }
            return FieldName::Named(f.name.clone());
        }
        k = k + 1;
    }
    FieldName::Index(i)
}

/// Elevates the fields `fs`, leaving out those without a form.
fn elevate_fields_exec(
    tab: &TypeTable,
    fs: &Vec<NativeField>,
    owner: &Location,
    visited: &mut Vec<usize>,
    diags: &mut Vec<Diagnostic>,
) -> (r: Result<Vec<StructTypeValueField>, FatalError>)
    requires
        wf_visited(*tab, old(visited)@),
    ensures
        final(visited)@ == old(visited)@,
        r is Ok ==> diagnostics_view(final(diags)@) == diagnostics_view(old(diags)@) + fields_warnings(*tab, old(visited)@, *fs, owner@, fs.len() as int),
        match r {
            Ok(out) => elevate_fields(*tab, old(visited)@, *fs, fs.len() as int) == Ok::<Seq<FieldModel>, FatalError>(fields_view(out@)),
            Err(e) => elevate_fields(*tab, old(visited)@, *fs, fs.len() as int) == Err::<Seq<FieldModel>, FatalError>(e),
        },
    decreases 4 * unvisited(*tab, old(visited)@) + 4, fs, fs.len() as int,
{
    let ghost vis = visited@;
    let mut out: Vec<StructTypeValueField> = Vec::new();
    let mut i: usize = 0;
    proof {
        assert(fields_view(out@) =~= Seq::empty());
        assert(diagnostics_view(diags@) =~= diagnostics_view(old(diags)@) + Seq::<DiagnosticModel>::empty());
    }
    while i < fs.len()
        invariant
            i <= fs@.len(),
            visited@ == vis,
            vis == old(visited)@,
            wf_visited(*tab, vis),
            elevate_fields(*tab, vis, *fs, i as int) == Ok::<Seq<FieldModel>, FatalError>(fields_view(out@)),
            diagnostics_view(diags@) == diagnostics_view(old(diags)@) + fields_warnings(*tab, vis, *fs, owner@, i as int),
        decreases fs@.len() - i,
    {
        let ghost before = out@;
        let ghost db = diagnostics_view(diags@);
        let r = type_as_rtk_lua_type_value(tab, &fs[i].ty, visited, diags);
        let ghost da = diagnostics_view(diags@);
        match r {
            Err(e) => {
                proof {
                    lemma_fields_err(*tab, vis, *fs, i + 1, fs.len() as int);
                }
                return Err(e);
            },
            Ok(None) => {
                let d = Diagnostic::FieldSkipped { owner: clone_location(owner), field: fs[i].name.clone() };
                diags.push(d);
                proof {
                    assert(diagnostics_view(diags@) =~= da.push(diagnostic_view(d)));
                    assert(diagnostics_view(diags@) =~= diagnostics_view(old(diags)@) + fields_warnings(*tab, vis, *fs, owner@, i + 1));
                }
            },
            Ok(Some(m)) => {
                let field = StructTypeValueField {
                    name: field_name(&fs[i], i),
                    doc_comment: doc_comment_for_did(&fs[i].attrs),
                    attributes: attributes_for_did(&fs[i].attrs),
                    value: m,
                };
                out.push(field);
                proof {
                    assert(fields_view(out@) =~= fields_view(before).push(field_view(field)));
                    assert(diagnostics_view(diags@) =~= diagnostics_view(old(diags)@) + fields_warnings(*tab, vis, *fs, owner@, i + 1));
                }
            },
        }
        i = i + 1;
    }
    Ok(out)
}

/// Elevates the variants `vs` of the enum at `loc` held by table entry
/// `owner`.
fn elevate_variants_exec(
    tab: &TypeTable,
    vs: &Vec<NativeVariant>,
    loc: &Location,
    owner: usize,
    visited: &mut Vec<usize>,
    diags: &mut Vec<Diagnostic>,
) -> (r: Result<Vec<EnumTypeValueVariant>, FatalError>)
    requires
        wf_visited(*tab, old(visited)@),
    ensures
        final(visited)@ == old(visited)@,
        r is Ok ==> diagnostics_view(final(diags)@) == diagnostics_view(old(diags)@) + variants_warnings(*tab, old(visited)@, *vs, loc@, vs.len() as int),
        match r {
            Ok(out) => elevate_variants(*tab, old(visited)@, *vs, loc@, owner, vs.len() as int) == Ok::<Seq<VariantModel>, FatalError>(variants_view(out@)),
            Err(e) => elevate_variants(*tab, old(visited)@, *vs, loc@, owner, vs.len() as int) == Err::<Seq<VariantModel>, FatalError>(e),
        },
    decreases 4 * unvisited(*tab, old(visited)@) + 6, vs, vs.len() as int,
{
    let ghost vis = visited@;
    let mut out: Vec<EnumTypeValueVariant> = Vec::new();
    let mut i: usize = 0;
    proof {
        assert(variants_view(out@) =~= Seq::empty());
        assert(diagnostics_view(diags@) =~= diagnostics_view(old(diags)@) + Seq::<DiagnosticModel>::empty());
    }
    while i < vs.len()
        invariant
            i <= vs@.len(),
            visited@ == vis,
            vis == old(visited)@,
            wf_visited(*tab, vis),
            elevate_variants(*tab, vis, *vs, loc@, owner, i as int) == Ok::<Seq<VariantModel>, FatalError>(variants_view(out@)),
            diagnostics_view(diags@) == diagnostics_view(old(diags)@) + variants_warnings(*tab, vis, *vs, loc@, i as int),
        decreases vs@.len() - i,
    {
        let ghost before = out@;
        let v = &vs[i];
        let ghost db = diagnostics_view(diags@);
        let fields = match elevate_fields_exec(tab, &v.fields, loc, visited, diags) {
            Ok(x) => x,
            Err(e) => {
                proof {
                    lemma_variants_err(*tab, vis, *vs, loc@, owner, i + 1, vs.len() as int);
                }
                return Err(e);
            },
        };
        let value = if v.fields.len() == 0 || owner >= tab.adts.len() {
            None
        } else {
            let st = StructTypeValue {
                location: clone_location(loc),
                fields,
                doc_comment: doc_comment_for_did(&tab.adts[owner].attrs),
                attributes: attributes_for_did(&tab.adts[owner].attrs),
            };
            proof {
                crate::fact::lemma_struct_view(st);
            }
            Some(TypeValue::Struct(st))
        };
        let variant = EnumTypeValueVariant {
            name: v.name.clone(),
            value,
            doc_comment: doc_comment_for_did(&v.attrs),
            attributes: attributes_for_did(&v.attrs),
        };
        out.push(variant);
        proof {
            assert(elevate_variant(*tab, vis, vs@[i as int], loc@, owner) == Ok::<VariantModel, FatalError>(variant_view(variant)));
            assert(variants_view(out@) =~= variants_view(before).push(variant_view(variant)));
            assert(variants_warnings(*tab, vis, *vs, loc@, i + 1) == variants_warnings(*tab, vis, *vs, loc@, i as int)
                + variant_warnings(*tab, vis, vs@[i as int], loc@));
            assert(variant_warnings(*tab, vis, vs@[i as int], loc@) == fields_warnings(*tab, vis, v.fields, loc@, v.fields.len() as int));
            assert(diagnostics_view(diags@) =~= diagnostics_view(old(diags)@) + variants_warnings(*tab, vis, *vs, loc@, i + 1));
        }
        i = i + 1;
    }
    Ok(out)
}

/// The built-in form of a standard container, or `Ok(None)` when an argument
/// it needs does not elevate.
fn maybe_resolve_known_def_path(
    tab: &TypeTable,
    k: KnownType,
    args: &Vec<NativeType>,
    visited: &mut Vec<usize>,
    diags: &mut Vec<Diagnostic>,
) -> (r: Result<Option<TypeValue>, FatalError>)
    requires
        wf_visited(*tab, old(visited)@),
    ensures
        final(visited)@ == old(visited)@,
        type_result_view(r) == elevate_known(*tab, old(visited)@, k, *args),
        r is Ok ==> diagnostics_view(final(diags)@) == diagnostics_view(old(diags)@) + known_warnings(*tab, old(visited)@, k, *args),
    decreases 4 * unvisited(*tab, old(visited)@) + 3, args, 0int,
{
    let ghost d0 = diagnostics_view(diags@);
    proof {
        assert(d0 + Seq::<DiagnosticModel>::empty() =~= d0);
    }
    if k == KnownType::Text {
        return Ok(Some(TypeValue::String));
    }
    if args.len() == 0 {
        return Ok(None);
    }
    let first = match type_as_rtk_lua_type_value(tab, &args[0], visited, diags) {
        Ok(Some(m)) => m,
        other => return other,
    };
    let ghost d1 = diagnostics_view(diags@);
    proof {
        assert(d1 + Seq::<DiagnosticModel>::empty() =~= d1);
    }
    match k {
        KnownType::Boxed => Ok(Some(first)),
        KnownType::Optional => Ok(Some(TypeValue::Option(Box::new(first)))),
        KnownType::List => Ok(Some(TypeValue::Vec(Box::new(first)))),
        _ => {
            if args.len() < 2 {
                return Ok(None);
            }
            let r2 = type_as_rtk_lua_type_value(tab, &args[1], visited, diags);
            proof {
                if r2 is Ok {
                    let a = elevate_warnings(*tab, visited@, args@[0]);
                    let b = elevate_warnings(*tab, visited@, args@[1]);
                    assert(diagnostics_view(diags@) =~= d0 + (a + b));
                }
            }
            let second = match r2 {
                Ok(Some(m)) => m,
                other => return other,
            };
            proof {
                let a = elevate_warnings(*tab, visited@, args@[0]);
                let b = elevate_warnings(*tab, visited@, args@[1]);
                assert(diagnostics_view(diags@) =~= d0 + (a + b));
            }
            if k == KnownType::Outcome {
                Ok(Some(TypeValue::Result(Box::new(first), Box::new(second))))
            } else {
                Ok(Some(TypeValue::HashMap(Box::new(first), Box::new(second))))
            }
        },
    }
}

/// Elevates a struct, enum or union with generic arguments `args`, whose
/// declaration with those arguments is table entry `id`.
pub fn adt_type_as_rtk_lua_type_value(
    tab: &TypeTable,
    id: usize,
    args: &Vec<NativeType>,
    visited: &mut Vec<usize>,
    diags: &mut Vec<Diagnostic>,
) -> (r: Result<Option<TypeValue>, FatalError>)
    requires
        wf_visited(*tab, old(visited)@),
    ensures
        final(visited)@ == old(visited)@,
        type_result_view(r) == elevate_adt(*tab, old(visited)@, id, *args),
        r is Ok ==> diagnostics_view(final(diags)@) == diagnostics_view(old(diags)@) + adt_warnings(*tab, old(visited)@, id, *args),
    decreases 4 * unvisited(*tab, old(visited)@) + 3, args, 1int,
{
    let ghost d0 = diagnostics_view(diags@);
    proof {
        assert(d0 + Seq::<DiagnosticModel>::empty() =~= d0);
    }
    if id >= tab.adts.len() {
        return Ok(None);
    }
    let inst: &AdtInstance = &tab.adts[id];
    let loc = match def_path_to_rtk_location(&inst.def_path) {
        Ok(l) => l,
        Err(e) => return Err(e),
    };
    let text = fmt_rtk_location(&loc);
    match known_type(&text) {
        Some(k) => match maybe_resolve_known_def_path(tab, k, args, visited, diags) {
            Err(e) => return Err(e),
            Ok(Some(m)) => return Ok(Some(m)),
            Ok(None) => {},
        },
        None => {},
    }
    let ghost kw = match known_type_of(location_text(loc@)) {
        Some(k) => known_warnings(*tab, visited@, k, *args),
        None => Seq::<DiagnosticModel>::empty(),
    };
    assert(diagnostics_view(diags@) == d0 + kw);
    proof {
        assert(d0 + kw + Seq::<DiagnosticModel>::empty() =~= d0 + kw);
    }
    if contains_id(visited, id) {
        return Ok(Some(TypeValue::RecursiveRef(loc)));
    }
    proof {
        lemma_room_for(*tab, visited@, id);
    }
    let ghost vis = visited@;
    match &inst.kind {
        AdtKind::Union => {
            let d = Diagnostic::UnionSkipped(clone_location(&loc));
            diags.push(d);
            proof {
                assert(diagnostics_view(diags@) =~= d0 + kw + seq![diagnostic_view(d)]);
                assert(d0 + kw + seq![diagnostic_view(d)] =~= d0 + (kw + seq![diagnostic_view(d)]));
            }
            Ok(None)
        },
        AdtKind::Struct(fs) => {
            visited.push(id);
            let ghost d1 = diagnostics_view(diags@);
            let res = elevate_fields_exec(tab, fs, &loc, visited, diags);
            proof {
                if res is Ok {
                    let w = fields_warnings(*tab, vis.push(id), *fs, loc@, fs.len() as int);
                    assert(diagnostics_view(diags@) =~= d0 + (kw + w));
                }
            }
            visited.pop();
            proof {
                assert(visited@ =~= vis);
            }
            match res {
                Err(e) => Err(e),
                Ok(fields) => {
                    let st = StructTypeValue {
                        location: loc,
                        fields,
                        doc_comment: doc_comment_for_did(&inst.attrs),
                        attributes: attributes_for_did(&inst.attrs),
                    };
                    proof {
                        crate::fact::lemma_struct_view(st);
                    }
                    Ok(Some(TypeValue::Struct(st)))
                },
            }
        },
        AdtKind::Enum(vs) => {
            visited.push(id);
            let res = elevate_variants_exec(tab, vs, &loc, id, visited, diags);
            proof {
                if res is Ok {
                    let w = variants_warnings(*tab, vis.push(id), *vs, loc@, vs.len() as int);
                    assert(diagnostics_view(diags@) =~= d0 + (kw + w));
                }
            }
            visited.pop();
            proof {
                assert(visited@ =~= vis);
            }
            match res {
                Err(e) => Err(e),
                Ok(variants) => {
                    let en = EnumTypeValue {
                        location: loc,
                        variants,
                        doc_comment: doc_comment_for_did(&inst.attrs),
                        attributes: attributes_for_did(&inst.attrs),
                    };
                    proof {
                        crate::fact::lemma_enum_view(en);
                    }
                    Ok(Some(TypeValue::Enum(en)))
                },
            }
        },
    }
}

/// A union that is not on the branch and is no standard container has no
/// form, and elevating it reports it, naming its location.
pub proof fn lemma_union_reported(tab: TypeTable, visited: Seq<usize>, id: usize, args: Vec<NativeType>)
    requires
        wf_visited(tab, visited),
        id < tab.adts.len(),
        !visited.contains(id),
        tab.adts[id as int].kind is Union,
        location_of(tab.adts[id as int].def_path) matches Some(loc) && known_type_of(location_text(loc)) is None,
    ensures
        elevate(tab, visited, NativeType::Adt { id, args }) == Ok::<Option<TypeModel>, FatalError>(None),
        elevate_warnings(tab, visited, NativeType::Adt { id, args }) == seq![
            DiagnosticModel::UnionSkipped(location_of(tab.adts[id as int].def_path)->0),
        ],
{
    lemma_room_for(tab, visited, id);
    let t = NativeType::Adt { id, args };
    assert(elevate(tab, visited, t) == elevate_adt(tab, visited, id, args));
    assert(elevate_warnings(tab, visited, t) == adt_warnings(tab, visited, id, args));
    assert(Seq::<DiagnosticModel>::empty() + seq![DiagnosticModel::UnionSkipped(location_of(tab.adts[id as int].def_path)->0)]
        =~= seq![DiagnosticModel::UnionSkipped(location_of(tab.adts[id as int].def_path)->0)]);
}

/// A struct field whose type has no form is left out and reported, naming
/// the field and the declaration that holds it.
pub proof fn lemma_skipped_field_reported(tab: TypeTable, visited: Seq<usize>, fs: Vec<NativeField>, owner: LocationModel, n: int)
    requires
        0 < n <= fs.len(),
        elevate(tab, visited, fs[n - 1].ty) == Ok::<Option<TypeModel>, FatalError>(None),
    ensures
        elevate_fields(tab, visited, fs, n) == elevate_fields(tab, visited, fs, n - 1),
        fields_warnings(tab, visited, fs, owner, n) == fields_warnings(tab, visited, fs, owner, n - 1)
            + elevate_warnings(tab, visited, fs[n - 1].ty)
            + seq![DiagnosticModel::FieldSkipped { owner, field: fs[n - 1].name@ }],
{
}

/// Whether table entry `id` is the standard optional container.
pub open spec fn is_option_entry(tab: TypeTable, id: usize) -> bool {
    &&& id < tab.adts.len()
    &&& location_of(tab.adts[id as int].def_path) matches Some(loc)
    &&& known_type_of(location_text(loc)) == Some(KnownType::Optional)
}

/// An optional of a type that elevates folds into an optional of that type's
/// elevation.
pub proof fn lemma_option_folds(tab: TypeTable, visited: Seq<usize>, id: usize, args: Vec<NativeType>, m: TypeModel)
    requires
        is_option_entry(tab, id),
        args.len() >= 1,
        elevate(tab, visited, args[0]) == Ok::<Option<TypeModel>, FatalError>(Some(m)),
    ensures
        elevate(tab, visited, NativeType::Adt { id, args }) == Ok::<Option<TypeModel>, FatalError>(
            Some(TypeModel::Optional(Box::new(m))),
        ),
{
    let t = NativeType::Adt { id, args };
    assert(elevate(tab, visited, t) == elevate_adt(tab, visited, id, args));
    assert(elevate_known(tab, visited, KnownType::Optional, args) == Ok::<Option<TypeModel>, FatalError>(
        Some(TypeModel::Optional(Box::new(m))),
    ));
}

/// Folding composes without collapsing levels: an optional of an optional of
/// `T` elevates to an optional of an optional of the elevation of `T`.
pub proof fn lemma_option_option_folds(
    tab: TypeTable,
    visited: Seq<usize>,
    outer: usize,
    outer_args: Vec<NativeType>,
    inner: usize,
    inner_args: Vec<NativeType>,
    m: TypeModel,
)
    requires
        is_option_entry(tab, outer),
        is_option_entry(tab, inner),
        outer_args.len() >= 1,
        outer_args[0] == (NativeType::Adt { id: inner, args: inner_args }),
        inner_args.len() >= 1,
        elevate(tab, visited, inner_args[0]) == Ok::<Option<TypeModel>, FatalError>(Some(m)),
    ensures
        elevate(tab, visited, NativeType::Adt { id: outer, args: outer_args }) == Ok::<Option<TypeModel>, FatalError>(
            Some(TypeModel::Optional(Box::new(TypeModel::Optional(Box::new(m))))),
        ),
{
    lemma_option_folds(tab, visited, inner, inner_args, m);
    lemma_option_folds(tab, visited, outer, outer_args, TypeModel::Optional(Box::new(m)));
}

/// A declaration already on the branch that is not a folded container
/// elevates to a back-reference to its own location.
pub proof fn lemma_cycle_closes(tab: TypeTable, visited: Seq<usize>, id: usize, args: Vec<NativeType>)
    requires
        id < tab.adts.len(),
        visited.contains(id),
        location_of(tab.adts[id as int].def_path) matches Some(loc) && known_type_of(location_text(loc)) is None,
    ensures
        elevate(tab, visited, NativeType::Adt { id, args }) == Ok::<Option<TypeModel>, FatalError>(
            Some(TypeModel::RecursiveRef(location_of(tab.adts[id as int].def_path)->0)),
        ),
{
    let t = NativeType::Adt { id, args };
    assert(elevate(tab, visited, t) == elevate_adt(tab, visited, id, args));
}

pub open spec fn max_nat(a: nat, b: nat) -> nat {
    if a >= b {
        a
    } else {
        b
    }
}

/// How deeply declarations nest in a fact-model type: each struct or enum
/// counts once (the payload struct of an enum variant belongs to its enum).
pub open spec fn depth(t: TypeModel) -> nat
    decreases t, 0int,
{
    match t {
        TypeModel::HashMap(k, v) => max_nat(depth(*k), depth(*v)),
        TypeModel::Result(k, v) => max_nat(depth(*k), depth(*v)),
        TypeModel::List(e) => depth(*e),
        TypeModel::Optional(e) => depth(*e),
        TypeModel::Struct(s) => 1 + fields_depth(s.fields),
        TypeModel::Enum(e) => 1 + variants_depth(e.variants),
        TypeModel::Closure(c) => max_nat(types_depth(c.args), opt_depth(c.return_type)),
        TypeModel::Function(f) => max_nat(fields_depth(f.args_struct.fields), opt_depth(f.return_type)),
        TypeModel::Tuple(ts) => types_depth(ts),
        _ => 0,
    }
}

pub open spec fn opt_depth(o: Option<Box<TypeModel>>) -> nat
    decreases o, 0int,
{
    match o {
        Some(t) => depth(*t),
        None => 0,
    }
}

pub open spec fn types_depth(ts: Seq<TypeModel>) -> nat
    decreases ts, 0int,
{
    if ts.len() == 0 {
        0
    } else {
        max_nat(types_depth(ts.drop_last()), depth(ts.last()))
    }
}

pub open spec fn fields_depth(fs: Seq<FieldModel>) -> nat
    decreases fs, 0int,
{
    if fs.len() == 0 {
        0
    } else {
        max_nat(fields_depth(fs.drop_last()), depth(fs.last().value))
    }
}

/// A variant's payload struct is described by its fields alone.
pub open spec fn variants_depth(vs: Seq<VariantModel>) -> nat
    decreases vs, 0int,
{
    if vs.len() == 0 {
        0
    } else {
        max_nat(variants_depth(vs.drop_last()), match vs.last().value {
            Some(TypeModel::Struct(s)) => fields_depth(s.fields),
            Some(t) => depth(t),
            None => 0,
        })
    }
}

/// Elevation terminates (Verus checks the measure of every recursive call),
/// and declarations nest in its result no deeper than the number of table
/// entries not yet on the branch: each declaration appears at most once on
/// any path, its repeat being a back-reference.
pub proof fn lemma_depth_bounded(tab: TypeTable, visited: Seq<usize>, t: NativeType)
    ensures
        elevate(tab, visited, t) matches Ok(Some(m)) ==> depth(m) <= unvisited(tab, visited),
    decreases 4 * unvisited(tab, visited) + 3, t, 0int,
{
    match t {
        NativeType::Ref(inner) => lemma_depth_bounded(tab, visited, *inner),
        NativeType::Tuple(v) => lemma_list_depth(tab, visited, v, v.len() as int),
        NativeType::Adt { id, args } => lemma_adt_depth(tab, visited, id, args),
        NativeType::Closure { inputs, output } => {
            lemma_list_depth(tab, visited, inputs, inputs.len() as int);
            lemma_depth_bounded(tab, visited, *output);
            if let Ok(Some(m)) = elevate(tab, visited, *output) {
                assert(opt_depth(box_opt(Some(m))) == depth(m));
            }
        },
        NativeType::FnDef(f) => lemma_fn_def_depth(tab, visited, *f),
        _ => {},
    }
}

proof fn lemma_list_depth(tab: TypeTable, visited: Seq<usize>, v: Vec<NativeType>, n: int)
    ensures
        elevate_list(tab, visited, v, n) matches Ok(ms) ==> types_depth(ms) <= unvisited(tab, visited),
    decreases 4 * unvisited(tab, visited) + 3, v, n,
{
    if 0 < n <= v.len() {
        lemma_list_depth(tab, visited, v, n - 1);
        lemma_depth_bounded(tab, visited, v[n - 1]);
        if let Ok(rest) = elevate_list(tab, visited, v, n - 1) {
            if let Ok(Some(m)) = elevate(tab, visited, v[n - 1]) {
                assert(rest.push(m).drop_last() =~= rest);
            }
        }
    }
}

proof fn lemma_params_depth(tab: TypeTable, visited: Seq<usize>, v: Vec<NativeType>, n: int, ta: bool)
    ensures
        elevate_params(tab, visited, v, n, ta) matches Ok(fs) ==> fields_depth(fs) <= unvisited(tab, visited),
    decreases 4 * unvisited(tab, visited) + 3, v, n,
{
    if 0 < n <= v.len() {
        lemma_params_depth(tab, visited, v, n - 1, ta);
        lemma_depth_bounded(tab, visited, v[n - 1]);
        if let Ok(rest) = elevate_params(tab, visited, v, n - 1, ta) {
            if let Ok(Some(m)) = elevate(tab, visited, v[n - 1]) {
                let f = FieldModel {
                    name: FieldNameModel::Index((n - 1) as usize),
                    doc_comment: None,
                    attributes: if ta { type_attributes(tab, v[n - 1]) } else { Seq::empty() },
                    value: m,
                };
                assert(rest.push(f).drop_last() =~= rest);
            }
        }
    }
}

proof fn lemma_output_depth(tab: TypeTable, visited: Seq<usize>, t: NativeType, is_async: bool)
    ensures
        elevate_output(tab, visited, t, is_async) matches Ok(Some(m)) ==> depth(m) <= unvisited(tab, visited),
    decreases 4 * unvisited(tab, visited) + 3, t, 1int,
{
    if !is_async {
        lemma_depth_bounded(tab, visited, t);
    } else {
        match t {
            NativeType::Opaque(inner) => lemma_output_depth(tab, visited, *inner, true),
            NativeType::Coroutine { output } => lemma_depth_bounded(tab, visited, *output),
            _ => {},
        }
    }
}

proof fn lemma_fn_def_depth(tab: TypeTable, visited: Seq<usize>, f: NativeFnDef)
    ensures
        elevate_fn_def(tab, visited, f) matches Ok(fm) ==> depth(TypeModel::Function(fm)) <= unvisited(tab, visited),
    decreases 4 * unvisited(tab, visited) + 3, f, 0int,
{
    lemma_params_depth(tab, visited, f.inputs, f.inputs.len() as int, true);
    lemma_output_depth(tab, visited, f.output, f.is_async);
    if let Ok(Some(m)) = elevate_output(tab, visited, f.output, f.is_async) {
        assert(opt_depth(box_opt(Some(m))) == depth(m));
    }
    assert(opt_depth(box_opt(None)) == 0);
}

proof fn lemma_fields_depth(tab: TypeTable, visited: Seq<usize>, fs: Vec<NativeField>, n: int)
    ensures
        elevate_fields(tab, visited, fs, n) matches Ok(ms) ==> fields_depth(ms) <= unvisited(tab, visited),
    decreases 4 * unvisited(tab, visited) + 4, fs, n,
{
    if 0 < n <= fs.len() {
        lemma_fields_depth(tab, visited, fs, n - 1);
        lemma_depth_bounded(tab, visited, fs[n - 1].ty);
        if let Ok(rest) = elevate_fields(tab, visited, fs, n - 1) {
            if let Ok(Some(m)) = elevate(tab, visited, fs[n - 1].ty) {
                let f = FieldModel {
                    name: field_name_of(fs[n - 1], n - 1),
                    doc_comment: doc_comment_of(fs[n - 1].attrs@),
                    attributes: attributes_of(fs[n - 1].attrs@),
                    value: m,
                };
                assert(rest.push(f).drop_last() =~= rest);
            }
        }
    }
}

proof fn lemma_variants_depth(
    tab: TypeTable,
    visited: Seq<usize>,
    vs: Vec<NativeVariant>,
    loc: LocationModel,
    owner: usize,
    n: int,
)
    ensures
        elevate_variants(tab, visited, vs, loc, owner, n) matches Ok(ms) ==> variants_depth(ms) <= unvisited(tab, visited),
    decreases 4 * unvisited(tab, visited) + 6, vs, n,
{
    if 0 < n <= vs.len() {
        lemma_variants_depth(tab, visited, vs, loc, owner, n - 1);
        lemma_variant_depth(tab, visited, vs[n - 1], loc, owner);
        if let Ok(rest) = elevate_variants(tab, visited, vs, loc, owner, n - 1) {
            if let Ok(m) = elevate_variant(tab, visited, vs[n - 1], loc, owner) {
                assert(rest.push(m).drop_last() =~= rest);
            }
        }
    }
}

proof fn lemma_variant_depth(tab: TypeTable, visited: Seq<usize>, v: NativeVariant, loc: LocationModel, owner: usize)
    ensures
        elevate_variant(tab, visited, v, loc, owner) matches Ok(m) ==> (match m.value {
            Some(TypeModel::Struct(s)) => fields_depth(s.fields),
            Some(t) => depth(t),
            None => 0,
        }) <= unvisited(tab, visited),
    decreases 4 * unvisited(tab, visited) + 5, v, 0int,
{
    lemma_fields_depth(tab, visited, v.fields, v.fields.len() as int);
}

proof fn lemma_known_depth(tab: TypeTable, visited: Seq<usize>, k: KnownType, args: Vec<NativeType>)
    ensures
        elevate_known(tab, visited, k, args) matches Ok(Some(m)) ==> depth(m) <= unvisited(tab, visited),
    decreases 4 * unvisited(tab, visited) + 3, args, 0int,
{
    if args.len() >= 1 {
        lemma_depth_bounded(tab, visited, args[0]);
    }
    if args.len() >= 2 {
        lemma_depth_bounded(tab, visited, args[1]);
    }
}

proof fn lemma_adt_depth(tab: TypeTable, visited: Seq<usize>, id: usize, args: Vec<NativeType>)
    ensures
        elevate_adt(tab, visited, id, args) matches Ok(Some(m)) ==> depth(m) <= unvisited(tab, visited),
    decreases 4 * unvisited(tab, visited) + 3, args, 1int,
{
    if id < tab.adts.len() {
        let inst = tab.adts[id as int];
        if let Some(loc) = location_of(inst.def_path) {
            if let Some(k) = known_type_of(location_text(loc)) {
                lemma_known_depth(tab, visited, k, args);
            }
            if !visited.contains(id) && visited.len() < tab.adts.len() {
                let pushed = visited.push(id);
                assert(unvisited(tab, pushed) == unvisited(tab, visited) - 1);
                match inst.kind {
                    AdtKind::Struct(fs) => lemma_fields_depth(tab, pushed, fs, fs.len() as int),
                    AdtKind::Enum(vs) => lemma_variants_depth(tab, pushed, vs, loc, id, vs.len() as int),
                    AdtKind::Union => {},
                }
            }
        }
    }
}

} // verus!
