//! The fact model: the portable values that elevation produces and queries
//! return, each with its mathematical model.

use vstd::prelude::*;

use crate::location::{Location, LocationModel, MethodCallQuery, MethodCallQueryModel};

verus! {

broadcast use vstd::std_specs::vec::axiom_vec_index_decreases;

/// An attribute in the source: its name and its argument text.
#[derive(Clone, Debug)]
pub struct Attribute {
    pub name: String,
    /// For `#[rename = "x"]` this is `"x"` with its quotes.
    pub value_str: Option<String>,
}

/// The name of a struct field: its position in a tuple struct, or its name.
#[derive(Clone, Debug)]
pub enum FieldName {
    Index(usize),
    Named(String),
}

#[derive(Debug)]
pub struct StructTypeValueField {
    pub name: FieldName,
    pub doc_comment: Option<String>,
    pub attributes: Vec<Attribute>,
    pub value: TypeValue,
}

#[derive(Debug)]
pub struct StructTypeValue {
    pub location: Location,
    pub fields: Vec<StructTypeValueField>,
    pub doc_comment: Option<String>,
    pub attributes: Vec<Attribute>,
}

#[derive(Debug)]
pub struct EnumTypeValueVariant {
    pub name: String,
    /// The payload of the variant; a unit variant has none.
    pub value: Option<TypeValue>,
    pub doc_comment: Option<String>,
    pub attributes: Vec<Attribute>,
}

#[derive(Debug)]
pub struct EnumTypeValue {
    pub location: Location,
    pub variants: Vec<EnumTypeValueVariant>,
    pub doc_comment: Option<String>,
    pub attributes: Vec<Attribute>,
}

/// A closure's parameter types and return type.
#[derive(Debug)]
pub struct ClosureTypeValue {
    pub args: Vec<TypeValue>,
    pub return_type: Option<Box<TypeValue>>,
}

/// A function: its parameters as a struct of positional fields, and for an
/// asynchronous function the type its future resolves to.
#[derive(Debug)]
pub struct FunctionTypeValue {
    pub location: Location,
    pub args_struct: StructTypeValue,
    pub return_type: Option<Box<TypeValue>>,
    pub item_id: String,
    pub attributes: Vec<Attribute>,
    pub doc_comment: Option<String>,
    pub is_async: bool,
}

/// A type, as the fact model describes it.
#[derive(Debug)]
pub enum TypeValue {
    String,
    U8,
    U16,
    U32,
    U64,
    U128,
    Usize,
    I8,
    I16,
    I32,
    I64,
    I128,
    Isize,
    F32,
    F64,
    Bool,
    HashMap(Box<TypeValue>, Box<TypeValue>),
    Vec(Box<TypeValue>),
    Result(Box<TypeValue>, Box<TypeValue>),
    Struct(StructTypeValue),
    Enum(EnumTypeValue),
    Closure(ClosureTypeValue),
    Function(FunctionTypeValue),
    Option(Box<TypeValue>),
    Tuple(Vec<TypeValue>),
    /// A type already being described further up: the back edge of a cycle.
    RecursiveRef(Location),
}

pub struct AttributeModel {
    pub name: Seq<char>,
    pub value_str: Option<Seq<char>>,
}

pub enum FieldNameModel {
    Index(usize),
    Named(Seq<char>),
}

pub struct FieldModel {
    pub name: FieldNameModel,
    pub doc_comment: Option<Seq<char>>,
    pub attributes: Seq<AttributeModel>,
    pub value: TypeModel,
}

pub struct StructModel {
    pub location: LocationModel,
    pub fields: Seq<FieldModel>,
    pub doc_comment: Option<Seq<char>>,
    pub attributes: Seq<AttributeModel>,
}

pub struct VariantModel {
    pub name: Seq<char>,
    pub value: Option<TypeModel>,
    pub doc_comment: Option<Seq<char>>,
    pub attributes: Seq<AttributeModel>,
}

pub struct EnumModel {
    pub location: LocationModel,
    pub variants: Seq<VariantModel>,
    pub doc_comment: Option<Seq<char>>,
    pub attributes: Seq<AttributeModel>,
}

pub struct ClosureModel {
    pub args: Seq<TypeModel>,
    pub return_type: Option<Box<TypeModel>>,
}

pub struct FunctionModel {
    pub location: LocationModel,
    pub args_struct: StructModel,
    pub return_type: Option<Box<TypeModel>>,
    pub item_id: Seq<char>,
    pub attributes: Seq<AttributeModel>,
    pub doc_comment: Option<Seq<char>>,
    pub is_async: bool,
}

/// The mathematical value of a [`TypeValue`].
pub enum TypeModel {
    Text,
    U8,
    U16,
    U32,
    U64,
    U128,
    Usize,
    I8,
    I16,
    I32,
    I64,
    I128,
    Isize,
    F32,
    F64,
    Bool,
    HashMap(Box<TypeModel>, Box<TypeModel>),
    List(Box<TypeModel>),
    Result(Box<TypeModel>, Box<TypeModel>),
    Struct(StructModel),
    Enum(EnumModel),
    Closure(ClosureModel),
    Function(FunctionModel),
    Optional(Box<TypeModel>),
    Tuple(Seq<TypeModel>),
    RecursiveRef(LocationModel),
}

pub open spec fn opt_text(s: Option<String>) -> Option<Seq<char>> {
    match s {
        Some(t) => Some(t@),
        None => None,
    }
}

pub open spec fn attribute_view(a: Attribute) -> AttributeModel {
    AttributeModel { name: a.name@, value_str: opt_text(a.value_str) }
}

pub open spec fn attributes_view(v: Seq<Attribute>) -> Seq<AttributeModel> {
    v.map_values(|a: Attribute| attribute_view(a))
}

pub open spec fn field_name_view(n: FieldName) -> FieldNameModel {
    match n {
        FieldName::Index(i) => FieldNameModel::Index(i),
        FieldName::Named(s) => FieldNameModel::Named(s@),
    }
}

/// The mathematical value of a type.
pub open spec fn type_view(t: TypeValue) -> TypeModel
    decreases t,
{
    match t {
        TypeValue::String => TypeModel::Text,
        TypeValue::U8 => TypeModel::U8,
        TypeValue::U16 => TypeModel::U16,
        TypeValue::U32 => TypeModel::U32,
        TypeValue::U64 => TypeModel::U64,
        TypeValue::U128 => TypeModel::U128,
        TypeValue::Usize => TypeModel::Usize,
        TypeValue::I8 => TypeModel::I8,
        TypeValue::I16 => TypeModel::I16,
        TypeValue::I32 => TypeModel::I32,
        TypeValue::I64 => TypeModel::I64,
        TypeValue::I128 => TypeModel::I128,
        TypeValue::Isize => TypeModel::Isize,
        TypeValue::F32 => TypeModel::F32,
        TypeValue::F64 => TypeModel::F64,
        TypeValue::Bool => TypeModel::Bool,
        TypeValue::HashMap(k, v) => TypeModel::HashMap(Box::new(type_view(*k)), Box::new(type_view(*v))),
        TypeValue::Vec(e) => TypeModel::List(Box::new(type_view(*e))),
        TypeValue::Result(o, e) => TypeModel::Result(Box::new(type_view(*o)), Box::new(type_view(*e))),
        TypeValue::Struct(s) => TypeModel::Struct(struct_view(s)),
        TypeValue::Enum(e) => TypeModel::Enum(enum_view(e)),
        TypeValue::Closure(c) => TypeModel::Closure(closure_view(c)),
        TypeValue::Function(f) => TypeModel::Function(function_view(f)),
        TypeValue::Option(e) => TypeModel::Optional(Box::new(type_view(*e))),
        TypeValue::Tuple(v) => TypeModel::Tuple(
            Seq::new(v.len() as nat, |i: int| if 0 <= i < v.len() { type_view(v[i]) } else { TypeModel::Bool }),
        ),
        TypeValue::RecursiveRef(l) => TypeModel::RecursiveRef(l@),
    }
}

pub open spec fn field_view(f: StructTypeValueField) -> FieldModel
    decreases f,
{
    FieldModel {
        name: field_name_view(f.name),
        doc_comment: opt_text(f.doc_comment),
        attributes: attributes_view(f.attributes@),
        value: type_view(f.value),
    }
}

pub open spec fn struct_view(s: StructTypeValue) -> StructModel
    decreases s,
{
    StructModel {
        location: s.location@,
        fields: Seq::new(
            s.fields.len() as nat,
            |i: int| if 0 <= i < s.fields.len() { field_view(s.fields[i]) } else { arbitrary() },
        ),
        doc_comment: opt_text(s.doc_comment),
        attributes: attributes_view(s.attributes@),
    }
}

pub open spec fn variant_view(v: EnumTypeValueVariant) -> VariantModel
    decreases v,
{
    VariantModel {
        name: v.name@,
        value: match v.value {
            Some(t) => Some(type_view(t)),
            None => None,
        },
        doc_comment: opt_text(v.doc_comment),
        attributes: attributes_view(v.attributes@),
    }
}

pub open spec fn enum_view(e: EnumTypeValue) -> EnumModel
    decreases e,
{
    EnumModel {
        location: e.location@,
        variants: Seq::new(
            e.variants.len() as nat,
            |i: int| if 0 <= i < e.variants.len() { variant_view(e.variants[i]) } else { arbitrary() },
        ),
        doc_comment: opt_text(e.doc_comment),
        attributes: attributes_view(e.attributes@),
    }
}

pub open spec fn closure_view(c: ClosureTypeValue) -> ClosureModel
    decreases c,
{
    ClosureModel {
        args: Seq::new(
            c.args.len() as nat,
            |i: int| if 0 <= i < c.args.len() { type_view(c.args[i]) } else { TypeModel::Bool },
        ),
        return_type: match c.return_type {
            Some(t) => Some(Box::new(type_view(*t))),
            None => None,
        },
    }
}

pub open spec fn function_view(f: FunctionTypeValue) -> FunctionModel
    decreases f,
{
    FunctionModel {
        location: f.location@,
        args_struct: struct_view(f.args_struct),
        return_type: match f.return_type {
            Some(t) => Some(Box::new(type_view(*t))),
            None => None,
        },
        item_id: f.item_id@,
        attributes: attributes_view(f.attributes@),
        doc_comment: opt_text(f.doc_comment),
        is_async: f.is_async,
    }
}

pub open spec fn opt_type_view(o: Option<TypeValue>) -> Option<TypeModel> {
    match o {
        Some(t) => Some(type_view(t)),
        None => None,
    }
}

/// The mathematical value of an elevation's outcome.
pub open spec fn type_result_view(r: Result<Option<TypeValue>, crate::location::FatalError>) -> Result<
    Option<TypeModel>,
    crate::location::FatalError,
> {
    match r {
        Ok(o) => Ok(opt_type_view(o)),
        Err(e) => Err(e),
    }
}

pub open spec fn types_view(s: Seq<TypeValue>) -> Seq<TypeModel> {
    s.map_values(|t: TypeValue| type_view(t))
}

pub open spec fn fields_view(s: Seq<StructTypeValueField>) -> Seq<FieldModel> {
    s.map_values(|f: StructTypeValueField| field_view(f))
}

pub open spec fn variants_view(s: Seq<EnumTypeValueVariant>) -> Seq<VariantModel> {
    s.map_values(|v: EnumTypeValueVariant| variant_view(v))
}

pub proof fn lemma_tuple_view(v: Vec<TypeValue>)
    ensures
        type_view(TypeValue::Tuple(v)) == TypeModel::Tuple(types_view(v@)),
{
    let a = types_view(v@);
    let t = TypeValue::Tuple(v);
    let b = type_view(t)->Tuple_0;
    assert(type_view(t) is Tuple);
    assert(b.len() == v.len());
    assert forall|i: int| 0 <= i < v.len() implies b[i] == type_view(v@[i]) by {}
    assert(a =~= b);
}

pub proof fn lemma_closure_view(c: ClosureTypeValue)
    ensures
        closure_view(c).args == types_view(c.args@),
{
    let a = types_view(c.args@);
    let b = Seq::new(c.args.len() as nat, |i: int| if 0 <= i < c.args.len() { type_view(c.args[i]) } else { TypeModel::Bool });
    assert(a =~= b);
}

pub proof fn lemma_struct_view(s: StructTypeValue)
    ensures
        struct_view(s).fields == fields_view(s.fields@),
{
    assert(struct_view(s).fields =~= fields_view(s.fields@));
}

pub proof fn lemma_enum_view(e: EnumTypeValue)
    ensures
        enum_view(e).variants == variants_view(e.variants@),
{
    assert(enum_view(e).variants =~= variants_view(e.variants@));
}

/// An expression, as the fact model describes it.
#[derive(Debug)]
pub enum Value {
    StringLiteral(String),
    IntegerLiteral(i64),
    /// A floating-point literal, by the bits of its IEEE 754 binary64 value.
    FloatLiteral(u64),
    FunctionCall(FunctionCall),
    MethodCall(MethodCall),
    /// An expression described only by its static type.
    Type(TypeValue),
}

/// A call of a method.
#[derive(Debug)]
pub struct MethodCall {
    /// The query this call answers: the method's location and, when the
    /// receiver is itself a method call, that call's query as parent.
    pub origin: MethodCallQuery,
    pub args: Vec<Value>,
    /// The item whose body holds the call.
    pub in_item_id: String,
}

/// A call of a function.
#[derive(Debug)]
pub struct FunctionCall {
    pub location: Location,
    pub args: Vec<Value>,
    pub in_item_id: String,
}

/// The implementation of a trait for a type.
#[derive(Debug)]
pub struct TraitImpl {
    pub trait_location: Location,
    pub for_type: TypeValue,
    pub functions: Vec<FunctionTypeValue>,
}

pub struct MethodCallModel {
    pub origin: MethodCallQueryModel,
    pub args: Seq<ValueModel>,
    pub in_item_id: Seq<char>,
}

pub struct FunctionCallModel {
    pub location: LocationModel,
    pub args: Seq<ValueModel>,
    pub in_item_id: Seq<char>,
}

/// The mathematical value of a [`Value`].
pub enum ValueModel {
    StringLiteral(Seq<char>),
    IntegerLiteral(i64),
    FloatLiteral(u64),
    FunctionCall(FunctionCallModel),
    MethodCall(MethodCallModel),
    Type(TypeModel),
}

pub struct TraitImplModel {
    pub trait_location: LocationModel,
    pub for_type: TypeModel,
    pub functions: Seq<FunctionModel>,
}

/// The mathematical value of an expression fact.
pub open spec fn value_view(v: Value) -> ValueModel
    decreases v,
{
    match v {
        Value::StringLiteral(s) => ValueModel::StringLiteral(s@),
        Value::IntegerLiteral(i) => ValueModel::IntegerLiteral(i),
        Value::FloatLiteral(b) => ValueModel::FloatLiteral(b),
        Value::FunctionCall(c) => ValueModel::FunctionCall(function_call_view(c)),
        Value::MethodCall(c) => ValueModel::MethodCall(method_call_view(c)),
        Value::Type(t) => ValueModel::Type(type_view(t)),
    }
}

pub open spec fn method_call_view(c: MethodCall) -> MethodCallModel
    decreases c,
{
    MethodCallModel {
        origin: c.origin@,
        args: Seq::new(
            c.args.len() as nat,
            |i: int| if 0 <= i < c.args.len() { value_view(c.args[i]) } else { ValueModel::IntegerLiteral(0) },
        ),
        in_item_id: c.in_item_id@,
    }
}

pub open spec fn function_call_view(c: FunctionCall) -> FunctionCallModel
    decreases c,
{
    FunctionCallModel {
        location: c.location@,
        args: Seq::new(
            c.args.len() as nat,
            |i: int| if 0 <= i < c.args.len() { value_view(c.args[i]) } else { ValueModel::IntegerLiteral(0) },
        ),
        in_item_id: c.in_item_id@,
    }
}

pub open spec fn values_view(s: Seq<Value>) -> Seq<ValueModel> {
    s.map_values(|v: Value| value_view(v))
}

pub open spec fn functions_view(s: Seq<FunctionTypeValue>) -> Seq<FunctionModel> {
    s.map_values(|f: FunctionTypeValue| function_view(f))
}

pub open spec fn method_calls_view(s: Seq<MethodCall>) -> Seq<MethodCallModel> {
    s.map_values(|c: MethodCall| method_call_view(c))
}

pub open spec fn function_calls_view(s: Seq<FunctionCall>) -> Seq<FunctionCallModel> {
    s.map_values(|c: FunctionCall| function_call_view(c))
}

pub open spec fn trait_impl_view(t: TraitImpl) -> TraitImplModel {
    TraitImplModel {
        trait_location: t.trait_location@,
        for_type: type_view(t.for_type),
        functions: functions_view(t.functions@),
    }
}

pub open spec fn trait_impls_view(s: Seq<TraitImpl>) -> Seq<TraitImplModel> {
    s.map_values(|t: TraitImpl| trait_impl_view(t))
}

pub proof fn lemma_method_call_view(c: MethodCall)
    ensures
        method_call_view(c).args == values_view(c.args@),
{
    let a = values_view(c.args@);
    let b = method_call_view(c).args;
    assert(b.len() == c.args.len());
    assert forall|i: int| 0 <= i < c.args.len() implies b[i] == value_view(c.args@[i]) by {}
    assert(a =~= b);
}

pub proof fn lemma_function_call_view(c: FunctionCall)
    ensures
        function_call_view(c).args == values_view(c.args@),
{
    let a = values_view(c.args@);
    let b = function_call_view(c).args;
    assert(b.len() == c.args.len());
    assert forall|i: int| 0 <= i < c.args.len() implies b[i] == value_view(c.args@[i]) by {}
    assert(a =~= b);
}

} // verus!
