//! How the fact model is handed to the scripting host: products become
//! records, unions become tagged pairs `{ variant_name, variant_data }`.

use vstd::prelude::*;

use crate::bridge::{
    encode_location, encode_query, entries_view, field_entry, lemma_list_view, lemma_record_view,
    location_into_script, query_into_script, script_view, scripts_view, ScriptField, ScriptModel,
    ScriptValue,
};
use crate::fact::{
    attribute_view, attributes_view, field_view, function_view, lemma_closure_view, lemma_enum_view,
    lemma_function_call_view, lemma_method_call_view, lemma_struct_view, lemma_tuple_view, opt_text,
    type_view, value_view, variant_view, closure_view, enum_view, struct_view, method_call_view,
    function_call_view, trait_impl_view, Attribute, AttributeModel, ClosureModel, ClosureTypeValue,
    EnumModel, EnumTypeValue, EnumTypeValueVariant, FieldModel, FieldName, FieldNameModel,
    FunctionCall, FunctionCallModel, FunctionModel, FunctionTypeValue, MethodCall, MethodCallModel,
    StructModel, StructTypeValue, StructTypeValueField, TraitImpl, TraitImplModel, TypeModel,
    TypeValue, Value, ValueModel, VariantModel,
};

verus! {

/// A union value as the pair `{ variant_name, variant_data }`.
pub open spec fn tagged(name: Seq<char>, data: ScriptModel) -> ScriptModel {
    ScriptModel::Record(seq![("variant_name"@, ScriptModel::Str(name)), ("variant_data"@, data)])
}

pub open spec fn opt_str(o: Option<Seq<char>>) -> ScriptModel {
    match o {
        Some(s) => ScriptModel::Str(s),
        None => ScriptModel::Nil,
    }
}

pub open spec fn encode_attribute(a: AttributeModel) -> ScriptModel {
    ScriptModel::Record(seq![("name"@, ScriptModel::Str(a.name)), ("value_str"@, opt_str(a.value_str))])
}

pub open spec fn encode_attributes(s: Seq<AttributeModel>) -> ScriptModel {
    ScriptModel::List(s.map_values(|a: AttributeModel| encode_attribute(a)))
}

/// A field name is handed over bare: its position or its name.
pub open spec fn encode_field_name(n: FieldNameModel) -> ScriptModel {
    match n {
        FieldNameModel::Index(i) => ScriptModel::Integer(i as int),
        FieldNameModel::Named(s) => ScriptModel::Str(s),
    }
}

/// The script value of a type: a tagged pair named after the variant. The
/// payload of a map or a result is not handed over.
pub open spec fn encode_type(t: TypeModel) -> ScriptModel
    decreases t,
{
    match t {
        TypeModel::Text => tagged("String"@, ScriptModel::Nil),
        TypeModel::U8 => tagged("U8"@, ScriptModel::Nil),
        TypeModel::U16 => tagged("U16"@, ScriptModel::Nil),
        TypeModel::U32 => tagged("U32"@, ScriptModel::Nil),
        TypeModel::U64 => tagged("U64"@, ScriptModel::Nil),
        TypeModel::U128 => tagged("U128"@, ScriptModel::Nil),
        TypeModel::Usize => tagged("Usize"@, ScriptModel::Nil),
        TypeModel::I8 => tagged("I8"@, ScriptModel::Nil),
        TypeModel::I16 => tagged("I16"@, ScriptModel::Nil),
        TypeModel::I32 => tagged("I32"@, ScriptModel::Nil),
        TypeModel::I64 => tagged("I64"@, ScriptModel::Nil),
        TypeModel::I128 => tagged("I128"@, ScriptModel::Nil),
        TypeModel::Isize => tagged("Isize"@, ScriptModel::Nil),
        TypeModel::F32 => tagged("F32"@, ScriptModel::Nil),
        TypeModel::F64 => tagged("F64"@, ScriptModel::Nil),
        TypeModel::Bool => tagged("Bool"@, ScriptModel::Nil),
        TypeModel::HashMap(_, _) => tagged("HashMap"@, ScriptModel::Nil),
        TypeModel::List(e) => tagged("Vec"@, encode_type(*e)),
        TypeModel::Result(_, _) => tagged("Result"@, ScriptModel::Nil),
        TypeModel::Struct(s) => tagged("Struct"@, encode_struct(s)),
        TypeModel::Enum(e) => tagged("Enum"@, encode_enum(e)),
        TypeModel::Closure(c) => tagged("Closure"@, encode_closure(c)),
        TypeModel::Function(f) => tagged("Function"@, encode_function(f)),
        TypeModel::Optional(e) => tagged("Option"@, encode_type(*e)),
        TypeModel::Tuple(ts) => tagged("Tuple"@, ScriptModel::List(
            Seq::new(ts.len(), |i: int| if 0 <= i < ts.len() { encode_type(ts[i]) } else { ScriptModel::Nil }),
        )),
        TypeModel::RecursiveRef(l) => tagged("RecursiveRef"@, encode_location(l)),
    }
}

pub open spec fn encode_opt_type(o: Option<Box<TypeModel>>) -> ScriptModel
    decreases o,
{
    match o {
        Some(t) => encode_type(*t),
        None => ScriptModel::Nil,
    }
}

pub open spec fn encode_field(f: FieldModel) -> ScriptModel
    decreases f,
{
    ScriptModel::Record(seq![
        ("name"@, encode_field_name(f.name)),
        ("doc_comment"@, opt_str(f.doc_comment)),
        ("attributes"@, encode_attributes(f.attributes)),
        ("value"@, encode_type(f.value)),
    ])
}

pub open spec fn encode_struct(s: StructModel) -> ScriptModel
    decreases s,
{
    ScriptModel::Record(seq![
        ("location"@, encode_location(s.location)),
        ("fields"@, ScriptModel::List(
            Seq::new(s.fields.len(), |i: int| if 0 <= i < s.fields.len() { encode_field(s.fields[i]) } else { ScriptModel::Nil }),
        )),
        ("doc_comment"@, opt_str(s.doc_comment)),
        ("attributes"@, encode_attributes(s.attributes)),
    ])
}

pub open spec fn encode_variant(v: VariantModel) -> ScriptModel
    decreases v,
{
    ScriptModel::Record(seq![
        ("name"@, ScriptModel::Str(v.name)),
        ("value"@, match v.value {
            Some(t) => encode_type(t),
            None => ScriptModel::Nil,
        }),
        ("doc_comment"@, opt_str(v.doc_comment)),
        ("attributes"@, encode_attributes(v.attributes)),
    ])
}

pub open spec fn encode_enum(e: EnumModel) -> ScriptModel
    decreases e,
{
    ScriptModel::Record(seq![
        ("location"@, encode_location(e.location)),
        ("variants"@, ScriptModel::List(
            Seq::new(e.variants.len(), |i: int| if 0 <= i < e.variants.len() { encode_variant(e.variants[i]) } else { ScriptModel::Nil }),
        )),
        ("doc_comment"@, opt_str(e.doc_comment)),
        ("attributes"@, encode_attributes(e.attributes)),
    ])
}

pub open spec fn encode_closure(c: ClosureModel) -> ScriptModel
    decreases c,
{
    ScriptModel::Record(seq![
        ("args"@, ScriptModel::List(
            Seq::new(c.args.len(), |i: int| if 0 <= i < c.args.len() { encode_type(c.args[i]) } else { ScriptModel::Nil }),
        )),
        ("return_type"@, match c.return_type {
            Some(t) => encode_type(*t),
            None => ScriptModel::Nil,
        }),
    ])
}

pub open spec fn encode_function(f: FunctionModel) -> ScriptModel
    decreases f,
{
    ScriptModel::Record(seq![
        ("location"@, encode_location(f.location)),
        ("args_struct"@, encode_struct(f.args_struct)),
        ("return_type"@, match f.return_type {
            Some(t) => encode_type(*t),
            None => ScriptModel::Nil,
        }),
        ("item_id"@, ScriptModel::Str(f.item_id)),
        ("attributes"@, encode_attributes(f.attributes)),
        ("doc_comment"@, opt_str(f.doc_comment)),
        ("is_async"@, ScriptModel::Boolean(f.is_async)),
    ])
}

pub open spec fn encode_value(v: ValueModel) -> ScriptModel
    decreases v,
{
    match v {
        ValueModel::StringLiteral(s) => tagged("StringLiteral"@, ScriptModel::Str(s)),
        ValueModel::IntegerLiteral(i) => tagged("IntegerLiteral"@, ScriptModel::Integer(i as int)),
        ValueModel::FloatLiteral(b) => tagged("FloatLiteral"@, ScriptModel::Number(b)),
        ValueModel::FunctionCall(c) => tagged("FunctionCall"@, encode_function_call(c)),
        ValueModel::MethodCall(c) => tagged("MethodCall"@, encode_method_call(c)),
        ValueModel::Type(t) => tagged("Type"@, encode_type(t)),
    }
}

pub open spec fn encode_method_call(c: MethodCallModel) -> ScriptModel
    decreases c,
{
    ScriptModel::Record(seq![
        ("origin"@, encode_query(c.origin)),
        ("args"@, ScriptModel::List(
            Seq::new(c.args.len(), |i: int| if 0 <= i < c.args.len() { encode_value(c.args[i]) } else { ScriptModel::Nil }),
        )),
        ("in_item_id"@, ScriptModel::Str(c.in_item_id)),
    ])
}

pub open spec fn encode_function_call(c: FunctionCallModel) -> ScriptModel
    decreases c,
{
    ScriptModel::Record(seq![
        ("location"@, encode_location(c.location)),
        ("args"@, ScriptModel::List(
            Seq::new(c.args.len(), |i: int| if 0 <= i < c.args.len() { encode_value(c.args[i]) } else { ScriptModel::Nil }),
        )),
        ("in_item_id"@, ScriptModel::Str(c.in_item_id)),
    ])
}

pub open spec fn encode_trait_impl(t: TraitImplModel) -> ScriptModel {
    ScriptModel::Record(seq![
        ("trait_location"@, encode_location(t.trait_location)),
        ("for_type"@, encode_type(t.for_type)),
        ("functions"@, ScriptModel::List(t.functions.map_values(|f: FunctionModel| encode_function(f)))),
    ])
}

fn entry(key: &str, value: ScriptValue) -> (r: ScriptField)
    ensures
        field_entry(r) == (key@, script_view(value)),
{
    ScriptField { key: String::from_str(key), value }
}

fn record(fields: Vec<ScriptField>) -> (r: ScriptValue)
    ensures
        script_view(r) == ScriptModel::Record(entries_view(fields@)),
{
    proof {
        lemma_record_view(fields);
    }
    ScriptValue::Record(fields)
}

fn list(items: Vec<ScriptValue>) -> (r: ScriptValue)
    ensures
        script_view(r) == ScriptModel::List(scripts_view(items@)),
{
    proof {
        lemma_list_view(items);
    }
    ScriptValue::List(items)
}

fn tagged_value(name: &str, data: ScriptValue) -> (r: ScriptValue)
    ensures
        script_view(r) == tagged(name@, script_view(data)),
{
    let fields = vec![entry("variant_name", ScriptValue::Str(String::from_str(name))), entry("variant_data", data)];
    let r = record(fields);
    proof {
        assert(entries_view(fields@) =~= tagged(name@, script_view(data))->Record_0);
    }
    r
}

fn opt_str_value(o: &Option<String>) -> (r: ScriptValue)
    ensures
        script_view(r) == opt_str(opt_text(*o)),
{
    match o {
        Some(s) => ScriptValue::Str(s.clone()),
        None => ScriptValue::Nil,
    }
}

/// Encodes an attribute as a record `{ name, value_str }`.
pub fn attribute_into_script(a: &Attribute) -> (r: ScriptValue)
    ensures
        script_view(r) == encode_attribute(attribute_view(*a)),
{
    let fields = vec![entry("name", ScriptValue::Str(a.name.clone())), entry("value_str", opt_str_value(&a.value_str))];
    let r = record(fields);
    proof {
        assert(entries_view(fields@) =~= encode_attribute(attribute_view(*a))->Record_0);
    }
    r
}

fn attributes_into_script(v: &Vec<Attribute>) -> (r: ScriptValue)
    ensures
        script_view(r) == encode_attributes(attributes_view(v@)),
{
    let mut items: Vec<ScriptValue> = Vec::new();
    let mut i: usize = 0;
    while i < v.len()
        invariant
            i <= v@.len(),
            items@.len() == i,
            forall|j: int| 0 <= j < i ==> #[trigger] scripts_view(items@)[j] == encode_attribute(attribute_view(v@[j])),
        decreases v@.len() - i,
    {
        let x = attribute_into_script(&v[i]);
        let ghost before = items@;
        items.push(x);
        proof {
            assert(items@ == before.push(x));
            assert(scripts_view(items@)[i as int] == script_view(x));
            assert(script_view(x) == encode_attribute(attribute_view(v@[i as int])));
            assert forall|j: int| 0 <= j < i + 1 implies #[trigger] scripts_view(items@)[j] == encode_attribute(attribute_view(v@[j])) by {
                if j < i {
                    assert(items@[j] == before[j]);
                    assert(scripts_view(before)[j] == encode_attribute(attribute_view(v@[j])));
                }
            }
        }
        i = i + 1;
    }
    let r = list(items);
    proof {
        assert(scripts_view(items@) =~= attributes_view(v@).map_values(|a: AttributeModel| encode_attribute(a)));
    }
    r
}

/// Encodes a type as a tagged pair.
pub fn type_into_script(t: &TypeValue) -> (r: ScriptValue)
    ensures
        script_view(r) == encode_type(type_view(*t)),
    decreases t,
{
    match t {
        TypeValue::String => tagged_value("String", ScriptValue::Nil),
        TypeValue::U8 => tagged_value("U8", ScriptValue::Nil),
        TypeValue::U16 => tagged_value("U16", ScriptValue::Nil),
        TypeValue::U32 => tagged_value("U32", ScriptValue::Nil),
        TypeValue::U64 => tagged_value("U64", ScriptValue::Nil),
        TypeValue::U128 => tagged_value("U128", ScriptValue::Nil),
        TypeValue::Usize => tagged_value("Usize", ScriptValue::Nil),
        TypeValue::I8 => tagged_value("I8", ScriptValue::Nil),
        TypeValue::I16 => tagged_value("I16", ScriptValue::Nil),
        TypeValue::I32 => tagged_value("I32", ScriptValue::Nil),
        TypeValue::I64 => tagged_value("I64", ScriptValue::Nil),
        TypeValue::I128 => tagged_value("I128", ScriptValue::Nil),
        TypeValue::Isize => tagged_value("Isize", ScriptValue::Nil),
        TypeValue::F32 => tagged_value("F32", ScriptValue::Nil),
        TypeValue::F64 => tagged_value("F64", ScriptValue::Nil),
        TypeValue::Bool => tagged_value("Bool", ScriptValue::Nil),
        TypeValue::HashMap(_, _) => tagged_value("HashMap", ScriptValue::Nil),
        TypeValue::Vec(e) => tagged_value("Vec", type_into_script(e)),
        TypeValue::Result(_, _) => tagged_value("Result", ScriptValue::Nil),
        TypeValue::Struct(s) => tagged_value("Struct", struct_into_script(s)),
        TypeValue::Enum(e) => tagged_value("Enum", enum_into_script(e)),
        TypeValue::Closure(c) => tagged_value("Closure", closure_into_script(c)),
        TypeValue::Function(f) => tagged_value("Function", function_into_script(f)),
        TypeValue::Option(e) => tagged_value("Option", type_into_script(e)),
        TypeValue::Tuple(ts) => {
            let l = types_into_script(ts);
            proof {
                lemma_tuple_view(*ts);
                let d = encode_type(type_view(*t))->Record_0[1].1;
                assert(script_view(l)->List_0 =~= d->List_0);
            }
            tagged_value("Tuple", l)
        },
        TypeValue::RecursiveRef(l) => tagged_value("RecursiveRef", location_into_script(l)),
    }
}

fn types_into_script(v: &Vec<TypeValue>) -> (r: ScriptValue)
    ensures
        script_view(r) is List,
        script_view(r)->List_0.len() == v@.len(),
        forall|j: int| 0 <= j < v@.len() ==> #[trigger] script_view(r)->List_0[j] == encode_type(type_view(v@[j])),
    decreases v,
{
    let mut items: Vec<ScriptValue> = Vec::new();
    let mut i: usize = 0;
    while i < v.len()
        invariant
            i <= v@.len(),
            items@.len() == i,
            forall|j: int| 0 <= j < i ==> #[trigger] scripts_view(items@)[j] == encode_type(type_view(v@[j])),
        decreases v@.len() - i,
    {
        let x = type_into_script(&v[i]);
        let ghost before = items@;
        items.push(x);
        proof {
            assert(items@ == before.push(x));
            assert(scripts_view(items@)[i as int] == script_view(x));
            assert forall|j: int| 0 <= j < i + 1 implies #[trigger] scripts_view(items@)[j] == encode_type(type_view(v@[j])) by {
                if j < i {
                    assert(items@[j] == before[j]);
                    assert(scripts_view(before)[j] == encode_type(type_view(v@[j])));
                }
            }
        }
        i = i + 1;
    }
    list(items)
}

fn field_into_script(f: &StructTypeValueField) -> (r: ScriptValue)
    ensures
        script_view(r) == encode_field(field_view(*f)),
    decreases f,
{
    let name = match &f.name {
        FieldName::Index(i) => ScriptValue::Integer(*i as i128),
        FieldName::Named(s) => ScriptValue::Str(s.clone()),
    };
    let fields = vec![
        entry("name", name),
        entry("doc_comment", opt_str_value(&f.doc_comment)),
        entry("attributes", attributes_into_script(&f.attributes)),
        entry("value", type_into_script(&f.value)),
    ];
    let r = record(fields);
    proof {
        assert(entries_view(fields@) =~= encode_field(field_view(*f))->Record_0);
    }
    r
}

fn fields_into_script(v: &Vec<StructTypeValueField>) -> (r: ScriptValue)
    ensures
        script_view(r) is List,
        script_view(r)->List_0.len() == v@.len(),
        forall|j: int| 0 <= j < v@.len() ==> #[trigger] script_view(r)->List_0[j] == encode_field(field_view(v@[j])),
    decreases v,
{
    let mut items: Vec<ScriptValue> = Vec::new();
    let mut i: usize = 0;
    while i < v.len()
        invariant
            i <= v@.len(),
            items@.len() == i,
            forall|j: int| 0 <= j < i ==> #[trigger] scripts_view(items@)[j] == encode_field(field_view(v@[j])),
        decreases v@.len() - i,
    {
        let x = field_into_script(&v[i]);
        let ghost before = items@;
        items.push(x);
        proof {
            assert(items@ == before.push(x));
            assert(scripts_view(items@)[i as int] == script_view(x));
            assert forall|j: int| 0 <= j < i + 1 implies #[trigger] scripts_view(items@)[j] == encode_field(field_view(v@[j])) by {
                if j < i {
                    assert(items@[j] == before[j]);
                    assert(scripts_view(before)[j] == encode_field(field_view(v@[j])));
                }
            }
        }
        i = i + 1;
    }
    list(items)
}

/// Encodes a struct description as a record.
pub fn struct_into_script(s: &StructTypeValue) -> (r: ScriptValue)
    ensures
        script_view(r) == encode_struct(struct_view(*s)),
    decreases s,
{
    let fs = fields_into_script(&s.fields);
    let fields = vec![
        entry("location", location_into_script(&s.location)),
        entry("fields", fs),
        entry("doc_comment", opt_str_value(&s.doc_comment)),
        entry("attributes", attributes_into_script(&s.attributes)),
    ];
    let r = record(fields);
    proof {
        lemma_struct_view(*s);
        let m = struct_view(*s);
        let es = encode_struct(m)->Record_0;
        assert(script_view(fs)->List_0 =~= es[1].1->List_0);
        assert(entries_view(fields@) =~= es);
    }
    r
}

fn variant_into_script(v: &EnumTypeValueVariant) -> (r: ScriptValue)
    ensures
        script_view(r) == encode_variant(variant_view(*v)),
    decreases v,
{
    let value = match &v.value {
        Some(t) => type_into_script(t),
        None => ScriptValue::Nil,
    };
    let fields = vec![
        entry("name", ScriptValue::Str(v.name.clone())),
        entry("value", value),
        entry("doc_comment", opt_str_value(&v.doc_comment)),
        entry("attributes", attributes_into_script(&v.attributes)),
    ];
    let r = record(fields);
    proof {
        assert(entries_view(fields@) =~= encode_variant(variant_view(*v))->Record_0);
    }
    r
}

fn variants_into_script(v: &Vec<EnumTypeValueVariant>) -> (r: ScriptValue)
    ensures
        script_view(r) is List,
        script_view(r)->List_0.len() == v@.len(),
        forall|j: int| 0 <= j < v@.len() ==> #[trigger] script_view(r)->List_0[j] == encode_variant(variant_view(v@[j])),
    decreases v,
{
    let mut items: Vec<ScriptValue> = Vec::new();
    let mut i: usize = 0;
    while i < v.len()
        invariant
            i <= v@.len(),
            items@.len() == i,
            forall|j: int| 0 <= j < i ==> #[trigger] scripts_view(items@)[j] == encode_variant(variant_view(v@[j])),
        decreases v@.len() - i,
    {
        let x = variant_into_script(&v[i]);
        let ghost before = items@;
        items.push(x);
        proof {
            assert(items@ == before.push(x));
            assert(scripts_view(items@)[i as int] == script_view(x));
            assert forall|j: int| 0 <= j < i + 1 implies #[trigger] scripts_view(items@)[j] == encode_variant(variant_view(v@[j])) by {
                if j < i {
                    assert(items@[j] == before[j]);
                    assert(scripts_view(before)[j] == encode_variant(variant_view(v@[j])));
                }
            }
        }
        i = i + 1;
    }
    list(items)
}

/// Encodes an enum description as a record.
pub fn enum_into_script(e: &EnumTypeValue) -> (r: ScriptValue)
    ensures
        script_view(r) == encode_enum(enum_view(*e)),
    decreases e,
{
    let vs = variants_into_script(&e.variants);
    let fields = vec![
        entry("location", location_into_script(&e.location)),
        entry("variants", vs),
        entry("doc_comment", opt_str_value(&e.doc_comment)),
        entry("attributes", attributes_into_script(&e.attributes)),
    ];
    let r = record(fields);
    proof {
        lemma_enum_view(*e);
        let m = enum_view(*e);
        let es = encode_enum(m)->Record_0;
        assert(script_view(vs)->List_0 =~= es[1].1->List_0);
        assert(entries_view(fields@) =~= es);
    }
    r
}

fn closure_into_script(c: &ClosureTypeValue) -> (r: ScriptValue)
    ensures
        script_view(r) == encode_closure(closure_view(*c)),
    decreases c,
{
    let args = types_into_script(&c.args);
    let ret = match &c.return_type {
        Some(t) => type_into_script(t),
        None => ScriptValue::Nil,
    };
    let fields = vec![entry("args", args), entry("return_type", ret)];
    let r = record(fields);
    proof {
        lemma_closure_view(*c);
        let m = closure_view(*c);
        let es = encode_closure(m)->Record_0;
        assert(script_view(args)->List_0 =~= es[0].1->List_0);
        assert(entries_view(fields@) =~= es);
    }
    r
}

/// Encodes a function description as a record.
pub fn function_into_script(f: &FunctionTypeValue) -> (r: ScriptValue)
    ensures
        script_view(r) == encode_function(function_view(*f)),
    decreases f,
{
    let ret = match &f.return_type {
        Some(t) => type_into_script(t),
        None => ScriptValue::Nil,
    };
    let fields = vec![
        entry("location", location_into_script(&f.location)),
        entry("args_struct", struct_into_script(&f.args_struct)),
        entry("return_type", ret),
        entry("item_id", ScriptValue::Str(f.item_id.clone())),
        entry("attributes", attributes_into_script(&f.attributes)),
        entry("doc_comment", opt_str_value(&f.doc_comment)),
        entry("is_async", ScriptValue::Boolean(f.is_async)),
    ];
    let r = record(fields);
    proof {
        assert(entries_view(fields@) =~= encode_function(function_view(*f))->Record_0);
    }
    r
}

/// Encodes an expression fact as a tagged pair.
pub fn value_into_script(v: &Value) -> (r: ScriptValue)
    ensures
        script_view(r) == encode_value(value_view(*v)),
    decreases v,
{
    match v {
        Value::StringLiteral(s) => tagged_value("StringLiteral", ScriptValue::Str(s.clone())),
        Value::IntegerLiteral(i) => tagged_value("IntegerLiteral", ScriptValue::Integer(*i as i128)),
        Value::FloatLiteral(b) => tagged_value("FloatLiteral", ScriptValue::Number(*b)),
        Value::FunctionCall(c) => tagged_value("FunctionCall", function_call_into_script(c)),
        Value::MethodCall(c) => tagged_value("MethodCall", method_call_into_script(c)),
        Value::Type(t) => tagged_value("Type", type_into_script(t)),
    }
}

fn values_into_script(v: &Vec<Value>) -> (r: ScriptValue)
    ensures
        script_view(r) is List,
        script_view(r)->List_0.len() == v@.len(),
        forall|j: int| 0 <= j < v@.len() ==> #[trigger] script_view(r)->List_0[j] == encode_value(value_view(v@[j])),
    decreases v,
{
    let mut items: Vec<ScriptValue> = Vec::new();
    let mut i: usize = 0;
    while i < v.len()
        invariant
            i <= v@.len(),
            items@.len() == i,
            forall|j: int| 0 <= j < i ==> #[trigger] scripts_view(items@)[j] == encode_value(value_view(v@[j])),
        decreases v@.len() - i,
    {
        let x = value_into_script(&v[i]);
        let ghost before = items@;
        items.push(x);
        proof {
            assert(items@ == before.push(x));
            assert(scripts_view(items@)[i as int] == script_view(x));
            assert forall|j: int| 0 <= j < i + 1 implies #[trigger] scripts_view(items@)[j] == encode_value(value_view(v@[j])) by {
                if j < i {
                    assert(items@[j] == before[j]);
                    assert(scripts_view(before)[j] == encode_value(value_view(v@[j])));
                }
            }
        }
        i = i + 1;
    }
    list(items)
}

/// Encodes a method call as a record `{ origin, args, in_item_id }`.
pub fn method_call_into_script(c: &MethodCall) -> (r: ScriptValue)
    ensures
        script_view(r) == encode_method_call(method_call_view(*c)),
    decreases c,
{
    let args = values_into_script(&c.args);
    let fields = vec![
        entry("origin", query_into_script(&c.origin)),
        entry("args", args),
        entry("in_item_id", ScriptValue::Str(c.in_item_id.clone())),
    ];
    let r = record(fields);
    proof {
        lemma_method_call_view(*c);
        let es = encode_method_call(method_call_view(*c))->Record_0;
        assert(script_view(args)->List_0 =~= es[1].1->List_0);
        assert(entries_view(fields@) =~= es);
    }
    r
}

/// Encodes a function call as a record `{ location, args, in_item_id }`.
pub fn function_call_into_script(c: &FunctionCall) -> (r: ScriptValue)
    ensures
        script_view(r) == encode_function_call(function_call_view(*c)),
    decreases c,
{
    let args = values_into_script(&c.args);
    let fields = vec![
        entry("location", location_into_script(&c.location)),
        entry("args", args),
        entry("in_item_id", ScriptValue::Str(c.in_item_id.clone())),
    ];
    let r = record(fields);
    proof {
        lemma_function_call_view(*c);
        let es = encode_function_call(function_call_view(*c))->Record_0;
        assert(script_view(args)->List_0 =~= es[1].1->List_0);
        assert(entries_view(fields@) =~= es);
    }
    r
}

/// Encodes a trait implementation as a record
/// `{ trait_location, for_type, functions }`.
pub fn trait_impl_into_script(t: &TraitImpl) -> (r: ScriptValue)
    ensures
        script_view(r) == encode_trait_impl(trait_impl_view(*t)),
{
    let mut items: Vec<ScriptValue> = Vec::new();
    let mut i: usize = 0;
    while i < t.functions.len()
        invariant
            i <= t.functions@.len(),
            items@.len() == i,
            forall|j: int| 0 <= j < i ==> #[trigger] scripts_view(items@)[j] == encode_function(function_view(t.functions@[j])),
        decreases t.functions@.len() - i,
    {
        let x = function_into_script(&t.functions[i]);
        let ghost before = items@;
        items.push(x);
        proof {
            assert(items@ == before.push(x));
            assert(scripts_view(items@)[i as int] == script_view(x));
            assert forall|j: int| 0 <= j < i + 1 implies #[trigger] scripts_view(items@)[j] == encode_function(function_view(t.functions@[j])) by {
                if j < i {
                    assert(items@[j] == before[j]);
                    assert(scripts_view(before)[j] == encode_function(function_view(t.functions@[j])));
                }
            }
        }
        i = i + 1;
    }
    let fns = list(items);
    let fields = vec![
        entry("trait_location", location_into_script(&t.trait_location)),
        entry("for_type", type_into_script(&t.for_type)),
        entry("functions", fns),
    ];
    let r = record(fields);
    proof {
        let es = encode_trait_impl(trait_impl_view(*t))->Record_0;
        assert(scripts_view(items@) =~= es[2].1->List_0);
        assert(entries_view(fields@) =~= es);
    }
    r
}

} // verus!
