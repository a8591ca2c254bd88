//! The scripting bridge: facts become values of the scripting host, as
//! records (named fields) for products and as tagged pairs
//! `{ variant_name, variant_data }` for unions; the inputs of the query
//! operations are read back from such values.

use vstd::prelude::*;

use crate::location::{Location, LocationModel, MethodCallQuery, MethodCallQueryModel};
use crate::text::{same_text, views};

verus! {

broadcast use vstd::std_specs::vec::axiom_vec_index_decreases;

/// A value of the scripting host.
#[derive(Debug)]
pub enum ScriptValue {
    Nil,
    Boolean(bool),
    Integer(i128),
    /// A floating-point number, by the bits of its IEEE 754 binary64 value.
    Number(u64),
    Str(String),
    /// A sequence, indexed from one in the host.
    List(Vec<ScriptValue>),
    /// A table with named fields; a name missing from it reads as nil.
    Record(Vec<ScriptField>),
}

/// A named field of a record.
#[derive(Debug)]
pub struct ScriptField {
    pub key: String,
    pub value: ScriptValue,
}

/// The mathematical value of a [`ScriptValue`].
pub enum ScriptModel {
    Nil,
    Boolean(bool),
    Integer(int),
    Number(u64),
    Str(Seq<char>),
    List(Seq<ScriptModel>),
    Record(Seq<(Seq<char>, ScriptModel)>),
}

pub open spec fn script_view(v: ScriptValue) -> ScriptModel
    decreases v,
{
    match v {
        ScriptValue::Nil => ScriptModel::Nil,
        ScriptValue::Boolean(b) => ScriptModel::Boolean(b),
        ScriptValue::Integer(i) => ScriptModel::Integer(i as int),
        ScriptValue::Number(b) => ScriptModel::Number(b),
        ScriptValue::Str(s) => ScriptModel::Str(s@),
        ScriptValue::List(items) => ScriptModel::List(
            Seq::new(items.len() as nat, |i: int| if 0 <= i < items.len() { script_view(items[i]) } else { ScriptModel::Nil }),
        ),
        ScriptValue::Record(fields) => ScriptModel::Record(
            Seq::new(fields.len() as nat, |i: int| if 0 <= i < fields.len() { field_entry(fields[i]) } else { (Seq::empty(), ScriptModel::Nil) }),
        ),
    }
}

pub open spec fn field_entry(f: ScriptField) -> (Seq<char>, ScriptModel)
    decreases f,
{
    (f.key@, script_view(f.value))
}

pub open spec fn scripts_view(s: Seq<ScriptValue>) -> Seq<ScriptModel> {
    s.map_values(|v: ScriptValue| script_view(v))
}

pub open spec fn entries_view(s: Seq<ScriptField>) -> Seq<(Seq<char>, ScriptModel)> {
    s.map_values(|f: ScriptField| field_entry(f))
}

pub proof fn lemma_list_view(items: Vec<ScriptValue>)
    ensures
        script_view(ScriptValue::List(items)) == ScriptModel::List(scripts_view(items@)),
{
    let v = ScriptValue::List(items);
    let b = script_view(v)->List_0;
    assert(b.len() == items.len());
    assert forall|i: int| 0 <= i < items.len() implies b[i] == script_view(items@[i]) by {}
    assert(scripts_view(items@) =~= b);
}

pub proof fn lemma_record_view(fields: Vec<ScriptField>)
    ensures
        script_view(ScriptValue::Record(fields)) == ScriptModel::Record(entries_view(fields@)),
{
    let v = ScriptValue::Record(fields);
    let b = script_view(v)->Record_0;
    assert(b.len() == fields.len());
    assert forall|i: int| 0 <= i < fields.len() implies b[i] == field_entry(fields@[i]) by {}
    assert(entries_view(fields@) =~= b);
}

/// The position of the first field named `key` at or after `from`.
pub open spec fn record_index(entries: Seq<(Seq<char>, ScriptModel)>, key: Seq<char>, from: int) -> Option<int>
    decreases entries.len() - from,
{
    if from < 0 || from >= entries.len() {
        None
    } else if entries[from].0 == key {
        Some(from)
    } else {
        record_index(entries, key, from + 1)
    }
}

/// What a record holds under `key`: the first field of that name, or nil.
pub open spec fn record_get(entries: Seq<(Seq<char>, ScriptModel)>, key: Seq<char>) -> ScriptModel {
    match record_index(entries, key, 0) {
        Some(k) => if 0 <= k < entries.len() {
            entries[k].1
        } else {
            ScriptModel::Nil
        },
        None => ScriptModel::Nil,
    }
}

proof fn lemma_record_index_bounds(entries: Seq<(Seq<char>, ScriptModel)>, key: Seq<char>, from: int)
    ensures
        match record_index(entries, key, from) {
            Some(k) => from <= k < entries.len() && entries[k].0 == key
                && forall|j: int| from <= j < k ==> entries[j].0 != key,
            None => forall|j: int| 0 <= from <= j < entries.len() ==> entries[j].0 != key,
        },
    decreases entries.len() - from,
{
    if 0 <= from < entries.len() && entries[from].0 != key {
        lemma_record_index_bounds(entries, key, from + 1);
    }
}

/// Why a script value could not be read as an operation's input.
#[derive(Clone, Copy, Debug, PartialEq, Eq, Structural)]
pub enum DecodeError {
    /// A location was expected and the value is not a table.
    LocationNotTable,
    LocationCrateName,
    LocationPath,
    LocationImplBlockNumber,
    /// A method-call query was expected and the value is not a table.
    QueryNotTable,
    /// The query's `location` field is not a location.
    QueryLocation,
}

/// The sentence that names the shape a script value should have had.
pub open spec fn decode_error_text(e: DecodeError) -> Seq<char> {
    match e {
        DecodeError::LocationNotTable => "expected a table"@,
        DecodeError::LocationCrateName => "expected a string for Location.crate_name"@,
        DecodeError::LocationPath => "expected a list of strings for Location.path"@,
        DecodeError::LocationImplBlockNumber => "expected nil or a non-negative integer for Location.impl_block_number"@,
        DecodeError::QueryNotTable => "expected a table"@,
        DecodeError::QueryLocation => "expected a Location"@,
    }
}

impl DecodeError {
    /// A sentence naming the expected shape.
    pub fn message(&self) -> (r: String)
        ensures
            r@ == decode_error_text(*self),
    {
        proof {
            reveal_strlit("expected a table");
            reveal_strlit("expected a string for Location.crate_name");
            reveal_strlit("expected a list of strings for Location.path");
            reveal_strlit("expected nil or a non-negative integer for Location.impl_block_number");
            reveal_strlit("expected a table");
            reveal_strlit("expected a Location");
        }
        match self {
            DecodeError::LocationNotTable => String::from_str("expected a table"),
            DecodeError::LocationCrateName => String::from_str("expected a string for Location.crate_name"),
            DecodeError::LocationPath => String::from_str("expected a list of strings for Location.path"),
            DecodeError::LocationImplBlockNumber => String::from_str(
                "expected nil or a non-negative integer for Location.impl_block_number",
            ),
            DecodeError::QueryNotTable => String::from_str("expected a table"),
            DecodeError::QueryLocation => String::from_str("expected a Location"),
        }
    }
}

pub open spec fn key_crate_name() -> Seq<char> {
    "crate_name"@
}

pub open spec fn key_path() -> Seq<char> {
    "path"@
}

pub open spec fn key_impl_block_number() -> Seq<char> {
    "impl_block_number"@
}

pub open spec fn key_parent() -> Seq<char> {
    "parent"@
}

pub open spec fn key_location() -> Seq<char> {
    "location"@
}

pub open spec fn strs(s: Seq<Seq<char>>) -> Seq<ScriptModel> {
    s.map_values(|t: Seq<char>| ScriptModel::Str(t))
}

/// A location as a record `{ crate_name, path, impl_block_number }`.
pub open spec fn encode_location(l: LocationModel) -> ScriptModel {
    ScriptModel::Record(seq![
        (key_crate_name(), ScriptModel::Str(l.crate_name)),
        (key_path(), ScriptModel::List(strs(l.path))),
        (key_impl_block_number(), match l.impl_block_number {
            Some(n) => ScriptModel::Integer(n as int),
            None => ScriptModel::Nil,
        }),
    ])
}

pub open spec fn all_strs(items: Seq<ScriptModel>) -> bool {
    forall|i: int| 0 <= i < items.len() ==> #[trigger] items[i] is Str
}

pub open spec fn str_texts(items: Seq<ScriptModel>) -> Seq<Seq<char>> {
    items.map_values(|m: ScriptModel| m->Str_0)
}

/// Reads a location: a table whose `crate_name` is a string, whose `path` is
/// a list of strings, and whose `impl_block_number` is nil or an integer that
/// fits a `usize`.
pub open spec fn decode_location(v: ScriptModel) -> Result<LocationModel, DecodeError> {
    match v {
        ScriptModel::Record(es) => {
            let c = record_get(es, key_crate_name());
            let p = record_get(es, key_path());
            let n = record_get(es, key_impl_block_number());
            if !(c is Str) {
                Err(DecodeError::LocationCrateName)
            } else if !(p is List && all_strs(p->List_0)) {
                Err(DecodeError::LocationPath)
            } else if !(n is Nil || (n is Integer && 0 <= n->Integer_0 <= usize::MAX)) {
                Err(DecodeError::LocationImplBlockNumber)
            } else {
                Ok(LocationModel {
                    crate_name: c->Str_0,
                    path: str_texts(p->List_0),
                    impl_block_number: if n is Integer { Some(n->Integer_0 as usize) } else { None },
                })
            }
        },
        _ => Err(DecodeError::LocationNotTable),
    }
}

/// A method-call query as a record `{ parent, location }`.
pub open spec fn encode_query(q: MethodCallQueryModel) -> ScriptModel
    decreases q,
{
    ScriptModel::Record(seq![
        (key_parent(), match q.parent {
            Some(p) => encode_query(*p),
            None => ScriptModel::Nil,
        }),
        (key_location(), encode_location(q.location)),
    ])
}

/// Reads a method-call query: a table whose `parent` is nil or a query, and
/// whose `location` is a location.
pub open spec fn decode_query(v: ScriptModel) -> Result<MethodCallQueryModel, DecodeError>
    decreases v,
{
    match v {
        ScriptModel::Record(es) => {
            let parent = match record_index(es, key_parent(), 0) {
                Some(k) => if 0 <= k < es.len() && !(es[k].1 is Nil) {
                    match decode_query(es[k].1) {
                        Ok(p) => Ok(Some(Box::new(p))),
                        Err(e) => Err(e),
                    }
                } else {
                    Ok(None)
                },
                None => Ok(None),
            };
            match parent {
                Err(e) => Err(e),
                Ok(parent) => match decode_location(record_get(es, key_location())) {
                    Err(_) => Err(DecodeError::QueryLocation),
                    Ok(location) => Ok(MethodCallQueryModel { parent, location }),
                },
            }
        },
        _ => Err(DecodeError::QueryNotTable),
    }
}

/// Reading back an encoded location gives the location.
pub proof fn lemma_location_round_trip(l: LocationModel)
    ensures
        decode_location(encode_location(l)) == Ok::<LocationModel, DecodeError>(l),
{
    let es = encode_location(l)->Record_0;
    reveal_strlit("crate_name");
    reveal_strlit("path");
    reveal_strlit("impl_block_number");
    reveal_with_fuel(record_index, 4);
    assert(key_crate_name() != key_path()) by {
        assert(key_crate_name().len() != key_path().len());
    }
    assert(key_crate_name() != key_impl_block_number()) by {
        assert(key_crate_name().len() != key_impl_block_number().len());
    }
    assert(key_path() != key_impl_block_number()) by {
        assert(key_path().len() != key_impl_block_number().len());
    }
    assert(str_texts(strs(l.path)) =~= l.path);
}

/// Reading back an encoded method-call query gives the query, parents
/// included.
pub proof fn lemma_query_round_trip(q: MethodCallQueryModel)
    ensures
        decode_query(encode_query(q)) == Ok::<MethodCallQueryModel, DecodeError>(q),
    decreases q,
{
    let es = encode_query(q)->Record_0;
    reveal_strlit("parent");
    reveal_strlit("location");
    reveal_with_fuel(record_index, 3);
    assert(key_parent() != key_location()) by {
        assert(key_parent().len() != key_location().len());
    }
    lemma_location_round_trip(q.location);
    match q.parent {
        Some(p) => {
            lemma_query_round_trip(*p);
            assert(!(encode_query(*p) is Nil));
        },
        None => {},
    }
}

/// The position of the first field of `fields` named `key`.
fn record_lookup(fields: &Vec<ScriptField>, key: &str) -> (r: Option<usize>)
    ensures
        match r {
            Some(k) => record_index(entries_view(fields@), key@, 0) == Some(k as int) && k < fields@.len(),
            None => record_index(entries_view(fields@), key@, 0) is None,
        },
{
    let ghost es = entries_view(fields@);
    let mut i: usize = 0;
    while i < fields.len()
        invariant
            i <= fields@.len(),
            es == entries_view(fields@),
            record_index(es, key@, 0) == record_index(es, key@, i as int),
        decreases fields@.len() - i,
    {
        if same_text(fields[i].key.as_str(), key) {
            return Some(i);
        }
        proof {
            assert(es[i as int].0 != key@);
        }
        i = i + 1;
    }
    None
}

/// A text as a script string.
fn str_value(s: &String) -> (r: ScriptValue)
    ensures
        script_view(r) == ScriptModel::Str(s@),
{
    ScriptValue::Str(s.clone())
}

/// Encodes a location as a record.
pub fn location_into_script(l: &Location) -> (r: ScriptValue)
    ensures
        script_view(r) == encode_location(l@),
{
    let mut items: Vec<ScriptValue> = Vec::new();
    let mut i: usize = 0;
    while i < l.path.len()
        invariant
            i <= l.path@.len(),
            items@.len() == i,
            scripts_view(items@) == strs(views(l.path@)).subrange(0, i as int),
        decreases l.path@.len() - i,
    {
        let ghost before = items@;
        let v = str_value(&l.path[i]);
        items.push(v);
        proof {
            assert(items@ == before.push(v));
            assert(scripts_view(items@)[i as int] == script_view(v));
            assert(strs(views(l.path@))[i as int] == ScriptModel::Str(l.path@[i as int]@));
            assert(scripts_view(items@) =~= strs(views(l.path@)).subrange(0, i as int + 1));
        }
        i = i + 1;
    }
    proof {
        assert(strs(views(l.path@)).subrange(0, i as int) =~= strs(views(l.path@)));
        lemma_list_view(items);
    }
    let ibn = match l.impl_block_number {
        Some(n) => ScriptValue::Integer(n as i128),
        None => ScriptValue::Nil,
    };
    let fields = vec![
        ScriptField { key: String::from_str("crate_name"), value: str_value(&l.crate_name) },
        ScriptField { key: String::from_str("path"), value: ScriptValue::List(items) },
        ScriptField { key: String::from_str("impl_block_number"), value: ibn },
    ];
    proof {
        lemma_record_view(fields);
        assert(entries_view(fields@) =~= encode_location(l@)->Record_0);
    }
    ScriptValue::Record(fields)
}

/// Reads a location from a script value.
pub fn location_from_script(v: &ScriptValue) -> (r: Result<Location, DecodeError>)
    ensures
        match r {
            Ok(l) => decode_location(script_view(*v)) == Ok::<LocationModel, DecodeError>(l@),
            Err(e) => decode_location(script_view(*v)) == Err::<LocationModel, DecodeError>(e),
        },
{
    let fields = match v {
        ScriptValue::Record(fields) => fields,
        _ => return Err(DecodeError::LocationNotTable),
    };
    proof {
        lemma_record_view(*fields);
    }
    let ghost es = entries_view(fields@);
    let crate_name = match record_lookup(fields, "crate_name") {
        Some(k) => match &fields[k].value {
            ScriptValue::Str(s) => s.clone(),
            _ => return Err(DecodeError::LocationCrateName),
        },
        None => return Err(DecodeError::LocationCrateName),
    };
    let items = match record_lookup(fields, "path") {
        Some(k) => match &fields[k].value {
            ScriptValue::List(items) => items,
            _ => return Err(DecodeError::LocationPath),
        },
        None => return Err(DecodeError::LocationPath),
    };
    proof {
        lemma_list_view(*items);
    }
    let ghost crate_ok = record_get(es, key_crate_name()) is Str;
    let ghost path_model = record_get(es, key_path());
    assert(crate_ok);
    assert(path_model == ScriptModel::List(scripts_view(items@)));
    let mut path: Vec<String> = Vec::new();
    let mut i: usize = 0;
    while i < items.len()
        invariant
            i <= items@.len(),
            path@.len() == i,
            crate_ok == (record_get(es, key_crate_name()) is Str),
            crate_ok,
            path_model == record_get(es, key_path()),
            path_model == ScriptModel::List(scripts_view(items@)),
            script_view(*v) == ScriptModel::Record(es),
            forall|j: int| 0 <= j < i ==> #[trigger] scripts_view(items@)[j] is Str,
            views(path@) == str_texts(scripts_view(items@).subrange(0, i as int)),
        decreases items@.len() - i,
    {
        match &items[i] {
            ScriptValue::Str(s) => {
                let ghost before = path@;
                let t = s.clone();
                path.push(t);
                proof {
                    assert(script_view(items@[i as int]) == ScriptModel::Str(s@));
                    assert(scripts_view(items@)[i as int] == ScriptModel::Str(s@));
                    assert(path@ == before.push(t));
                    assert(views(path@) =~= views(before).push(s@));
                    assert(str_texts(scripts_view(items@).subrange(0, i as int + 1)) =~= str_texts(scripts_view(items@).subrange(0, i as int)).push(s@));
                }
            },
            _ => {
                proof {
                    assert(!(scripts_view(items@)[i as int] is Str));
                }
                return Err(DecodeError::LocationPath);
            },
        }
        i = i + 1;
    }
    proof {
        assert(scripts_view(items@).subrange(0, i as int) =~= scripts_view(items@));
    }
    let impl_block_number = match record_lookup(fields, "impl_block_number") {
        Some(k) => match &fields[k].value {
            ScriptValue::Nil => None,
            ScriptValue::Integer(n) => {
                if *n < 0 || *n > usize::MAX as i128 {
                    return Err(DecodeError::LocationImplBlockNumber);
                }
                Some(*n as usize)
            },
            _ => return Err(DecodeError::LocationImplBlockNumber),
        },
        None => None,
    };
    Ok(Location { crate_name, path, impl_block_number })
}

/// Encodes a method-call query as a record, parents included.
pub fn query_into_script(q: &MethodCallQuery) -> (r: ScriptValue)
    ensures
        script_view(r) == encode_query(q@),
    decreases q,
{
    let parent = match &q.parent {
        Some(p) => query_into_script(p),
        None => ScriptValue::Nil,
    };
    let fields = vec![
        ScriptField { key: String::from_str("parent"), value: parent },
        ScriptField { key: String::from_str("location"), value: location_into_script(&q.location) },
    ];
    proof {
        lemma_record_view(fields);
        assert(entries_view(fields@) =~= encode_query(q@)->Record_0);
    }
    ScriptValue::Record(fields)
}

/// Reads a method-call query from a script value, parents included.
pub fn query_from_script(v: &ScriptValue) -> (r: Result<MethodCallQuery, DecodeError>)
    ensures
        match r {
            Ok(q) => decode_query(script_view(*v)) == Ok::<MethodCallQueryModel, DecodeError>(q@),
            Err(e) => decode_query(script_view(*v)) == Err::<MethodCallQueryModel, DecodeError>(e),
        },
    decreases v,
{
    let fields = match v {
        ScriptValue::Record(fields) => fields,
        _ => return Err(DecodeError::QueryNotTable),
    };
    proof {
        lemma_record_view(*fields);
    }
    let parent = match record_lookup(fields, "parent") {
        Some(k) => match &fields[k].value {
            ScriptValue::Nil => None,
            pv => match query_from_script(pv) {
                Ok(p) => Some(Box::new(p)),
                Err(e) => return Err(e),
            },
        },
        None => None,
    };
    let location = match record_lookup(fields, "location") {
        Some(k) => match location_from_script(&fields[k].value) {
            Ok(l) => l,
            Err(_) => return Err(DecodeError::QueryLocation),
        },
        None => return Err(DecodeError::QueryLocation),
    };
    let q = MethodCallQuery { parent, location };
    proof {
        assert(q@ == MethodCallQueryModel { parent: match parent { Some(p) => Some(Box::new(p@)), None => None }, location: location@ });
    }
    Ok(q)
}

} // verus!
