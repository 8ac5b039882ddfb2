use vstd::prelude::*;
use crate::value::Value;
use crate::expr::{Record, distinct_fields};

verus! {

/// A decoded JSON value; arrays and objects are kept only as their shape.
#[derive(Debug, Clone)]
pub enum Json {
    Null,
    Bool(bool),
    /// A number in its textual form.
    Number(String),
    String(String),
    Array,
    Object,
}

/// The mathematical form of a decoded JSON value.
pub enum JsonModel {
    Null,
    Bool(bool),
    Number(Seq<char>),
    String(Seq<char>),
    Array,
    Object,
}

impl View for Json {
    type V = JsonModel;

    open spec fn view(&self) -> JsonModel {
        match self {
            Json::Null => JsonModel::Null,
            Json::Bool(b) => JsonModel::Bool(*b),
            Json::Number(t) => JsonModel::Number(t@),
            Json::String(s) => JsonModel::String(s@),
            Json::Array => JsonModel::Array,
            Json::Object => JsonModel::Object,
        }
    }
}

#[derive(Debug, Clone, Copy, PartialEq, Eq, Structural)]
pub enum DecodeError {
    /// The payload is not a JSON object.
    Malformed,
    /// A field holds an array or an object.
    UnsupportedShape,
}

/// The fields of the JSON object written in `text`, if it is one.
pub uninterp spec fn decoded_object(text: Seq<char>) -> Option<Seq<(Seq<char>, JsonModel)>>;

pub open spec fn fields_model(f: Seq<(String, Json)>) -> Seq<(Seq<char>, JsonModel)> {
    f.map_values(|p: (String, Json)| (p.0@, p.1@))
}

pub open spec fn distinct_keys(f: Seq<(String, Json)>) -> bool {
    forall|i: int, j: int| 0 <= i < j < f.len() ==> (#[trigger] f[i]).0@ != (#[trigger] f[j]).0@
}

/// Relies on serde_json::from_str into serde_json's `Map`: the result
/// depends on the text alone, and a map holds each key once.
#[verifier::external_body]
fn decode_object(text: &str) -> (r: Option<Vec<(String, Json)>>)
    ensures
        match r {
            Some(f) => decoded_object(text@) == Some(fields_model(f@)) && distinct_keys(f@),
            None => decoded_object(text@) is None,
        },
{
    let map = serde_json::from_str::<serde_json::Map<String, serde_json::Value>>(text).ok()?;
    Some(map.into_iter().map(|(k, v)| (k, match v {
        serde_json::Value::Null => Json::Null,
        serde_json::Value::Bool(b) => Json::Bool(b),
        serde_json::Value::Number(n) => Json::Number(n.to_string()),
        serde_json::Value::String(s) => Json::String(s),
        serde_json::Value::Array(_) => Json::Array,
        serde_json::Value::Object(_) => Json::Object,
    })).collect())
}

/// The value a JSON field stands for; arrays and objects stand for none.
pub open spec fn normalized(j: Json) -> Option<Value> {
    match j {
        Json::Null => Some(Value::Null),
        Json::Bool(b) => Some(Value::Boolean(b)),
        Json::Number(t) => Some(Value::Number(t, false)),
        Json::String(s) => Some(Value::String(s)),
        _ => None,
    }
}

/// Every field of `f` stands for a value.
pub open spec fn all_normal(f: Seq<(String, Json)>) -> bool {
    forall|i: int| 0 <= i < f.len() ==> (#[trigger] normalized(f[i].1)) is Some
}

/// The record that fields which all stand for values make.
pub open spec fn normal_record(f: Seq<(String, Json)>) -> Seq<(String, Value)> {
    f.map_values(|p: (String, Json)| (p.0, normalized(p.1)->Some_0))
}

/// Turns decoded JSON fields into a record: null, boolean, number and
/// string map to the value of the same kind; arrays and objects are refused.
pub fn to_ast_value_map(fields: &Vec<(String, Json)>) -> (r: Result<Record, DecodeError>)
    ensures
        r is Ok <==> all_normal(fields@),
        r matches Err(e) ==> e == DecodeError::UnsupportedShape,
        r matches Ok(rec) ==> rec@ == normal_record(fields@),
        distinct_keys(fields@) ==> (r matches Ok(rec) ==> distinct_fields(rec@)),
{
    let mut rec: Record = Vec::new();
    let mut i: usize = 0;
    while i < fields.len()
        invariant
            i <= fields@.len(),
            rec@.len() == i,
            forall|j: int| 0 <= j < i ==> (#[trigger] normalized(fields@[j].1)) is Some,
            forall|j: int|
                0 <= j < i ==> (#[trigger] rec@[j]).0 == fields@[j].0 && Some(rec@[j].1)
                    == normalized(fields@[j].1),
        decreases fields.len() - i,
    {
        let v = match &fields[i].1 {
            Json::Null => Value::Null,
            Json::Bool(b) => Value::Boolean(*b),
            Json::Number(t) => Value::Number(t.clone(), false),
            Json::String(s) => Value::String(s.clone()),
            _ => {
                assert(normalized(fields@[i as int].1) is None);
                return Err(DecodeError::UnsupportedShape);
            },
        };
        rec.push((fields[i].0.clone(), v));
        i = i + 1;
    }
    assert(rec@ =~= normal_record(fields@));
    assert(distinct_keys(fields@) ==> distinct_fields(rec@)) by {
        if distinct_keys(fields@) {
            assert forall|a: int, b: int| 0 <= a < b < rec@.len() implies (#[trigger] rec@[a]).0@
                != (#[trigger] rec@[b]).0@ by {
                assert(fields@[a].0@ != fields@[b].0@);
            }
        }
    }
    Ok(rec)
}

/// Decodes a payload into a record.
pub fn decode_record(payload: &str) -> (r: Result<Record, DecodeError>)
    ensures
        decoded_object(payload@) is None ==> r == Err::<Record, DecodeError>(DecodeError::Malformed),
        r matches Ok(rec) ==> distinct_fields(rec@),
        decoded_object(payload@) is Some ==> exists|f: Seq<(String, Json)>|
            #[trigger] fields_model(f) == decoded_object(payload@)->Some_0 && distinct_keys(f)
                && match r {
                Ok(rec) => all_normal(f) && rec@ == normal_record(f),
                Err(e) => !all_normal(f) && e == DecodeError::UnsupportedShape,
            },
{
    match decode_object(payload) {
        None => Err(DecodeError::Malformed),
        Some(f) => {
            let r = to_ast_value_map(&f);
            assert(fields_model(f@) == decoded_object(payload@)->Some_0);
            r
        },
    }
}

} // verus!
