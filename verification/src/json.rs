use crate::error::TodoError;
use vstd::prelude::*;

verus! {

/// A decoded JSON value, holding as plain data exactly what the import logic
/// reads: a number only as far as it fits a signed 64-bit integer, an object
/// as its key/value pairs in order.
#[derive(Debug)]
pub enum JsonValue {
    Null,
    Bool(bool),
    /// A JSON number; `None` when it is not representable as an `i64`.
    Number(Option<i64>),
    Str(String),
    Array(Vec<JsonValue>),
    Object(Vec<(String, JsonValue)>),
}

/// The value under `key` in `fields`, scanning from position `i`.
pub open spec fn lookup_from(
    fields: Seq<(String, JsonValue)>,
    key: Seq<char>,
    i: int,
) -> Option<JsonValue>
    decreases fields.len() - i,
{
    if i < 0 || i >= fields.len() {
        None
    } else if fields[i].0@ == key {
        Some(fields[i].1)
    } else {
        lookup_from(fields, key, i + 1)
    }
}

/// The field named `key` of `v`, when `v` is an object that has it.
pub open spec fn spec_get(v: JsonValue, key: Seq<char>) -> Option<JsonValue> {
    match v {
        JsonValue::Object(fields) => lookup_from(fields@, key, 0),
        _ => None,
    }
}

/// The usable task id of an import record: its `id` field, when that is a
/// number representable as an `i64`.
pub open spec fn id_field(v: JsonValue) -> Option<i64> {
    match spec_get(v, "id"@) {
        Some(JsonValue::Number(n)) => n,
        _ => None,
    }
}

/// The usable description of an import record: its `description` field, when
/// that is a string.
pub open spec fn desc_field(v: JsonValue) -> Option<Seq<char>> {
    match spec_get(v, "description"@) {
        Some(JsonValue::Str(s)) => Some(s@),
        _ => None,
    }
}

/// The usable completion flag of an import record: its `completed` field,
/// when that is a boolean.
pub open spec fn completed_field(v: JsonValue) -> Option<bool> {
    match spec_get(v, "completed"@) {
        Some(JsonValue::Bool(b)) => Some(b),
        _ => None,
    }
}

/// The placeholder stored when an import record carries no usable
/// description.
pub open spec fn default_description() -> Seq<char> {
    "Task without description"@
}

/// The description an import record resolves to: its usable description, or
/// the placeholder.
pub open spec fn effective_desc(v: JsonValue) -> Seq<char> {
    match desc_field(v) {
        Some(d) => d,
        None => default_description(),
    }
}

/// The completion flag an import record resolves to: its usable flag, or
/// false.
pub open spec fn effective_completed(v: JsonValue) -> bool {
    match completed_field(v) {
        Some(b) => b,
        None => false,
    }
}

impl JsonValue {
    /// The field named `key`, when this value is an object that has it.
    pub fn get<'a>(&'a self, key: &str) -> (r: Option<&'a JsonValue>)
        ensures
            match r {
                Some(f) => spec_get(*self, key@) == Some(*f),
                None => spec_get(*self, key@) is None,
            },
    {
        match self {
            JsonValue::Object(fields) => {
                let key_string = key.to_owned();
                let n = fields.len();
                let mut i: usize = 0;
                while i < n
                    invariant
                        *self is Object,
                        self->Object_0 == *fields,
                        n == fields@.len(),
                        i <= n,
                        key_string@ == key@,
                        lookup_from(fields@, key@, 0) == lookup_from(fields@, key@, i as int),
                    decreases n - i,
                {
                    if fields[i].0 == key_string {
                        proof {
                            assert(lookup_from(fields@, key@, i as int) == Some(
                                fields@[i as int].1,
                            ));
                        }
                        return Some(&fields[i].1);
                    }
                    i += 1;
                }
                None
            },
            _ => None,
        }
    }
}

/// The task id an import record offers, if any.
pub fn record_id(rec: &JsonValue) -> (r: Option<i64>)
    ensures
        r == id_field(*rec),
{
    match rec.get("id") {
        Some(JsonValue::Number(n)) => *n,
        _ => None,
    }
}

/// The description an import record resolves to, defaulting a missing or
/// non-string field to the placeholder text.
pub fn record_description(rec: &JsonValue) -> (r: String)
    ensures
        r@ == effective_desc(*rec),
{
    match rec.get("description") {
        Some(JsonValue::Str(s)) => s.clone(),
        _ => String::from_str("Task without description"),
    }
}

/// The completion flag an import record resolves to, defaulting a missing or
/// non-boolean field to false.
pub fn record_completed(rec: &JsonValue) -> (r: bool)
    ensures
        r == effective_completed(*rec),
{
    match rec.get("completed") {
        Some(JsonValue::Bool(b)) => *b,
        _ => false,
    }
}

#[verifier::external_type_specification]
#[verifier::external_body]
pub struct ExSerdeValue(serde_json::Value);

/// What serde_json's parser yields for a text: the top-level array of values,
/// or nothing when the text is not well-formed JSON with an array at the top.
pub uninterp spec fn json_values(s: Seq<char>) -> Option<Seq<serde_json::Value>>;

/// The decoded form of one serde_json value.
pub uninterp spec fn jv_of(v: serde_json::Value) -> JsonValue;

/// The decoded records of an import text: each top-level array element in
/// order, or nothing when the text has no top-level array.
pub open spec fn parsed_records(s: Seq<char>) -> Option<Seq<JsonValue>> {
    match json_values(s) {
        Some(vs) => Some(vs.map(|i: int, v: serde_json::Value| jv_of(v))),
        None => None,
    }
}

/// Relies on serde_json::from_str for Vec of Value: it succeeds exactly on
/// well-formed JSON texts whose top level is an array, and the result depends
/// on the text alone.
#[verifier::external_body]
fn parse_values(s: &str) -> (r: Option<Vec<serde_json::Value>>)
    ensures
        r is Some <==> json_values(s@) is Some,
        r matches Some(v) ==> json_values(s@) == Some(v@),
{
    serde_json::from_str::<Vec<serde_json::Value>>(s).ok()
}

/// Relies on the serde_json::Value enum shape and Number::as_i64: the
/// conversion is structural, one arm per variant, and depends on the value
/// alone.
#[verifier::external_body]
fn jv_from(v: &serde_json::Value) -> (r: JsonValue)
    ensures
        r == jv_of(*v),
{
    match v {
        serde_json::Value::Null => JsonValue::Null,
        serde_json::Value::Bool(b) => JsonValue::Bool(*b),
        serde_json::Value::Number(n) => JsonValue::Number(n.as_i64()),
        serde_json::Value::String(s) => JsonValue::Str(s.clone()),
        serde_json::Value::Array(a) => JsonValue::Array(a.iter().map(jv_from).collect()),
        serde_json::Value::Object(m) => JsonValue::Object(
            m.iter().map(|(k, val)| (k.clone(), jv_from(val))).collect(),
        ),
    }
}

/// Decodes an import text into its records, rejecting a text whose top level
/// is not a JSON array.
pub fn parse_records(s: &str) -> (r: Result<Vec<JsonValue>, TodoError>)
    ensures
        r matches Ok(v) ==> parsed_records(s@) == Some(v@),
        r matches Err(e) ==> e is InvalidJsonFormat && parsed_records(s@) is None,
{
    match parse_values(s) {
        None => Err(TodoError::InvalidJsonFormat),
        Some(vals) => {
            let ghost vs = vals@;
            let mut out: Vec<JsonValue> = Vec::new();
            let n = vals.len();
            let mut i: usize = 0;
            while i < n
                invariant
                    n == vs.len(),
                    vals@ == vs,
                    i <= n,
                    out@.len() == i,
                    forall|j: int| 0 <= j < i ==> out@[j] == jv_of(vs[j]),
                decreases n - i,
            {
                out.push(jv_from(&vals[i]));
                i += 1;
            }
            proof {
                assert(out@ =~= vs.map(|k: int, v: serde_json::Value| jv_of(v)));
            }
            Ok(out)
        },
    }
}

} // verus!
