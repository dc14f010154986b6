use vstd::prelude::*;

use crate::text::str_eq;

verus! {

/// A JSON number: its text, and its value when that is an integer that fits `i64`.
pub struct JsonNumber {
    pub text: String,
    pub integer: Option<i64>,
}

/// A JSON document, as the library reads and writes it. An object keeps its members in
/// order; a key occurs once.
pub enum JsonValue {
    Null,
    Bool(bool),
    Number(JsonNumber),
    Str(String),
    Array(Vec<JsonValue>),
    Object(Vec<(String, JsonValue)>),
}

/// The first member of `members` named `key`.
pub open spec fn member(members: Seq<(String, JsonValue)>, key: Seq<char>) -> Option<JsonValue>
    decreases members.len(),
{
    if members.len() == 0 {
        None
    } else if members[0].0@ == key {
        Some(members[0].1)
    } else {
        member(members.drop_first(), key)
    }
}

/// `Value::get(key)`: the member named `key` of an object.
pub open spec fn json_get(v: JsonValue, key: Seq<char>) -> Option<JsonValue> {
    match v {
        JsonValue::Object(m) => member(m@, key),
        _ => None,
    }
}

/// `Value::as_str`.
pub open spec fn json_str(v: Option<JsonValue>) -> Option<Seq<char>> {
    match v {
        Some(JsonValue::Str(s)) => Some(s@),
        _ => None,
    }
}

/// `Value::as_bool`.
pub open spec fn json_bool(v: Option<JsonValue>) -> Option<bool> {
    match v {
        Some(JsonValue::Bool(b)) => Some(b),
        _ => None,
    }
}

/// `Value::as_i64`.
pub open spec fn json_i64(v: Option<JsonValue>) -> Option<i64> {
    match v {
        Some(JsonValue::Number(n)) => n.integer,
        _ => None,
    }
}

/// `Value::as_array`: the elements of an array.
pub open spec fn json_items(v: Option<JsonValue>) -> Seq<JsonValue> {
    match v {
        Some(JsonValue::Array(a)) => a@,
        _ => seq![],
    }
}

/// The string member `key` of `v`.
pub open spec fn str_field(v: JsonValue, key: Seq<char>) -> Option<Seq<char>> {
    json_str(json_get(v, key))
}

/// The string member `key` of `v`, or the empty string.
pub open spec fn str_or_empty(v: JsonValue, key: Seq<char>) -> Seq<char> {
    match str_field(v, key) {
        Some(s) => s,
        None => seq![],
    }
}

/// `v` is the string `s`.
pub open spec fn is_str_value(v: Option<JsonValue>, s: Seq<char>) -> bool {
    json_str(v) == Some(s)
}

/// `v` is the number `n`: its text is the decimal of `n`, and its integer value is `n`
/// when `i64` holds it.
pub open spec fn is_count_value(v: Option<JsonValue>, n: nat) -> bool {
    v matches Some(JsonValue::Number(x)) && x.text@ == crate::text::decimal_spec(n)
        && x.integer == (if n <= i64::MAX { Some(n as i64) } else { None::<i64> })
}

/// `v` is an array of the strings `items`.
pub open spec fn is_str_array(v: Option<JsonValue>, items: Seq<Seq<char>>) -> bool {
    v matches Some(JsonValue::Array(a)) && a@.len() == items.len()
        && forall|i: int| 0 <= i < a@.len() ==> ((#[trigger] a@[i]) matches JsonValue::Str(s) && s@ == items[i])
}

/// The member `first` when there is one, else the member `second`.
pub open spec fn either_member(v: JsonValue, first: Seq<char>, second: Seq<char>) -> Option<JsonValue> {
    match json_get(v, first) {
        Some(x) => Some(x),
        None => json_get(v, second),
    }
}

/// The member `first` when there is one, else the member `second`.
pub fn get_either<'a>(v: &'a JsonValue, first: &str, second: &str) -> (r: Option<&'a JsonValue>)
    ensures
        match r {
            Some(x) => either_member(*v, first@, second@) == Some(*x),
            None => either_member(*v, first@, second@).is_none(),
        },
{
    match v.get(first) {
        Some(x) => Some(x),
        None => v.get(second),
    }
}

/// The string value of a present member.
pub fn as_str_opt<'a>(v: Option<&'a JsonValue>) -> (r: Option<&'a String>)
    ensures
        match r {
            Some(s) => json_str(match v {
                Some(x) => Some(*x),
                None => None,
            }) == Some(s@),
            None => json_str(match v {
                Some(x) => Some(*x),
                None => None,
            }).is_none(),
        },
{
    match v {
        Some(x) => x.as_str(),
        None => None,
    }
}

/// The shape of a value in a request body or an event payload that the library writes.
pub ghost enum JsonShape {
    Null,
    Bool(bool),
    Count(nat),
    Str(Seq<char>),
    StrArray(Seq<Seq<char>>),
}

/// `v` has the shape `s`.
pub open spec fn has_shape(v: JsonValue, s: JsonShape) -> bool {
    match s {
        JsonShape::Null => v is Null,
        JsonShape::Bool(b) => v == JsonValue::Bool(b),
        JsonShape::Count(n) => is_count_value(Some(v), n),
        JsonShape::Str(t) => is_str_value(Some(v), t),
        JsonShape::StrArray(items) => is_str_array(Some(v), items),
    }
}

/// The members are, in order, the keys and shapes of `shapes`.
pub open spec fn members_shaped(m: Seq<(String, JsonValue)>, shapes: Seq<(Seq<char>, JsonShape)>) -> bool {
    m.len() == shapes.len()
        && forall|i: int| 0 <= i < m.len() ==> (#[trigger] m[i]).0@ == shapes[i].0 && has_shape(m[i].1, shapes[i].1)
}

/// `v` is an object whose members are, in order, the keys and shapes of `shapes`.
pub open spec fn object_shaped(v: JsonValue, shapes: Seq<(Seq<char>, JsonShape)>) -> bool {
    v matches JsonValue::Object(m) && members_shaped(m@, shapes)
}

/// Appends a member of a known shape to an object being built.
pub fn push_shaped(
    members: &mut Vec<(String, JsonValue)>,
    key: &str,
    value: JsonValue,
    Ghost(shapes): Ghost<Seq<(Seq<char>, JsonShape)>>,
    Ghost(shape): Ghost<JsonShape>,
)
    requires
        members_shaped(old(members)@, shapes),
        has_shape(value, shape),
    ensures
        members_shaped(final(members)@, shapes.push((key@, shape))),
{
    members.push((key.to_owned(), value));
    assert forall|i: int| 0 <= i < members@.len() implies (#[trigger] members@[i]).0@ == shapes.push((key@, shape))[i].0
        && has_shape(members@[i].1, shapes.push((key@, shape))[i].1) by {
        if i < members@.len() - 1 {
            assert(members@[i] == old(members)@[i]);
        }
    }
}

/// A JSON string holding `s`.
pub fn str_value(s: &str) -> (v: JsonValue)
    ensures
        has_shape(v, JsonShape::Str(s@)),
{
    JsonValue::Str(s.to_owned())
}

/// The text of a present string.
pub open spec fn opt_str_view(o: Option<&String>) -> Option<Seq<char>> {
    match o {
        Some(s) => Some(s@),
        None => None,
    }
}

impl JsonValue {
    /// `Value::get(key)`.
    pub fn get(&self, key: &str) -> (r: Option<&JsonValue>)
        ensures
            match r {
                Some(x) => json_get(*self, key@) == Some(*x),
                None => json_get(*self, key@).is_none(),
            },
    {
        match self {
            JsonValue::Object(m) => {
                let mut i: usize = 0;
                assert(m@.skip(0) == m@);
                while i < m.len()
                    invariant
                        i <= m.len(),
                        json_get(*self, key@) == member(m@, key@),
                        member(m@, key@) == member(m@.skip(i as int), key@),
                    decreases m.len() - i,
                {
                    assert(m@.skip(i as int)[0] == m@[i as int]);
                    assert(m@.skip(i as int).drop_first() == m@.skip(i + 1));
                    if str_eq(m[i].0.as_str(), key) {
                        return Some(&m[i].1);
                    }
                    i += 1;
                }
                None
            }
            _ => None,
        }
    }

    /// `Value::as_str`.
    pub fn as_str(&self) -> (r: Option<&String>)
        ensures
            match r {
                Some(s) => json_str(Some(*self)) == Some(s@),
                None => json_str(Some(*self)).is_none(),
            },
    {
        match self {
            JsonValue::Str(s) => Some(s),
            _ => None,
        }
    }

    /// `Value::as_bool`.
    pub fn as_bool(&self) -> (r: Option<bool>)
        ensures
            r == json_bool(Some(*self)),
    {
        match self {
            JsonValue::Bool(b) => Some(*b),
            _ => None,
        }
    }

    /// `Value::as_i64`.
    pub fn as_i64(&self) -> (r: Option<i64>)
        ensures
            r == json_i64(Some(*self)),
    {
        match self {
            JsonValue::Number(n) => n.integer,
            _ => None,
        }
    }

    /// `Value::as_array`.
    pub fn as_array(&self) -> (r: Option<&Vec<JsonValue>>)
        ensures
            match r {
                Some(a) => *self == JsonValue::Array(*a),
                None => !(*self is Array),
            },
    {
        match self {
            JsonValue::Array(a) => Some(a),
            _ => None,
        }
    }
}

/// The member `key` of `v`, when `v` is present.
pub fn get_opt<'a>(v: Option<&'a JsonValue>, key: &str) -> (r: Option<&'a JsonValue>)
    ensures
        match v {
            Some(x) => match r {
                Some(y) => json_get(*x, key@) == Some(*y),
                None => json_get(*x, key@).is_none(),
            },
            None => r.is_none(),
        },
{
    match v {
        Some(x) => x.get(key),
        None => None,
    }
}

/// The string member `key` of `v`.
pub fn get_str<'a>(v: &'a JsonValue, key: &str) -> (r: Option<&'a String>)
    ensures
        match r {
            Some(s) => str_field(*v, key@) == Some(s@),
            None => str_field(*v, key@).is_none(),
        },
{
    match v.get(key) {
        Some(x) => x.as_str(),
        None => None,
    }
}

/// The string member `key` of `v`, or an empty string.
pub fn get_string(v: &JsonValue, key: &str) -> (r: String)
    ensures
        r@ == str_or_empty(*v, key@),
{
    match get_str(v, key) {
        Some(s) => s.clone(),
        None => String::new(),
    }
}

/// The elements of the array member `key` of `v`, or none.
pub fn get_items<'a>(v: &'a JsonValue, key: &str) -> (r: &'a [JsonValue])
    ensures
        r@ == json_items(json_get(*v, key@)),
{
    match v.get(key) {
        Some(x) => match x.as_array() {
            Some(a) => a.as_slice(),
            None => &[],
        },
        None => &[],
    }
}

} // verus!
