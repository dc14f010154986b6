use vstd::prelude::*;

use crate::json::{JsonNumber, JsonValue};
use crate::text::{chars_of, contains_chars, contains_spec, lower_chars, lower_spec};

verus! {

/// Where diagnostic events go: a JSON Lines file, or nowhere.
pub struct DiagnosticLogger {
    path: Option<String>,
}

impl DiagnosticLogger {
    pub closed spec fn path_spec(&self) -> Option<Seq<char>> {
        match self.path {
            Some(p) => Some(p@),
            None => None,
        }
    }

    /// A logger that appends to `path`, or one that is disabled.
    pub fn new(path: Option<String>) -> (l: DiagnosticLogger)
        ensures
            l.path_spec() == match path {
                Some(p) => Some(p@),
                None => None::<Seq<char>>,
            },
    {
        DiagnosticLogger { path }
    }

    /// The log file, if logging is enabled.
    pub fn path(&self) -> (r: Option<&String>)
        ensures
            match r {
                Some(p) => self.path_spec() == Some(p@),
                None => self.path_spec().is_none(),
            },
    {
        match &self.path {
            Some(p) => Some(p),
            None => None,
        }
    }
}

/// Whether a member name marks a credential: its lowercase form contains one of the
/// words of `secret_words`.
pub open spec fn secret_key_spec(key: Seq<char>) -> bool {
    let k = lower_spec(key);
    ||| contains_spec(k, "authorization"@)
    ||| contains_spec(k, "api_key"@)
    ||| contains_spec(k, "api-key"@)
    ||| contains_spec(k, "apikey"@)
    ||| contains_spec(k, "token"@)
    ||| contains_spec(k, "secret"@)
    ||| contains_spec(k, "password"@)
    ||| contains_spec(k, "cookie"@)
}

/// Whether a member of a diagnostic payload holds a credential.
pub fn is_secret_key(key: &str) -> (r: bool)
    ensures
        r == secret_key_spec(key@),
{
    let k = lower_chars(&chars_of(key));
    contains_chars(&k, &chars_of("authorization")) || contains_chars(&k, &chars_of("api_key"))
        || contains_chars(&k, &chars_of("api-key")) || contains_chars(&k, &chars_of("apikey")) || contains_chars(&k, &chars_of("token"))
        || contains_chars(&k, &chars_of("secret")) || contains_chars(&k, &chars_of("password"))
        || contains_chars(&k, &chars_of("cookie"))
}

/// The mask that replaces a credential.
pub open spec fn is_mask(v: JsonValue) -> bool {
    v is Str && v->Str_0@ == "***"@
}

/// `out` is `orig` with the value of every credential member, at any depth, masked.
pub open spec fn redacted(orig: JsonValue, out: JsonValue) -> bool
    decreases orig,
{
    match orig {
        JsonValue::Array(a) => {
            &&& out is Array
            &&& out->Array_0@.len() == a@.len()
            &&& forall|i: int| 0 <= i < a@.len() ==> redacted(a@[i], #[trigger] out->Array_0@[i])
        }
        JsonValue::Object(m) => {
            &&& out is Object
            &&& out->Object_0@.len() == m@.len()
            &&& forall|i: int|
                0 <= i < m@.len() ==> {
                    &&& (#[trigger] out->Object_0@[i]).0@ == m@[i].0@
                    &&& if secret_key_spec(m@[i].0@) {
                        is_mask(out->Object_0@[i].1)
                    } else {
                        redacted(m@[i].1, out->Object_0@[i].1)
                    }
                }
        }
        _ => out == orig,
    }
}

/// Redaction is idempotent: a payload that has been redacted is its own redaction, so
/// redacting it again masks nothing more and changes nothing.
pub proof fn law_redaction_idempotent(orig: JsonValue, once: JsonValue)
    requires
        redacted(orig, once),
    ensures
        redacted(once, once),
    decreases orig,
{
    match orig {
        JsonValue::Array(a) => {
            let o = once->Array_0@;
            assert forall|i: int| 0 <= i < o.len() implies redacted(o[i], #[trigger] o[i]) by {
                law_redaction_idempotent(a@[i], o[i]);
            }
        },
        JsonValue::Object(m) => {
            let o = once->Object_0@;
            assert forall|i: int| 0 <= i < o.len() && !secret_key_spec((#[trigger] o[i]).0@) implies redacted(
                o[i].1,
                o[i].1,
            ) by {
                law_redaction_idempotent(m@[i].1, o[i].1);
            }
        },
        _ => {},
    }
}

fn copy_number(n: &JsonNumber) -> (r: JsonNumber)
    ensures
        r == *n,
{
    JsonNumber { text: n.text.clone(), integer: n.integer }
}

/// A copy of a diagnostic payload with every credential member masked as `"***"`.
pub fn redact_json_value(value: &JsonValue) -> (r: JsonValue)
    ensures
        redacted(*value, r),
    decreases value,
{
    match value {
        JsonValue::Null => JsonValue::Null,
        JsonValue::Bool(b) => JsonValue::Bool(*b),
        JsonValue::Number(n) => JsonValue::Number(copy_number(n)),
        JsonValue::Str(s) => JsonValue::Str(s.clone()),
        JsonValue::Array(items) => JsonValue::Array(redact_items(items)),
        JsonValue::Object(members) => JsonValue::Object(redact_object(members)),
    }
}

/// Each element redacted.
fn redact_items(items: &Vec<JsonValue>) -> (r: Vec<JsonValue>)
    ensures
        redacted(JsonValue::Array(*items), JsonValue::Array(r)),
    decreases items, 0nat,
{
    let mut out: Vec<JsonValue> = Vec::new();
    let mut i: usize = 0;
    while i < items.len()
        invariant
            i <= items.len(),
            out@.len() == i,
            forall|j: int| 0 <= j < i ==> redacted(items@[j], #[trigger] out@[j]),
        decreases items.len() - i,
    {
        let item = redact_json_value(&items[i]);
        out.push(item);
        i += 1;
    }
    out
}

/// The members with each credential value masked and every other value redacted.
fn redact_object(members: &Vec<(String, JsonValue)>) -> (r: Vec<(String, JsonValue)>)
    ensures
        redacted(JsonValue::Object(*members), JsonValue::Object(r)),
    decreases members, 0nat,
{
    let mut out: Vec<(String, JsonValue)> = Vec::new();
    let mut i: usize = 0;
    while i < members.len()
        invariant
            i <= members.len(),
            out@.len() == i,
            forall|j: int|
                0 <= j < i ==> {
                    &&& (#[trigger] out@[j]).0@ == members@[j].0@
                    &&& if secret_key_spec(members@[j].0@) {
                        is_mask(out@[j].1)
                    } else {
                        redacted(members@[j].1, out@[j].1)
                    }
                },
        decreases members.len() - i,
    {
        let key = members[i].0.clone();
        if is_secret_key(key.as_str()) {
            out.push((key, JsonValue::Str("***".to_owned())));
        } else {
            let v = redact_json_value(&members[i].1);
            out.push((key, v));
        }
        i += 1;
    }
    out
}

} // verus!
