//! Capture of the JSON-RPC and HTTP frames the app exchanges, with credentials
//! redacted and large bodies cut on a character boundary.
use vstd::prelude::*;
use crate::json::{Json, JsonValue};
use crate::text::{decimal, decimal_string, str_ends_with, str_eq};
use vstd::string::StringSliceAdditionalSpecFns;
use vstd::utf8::{decode_utf8, encode_utf8, is_char_boundary};

verus! {

broadcast use vstd::string::group_string_axioms;

/// One captured frame.
#[derive(Debug)]
pub struct ProtocolFrame {
    pub sequence: u64,
    pub captured_at: String,
    pub channel: String,
    pub direction: String,
    pub kind: String,
    pub method: Option<String>,
    pub correlation_id: Option<String>,
    pub status: Option<u16>,
    pub duration_ms: Option<u64>,
    pub bytes: u64,
    pub truncated: bool,
    pub body: String,
}

/// The frames handed to the UI.
#[derive(Debug)]
pub struct ProtocolCaptureSnapshot {
    pub generated_at: String,
    pub frames: Vec<ProtocolFrame>,
}

/// What a caller says about a frame it records.
#[derive(Debug)]
pub struct ProtocolRecord<'a> {
    pub channel: &'a str,
    pub direction: &'a str,
    pub kind: &'a str,
    pub method: Option<&'a str>,
    pub correlation_id: Option<&'a str>,
    pub status: Option<u16>,
    pub duration_ms: Option<u64>,
}

/// A fresh correlation ID `{prefix}-{n}` from a running counter, which moves on by one.
pub fn new_correlation_id(prefix: &str, counter: &mut u64) -> (r: String)
    ensures
        r@ == prefix@ + "-"@ + decimal(*old(counter) as nat),
        *final(counter) == (if *old(counter) == u64::MAX {
            0
        } else {
            *old(counter) + 1
        }),
{
    let id = *counter;
    *counter = id.wrapping_add(1);
    let mut out = prefix.to_owned();
    out.append("-");
    let digits = decimal_string(id as u128);
    out.append(digits.as_str());
    out
}

/// `s` without its `-` and `_` characters.
pub open spec fn strip_dashes(s: Seq<char>) -> Seq<char>
    decreases s.len(),
{
    if s.len() == 0 {
        s
    } else if s.last() == '-' || s.last() == '_' {
        strip_dashes(s.drop_last())
    } else {
        strip_dashes(s.drop_last()).push(s.last())
    }
}

/// A key with ASCII letters lowered and `-` and `_` removed.
pub open spec fn key_chars(s: Seq<char>) -> Seq<char> {
    strip_dashes(crate::text::ascii_lower(s))
}

pub open spec fn ends_with(s: Seq<char>, p: Seq<char>) -> bool {
    crate::text::has_suffix(s, p)
}

/// Keys whose values are credentials.
pub open spec fn sensitive_key(key: Seq<char>) -> bool {
    let n = key_chars(key);
    ||| n == "authorization"@
    ||| n == "apikey"@
    ||| n == "password"@
    ||| n == "secret"@
    ||| n == "credential"@
    ||| n == "accesstoken"@
    ||| n == "refreshtoken"@
    ||| n == "idtoken"@
    ||| n == "clientsecret"@
    ||| n == "privatekey"@
    ||| ends_with(n, "apikey"@)
    ||| ends_with(n, "password"@)
    ||| ends_with(n, "secret"@)
}

fn normalized_key(key: &str) -> (r: String)
    ensures
        r@ == key_chars(key@),
{
    let lowered = crate::text::str_ascii_lowercase(key);
    let chars = crate::text::chars_of(lowered.as_str());
    let mut out = String::new();
    let mut i: usize = 0;
    while i < chars.len()
        invariant
            i <= chars@.len(),
            chars@ == crate::text::ascii_lower(key@),
            out@ == strip_dashes(chars@.take(i as int)),
        decreases chars@.len() - i,
    {
        let c = chars[i];
        assert(chars@.take(i + 1).drop_last() == chars@.take(i as int));
        if c != '-' && c != '_' {
            crate::text::push_char(&mut out, c);
        }
        i = i + 1;
    }
    assert(chars@.take(chars@.len() as int) == chars@);
    out
}

/// Whether a JSON key or header names a credential.
pub fn is_sensitive_key(key: &str) -> (r: bool)
    ensures
        r == sensitive_key(key@),
{
    let n = normalized_key(key);
    let s = n.as_str();
    str_eq(s, "authorization") || str_eq(s, "apikey") || str_eq(s, "password") || str_eq(
        s,
        "secret",
    ) || str_eq(s, "credential") || str_eq(s, "accesstoken") || str_eq(s, "refreshtoken")
        || str_eq(s, "idtoken") || str_eq(s, "clientsecret") || str_eq(s, "privatekey")
        || str_ends_with(s, "apikey") || str_ends_with(s, "password") || str_ends_with(
        s,
        "secret",
    )
}

/// A JSON value with every member under a credential key replaced by `"<redacted>"`.
pub open spec fn redact_model(v: Json, key: Option<Seq<char>>) -> Json
    decreases v,
{
    let hide = match key {
        Some(k) => sensitive_key(k),
        None => false,
    };
    if hide {
        Json::Str("<redacted>"@)
    } else {
        match v {
            Json::Object(ms) => Json::Object(
                Seq::new(
                    ms.len(),
                    |i: int|
                        if 0 <= i < ms.len() {
                            proof {
                                assert(decreases_to!(v => ms[i].1));
                            }
                            (ms[i].0, redact_model(ms[i].1, Some(ms[i].0)))
                        } else {
                            (Seq::empty(), Json::Null)
                        },
                ),
            ),
            Json::Array(xs) => Json::Array(
                Seq::new(
                    xs.len(),
                    |i: int|
                        if 0 <= i < xs.len() {
                            proof {
                                assert(decreases_to!(v => xs[i]));
                            }
                            redact_model(xs[i], None)
                        } else {
                            Json::Null
                        },
                ),
            ),
            _ => v,
        }
    }
}

/// Copies a JSON value for capture, hiding the values of credential members.
pub fn redact_sensitive(value: &JsonValue, key: Option<&str>) -> (r: JsonValue)
    ensures
        r@ == redact_model(value@, crate::json::opt_str_view(key)),
    decreases value,
{
    match key {
        Some(k) => {
            if is_sensitive_key(k) {
                return JsonValue::String("<redacted>".to_owned());
            }
        },
        None => {},
    }
    match value {
        JsonValue::Object(members) => {
            let mut out: Vec<(String, JsonValue)> = Vec::new();
            let mut i: usize = 0;
            while i < members.len()
                invariant
                    i <= members@.len(),
                    out@.len() == i,
                    *value == JsonValue::Object(*members),
                    forall|k: int|
                        0 <= k < i ==> (#[trigger] out@[k]).0@ == members@[k].0@ && out@[k].1@
                            == redact_model(members@[k].1@, Some(members@[k].0@)),
                decreases members@.len() - i,
            {
                proof {
                    assert(decreases_to!(*value => (*value)->Object_0));
                    assert(decreases_to!(*members => members@));
                    assert(decreases_to!(members@ => members@[i as int]));
                    assert(decreases_to!(members@[i as int] => members@[i as int].1));
                }
                let name = members[i].0.as_str();
                let hidden = redact_sensitive(&members[i].1, Some(name));
                out.push((members[i].0.clone(), hidden));
                i = i + 1;
            }
            let r = JsonValue::Object(out);
            assert(r@->Object_0 == redact_model(value@, crate::json::opt_str_view(key))->Object_0);
            r
        },
        JsonValue::Array(items) => {
            let mut out: Vec<JsonValue> = Vec::new();
            let mut i: usize = 0;
            while i < items.len()
                invariant
                    i <= items@.len(),
                    out@.len() == i,
                    *value == JsonValue::Array(*items),
                    forall|k: int|
                        0 <= k < i ==> (#[trigger] out@[k])@ == redact_model(items@[k]@, None),
                decreases items@.len() - i,
            {
                proof {
                    assert(decreases_to!(*value => (*value)->Array_0));
                    assert(decreases_to!(*items => items@));
                    assert(decreases_to!(items@ => items@[i as int]));
                }
                let hidden = redact_sensitive(&items[i], None);
                out.push(hidden);
                i = i + 1;
            }
            let r = JsonValue::Array(out);
            assert(r@->Array_0 == redact_model(value@, crate::json::opt_str_view(key))->Array_0);
            r
        },
        _ => value.duplicate(),
    }
}

/// The greatest character boundary of `bytes` at or below `end`.
pub open spec fn boundary_at_or_below(bytes: Seq<u8>, end: int) -> int
    decreases end,
{
    if end <= 0 {
        0
    } else if is_char_boundary(bytes, end) {
        end
    } else {
        boundary_at_or_below(bytes, end - 1)
    }
}

/// A body cut to at most `maximum` bytes on a character boundary, with a note of
/// how many bytes were left out.
pub open spec fn truncated_text(value: Seq<char>, maximum: nat) -> (Seq<char>, bool) {
    let bytes = encode_utf8(value);
    if bytes.len() <= maximum {
        (value, false)
    } else {
        let end = boundary_at_or_below(bytes, maximum as int);
        (
            decode_utf8(bytes.subrange(0, end)) + "\n… <"@ + decimal((bytes.len() - end) as nat)
                + " bytes omitted>"@,
            true,
        )
    }
}

/// Cuts a captured body to at most `maximum` bytes without splitting a character.
pub fn truncate_utf8(value: &str, maximum: usize) -> (r: (String, bool))
    ensures
        (r.0@, r.1) == truncated_text(value@, maximum as nat),
{
    broadcast use vstd::utf8::encode_utf8_valid_utf8;

    let length = value.as_bytes().len();
    if length <= maximum {
        return (value.to_owned(), false);
    }
    let mut end = maximum;
    while end > 0 && !value.is_char_boundary(end)
        invariant
            end <= maximum,
            boundary_at_or_below(value.spec_bytes(), maximum as int) == boundary_at_or_below(
                value.spec_bytes(),
                end as int,
            ),
        decreases end,
    {
        end = end - 1;
    }
    assert(is_char_boundary(value.spec_bytes(), end as int));
    let (head, _) = value.split_at(end);
    proof {
        vstd::utf8::encode_utf8_decode_utf8(head@);
    }
    let mut out = head.to_owned();
    out.append("\n… <");
    let omitted = decimal_string((length - end) as u128);
    out.append(omitted.as_str());
    out.append(" bytes omitted>");
    (out, true)
}

} // verus!
