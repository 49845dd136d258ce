//! The compact text form of a JSON document: no white space, members in the
//! order they are held, strings with `"`, `\` and control characters escaped.
use vstd::prelude::*;
use crate::json::{Json, JsonNumber, JsonValue, NumberModel};
use crate::text::{decimal, push_char, signed_decimal};

verus! {

broadcast use vstd::string::group_string_axioms;

pub open spec fn hex_digit(d: nat) -> char {
    if d < 10 {
        (48 + d) as char
    } else {
        (87 + d) as char
    }
}

/// How one character of a string is written between the quotes.
pub open spec fn escaped_char(c: char) -> Seq<char> {
    if c == '"' {
        seq!['\\', '"']
    } else if c == '\\' {
        seq!['\\', '\\']
    } else if c == '\u{8}' {
        seq!['\\', 'b']
    } else if c == '\u{c}' {
        seq!['\\', 'f']
    } else if c == '\n' {
        seq!['\\', 'n']
    } else if c == '\r' {
        seq!['\\', 'r']
    } else if c == '\t' {
        seq!['\\', 't']
    } else if (c as u32) < 0x20 {
        seq!['\\', 'u', '0', '0', hex_digit((c as u32 / 16) as nat), hex_digit((c as u32 % 16) as nat)]
    } else {
        seq![c]
    }
}

/// The escaped characters of the first `n` characters of `s`.
pub open spec fn escaped(s: Seq<char>, n: nat) -> Seq<char>
    decreases n,
{
    if n == 0 || n > s.len() {
        Seq::empty()
    } else {
        escaped(s, (n - 1) as nat) + escaped_char(s[n - 1])
    }
}

/// A string in quotes.
pub open spec fn quoted(s: Seq<char>) -> Seq<char> {
    seq!['"'] + escaped(s, s.len()) + seq!['"']
}

pub open spec fn number_text(n: NumberModel) -> Seq<char> {
    match n {
        NumberModel::Unsigned(u) => decimal(u as nat),
        NumberModel::Negative(i) => signed_decimal(i as int),
        NumberModel::Decimal(t) => t,
    }
}

/// The compact text of a JSON document.
pub open spec fn json_text(j: Json) -> Seq<char>
    decreases j, 0nat,
{
    match j {
        Json::Null => "null"@,
        Json::Bool(b) => if b {
            "true"@
        } else {
            "false"@
        },
        Json::Number(n) => number_text(n),
        Json::Str(s) => quoted(s),
        Json::Array(items) => seq!['['] + items_text(items, items.len()) + seq![']'],
        Json::Object(members) => seq!['{'] + members_text(members, members.len()) + seq!['}'],
    }
}

/// The texts of the first `n` items, separated by commas.
pub open spec fn items_text(items: Seq<Json>, n: nat) -> Seq<char>
    decreases items, n,
{
    if n == 0 || n > items.len() {
        Seq::empty()
    } else if n == 1 {
        json_text(items[0])
    } else {
        items_text(items, (n - 1) as nat) + seq![','] + json_text(items[n - 1])
    }
}

/// The first `n` members as `"key":value`, separated by commas.
pub open spec fn members_text(members: Seq<(Seq<char>, Json)>, n: nat) -> Seq<char>
    decreases members, n,
{
    if n == 0 || n > members.len() {
        Seq::empty()
    } else if n == 1 {
        quoted(members[0].0) + seq![':'] + json_text(members[0].1)
    } else {
        members_text(members, (n - 1) as nat) + seq![','] + quoted(members[n - 1].0) + seq![':'] + json_text(
            members[n - 1].1,
        )
    }
}

fn push_str(out: &mut String, s: &str)
    ensures
        final(out)@ == old(out)@ + s@,
{
    out.append(s);
}

fn hex(d: u32) -> (c: char)
    requires
        d < 16,
    ensures
        c == hex_digit(d as nat),
{
    if d == 0 { '0' }
    else if d == 1 { '1' }
    else if d == 2 { '2' }
    else if d == 3 { '3' }
    else if d == 4 { '4' }
    else if d == 5 { '5' }
    else if d == 6 { '6' }
    else if d == 7 { '7' }
    else if d == 8 { '8' }
    else if d == 9 { '9' }
    else if d == 10 { 'a' }
    else if d == 11 { 'b' }
    else if d == 12 { 'c' }
    else if d == 13 { 'd' }
    else if d == 14 { 'e' }
    else { 'f' }
}

fn push_escaped_char(out: &mut String, c: char)
    ensures
        final(out)@ == old(out)@ + escaped_char(c),
{
    if c == '"' {
        push_char(out, '\\');
        push_char(out, '"');
    } else if c == '\\' {
        push_char(out, '\\');
        push_char(out, '\\');
    } else if c == '\u{8}' {
        push_char(out, '\\');
        push_char(out, 'b');
    } else if c == '\u{c}' {
        push_char(out, '\\');
        push_char(out, 'f');
    } else if c == '\n' {
        push_char(out, '\\');
        push_char(out, 'n');
    } else if c == '\r' {
        push_char(out, '\\');
        push_char(out, 'r');
    } else if c == '\t' {
        push_char(out, '\\');
        push_char(out, 't');
    } else if (c as u32) < 0x20 {
        push_char(out, '\\');
        push_char(out, 'u');
        push_char(out, '0');
        push_char(out, '0');
        push_char(out, hex(c as u32 / 16));
        push_char(out, hex(c as u32 % 16));
    } else {
        push_char(out, c);
    }
    assert(final(out)@ =~= old(out)@ + escaped_char(c));
}

/// Writes `s` in quotes.
pub fn push_quoted(out: &mut String, s: &str)
    ensures
        final(out)@ == old(out)@ + quoted(s@),
{
    let chars = crate::text::chars_of(s);
    let ghost start = out@;
    push_char(out, '"');
    let mut k: usize = 0;
    while k < chars.len()
        invariant
            k <= chars@.len(),
            chars@ == s@,
            out@ == start + seq!['"'] + escaped(s@, k as nat),
        decreases chars@.len() - k,
    {
        push_escaped_char(out, chars[k]);
        proof {
            assert(escaped(s@, (k + 1) as nat) == escaped(s@, k as nat) + escaped_char(s@[k as int]));
        }
        k = k + 1;
    }
    push_char(out, '"');
    assert(out@ =~= start + quoted(s@));
}

impl JsonValue {
    /// Appends the compact text of this document.
    pub fn write_text(&self, out: &mut String)
        ensures
            final(out)@ == old(out)@ + json_text(self@),
        decreases self,
    {
        let ghost start = out@;
        match self {
            JsonValue::Null => push_str(out, "null"),
            JsonValue::Bool(b) => if *b {
                push_str(out, "true")
            } else {
                push_str(out, "false")
            },
            JsonValue::Number(n) => match n {
                JsonNumber::Unsigned(u) => {
                    let t = crate::text::decimal_string(*u as u128);
                    push_str(out, t.as_str());
                },
                JsonNumber::Negative(i) => {
                    let t = crate::text::signed_decimal_string(*i);
                    push_str(out, t.as_str());
                },
                JsonNumber::Decimal(t) => push_str(out, t.as_str()),
            },
            JsonValue::String(s) => push_quoted(out, s.as_str()),
            JsonValue::Array(items) => {
                let ghost j = self@;
                push_char(out, '[');
                let mut k: usize = 0;
                while k < items.len()
                    invariant
                        k <= items@.len(),
                        *self == JsonValue::Array(*items),
                        j == self@,
                        j->Array_0.len() == items@.len(),
                        forall|q: int| 0 <= q < items@.len() ==> #[trigger] j->Array_0[q] == items@[q]@,
                        out@ == start + seq!['['] + items_text(j->Array_0, k as nat),
                    decreases items@.len() - k,
                {
                    proof {
                        assert(decreases_to!(*self => (*self)->Array_0));
                        assert(decreases_to!(*items => items@));
                        assert(decreases_to!(items@ => items@[k as int]));
                    }
                    if k > 0 {
                        push_char(out, ',');
                    }
                    items[k].write_text(out);
                    assert(j->Array_0[k as int] == items@[k as int]@);
                    assert(out@ =~= start + seq!['['] + items_text(j->Array_0, (k + 1) as nat));
                    k = k + 1;
                }
                push_char(out, ']');
                assert(out@ =~= start + json_text(self@));
            },
            JsonValue::Object(members) => {
                let ghost j = self@;
                push_char(out, '{');
                let mut k: usize = 0;
                while k < members.len()
                    invariant
                        k <= members@.len(),
                        *self == JsonValue::Object(*members),
                        j == self@,
                        j->Object_0.len() == members@.len(),
                        forall|q: int|
                            0 <= q < members@.len() ==> #[trigger] j->Object_0[q] == (members@[q].0@, members@[q].1@),
                        out@ == start + seq!['{'] + members_text(j->Object_0, k as nat),
                    decreases members@.len() - k,
                {
                    proof {
                        assert(decreases_to!(*self => (*self)->Object_0));
                        assert(decreases_to!(*members => members@));
                        assert(decreases_to!(members@ => members@[k as int]));
                        assert(decreases_to!(members@[k as int] => members@[k as int].1));
                    }
                    if k > 0 {
                        push_char(out, ',');
                    }
                    push_quoted(out, members[k].0.as_str());
                    push_char(out, ':');
                    members[k].1.write_text(out);
                    assert(j->Object_0[k as int] == (members@[k as int].0@, members@[k as int].1@));
                    assert(out@ =~= start + seq!['{'] + members_text(j->Object_0, (k + 1) as nat));
                    k = k + 1;
                }
                push_char(out, '}');
                assert(out@ =~= start + json_text(self@));
            },
        }
    }

    /// The compact text of this document.
    pub fn to_text(&self) -> (r: String)
        ensures
            r@ == json_text(self@),
    {
        let mut out = String::new();
        self.write_text(&mut out);
        assert(out@ =~= json_text(self@));
        out
    }
}

} // verus!
