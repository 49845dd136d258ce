use vstd::prelude::*;

verus! {

/// A JSON number as this library reads it: non-negative integers, negative
/// integers, and every other number carried by its decimal text.
#[derive(Debug)]
pub enum JsonNumber {
    Unsigned(u64),
    Negative(i64),
    Decimal(String),
}

/// A JSON document. Objects keep their members as a list of distinct keys.
#[derive(Debug)]
pub enum JsonValue {
    Null,
    Bool(bool),
    Number(JsonNumber),
    String(String),
    Array(Vec<JsonValue>),
    Object(Vec<(String, JsonValue)>),
}

/// The mathematical model of a JSON number.
pub enum NumberModel {
    Unsigned(u64),
    Negative(i64),
    Decimal(Seq<char>),
}

/// The mathematical model of a JSON document.
pub enum Json {
    Null,
    Bool(bool),
    Number(NumberModel),
    Str(Seq<char>),
    Array(Seq<Json>),
    Object(Seq<(Seq<char>, Json)>),
}

impl View for JsonNumber {
    type V = NumberModel;

    open spec fn view(&self) -> NumberModel {
        match self {
            JsonNumber::Unsigned(n) => NumberModel::Unsigned(*n),
            JsonNumber::Negative(n) => NumberModel::Negative(*n),
            JsonNumber::Decimal(s) => NumberModel::Decimal(s@),
        }
    }
}

pub open spec fn model_of(v: JsonValue) -> Json
    decreases v,
{
    match v {
        JsonValue::Null => Json::Null,
        JsonValue::Bool(b) => Json::Bool(b),
        JsonValue::Number(n) => Json::Number(n@),
        JsonValue::String(s) => Json::Str(s@),
        JsonValue::Array(items) => Json::Array(
            Seq::new(
                items@.len(),
                |i: int|
                    if 0 <= i < items@.len() {
                        proof {
                            assert(decreases_to!(v => items@[i]));
                        }
                        model_of(items@[i])
                    } else {
                        Json::Null
                    },
            ),
        ),
        JsonValue::Object(members) => Json::Object(
            Seq::new(
                members@.len(),
                |i: int|
                    if 0 <= i < members@.len() {
                        proof {
                            assert(decreases_to!(v => members@[i].1));
                        }
                        (members@[i].0@, model_of(members@[i].1))
                    } else {
                        (Seq::empty(), Json::Null)
                    },
            ),
        ),
    }
}

impl View for JsonValue {
    type V = Json;

    open spec fn view(&self) -> Json {
        model_of(*self)
    }
}

} // verus!

verus! {

/// Index of the first member named `key`, or the member count when none is.
pub open spec fn key_position(members: Seq<(Seq<char>, Json)>, key: Seq<char>) -> int
    decreases members.len(),
{
    if members.len() == 0 {
        0
    } else if members[0].0 == key {
        0
    } else {
        1 + key_position(members.drop_first(), key)
    }
}

pub proof fn lemma_key_position(members: Seq<(Seq<char>, Json)>, key: Seq<char>)
    ensures
        0 <= key_position(members, key) <= members.len(),
        forall|j: int| 0 <= j < key_position(members, key) ==> members[j].0 != key,
        key_position(members, key) < members.len() ==> members[key_position(members, key)].0
            == key,
    decreases members.len(),
{
    if members.len() > 0 && members[0].0 != key {
        lemma_key_position(members.drop_first(), key);
        assert forall|j: int| 0 <= j < key_position(members, key) implies members[j].0
            != key by {
            if j > 0 {
                assert(members[j] == members.drop_first()[j - 1]);
            }
        }
    }
}

impl Json {
    /// The member named `key` of an object (the first, if keys repeat).
    pub open spec fn get(self, key: Seq<char>) -> Option<Json> {
        match self {
            Json::Object(members) => {
                let i = key_position(members, key);
                if i < members.len() {
                    Some(members[i].1)
                } else {
                    None
                }
            },
            _ => None,
        }
    }

    pub open spec fn str_of(self) -> Option<Seq<char>> {
        match self {
            Json::Str(s) => Some(s),
            _ => None,
        }
    }

    pub open spec fn u64_of(self) -> Option<u64> {
        match self {
            Json::Number(NumberModel::Unsigned(n)) => Some(n),
            _ => None,
        }
    }

    pub open spec fn bool_of(self) -> Option<bool> {
        match self {
            Json::Bool(b) => Some(b),
            _ => None,
        }
    }

    pub open spec fn items(self) -> Option<Seq<Json>> {
        match self {
            Json::Array(items) => Some(items),
            _ => None,
        }
    }

    pub open spec fn is_object(self) -> bool {
        self is Object
    }

    /// The value reached by following `path` through object members.
    pub open spec fn at(self, path: Seq<Seq<char>>) -> Option<Json>
        decreases path.len(),
    {
        if path.len() == 0 {
            Some(self)
        } else {
            match self.get(path[0]) {
                Some(child) => child.at(path.drop_first()),
                None => None,
            }
        }
    }

    /// The string member named `key`, if there is one.
    pub open spec fn str_at(self, key: Seq<char>) -> Option<Seq<char>> {
        match self.get(key) {
            Some(v) => v.str_of(),
            None => None,
        }
    }
}

pub open spec fn opt_view(v: Option<&JsonValue>) -> Option<Json> {
    match v {
        Some(x) => Some(x@),
        None => None,
    }
}

pub open spec fn opt_str_view(v: Option<&str>) -> Option<Seq<char>> {
    match v {
        Some(x) => Some(x@),
        None => None,
    }
}

impl JsonValue {
    /// The member named `key` when `self` is an object.
    pub fn get(&self, key: &str) -> (r: Option<&JsonValue>)
        ensures
            opt_view(r) == self@.get(key@),
    {
        match self {
            JsonValue::Object(members) => {
                let ghost ms = self@->Object_0;
                proof {
                    lemma_key_position(ms, key@);
                }
                let mut i: usize = 0;
                while i < members.len()
                    invariant
                        i <= members@.len(),
                        ms == self@->Object_0,
                        ms.len() == members@.len(),
                        *self == JsonValue::Object(*members),
                        forall|j: int| 0 <= j < members@.len() ==> #[trigger] ms[j] == (
                            members@[j].0@,
                            model_of(members@[j].1),
                        ),
                        forall|j: int| 0 <= j < i ==> ms[j].0 != key@,
                        0 <= key_position(ms, key@) <= ms.len(),
                        forall|j: int| 0 <= j < key_position(ms, key@) ==> ms[j].0 != key@,
                        key_position(ms, key@) < ms.len() ==> ms[key_position(ms, key@)].0
                            == key@,
                    decreases members@.len() - i,
                {
                    if crate::text::str_eq(members[i].0.as_str(), key) {
                        assert(ms[i as int].0 == key@);
                        assert(key_position(ms, key@) == i);
                        return Some(&members[i].1);
                    }
                    i = i + 1;
                }
                None
            },
            _ => None,
        }
    }

    pub fn as_str(&self) -> (r: Option<&str>)
        ensures
            opt_str_view(r) == self@.str_of(),
    {
        match self {
            JsonValue::String(s) => Some(s.as_str()),
            _ => None,
        }
    }

    pub fn as_u64(&self) -> (r: Option<u64>)
        ensures
            r == self@.u64_of(),
    {
        match self {
            JsonValue::Number(JsonNumber::Unsigned(n)) => Some(*n),
            _ => None,
        }
    }

    pub fn as_bool(&self) -> (r: Option<bool>)
        ensures
            r == self@.bool_of(),
    {
        match self {
            JsonValue::Bool(b) => Some(*b),
            _ => None,
        }
    }

    pub fn as_array(&self) -> (r: Option<&Vec<JsonValue>>)
        ensures
            r is Some == self@ is Array,
            r matches Some(items) ==> self@->Array_0.len() == items@.len() && forall|i: int|
                0 <= i < items@.len() ==> #[trigger] self@->Array_0[i] == items@[i]@,
    {
        match self {
            JsonValue::Array(items) => Some(items),
            _ => None,
        }
    }

    pub fn is_object(&self) -> (r: bool)
        ensures
            r == self@.is_object(),
    {
        match self {
            JsonValue::Object(_) => true,
            _ => false,
        }
    }

    pub fn is_null(&self) -> (r: bool)
        ensures
            r == (self@ is Null),
    {
        match self {
            JsonValue::Null => true,
            _ => false,
        }
    }

    /// The string member named `key`, if there is one.
    pub fn str_at(&self, key: &str) -> (r: Option<&str>)
        ensures
            opt_str_view(r) == self@.str_at(key@),
    {
        match self.get(key) {
            Some(v) => v.as_str(),
            None => None,
        }
    }

    /// The value reached through the object members named by `path`.
    pub fn pointer(&self, path: &[&str]) -> (r: Option<&JsonValue>)
        ensures
            opt_view(r) == self@.at(path@.map_values(|p: &str| p@)),
    {
        let ghost full = path@.map_values(|p: &str| p@);
        let mut current = self;
        let mut i: usize = 0;
        assert(full.subrange(0, full.len() as int) == full);
        while i < path.len()
            invariant
                i <= path@.len(),
                full == path@.map_values(|p: &str| p@),
                self@.at(full) == current@.at(full.subrange(i as int, full.len() as int)),
            decreases path@.len() - i,
        {
            let ghost rest = full.subrange(i as int, full.len() as int);
            assert(rest[0] == path@[i as int]@);
            assert(rest.drop_first() == full.subrange(i + 1, full.len() as int));
            match current.get(path[i]) {
                Some(child) => {
                    current = child;
                },
                None => {
                    return None;
                },
            }
            i = i + 1;
        }
        assert(full.subrange(path@.len() as int, full.len() as int).len() == 0);
        Some(current)
    }
}

} // verus!

verus! {

impl JsonNumber {
    pub fn duplicate(&self) -> (r: JsonNumber)
        ensures
            r@ == self@,
    {
        match self {
            JsonNumber::Unsigned(n) => JsonNumber::Unsigned(*n),
            JsonNumber::Negative(n) => JsonNumber::Negative(*n),
            JsonNumber::Decimal(s) => JsonNumber::Decimal(s.clone()),
        }
    }
}

impl JsonValue {
    /// A deep copy with the same model.
    pub fn duplicate(&self) -> (r: JsonValue)
        ensures
            r@ == self@,
        decreases self,
    {
        match self {
            JsonValue::Null => JsonValue::Null,
            JsonValue::Bool(b) => JsonValue::Bool(*b),
            JsonValue::Number(n) => JsonValue::Number(n.duplicate()),
            JsonValue::String(s) => JsonValue::String(s.clone()),
            JsonValue::Array(items) => {
                let mut out: Vec<JsonValue> = Vec::new();
                let mut i: usize = 0;
                while i < items.len()
                    invariant
                        i <= items@.len(),
                        out@.len() == i,
                        *self == JsonValue::Array(*items),
                        forall|k: int| 0 <= k < i ==> (#[trigger] out@[k])@ == items@[k]@,
                    decreases items@.len() - i,
                {
                    proof {
                        assert(decreases_to!(*self => (*self)->Array_0));
                        assert(decreases_to!(*items => items@));
                        assert(decreases_to!(items@ => items@[i as int]));
                    }
                    let item = items[i].duplicate();
                    out.push(item);
                    i = i + 1;
                }
                let r = JsonValue::Array(out);
                assert(r@->Array_0 == self@->Array_0);
                r
            },
            JsonValue::Object(members) => {
                let mut out: Vec<(String, JsonValue)> = Vec::new();
                let mut i: usize = 0;
                while i < members.len()
                    invariant
                        i <= members@.len(),
                        out@.len() == i,
                        *self == JsonValue::Object(*members),
                        forall|k: int|
                            0 <= k < i ==> (#[trigger] out@[k]).0@ == members@[k].0@ && out@[k].1@
                                == members@[k].1@,
                    decreases members@.len() - i,
                {
                    proof {
                        assert(decreases_to!(*self => (*self)->Object_0));
                        assert(decreases_to!(*members => members@));
                        assert(decreases_to!(members@ => members@[i as int]));
                        assert(decreases_to!(members@[i as int] => members@[i as int].1));
                    }
                    let value = members[i].1.duplicate();
                    out.push((members[i].0.clone(), value));
                    i = i + 1;
                }
                let r = JsonValue::Object(out);
                assert(r@->Object_0 == self@->Object_0);
                r
            },
        }
    }
}

} // verus!

verus! {

impl JsonValue {
    /// An object with a single member.
    pub fn single_member(key: &str, value: JsonValue) -> (r: JsonValue)
        ensures
            r@ == Json::Object(seq![(key@, value@)]),
    {
        let mut members: Vec<(String, JsonValue)> = Vec::new();
        members.push((key.to_owned(), value));
        let r = JsonValue::Object(members);
        assert(r@->Object_0 == seq![(key@, members@[0].1@)]);
        r
    }

    /// A string value.
    pub fn text(value: &str) -> (r: JsonValue)
        ensures
            r@ == Json::Str(value@),
    {
        JsonValue::String(value.to_owned())
    }
}

} // verus!

verus! {

pub open spec fn opt_string_view(v: Option<String>) -> Option<Seq<char>> {
    match v {
        Some(x) => Some(x@),
        None => None,
    }
}

} // verus!

verus! {

pub open spec fn members_view(members: Seq<(String, JsonValue)>) -> Seq<(Seq<char>, Json)> {
    members.map_values(|m: (String, JsonValue)| (m.0@, m.1@))
}

pub open spec fn items_view(items: Seq<JsonValue>) -> Seq<Json> {
    items.map_values(|v: JsonValue| v@)
}

impl JsonValue {
    /// An object with the given members, in order.
    pub fn object(members: Vec<(String, JsonValue)>) -> (r: JsonValue)
        ensures
            r@ == Json::Object(members_view(members@)),
    {
        let r = JsonValue::Object(members);
        assert(r@->Object_0 == members_view(members@));
        r
    }

    /// An array with the given items, in order.
    pub fn array(items: Vec<JsonValue>) -> (r: JsonValue)
        ensures
            r@ == Json::Array(items_view(items@)),
    {
        let r = JsonValue::Array(items);
        assert(r@->Array_0 == items_view(items@));
        r
    }

    /// An array of strings.
    pub fn string_array(items: &Vec<String>) -> (r: JsonValue)
        ensures
            r@ == Json::Array(items@.map_values(|s: String| Json::Str(s@))),
    {
        let mut out: Vec<JsonValue> = Vec::new();
        let mut i: usize = 0;
        while i < items.len()
            invariant
                i <= items@.len(),
                out@.len() == i,
                forall|k: int| 0 <= k < i ==> (#[trigger] out@[k])@ == Json::Str(items@[k]@),
            decreases items@.len() - i,
        {
            out.push(JsonValue::String(items[i].clone()));
            i = i + 1;
        }
        let r = JsonValue::array(out);
        assert(items_view(out@) == items@.map_values(|s: String| Json::Str(s@)));
        r
    }
}

} // verus!

verus! {

impl JsonValue {
    /// Whether two values have the same model (object members compared in order).
    pub fn same(&self, other: &JsonValue) -> (r: bool)
        ensures
            r == (self@ == other@),
        decreases self,
    {
        match (self, other) {
            (JsonValue::Null, JsonValue::Null) => true,
            (JsonValue::Bool(a), JsonValue::Bool(b)) => *a == *b,
            (JsonValue::Number(a), JsonValue::Number(b)) => match (a, b) {
                (JsonNumber::Unsigned(x), JsonNumber::Unsigned(y)) => *x == *y,
                (JsonNumber::Negative(x), JsonNumber::Negative(y)) => *x == *y,
                (JsonNumber::Decimal(x), JsonNumber::Decimal(y)) => crate::text::str_eq(
                    x.as_str(),
                    y.as_str(),
                ),
                _ => false,
            },
            (JsonValue::String(a), JsonValue::String(b)) => crate::text::str_eq(a.as_str(), b.as_str()),
            (JsonValue::Array(xs), JsonValue::Array(ys)) => {
                if xs.len() != ys.len() {
                    assert(self@->Array_0.len() != other@->Array_0.len());
                    return false;
                }
                let mut i: usize = 0;
                while i < xs.len()
                    invariant
                        i <= xs@.len(),
                        xs@.len() == ys@.len(),
                        *self == JsonValue::Array(*xs),
                        *other == JsonValue::Array(*ys),
                        forall|k: int| 0 <= k < i ==> (#[trigger] xs@[k])@ == ys@[k]@,
                    decreases xs@.len() - i,
                {
                    proof {
                        assert(decreases_to!(*self => (*self)->Array_0));
                        assert(decreases_to!(*xs => xs@));
                        assert(decreases_to!(xs@ => xs@[i as int]));
                    }
                    if !xs[i].same(&ys[i]) {
                        assert(self@->Array_0[i as int] != other@->Array_0[i as int]);
                        return false;
                    }
                    i = i + 1;
                }
                assert(self@->Array_0 == other@->Array_0);
                true
            },
            (JsonValue::Object(xs), JsonValue::Object(ys)) => {
                if xs.len() != ys.len() {
                    assert(self@->Object_0.len() != other@->Object_0.len());
                    return false;
                }
                let mut i: usize = 0;
                while i < xs.len()
                    invariant
                        i <= xs@.len(),
                        xs@.len() == ys@.len(),
                        *self == JsonValue::Object(*xs),
                        *other == JsonValue::Object(*ys),
                        forall|k: int|
                            0 <= k < i ==> (#[trigger] xs@[k]).0@ == ys@[k].0@ && xs@[k].1@
                                == ys@[k].1@,
                    decreases xs@.len() - i,
                {
                    proof {
                        assert(decreases_to!(*self => (*self)->Object_0));
                        assert(decreases_to!(*xs => xs@));
                        assert(decreases_to!(xs@ => xs@[i as int]));
                        assert(decreases_to!(xs@[i as int] => xs@[i as int].1));
                    }
                    if !crate::text::str_eq(xs[i].0.as_str(), ys[i].0.as_str()) || !xs[i].1.same(
                        &ys[i].1,
                    ) {
                        assert(self@->Object_0[i as int] != other@->Object_0[i as int]);
                        return false;
                    }
                    i = i + 1;
                }
                assert(self@->Object_0 == other@->Object_0);
                true
            },
            _ => false,
        }
    }
}

} // verus!
