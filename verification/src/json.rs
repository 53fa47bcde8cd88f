//! A JSON document as plain values, and the lookups that reading
//! `package.json` and `package-lock.json` makes of it.
use vstd::prelude::*;
use crate::text::{opt_view, own};
use crate::textmap::TextMap;

verus! {

/// A JSON value. Object members keep their order; a number is kept as the
/// non-negative integer it is when it fits in `u64`, and as `None` otherwise.
#[derive(Debug)]
pub enum JsonValue {
    Null,
    Bool(bool),
    Number(Option<u64>),
    Str(String),
    Array(Vec<JsonValue>),
    Object(Vec<(String, JsonValue)>),
}

/// The value of the last member of `es` named `k`.
pub open spec fn member(es: Seq<(String, JsonValue)>, k: Seq<char>) -> Option<JsonValue>
    decreases es.len(),
{
    if es.len() == 0 {
        None
    } else if es.last().0@ == k {
        Some(es.last().1)
    } else {
        member(es.drop_last(), k)
    }
}

/// The member `k` of `v` when `v` is an object.
pub open spec fn json_get(v: JsonValue, k: Seq<char>) -> Option<JsonValue> {
    match v {
        JsonValue::Object(es) => member(es@, k),
        _ => None,
    }
}

/// The member `k` of an optional value.
pub open spec fn json_get_in(o: Option<JsonValue>, k: Seq<char>) -> Option<JsonValue> {
    match o {
        Some(v) => json_get(v, k),
        None => None,
    }
}

/// The text of a string value.
pub open spec fn json_text(o: Option<JsonValue>) -> Option<Seq<char>> {
    match o {
        Some(JsonValue::Str(s)) => Some(s@),
        _ => None,
    }
}

/// The text of a string value, or empty.
pub open spec fn json_text_or_empty(o: Option<JsonValue>) -> Seq<char> {
    match json_text(o) {
        Some(s) => s,
        None => Seq::empty(),
    }
}

/// A boolean value, `false` for anything else.
pub open spec fn json_flag(o: Option<JsonValue>) -> bool {
    match o {
        Some(JsonValue::Bool(b)) => b,
        _ => false,
    }
}

/// The text of the last string-valued member named `k`.
pub open spec fn text_member(es: Seq<(String, JsonValue)>, k: Seq<char>) -> Option<Seq<char>>
    decreases es.len(),
{
    if es.len() == 0 {
        None
    } else if es.last().0@ == k && es.last().1 is Str {
        Some(es.last().1->Str_0@)
    } else {
        text_member(es.drop_last(), k)
    }
}

/// String-valued members of an object value under `k`, as a map.
pub open spec fn json_text_map(o: Option<JsonValue>, k: Seq<char>) -> Option<Seq<char>> {
    match o {
        Some(JsonValue::Object(es)) => text_member(es@, k),
        _ => None,
    }
}

/// The string items of `items`, in order.
pub open spec fn text_items(items: Seq<JsonValue>) -> Seq<Seq<char>>
    decreases items.len(),
{
    if items.len() == 0 {
        Seq::empty()
    } else if items.last() is Str {
        text_items(items.drop_last()).push(items.last()->Str_0@)
    } else {
        text_items(items.drop_last())
    }
}

/// The string items of an array value, empty for anything else.
pub open spec fn json_text_list(o: Option<JsonValue>) -> Seq<Seq<char>> {
    match o {
        Some(JsonValue::Array(items)) => text_items(items@),
        _ => Seq::empty(),
    }
}

impl JsonValue {
    /// The member `key` of an object (`serde_json::Value::get`).
    pub fn get(&self, key: &str) -> (r: Option<&JsonValue>)
        ensures
            match r {
                Some(x) => json_get(*self, key@) == Some(*x),
                None => json_get(*self, key@).is_none(),
            },
    {
        match self {
            JsonValue::Object(es) => {
                let mut found: Option<&JsonValue> = None;
                let mut i: usize = 0;
                while i < es.len()
                    invariant
                        i <= es@.len(),
                        match found {
                            Some(x) => member(es@.take(i as int), key@) == Some(*x),
                            None => member(es@.take(i as int), key@).is_none(),
                        },
                    decreases es@.len() - i,
                {
                    assert(es@.take(i + 1).drop_last() =~= es@.take(i as int));
                    if crate::text::str_eq(es[i].0.as_str(), key) {
                        found = Some(&es[i].1);
                    }
                    i += 1;
                }
                assert(es@.take(es@.len() as int) =~= es@);
                found
            },
            _ => None,
        }
    }

    /// The text of the string member `key`.
    pub fn text_at(&self, key: &str) -> (r: Option<String>)
        ensures
            opt_view(r) == json_text(json_get(*self, key@)),
    {
        match self.get(key) {
            Some(JsonValue::Str(s)) => Some(own(s.as_str())),
            _ => None,
        }
    }

    /// The boolean member `key`, `false` when absent or not a boolean.
    pub fn flag_at(&self, key: &str) -> (r: bool)
        ensures
            r == json_flag(json_get(*self, key@)),
    {
        match self.get(key) {
            Some(JsonValue::Bool(b)) => *b,
            _ => false,
        }
    }

    /// The string-valued members of the object member `key`.
    pub fn text_map_at(&self, key: &str) -> (r: TextMap<String>)
        ensures
            r.wf(),
            forall|q: Seq<char>| #[trigger] r.spec_get(q) == json_text_map(json_get(*self, key@), q),
    {
        let mut m: TextMap<String> = TextMap::new();
        let ghost m0 = m;
        match self.get(key) {
            Some(JsonValue::Object(es)) => {
                let mut i: usize = 0;
                assert forall|q: Seq<char>| #[trigger] m.spec_get(q) == text_member(es@.take(0), q) by {
                    assert(m.spec_get(q) == m0.spec_get(q));
                }
                while i < es.len()
                    invariant
                        i <= es@.len(),
                        m.wf(),
                        forall|q: Seq<char>| #[trigger] m.spec_get(q) == text_member(es@.take(i as int), q),
                    decreases es@.len() - i,
                {
                    assert(es@.take(i + 1).drop_last() =~= es@.take(i as int));
                    if let JsonValue::Str(s) = &es[i].1 {
                        m.insert(own(es[i].0.as_str()), own(s.as_str()));
                    }
                    i += 1;
                }
                assert(es@.take(es@.len() as int) =~= es@);
            },
            _ => {
                assert forall|q: Seq<char>| #[trigger] m.spec_get(q) == json_text_map(json_get(*self, key@), q) by {
                    assert(m.spec_get(q) == m0.spec_get(q));
                }
            },
        }
        m
    }

    /// The string items of the array member `key`.
    pub fn text_list_at(&self, key: &str) -> (r: Vec<String>)
        ensures
            r.deep_view() == json_text_list(json_get(*self, key@)),
    {
        match self.get(key) {
            Some(v) => v.text_items(),
            None => Vec::new(),
        }
    }

    /// The string items of this value when it is an array.
    pub fn text_items(&self) -> (r: Vec<String>)
        ensures
            r.deep_view() == json_text_list(Some(*self)),
    {
        let mut out: Vec<String> = Vec::new();
        match self {
            JsonValue::Array(items) => {
                let mut i: usize = 0;
                assert(out.deep_view() =~= text_items(items@.take(0)));
                while i < items.len()
                    invariant
                        i <= items@.len(),
                        out.deep_view() == text_items(items@.take(i as int)),
                    decreases items@.len() - i,
                {
                    assert(items@.take(i + 1).drop_last() =~= items@.take(i as int));
                    if let JsonValue::Str(s) = &items[i] {
                        let ghost before = out.deep_view();
                        out.push(own(s.as_str()));
                        assert(out.deep_view() =~= before.push(s@));
                    }
                    i += 1;
                }
                assert(items@.take(items@.len() as int) =~= items@);
            },
            _ => {
                assert(out.deep_view() =~= Seq::<Seq<char>>::empty());
            },
        }
        out
    }
}

/// Decoding an optional string field: absent or `null` give `None`.
pub open spec fn dec_text(o: Option<JsonValue>) -> Option<Option<Seq<char>>> {
    match o {
        None => Some(None),
        Some(JsonValue::Null) => Some(None),
        Some(JsonValue::Str(s)) => Some(Some(s@)),
        _ => None,
    }
}

/// Decoding a boolean field that defaults to `false` when absent.
pub open spec fn dec_flag(o: Option<JsonValue>) -> Option<bool> {
    match o {
        None => Some(false),
        Some(JsonValue::Bool(b)) => Some(b),
        _ => None,
    }
}

/// Every member value is a string.
pub open spec fn all_text_members(es: Seq<(String, JsonValue)>) -> bool {
    forall|i: int| 0 <= i < es.len() ==> (#[trigger] es[i]).1 is Str
}

/// Every item is a string.
pub open spec fn all_text_items(items: Seq<JsonValue>) -> bool {
    forall|i: int| 0 <= i < items.len() ==> #[trigger] items[i] is Str
}

/// A field holding a string-to-string map (empty when absent) decodes.
pub open spec fn dec_map_ok(o: Option<JsonValue>) -> bool {
    match o {
        None => true,
        Some(JsonValue::Object(es)) => all_text_members(es@),
        _ => false,
    }
}

/// A field holding a list of strings (empty when absent) decodes.
pub open spec fn dec_list_ok(o: Option<JsonValue>) -> bool {
    match o {
        None => true,
        Some(JsonValue::Array(items)) => all_text_items(items@),
        _ => false,
    }
}

impl JsonValue {
    /// Decode the optional string field `key`; `None` when it has another type.
    pub fn dec_text_at(&self, key: &str) -> (r: Option<Option<String>>)
        ensures
            match (r, dec_text(json_get(*self, key@))) {
                (Some(x), Some(y)) => opt_view(x) == y,
                (None, None) => true,
                _ => false,
            },
    {
        match self.get(key) {
            None => Some(None),
            Some(JsonValue::Null) => Some(None),
            Some(JsonValue::Str(s)) => Some(Some(own(s.as_str()))),
            _ => None,
        }
    }

    /// Decode the boolean field `key` (default `false`); `None` when it has another type.
    pub fn dec_flag_at(&self, key: &str) -> (r: Option<bool>)
        ensures
            r == dec_flag(json_get(*self, key@)),
    {
        match self.get(key) {
            None => Some(false),
            Some(JsonValue::Bool(b)) => Some(*b),
            _ => None,
        }
    }

    /// Whether every member value of this object is a string.
    fn members_all_text(es: &Vec<(String, JsonValue)>) -> (r: bool)
        ensures
            r == all_text_members(es@),
    {
        let mut i: usize = 0;
        while i < es.len()
            invariant
                i <= es@.len(),
                forall|j: int| 0 <= j < i ==> (#[trigger] es@[j]).1 is Str,
            decreases es@.len() - i,
        {
            match &es[i].1 {
                JsonValue::Str(_) => {},
                _ => {
                    return false;
                },
            }
            i += 1;
        }
        true
    }

    /// Whether every item is a string.
    fn items_all_text(items: &Vec<JsonValue>) -> (r: bool)
        ensures
            r == all_text_items(items@),
    {
        let mut i: usize = 0;
        while i < items.len()
            invariant
                i <= items@.len(),
                forall|j: int| 0 <= j < i ==> #[trigger] items@[j] is Str,
            decreases items@.len() - i,
        {
            match &items[i] {
                JsonValue::Str(_) => {},
                _ => {
                    return false;
                },
            }
            i += 1;
        }
        true
    }

    /// Decode the string map field `key` (empty when absent); `None` when it
    /// is not an object of strings.
    pub fn dec_map_at(&self, key: &str) -> (r: Option<TextMap<String>>)
        ensures
            r.is_some() == dec_map_ok(json_get(*self, key@)),
            r matches Some(m) ==> m.wf() && forall|q: Seq<char>| #[trigger] m.spec_get(q) == json_text_map(json_get(*self, key@), q),
    {
        let ok = match self.get(key) {
            None => true,
            Some(JsonValue::Object(es)) => Self::members_all_text(es),
            _ => false,
        };
        if ok {
            Some(self.text_map_at(key))
        } else {
            None
        }
    }

    /// Decode the string list field `key` (empty when absent); `None` when it
    /// is not an array of strings.
    pub fn dec_list_at(&self, key: &str) -> (r: Option<Vec<String>>)
        ensures
            r.is_some() == dec_list_ok(json_get(*self, key@)),
            r matches Some(l) ==> l.deep_view() == json_text_list(json_get(*self, key@)),
    {
        let ok = match self.get(key) {
            None => true,
            Some(JsonValue::Array(items)) => Self::items_all_text(items),
            _ => false,
        };
        if ok {
            Some(self.text_list_at(key))
        } else {
            None
        }
    }
}

} // verus!
