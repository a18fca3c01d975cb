//! JSON values as the library holds them: a webhook's parsed body, and the
//! extras sent along with a notification.

use vstd::prelude::*;

use crate::text::{opt_view, str_eq, str_views};

verus! {

broadcast use vstd::std_specs::vec::group_vec_axioms;

/// A JSON value. A number is held as its JSON text.
#[derive(Debug, PartialEq, Eq)]
pub enum JsonValue {
    Null,
    Bool(bool),
    Number(String),
    Str(String),
    Array(Vec<JsonValue>),
    Object(Vec<(String, JsonValue)>),
}

/// A JSON value as mathematics sees it.
pub enum JsonData {
    Null,
    Bool(bool),
    Number(Seq<char>),
    Str(Seq<char>),
    Array(Seq<JsonData>),
    Object(Seq<(Seq<char>, JsonData)>),
}

/// The mathematical value of a JSON value.
pub open spec fn json_view(v: JsonValue) -> JsonData
    decreases v,
{
    match v {
        JsonValue::Null => JsonData::Null,
        JsonValue::Bool(b) => JsonData::Bool(b),
        JsonValue::Number(n) => JsonData::Number(n@),
        JsonValue::Str(s) => JsonData::Str(s@),
        JsonValue::Array(items) => JsonData::Array(json_views(items@)),
        JsonValue::Object(entries) => JsonData::Object(entry_views(entries@)),
    }
}

/// The mathematical values of a sequence of JSON values.
pub open spec fn json_views(items: Seq<JsonValue>) -> Seq<JsonData>
    decreases items,
{
    if items.len() == 0 {
        Seq::empty()
    } else {
        json_views(items.drop_last()).push(json_view(items.last()))
    }
}

/// The mathematical values of an object's entries.
pub open spec fn entry_views(entries: Seq<(String, JsonValue)>) -> Seq<(Seq<char>, JsonData)>
    decreases entries,
{
    if entries.len() == 0 {
        Seq::empty()
    } else {
        entry_views(entries.drop_last()).push((entries.last().0@, json_view(entries.last().1)))
    }
}

/// The mathematical value of an optional JSON value.
pub open spec fn opt_json_view(v: Option<JsonValue>) -> Option<JsonData> {
    match v {
        Some(x) => Some(json_view(x)),
        None => None,
    }
}

impl View for JsonValue {
    type V = JsonData;

    open spec fn view(&self) -> JsonData {
        json_view(*self)
    }
}

/// `entry_views` holds one entry for each entry, in order.
pub proof fn lemma_entry_views(entries: Seq<(String, JsonValue)>)
    ensures
        entry_views(entries).len() == entries.len(),
        forall|i: int|
            0 <= i < entries.len() ==> #[trigger] entry_views(entries)[i] == (
                entries[i].0@,
                json_view(entries[i].1),
            ),
    decreases entries.len(),
{
    if entries.len() > 0 {
        lemma_entry_views(entries.drop_last());
    }
}

/// The value of the first entry whose key is `key`.
pub open spec fn object_get(entries: Seq<(Seq<char>, JsonData)>, key: Seq<char>) -> Option<JsonData>
    decreases entries.len(),
{
    if entries.len() == 0 {
        None
    } else if entries[0].0 == key {
        Some(entries[0].1)
    } else {
        object_get(entries.drop_first(), key)
    }
}

/// The member `key` of an object; nothing for other values.
pub open spec fn json_get(v: JsonData, key: Seq<char>) -> Option<JsonData> {
    match v {
        JsonData::Object(entries) => object_get(entries, key),
        _ => None,
    }
}

/// The value reached from `v` through the members named by `path`, as a JSON
/// pointer made of these names reaches it.
pub open spec fn json_at(v: JsonData, path: Seq<Seq<char>>) -> Option<JsonData>
    decreases path.len(),
{
    if path.len() == 0 {
        Some(v)
    } else {
        match json_get(v, path[0]) {
            Some(child) => json_at(child, path.drop_first()),
            None => None,
        }
    }
}

/// The string reached from `v` through `path`, if a string is there.
pub open spec fn str_at_spec(v: JsonData, path: Seq<Seq<char>>) -> Option<Seq<char>> {
    match json_at(v, path) {
        Some(JsonData::Str(s)) => Some(s),
        _ => None,
    }
}

impl JsonValue {
    /// The member `key` of an object; nothing for other values.
    pub fn get(&self, key: &str) -> (res: Option<&JsonValue>)
        ensures
            match res {
                Some(v) => json_get(self@, key@) == Some(v@),
                None => json_get(self@, key@) is None,
            },
    {
        match self {
            JsonValue::Object(entries) => {
                let ghost ev = entry_views(entries@);
                proof {
                    lemma_entry_views(entries@);
                    assert(ev.skip(0) =~= ev);
                    assert(self@ == JsonData::Object(ev));
                }
                let mut i: usize = 0;
                while i < entries.len()
                    invariant
                        i <= entries@.len(),
                        ev == entry_views(entries@),
                        self@ == JsonData::Object(ev),
                        ev.len() == entries@.len(),
                        forall|k: int|
                            0 <= k < entries@.len() ==> #[trigger] ev[k] == (
                                entries@[k].0@,
                                json_view(entries@[k].1),
                            ),
                        object_get(ev, key@) == object_get(ev.skip(i as int), key@),
                    decreases entries@.len() - i,
                {
                    assert(ev.skip(i as int)[0] == ev[i as int]);
                    if str_eq(entries[i].0.as_str(), key) {
                        assert(ev.skip(i as int)[0].0 == key@);
                        assert(object_get(ev.skip(i as int), key@) == Some(ev[i as int].1));
                        assert(json_get(self@, key@) == Some(json_view(entries@[i as int].1)));
                        return Some(&entries[i].1);
                    }
                    assert(ev.skip(i as int).drop_first() =~= ev.skip(i + 1));
                    i = i + 1;
                }
                None
            },
            _ => None,
        }
    }

    /// The text of a string; nothing for other values.
    pub fn as_str(&self) -> (res: Option<&str>)
        ensures
            opt_view(res) == match self@ {
                JsonData::Str(s) => Some(s),
                _ => None,
            },
    {
        match self {
            JsonValue::Str(s) => Some(s.as_str()),
            _ => None,
        }
    }

    /// The string reached through the members named by `path`, if a string
    /// is there.
    pub fn str_at(&self, path: &[&str]) -> (res: Option<&str>)
        ensures
            opt_view(res) == str_at_spec(self@, str_views(path@)),
    {
        let ghost p = str_views(path@);
        let mut cur: &JsonValue = self;
        let mut i: usize = 0;
        assert(p.skip(0) =~= p);
        while i < path.len()
            invariant
                i <= path@.len(),
                p == str_views(path@),
                json_at(self@, p) == json_at(cur@, p.skip(i as int)),
            decreases path@.len() - i,
        {
            assert(p.skip(i as int)[0] == path@[i as int]@);
            assert(p.skip(i as int).drop_first() =~= p.skip(i + 1));
            match cur.get(path[i]) {
                Some(next) => {
                    cur = next;
                },
                None => {
                    return None;
                },
            }
            i = i + 1;
        }
        assert(p.skip(path@.len() as int) =~= Seq::<Seq<char>>::empty());
        cur.as_str()
    }

    /// A copy of the value.
    pub fn deep_clone(&self) -> (res: JsonValue)
        ensures
            res@ == self@,
        decreases self,
    {
        match self {
            JsonValue::Null => JsonValue::Null,
            JsonValue::Bool(b) => JsonValue::Bool(*b),
            JsonValue::Number(n) => JsonValue::Number(n.clone()),
            JsonValue::Str(s) => JsonValue::Str(s.clone()),
            JsonValue::Array(items) => {
                let mut out: Vec<JsonValue> = Vec::new();
                let mut i: usize = 0;
                assert(items@.take(0) =~= Seq::<JsonValue>::empty());
                while i < items.len()
                    invariant
                        i <= items@.len(),
                        json_views(out@) == json_views(items@.take(i as int)),
                        *self == JsonValue::Array(*items),
                    decreases items@.len() - i,
                {
                    proof {
                        assert(decreases_to!(*self => (*self)->Array_0));
                        assert(decreases_to!(*items => items[i as int]));
                    }
                    let item = items[i].deep_clone();
                    let ghost before = out@;
                    out.push(item);
                    assert(out@.drop_last() =~= before);
                    assert(items@.take(i + 1).drop_last() =~= items@.take(i as int));
                    i = i + 1;
                }
                assert(items@.take(items@.len() as int) =~= items@);
                JsonValue::Array(out)
            },
            JsonValue::Object(entries) => {
                let mut out: Vec<(String, JsonValue)> = Vec::new();
                let mut i: usize = 0;
                assert(entries@.take(0) =~= Seq::<(String, JsonValue)>::empty());
                while i < entries.len()
                    invariant
                        i <= entries@.len(),
                        entry_views(out@) == entry_views(entries@.take(i as int)),
                        *self == JsonValue::Object(*entries),
                    decreases entries@.len() - i,
                {
                    let key = entries[i].0.clone();
                    proof {
                        assert(decreases_to!(*self => (*self)->Object_0));
                        assert(decreases_to!(*entries => entries[i as int]));
                        assert(decreases_to!(entries[i as int] => entries[i as int].1));
                    }
                    let value = entries[i].1.deep_clone();
                    let ghost before = out@;
                    out.push((key, value));
                    assert(out@.drop_last() =~= before);
                    assert(entries@.take(i + 1).drop_last() =~= entries@.take(i as int));
                    i = i + 1;
                }
                assert(entries@.take(entries@.len() as int) =~= entries@);
                JsonValue::Object(out)
            },
        }
    }
}

} // verus!
