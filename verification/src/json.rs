//! A JSON document as plain values: the model of the JSON that the Databricks
//! API sends and receives.
use vstd::prelude::*;

verus! {

/// A JSON value. Numbers are kept as their JSON text; an object is the list of
/// its members, in order (where a key occurs twice, lookups find its first member).
#[derive(Debug, PartialEq)]
pub enum JsonValue {
    Null,
    Bool(bool),
    Number(String),
    Str(String),
    Array(Vec<JsonValue>),
    Object(Vec<(String, JsonValue)>),
}

/// The mathematical view of a [`JsonValue`].
pub enum Json {
    Null,
    Bool(bool),
    Number(Seq<char>),
    Str(Seq<char>),
    Array(Seq<Json>),
    Object(Seq<(Seq<char>, Json)>),
}

impl JsonValue {
    pub open spec fn view_value(self) -> Json
        decreases self,
    {
        match self {
            JsonValue::Null => Json::Null,
            JsonValue::Bool(b) => Json::Bool(b),
            JsonValue::Number(n) => Json::Number(n@),
            JsonValue::Str(s) => Json::Str(s@),
            JsonValue::Array(items) => Json::Array(Self::view_items(items@)),
            JsonValue::Object(entries) => Json::Object(Self::view_entries(entries@)),
        }
    }

    pub open spec fn view_items(items: Seq<JsonValue>) -> Seq<Json>
        decreases items,
    {
        if items.len() == 0 {
            Seq::empty()
        } else {
            Self::view_items(items.drop_last()).push(items.last().view_value())
        }
    }

    pub open spec fn view_entries(entries: Seq<(String, JsonValue)>) -> Seq<(Seq<char>, Json)>
        decreases entries,
    {
        if entries.len() == 0 {
            Seq::empty()
        } else {
            Self::view_entries(entries.drop_last()).push(
                (entries.last().0@, entries.last().1.view_value()),
            )
        }
    }
}

impl View for JsonValue {
    type V = Json;

    open spec fn view(&self) -> Json {
        self.view_value()
    }
}

/// The view of a list of values is the list of their views.
pub broadcast proof fn lemma_view_items(items: Seq<JsonValue>)
    ensures
        #[trigger] JsonValue::view_items(items).len() == items.len(),
        forall|i: int|
            0 <= i < items.len() ==> #[trigger] JsonValue::view_items(items)[i]
                == items[i].view_value(),
    decreases items.len(),
{
    if items.len() > 0 {
        lemma_view_items(items.drop_last());
    }
}

/// The view of a list of members is the list of their views.
pub broadcast proof fn lemma_view_entries(entries: Seq<(String, JsonValue)>)
    ensures
        #[trigger] JsonValue::view_entries(entries).len() == entries.len(),
        forall|i: int|
            0 <= i < entries.len() ==> #[trigger] JsonValue::view_entries(entries)[i] == (
            entries[i].0@,
            entries[i].1.view_value(),
        ),
    decreases entries.len(),
{
    if entries.len() > 0 {
        lemma_view_entries(entries.drop_last());
    }
}

/// The position of the first member with key `key`, or -1 when there is none.
pub open spec fn key_index(entries: Seq<(Seq<char>, Json)>, key: Seq<char>) -> int
    decreases entries.len(),
{
    if entries.len() == 0 {
        -1
    } else {
        let k = key_index(entries.drop_last(), key);
        if k >= 0 {
            k
        } else if entries.last().0 == key {
            entries.len() - 1
        } else {
            -1
        }
    }
}

/// The members after setting `key` to `value`: the member with that key keeps its
/// place and takes the new value; a new key goes at the end.
pub open spec fn insert_entry(entries: Seq<(Seq<char>, Json)>, key: Seq<char>, value: Json) -> Seq<
    (Seq<char>, Json),
> {
    let k = key_index(entries, key);
    if k >= 0 {
        entries.update(k, (key, value))
    } else {
        entries.push((key, value))
    }
}

/// Whether no key occurs twice among `entries`.
pub open spec fn keys_unique(entries: Seq<(Seq<char>, Json)>) -> bool {
    forall|i: int, j: int| 0 <= i < j < entries.len() ==> entries[i].0 != entries[j].0
}

/// Setting a member keeps the keys of an object unique.
pub proof fn lemma_insert_keeps_keys_unique(
    entries: Seq<(Seq<char>, Json)>,
    key: Seq<char>,
    value: Json,
)
    requires
        keys_unique(entries),
    ensures
        keys_unique(insert_entry(entries, key, value)),
{
    lemma_key_index(entries, key);
}

impl Json {
    /// The member `key` of an object; `None` for a missing key or a value that is not an object.
    pub open spec fn get(self, key: Seq<char>) -> Option<Json> {
        match self {
            Json::Object(entries) => {
                let k = key_index(entries, key);
                if k >= 0 {
                    Some(entries[k].1)
                } else {
                    None
                }
            },
            _ => None,
        }
    }

    /// The elements of an array; `None` for any other value.
    pub open spec fn as_array(self) -> Option<Seq<Json>> {
        match self {
            Json::Array(items) => Some(items),
            _ => None,
        }
    }

    /// The text of a string; `None` for any other value.
    pub open spec fn as_str(self) -> Option<Seq<char>> {
        match self {
            Json::Str(s) => Some(s),
            _ => None,
        }
    }
}

/// What `key_index` finds, stated pointwise.
pub proof fn lemma_key_index(entries: Seq<(Seq<char>, Json)>, key: Seq<char>)
    ensures
        -1 <= key_index(entries, key) < entries.len(),
        key_index(entries, key) >= 0 ==> entries[key_index(entries, key)].0 == key,
        key_index(entries, key) >= 0 ==> forall|j: int|
            0 <= j < key_index(entries, key) ==> entries[j].0 != key,
        key_index(entries, key) < 0 ==> forall|j: int| 0 <= j < entries.len() ==> entries[j].0 != key,
    decreases entries.len(),
{
    if entries.len() > 0 {
        let prefix = entries.drop_last();
        lemma_key_index(prefix, key);
        assert forall|j: int| 0 <= j < prefix.len() implies prefix[j] == entries[j] by {}
    }
}

/// An object gives, for a key, the value of the first member with that key.
pub proof fn lemma_get_member(entries: Seq<(Seq<char>, Json)>, key: Seq<char>, i: int)
    requires
        0 <= i < entries.len(),
        entries[i].0 == key,
        forall|j: int| 0 <= j < i ==> entries[j].0 != key,
    ensures
        Json::Object(entries).get(key) == Some(entries[i].1),
{
    lemma_key_index(entries, key);
}

/// An object has nothing for a key that none of its members has.
pub proof fn lemma_get_missing(entries: Seq<(Seq<char>, Json)>, key: Seq<char>)
    requires
        forall|j: int| 0 <= j < entries.len() ==> entries[j].0 != key,
    ensures
        Json::Object(entries).get(key) is None,
{
    lemma_key_index(entries, key);
}

/// After a member is set, the object gives the new value for its key and the
/// old value for every other key.
pub proof fn lemma_insert_then_get(
    entries: Seq<(Seq<char>, Json)>,
    key: Seq<char>,
    value: Json,
    other: Seq<char>,
)
    ensures
        Json::Object(insert_entry(entries, key, value)).get(key) == Some(value),
        other != key ==> Json::Object(insert_entry(entries, key, value)).get(other) == Json::Object(
            entries,
        ).get(other),
{
    let after = insert_entry(entries, key, value);
    lemma_key_index(entries, key);
    lemma_key_index(entries, other);
    lemma_key_index(after, key);
    lemma_key_index(after, other);
    let k = key_index(entries, key);
    if k >= 0 {
        lemma_get_member(after, key, k);
    } else {
        lemma_get_member(after, key, entries.len() as int);
    }
    if other != key {
        let o = key_index(entries, other);
        if o >= 0 {
            lemma_get_member(after, other, o);
        } else {
            lemma_get_missing(after, other);
        }
    }
}

impl JsonValue {
    /// The position of the first member of `entries` whose key is `key`.
    fn find_key(entries: &Vec<(String, JsonValue)>, key: &String) -> (r: Option<usize>)
        ensures
            match r {
                Some(k) => k < entries.len() && k as int == key_index(
                    JsonValue::view_entries(entries@),
                    key@,
                ),
                None => key_index(JsonValue::view_entries(entries@), key@) < 0,
            },
    {
        let ghost view = JsonValue::view_entries(entries@);
        proof {
            lemma_view_entries(entries@);
            lemma_key_index(view, key@);
        }
        let mut i: usize = 0;
        while i < entries.len()
            invariant
                i <= entries.len(),
                view == JsonValue::view_entries(entries@),
                view.len() == entries.len(),
                -1 <= key_index(view, key@) < view.len(),
                key_index(view, key@) >= 0 ==> view[key_index(view, key@)].0 == key@,
                key_index(view, key@) >= 0 ==> forall|j: int|
                    0 <= j < key_index(view, key@) ==> view[j].0 != key@,
                key_index(view, key@) < 0 ==> forall|j: int| 0 <= j < view.len() ==> view[j].0 != key@,
                forall|j: int| 0 <= j < i ==> view[j].0 != key@,
            decreases entries.len() - i,
        {
            proof {
                lemma_view_entries(entries@);
            }
            assert(view[i as int] == (entries@[i as int].0@, entries@[i as int].1.view_value()));
            if entries[i].0 == *key {
                return Some(i);
            }
            i = i + 1;
        }
        None
    }

    /// The member `key` of an object (`serde_json::Value::get` with a string key).
    pub fn get(&self, key: &str) -> (r: Option<&JsonValue>)
        ensures
            match r {
                Some(v) => self@.get(key@) == Some(v@),
                None => self@.get(key@) is None,
            },
    {
        broadcast use lemma_view_entries;

        match self {
            JsonValue::Object(entries) => {
                let k = key.to_owned();
                match Self::find_key(entries, &k) {
                    Some(i) => Some(&entries[i].1),
                    None => None,
                }
            },
            _ => None,
        }
    }

    /// The elements of an array.
    pub fn as_array(&self) -> (r: Option<&Vec<JsonValue>>)
        ensures
            match r {
                Some(items) => self@.as_array() == Some(JsonValue::view_items(items@)),
                None => self@.as_array() is None,
            },
    {
        match self {
            JsonValue::Array(items) => Some(items),
            _ => None,
        }
    }

    /// The text of a string.
    pub fn as_str(&self) -> (r: Option<&str>)
        ensures
            match r {
                Some(s) => self@.as_str() == Some(s@),
                None => self@.as_str() is None,
            },
    {
        match self {
            JsonValue::Str(s) => Some(s.as_str()),
            _ => None,
        }
    }

    /// A copy of this value.
    pub fn deep_copy(&self) -> (r: JsonValue)
        ensures
            r@ == self@,
        decreases self,
    {
        broadcast use lemma_view_items;

        match self {
            JsonValue::Null => JsonValue::Null,
            JsonValue::Bool(b) => JsonValue::Bool(*b),
            JsonValue::Number(n) => JsonValue::Number(n.clone()),
            JsonValue::Str(s) => JsonValue::Str(s.clone()),
            JsonValue::Array(items) => {
                let mut out: Vec<JsonValue> = Vec::new();
                let mut i: usize = 0;
                while i < items.len()
                    invariant
                        *self == JsonValue::Array(*items),
                        i <= items.len(),
                        out.len() == i,
                        forall|j: int| 0 <= j < i ==> #[trigger] out@[j].view_value() == items@[j].view_value(),
                    decreases items.len() - i,
                {
                    proof {
                        vstd::std_specs::vec::axiom_vec_index_decreases(*items, i as int);
                        assert(decreases_to!(*self => (*self)->Array_0));
                    }
                    out.push(items[i].deep_copy());
                    i = i + 1;
                }
                assert(JsonValue::view_items(out@) =~= JsonValue::view_items(items@));
                JsonValue::Array(out)
            },
            JsonValue::Object(entries) => {
                let mut out: Vec<(String, JsonValue)> = Vec::new();
                let mut i: usize = 0;
                while i < entries.len()
                    invariant
                        *self == JsonValue::Object(*entries),
                        i <= entries.len(),
                        out.len() == i,
                        forall|j: int|
                            0 <= j < i ==> #[trigger] out@[j].0@ == entries@[j].0@
                                && out@[j].1.view_value() == entries@[j].1.view_value(),
                    decreases entries.len() - i,
                {
                    proof {
                        vstd::std_specs::vec::axiom_vec_index_decreases(*entries, i as int);
                        assert(decreases_to!(*self => (*self)->Object_0));
                    }
                    out.push((entries[i].0.clone(), entries[i].1.deep_copy()));
                    i = i + 1;
                }
                proof {
                    lemma_view_entries(out@);
                    lemma_view_entries(entries@);
                }
                assert forall|j: int| 0 <= j < entries.len() implies #[trigger] JsonValue::view_entries(
                    out@,
                )[j] == JsonValue::view_entries(entries@)[j] by {
                    assert(out@[j].0@ == entries@[j].0@);
                }
                assert(JsonValue::view_entries(out@) =~= JsonValue::view_entries(entries@));
                JsonValue::Object(out)
            },
        }
    }

    /// Sets the member `key` of the members `entries` to `value`
    /// (`serde_json::Map::insert`).
    pub fn insert_member(entries: &mut Vec<(String, JsonValue)>, key: String, value: JsonValue)
        ensures
            JsonValue::view_entries(final(entries)@) == insert_entry(
                JsonValue::view_entries(old(entries)@),
                key@,
                value@,
            ),
    {
        broadcast use lemma_view_entries;

        let ghost old_view = JsonValue::view_entries(entries@);
        let ghost kv = key@;
        let ghost vv = value@;
        match Self::find_key(entries, &key) {
            Some(k) => {
                entries.set(k, (key, value));
                assert(JsonValue::view_entries(entries@) =~= old_view.update(k as int, (kv, vv)));
            },
            None => {
                entries.push((key, value));
                assert(JsonValue::view_entries(entries@) =~= old_view.push((kv, vv)));
            },
        }
    }
}

} // verus!
