//! A JSON document model holding plain values, with the lookup and update
//! operations that the editor and settings rules read documents through.

use vstd::prelude::*;

verus! {

/// A JSON value. Integers that fit in `i64` are `Int`; every other JSON number
/// is `Number`, carrying its canonical text.
#[derive(Debug)]
pub enum Json {
    Null,
    Bool(bool),
    Int(i64),
    Number(String),
    Text(String),
    Array(Vec<Json>),
    Object(Vec<(String, Json)>),
}

/// The mathematical value of a [`Json`] document.
pub enum JsonView {
    Null,
    Bool(bool),
    Int(i64),
    Number(Seq<char>),
    Text(Seq<char>),
    Array(Seq<JsonView>),
    Object(Seq<(Seq<char>, JsonView)>),
}

pub type Entries = Seq<(Seq<char>, JsonView)>;

pub open spec fn view_items(items: Seq<Json>) -> Seq<JsonView>
    decreases items,
{
    if items.len() == 0 {
        Seq::empty()
    } else {
        seq![json_view(items[0])] + view_items(items.subrange(1, items.len() as int))
    }
}

pub open spec fn view_entries(items: Seq<(String, Json)>) -> Entries
    decreases items,
{
    if items.len() == 0 {
        Seq::empty()
    } else {
        seq![(items[0].0@, json_view(items[0].1))] + view_entries(
            items.subrange(1, items.len() as int),
        )
    }
}

pub open spec fn json_view(j: Json) -> JsonView
    decreases j,
{
    match j {
        Json::Null => JsonView::Null,
        Json::Bool(b) => JsonView::Bool(b),
        Json::Int(i) => JsonView::Int(i),
        Json::Number(s) => JsonView::Number(s@),
        Json::Text(s) => JsonView::Text(s@),
        Json::Array(items) => JsonView::Array(view_items(items@)),
        Json::Object(entries) => JsonView::Object(view_entries(entries@)),
    }
}

impl View for Json {
    type V = JsonView;

    open spec fn view(&self) -> JsonView {
        json_view(*self)
    }
}

pub proof fn lemma_view_items(items: Seq<Json>)
    ensures
        view_items(items).len() == items.len(),
        forall|i: int| 0 <= i < items.len() ==> #[trigger] view_items(items)[i] == json_view(items[i]),
    decreases items.len(),
{
    if items.len() > 0 {
        let rest = items.subrange(1, items.len() as int);
        lemma_view_items(rest);
        assert forall|i: int| 0 <= i < items.len() implies #[trigger] view_items(items)[i] == json_view(items[i]) by {
            if i > 0 {
                assert(rest[i - 1] == items[i]);
            }
        }
    }
}

pub proof fn lemma_view_entries(items: Seq<(String, Json)>)
    ensures
        view_entries(items).len() == items.len(),
        forall|i: int| 0 <= i < items.len() ==> #[trigger] view_entries(items)[i] == (items[i].0@, json_view(items[i].1)),
    decreases items.len(),
{
    if items.len() > 0 {
        let rest = items.subrange(1, items.len() as int);
        lemma_view_entries(rest);
        assert forall|i: int| 0 <= i < items.len() implies #[trigger] view_entries(items)[i] == (items[i].0@, json_view(items[i].1)) by {
            if i > 0 {
                assert(rest[i - 1] == items[i]);
            }
        }
    }
}

/// The value stored under `key` in an object's entries: the first entry with that key.
pub open spec fn lookup(entries: Entries, key: Seq<char>) -> Option<JsonView>
    decreases entries.len(),
{
    if entries.len() == 0 {
        None
    } else if entries[0].0 == key {
        Some(entries[0].1)
    } else {
        lookup(entries.drop_first(), key)
    }
}

/// The position of the first entry with `key`, or -1.
pub open spec fn key_index(entries: Entries, key: Seq<char>) -> int
    decreases entries.len(),
{
    if entries.len() == 0 {
        -1
    } else if entries[0].0 == key {
        0
    } else {
        let rest = key_index(entries.drop_first(), key);
        if rest < 0 {
            -1
        } else {
            rest + 1
        }
    }
}

pub proof fn lemma_key_index(entries: Entries, key: Seq<char>)
    ensures
        -1 <= key_index(entries, key) < entries.len(),
        key_index(entries, key) >= 0 ==> entries[key_index(entries, key)].0 == key
            && lookup(entries, key) == Some(entries[key_index(entries, key)].1),
        key_index(entries, key) >= 0 ==> forall|j: int|
            0 <= j < key_index(entries, key) ==> entries[j].0 != key,
        key_index(entries, key) < 0 <==> (forall|j: int| 0 <= j < entries.len() ==> entries[j].0 != key),
        key_index(entries, key) < 0 <==> lookup(entries, key) is None,
    decreases entries.len(),
{
    if entries.len() > 0 {
        let rest = entries.drop_first();
        lemma_key_index(rest, key);
        if entries[0].0 != key {
            if key_index(rest, key) < 0 {
                assert forall|j: int| 0 <= j < entries.len() implies entries[j].0 != key by {
                    if j > 0 {
                        assert(rest[j - 1] == entries[j]);
                    }
                }
            } else {
                assert(rest[key_index(rest, key)] == entries[key_index(entries, key)]);
                assert forall|j: int| 0 <= j < key_index(entries, key) implies entries[j].0 != key by {
                    if j > 0 {
                        assert(rest[j - 1] == entries[j]);
                    }
                }
            }
        }
    }
}

/// The first index whose key matches, given that none before `i` matches.
pub proof fn lemma_lookup_found(entries: Entries, key: Seq<char>, i: int)
    requires
        0 <= i < entries.len(),
        entries[i].0 == key,
        forall|j: int| 0 <= j < i ==> entries[j].0 != key,
    ensures
        key_index(entries, key) == i,
        lookup(entries, key) == Some(entries[i].1),
{
    lemma_key_index(entries, key);
    let k = key_index(entries, key);
    assert(k >= 0) by {
        if k < 0 {
            assert(entries[i].0 != key);
        }
    }
    if k < i {
        assert(entries[k].0 != key);
    }
    if k > i {
        assert(entries[i].0 != key);
    }
}

pub proof fn lemma_lookup_absent(entries: Entries, key: Seq<char>)
    requires
        forall|j: int| 0 <= j < entries.len() ==> entries[j].0 != key,
    ensures
        key_index(entries, key) == -1,
        lookup(entries, key) is None,
{
    lemma_key_index(entries, key);
}

/// Object entries after storing `value` under `key`: the first entry with the key
/// takes the new value, or the pair is appended when the key is new.
pub open spec fn insert_entry(entries: Entries, key: Seq<char>, value: JsonView) -> Entries {
    let i = key_index(entries, key);
    if i >= 0 {
        entries.update(i, (key, value))
    } else {
        entries.push((key, value))
    }
}

pub proof fn lemma_insert_entry(entries: Entries, key: Seq<char>, value: JsonView)
    ensures
        lookup(insert_entry(entries, key, value), key) == Some(value),
        forall|other: Seq<char>|
            other != key ==> #[trigger] lookup(insert_entry(entries, key, value), other)
                == lookup(entries, other),
{
    lemma_key_index(entries, key);
    let i = key_index(entries, key);
    let next = insert_entry(entries, key, value);
    if i >= 0 {
        lemma_lookup_found(next, key, i);
    } else {
        lemma_lookup_found(next, key, entries.len() as int);
    }
    assert forall|other: Seq<char>| other != key implies #[trigger] lookup(next, other) == lookup(
        entries,
        other,
    ) by {
        lemma_key_index(entries, other);
        let k = key_index(entries, other);
        if k >= 0 {
            lemma_lookup_found(next, other, k);
        } else {
            assert forall|j: int| 0 <= j < next.len() implies next[j].0 != other by {
                if j < entries.len() {
                    assert(entries[j].0 != other);
                }
            }
            lemma_lookup_absent(next, other);
        }
    }
}

impl JsonView {
    /// The entries of an object, or `None` for any other value.
    pub open spec fn object(self) -> Option<Entries> {
        match self {
            JsonView::Object(entries) => Some(entries),
            _ => None,
        }
    }

    /// `value[key]` as serde reads it: the stored value of an object, else nothing.
    pub open spec fn get(self, key: Seq<char>) -> Option<JsonView> {
        match self {
            JsonView::Object(entries) => lookup(entries, key),
            _ => None,
        }
    }

    pub open spec fn text(self) -> Option<Seq<char>> {
        match self {
            JsonView::Text(s) => Some(s),
            _ => None,
        }
    }

    pub open spec fn integer(self) -> Option<i64> {
        match self {
            JsonView::Int(i) => Some(i),
            _ => None,
        }
    }

    pub open spec fn boolean(self) -> Option<bool> {
        match self {
            JsonView::Bool(b) => Some(b),
            _ => None,
        }
    }

    pub open spec fn is_scalar(self) -> bool {
        self is Text || self is Int || self is Number || self is Bool
    }
}

/// `get(key)` on an optional value, as chained lookups read nested documents.
pub open spec fn get_in(value: Option<JsonView>, key: Seq<char>) -> Option<JsonView> {
    match value {
        Some(v) => v.get(key),
        None => None,
    }
}

/// Text stored under `key`, or `default` when the key is missing or holds another kind of value.
pub open spec fn text_or(value: JsonView, key: Seq<char>, default: Seq<char>) -> Seq<char> {
    match value.get(key) {
        Some(JsonView::Text(s)) => s,
        _ => default,
    }
}

impl Json {
    pub fn is_null(&self) -> (r: bool)
        ensures
            r == (self@ is Null),
    {
        match self {
            Json::Null => true,
            _ => false,
        }
    }

    pub fn as_str(&self) -> (r: Option<&String>)
        ensures
            match r {
                Some(s) => self@ == JsonView::Text(s@),
                None => !(self@ is Text),
            },
    {
        match self {
            Json::Text(s) => Some(s),
            _ => None,
        }
    }

    pub fn as_i64(&self) -> (r: Option<i64>)
        ensures
            r == self@.integer(),
    {
        match self {
            Json::Int(i) => Some(*i),
            _ => None,
        }
    }

    pub fn as_bool(&self) -> (r: Option<bool>)
        ensures
            r == self@.boolean(),
    {
        match self {
            Json::Bool(b) => Some(*b),
            _ => None,
        }
    }

    pub fn is_scalar(&self) -> (r: bool)
        ensures
            r == self@.is_scalar(),
    {
        match self {
            Json::Text(_) | Json::Int(_) | Json::Number(_) | Json::Bool(_) => true,
            _ => false,
        }
    }

    pub fn as_object(&self) -> (r: Option<&Vec<(String, Json)>>)
        ensures
            match r {
                Some(entries) => self@ == JsonView::Object(view_entries(entries@)) && self@.object()
                    == Some(view_entries(entries@)),
                None => self@.object() is None,
            },
    {
        match self {
            Json::Object(entries) => Some(entries),
            _ => None,
        }
    }

    pub fn as_array(&self) -> (r: Option<&Vec<Json>>)
        ensures
            match r {
                Some(items) => self@ == JsonView::Array(view_items(items@)),
                None => !(self@ is Array),
            },
    {
        match self {
            Json::Array(items) => Some(items),
            _ => None,
        }
    }

    /// `value.get(key)`: the first entry of an object stored under `key`.
    pub fn get(&self, key: &str) -> (r: Option<&Json>)
        ensures
            match r {
                Some(v) => self@.get(key@) == Some(v@),
                None => self@.get(key@) is None,
            },
    {
        match self {
            Json::Object(entries) => entry_get(entries, key),
            _ => None,
        }
    }

    /// Text stored under `key`, or `default`.
    pub fn text_or(&self, key: &str, default: &str) -> (r: String)
        ensures
            r@ == text_or(self@, key@, default@),
    {
        match self.get(key) {
            Some(Json::Text(s)) => s.clone(),
            _ => default.to_owned(),
        }
    }
}

/// The value stored under `key` among an object's entries.
pub fn entry_get<'a>(entries: &'a Vec<(String, Json)>, key: &str) -> (r: Option<&'a Json>)
    ensures
        match r {
            Some(v) => lookup(view_entries(entries@), key@) == Some(v@),
            None => lookup(view_entries(entries@), key@) is None,
        },
{
    proof {
        lemma_view_entries(entries@);
    }
    let ghost e = view_entries(entries@);
    let mut i: usize = 0;
    while i < entries.len()
        invariant
            i <= entries.len(),
            e == view_entries(entries@),
            e.len() == entries.len(),
            forall|k: int| 0 <= k < entries.len() ==> #[trigger] e[k] == (entries[k].0@, json_view(entries[k].1)),
            forall|j: int| 0 <= j < i ==> e[j].0 != key@,
        decreases entries.len() - i,
    {
        if str_eq(entries[i].0.as_str(), key) {
            proof {
                lemma_lookup_found(e, key@, i as int);
            }
            return Some(&entries[i].1);
        }
        i += 1;
    }
    proof {
        lemma_lookup_absent(e, key@);
    }
    None
}

/// Store `value` under `key`, replacing the first entry with that key or appending one.
pub fn entry_insert(entries: &mut Vec<(String, Json)>, key: String, value: Json)
    ensures
        view_entries(final(entries)@) == insert_entry(view_entries(old(entries)@), key@, value@),
{
    proof {
        lemma_view_entries(entries@);
    }
    let ghost e = view_entries(entries@);
    let mut i: usize = 0;
    while i < entries.len()
        invariant
            i <= entries.len(),
            entries@ == old(entries)@,
            e == view_entries(entries@),
            e.len() == entries.len(),
            forall|k: int| 0 <= k < entries.len() ==> #[trigger] e[k] == (entries[k].0@, json_view(entries[k].1)),
            forall|j: int| 0 <= j < i ==> e[j].0 != key@,
        decreases entries.len() - i,
    {
        if str_eq(entries[i].0.as_str(), key.as_str()) {
            proof {
                lemma_lookup_found(e, key@, i as int);
            }
            let ghost kv = key@;
            let ghost vv = value@;
            entries.set(i, (key, value));
            proof {
                lemma_view_entries(entries@);
                assert(view_entries(entries@) =~= e.update(i as int, (kv, vv)));
            }
            return ;
        }
        i += 1;
    }
    proof {
        lemma_lookup_absent(e, key@);
    }
    let ghost kv = key@;
    let ghost vv = value@;
    entries.push((key, value));
    proof {
        lemma_view_entries(entries@);
        assert(view_entries(entries@) =~= e.push((kv, vv)));
    }
}

pub proof fn lemma_view_variant(j: Json)
    ensures
        (j is Null) == (json_view(j) is Null),
        (j is Bool) == (json_view(j) is Bool),
        (j is Int) == (json_view(j) is Int),
        (j is Number) == (json_view(j) is Number),
        (j is Text) == (json_view(j) is Text),
        (j is Array) == (json_view(j) is Array),
        (j is Object) == (json_view(j) is Object),
{
}

/// Text equality.
pub fn str_eq(a: &str, b: &str) -> (r: bool)
    ensures
        r == (a@ == b@),
{
    let x = a.to_owned();
    let y = b.to_owned();
    x == y
}

/// Structural equality of two documents.
pub fn json_eq(a: &Json, b: &Json) -> (r: bool)
    ensures
        r == (a@ == b@),
    decreases a,
{
    proof {
        lemma_view_variant(*a);
        lemma_view_variant(*b);
    }
    match a {
        Json::Null => b.is_null(),
        Json::Bool(x) => match b {
            Json::Bool(y) => *x == *y,
            _ => {
                assert(a@ != b@);
                false
            },
        },
        Json::Int(x) => match b {
            Json::Int(y) => *x == *y,
            _ => {
                assert(a@ != b@);
                false
            },
        },
        Json::Number(x) => match b {
            Json::Number(y) => str_eq(x.as_str(), y.as_str()),
            _ => {
                assert(a@ != b@);
                false
            },
        },
        Json::Text(x) => match b {
            Json::Text(y) => str_eq(x.as_str(), y.as_str()),
            _ => {
                assert(a@ != b@);
                false
            },
        },
        Json::Array(xs) => match b {
            Json::Array(ys) => {
                proof {
                    lemma_view_items(xs@);
                    lemma_view_items(ys@);
                }
                if xs.len() != ys.len() {
                    return false;
                }
                let mut i: usize = 0;
                while i < xs.len()
                    invariant
                        xs.len() == ys.len(),
                        i <= xs.len(),
                        *a == Json::Array(*xs),
                        *b == Json::Array(*ys),
                        view_items(xs@).len() == xs.len(),
                        view_items(ys@).len() == ys.len(),
                        forall|k: int| 0 <= k < xs.len() ==> #[trigger] view_items(xs@)[k] == json_view(xs@[k]),
                        forall|k: int| 0 <= k < ys.len() ==> #[trigger] view_items(ys@)[k] == json_view(ys@[k]),
                        forall|j: int| 0 <= j < i ==> json_view(xs@[j]) == json_view(ys@[j]),
                    decreases xs.len() - i,
                {
                    proof {
                        assert(*a == Json::Array(*xs));
                        assert(decreases_to!(*a => xs@[i as int]));
                    }
                    if !json_eq(&xs[i], &ys[i]) {
                        assert(view_items(xs@)[i as int] != view_items(ys@)[i as int]);
                        assert(a@ == JsonView::Array(view_items(xs@)));
                        assert(b@ == JsonView::Array(view_items(ys@)));
                        return false;
                    }
                    i += 1;
                }
                assert(view_items(xs@) =~= view_items(ys@));
                assert(a@ == JsonView::Array(view_items(xs@)));
                assert(b@ == JsonView::Array(view_items(ys@)));
                true
            },
            _ => {
                assert(a@ != b@);
                false
            },
        },
        Json::Object(xs) => match b {
            Json::Object(ys) => {
                proof {
                    lemma_view_entries(xs@);
                    lemma_view_entries(ys@);
                }
                if xs.len() != ys.len() {
                    return false;
                }
                let mut i: usize = 0;
                while i < xs.len()
                    invariant
                        xs.len() == ys.len(),
                        i <= xs.len(),
                        *a == Json::Object(*xs),
                        *b == Json::Object(*ys),
                        view_entries(xs@).len() == xs.len(),
                        view_entries(ys@).len() == ys.len(),
                        forall|k: int| 0 <= k < xs.len() ==> #[trigger] view_entries(xs@)[k] == (xs@[k].0@, json_view(xs@[k].1)),
                        forall|k: int| 0 <= k < ys.len() ==> #[trigger] view_entries(ys@)[k] == (ys@[k].0@, json_view(ys@[k].1)),
                        forall|j: int| 0 <= j < i ==> view_entries(xs@)[j] == view_entries(ys@)[j],
                    decreases xs.len() - i,
                {
                    proof {
                        assert(*a == Json::Object(*xs));
                        assert(decreases_to!(*a => xs@[i as int].1));
                    }
                    if xs[i].0 != ys[i].0 || !json_eq(&xs[i].1, &ys[i].1) {
                        assert(view_entries(xs@)[i as int] != view_entries(ys@)[i as int]);
                        assert(a@ == JsonView::Object(view_entries(xs@)));
                        assert(b@ == JsonView::Object(view_entries(ys@)));
                        return false;
                    }
                    i += 1;
                }
                assert(view_entries(xs@) =~= view_entries(ys@));
                assert(a@ == JsonView::Object(view_entries(xs@)));
                assert(b@ == JsonView::Object(view_entries(ys@)));
                true
            },
            _ => {
                assert(a@ != b@);
                false
            },
        },
    }
}

/// A deep copy of the document.
pub fn duplicate(j: &Json) -> (r: Json)
    ensures
        r@ == j@,
    decreases j,
{
    match j {
        Json::Null => Json::Null,
        Json::Bool(b) => Json::Bool(*b),
        Json::Int(i) => Json::Int(*i),
        Json::Number(s) => Json::Number(s.clone()),
        Json::Text(s) => Json::Text(s.clone()),
        Json::Array(xs) => {
            let mut out: Vec<Json> = Vec::new();
            let mut i: usize = 0;
            while i < xs.len()
                invariant
                    i <= xs.len(),
                    out.len() == i,
                    *j == Json::Array(*xs),
                    forall|k: int| 0 <= k < i ==> #[trigger] json_view(out@[k]) == json_view(xs@[k]),
                decreases xs.len() - i,
            {
                proof {
                    assert(*j == Json::Array(*xs));
                    assert(decreases_to!(*j => j->Array_0));
                    assert(decreases_to!(*j => xs@[i as int]));
                }
                let item = duplicate(&xs[i]);
                out.push(item);
                i += 1;
            }
            proof {
                lemma_view_items(xs@);
                lemma_view_items(out@);
                assert(view_items(out@) =~= view_items(xs@));
            }
            Json::Array(out)
        },
        Json::Object(xs) => {
            let mut out: Vec<(String, Json)> = Vec::new();
            let mut i: usize = 0;
            while i < xs.len()
                invariant
                    i <= xs.len(),
                    out.len() == i,
                    *j == Json::Object(*xs),
                    forall|k: int| 0 <= k < i ==> #[trigger] out@[k].0@ == xs@[k].0@ && json_view(out@[k].1) == json_view(xs@[k].1),
                decreases xs.len() - i,
            {
                proof {
                    assert(*j == Json::Object(*xs));
                    assert(decreases_to!(*j => j->Object_0));
                    assert(decreases_to!(*j => xs@[i as int].1));
                }
                let value = duplicate(&xs[i].1);
                out.push((xs[i].0.clone(), value));
                i += 1;
            }
            proof {
                lemma_view_entries(xs@);
                lemma_view_entries(out@);
                assert(view_entries(out@) =~= view_entries(xs@));
            }
            Json::Object(out)
        },
    }
}

/// The document that `serde_json` reads from `text`, or `None` when the text is not JSON.
pub uninterp spec fn parsed_json(text: Seq<char>) -> Option<JsonView>;

/// The view of an optional document.
pub open spec fn opt_json(o: Option<Json>) -> Option<JsonView> {
    match o {
        Some(j) => Some(j@),
        None => None,
    }
}

#[verifier::external_type_specification]
#[verifier::external_body]
pub struct ExSerdeValue(serde_json::Value);

/// Turns a `serde_json::Value` into the same document as a [`Json`]; numbers
/// that fit in `i64` become `Int`, the others keep their JSON text.
#[verifier::external_body]
fn from_serde(value: serde_json::Value) -> Json {
    match value {
        serde_json::Value::Null => Json::Null,
        serde_json::Value::Bool(b) => Json::Bool(b),
        serde_json::Value::Number(n) => match n.as_i64() {
            Some(i) => Json::Int(i),
            None => Json::Number(n.to_string()),
        },
        serde_json::Value::String(s) => Json::Text(s),
        serde_json::Value::Array(items) => Json::Array(items.into_iter().map(from_serde).collect()),
        serde_json::Value::Object(map) => Json::Object(map.into_iter().map(|(k, v)| (k, from_serde(v))).collect()),
    }
}

/// Reads `text` with `serde_json::from_str`; the result is the document that
/// `parsed_json` names, `None` where serde reports an error.
#[verifier::external_body]
pub(crate) fn parse_json(text: &str) -> (r: Option<Json>)
    ensures
        opt_json(r) == parsed_json(text@),
{
    serde_json::from_str::<serde_json::Value>(text).ok().map(from_serde)
}

/// A deep copy of an object's entries.
pub fn copy_entries(xs: &Vec<(String, Json)>) -> (r: Vec<(String, Json)>)
    ensures
        view_entries(r@) == view_entries(xs@),
{
    let mut out: Vec<(String, Json)> = Vec::new();
    let mut i: usize = 0;
    while i < xs.len()
        invariant
            i <= xs.len(),
            out.len() == i,
            forall|k: int| 0 <= k < i ==> #[trigger] out@[k].0@ == xs@[k].0@ && json_view(out@[k].1) == json_view(xs@[k].1),
        decreases xs.len() - i,
    {
        let value = duplicate(&xs[i].1);
        out.push((xs[i].0.clone(), value));
        i += 1;
    }
    proof {
        lemma_view_entries(xs@);
        lemma_view_entries(out@);
        assert(view_entries(out@) =~= view_entries(xs@));
    }
    out
}

/// A text value.
pub fn text(s: &str) -> (r: Json)
    ensures
        r@ == JsonView::Text(s@),
{
    Json::Text(s.to_owned())
}

pub proof fn lemma_view_entries_push(items: Seq<(String, Json)>, x: (String, Json))
    ensures
        view_entries(items.push(x)) == view_entries(items).push((x.0@, json_view(x.1))),
{
    lemma_view_entries(items);
    lemma_view_entries(items.push(x));
    assert forall|k: int| 0 <= k < items.len() implies items.push(x)[k] == items[k] by {}
    assert(view_entries(items.push(x)) =~= view_entries(items).push((x.0@, json_view(x.1))));
}

pub proof fn lemma_view_items_push(items: Seq<Json>, x: Json)
    ensures
        view_items(items.push(x)) == view_items(items).push(json_view(x)),
{
    lemma_view_items(items);
    lemma_view_items(items.push(x));
    assert forall|k: int| 0 <= k < items.len() implies items.push(x)[k] == items[k] by {}
    assert(view_items(items.push(x)) =~= view_items(items).push(json_view(x)));
}

/// A deep copy of an array's items.
pub fn copy_items(xs: &Vec<Json>) -> (r: Vec<Json>)
    ensures
        view_items(r@) == view_items(xs@),
{
    let mut out: Vec<Json> = Vec::new();
    let mut i: usize = 0;
    while i < xs.len()
        invariant
            i <= xs.len(),
            out.len() == i,
            forall|k: int| 0 <= k < i ==> #[trigger] json_view(out@[k]) == json_view(xs@[k]),
        decreases xs.len() - i,
    {
        out.push(duplicate(&xs[i]));
        i += 1;
    }
    proof {
        lemma_view_items(xs@);
        lemma_view_items(out@);
        assert(view_items(out@) =~= view_items(xs@));
    }
    out
}

} // verus!
