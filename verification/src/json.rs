//! JSON values as the service sends and takes them, with a mathematical view of each.
use vstd::prelude::*;
use crate::text::{same, views};

verus! {

/// A JSON value. Integers keep their value; any other number keeps its text.
#[derive(Debug, PartialEq, Eq)]
pub enum Json {
    Null,
    Bool(bool),
    Int(i128),
    Real(String),
    Str(String),
    List(Vec<Json>),
    Object(Vec<Entry>),
}

/// One entry of an object.
#[derive(Debug, PartialEq, Eq)]
pub struct Entry {
    pub key: String,
    pub value: Json,
}

/// What a JSON value is, apart from how it is stored.
pub enum JsonV {
    Null,
    Bool(bool),
    Int(int),
    Real(Seq<char>),
    Str(Seq<char>),
    List(Seq<JsonV>),
    Object(Seq<EntryV>),
}

/// What an entry of an object is.
pub struct EntryV {
    pub key: Seq<char>,
    pub value: JsonV,
}

impl View for Json {
    type V = JsonV;

    open spec fn view(&self) -> JsonV
        decreases self,
    {
        match self {
            Json::Null => JsonV::Null,
            Json::Bool(b) => JsonV::Bool(*b),
            Json::Int(n) => JsonV::Int(*n as int),
            Json::Real(t) => JsonV::Real(t@),
            Json::Str(t) => JsonV::Str(t@),
            Json::List(items) => JsonV::List(
                Seq::new(
                    items@.len(),
                    |i: int|
                        if 0 <= i < items@.len() {
                            items@[i].view()
                        } else {
                            JsonV::Null
                        },
                ),
            ),
            Json::Object(entries) => JsonV::Object(
                Seq::new(
                    entries@.len(),
                    |i: int|
                        if 0 <= i < entries@.len() {
                            EntryV { key: entries@[i].key@, value: entries@[i].value.view() }
                        } else {
                            EntryV { key: Seq::empty(), value: JsonV::Null }
                        },
                ),
            ),
        }
    }
}

/// The value that the first entry named `key` holds.
pub open spec fn lookup(entries: Seq<EntryV>, key: Seq<char>) -> Option<JsonV>
    decreases entries.len(),
{
    if entries.len() == 0 {
        None
    } else if entries[0].key == key {
        Some(entries[0].value)
    } else {
        lookup(entries.skip(1), key)
    }
}

/// The place of the first entry named `key`.
pub open spec fn place_of(entries: Seq<EntryV>, key: Seq<char>) -> Option<int>
    decreases entries.len(),
{
    if entries.len() == 0 {
        None
    } else if entries[0].key == key {
        Some(0)
    } else {
        match place_of(entries.skip(1), key) {
            Some(i) => Some(i + 1),
            None => None,
        }
    }
}

proof fn lemma_place_of(entries: Seq<EntryV>, key: Seq<char>, i: int)
    requires
        0 <= i < entries.len(),
        entries[i].key == key,
        forall|j: int| 0 <= j < i ==> (#[trigger] entries[j]).key != key,
    ensures
        place_of(entries, key) == Some(i),
    decreases i,
{
    if i > 0 {
        assert(entries[0].key != key);
        let rest = entries.skip(1);
        assert(rest[i - 1] == entries[i]);
        assert forall|j: int| 0 <= j < i - 1 implies (#[trigger] rest[j]).key != key by {
            assert(rest[j] == entries[j + 1]);
        }
        lemma_place_of(rest, key, i - 1);
    }
}

proof fn lemma_no_place(entries: Seq<EntryV>, key: Seq<char>)
    requires
        forall|j: int| 0 <= j < entries.len() ==> (#[trigger] entries[j]).key != key,
    ensures
        place_of(entries, key) is None,
    decreases entries.len(),
{
    if entries.len() > 0 {
        assert(entries[0].key != key);
        let rest = entries.skip(1);
        assert forall|j: int| 0 <= j < rest.len() implies (#[trigger] rest[j]).key != key by {
            assert(rest[j] == entries[j + 1]);
        }
        lemma_no_place(rest, key);
    }
}

/// What is set under a key is what is read back from it, and every other key keeps its value.
pub proof fn law_set_then_read(value: JsonV, key: Seq<char>, new: JsonV, other: Seq<char>)
    requires
        value is Object || value is Null,
    ensures
        value.set(key, new).at(key) == new,
        other != key ==> value.set(key, new).get(other) == value.get(other),
{
    lemma_set_lookup(value.entries(), key, new, other);
    if value is Null {
        reveal_with_fuel(lookup, 2);
    }
}

proof fn lemma_set_lookup(entries: Seq<EntryV>, key: Seq<char>, new: JsonV, other: Seq<char>)
    ensures
        ({
            let after = match place_of(entries, key) {
                Some(i) => entries.update(i, EntryV { key, value: new }),
                None => entries.push(EntryV { key, value: new }),
            };
            &&& lookup(after, key) == Some(new)
            &&& other != key ==> lookup(after, other) == lookup(entries, other)
            &&& match place_of(entries, key) {
                Some(i) => 0 <= i < entries.len(),
                None => true,
            }
        }),
    decreases entries.len(),
{
    let entry = EntryV { key, value: new };
    if entries.len() == 0 {
        let after = entries.push(entry);
        assert(after.skip(1) =~= Seq::empty());
        assert(entries =~= Seq::empty());
    } else if entries[0].key == key {
        let after = entries.update(0, entry);
        assert(after.skip(1) =~= entries.skip(1));
    } else {
        let rest = entries.skip(1);
        lemma_set_lookup(rest, key, new, other);
        match place_of(rest, key) {
            Some(i) => {
                assert(entries.update(i + 1, entry).skip(1) =~= rest.update(i, entry));
            },
            None => {
                assert(entries.push(entry).skip(1) =~= rest.push(entry));
            },
        }
    }
}

/// An entry put into an object is read back under its key, unless one of that key was there before;
/// every other key reads as it did.
pub broadcast proof fn law_put_then_read(value: JsonV, key: Seq<char>, new: JsonV, other: Seq<char>)
    requires
        value is Object,
    ensures
        #[trigger] value.put(key, new).get(other) == (if value.get(other) is Some {
            value.get(other)
        } else if other == key {
            Some(new)
        } else {
            None
        }),
{
    lemma_push_lookup(value.entries(), EntryV { key, value: new }, other);
}

proof fn lemma_push_lookup(entries: Seq<EntryV>, entry: EntryV, key: Seq<char>)
    ensures
        lookup(entries.push(entry), key) == (if lookup(entries, key) is Some {
            lookup(entries, key)
        } else if key == entry.key {
            Some(entry.value)
        } else {
            None
        }),
    decreases entries.len(),
{
    let after = entries.push(entry);
    if entries.len() == 0 {
        assert(after.skip(1) =~= Seq::empty());
        assert(after[0] == entry);
        assert(lookup(after.skip(1), key) is None);
    } else {
        assert(after.skip(1) =~= entries.skip(1).push(entry));
        assert(after[0] == entries[0]);
        lemma_push_lookup(entries.skip(1), entry, key);
    }
}

/// The object without entries.
pub open spec fn nothing() -> JsonV {
    JsonV::Object(Seq::empty())
}

/// A JSON string.
pub open spec fn jstr(text: Seq<char>) -> JsonV {
    JsonV::Str(text)
}

/// A JSON string, or null where there is none.
pub open spec fn jopt(text: Option<Seq<char>>) -> JsonV {
    match text {
        Some(t) => JsonV::Str(t),
        None => JsonV::Null,
    }
}

impl JsonV {
    /// What is stored under `key`, where this is an object that has it.
    pub open spec fn get(self, key: Seq<char>) -> Option<JsonV> {
        match self {
            JsonV::Object(entries) => lookup(entries, key),
            _ => None,
        }
    }

    /// What is stored under `key`, or null.
    pub open spec fn at(self, key: Seq<char>) -> JsonV {
        match self.get(key) {
            Some(v) => v,
            None => JsonV::Null,
        }
    }

    /// The text of a string.
    pub open spec fn text(self) -> Option<Seq<char>> {
        match self {
            JsonV::Str(t) => Some(t),
            _ => None,
        }
    }

    /// The text of a string, empty for anything else.
    pub open spec fn text_or_empty(self) -> Seq<char> {
        match self {
            JsonV::Str(t) => t,
            _ => Seq::empty(),
        }
    }

    pub open spec fn flag(self) -> Option<bool> {
        match self {
            JsonV::Bool(b) => Some(b),
            _ => None,
        }
    }

    /// Whether this is `true` itself.
    pub open spec fn is_true(self) -> bool {
        self == JsonV::Bool(true)
    }

    pub open spec fn as_u64(self) -> Option<int> {
        match self {
            JsonV::Int(n) => if 0 <= n <= u64::MAX {
                Some(n)
            } else {
                None
            },
            _ => None,
        }
    }

    pub open spec fn as_i64(self) -> Option<int> {
        match self {
            JsonV::Int(n) => if i64::MIN <= n <= i64::MAX {
                Some(n)
            } else {
                None
            },
            _ => None,
        }
    }

    /// The elements of an array; anything else has none.
    pub open spec fn items(self) -> Seq<JsonV> {
        match self {
            JsonV::List(items) => items,
            _ => Seq::empty(),
        }
    }

    /// The entries of an object; anything else has none.
    pub open spec fn entries(self) -> Seq<EntryV> {
        match self {
            JsonV::Object(entries) => entries,
            _ => Seq::empty(),
        }
    }

    /// This object with `value` under `key`, in place of what was there.
    pub open spec fn set(self, key: Seq<char>, value: JsonV) -> JsonV {
        match place_of(self.entries(), key) {
            Some(i) => JsonV::Object(self.entries().update(i, EntryV { key, value })),
            None => self.put(key, value),
        }
    }

    /// This object with one more entry.
    pub open spec fn put(self, key: Seq<char>, value: JsonV) -> JsonV {
        JsonV::Object(self.entries().push(EntryV { key, value }))
    }
}

/// The entries of an object, by their values.
pub open spec fn entry_views(entries: Seq<Entry>) -> Seq<EntryV> {
    Seq::new(entries.len(), |i: int| EntryV { key: entries[i].key@, value: entries[i].value@ })
}

proof fn lemma_list_view(items: Vec<Json>)
    ensures
        Json::List(items)@ == JsonV::List(views(items@)),
{
    assert(Json::List(items)@->List_0 =~= views(items@));
}

proof fn lemma_object_view(entries: Vec<Entry>)
    ensures
        Json::Object(entries)@ == JsonV::Object(entry_views(entries@)),
{
    assert(Json::Object(entries)@->Object_0 =~= entry_views(entries@));
}

impl Json {
    /// The object without entries.
    pub fn object() -> (r: Json)
        ensures
            r@ == nothing(),
    {
        let entries: Vec<Entry> = Vec::new();
        proof {
            lemma_object_view(entries);
            assert(entry_views(entries@) =~= Seq::empty());
        }
        Json::Object(entries)
    }

    /// This object with one more entry.
    pub fn put(self, key: &str, value: Json) -> (r: Json)
        ensures
            r@ == self@.put(key@, value@),
    {
        let ghost before = self@;
        let mut entries: Vec<Entry> = match self {
            Json::Object(entries) => entries,
            _ => Vec::new(),
        };
        proof {
            lemma_object_view(entries);
            assert(entry_views(entries@) =~= before.entries());
        }
        let entry = Entry { key: key.to_owned(), value };
        entries.push(entry);
        proof {
            lemma_object_view(entries);
            assert(entry_views(entries@) =~= before.entries().push(EntryV { key: key@, value: value@ }));
        }
        Json::Object(entries)
    }

    /// Stores `value` under `key`, in place of what was there.
    pub fn set(self, key: &str, value: Json) -> (r: Json)
        requires
            self@ is Object || self@ is Null,
        ensures
            r@ == self@.set(key@, value@),
    {
        let ghost before = self@;
        let entries: Vec<Entry> = match self {
            Json::Object(entries) => entries,
            _ => Vec::new(),
        };
        proof {
            lemma_object_view(entries);
            assert(entry_views(entries@) =~= before.entries());
        }
        let ghost all = before.entries();
        let mut entries = entries;
        let mut i: usize = 0;
        assert(all.skip(0) =~= all);
        while i < entries.len()
            invariant
                i <= entries.len(),
                all == self@.entries(),
                all == entry_views(entries@),
                forall|j: int| 0 <= j < i ==> (#[trigger] all[j]).key != key@,
            decreases entries.len() - i,
        {
            if same(entries[i].key.as_str(), key) {
                let entry = Entry { key: key.to_owned(), value };
                entries.set(i, entry);
                proof {
                    lemma_object_view(entries);
                    assert(all[i as int].key == key@);
                    lemma_place_of(all, key@, i as int);
                    assert(entry_views(entries@) =~= all.update(
                        i as int,
                        EntryV { key: key@, value: value@ },
                    ));
                }
                return Json::Object(entries);
            }
            i += 1;
        }
        let entry = Entry { key: key.to_owned(), value };
        entries.push(entry);
        proof {
            lemma_object_view(entries);
            lemma_no_place(all, key@);
            assert(entry_views(entries@) =~= all.push(EntryV { key: key@, value: value@ }));
        }
        Json::Object(entries)
    }

    /// A JSON string.
    pub fn string(text: &str) -> (r: Json)
        ensures
            r@ == jstr(text@),
    {
        Json::Str(text.to_owned())
    }

    /// A JSON string, or null where there is none.
    pub fn opt(text: Option<&str>) -> (r: Json)
        ensures
            r@ == jopt(
                match text {
                    Some(t) => Some(t@),
                    None => None,
                },
            ),
    {
        match text {
            Some(t) => Json::Str(t.to_owned()),
            None => Json::Null,
        }
    }

    /// A JSON array.
    pub fn list(items: Vec<Json>) -> (r: Json)
        ensures
            r@ == JsonV::List(views(items@)),
    {
        proof {
            lemma_list_view(items);
        }
        Json::List(items)
    }

    /// What is stored under `key`, where this is an object that has it.
    pub fn get(&self, key: &str) -> (r: Option<&Json>)
        ensures
            match r {
                Some(v) => self@.get(key@) == Some(v@),
                None => self@.get(key@) is None,
            },
    {
        match self {
            Json::Object(entries) => {
                let ghost all = entry_views(entries@);
                proof {
                    lemma_object_view(*entries);
                }
                let mut i: usize = 0;
                assert(all.skip(0) =~= all);
                while i < entries.len()
                    invariant
                        i <= entries.len(),
                        self@ == JsonV::Object(all),
                        all == entry_views(entries@),
                        lookup(all, key@) == lookup(all.skip(i as int), key@),
                    decreases entries.len() - i,
                {
                    assert(all.skip(i as int)[0] == all[i as int]);
                    if same(entries[i].key.as_str(), key) {
                        return Some(&entries[i].value);
                    }
                    assert(all.skip(i as int).skip(1) =~= all.skip(i + 1));
                    i += 1;
                }
                None
            },
            _ => None,
        }
    }

    /// What is stored under `key`, or null.
    pub fn at(&self, key: &str) -> (r: &Json)
        ensures
            r@ == self@.at(key@),
    {
        match self.get(key) {
            Some(v) => v,
            None => &Json::Null,
        }
    }

    /// The text of a string.
    pub fn text(&self) -> (r: Option<&str>)
        ensures
            match r {
                Some(t) => self@.text() == Some(t@),
                None => self@.text() is None,
            },
    {
        match self {
            Json::Str(t) => Some(t.as_str()),
            _ => None,
        }
    }

    /// The text of a string, empty for anything else.
    pub fn text_or_empty(&self) -> (r: &str)
        ensures
            r@ == self@.text_or_empty(),
    {
        match self {
            Json::Str(t) => t.as_str(),
            _ => {
                proof {
                    reveal_strlit("");
                    assert(""@ =~= Seq::empty());
                }
                ""
            },
        }
    }

    pub fn flag(&self) -> (r: Option<bool>)
        ensures
            r == self@.flag(),
    {
        match self {
            Json::Bool(b) => Some(*b),
            _ => None,
        }
    }

    /// Whether this is `true` itself.
    pub fn is_true(&self) -> (r: bool)
        ensures
            r == self@.is_true(),
    {
        match self {
            Json::Bool(b) => *b,
            _ => false,
        }
    }

    pub fn is_null(&self) -> (r: bool)
        ensures
            r == (self@ is Null),
    {
        match self {
            Json::Null => true,
            _ => false,
        }
    }

    pub fn as_u64(&self) -> (r: Option<u64>)
        ensures
            match r {
                Some(n) => self@.as_u64() == Some(n as int),
                None => self@.as_u64() is None,
            },
    {
        match self {
            Json::Int(n) => if 0 <= *n && *n <= u64::MAX as i128 {
                Some(*n as u64)
            } else {
                None
            },
            _ => None,
        }
    }

    pub fn as_i64(&self) -> (r: Option<i64>)
        ensures
            match r {
                Some(n) => self@.as_i64() == Some(n as int),
                None => self@.as_i64() is None,
            },
    {
        match self {
            Json::Int(n) => if i64::MIN as i128 <= *n && *n <= i64::MAX as i128 {
                Some(*n as i64)
            } else {
                None
            },
            _ => None,
        }
    }

    /// The elements of an array, where this is one.
    pub fn list_items(&self) -> (r: Option<&Vec<Json>>)
        ensures
            match r {
                Some(items) => self@ == JsonV::List(views(items@)),
                None => !(self@ is List),
            },
    {
        match self {
            Json::List(items) => {
                proof {
                    lemma_list_view(*items);
                }
                Some(items)
            },
            _ => None,
        }
    }

    /// The entries of an object, where this is one.
    pub fn fields(&self) -> (r: Option<&Vec<Entry>>)
        ensures
            match r {
                Some(entries) => self@ == JsonV::Object(entry_views(entries@)),
                None => !(self@ is Object),
            },
    {
        match self {
            Json::Object(entries) => {
                proof {
                    lemma_object_view(*entries);
                }
                Some(entries)
            },
            _ => None,
        }
    }

    /// A value of its own with the same content.
    pub fn copy(&self) -> (r: Json)
        ensures
            r@ == self@,
        decreases self,
    {
        match self {
            Json::Null => Json::Null,
            Json::Bool(b) => Json::Bool(*b),
            Json::Int(n) => Json::Int(*n),
            Json::Real(t) => Json::Real(t.clone()),
            Json::Str(t) => Json::Str(t.clone()),
            Json::List(items) => {
                let mut out: Vec<Json> = Vec::new();
                let mut i: usize = 0;
                while i < items.len()
                    invariant
                        *self == Json::List(*items),
                        i <= items.len(),
                        out.len() == i,
                        forall|j: int| 0 <= j < i ==> #[trigger] out@[j]@ == items@[j]@,
                    decreases items.len() - i,
                {
                    assert(decreases_to!(*self => self->List_0));
                    assert(decreases_to!(*items => items@));
                    assert(decreases_to!(items@ => items@[i as int]));
                    out.push(items[i].copy());
                    i += 1;
                }
                proof {
                    lemma_list_view(*items);
                    lemma_list_view(out);
                    assert(views(out@) =~= views(items@));
                }
                Json::List(out)
            },
            Json::Object(entries) => {
                let mut out: Vec<Entry> = Vec::new();
                let mut i: usize = 0;
                while i < entries.len()
                    invariant
                        *self == Json::Object(*entries),
                        i <= entries.len(),
                        out.len() == i,
                        forall|j: int|
                            0 <= j < i ==> (#[trigger] out@[j]).key@ == entries@[j].key@ && out@[j].value@
                                == entries@[j].value@,
                    decreases entries.len() - i,
                {
                    assert(decreases_to!(*self => self->Object_0));
                    assert(decreases_to!(*entries => entries@));
                    assert(decreases_to!(entries@ => entries@[i as int]));
                    assert(decreases_to!(entries@[i as int] => entries@[i as int].value));
                    out.push(Entry { key: entries[i].key.clone(), value: entries[i].value.copy() });
                    i += 1;
                }
                proof {
                    lemma_object_view(*entries);
                    lemma_object_view(out);
                    assert(entry_views(out@) =~= entry_views(entries@));
                }
                Json::Object(out)
            },
        }
    }
}

/// What `read` makes of each element that it makes anything of, in order.
pub open spec fn collect<A>(items: Seq<JsonV>, read: spec_fn(JsonV) -> Option<A>) -> Seq<A>
    decreases items.len(),
{
    if items.len() == 0 {
        Seq::empty()
    } else {
        let before = collect(items.drop_last(), read);
        match read(items.last()) {
            Some(a) => before.push(a),
            None => before,
        }
    }
}

/// One more element of a list, read.
pub proof fn lemma_collect_step<A>(items: Seq<JsonV>, read: spec_fn(JsonV) -> Option<A>, i: int)
    requires
        0 <= i < items.len(),
    ensures
        collect(items.take(i + 1), read) == match read(items[i]) {
            Some(a) => collect(items.take(i), read).push(a),
            None => collect(items.take(i), read),
        },
{
    assert(items.take(i + 1).drop_last() =~= items.take(i));
}

/// The elements of an array; anything else has none.
pub fn elements<'a>(value: &'a Json, none: &'a Vec<Json>) -> (r: &'a Vec<Json>)
    requires
        none@.len() == 0,
    ensures
        views(r@) == value@.items(),
{
    match value.list_items() {
        Some(items) => items,
        None => {
            assert(views(none@) =~= Seq::empty());
            none
        },
    }
}

/// Whether a JSON value is the string `text`.
pub fn is_str(value: &Json, text: &str) -> (r: bool)
    ensures
        r == (value@.text() == Some(text@)),
{
    match value.text() {
        Some(t) => same(t, text),
        None => false,
    }
}

/// The text of a string, or `other`.
pub fn text_or<'a>(value: &'a Json, other: &'a str) -> (r: &'a str)
    ensures
        r@ == text_or_v(value@, other@),
{
    match value.text() {
        Some(t) => t,
        None => other,
    }
}

/// The text of a string, or `other`.
pub open spec fn text_or_v(value: JsonV, other: Seq<char>) -> Seq<char> {
    match value.text() {
        Some(t) => t,
        None => other,
    }
}

/// The integer, or `other` where there is none in range.
pub open spec fn i64_or(value: JsonV, other: int) -> int {
    match value.as_i64() {
        Some(n) => n,
        None => other,
    }
}

/// The truth value, or `other` where there is none.
pub open spec fn flag_or(value: JsonV, other: bool) -> bool {
    match value.flag() {
        Some(b) => b,
        None => other,
    }
}

/// A value as `serde_json` holds it.
#[verifier::external_type_specification]
#[verifier::external_body]
pub struct ExSerdeValue(serde_json::Value);

/// What a text says as JSON, where it is JSON at all.
pub uninterp spec fn parsed_json(text: Seq<char>) -> Option<JsonV>;

/// `serde_json::from_str`: the value that a JSON text stands for, or nothing where the text is
/// not JSON. Which texts are JSON, and what each stands for, is left to `serde_json`.
#[verifier::external_body]
pub(crate) fn parse_text(text: &str) -> (r: Option<Json>)
    ensures
        match r {
            Some(v) => parsed_json(text@) == Some(v@),
            None => parsed_json(text@) is None,
        },
{
    serde_json::from_str::<serde_json::Value>(text).ok().map(from_value)
}

/// A `serde_json::Value`, variant by variant: what is an integer there is one here, and any other
/// number keeps the text that `serde_json` writes for it. Nothing is claimed of the result beyond
/// what `parse_text` says of it.
#[verifier::external_body]
fn from_value(value: serde_json::Value) -> (r: Json) {
    match value {
        serde_json::Value::Null => Json::Null,
        serde_json::Value::Bool(b) => Json::Bool(b),
        serde_json::Value::Number(n) => match (n.as_i64(), n.as_u64()) {
            (Some(i), _) => Json::Int(i as i128),
            (_, Some(u)) => Json::Int(u as i128),
            _ => Json::Real(n.to_string()),
        },
        serde_json::Value::String(s) => Json::Str(s),
        serde_json::Value::Array(a) => Json::List(a.into_iter().map(from_value).collect()),
        serde_json::Value::Object(o) => Json::Object(
            o.into_iter().map(|(key, v)| Entry { key, value: from_value(v) }).collect(),
        ),
    }
}

/// Reads a text as JSON.
pub fn parse(text: &str) -> (r: Option<Json>)
    ensures
        match r {
            Some(v) => parsed_json(text@) == Some(v@),
            None => parsed_json(text@) is None,
        },
{
    parse_text(text)
}

/// What a value is as JSON text.
pub uninterp spec fn json_text(value: JsonV) -> Seq<char>;

/// `to_string` of a `serde_json::Value`: the value as JSON text. How a value is written is left to
/// `serde_json`.
#[verifier::external_body]
fn write_text(value: &Json) -> (r: String)
    ensures
        r@ == json_text(value@),
{
    to_value(value).to_string()
}

/// A value as a `serde_json::Value`, variant by variant. Nothing is claimed of the result beyond
/// what `write_text` says of it.
#[verifier::external_body]
fn to_value(value: &Json) -> (r: serde_json::Value) {
    match value {
        Json::Null => serde_json::Value::Null,
        Json::Bool(b) => serde_json::Value::Bool(*b),
        Json::Int(n) => serde_json::Number::from_i128(*n).into(),
        Json::Real(t) => t.parse::<serde_json::Number>().ok().into(),
        Json::Str(s) => serde_json::Value::String(s.clone()),
        Json::List(items) => serde_json::Value::Array(items.iter().map(to_value).collect()),
        Json::Object(entries) => serde_json::Value::Object(
            entries.iter().map(|e| (e.key.clone(), to_value(&e.value))).collect(),
        ),
    }
}

impl Json {
    /// This value as JSON text.
    pub fn write(&self) -> (r: String)
        ensures
            r@ == json_text(self@),
    {
        write_text(self)
    }
}

/// Reading two lists one after the other is reading them as one.
pub proof fn law_collecting_goes_list_by_list<A>(
    front: Seq<JsonV>,
    back: Seq<JsonV>,
    read: spec_fn(JsonV) -> Option<A>,
)
    ensures
        collect(front + back, read) == collect(front, read) + collect(back, read),
    decreases back.len(),
{
    if back.len() == 0 {
        assert(front + back =~= front);
        assert(collect(front, read) + collect(back, read) =~= collect(front, read));
    } else {
        law_collecting_goes_list_by_list(front, back.drop_last(), read);
        assert((front + back).drop_last() =~= front + back.drop_last());
        assert((front + back).last() == back.last());
        if read(back.last()) is Some {
            let a = read(back.last())->0;
            assert(collect(front, read) + collect(back.drop_last(), read).push(a) =~= (collect(
                front,
                read,
            ) + collect(back.drop_last(), read)).push(a));
        }
    }
}

/// One element gives what is made of it, and nothing where nothing is.
pub proof fn law_collecting_one<A>(item: JsonV, read: spec_fn(JsonV) -> Option<A>)
    ensures
        read(item) is None ==> collect(seq![item], read).len() == 0,
        read(item) is Some ==> collect(seq![item], read) == seq![read(item)->0],
{
    let one = seq![item];
    assert(one.drop_last() =~= Seq::empty());
    assert(one.last() == item);
    assert(collect(one.drop_last(), read).len() == 0);
    if read(item) is Some {
        assert(collect(one, read) =~= seq![read(item)->0]);
    }
}

/// Where something is made of every element, each stands in its own place.
pub proof fn law_collecting_all_keeps_their_places<A>(
    items: Seq<JsonV>,
    read: spec_fn(JsonV) -> Option<A>,
)
    requires
        forall|i: int| 0 <= i < items.len() ==> read(#[trigger] items[i]) is Some,
    ensures
        collect(items, read).len() == items.len(),
        forall|i: int|
            0 <= i < items.len() ==> read(#[trigger] items[i]) == Some(collect(items, read)[i]),
    decreases items.len(),
{
    if items.len() > 0 {
        let rest = items.drop_last();
        assert forall|i: int| 0 <= i < rest.len() implies read(#[trigger] rest[i]) is Some by {
            assert(rest[i] == items[i]);
        }
        law_collecting_all_keeps_their_places(rest, read);
        assert forall|i: int| 0 <= i < items.len() implies read(#[trigger] items[i]) == Some(
            collect(items, read)[i],
        ) by {
            if i < rest.len() {
                assert(rest[i] == items[i]);
            }
        }
    }
}

/// Whatever comes out of a list was made of one of its elements.
pub proof fn law_collecting_adds_nothing<A>(
    items: Seq<JsonV>,
    read: spec_fn(JsonV) -> Option<A>,
    k: int,
)
    requires
        0 <= k < collect(items, read).len(),
    ensures
        exists|i: int| 0 <= i < items.len() && read(#[trigger] items[i]) == Some(collect(items, read)[k]),
    decreases items.len(),
{
    let rest = items.drop_last();
    if k < collect(rest, read).len() {
        law_collecting_adds_nothing(rest, read, k);
        let i = choose|i: int|
            0 <= i < rest.len() && read(#[trigger] rest[i]) == Some(collect(rest, read)[k]);
        assert(rest[i] == items[i]);
        assert(read(items[i]) == Some(collect(items, read)[k]));
    } else {
        let i = items.len() - 1;
        assert(read(items[i]) == Some(collect(items, read)[k]));
    }
}

/// Whatever is made of an element comes out of the list that it is in.
pub proof fn law_collecting_loses_nothing<A>(
    items: Seq<JsonV>,
    read: spec_fn(JsonV) -> Option<A>,
    i: int,
)
    requires
        0 <= i < items.len(),
        read(items[i]) is Some,
    ensures
        collect(items, read).contains(read(items[i])->0),
    decreases items.len(),
{
    let rest = items.drop_last();
    if i < rest.len() {
        assert(rest[i] == items[i]);
        law_collecting_loses_nothing(rest, read, i);
        let a = read(items[i])->0;
        let k = choose|k: int| 0 <= k < collect(rest, read).len() && collect(rest, read)[k] == a;
        assert(collect(items, read)[k] == a);
    } else {
        let k = collect(rest, read).len() as int;
        assert(collect(items, read)[k] == read(items[i])->0);
    }
}

/// Of several entries with one key the first is the one that is read, and a key that no entry has reads
/// as nothing.
pub proof fn law_the_first_entry_is_read(entries: Seq<EntryV>, key: Seq<char>, first: int)
    requires
        0 <= first <= entries.len(),
        forall|j: int| 0 <= j < first ==> (#[trigger] entries[j]).key != key,
        first < entries.len() ==> entries[first].key == key,
    ensures
        first < entries.len() ==> JsonV::Object(entries).get(key) == Some(entries[first].value)
            && JsonV::Object(entries).at(key) == entries[first].value,
        first == entries.len() ==> JsonV::Object(entries).get(key) is None && JsonV::Object(
            entries,
        ).at(key) is Null,
    decreases entries.len(),
{
    if entries.len() > 0 && first > 0 {
        assert(entries[0].key != key);
        let rest = entries.skip(1);
        assert forall|j: int| 0 <= j < first - 1 implies (#[trigger] rest[j]).key != key by {
            assert(rest[j] == entries[j + 1]);
        }
        law_the_first_entry_is_read(rest, key, first - 1);
    }
}

/// A value reads as what it is and as nothing else: a text as a text, a truth value as one, a number as
/// one where it fits; what it is not reads as nothing, or as what is to stand in for it.
pub proof fn law_a_value_reads_as_what_it_is(value: JsonV, t: Seq<char>, n: int, b: bool)
    ensures
        JsonV::Str(t).text() == Some(t) && JsonV::Str(t).text_or_empty() == t,
        !(value is Str) ==> value.text() is None && value.text_or_empty().len() == 0,
        JsonV::Bool(b).flag() == Some(b) && JsonV::Bool(b).is_true() == b,
        !(value is Bool) ==> value.flag() is None && !value.is_true(),
        0 <= n <= 18446744073709551615 ==> JsonV::Int(n).as_u64() == Some(n),
        n < 0 || n > 18446744073709551615 ==> JsonV::Int(n).as_u64() is None,
        -9223372036854775808 <= n <= 9223372036854775807 ==> JsonV::Int(n).as_i64() == Some(n),
        n < -9223372036854775808 || n > 9223372036854775807 ==> JsonV::Int(n).as_i64() is None,
        !(value is Int) ==> value.as_u64() is None && value.as_i64() is None,
        !(value is List) ==> value.items().len() == 0,
        !(value is Object) ==> value.get(t) is None && value.at(t) is Null && value.entries().len()
            == 0,
        value is Str ==> value == JsonV::Str(text_or_v(value, t)),
        !(value is Str) ==> text_or_v(value, t) == t,
        value.as_i64() is Some ==> value == JsonV::Int(i64_or(value, n)),
        value.as_i64() is None ==> i64_or(value, n) == n,
        value is Bool ==> value == JsonV::Bool(flag_or(value, b)),
        !(value is Bool) ==> flag_or(value, b) == b,
        jopt(Some(t)) == JsonV::Str(t),
        jopt(None) is Null,
        nothing().get(t) is None,
{
}

} // verus!
