//! JSON documents, as far as the board reads them.

use vstd::prelude::*;

use crate::text::str_eq;

verus! {

/// A JSON document. Nothing here reads a null, a boolean or a number, so these are one case.
#[derive(Debug, PartialEq, Eq)]
pub enum Json {
    Scalar,
    Text(String),
    Array(Vec<Json>),
    Object(Vec<Entry>),
}

/// An entry of a JSON object.
#[derive(Debug, PartialEq, Eq)]
pub struct Entry {
    pub key: String,
    pub value: Json,
}

/// What a [`Json`] holds. The entries of an object stand in the order in which they are listed.
pub enum JsonView {
    Scalar,
    Text(Seq<char>),
    Array(Seq<JsonView>),
    Object(Seq<EntryView>),
}

/// What an [`Entry`] holds.
pub struct EntryView {
    pub key: Seq<char>,
    pub value: JsonView,
}

impl View for Entry {
    type V = EntryView;

    open spec fn view(&self) -> EntryView
        decreases self,
    {
        EntryView { key: self.key@, value: self.value.view() }
    }
}

impl View for Json {
    type V = JsonView;

    open spec fn view(&self) -> JsonView
        decreases self,
    {
        match self {
            Json::Scalar => JsonView::Scalar,
            Json::Text(s) => JsonView::Text(s@),
            Json::Array(items) => JsonView::Array(
                Seq::new(
                    items@.len(),
                    |i: int|
                        if 0 <= i < items@.len() {
                            items@[i].view()
                        } else {
                            JsonView::Scalar
                        },
                ),
            ),
            Json::Object(entries) => JsonView::Object(
                Seq::new(
                    entries@.len(),
                    |i: int|
                        if 0 <= i < entries@.len() {
                            entries@[i].view()
                        } else {
                            EntryView { key: seq![], value: JsonView::Scalar }
                        },
                ),
            ),
        }
    }
}

/// The view of an array is the array of its items' views.
pub proof fn lemma_array_view(value: Json, items: Vec<Json>)
    requires
        value == Json::Array(items),
    ensures
        value@ is Array,
        value@->Array_0 == items@.map_values(|item: Json| item@),
{
    assert(value@->Array_0 =~= items@.map_values(|item: Json| item@));
}

/// The view of an object is the object of its entries' views.
pub proof fn lemma_object_view(value: Json, entries: Vec<Entry>)
    requires
        value == Json::Object(entries),
    ensures
        value@ is Object,
        value@->Object_0 == entries@.map_values(|entry: Entry| entry@),
{
    assert(value@->Object_0 =~= entries@.map_values(|entry: Entry| entry@));
}

/// The value of the first entry with the given key.
pub open spec fn entry_of(entries: Seq<EntryView>, key: Seq<char>) -> Option<JsonView>
    decreases entries.len(),
{
    if entries.len() == 0 {
        None
    } else if entries[0].key == key {
        Some(entries[0].value)
    } else {
        entry_of(entries.drop_first(), key)
    }
}

/// What `value[key]` is: the entry of an object, and nothing for any other value.
pub open spec fn member(value: JsonView, key: Seq<char>) -> Option<JsonView> {
    match value {
        JsonView::Object(entries) => entry_of(entries, key),
        _ => None,
    }
}

/// The text that a value is, if it is one.
pub open spec fn text_of(value: Option<JsonView>) -> Option<Seq<char>> {
    match value {
        Some(JsonView::Text(s)) => Some(s),
        _ => None,
    }
}

/// The items of the array that a value is, if it is one.
pub open spec fn items_of(value: Option<JsonView>) -> Option<Seq<JsonView>> {
    match value {
        Some(JsonView::Array(items)) => Some(items),
        _ => None,
    }
}

/// An entry that is found stands among the entries, under the key.
pub proof fn lemma_entry_of_is_an_entry(entries: Seq<EntryView>, key: Seq<char>)
    ensures
        entry_of(entries, key) matches Some(value) ==> exists|i: int|
            0 <= i < entries.len() && #[trigger] entries[i] == (EntryView { key, value }),
        entry_of(entries, key) is None ==> forall|i: int|
            0 <= i < entries.len() ==> #[trigger] entries[i].key != key,
    decreases entries.len(),
{
    if entries.len() > 0 && entries[0].key != key {
        let rest = entries.drop_first();
        lemma_entry_of_is_an_entry(rest, key);
        if entry_of(entries, key) is Some {
            let value = entry_of(entries, key)->0;
            let i = choose|i: int| 0 <= i < rest.len() && #[trigger] rest[i] == (EntryView { key, value });
            assert(entries[i + 1] == (EntryView { key, value }));
        } else {
            assert forall|i: int| 0 <= i < entries.len() implies #[trigger] entries[i].key != key by {
                if i > 0 {
                    assert(rest[i - 1].key != key);
                }
            }
        }
    } else if entries.len() > 0 {
        assert(entries[0] == (EntryView { key, value: entries[0].value }));
    }
}

impl Json {
    /// `value[key]`: the entry of an object, and nothing for any other value.
    pub fn get(&self, key: &str) -> (r: Option<&Json>)
        ensures
            r is Some <==> member(self@, key@) is Some,
            r matches Some(value) ==> member(self@, key@) == Some(value@),
    {
        match self {
            Json::Object(entries) => {
                let ghost all = self@->Object_0;
                proof {
                    lemma_object_view(*self, *entries);
                }
                let mut i: usize = 0;
                assert(all.skip(0) == all);
                while i < entries.len()
                    invariant
                        i <= entries@.len(),
                        all == entries@.map_values(|entry: Entry| entry@),
                        self@ == JsonView::Object(all),
                        entry_of(all, key@) == entry_of(all.skip(i as int), key@),
                    decreases entries@.len() - i,
                {
                    assert(all[i as int] == entries@[i as int]@);
                    if str_eq(entries[i].key.as_str(), key) {
                        return Some(&entries[i].value);
                    }
                    assert(all.skip(i as int).drop_first() == all.skip(i + 1));
                    i += 1;
                }
                None
            },
            _ => None,
        }
    }

    /// The text that a value is, if it is one.
    pub fn as_str(&self) -> (r: Option<&String>)
        ensures
            r is Some <==> text_of(Some(self@)) is Some,
            r matches Some(s) ==> text_of(Some(self@)) == Some(s@),
    {
        match self {
            Json::Text(s) => Some(s),
            _ => None,
        }
    }

    /// The items of the array that a value is, if it is one.
    pub fn as_array(&self) -> (r: Option<&Vec<Json>>)
        ensures
            r is Some <==> items_of(Some(self@)) is Some,
            r matches Some(items) ==> items_of(Some(self@)) matches Some(all) && all.len()
                == items@.len() && forall|i: int|
                0 <= i < all.len() ==> #[trigger] all[i] == items@[i]@,
    {
        match self {
            Json::Array(items) => {
                proof {
                    lemma_array_view(*self, *items);
                }
                Some(items)
            },
            _ => None,
        }
    }
}

impl Clone for Json {
    fn clone(&self) -> (r: Self)
        ensures
            r@ == self@,
        decreases self,
    {
        match self {
            Json::Scalar => Json::Scalar,
            Json::Text(s) => Json::Text(s.clone()),
            Json::Array(items) => {
                let mut out: Vec<Json> = Vec::new();
                let mut i: usize = 0;
                while i < items.len()
                    invariant
                        i <= items@.len(),
                        *self == Json::Array(*items),
                        out@.len() == i,
                        forall|j: int| 0 <= j < i ==> #[trigger] out@[j]@ == items@[j]@,
                    decreases items@.len() - i,
                {
                    assert(decreases_to!(*items => items@[i as int]));
                    assert(decreases_to!(*self => self->Array_0));
                    assert(decreases_to!(*self => items@[i as int]));
                    out.push(items[i].clone());
                    i += 1;
                }
                let r = Json::Array(out);
                proof {
                    lemma_array_view(r, out);
                    lemma_array_view(*self, *items);
                    assert(r@->Array_0 =~= self@->Array_0);
                }
                r
            },
            Json::Object(entries) => {
                let mut out: Vec<Entry> = Vec::new();
                let mut i: usize = 0;
                while i < entries.len()
                    invariant
                        i <= entries@.len(),
                        *self == Json::Object(*entries),
                        out@.len() == i,
                        forall|j: int|
                            0 <= j < i ==> #[trigger] out@[j]@ == entries@[j]@,
                    decreases entries@.len() - i,
                {
                    assert(decreases_to!(*self => self->Object_0));
                    assert(decreases_to!(*entries => entries@[i as int]));
                    assert(decreases_to!(entries@[i as int] => entries@[i as int].value));
                    out.push(Entry { key: entries[i].key.clone(), value: entries[i].value.clone() });
                    i += 1;
                }
                let r = Json::Object(out);
                proof {
                    lemma_object_view(r, out);
                    lemma_object_view(*self, *entries);
                    assert(r@->Object_0 =~= self@->Object_0);
                }
                r
            },
        }
    }
}

/// `serde_json::Value`, a JSON document of any kind.
#[verifier::external_type_specification]
#[verifier::external_body]
pub struct ExValue(serde_json::Value);

/// `serde_json::Error`, what is wrong with a text that is no JSON document.
#[verifier::external_type_specification]
#[verifier::external_body]
pub struct ExError(serde_json::Error);

/// What a `serde_json::Value` holds. An object's entries stand in the order of its map.
pub uninterp spec fn json_contents(value: serde_json::Value) -> JsonView;

/// What a `serde_json::Error` says of itself.
pub uninterp spec fn error_message(error: serde_json::Error) -> Seq<char>;

/// What `serde_json::from_slice` makes of bytes: the document, or what its error says.
pub uninterp spec fn parsed_json(bytes: Seq<u8>) -> Result<JsonView, Seq<char>>;

/// One level of a `serde_json::Value`.
pub enum Level {
    Scalar,
    Text(String),
    Array(Vec<serde_json::Value>),
    Object(Vec<(String, serde_json::Value)>),
}

/// What an outcome of `serde_json::from_slice` says.
pub open spec fn value_view(outcome: Result<serde_json::Value, serde_json::Error>) -> Result<
    JsonView,
    Seq<char>,
> {
    match outcome {
        Ok(value) => Ok(json_contents(value)),
        Err(error) => Err(error_message(error)),
    }
}

/// The document that a level is the top of.
pub open spec fn level_view(level: Level) -> JsonView {
    match level {
        Level::Scalar => JsonView::Scalar,
        Level::Text(s) => JsonView::Text(s@),
        Level::Array(items) => JsonView::Array(
            items@.map_values(|item: serde_json::Value| json_contents(item)),
        ),
        Level::Object(entries) => JsonView::Object(
            entries@.map_values(
                |entry: (String, serde_json::Value)|
                    EntryView { key: entry.0@, value: json_contents(entry.1) },
            ),
        ),
    }
}

/// Whether no two entries of an object at the top have the same key.
pub open spec fn level_keys_differ(level: Level) -> bool {
    level matches Level::Object(entries) ==> forall|i: int, j: int|
        0 <= i < j < entries@.len() ==> #[trigger] entries@[i].0@ != #[trigger] entries@[j].0@
}

/// `serde_json::from_slice` at the type `serde_json::Value`. It is claimed that the outcome
/// depends on the bytes alone.
#[verifier::external_body]
fn value_from_slice(bytes: &[u8]) -> (r: Result<serde_json::Value, serde_json::Error>)
    ensures
        value_view(r) == parsed_json(bytes@),
{
    serde_json::from_slice(bytes)
}

/// `serde_json::Error`'s `to_string`.
#[verifier::external_body]
fn error_text(error: serde_json::Error) -> (r: String)
    ensures
        r@ == error_message(error),
{
    error.to_string()
}

/// Takes a `serde_json::Value` apart by one level: its variant with what the variant holds,
/// where a map is handed out by its `into_iter`. No two entries of a map have the same key.
#[verifier::external_body]
fn open_value(value: serde_json::Value) -> (r: Level)
    ensures
        json_contents(value) == level_view(r),
        level_keys_differ(r),
{
    match value {
        serde_json::Value::Null => Level::Scalar,
        serde_json::Value::Bool(_) => Level::Scalar,
        serde_json::Value::Number(_) => Level::Scalar,
        serde_json::Value::String(s) => Level::Text(s),
        serde_json::Value::Array(items) => Level::Array(items),
        serde_json::Value::Object(map) => Level::Object(map.into_iter().collect()),
    }
}

/// Whether no two entries have the same key.
pub open spec fn keys_differ(entries: Seq<EntryView>) -> bool {
    forall|i: int, j: int| 0 <= i < j < entries.len() ==> entries[i].key != entries[j].key
}

/// Whether the keys of every object in a document differ.
pub open spec fn well_formed(value: JsonView) -> bool
    decreases value,
{
    match value {
        JsonView::Array(items) => forall|i: int|
            0 <= i < items.len() ==> well_formed(#[trigger] items[i]),
        JsonView::Object(entries) => keys_differ(entries) && forall|i: int|
            0 <= i < entries.len() ==> well_formed((#[trigger] entries[i]).value),
        _ => true,
    }
}

/// Where keys differ, looking an entry's key up gives that entry, wherever it stands.
pub proof fn law_every_entry_is_found(entries: Seq<EntryView>, i: int)
    requires
        keys_differ(entries),
        0 <= i < entries.len(),
    ensures
        entry_of(entries, entries[i].key) == Some(entries[i].value),
    decreases entries.len(),
{
    if i > 0 {
        let rest = entries.drop_first();
        assert forall|a: int, b: int| 0 <= a < b < rest.len() implies rest[a].key
            != rest[b].key by {
            assert(entries[a + 1].key != entries[b + 1].key);
        }
        law_every_entry_is_found(rest, i - 1);
        assert(entries[0].key != entries[i].key);
    }
}

/// The document that a `serde_json::Value` is.
pub fn from_value(value: serde_json::Value) -> (r: Json)
    ensures
        r@ == json_contents(value),
        well_formed(r@),
    decreases json_contents(value),
{
    let ghost whole = json_contents(value);
    match open_value(value) {
        Level::Scalar => Json::Scalar,
        Level::Text(s) => Json::Text(s),
        Level::Array(items) => {
            let ghost all = whole->Array_0;
            let mut out: Vec<Json> = Vec::new();
            for item in it: items
                invariant
                    whole == json_contents(value),
                    whole == JsonView::Array(all),
                    it.seq() == items@,
                    all == items@.map_values(|item: serde_json::Value| json_contents(item)),
                    out@.len() == it.index(),
                    forall|j: int| 0 <= j < it.index() ==> #[trigger] out@[j]@ == all[j],
                    forall|j: int| 0 <= j < it.index() ==> well_formed(#[trigger] out@[j]@),
            {
                proof {
                    assert(all[it.index()] == json_contents(item));
                    assert(decreases_to!(whole => whole->Array_0));
                    assert(decreases_to!(all => all[it.index()]));
                }
                out.push(from_value(item));
            }
            let r = Json::Array(out);
            proof {
                lemma_array_view(r, out);
                assert(r@->Array_0 =~= all);
                assert forall|i: int| 0 <= i < all.len() implies well_formed(#[trigger] all[i]) by {
                    assert(well_formed(out@[i]@));
                }
            }
            r
        },
        Level::Object(entries) => {
            let ghost all = whole->Object_0;
            let mut out: Vec<Entry> = Vec::new();
            for entry in it: entries
                invariant
                    whole == json_contents(value),
                    whole == JsonView::Object(all),
                    it.seq() == entries@,
                    all == entries@.map_values(
                        |entry: (String, serde_json::Value)|
                            EntryView { key: entry.0@, value: json_contents(entry.1) },
                    ),
                    out@.len() == it.index(),
                    forall|j: int| 0 <= j < it.index() ==> #[trigger] out@[j]@ == all[j],
                    forall|j: int| 0 <= j < it.index() ==> well_formed(#[trigger] out@[j]@.value),
            {
                let (key, inner) = entry;
                proof {
                    assert(all[it.index()].value == json_contents(inner));
                    assert(decreases_to!(whole => whole->Object_0));
                    assert(decreases_to!(all => all[it.index()]));
                    assert(decreases_to!(all[it.index()] => all[it.index()].value));
                }
                out.push(Entry { key, value: from_value(inner) });
            }
            let r = Json::Object(out);
            proof {
                lemma_object_view(r, out);
                assert(r@->Object_0 =~= all);
                assert forall|i: int| 0 <= i < all.len() implies well_formed(
                    (#[trigger] all[i]).value,
                ) by {
                    assert(well_formed(out@[i]@.value));
                }
                assert forall|i: int, j: int| 0 <= i < j < all.len() implies all[i].key
                    != all[j].key by {
                    assert(entries@[i].0@ != entries@[j].0@);
                }
            }
            r
        },
    }
}

/// What a parse of a document came to.
pub open spec fn parse_view(outcome: Result<Json, String>) -> Result<JsonView, Seq<char>> {
    match outcome {
        Ok(value) => Ok(value@),
        Err(message) => Err(message@),
    }
}

/// Reads a document, or says what is wrong with it.
pub fn parse(bytes: &[u8]) -> (r: Result<Json, String>)
    ensures
        parse_view(r) == parsed_json(bytes@),
        r matches Ok(value) ==> well_formed(value@),
{
    match value_from_slice(bytes) {
        Ok(value) => Ok(from_value(value)),
        Err(error) => Err(error_text(error)),
    }
}

/// Only an object has entries, only a text is one, and only an array has items.
pub proof fn law_values_are_read_by_what_they_are(
    text: Seq<char>,
    items: Seq<JsonView>,
    entries: Seq<EntryView>,
    key: Seq<char>,
)
    ensures
        member(JsonView::Scalar, key) is None,
        member(JsonView::Text(text), key) is None,
        member(JsonView::Array(items), key) is None,
        member(JsonView::Object(entries), key) is None <==> forall|i: int|
            0 <= i < entries.len() ==> #[trigger] entries[i].key != key,
        text_of(Some(JsonView::Text(text))) == Some(text),
        text_of(Some(JsonView::Scalar)) is None,
        text_of(Some(JsonView::Array(items))) is None,
        text_of(Some(JsonView::Object(entries))) is None,
        text_of(None) is None,
        items_of(Some(JsonView::Array(items))) == Some(items),
        items_of(Some(JsonView::Scalar)) is None,
        items_of(Some(JsonView::Text(text))) is None,
        items_of(Some(JsonView::Object(entries))) is None,
        items_of(None) is None,
{
    lemma_entry_of_is_an_entry(entries, key);
    if entry_of(entries, key) is Some {
        let value = entry_of(entries, key)->0;
        let i = choose|i: int|
            0 <= i < entries.len() && #[trigger] entries[i] == (EntryView { key, value });
        assert(entries[i].key == key);
    }
}

/// The entry that is found is the first one with its key.
pub proof fn law_the_first_entry_is_found(entries: Seq<EntryView>, i: int)
    requires
        0 <= i < entries.len(),
        forall|j: int| 0 <= j < i ==> #[trigger] entries[j].key != entries[i].key,
    ensures
        member(JsonView::Object(entries), entries[i].key) == Some(entries[i].value),
    decreases entries.len(),
{
    if i > 0 {
        let rest = entries.drop_first();
        assert(entries[0].key != entries[i].key);
        assert forall|j: int| 0 <= j < i - 1 implies #[trigger] rest[j].key != rest[i - 1].key by {
            assert(entries[j + 1].key != entries[i].key);
        }
        law_the_first_entry_is_found(rest, i - 1);
    }
}

/// The view of a document shows all of it.
pub proof fn law_a_document_is_its_view(text: String, message: String, value: Json)
    ensures
        Json::Scalar@ == JsonView::Scalar,
        Json::Text(text)@ == JsonView::Text(text@),
        value matches Json::Array(items) ==> value@ == JsonView::Array(
            items@.map_values(|item: Json| item@),
        ),
        value matches Json::Object(entries) ==> value@ == JsonView::Object(
            entries@.map_values(|entry: Entry| EntryView { key: entry.key@, value: entry.value@ }),
        ),
        parse_view(Ok(value)) == Ok::<JsonView, Seq<char>>(value@),
        parse_view(Err(message)) == Err::<JsonView, Seq<char>>(message@),
{
    match value {
        Json::Array(items) => {
            lemma_array_view(value, items);
        },
        Json::Object(entries) => {
            lemma_object_view(value, entries);
            assert(value@->Object_0 =~= entries@.map_values(
                |entry: Entry| EntryView { key: entry.key@, value: entry.value@ },
            ));
        },
        _ => {},
    }
}

} // verus!
