//! A JSON document as plain values, with the lookups that the event-stream and
//! token logic perform on it. Parsing the text is done by `serde_json`.
use vstd::prelude::*;

verus! {

broadcast use vstd::std_specs::vec::group_vec_axioms;

/// A JSON value. Numbers keep only their value as an `i64` (`None` for
/// fractions and for integers outside the `i64` range), which is all that the
/// library reads of them.
#[derive(Debug)]
pub enum JsonValue {
    Null,
    Bool(bool),
    Number(Option<i64>),
    Str(String),
    Array(Vec<JsonValue>),
    Object(Vec<(String, JsonValue)>),
}

/// The mathematical model of a [`JsonValue`].
pub enum JsonView {
    Null,
    Bool(bool),
    Number(Option<i64>),
    Str(Seq<char>),
    Array(Seq<JsonView>),
    Object(Seq<(Seq<char>, JsonView)>),
}

impl JsonValue {
    /// The model: strings by their characters, lists by their items' models.
    pub open spec fn model(self) -> JsonView
        decreases self,
    {
        match self {
            JsonValue::Null => JsonView::Null,
            JsonValue::Bool(b) => JsonView::Bool(b),
            JsonValue::Number(n) => JsonView::Number(n),
            JsonValue::Str(s) => JsonView::Str(s@),
            JsonValue::Array(items) => JsonView::Array(
                Seq::new(
                    items.len() as nat,
                    |i: int|
                        if 0 <= i < items.len() {
                            items[i].model()
                        } else {
                            JsonView::Null
                        },
                ),
            ),
            JsonValue::Object(entries) => JsonView::Object(
                Seq::new(
                    entries.len() as nat,
                    |i: int|
                        if 0 <= i < entries.len() {
                            (entries[i].0@, entries[i].1.model())
                        } else {
                            (Seq::empty(), JsonView::Null)
                        },
                ),
            ),
        }
    }
}

impl View for JsonValue {
    type V = JsonView;

    open spec fn view(&self) -> JsonView {
        self.model()
    }
}

/// The position of the first entry whose key is `key`.
pub open spec fn key_index(entries: Seq<(Seq<char>, JsonView)>, key: Seq<char>) -> Option<int> {
    if exists|i: int|
        0 <= i < entries.len() && entries[i].0 == key && no_key_before(entries, key, i) {
        Some(
            choose|i: int|
                0 <= i < entries.len() && entries[i].0 == key && no_key_before(entries, key, i),
        )
    } else {
        None
    }
}

/// No entry before position `i` has the key `key`.
pub open spec fn no_key_before(entries: Seq<(Seq<char>, JsonView)>, key: Seq<char>, i: int) -> bool {
    forall|j: int| 0 <= j < i ==> (#[trigger] entries[j]).0 != key
}

/// `value.get(key)`: the member `key` of an object.
pub open spec fn get(v: JsonView, key: Seq<char>) -> Option<JsonView> {
    match v {
        JsonView::Object(entries) => match key_index(entries, key) {
            Some(i) => Some(entries[i].1),
            None => None,
        },
        _ => None,
    }
}

/// `value.as_str()`.
pub open spec fn as_str(v: JsonView) -> Option<Seq<char>> {
    match v {
        JsonView::Str(s) => Some(s),
        _ => None,
    }
}

/// `value.as_i64()`.
pub open spec fn as_i64(v: JsonView) -> Option<i64> {
    match v {
        JsonView::Number(n) => n,
        _ => None,
    }
}

/// `value.as_array()`.
pub open spec fn as_array(v: JsonView) -> Option<Seq<JsonView>> {
    match v {
        JsonView::Array(items) => Some(items),
        _ => None,
    }
}

/// `value.get(key).and_then(Value::as_str)`.
pub open spec fn get_str(v: JsonView, key: Seq<char>) -> Option<Seq<char>> {
    match get(v, key) {
        Some(m) => as_str(m),
        None => None,
    }
}

/// The models of a list of values.
pub open spec fn models(items: Seq<JsonValue>) -> Seq<JsonView> {
    items.map_values(|x: JsonValue| x@)
}

/// An entry with `key` and no such entry before it is the one `key_index`
/// finds.
pub proof fn lemma_key_index_unique(entries: Seq<(Seq<char>, JsonView)>, key: Seq<char>, i: int)
    requires
        0 <= i < entries.len(),
        entries[i].0 == key,
        no_key_before(entries, key, i),
    ensures
        key_index(entries, key) == Some(i),
{
    let k = choose|k: int|
        0 <= k < entries.len() && entries[k].0 == key && no_key_before(entries, key, k);
    assert(k == i) by {
        if k < i {
            assert(entries[k].0 != key);
        }
        if k > i {
            assert(entries[i].0 != key);
        }
    }
}

impl JsonValue {
    /// The member `key` of an object.
    pub fn get(&self, key: &str) -> (r: Option<&JsonValue>)
        ensures
            r matches Some(m) ==> get(self@, key@) == Some(m@),
            r is None ==> get(self@, key@) is None,
    {
        match self {
            JsonValue::Object(entries) => {
                let ghost es = match self@ {
                    JsonView::Object(es) => es,
                    _ => Seq::empty(),
                };
                let mut i: usize = 0;
                while i < entries.len()
                    invariant
                        i <= entries@.len(),
                        self@ == JsonView::Object(es),
                        *self == JsonValue::Object(*entries),
                        es.len() == entries@.len(),
                        forall|j: int|
                            0 <= j < entries@.len() ==> #[trigger] es[j] == (
                            entries@[j].0@,
                            entries@[j].1@,
                        ),
                        no_key_before(es, key@, i as int),
                    decreases entries@.len() - i,
                {
                    if crate::text::str_eq(entries[i].0.as_str(), key) {
                        proof {
                            lemma_key_index_unique(es, key@, i as int);
                        }
                        return Some(&entries[i].1);
                    }
                    assert(es[i as int].0 != key@);
                    i = i + 1;
                }
                assert(key_index(es, key@) is None) by {
                    if exists|k: int|
                        0 <= k < es.len() && es[k].0 == key@ && no_key_before(es, key@, k) {
                        let k = choose|k: int|
                            0 <= k < es.len() && es[k].0 == key@ && no_key_before(es, key@, k);
                        assert(es[k].0 != key@);
                    }
                }
                None
            },
            _ => None,
        }
    }

    /// The text of a string value.
    pub fn as_str(&self) -> (r: Option<&String>)
        ensures
            r matches Some(s) ==> as_str(self@) == Some(s@),
            r is None ==> as_str(self@) is None,
    {
        match self {
            JsonValue::Str(s) => Some(s),
            _ => None,
        }
    }

    /// The value of an integral number that fits an `i64`.
    pub fn as_i64(&self) -> (r: Option<i64>)
        ensures
            r == as_i64(self@),
    {
        match self {
            JsonValue::Number(n) => *n,
            _ => None,
        }
    }

    /// The items of an array.
    pub fn as_array(&self) -> (r: Option<&Vec<JsonValue>>)
        ensures
            r matches Some(items) ==> as_array(self@) == Some(models(items@)),
            r is None ==> as_array(self@) is None,
    {
        match self {
            JsonValue::Array(items) => {
                assert(self@ == JsonView::Array(models(items@))) by {
                    assert(match self@ {
                        JsonView::Array(ms) => ms =~= models(items@),
                        _ => false,
                    });
                }
                Some(items)
            },
            _ => None,
        }
    }

    /// The text of the string member `key`.
    pub fn get_str(&self, key: &str) -> (r: Option<&String>)
        ensures
            r matches Some(s) ==> get_str(self@, key@) == Some(s@),
            r is None ==> get_str(self@, key@) is None,
    {
        match self.get(key) {
            Some(m) => m.as_str(),
            None => None,
        }
    }
}

/// The outside type `serde_json::Value`, carried from the parser to the copy
/// into a [`JsonValue`].
#[verifier::external_type_specification]
#[verifier::external_body]
pub struct ExSerdeJsonValue(serde_json::Value);

/// What `serde_json::from_str::<serde_json::Value>` gives for a text: the parsed
/// document, or the text of the parse error.
pub uninterp spec fn spec_serde_json_from_str(text: Seq<char>) -> Result<JsonView, Seq<char>>;

/// What `serde_json::from_slice::<serde_json::Value>` gives for bytes: the
/// parsed document, or the text of the parse error.
pub uninterp spec fn spec_serde_json_from_slice(bytes: Seq<u8>) -> Result<JsonView, Seq<char>>;

/// A parse outcome by its model.
pub open spec fn parse_outcome(r: Result<JsonValue, String>) -> Result<JsonView, Seq<char>> {
    match r {
        Ok(v) => Ok(v@),
        Err(e) => Err(e@),
    }
}

/// Copies a `serde_json::Value` into a [`JsonValue`], variant for variant; a
/// number keeps what `serde_json::Number::as_i64` returns for it. It states
/// nothing itself: the parsing wrappers below state the result.
#[verifier::external_body]
fn json_value_from_serde(value: serde_json::Value) -> JsonValue {
    match value {
        serde_json::Value::Null => JsonValue::Null,
        serde_json::Value::Bool(b) => JsonValue::Bool(b),
        serde_json::Value::Number(n) => JsonValue::Number(n.as_i64()),
        serde_json::Value::String(s) => JsonValue::Str(s),
        serde_json::Value::Array(items) => JsonValue::Array(
            items.into_iter().map(json_value_from_serde).collect(),
        ),
        serde_json::Value::Object(map) => JsonValue::Object(
            map.into_iter().map(|(k, v)| (k, json_value_from_serde(v))).collect(),
        ),
    }
}

/// Parses a JSON text with `serde_json::from_str` into a `serde_json::Value`.
/// Claims that the outcome (the document, or the error's `Display` text) is
/// [`spec_serde_json_from_str`] of the text.
#[verifier::external_body]
pub(crate) fn json_from_str(text: &str) -> (r: Result<JsonValue, String>)
    ensures
        parse_outcome(r) == spec_serde_json_from_str(text@),
{
    match serde_json::from_str::<serde_json::Value>(text) {
        Ok(value) => Ok(json_value_from_serde(value)),
        Err(error) => Err(error.to_string()),
    }
}

/// Parses JSON bytes with `serde_json::from_slice` into a `serde_json::Value`.
/// Claims that the outcome (the document, or the error's `Display` text) is
/// [`spec_serde_json_from_slice`] of the bytes.
#[verifier::external_body]
pub(crate) fn json_from_slice(bytes: &[u8]) -> (r: Result<JsonValue, String>)
    ensures
        parse_outcome(r) == spec_serde_json_from_slice(bytes@),
{
    match serde_json::from_slice::<serde_json::Value>(bytes) {
        Ok(value) => Ok(json_value_from_serde(value)),
        Err(error) => Err(error.to_string()),
    }
}

} // verus!
