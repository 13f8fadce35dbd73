//! A structured, JSON-like value held as plain data, together with its
//! mathematical model and the verified helpers that read an object's entries.

use vstd::prelude::*;

verus! {

broadcast use vstd::std_specs::vec::group_vec_axioms;

/// A structured value as the decoder sees it. Numbers that fit an unsigned
/// or signed 64-bit integer are held as such; any other numeric literal is
/// carried in its textual form, never interpreted.
#[derive(Debug, PartialEq, Eq)]
pub enum JsonValue {
    Null,
    Bool(bool),
    UInt(u64),
    Int(i64),
    NumText(String),
    Text(String),
    Arr(Vec<JsonValue>),
    Obj(Vec<(String, JsonValue)>),
}

/// The mathematical model of a `JsonValue`.
#[verifier::ext_equal]
pub enum JsonView {
    Null,
    Bool(bool),
    UInt(u64),
    Int(i64),
    NumText(Seq<char>),
    Text(Seq<char>),
    Arr(Seq<JsonView>),
    Obj(Seq<(Seq<char>, JsonView)>),
}

/// The model of a single value.
pub open spec fn json_view(v: JsonValue) -> JsonView
    decreases v,
{
    match v {
        JsonValue::Null => JsonView::Null,
        JsonValue::Bool(b) => JsonView::Bool(b),
        JsonValue::UInt(n) => JsonView::UInt(n),
        JsonValue::Int(i) => JsonView::Int(i),
        JsonValue::NumText(t) => JsonView::NumText(t@),
        JsonValue::Text(s) => JsonView::Text(s@),
        JsonValue::Arr(items) => {
            proof {
                assert(decreases_to!(v => items));
                assert(decreases_to!(items => items@));
            }
            JsonView::Arr(json_views(items@))
        },
        JsonValue::Obj(entries) => {
            proof {
                assert(decreases_to!(v => entries));
                assert(decreases_to!(entries => entries@));
            }
            JsonView::Obj(entry_views(entries@))
        },
    }
}

/// The models of the elements of an array, in order.
pub open spec fn json_views(s: Seq<JsonValue>) -> Seq<JsonView>
    decreases s,
{
    if s.len() == 0 {
        Seq::empty()
    } else {
        seq![json_view(s[0])] + json_views(s.drop_first())
    }
}

/// The models of the entries of an object, in order.
pub open spec fn entry_views(s: Seq<(String, JsonValue)>) -> Seq<(Seq<char>, JsonView)>
    decreases s,
{
    if s.len() == 0 {
        Seq::empty()
    } else {
        proof {
            assert(decreases_to!(s => s[0]));
            assert(decreases_to!(s[0] => s[0].1));
        }
        seq![(s[0].0@, json_view(s[0].1))] + entry_views(s.drop_first())
    }
}

impl View for JsonValue {
    type V = JsonView;

    open spec fn view(&self) -> JsonView {
        json_view(*self)
    }
}

/// Whether an object with entries `es` holds the key `key` at least once.
pub open spec fn obj_has_key(es: Seq<(Seq<char>, JsonView)>, key: Seq<char>) -> bool
    decreases es.len(),
{
    if es.len() == 0 {
        false
    } else if es[0].0 == key {
        true
    } else {
        obj_has_key(es.drop_first(), key)
    }
}

/// The value under the first entry of `es` whose key is `key`; `Null` when
/// the key is absent (callers guard with `obj_has_key`).
pub open spec fn obj_first_value(es: Seq<(Seq<char>, JsonView)>, key: Seq<char>) -> JsonView
    decreases es.len(),
{
    if es.len() == 0 {
        JsonView::Null
    } else if es[0].0 == key {
        es[0].1
    } else {
        obj_first_value(es.drop_first(), key)
    }
}

/// The entries of `es`, in order, whose keys are not in `dropped`.
pub open spec fn obj_without_keys(
    es: Seq<(Seq<char>, JsonView)>,
    dropped: Seq<Seq<char>>,
) -> Seq<(Seq<char>, JsonView)>
    decreases es.len(),
{
    if es.len() == 0 {
        Seq::empty()
    } else if dropped.contains(es[0].0) {
        obj_without_keys(es.drop_first(), dropped)
    } else {
        seq![es[0]] + obj_without_keys(es.drop_first(), dropped)
    }
}

/// A key is held exactly when some entry carries it.
pub proof fn lemma_obj_has_key_exists(es: Seq<(Seq<char>, JsonView)>, key: Seq<char>)
    ensures
        obj_has_key(es, key) <==> exists|i: int| 0 <= i < es.len() && es[i].0 == key,
    decreases es.len(),
{
    if es.len() > 0 {
        lemma_obj_has_key_exists(es.drop_first(), key);
        if es[0].0 == key {
            assert(es[0].0 == key && 0 <= 0 < es.len());
        } else if obj_has_key(es.drop_first(), key) {
            let j = choose|j: int|
                0 <= j < es.drop_first().len() && es.drop_first()[j].0 == key;
            assert(es[j + 1].0 == key);
        } else if exists|i: int| 0 <= i < es.len() && es[i].0 == key {
            let i = choose|i: int| 0 <= i < es.len() && es[i].0 == key;
            assert(es.drop_first()[i - 1].0 == key);
        }
    }
}

/// Entries whose keys all avoid `dropped` are kept as they are.
pub proof fn lemma_obj_without_keys_absent(
    es: Seq<(Seq<char>, JsonView)>,
    dropped: Seq<Seq<char>>,
)
    requires
        forall|i: int| 0 <= i < es.len() ==> !dropped.contains(#[trigger] es[i].0),
    ensures
        obj_without_keys(es, dropped) == es,
    decreases es.len(),
{
    if es.len() > 0 {
        assert(forall|i: int|
            0 <= i < es.drop_first().len() ==> es.drop_first()[i] == es[i + 1]);
        lemma_obj_without_keys_absent(es.drop_first(), dropped);
        assert(obj_without_keys(es, dropped) =~= es);
    } else {
        assert(obj_without_keys(es, dropped) =~= es);
    }
}

/// A dropped key is absent from the filtered entries.
pub proof fn lemma_obj_without_keys_free(
    es: Seq<(Seq<char>, JsonView)>,
    dropped: Seq<Seq<char>>,
    key: Seq<char>,
)
    requires
        dropped.contains(key),
    ensures
        !obj_has_key(obj_without_keys(es, dropped), key),
    decreases es.len(),
{
    if es.len() > 0 {
        lemma_obj_without_keys_free(es.drop_first(), dropped, key);
        if !dropped.contains(es[0].0) {
            assert(es[0].0 != key);
            assert((seq![es[0]] + obj_without_keys(es.drop_first(), dropped)).drop_first()
                =~= obj_without_keys(es.drop_first(), dropped));
        }
    }
}

/// Filtering entries introduces no key that was absent.
pub proof fn lemma_obj_without_keys_subset(
    es: Seq<(Seq<char>, JsonView)>,
    dropped: Seq<Seq<char>>,
    key: Seq<char>,
)
    requires
        !obj_has_key(es, key),
    ensures
        !obj_has_key(obj_without_keys(es, dropped), key),
    decreases es.len(),
{
    if es.len() > 0 {
        lemma_obj_without_keys_subset(es.drop_first(), dropped, key);
        if !dropped.contains(es[0].0) {
            assert((seq![es[0]] + obj_without_keys(es.drop_first(), dropped)).drop_first()
                =~= obj_without_keys(es.drop_first(), dropped));
        }
    }
}

/// Entry models are taken element by element, keeping length and order.
pub proof fn lemma_entry_views_index(s: Seq<(String, JsonValue)>)
    ensures
        entry_views(s).len() == s.len(),
        forall|i: int|
            0 <= i < s.len() ==> #[trigger] entry_views(s)[i] == (s[i].0@, json_view(s[i].1)),
    decreases s.len(),
{
    if s.len() > 0 {
        lemma_entry_views_index(s.drop_first());
    }
}

/// Appending one entry appends its model.
pub proof fn lemma_entry_views_push(s: Seq<(String, JsonValue)>, e: (String, JsonValue))
    ensures
        entry_views(s.push(e)) == entry_views(s).push((e.0@, json_view(e.1))),
    decreases s.len(),
{
    if s.len() == 0 {
        assert(s.push(e).drop_first() =~= s);
        assert(entry_views(s.push(e)) =~= entry_views(s).push((e.0@, json_view(e.1))));
    } else {
        assert(s.push(e).drop_first() =~= s.drop_first().push(e));
        lemma_entry_views_push(s.drop_first(), e);
        assert(entry_views(s.push(e)) =~= entry_views(s).push((e.0@, json_view(e.1))));
    }
}

/// Concatenating entries concatenates their models.
pub proof fn lemma_entry_views_concat(a: Seq<(String, JsonValue)>, b: Seq<(String, JsonValue)>)
    ensures
        entry_views(a + b) == entry_views(a) + entry_views(b),
    decreases a.len(),
{
    if a.len() == 0 {
        assert(a + b =~= b);
        assert(entry_views(a + b) =~= entry_views(a) + entry_views(b));
    } else {
        assert((a + b).drop_first() =~= a.drop_first() + b);
        lemma_entry_views_concat(a.drop_first(), b);
        assert(entry_views(a + b) =~= entry_views(a) + entry_views(b));
    }
}

/// Whether the entries of an object hold the given key. A plain forward scan.
pub fn obj_contains_key(entries: &Vec<(String, JsonValue)>, key: &String) -> (r: bool)
    ensures
        r == obj_has_key(entry_views(entries@), key@),
{
    proof {
        lemma_entry_views_index(entries@);
        lemma_obj_has_key_exists(entry_views(entries@), key@);
    }
    let mut i: usize = 0;
    while i < entries.len()
        invariant
            i <= entries.len(),
            entry_views(entries@).len() == entries@.len(),
            forall|j: int|
                0 <= j < entries@.len() ==> #[trigger] entry_views(entries@)[j]
                    == (entries@[j].0@, json_view(entries@[j].1)),
            forall|j: int| 0 <= j < i ==> #[trigger] entries@[j].0@ != key@,
        decreases entries.len() - i,
    {
        if entries[i].0 == *key {
            proof {
                lemma_obj_has_key_exists(entry_views(entries@), key@);
                assert(entry_views(entries@)[i as int].0 == key@);
            }
            return true;
        }
        i += 1;
    }
    false
}

#[verifier::external_type_specification]
#[verifier::external_body]
pub struct ExSerdeValue(serde_json::Value);

/// The document denoted by a byte sequence, in the library's model: `None`
/// when the bytes are not a well-formed document. Parsing is a function of
/// the bytes alone.
pub uninterp spec fn json_parse_spec(bytes: Seq<u8>) -> Option<JsonView>;

/// The modelling half of `parse_json`: carries a parsed `serde_json::Value`
/// over into the library's `JsonValue`, variant by variant. Its effect is
/// stated only through `parse_json`'s contract.
#[verifier::external_body]
fn model_of_value(v: serde_json::Value) -> JsonValue {
    match v {
        serde_json::Value::Null => JsonValue::Null,
        serde_json::Value::Bool(b) => JsonValue::Bool(b),
        serde_json::Value::Number(n) => match (n.as_u64(), n.as_i64()) {
            (Some(u), _) => JsonValue::UInt(u),
            (None, Some(i)) => JsonValue::Int(i),
            (None, None) => JsonValue::NumText(n.to_string()),
        },
        serde_json::Value::String(s) => JsonValue::Text(s),
        serde_json::Value::Array(a) => JsonValue::Arr(a.into_iter().map(model_of_value).collect()),
        serde_json::Value::Object(m) => JsonValue::Obj(
            m.into_iter().map(|(k, w)| (k, model_of_value(w))).collect(),
        ),
    }
}

/// Relies on `serde_json::from_slice::<serde_json::Value>`: whether the bytes
/// parse, and to which document, depends on the bytes alone; the call never
/// panics, and object keys keep their order of first appearance.
#[verifier::external_body]
pub(crate) fn parse_json(payload: &[u8]) -> (r: Option<JsonValue>)
    ensures
        r matches Some(v) ==> json_parse_spec(payload@) == Some(v@),
        r is None ==> json_parse_spec(payload@) is None,
{
    match serde_json::from_slice::<serde_json::Value>(payload) {
        Ok(v) => Some(model_of_value(v)),
        Err(_) => None,
    }
}

} // verus!
