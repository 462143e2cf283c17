use vstd::prelude::*;

verus! {

/// A JSON document, as the FIP service sends it. Numbers keep the three forms that
/// a JSON reader tells apart: non-negative integers, negative integers, and the
/// others, which are kept as their text.
#[derive(Debug, PartialEq)]
pub enum Json {
    Null,
    Bool(bool),
    PosInt(u64),
    NegInt(i64),
    Float(String),
    Str(String),
    Array(Vec<Json>),
    Object(Vec<(String, Json)>),
}

/// A JSON document as a mathematical value.
pub enum JsonView {
    Null,
    Bool(bool),
    PosInt(u64),
    NegInt(i64),
    Float(Seq<char>),
    Str(Seq<char>),
    Array(Seq<JsonView>),
    Object(Seq<(Seq<char>, JsonView)>),
}

/// The mathematical value of a JSON document.
pub open spec fn json_view(j: Json) -> JsonView
    decreases j,
{
    match j {
        Json::Null => JsonView::Null,
        Json::Bool(b) => JsonView::Bool(b),
        Json::PosInt(n) => JsonView::PosInt(n),
        Json::NegInt(n) => JsonView::NegInt(n),
        Json::Float(t) => JsonView::Float(t@),
        Json::Str(s) => JsonView::Str(s@),
        Json::Array(items) => JsonView::Array(
            Seq::new(
                items@.len(),
                |i: int|
                    if 0 <= i < items@.len() {
                        json_view(items@[i])
                    } else {
                        JsonView::Null
                    },
            ),
        ),
        Json::Object(entries) => JsonView::Object(
            Seq::new(
                entries@.len(),
                |i: int|
                    if 0 <= i < entries@.len() {
                        (entries@[i].0@, json_view(entries@[i].1))
                    } else {
                        (Seq::empty(), JsonView::Null)
                    },
            ),
        ),
    }
}

impl View for Json {
    type V = JsonView;

    open spec fn view(&self) -> JsonView {
        json_view(*self)
    }
}

/// The value of the first entry named `key`, if any.
pub open spec fn lookup(entries: Seq<(Seq<char>, JsonView)>, key: Seq<char>) -> Option<JsonView>
    decreases entries.len(),
{
    if entries.len() == 0 {
        None
    } else if entries[0].0 == key {
        Some(entries[0].1)
    } else {
        lookup(entries.drop_first(), key)
    }
}

/// The member `key` of an object; nothing for any other value.
pub open spec fn member(v: JsonView, key: Seq<char>) -> Option<JsonView> {
    match v {
        JsonView::Object(entries) => lookup(entries, key),
        _ => None,
    }
}

/// The mathematical values of a sequence of documents.
pub open spec fn views(items: Seq<Json>) -> Seq<JsonView> {
    items.map_values(|j: Json| j@)
}

impl Json {
    /// A deep copy of the document.
    pub fn copy(&self) -> (r: Json)
        ensures
            r@ == self@,
        decreases self,
    {
        match self {
            Json::Null => Json::Null,
            Json::Bool(b) => Json::Bool(*b),
            Json::PosInt(n) => Json::PosInt(*n),
            Json::NegInt(n) => Json::NegInt(*n),
            Json::Float(t) => Json::Float(t.clone()),
            Json::Str(s) => Json::Str(s.clone()),
            Json::Array(items) => {
                let mut out: Vec<Json> = Vec::new();
                for k in 0..items.len()
                    invariant
                        *self == Json::Array(*items),
                        out@.len() == k,
                        forall|m: int| 0 <= m < k ==> json_view(#[trigger] out@[m]) == json_view(items@[m]),
                {
                    proof {
                        assert(decreases_to!(*self => (*self)->Array_0));
                        assert(decreases_to!(*items => items@));
                        assert(decreases_to!(items@ => items@[k as int]));
                    }
                    out.push(items[k].copy());
                }
                let r = Json::Array(out);
                assert(json_view(r) == json_view(*self)) by {
                    if let JsonView::Array(a) = json_view(r) {
                        if let JsonView::Array(b) = json_view(*self) {
                            assert(a =~= b);
                        }
                    }
                }
                r
            },
            Json::Object(entries) => {
                let mut out: Vec<(String, Json)> = Vec::new();
                for k in 0..entries.len()
                    invariant
                        *self == Json::Object(*entries),
                        out@.len() == k,
                        forall|m: int|
                            0 <= m < k ==> (#[trigger] out@[m]).0@ == entries@[m].0@ && json_view(
                                out@[m].1,
                            ) == json_view(entries@[m].1),
                {
                    proof {
                        assert(decreases_to!(*self => (*self)->Object_0));
                        assert(decreases_to!(*entries => entries@));
                        assert(decreases_to!(entries@ => entries@[k as int]));
                        assert(decreases_to!(entries@[k as int] => entries@[k as int].1));
                    }
                    let entry = &entries[k];
                    out.push((entry.0.clone(), entry.1.copy()));
                }
                let r = Json::Object(out);
                assert(json_view(r) == json_view(*self)) by {
                    if let JsonView::Object(a) = json_view(r) {
                        if let JsonView::Object(b) = json_view(*self) {
                            assert(a =~= b);
                        }
                    }
                }
                r
            },
        }
    }

    /// The member `key` of an object (the first entry of that name), as indexing a
    /// JSON value by a name does; `None` when there is none or when this is not an object.
    pub fn get(&self, key: &str) -> (r: Option<&Json>)
        ensures
            r is None ==> member(self@, key@) is None,
            r matches Some(v) ==> member(self@, key@) == Some(v@),
    {
        match self {
            Json::Object(entries) => {
                let ghost es = match json_view(*self) {
                    JsonView::Object(es) => es,
                    _ => Seq::empty(),
                };
                let wanted = String::from_str(key);
                let mut k: usize = 0;
                assert(es.skip(0) =~= es);
                while k < entries.len()
                    invariant
                        self@ == JsonView::Object(es),
                        es.len() == entries@.len(),
                        k <= entries@.len(),
                        wanted@ == key@,
                        forall|m: int| 0 <= m < es.len() ==> #[trigger] es[m] == (entries@[m].0@, json_view(entries@[m].1)),
                        lookup(es, key@) == lookup(es.skip(k as int), key@),
                    decreases entries.len() - k,
                {
                    assert(es.skip(k as int).drop_first() =~= es.skip(k + 1));
                    assert(es.skip(k as int)[0] == es[k as int]);
                    if entries[k].0 == wanted {
                        assert(lookup(es.skip(k as int), key@) == Some(es[k as int].1));
                        return Some(&entries[k].1);
                    }
                    k = k + 1;
                }
                None
            },
            _ => None,
        }
    }

    /// The text of a string value; `None` for any other value.
    pub fn as_str(&self) -> (r: Option<&String>)
        ensures
            r is None ==> !(self@ is Str),
            r matches Some(s) ==> self@ == JsonView::Str(s@),
    {
        match self {
            Json::Str(s) => Some(s),
            _ => None,
        }
    }
}

/// How many entries are named `key`.
pub open spec fn key_count(entries: Seq<(Seq<char>, JsonView)>, key: Seq<char>) -> nat
    decreases entries.len(),
{
    if entries.len() == 0 {
        0
    } else {
        key_count(entries.drop_last(), key) + if entries.last().0 == key {
            1nat
        } else {
            0nat
        }
    }
}

/// Field `name`, the field at position `pos` of a record of `count` fields, as a
/// document holds it. A record is written as an object, whose members are looked up
/// by name (other members are ignored, a field given twice is an error, a field not
/// given is absent), or as an array of exactly `count` values in field order. Any
/// other document is an error.
pub open spec fn record_field(v: JsonView, name: Seq<char>, pos: int, count: int) -> Result<
    Option<JsonView>,
    (),
> {
    match v {
        JsonView::Object(entries) => if key_count(entries, name) <= 1 {
            Ok(lookup(entries, name))
        } else {
            Err(())
        },
        JsonView::Array(items) => if items.len() == count {
            Ok(Some(items[pos]))
        } else {
            Err(())
        },
        _ => Err(()),
    }
}

impl Json {
    /// Field `name` of a record (see `record_field`); `Err` when the document cannot
    /// hold the record.
    pub fn record_field(&self, name: &str, pos: usize, count: usize) -> (r: Result<Option<&Json>, ()>)
        requires
            pos < count,
        ensures
            r is Err <==> record_field(self@, name@, pos as int, count as int) is Err,
            r matches Ok(None) ==> record_field(self@, name@, pos as int, count as int) == Ok::<
                Option<JsonView>,
                (),
            >(None),
            r matches Ok(Some(f)) ==> record_field(self@, name@, pos as int, count as int) == Ok::<
                Option<JsonView>,
                (),
            >(Some(f@)),
    {
        match self {
            Json::Object(entries) => {
                let ghost es = json_view(*self)->Object_0;
                let wanted = String::from_str(name);
                let mut seen: usize = 0;
                let mut k: usize = 0;
                while k < entries.len()
                    invariant
                        self@ == JsonView::Object(es),
                        es.len() == entries@.len(),
                        k <= entries@.len(),
                        wanted@ == name@,
                        forall|m: int| 0 <= m < es.len() ==> #[trigger] es[m] == (entries@[m].0@, json_view(entries@[m].1)),
                        seen == key_count(es.take(k as int), name@),
                        seen <= k,
                    decreases entries.len() - k,
                {
                    assert(es.take(k + 1).drop_last() =~= es.take(k as int));
                    if entries[k].0 == wanted {
                        seen = seen + 1;
                    }
                    k = k + 1;
                }
                assert(es.take(entries@.len() as int) =~= es);
                if seen > 1 {
                    Err(())
                } else {
                    Ok(self.get(name))
                }
            },
            Json::Array(items) => {
                if items.len() == count {
                    let ghost vs = json_view(*self)->Array_0;
                    assert(vs[pos as int] == json_view(items@[pos as int]));
                    Ok(Some(&items[pos]))
                } else {
                    Err(())
                }
            },
            _ => Err(()),
        }
    }
}

#[verifier::external_type_specification]
#[verifier::external_body]
pub struct ExJsonValue(serde_json::Value);

/// What serde_json makes of `text` read as one JSON document: the document, or the
/// text of its error. It depends on the text alone.
pub uninterp spec fn json_text_parse(text: Seq<char>) -> Result<JsonView, Seq<char>>;

/// What serde_json makes of `text` read as a JSON array: its items, or the text of
/// its error (also when the text holds a document that is not an array). It depends
/// on the text alone.
pub uninterp spec fn json_array_parse(text: Seq<char>) -> Result<Seq<JsonView>, Seq<char>>;

/// The library's document for a value that serde_json read, variant for variant; a
/// number becomes the first of `PosInt`, `NegInt` or `Float` (its text) that holds it.
/// It states nothing: what it gives is stated by `parse_json` and
/// `parse_json_array`, the only places that call it.
#[verifier::external_body]
fn json_of_value(v: serde_json::Value) -> Json {
    match v {
        serde_json::Value::Null => Json::Null,
        serde_json::Value::Bool(b) => Json::Bool(b),
        serde_json::Value::Number(n) => match (n.as_u64(), n.as_i64()) {
            (Some(u), _) => Json::PosInt(u),
            (None, Some(i)) => Json::NegInt(i),
            (None, None) => Json::Float(n.to_string()),
        },
        serde_json::Value::String(s) => Json::Str(s),
        serde_json::Value::Array(a) => Json::Array(a.into_iter().map(json_of_value).collect()),
        serde_json::Value::Object(m) => Json::Object(m.into_iter().map(|(k, x)| (k, json_of_value(x))).collect()),
    }
}

/// `serde_json::from_str` into a `serde_json::Value`, converted to the library's
/// document, with the error turned into its text. The contract only names the
/// outcome (`json_text_parse`): what JSON text means is serde_json's to say.
#[verifier::external_body]
pub(crate) fn parse_json(text: &str) -> (r: Result<Json, String>)
    ensures
        r is Ok ==> json_text_parse(text@) == Ok::<JsonView, Seq<char>>(r->Ok_0@),
        r is Err ==> json_text_parse(text@) == Err::<JsonView, Seq<char>>(r->Err_0@),
{
    serde_json::from_str::<serde_json::Value>(text).map(json_of_value).map_err(|e| e.to_string())
}

/// `serde_json::from_str` into a `Vec<serde_json::Value>`, converted to the library's
/// documents, with the error turned into its text. The contract only names the
/// outcome (`json_array_parse`).
#[verifier::external_body]
pub(crate) fn parse_json_array(text: &str) -> (r: Result<Vec<Json>, String>)
    ensures
        r is Ok ==> json_array_parse(text@) == Ok::<Seq<JsonView>, Seq<char>>(
            views(r->Ok_0@),
        ),
        r is Err ==> json_array_parse(text@) == Err::<Seq<JsonView>, Seq<char>>(r->Err_0@),
{
    serde_json::from_str::<Vec<serde_json::Value>>(text)
        .map(|a| a.into_iter().map(json_of_value).collect())
        .map_err(|e| e.to_string())
}

/// Looking a key up finds the first entry of that name: when it finds a value, some
/// entry carries the key and that value and no entry before it carries the key; when
/// it finds none, no entry carries the key, and the key is counted zero times.
pub proof fn lemma_lookup_finds_the_first_entry(entries: Seq<(Seq<char>, JsonView)>, key: Seq<char>)
    ensures
        lookup(entries, key) matches Some(v) ==> exists|k: int|
            0 <= k < entries.len() && #[trigger] entries[k] == (key, v) && forall|j: int|
                0 <= j < k ==> (#[trigger] entries[j]).0 != key,
        lookup(entries, key) is None ==> forall|k: int|
            0 <= k < entries.len() ==> (#[trigger] entries[k]).0 != key,
        lookup(entries, key) is None <==> key_count(entries, key) == 0,
    decreases entries.len(),
{
    lemma_key_count_zero(entries, key);
    if entries.len() > 0 {
        let rest = entries.drop_first();
        lemma_lookup_finds_the_first_entry(rest, key);
        if entries[0].0 != key {
            if let Some(v) = lookup(entries, key) {
                let k: int = choose|k: int|
                    0 <= k < rest.len() && #[trigger] rest[k] == (key, v) && forall|j: int|
                        0 <= j < k ==> (#[trigger] rest[j]).0 != key;
                assert(entries[k + 1] == (key, v));
                assert forall|j: int| 0 <= j < k + 1 implies (#[trigger] entries[j]).0 != key by {
                    if j > 0 {
                        assert(entries[j] == rest[j - 1]);
                    }
                }
            } else {
                assert forall|k: int| 0 <= k < entries.len() implies (#[trigger] entries[k]).0 != key by {
                    if k > 0 {
                        assert(entries[k] == rest[k - 1]);
                    }
                }
            }
        } else {
            assert(entries[0] == (key, entries[0].1));
        }
    }
}

/// A key is counted zero times exactly when no entry carries it.
proof fn lemma_key_count_zero(entries: Seq<(Seq<char>, JsonView)>, key: Seq<char>)
    ensures
        key_count(entries, key) == 0 <==> forall|k: int|
            0 <= k < entries.len() ==> (#[trigger] entries[k]).0 != key,
    decreases entries.len(),
{
    if entries.len() > 0 {
        let init = entries.drop_last();
        lemma_key_count_zero(init, key);
        assert forall|k: int| 0 <= k < init.len() implies #[trigger] init[k] == entries[k] by {}
        if key_count(entries, key) == 0 {
            assert forall|k: int| 0 <= k < entries.len() implies (#[trigger] entries[k]).0 != key by {
                if k < init.len() {
                    assert(init[k] == entries[k]);
                }
            }
        }
        if forall|k: int| 0 <= k < entries.len() ==> (#[trigger] entries[k]).0 != key {
            assert(entries[entries.len() - 1] == entries.last());
            assert forall|k: int| 0 <= k < init.len() implies (#[trigger] init[k]).0 != key by {
                assert(init[k] == entries[k]);
            }
        }
    }
}

} // verus!
