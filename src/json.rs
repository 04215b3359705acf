//! JSON objects as the request and response logic sees them: top-level fields over
//! values that `serde_json` holds.

use vstd::prelude::*;

verus! {

#[verifier::external_type_specification]
#[verifier::external_body]
pub struct ExValue(serde_json::Value);

#[verifier::external_type_specification]
#[verifier::external_body]
pub struct ExJsonError(serde_json::Error);

#[verifier::external_type_specification]
#[verifier::external_body]
pub struct ExFormError(serde_urlencoded::ser::Error);

#[verifier::external_type_specification]
#[verifier::external_body]
pub struct ExQueryError(serde_qs::Error);

/// Cloning a JSON value gives the same value.
pub assume_specification[ <serde_json::Value as Clone>::clone ](v: &serde_json::Value) -> (r:
    serde_json::Value)
    ensures
        r == *v,
;

/// The value of one field of a JSON object.
#[derive(Debug)]
pub enum JsonField {
    /// A string given as text, as an override supplies it.
    Text(String),
    /// Any JSON value.
    Json(serde_json::Value),
}

/// The meaning of a [`JsonField`].
pub enum FieldView {
    Text(Seq<char>),
    Json(serde_json::Value),
}

impl View for JsonField {
    type V = FieldView;

    open spec fn view(&self) -> FieldView {
        match self {
            JsonField::Text(s) => FieldView::Text(s@),
            JsonField::Json(v) => FieldView::Json(*v),
        }
    }
}

impl JsonField {
    /// A copy of the field.
    pub fn duplicate(&self) -> (r: JsonField)
        ensures
            r@ == self@,
    {
        match self {
            JsonField::Text(s) => JsonField::Text(s.clone()),
            JsonField::Json(v) => JsonField::Json(v.clone()),
        }
    }
}

/// The object that a list of fields stands for: a later field replaces an earlier one
/// of the same key.
pub open spec fn fields_map(fs: Seq<(String, JsonField)>) -> Map<Seq<char>, FieldView>
    decreases fs.len(),
{
    if fs.len() == 0 {
        Map::empty()
    } else {
        fields_map(fs.drop_last()).insert(fs.last().0@, fs.last().1@)
    }
}

proof fn lemma_replace_field(fs: Seq<(String, JsonField)>, i: int, f: (String, JsonField))
    requires
        0 <= i < fs.len(),
        fs[i].0@ == f.0@,
        forall|j: int| i < j < fs.len() ==> fs[j].0@ != f.0@,
    ensures
        fields_map(fs.update(i, f)) == fields_map(fs).insert(f.0@, f.1@),
    decreases fs.len(),
{
    let u = fs.update(i, f);
    if i == fs.len() - 1 {
        assert(u.drop_last() =~= fs.drop_last());
        assert(fields_map(u) =~= fields_map(fs).insert(f.0@, f.1@));
    } else {
        assert(u.drop_last() =~= fs.drop_last().update(i, f));
        lemma_replace_field(fs.drop_last(), i, f);
        assert(fields_map(u) =~= fields_map(fs).insert(f.0@, f.1@));
    }
}

/// A JSON object, as the list of its fields.
#[derive(Debug)]
pub struct JsonObject {
    pub fields: Vec<(String, JsonField)>,
}

impl View for JsonObject {
    type V = Map<Seq<char>, FieldView>;

    open spec fn view(&self) -> Map<Seq<char>, FieldView> {
        fields_map(self.fields@)
    }
}

/// A JSON document: an object, or any other value.
#[derive(Debug)]
pub enum JsonDoc {
    Object(JsonObject),
    Other(serde_json::Value),
}

/// The meaning of a [`JsonDoc`].
pub enum DocView {
    Object(Map<Seq<char>, FieldView>),
    Other(serde_json::Value),
}

impl View for JsonDoc {
    type V = DocView;

    open spec fn view(&self) -> DocView {
        match self {
            JsonDoc::Object(o) => DocView::Object(o@),
            JsonDoc::Other(v) => DocView::Other(*v),
        }
    }
}

/// The compact JSON text of an object, as `serde_json::to_string` writes it.
pub uninterp spec fn json_text(m: Map<Seq<char>, FieldView>) -> Seq<char>;

/// The form-urlencoded text of an object, as `serde_urlencoded::to_string` writes it,
/// or `None` where that fails.
pub uninterp spec fn form_text(m: Map<Seq<char>, FieldView>) -> Option<Seq<char>>;

/// The query string of an object, as `serde_qs::to_string` writes it, or `None` where
/// that fails.
pub uninterp spec fn query_text(m: Map<Seq<char>, FieldView>) -> Option<Seq<char>>;

/// The document that `serde_json::from_str` reads from a text, or `None` where the text
/// is no JSON.
pub uninterp spec fn json_parsed(t: Seq<char>) -> Option<DocView>;

/// The indented JSON text of a document, as `serde_json::to_string_pretty` writes it.
pub uninterp spec fn pretty_text(d: DocView) -> Seq<char>;

/// Relies on `serde_json::to_string`: it writes a map with string keys without fail,
/// and an empty one as `{}`.
#[verifier::external_body]
pub(crate) fn encode_json(obj: &JsonObject) -> (r: String)
    ensures
        r@ == json_text(obj@),
        obj.fields@.len() == 0 ==> r@ == seq!['{', '}'],
{
    let map: serde_json::Map<String, serde_json::Value> = obj.fields.iter().map(|(k, f)| (k.clone(), match f {
        JsonField::Text(s) => serde_json::Value::String(s.clone()),
        JsonField::Json(v) => v.clone(),
    })).collect();
    serde_json::to_string(&map).unwrap_or_default()
}

/// Relies on `serde_urlencoded::to_string`: the form encoding of the object's fields.
#[verifier::external_body]
pub(crate) fn encode_form(obj: &JsonObject) -> (r: Result<String, serde_urlencoded::ser::Error>)
    ensures
        match r {
            Ok(t) => form_text(obj@) == Some(t@),
            Err(_) => form_text(obj@) is None,
        },
{
    let map: serde_json::Map<String, serde_json::Value> = obj.fields.iter().map(|(k, f)| (k.clone(), match f {
        JsonField::Text(s) => serde_json::Value::String(s.clone()),
        JsonField::Json(v) => v.clone(),
    })).collect();
    serde_urlencoded::to_string(&map)
}

/// Relies on `serde_qs::to_string`: the query string of the object's fields.
#[verifier::external_body]
pub(crate) fn encode_query(obj: &JsonObject) -> (r: Result<String, serde_qs::Error>)
    ensures
        match r {
            Ok(t) => query_text(obj@) == Some(t@),
            Err(_) => query_text(obj@) is None,
        },
{
    let map: serde_json::Map<String, serde_json::Value> = obj.fields.iter().map(|(k, f)| (k.clone(), match f {
        JsonField::Text(s) => serde_json::Value::String(s.clone()),
        JsonField::Json(v) => v.clone(),
    })).collect();
    serde_qs::to_string(&map)
}

/// Relies on `serde_json::from_str`: the document that a text holds.
#[verifier::external_body]
pub(crate) fn decode_json(text: &str) -> (r: Result<JsonDoc, serde_json::Error>)
    ensures
        match r {
            Ok(d) => json_parsed(text@) == Some(d@),
            Err(_) => json_parsed(text@) is None,
        },
{
    Ok(match serde_json::from_str::<serde_json::Value>(text)? {
        serde_json::Value::Object(m) => JsonDoc::Object(JsonObject {
            fields: m.into_iter().map(|(k, v)| (k, JsonField::Json(v))).collect(),
        }),
        other => JsonDoc::Other(other),
    })
}

/// Relies on `serde_json::to_string_pretty`: it writes a JSON value without fail.
#[verifier::external_body]
pub(crate) fn encode_pretty(doc: &JsonDoc) -> (r: String)
    ensures
        r@ == pretty_text(doc@),
{
    let value = match doc {
        JsonDoc::Object(o) => serde_json::Value::Object(o.fields.iter().map(|(k, f)| (k.clone(), match f {
            JsonField::Text(s) => serde_json::Value::String(s.clone()),
            JsonField::Json(v) => v.clone(),
        })).collect()),
        JsonDoc::Other(v) => v.clone(),
    };
    serde_json::to_string_pretty(&value).unwrap_or_default()
}

impl JsonObject {
    /// An object without fields.
    pub fn new() -> (r: JsonObject)
        ensures
            r.fields@.len() == 0,
            r@ == Map::<Seq<char>, FieldView>::empty(),
    {
        JsonObject { fields: Vec::new() }
    }

    /// Sets `key` to `value`: the field of that key takes the new value where there is
    /// one, else the field is added at the end.
    pub fn insert(&mut self, key: String, value: JsonField)
        ensures
            final(self)@ == old(self)@.insert(key@, value@),
    {
        let ghost pre = self.fields@;
        let mut i: usize = self.fields.len();
        while i > 0 && self.fields[i - 1].0 != key
            invariant
                i <= self.fields@.len(),
                self.fields@ == pre,
                forall|j: int| i <= j < pre.len() ==> pre[j].0@ != key@,
            decreases i,
        {
            i = i - 1;
        }
        if i == 0 {
            self.fields.push((key, value));
            assert(self.fields@.drop_last() =~= pre);
        } else {
            self.fields.set(i - 1, (key, value));
            proof {
                lemma_replace_field(pre, i - 1, self.fields@[i - 1]);
            }
            assert(self.fields@ =~= pre.update(i - 1, self.fields@[i - 1]));
        }
    }

    /// A copy of the object.
    pub fn duplicate(&self) -> (r: JsonObject)
        ensures
            r@ == self@,
            r.fields@.len() == self.fields@.len(),
    {
        let mut fields: Vec<(String, JsonField)> = Vec::new();
        let mut i: usize = 0;
        while i < self.fields.len()
            invariant
                i <= self.fields@.len(),
                fields@.len() == i,
                fields_map(fields@) == fields_map(self.fields@.subrange(0, i as int)),
            decreases self.fields@.len() - i,
        {
            let ghost pre = fields@;
            fields.push((self.fields[i].0.clone(), self.fields[i].1.duplicate()));
            assert(fields@.drop_last() =~= pre);
            assert(self.fields@.subrange(0, i + 1).drop_last() =~= self.fields@.subrange(0, i as int));
            i = i + 1;
        }
        assert(self.fields@.subrange(0, i as int) =~= self.fields@);
        JsonObject { fields }
    }
}

} // verus!
