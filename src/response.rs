//! Responses turned into filtered text, ready to print or compare.

use vstd::prelude::*;

use crate::config::ResponseProfile;
use crate::headers::{content_type_of, json_media, Headers};
use crate::json::{decode_json, encode_pretty, fields_map, json_parsed, pretty_text, DocView, FieldView, JsonDoc, JsonObject};
use crate::profile::encoding_from;
use crate::ErrorKind;

verus! {

/// A received response, as plain values: the protocol version (`HTTP/1.1`), the status
/// (`200 OK`), the headers in order and the body text.
#[derive(Debug)]
pub struct ResponseExt {
    pub version: String,
    pub status: String,
    pub headers: Headers,
    pub body: String,
}

/// The texts of a list of strings, as a set.
pub open spec fn text_set(v: Seq<String>) -> Set<Seq<char>> {
    v.map_values(|s: String| s@).to_set()
}

/// The status line, without its line end.
pub open spec fn status_line(r: ResponseExt) -> Seq<char> {
    r.version@ + seq![':'] + r.status@
}

/// One line `name: value` for each header whose name is not skipped, then an empty line.
pub open spec fn header_lines(hs: Seq<(Seq<char>, Seq<char>)>, skip: Set<Seq<char>>) -> Seq<char>
    decreases hs.len(),
{
    if hs.len() == 0 {
        Seq::empty()
    } else {
        let rest = header_lines(hs.drop_last(), skip);
        if skip.contains(hs.last().0) {
            rest
        } else {
            rest + hs.last().0 + seq![':', ' '] + hs.last().1 + seq!['\n']
        }
    }
}

/// The filtered JSON text of a body, or `None` where it is no JSON: keys in `skip` are
/// removed from an object, which is then written indented, and any other document
/// passes through verbatim.
pub open spec fn filtered_json(text: Seq<char>, skip: Set<Seq<char>>) -> Option<Seq<char>> {
    match json_parsed(text) {
        Some(DocView::Object(m)) => Some(pretty_text(DocView::Object(m.remove_keys(skip)))),
        Some(_) => Some(text),
        None => None,
    }
}

/// The body text of a response: filtered JSON where its content type is JSON, else the
/// body as it came; `None` where a JSON body does not parse.
pub open spec fn body_text(r: ResponseExt, skip: Set<Seq<char>>) -> Option<Seq<char>> {
    if content_type_of(r.headers@) == Some(json_media()) {
        filtered_json(r.body@, skip)
    } else {
        Some(r.body@)
    }
}

/// Whether `s` is one of `v`.
fn contains(v: &Vec<String>, s: &String) -> (r: bool)
    ensures
        r == text_set(v@).contains(s@),
{
    let mut i: usize = 0;
    while i < v.len()
        invariant
            i <= v@.len(),
            forall|j: int| 0 <= j < i ==> v@[j]@ != s@,
        decreases v@.len() - i,
    {
        if v[i] == *s {
            assert(v@.map_values(|t: String| t@)[i as int] == s@);
            assert(v@.map_values(|t: String| t@).contains(s@));
            return true;
        }
        i = i + 1;
    }
    let ghost m = v@.map_values(|t: String| t@);
    assert(!m.contains(s@)) by {
        if m.contains(s@) {
            let k = choose|k: int| 0 <= k < m.len() && #[trigger] m[k] == s@;
            assert(v@[k]@ == s@);
        }
    }
    false
}

/// The fields of `obj` whose keys are not in `skip`.
pub fn without_keys(obj: &JsonObject, skip: &Vec<String>) -> (r: JsonObject)
    ensures
        r@ == obj@.remove_keys(text_set(skip@)),
{
    let mut kept = JsonObject::new();
    let mut i: usize = 0;
    while i < obj.fields.len()
        invariant
            i <= obj.fields@.len(),
            kept@ == fields_map(obj.fields@.subrange(0, i as int)).remove_keys(text_set(skip@)),
        decreases obj.fields@.len() - i,
    {
        let ghost before = fields_map(obj.fields@.subrange(0, i as int));
        assert(obj.fields@.subrange(0, i + 1).drop_last() =~= obj.fields@.subrange(0, i as int));
        let ghost next = fields_map(obj.fields@.subrange(0, i + 1));
        assert(next == before.insert(obj.fields@[i as int].0@, obj.fields@[i as int].1@));
        if !contains(skip, &obj.fields[i].0) {
            kept.insert(obj.fields[i].0.clone(), obj.fields[i].1.duplicate());
            assert(kept@ =~= next.remove_keys(text_set(skip@)));
        } else {
            assert(kept@ =~= next.remove_keys(text_set(skip@)));
        }
        i = i + 1;
    }
    assert(obj.fields@.subrange(0, i as int) =~= obj.fields@);
    kept
}

/// Parses a JSON body, drops the keys in `skip` from an object and writes it indented;
/// a body whose root is no object comes back as it is.
pub fn filter_json(text: &str, skip: &Vec<String>) -> (r: Result<String, ErrorKind>)
    ensures
        match filtered_json(text@, text_set(skip@)) {
            Some(t) => r matches Ok(s) && s@ == t,
            None => r matches Err(ErrorKind::BodyDecode),
        },
{
    match decode_json(text) {
        Err(_) => Err(ErrorKind::BodyDecode),
        Ok(JsonDoc::Object(obj)) => {
            let kept = without_keys(&obj, skip);
            Ok(encode_pretty(&JsonDoc::Object(kept)))
        },
        Ok(_) => Ok(String::from_str(text)),
    }
}

/// The status line of a response: `version:status`.
pub fn get_status_text(resp: &ResponseExt) -> (r: Result<String, ErrorKind>)
    ensures
        r matches Ok(t) && t@ == status_line(*resp),
{
    let mut t = resp.version.clone();
    t.append(":");
    proof {
        reveal_strlit(":");
    }
    t.append(resp.status.as_str());
    Ok(t)
}

/// The header lines of a response, leaving out the names in `skip_headers`, then an
/// empty line.
pub fn get_headers_text(resp: &ResponseExt, skip_headers: &Vec<String>) -> (r: Result<String, ErrorKind>)
    ensures
        r matches Ok(t) && t@ == header_lines(resp.headers@, text_set(skip_headers@)) + seq!['\n'],
{
    let mut t = String::new();
    proof {
        reveal_strlit(": ");
        reveal_strlit("\n");
    }
    let mut i: usize = 0;
    while i < resp.headers.entries.len()
        invariant
            i <= resp.headers@.len(),
            t@ == header_lines(resp.headers@.subrange(0, i as int), text_set(skip_headers@)),
        decreases resp.headers@.len() - i,
    {
        assert(resp.headers@.subrange(0, i + 1).drop_last() =~= resp.headers@.subrange(0, i as int));
        let e = &resp.headers.entries[i];
        assert(resp.headers@.subrange(0, i + 1).last() == (e.0@, e.1@));
        proof {
            reveal_strlit(": ");
            reveal_strlit("\n");
        }
        assert(": "@ =~= seq![':', ' ']);
        assert("\n"@ =~= seq!['\n']);
        let ghost t0 = t@;
        if !contains(skip_headers, &e.0) {
            t.append(e.0.as_str());
            t.append(": ");
            t.append(e.1.as_str());
            t.append("\n");
            assert(t@ =~= t0 + e.0@ + seq![':', ' '] + e.1@ + seq!['\n']);
        }
        i = i + 1;
    }
    assert(resp.headers@.subrange(0, i as int) =~= resp.headers@);
    t.append("\n");
    Ok(t)
}

/// The body of a response: filtered and indented where its content type is JSON, else
/// as it came.
pub fn get_body_text(resp: &ResponseExt, skip_body: &Vec<String>) -> (r: Result<String, ErrorKind>)
    ensures
        match body_text(*resp, text_set(skip_body@)) {
            Some(t) => r matches Ok(s) && s@ == t,
            None => r matches Err(ErrorKind::BodyDecode),
        },
{
    let is_json = match resp.headers.content_type() {
        Some(t) => {
            let j = String::from_str("application/json");
            proof {
                reveal_strlit("application/json");
            }
            assert(j@ =~= json_media());
            t == j
        },
        None => false,
    };
    if is_json {
        filter_json(resp.body.as_str(), skip_body)
    } else {
        Ok(resp.body.clone())
    }
}

/// The filtered text of a response under `profile`.
pub open spec fn filtered_text(r: ResponseExt, p: ResponseProfile) -> Option<Seq<char>> {
    match body_text(r, text_set(p.skip_body@)) {
        Some(b) => Some(status_line(r) + seq!['\n'] + header_lines(r.headers@, text_set(p.skip_headers@))
            + seq!['\n'] + b),
        None => None,
    }
}

impl ResponseExt {
    /// The response as text: the status line, the header lines that `profile` keeps, an
    /// empty line, and the body with the keys that `profile` skips removed.
    pub fn filter_text(&self, profile: &ResponseProfile) -> (r: Result<String, ErrorKind>)
        ensures
            match filtered_text(*self, *profile) {
                Some(t) => r matches Ok(s) && s@ == t,
                None => r matches Err(ErrorKind::BodyDecode),
            },
    {
        let mut out = get_status_text(self)?;
        out.append("\n");
        proof {
            reveal_strlit("\n");
        }
        let headers = get_headers_text(self, &profile.skip_headers)?;
        out.append(headers.as_str());
        let body = get_body_text(self, &profile.skip_body)?;
        out.append(body.as_str());
        Ok(out)
    }

    /// The header names, in order.
    pub fn get_header_keys(&self) -> (r: Vec<String>)
        ensures
            r@.len() == self.headers@.len(),
            forall|i: int| 0 <= i < r@.len() ==> #[trigger] r@[i]@ == self.headers@[i].0,
    {
        let mut keys: Vec<String> = Vec::new();
        let mut i: usize = 0;
        while i < self.headers.entries.len()
            invariant
                i <= self.headers@.len(),
                keys@.len() == i,
                forall|j: int| 0 <= j < i ==> #[trigger] keys@[j]@ == self.headers@[j].0,
            decreases self.headers@.len() - i,
        {
            keys.push(self.headers.entries[i].0.clone());
            i = i + 1;
        }
        keys
    }
}

} // verus!
