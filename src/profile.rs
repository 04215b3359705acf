//! Request profiles: a template of one request, merged with overrides at send time.

use vstd::prelude::*;

use crate::cli::pairs_view;
use crate::headers::{
    first_value, media_type, same_name, content_type_name, content_type_of, header_insert, header_name_of, header_value_ok,
    is_header_value, json_media, parse_header_name, Headers,
};
use crate::json::{
    encode_form, encode_json, encode_query, fields_map, form_text, json_text, query_text, DocView,
    FieldView, JsonDoc, JsonField, JsonObject,
};
use crate::{ErrorKind, ExtraArgs, ShapeField};

verus! {

#[verifier::external_type_specification]
#[verifier::external_body]
pub struct ExUrlParseError(url::ParseError);

/// The standard HTTP methods.
#[derive(Debug, Clone, Copy, PartialEq, Eq, Structural)]
pub enum Method {
    Get,
    Post,
    Put,
    Delete,
    Patch,
    Head,
    Options,
    Connect,
    Trace,
}

impl Default for Method {
    fn default() -> (r: Method)
        ensures
            r == Method::Get,
    {
        Method::Get
    }
}

/// What the `url` crate makes of a URL text: its serialisation, that serialisation
/// without the query, and the decoded pairs of the query.
pub struct UrlParts {
    pub text: Seq<char>,
    pub base: Seq<char>,
    pub pairs: Seq<(Seq<char>, Seq<char>)>,
}

/// The parts of a URL text, or `None` where `url::Url::parse` refuses it.
pub uninterp spec fn url_parts(s: Seq<char>) -> Option<UrlParts>;

/// The serialisation of a URL after its query is set to `q`, or `None` where the URL
/// does not parse.
pub uninterp spec fn url_with_query_of(u: Seq<char>, q: Seq<char>) -> Option<Seq<char>>;

/// Relies on `url::Url::parse`, with `Url::query_pairs` for the decoded query and
/// `Url::set_query(None)` for the URL without it.
#[verifier::external_body]
fn parse_url(s: &str) -> (r: Result<(String, String, Vec<(String, String)>), url::ParseError>)
    ensures
        match r {
            Ok(p) => url_parts(s@) == Some(
                (UrlParts { text: p.0@, base: p.1@, pairs: pairs_view(p.2@) }),
            ),
            Err(_) => url_parts(s@) is None,
        },
{
    let mut url = url::Url::parse(s)?;
    let text = url.to_string();
    let pairs = url.query_pairs().map(|(k, v)| (k.into_owned(), v.into_owned())).collect();
    url.set_query(None);
    Ok((text, url.to_string(), pairs))
}

/// Relies on `url::Url::set_query(Some(q))`, on the URL that `Url::parse` reads.
#[verifier::external_body]
fn url_with_query(u: &str, q: &str) -> (r: Result<String, url::ParseError>)
    ensures
        match r {
            Ok(t) => url_with_query_of(u@, q@) == Some(t@),
            Err(_) => url_with_query_of(u@, q@) is None,
        },
{
    let mut url = url::Url::parse(u)?;
    url.set_query(Some(q));
    Ok(url.to_string())
}

/// The template of one request.
#[derive(Debug)]
pub struct RequestProfile {
    /// The HTTP method.
    pub method: Method,
    /// The URL, as the `url` crate writes it.
    pub url: String,
    /// Query parameters; an object where the profile is valid.
    pub params: Option<JsonDoc>,
    pub headers: Headers,
    /// The body; an object where the profile is valid.
    pub body: Option<JsonDoc>,
}

/// The object that an optional document stands for: no document is an empty object.
pub open spec fn doc_map(d: Option<DocView>) -> Map<Seq<char>, FieldView> {
    match d {
        Some(DocView::Object(m)) => m,
        _ => Map::empty(),
    }
}

/// The view of an optional document.
pub open spec fn opt_doc(d: Option<JsonDoc>) -> Option<DocView> {
    match d {
        Some(x) => Some(x@),
        None => None,
    }
}

/// Whether an optional document is absent or an object.
pub open spec fn object_or_absent(d: Option<JsonDoc>) -> bool {
    match d {
        Some(JsonDoc::Other(_)) => false,
        _ => true,
    }
}

/// `m` after setting each override key to its text, in order: the last one of a key wins.
pub open spec fn with_overrides(
    m: Map<Seq<char>, FieldView>,
    ov: Seq<(Seq<char>, Seq<char>)>,
) -> Map<Seq<char>, FieldView>
    decreases ov.len(),
{
    if ov.len() == 0 {
        m
    } else {
        with_overrides(m, ov.drop_last()).insert(ov.last().0, FieldView::Text(ov.last().1))
    }
}

/// `hs` after the header overrides, or `None` where one has an invalid name or value.
pub open spec fn headers_with(
    hs: Seq<(Seq<char>, Seq<char>)>,
    ov: Seq<(Seq<char>, Seq<char>)>,
) -> Option<Seq<(Seq<char>, Seq<char>)>>
    decreases ov.len(),
{
    if ov.len() == 0 {
        Some(hs)
    } else {
        match headers_with(hs, ov.drop_last()) {
            None => None,
            Some(h) => match header_name_of(ov.last().0) {
                Some(n) => if header_value_ok(ov.last().1) {
                    Some(header_insert(h, n, ov.last().1))
                } else {
                    None
                },
                None => None,
            },
        }
    }
}

/// `hs` with `content-type: application/json` added where it has no content type.
pub open spec fn with_default_type(hs: Seq<(Seq<char>, Seq<char>)>) -> Seq<(Seq<char>, Seq<char>)> {
    if content_type_of(hs) is None {
        hs.push((content_type_name(), json_media()))
    } else {
        hs
    }
}

/// How a request body is encoded.
#[derive(Debug, Clone, Copy, PartialEq, Eq, Structural)]
pub enum BodyEncoding {
    Json,
    Form,
    Unsupported,
}

/// The media type `application/x-www-form-urlencoded`.
pub open spec fn form_media() -> Seq<char> {
    "application/x-www-form-urlencoded"@
}

/// The media type `multipart/form-data`.
pub open spec fn multipart_media() -> Seq<char> {
    "multipart/form-data"@
}

/// The encoding that a content type asks for.
pub open spec fn encoding_of(ct: Option<Seq<char>>) -> BodyEncoding {
    match ct {
        Some(t) => if t == json_media() {
            BodyEncoding::Json
        } else if t == form_media() || t == multipart_media() {
            BodyEncoding::Form
        } else {
            BodyEncoding::Unsupported
        },
        None => BodyEncoding::Unsupported,
    }
}

/// Why a request could not be generated.
pub enum GenerateFailure {
    InvalidHeader,
    UnsupportedContentType,
    Encode,
}

/// Whether an error is the one that stands for a failure of generation.
pub open spec fn reports(e: ErrorKind, f: GenerateFailure) -> bool {
    match f {
        GenerateFailure::InvalidHeader => e is InvalidHeader,
        GenerateFailure::UnsupportedContentType => e is UnsupportedContentType,
        GenerateFailure::Encode => e is Encode,
    }
}

/// What a request generates to: its headers, its query object and its body text.
pub open spec fn generated(
    p: RequestProfile,
    header: Seq<(Seq<char>, Seq<char>)>,
    query: Seq<(Seq<char>, Seq<char>)>,
    body: Seq<(Seq<char>, Seq<char>)>,
) -> Result<(Seq<(Seq<char>, Seq<char>)>, Map<Seq<char>, FieldView>, Seq<char>), GenerateFailure> {
    match headers_with(p.headers@, header) {
        None => Err(GenerateFailure::InvalidHeader),
        Some(h) => {
            let hs = with_default_type(h);
            let q = with_overrides(doc_map(opt_doc(p.params)), query);
            let b = with_overrides(doc_map(opt_doc(p.body)), body);
            match encoding_of(content_type_of(hs)) {
                BodyEncoding::Json => Ok((hs, q, json_text(b))),
                BodyEncoding::Form => match form_text(b) {
                    Some(t) => Ok((hs, q, t)),
                    None => Err(GenerateFailure::Encode),
                },
                BodyEncoding::Unsupported => Err(GenerateFailure::UnsupportedContentType),
            }
        },
    }
}

/// What a request generates to with the given overrides.
pub open spec fn generated_with(p: RequestProfile, args: ExtraArgs) -> Result<
    (Seq<(Seq<char>, Seq<char>)>, Map<Seq<char>, FieldView>, Seq<char>),
    GenerateFailure,
> {
    generated(p, pairs_view(args.header@), pairs_view(args.query@), pairs_view(args.body@))
}

/// The URL that a request is sent to, query included.
pub open spec fn url_of(p: RequestProfile, args: ExtraArgs) -> Result<Seq<char>, Option<GenerateFailure>> {
    match generated_with(p, args) {
        Err(f) => Err(Some(f)),
        Ok((_, q, _)) => if q == Map::<Seq<char>, FieldView>::empty() {
            Ok(p.url@)
        } else {
            match query_text(q) {
                None => Err(Some(GenerateFailure::Encode)),
                Some(qt) => match url_with_query_of(p.url@, qt) {
                    Some(u) => Ok(u),
                    None => Err(None),
                },
            }
        },
    }
}

proof fn lemma_fields_map_empty(fs: Seq<(String, JsonField)>)
    ensures
        (fs.len() == 0) == (fields_map(fs) == Map::<Seq<char>, FieldView>::empty()),
{
    if fs.len() > 0 {
        assert(fields_map(fs).dom().contains(fs.last().0@));
    }
}

/// Applies text overrides to a copy of an optional object.
fn merged_object(d: &Option<JsonDoc>, ov: &Vec<(String, String)>) -> (r: JsonObject)
    requires
        object_or_absent(*d),
    ensures
        r@ == with_overrides(doc_map(opt_doc(*d)), pairs_view(ov@)),
{
    let mut obj = match d {
        Some(JsonDoc::Object(o)) => o.duplicate(),
        _ => JsonObject::new(),
    };
    let mut i: usize = 0;
    while i < ov.len()
        invariant
            i <= ov@.len(),
            obj@ == with_overrides(doc_map(opt_doc(*d)), pairs_view(ov@.subrange(0, i as int))),
        decreases ov@.len() - i,
    {
        assert(pairs_view(ov@.subrange(0, i + 1)).drop_last() =~= pairs_view(ov@.subrange(0, i as int)));
        obj.insert(ov[i].0.clone(), JsonField::Text(ov[i].1.clone()));
        i = i + 1;
    }
    assert(ov@.subrange(0, i as int) =~= ov@);
    obj
}

impl RequestProfile {
    /// Whether `params` and `body` are objects where present.
    pub open spec fn shape_ok(&self) -> bool {
        object_or_absent(self.params) && object_or_absent(self.body)
    }

    /// A profile for `url`, which must parse.
    pub fn new(
        method: Method,
        url: String,
        params: Option<JsonDoc>,
        headers: Headers,
        body: Option<JsonDoc>,
    ) -> (r: RequestProfile)
        requires
            url_parts(url@) is Some,
        ensures
            r.method == method,
            r.url@ == url_parts(url@)->0.text,
            r.params == params,
            r.headers == headers,
            r.body == body,
    {
        match parse_url(url.as_str()) {
            Ok(parts) => RequestProfile { method, url: parts.0, params, headers, body },
            Err(_) => {
                proof {
                    assert(false);
                }
                RequestProfile { method, url, params, headers, body }
            },
        }
    }

    /// A profile for `url`, or `UrlParse` where the URL does not parse.
    pub fn try_new(
        method: Method,
        url: String,
        params: Option<JsonDoc>,
        headers: Headers,
        body: Option<JsonDoc>,
    ) -> (r: Result<RequestProfile, ErrorKind>)
        ensures
            match url_parts(url@) {
                Some(parts) => r matches Ok(p) && p.method == method && p.url@ == parts.text
                    && p.params == params && p.headers == headers && p.body == body,
                None => r matches Err(ErrorKind::UrlParse),
            },
    {
        match parse_url(url.as_str()) {
            Ok(_) => Ok(RequestProfile::new(method, url, params, headers, body)),
            Err(_) => Err(ErrorKind::UrlParse),
        }
    }

    /// A `GET` profile from a URL: its query becomes `params` (the last value of a key
    /// wins) and is removed from the stored URL.
    pub fn from_url(s: &str) -> (r: Result<RequestProfile, ErrorKind>)
        ensures
            match url_parts(s@) {
                Some(parts) => r matches Ok(p) && p.method == Method::Get && p.url@ == parts.base
                    && p.headers@.len() == 0 && p.body is None && opt_doc(p.params) == Some(
                    DocView::Object(with_overrides(Map::empty(), parts.pairs)),
                ),
                None => r matches Err(ErrorKind::UrlParse),
            },
    {
        match parse_url(s) {
            Ok((_, base, pairs)) => {
                let params = merged_object(&None, &pairs);
                Ok(RequestProfile {
                    method: Method::Get,
                    url: base,
                    params: Some(JsonDoc::Object(params)),
                    headers: Headers::new(),
                    body: None,
                })
            },
            Err(_) => Err(ErrorKind::UrlParse),
        }
    }

    /// The headers, query object and body text of the request with `args` applied:
    /// header overrides first, then a default `content-type: application/json`, then
    /// query and body overrides; the body is encoded as the final content type asks.
    pub fn generate(&self, args: &ExtraArgs) -> (r: Result<(Headers, JsonObject, String), ErrorKind>)
        requires
            self.shape_ok(),
        ensures
            match generated_with(*self, *args) {
                Ok((h, q, t)) => r matches Ok(g) && g.0@ == h && g.1@ == q && g.2@ == t,
                Err(f) => r matches Err(e) && reports(e, f),
            },
            doc_map(opt_doc(self.body)) == Map::<Seq<char>, FieldView>::empty() && args.body@.len()
                == 0 ==> (r matches Ok(g) ==> (encoding_of(content_type_of(g.0@)) == BodyEncoding::Json
                ==> g.2@ == seq!['{', '}'])),
    {
        let mut headers = self.headers.duplicate();
        let mut i: usize = 0;
        while i < args.header.len()
            invariant
                i <= args.header@.len(),
                headers_with(self.headers@, pairs_view(args.header@.subrange(0, i as int)))
                    == Some(headers@),
            decreases args.header@.len() - i,
        {
            let ghost done = pairs_view(args.header@.subrange(0, i + 1));
            assert(done.drop_last() =~= pairs_view(args.header@.subrange(0, i as int)));
            assert(done.last() == (args.header@[i as int].0@, args.header@[i as int].1@));
            let name = match parse_header_name(args.header[i].0.as_str()) {
                Some(n) => n,
                None => {
                    proof { lemma_headers_with_fails(self.headers@, pairs_view(args.header@), i as int); }
                    return Err(ErrorKind::InvalidHeader);
                },
            };
            if !is_header_value(args.header[i].1.as_str()) {
                proof { lemma_headers_with_fails(self.headers@, pairs_view(args.header@), i as int); }
                return Err(ErrorKind::InvalidHeader);
            }
            headers.set(name, args.header[i].1.clone());
            i = i + 1;
        }
        assert(args.header@.subrange(0, i as int) =~= args.header@);
        if headers.content_type().is_none() {
            let ghost pre = headers@;
            proof {
                reveal_strlit("content-type");
                reveal_strlit("application/json");
            }
            let n = String::from_str("content-type");
            let v = String::from_str("application/json");
            assert(n@ =~= content_type_name());
            assert(v@ =~= json_media());
            headers.entries.push((n, v));
            assert(headers@ =~= pre.push((content_type_name(), json_media())));
        }
        let query = merged_object(&self.params, &args.query);
        let body = merged_object(&self.body, &args.body);
        proof {
            lemma_fields_map_empty(body.fields@);
            if args.body@.len() == 0 {
                assert(pairs_view(args.body@) =~= Seq::<(Seq<char>, Seq<char>)>::empty());
            }
        }
        let content_type = headers.content_type();
        let encoding = match content_type {
            Some(t) => encoding_from(t.as_str()),
            None => BodyEncoding::Unsupported,
        };
        match encoding {
            BodyEncoding::Json => {
                let text = encode_json(&body);
                Ok((headers, query, text))
            },
            BodyEncoding::Form => match encode_form(&body) {
                Ok(text) => Ok((headers, query, text)),
                Err(_) => Err(ErrorKind::Encode),
            },
            BodyEncoding::Unsupported => Err(ErrorKind::UnsupportedContentType),
        }
    }

    /// The URL of the request with `args` applied, its query included where there is one.
    pub fn get_url(&self, args: &ExtraArgs) -> (r: Result<String, ErrorKind>)
        requires
            self.shape_ok(),
        ensures
            match url_of(*self, *args) {
                Ok(u) => r matches Ok(t) && t@ == u,
                Err(Some(f)) => r matches Err(e) && reports(e, f),
                Err(None) => r matches Err(ErrorKind::UrlParse),
            },
    {
        let (_, query, _) = self.generate(args)?;
        proof {
            lemma_fields_map_empty(query.fields@);
        }
        if query.fields.len() == 0 {
            return Ok(self.url.clone());
        }
        let qs = match encode_query(&query) {
            Ok(q) => q,
            Err(_) => return Err(ErrorKind::Encode),
        };
        match url_with_query(self.url.as_str(), qs.as_str()) {
            Ok(u) => Ok(u),
            Err(_) => Err(ErrorKind::UrlParse),
        }
    }

    /// Checks that `params` and `body` are objects where present.
    pub fn check_shape(&self) -> (r: Result<(), ErrorKind>)
        ensures
            !object_or_absent(self.params) ==> r matches Err(ErrorKind::InvalidShape(ShapeField::Params)),
            object_or_absent(self.params) && !object_or_absent(self.body) ==> r matches Err(
                ErrorKind::InvalidShape(ShapeField::Body),
            ),
            self.shape_ok() ==> r is Ok,
    {
        if let Some(JsonDoc::Other(_)) = &self.params {
            return Err(ErrorKind::InvalidShape(ShapeField::Params));
        }
        if let Some(JsonDoc::Other(_)) = &self.body {
            return Err(ErrorKind::InvalidShape(ShapeField::Body));
        }
        Ok(())
    }
}

impl std::str::FromStr for RequestProfile {
    type Err = ErrorKind;

    /// Reads a profile from a URL, as [`RequestProfile::from_url`] does.
    fn from_str(s: &str) -> Result<RequestProfile, ErrorKind> {
        RequestProfile::from_url(s)
    }
}

proof fn lemma_headers_with_fails(
    hs: Seq<(Seq<char>, Seq<char>)>,
    ov: Seq<(Seq<char>, Seq<char>)>,
    i: int,
)
    requires
        0 <= i < ov.len(),
        headers_with(hs, ov.subrange(0, i + 1)) is None,
    ensures
        headers_with(hs, ov) is None,
    decreases ov.len(),
{
    if ov.len() > i + 1 {
        assert(ov.drop_last().subrange(0, i + 1) =~= ov.subrange(0, i + 1));
        lemma_headers_with_fails(hs, ov.drop_last(), i);
    } else {
        assert(ov.subrange(0, i + 1) =~= ov);
    }
}

/// The encoding that a media type asks for.
pub fn encoding_from(t: &str) -> (r: BodyEncoding)
    ensures
        r == encoding_of(Some(t@)),
{
    let s = String::from_str(t);
    let json = String::from_str("application/json");
    let form = String::from_str("application/x-www-form-urlencoded");
    let multipart = String::from_str("multipart/form-data");
    proof {
        reveal_strlit("application/json");
        reveal_strlit("application/x-www-form-urlencoded");
        reveal_strlit("multipart/form-data");
    }
    assert(json@ =~= json_media());
    if s == json {
        BodyEncoding::Json
    } else if s == form || s == multipart {
        BodyEncoding::Form
    } else {
        BodyEncoding::Unsupported
    }
}

/// Generation depends on the template's and the overrides' contents alone: the same
/// template with the same overrides gives the same headers, query and body.
pub proof fn lemma_generate_deterministic(
    p1: RequestProfile,
    p2: RequestProfile,
    a1: ExtraArgs,
    a2: ExtraArgs,
)
    requires
        p1.headers@ == p2.headers@,
        opt_doc(p1.params) == opt_doc(p2.params),
        opt_doc(p1.body) == opt_doc(p2.body),
        pairs_view(a1.header@) == pairs_view(a2.header@),
        pairs_view(a1.query@) == pairs_view(a2.query@),
        pairs_view(a1.body@) == pairs_view(a2.body@),
    ensures
        generated_with(p1, a1) == generated_with(p2, a2),
{
}

/// An override sets its key to its text, whatever the template held there, unless a
/// later override of the same key follows: of several overrides of one key the last wins.
pub proof fn lemma_last_override_wins(
    m: Map<Seq<char>, FieldView>,
    ov: Seq<(Seq<char>, Seq<char>)>,
    i: int,
)
    requires
        0 <= i < ov.len(),
        forall|j: int| i < j < ov.len() ==> ov[j].0 != ov[i].0,
    ensures
        with_overrides(m, ov).dom().contains(ov[i].0),
        with_overrides(m, ov)[ov[i].0] == FieldView::Text(ov[i].1),
    decreases ov.len(),
{
    if i < ov.len() - 1 {
        lemma_last_override_wins(m, ov.drop_last(), i);
    }
}

/// Keys that no override names keep the template's value.
pub proof fn lemma_template_kept(m: Map<Seq<char>, FieldView>, ov: Seq<(Seq<char>, Seq<char>)>, k: Seq<char>)
    requires
        forall|j: int| 0 <= j < ov.len() ==> ov[j].0 != k,
    ensures
        with_overrides(m, ov).dom().contains(k) == m.dom().contains(k),
        m.dom().contains(k) ==> with_overrides(m, ov)[k] == m[k],
    decreases ov.len(),
{
    if ov.len() > 0 {
        lemma_template_kept(m, ov.drop_last(), k);
    }
}

/// A profile without headers, given no header overrides, is sent with the single header
/// `content-type: application/json`, and its body is encoded as JSON.
pub proof fn lemma_default_content_type(p: RequestProfile, args: ExtraArgs)
    requires
        p.headers@.len() == 0,
        args.header@.len() == 0,
    ensures
        generated_with(p, args) matches Ok(g) && g.0 == seq![(content_type_name(), json_media())]
            && g.2 == json_text(with_overrides(doc_map(opt_doc(p.body)), pairs_view(args.body@))),
{
    assert(pairs_view(args.header@) =~= Seq::<(Seq<char>, Seq<char>)>::empty());
    let hs = seq![(content_type_name(), json_media())];
    assert(p.headers@ =~= Seq::<(Seq<char>, Seq<char>)>::empty());
    assert(content_type_of(p.headers@) is None);
    assert(with_default_type(p.headers@) =~= hs);
    assert(hs[0].0 == content_type_name());
    assert(same_name(hs[0].0, content_type_name()));
    assert(first_value(hs, content_type_name()) == Some(json_media()));
    lemma_media_of_json();
}

proof fn lemma_media_of_json()
    ensures
        media_type(json_media()) == json_media(),
{
    let s = json_media();
    assert forall|i: int| 0 <= i < s.len() implies s[i] != ';' by {}
    lemma_media_no_semicolon(s);
}

proof fn lemma_media_no_semicolon(s: Seq<char>)
    requires
        forall|i: int| 0 <= i < s.len() ==> s[i] != ';',
    ensures
        media_type(s) == s,
    decreases s.len(),
{
    if s.len() > 0 {
        lemma_media_no_semicolon(s.drop_first());
        assert(seq![s[0]] + s.drop_first() =~= s);
    }
}

} // verus!
