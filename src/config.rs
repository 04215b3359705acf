//! Named profiles and their validation.

use vstd::prelude::*;

use crate::json::JsonDoc;
use crate::profile::{object_or_absent, RequestProfile};
use crate::{ErrorKind, ShapeField, Side};

verus! {

/// A value that can be checked once, after it is loaded.
pub trait Validateable {
    /// Whether the value passes its validation.
    spec fn valid(&self) -> bool;

    /// Whether `e` is the error that the validation of this value reports.
    spec fn explains(&self, e: ErrorKind) -> bool;

    /// Validates the value.
    fn validate(&self) -> (r: Result<(), ErrorKind>)
        ensures
            r is Ok <==> self.valid(),
            r matches Err(e) ==> self.explains(e);
}

/// The field of a request profile that is not an object, `params` before `body`.
pub open spec fn bad_field(p: RequestProfile) -> ShapeField {
    if !object_or_absent(p.params) {
        ShapeField::Params
    } else {
        ShapeField::Body
    }
}

impl Validateable for RequestProfile {
    open spec fn valid(&self) -> bool {
        self.shape_ok()
    }

    open spec fn explains(&self, e: ErrorKind) -> bool {
        e == ErrorKind::InvalidShape(bad_field(*self))
    }

    fn validate(&self) -> (r: Result<(), ErrorKind>) {
        self.check_shape()
    }
}

/// Which responses' headers and body keys are left out before comparing.
#[derive(Debug, Clone)]
pub struct ResponseProfile {
    pub skip_headers: Vec<String>,
    pub skip_body: Vec<String>,
}

impl ResponseProfile {
    pub fn new(skip_headers: Vec<String>, skip_body: Vec<String>) -> (r: ResponseProfile)
        ensures
            r.skip_headers == skip_headers,
            r.skip_body == skip_body,
    {
        ResponseProfile { skip_headers, skip_body }
    }
}

impl Default for ResponseProfile {
    fn default() -> (r: ResponseProfile)
        ensures
            r.skip_headers@.len() == 0,
            r.skip_body@.len() == 0,
    {
        ResponseProfile { skip_headers: Vec::new(), skip_body: Vec::new() }
    }
}

/// The texts of a list of strings, in order.
pub open spec fn texts(v: Seq<String>) -> Seq<Seq<char>> {
    v.map_values(|s: String| s@)
}

/// Whether two lists of strings hold the same texts in the same order.
fn same_texts(a: &Vec<String>, b: &Vec<String>) -> (r: bool)
    ensures
        r == (texts(a@) == texts(b@)),
{
    if a.len() != b.len() {
        assert(texts(a@).len() != texts(b@).len());
        return false;
    }
    let mut i: usize = 0;
    while i < a.len()
        invariant
            a@.len() == b@.len(),
            i <= a@.len(),
            forall|j: int| 0 <= j < i ==> a@[j]@ == b@[j]@,
        decreases a@.len() - i,
    {
        if a[i] != b[i] {
            assert(texts(a@)[i as int] != texts(b@)[i as int]);
            return false;
        }
        i = i + 1;
    }
    assert(texts(a@) =~= texts(b@));
    true
}

impl PartialEq for ResponseProfile {
    fn eq(&self, other: &ResponseProfile) -> (r: bool) {
        same_texts(&self.skip_headers, &other.skip_headers) && same_texts(&self.skip_body, &other.skip_body)
    }
}

impl vstd::std_specs::cmp::PartialEqSpecImpl for ResponseProfile {
    open spec fn obeys_eq_spec() -> bool {
        true
    }

    open spec fn eq_spec(&self, other: &ResponseProfile) -> bool {
        texts(self.skip_headers@) == texts(other.skip_headers@) && texts(self.skip_body@) == texts(
            other.skip_body@,
        )
    }
}

impl Eq for ResponseProfile {}

/// Whether a response profile equals the default one: nothing is skipped.
pub fn is_default(t: &ResponseProfile) -> (r: bool)
    ensures
        r == (t.skip_headers@.len() == 0 && t.skip_body@.len() == 0),
{
    let d = ResponseProfile::default();
    let r = *t == d;
    assert(texts(d.skip_headers@) =~= Seq::<Seq<char>>::empty());
    assert(texts(d.skip_body@) =~= Seq::<Seq<char>>::empty());
    assert(r ==> texts(t.skip_headers@).len() == 0 && texts(t.skip_body@).len() == 0);
    assert(t.skip_headers@.len() == 0 && t.skip_body@.len() == 0 ==> texts(t.skip_headers@) =~= texts(d.skip_headers@) && texts(t.skip_body@) =~= texts(d.skip_body@));
    r
}

/// Two requests whose responses are compared, under one response filter.
#[derive(Debug)]
pub struct DiffProfile {
    pub req1: RequestProfile,
    pub req2: RequestProfile,
    pub resp: ResponseProfile,
}

impl DiffProfile {
    pub fn new(req1: RequestProfile, req2: RequestProfile, resp: ResponseProfile) -> (r: DiffProfile)
        ensures
            r.req1 == req1,
            r.req2 == req2,
            r.resp == resp,
    {
        DiffProfile { req1, req2, resp }
    }
}

impl Validateable for DiffProfile {
    open spec fn valid(&self) -> bool {
        self.req1.shape_ok() && self.req2.shape_ok()
    }

    open spec fn explains(&self, e: ErrorKind) -> bool {
        if !self.req1.shape_ok() {
            e == ErrorKind::InvalidRequest(Side::Req1, bad_field(self.req1))
        } else {
            e == ErrorKind::InvalidRequest(Side::Req2, bad_field(self.req2))
        }
    }

    fn validate(&self) -> (r: Result<(), ErrorKind>) {
        match self.req1.validate() {
            Err(_) => return Err(ErrorKind::InvalidRequest(Side::Req1, field_of(&self.req1))),
            Ok(()) => {},
        }
        match self.req2.validate() {
            Err(_) => Err(ErrorKind::InvalidRequest(Side::Req2, field_of(&self.req2))),
            Ok(()) => Ok(()),
        }
    }
}

/// The field that fails the validation of `p`.
fn field_of(p: &RequestProfile) -> (r: ShapeField)
    ensures
        r == bad_field(*p),
{
    match &p.params {
        Some(JsonDoc::Other(_)) => ShapeField::Params,
        _ => ShapeField::Body,
    }
}

/// Whether `i` is the first index at which `fails` holds.
pub open spec fn first_failing(fails: Seq<bool>, i: int) -> bool {
    0 <= i < fails.len() && fails[i] && forall|j: int| 0 <= j < i ==> !fails[j]
}

/// Whether no two entries share a name.
pub open spec fn names_unique<T>(ps: Seq<(String, T)>) -> bool {
    forall|i: int, j: int| 0 <= i < ps.len() && 0 <= j < ps.len() && i != j ==> #[trigger] ps[i].0@ != #[trigger] ps[j].0@
}

/// Diff profiles by name; names are unique.
#[derive(Debug)]
pub struct DiffConfig {
    pub profiles: Vec<(String, DiffProfile)>,
}

/// Request profiles by name; names are unique.
#[derive(Debug)]
pub struct RequestConfig {
    pub profiles: Vec<(String, RequestProfile)>,
}

/// Which of the profiles of a diff configuration fail validation.
pub open spec fn diff_fails(ps: Seq<(String, DiffProfile)>) -> Seq<bool> {
    ps.map_values(|e: (String, DiffProfile)| !e.1.valid())
}

/// Which of the profiles of a request configuration fail validation.
pub open spec fn request_fails(ps: Seq<(String, RequestProfile)>) -> Seq<bool> {
    ps.map_values(|e: (String, RequestProfile)| !e.1.valid())
}

impl DiffConfig {
    pub fn new(profiles: Vec<(String, DiffProfile)>) -> (r: DiffConfig)
        requires
            names_unique(profiles@),
        ensures
            r.profiles == profiles,
    {
        DiffConfig { profiles }
    }

    /// The profile named `name`, matched exactly.
    pub fn get_profile(&self, name: &str) -> (r: Option<&DiffProfile>)
        ensures
            match r {
                Some(p) => exists|i: int|
                    0 <= i < self.profiles@.len() && self.profiles@[i].0@ == name@ && *p
                        == self.profiles@[i].1,
                None => forall|i: int|
                    0 <= i < self.profiles@.len() ==> self.profiles@[i].0@ != name@,
            },
    {
        let key = String::from_str(name);
        let mut i: usize = 0;
        while i < self.profiles.len()
            invariant
                i <= self.profiles@.len(),
                key@ == name@,
                forall|j: int| 0 <= j < i ==> self.profiles@[j].0@ != name@,
            decreases self.profiles@.len() - i,
        {
            if self.profiles[i].0 == key {
                return Some(&self.profiles[i].1);
            }
            i = i + 1;
        }
        None
    }
}

impl Validateable for DiffConfig {
    open spec fn valid(&self) -> bool {
        forall|i: int| 0 <= i < self.profiles@.len() ==> (#[trigger] self.profiles@[i]).1.valid()
    }

    open spec fn explains(&self, e: ErrorKind) -> bool {
        exists|i: int|
            first_failing(diff_fails(self.profiles@), i) && (e matches ErrorKind::ConfigValidation(
                n,
                c,
            ) && n@ == self.profiles@[i].0@ && self.profiles@[i].1.explains(*c))
    }

    /// Validates each profile in turn; the first one that fails is named in the error.
    fn validate(&self) -> (r: Result<(), ErrorKind>) {
        let mut i: usize = 0;
        while i < self.profiles.len()
            invariant
                i <= self.profiles@.len(),
                forall|j: int| 0 <= j < i ==> (#[trigger] self.profiles@[j]).1.valid(),
            decreases self.profiles@.len() - i,
        {
            match self.profiles[i].1.validate() {
                Err(e) => {
                    assert(first_failing(diff_fails(self.profiles@), i as int));
                    return Err(ErrorKind::ConfigValidation(self.profiles[i].0.clone(), Box::new(e)));
                },
                Ok(()) => {},
            }
            i = i + 1;
        }
        Ok(())
    }
}

impl RequestConfig {
    pub fn new(profiles: Vec<(String, RequestProfile)>) -> (r: RequestConfig)
        requires
            names_unique(profiles@),
        ensures
            r.profiles == profiles,
    {
        RequestConfig { profiles }
    }

    /// The profile named `name`, matched exactly.
    pub fn get_profile(&self, name: &str) -> (r: Option<&RequestProfile>)
        ensures
            match r {
                Some(p) => exists|i: int|
                    0 <= i < self.profiles@.len() && self.profiles@[i].0@ == name@ && *p
                        == self.profiles@[i].1,
                None => forall|i: int|
                    0 <= i < self.profiles@.len() ==> self.profiles@[i].0@ != name@,
            },
    {
        let key = String::from_str(name);
        let mut i: usize = 0;
        while i < self.profiles.len()
            invariant
                i <= self.profiles@.len(),
                key@ == name@,
                forall|j: int| 0 <= j < i ==> self.profiles@[j].0@ != name@,
            decreases self.profiles@.len() - i,
        {
            if self.profiles[i].0 == key {
                return Some(&self.profiles[i].1);
            }
            i = i + 1;
        }
        None
    }
}

impl Validateable for RequestConfig {
    open spec fn valid(&self) -> bool {
        forall|i: int| 0 <= i < self.profiles@.len() ==> (#[trigger] self.profiles@[i]).1.valid()
    }

    open spec fn explains(&self, e: ErrorKind) -> bool {
        exists|i: int|
            first_failing(request_fails(self.profiles@), i) && (e matches ErrorKind::ConfigValidation(
                n,
                c,
            ) && n@ == self.profiles@[i].0@ && self.profiles@[i].1.explains(*c))
    }

    /// Validates each profile in turn; the first one that fails is named in the error.
    fn validate(&self) -> (r: Result<(), ErrorKind>) {
        let mut i: usize = 0;
        while i < self.profiles.len()
            invariant
                i <= self.profiles@.len(),
                forall|j: int| 0 <= j < i ==> (#[trigger] self.profiles@[j]).1.valid(),
            decreases self.profiles@.len() - i,
        {
            match self.profiles[i].1.validate() {
                Err(e) => {
                    assert(first_failing(request_fails(self.profiles@), i as int));
                    return Err(ErrorKind::ConfigValidation(self.profiles[i].0.clone(), Box::new(e)));
                },
                Ok(()) => {},
            }
            i = i + 1;
        }
        Ok(())
    }
}

} // verus!
