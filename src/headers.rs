//! Request and response headers as an ordered list of name and value.

use vstd::prelude::*;

verus! {

/// The canonical (lower-case) name that `http::HeaderName::from_str` makes of a text,
/// or `None` where the text is no header name.
pub uninterp spec fn header_name_of(s: Seq<char>) -> Option<Seq<char>>;

/// Relies on `HeaderName::from_str` of the `http` crate re-exported by `reqwest`: it
/// checks the name and gives its canonical form.
#[verifier::external_body]
pub(crate) fn parse_header_name(s: &str) -> (r: Option<String>)
    ensures
        match r {
            Some(n) => header_name_of(s@) == Some(n@),
            None => header_name_of(s@) is None,
        },
{
    <reqwest::header::HeaderName as std::str::FromStr>::from_str(s).ok().map(|n| n.as_str().to_string())
}

/// Whether a character may stand in a header value: a visible character, a space, a
/// tab, or any character outside ASCII.
pub open spec fn header_value_char(c: char) -> bool {
    (c as u32 >= 32 && c as u32 != 127) || c == '\t'
}

/// Whether a text is a valid header value.
pub open spec fn header_value_ok(v: Seq<char>) -> bool {
    forall|i: int| 0 <= i < v.len() ==> header_value_char(#[trigger] v[i])
}

/// The name `content-type`.
pub open spec fn content_type_name() -> Seq<char> {
    seq!['c', 'o', 'n', 't', 'e', 'n', 't', '-', 't', 'y', 'p', 'e']
}

/// The media type `application/json`.
pub open spec fn json_media() -> Seq<char> {
    seq!['a', 'p', 'p', 'l', 'i', 'c', 'a', 't', 'i', 'o', 'n', '/', 'j', 's', 'o', 'n']
}

/// Whether two characters are equal up to ASCII case.
pub open spec fn same_letter(x: char, y: char) -> bool {
    x == y || (65 <= x as u32 && x as u32 <= 90 && x as u32 + 32 == y as u32) || (65 <= y as u32
        && y as u32 <= 90 && y as u32 + 32 == x as u32)
}

/// Whether two header names are equal: header names ignore ASCII case.
pub open spec fn same_name(a: Seq<char>, b: Seq<char>) -> bool {
    a.len() == b.len() && forall|i: int| 0 <= i < a.len() ==> same_letter(#[trigger] a[i], b[i])
}

/// Whether two header names are equal up to ASCII case.
pub fn names_match(a: &String, b: &String) -> (r: bool)
    ensures
        r == same_name(a@, b@),
{
    let n = a.as_str().unicode_len();
    if n != b.as_str().unicode_len() {
        return false;
    }
    let mut i: usize = 0;
    while i < n
        invariant
            n == a@.len(),
            n == b@.len(),
            i <= n,
            forall|j: int| 0 <= j < i ==> same_letter(#[trigger] a@[j], b@[j]),
        decreases n - i,
    {
        let x = a.as_str().get_char(i);
        let y = b.as_str().get_char(i);
        let (xu, yu) = (x as u32, y as u32);
        if !(x == y || (65 <= xu && xu <= 90 && xu + 32 == yu) || (65 <= yu && yu <= 90 && yu + 32 == xu)) {
            return false;
        }
        i = i + 1;
    }
    true
}

/// The entries of `hs` whose name is not `n`, in order.
pub open spec fn without_name(hs: Seq<(Seq<char>, Seq<char>)>, n: Seq<char>) -> Seq<(Seq<char>, Seq<char>)>
    decreases hs.len(),
{
    if hs.len() == 0 {
        hs
    } else if same_name(hs.last().0, n) {
        without_name(hs.drop_last(), n)
    } else {
        without_name(hs.drop_last(), n).push(hs.last())
    }
}

/// `hs` after setting `n` to the single value `v`.
pub open spec fn header_insert(hs: Seq<(Seq<char>, Seq<char>)>, n: Seq<char>, v: Seq<char>) -> Seq<(Seq<char>, Seq<char>)> {
    without_name(hs, n).push((n, v))
}

/// The first value of `n`, in any ASCII case, in `hs`.
pub open spec fn first_value(hs: Seq<(Seq<char>, Seq<char>)>, n: Seq<char>) -> Option<Seq<char>>
    decreases hs.len(),
{
    if hs.len() == 0 {
        None
    } else if same_name(hs[0].0, n) {
        Some(hs[0].1)
    } else {
        first_value(hs.drop_first(), n)
    }
}

/// A header value up to its first `;`: the media type of a content type.
pub open spec fn media_type(v: Seq<char>) -> Seq<char>
    decreases v.len(),
{
    if v.len() == 0 || v[0] == ';' {
        Seq::empty()
    } else {
        seq![v[0]] + media_type(v.drop_first())
    }
}

/// The media type of the content type in `hs`.
pub open spec fn content_type_of(hs: Seq<(Seq<char>, Seq<char>)>) -> Option<Seq<char>> {
    match first_value(hs, content_type_name()) {
        Some(v) => Some(media_type(v)),
        None => None,
    }
}

/// Headers, in order; a name may occur more than once.
#[derive(Debug)]
pub struct Headers {
    pub entries: Vec<(String, String)>,
}

impl View for Headers {
    type V = Seq<(Seq<char>, Seq<char>)>;

    open spec fn view(&self) -> Seq<(Seq<char>, Seq<char>)> {
        self.entries@.map_values(|e: (String, String)| (e.0@, e.1@))
    }
}

/// Whether `v` is a valid header value.
pub fn is_header_value(v: &str) -> (r: bool)
    ensures
        r == header_value_ok(v@),
{
    let n = v.unicode_len();
    let mut i: usize = 0;
    while i < n
        invariant
            n == v@.len(),
            i <= n,
            forall|j: int| 0 <= j < i ==> header_value_char(#[trigger] v@[j]),
        decreases n - i,
    {
        let c = v.get_char(i);
        if !((c as u32 >= 32 && c as u32 != 127) || c == '\t') {
            return false;
        }
        i = i + 1;
    }
    true
}

/// The part of `v` before its first `;`.
pub fn media_type_of(v: &str) -> (r: String)
    ensures
        r@ == media_type(v@),
{
    let n = v.unicode_len();
    let mut i: usize = 0;
    assert(v@.subrange(0, n as int) =~= v@);
    assert(v@.subrange(0, 0) + v@ =~= v@);
    while i < n && v.get_char(i) != ';'
        invariant
            n == v@.len(),
            i <= n,
            media_type(v@) == v@.subrange(0, i as int) + media_type(v@.subrange(i as int, n as int)),
        decreases n - i,
    {
        let ghost rest = v@.subrange(i as int, n as int);
        assert(rest.drop_first() =~= v@.subrange(i + 1, n as int));
        assert(v@.subrange(0, i + 1) =~= v@.subrange(0, i as int) + seq![v@[i as int]]);
        i = i + 1;
    }
    assert(media_type(v@.subrange(i as int, n as int)) =~= Seq::<char>::empty());
    assert(media_type(v@) =~= v@.subrange(0, i as int));
    String::from_str(v.substring_char(0, i))
}

impl Headers {
    /// No headers.
    pub fn new() -> (r: Headers)
        ensures
            r@ == Seq::<(Seq<char>, Seq<char>)>::empty(),
    {
        Headers { entries: Vec::new() }
    }

    /// A copy of the headers.
    pub fn duplicate(&self) -> (r: Headers)
        ensures
            r@ == self@,
    {
        let mut entries: Vec<(String, String)> = Vec::new();
        let mut i: usize = 0;
        while i < self.entries.len()
            invariant
                i <= self.entries@.len(),
                entries@.len() == i,
                forall|j: int| 0 <= j < i ==> #[trigger] entries@[j].0@ == self.entries@[j].0@
                    && entries@[j].1@ == self.entries@[j].1@,
            decreases self.entries@.len() - i,
        {
            entries.push((self.entries[i].0.clone(), self.entries[i].1.clone()));
            i = i + 1;
        }
        let r = Headers { entries };
        assert(r@ =~= self@);
        r
    }

    /// The first value of the header named `name`.
    pub fn first_value(&self, name: &String) -> (r: Option<&String>)
        ensures
            match r {
                Some(v) => first_value(self@, name@) == Some(v@),
                None => first_value(self@, name@) is None,
            },
    {
        let mut i: usize = 0;
        assert(self@.subrange(0, self@.len() as int) =~= self@);
        while i < self.entries.len()
            invariant
                i <= self.entries@.len(),
                first_value(self@, name@) == first_value(self@.subrange(i as int, self@.len() as int), name@),
            decreases self.entries@.len() - i,
        {
            let ghost rest = self@.subrange(i as int, self@.len() as int);
            assert(rest.drop_first() =~= self@.subrange(i + 1, self@.len() as int));
            if names_match(&self.entries[i].0, name) {
                return Some(&self.entries[i].1);
            }
            i = i + 1;
        }
        None
    }

    /// The media type of the content type, if there is one.
    pub fn content_type(&self) -> (r: Option<String>)
        ensures
            match r {
                Some(t) => content_type_of(self@) == Some(t@),
                None => content_type_of(self@) is None,
            },
    {
        let name = String::from_str("content-type");
        proof {
            reveal_strlit("content-type");
        }
        assert(name@ =~= content_type_name());
        match self.first_value(&name) {
            Some(v) => Some(media_type_of(v.as_str())),
            None => None,
        }
    }

    /// Sets the header `name` to the single value `value`: earlier values of that name,
    /// in any ASCII case, are dropped.
    pub fn set(&mut self, name: String, value: String)
        ensures
            final(self)@ == header_insert(old(self)@, name@, value@),
    {
        let mut kept: Vec<(String, String)> = Vec::new();
        let ghost all = self@;
        let mut i: usize = 0;
        while i < self.entries.len()
            invariant
                i <= self.entries@.len(),
                all == self@,
                kept@.map_values(|e: (String, String)| (e.0@, e.1@)) == without_name(all.subrange(0, i as int), name@),
            decreases self.entries@.len() - i,
        {
            let ghost pre = kept@;
            assert(all.subrange(0, i + 1).drop_last() =~= all.subrange(0, i as int));
            if !names_match(&self.entries[i].0, &name) {
                kept.push((self.entries[i].0.clone(), self.entries[i].1.clone()));
                assert(kept@.map_values(|e: (String, String)| (e.0@, e.1@)) =~= pre.map_values(|e: (String, String)| (e.0@, e.1@)).push(all[i as int]));
            }
            i = i + 1;
        }
        assert(all.subrange(0, i as int) =~= all);
        let ghost pre = kept@;
        kept.push((name, value));
        assert(kept@.map_values(|e: (String, String)| (e.0@, e.1@)) =~= pre.map_values(|e: (String, String)| (e.0@, e.1@)).push((name@, value@)));
        self.entries = kept;
    }
}

} // verus!
