//! Override tokens given on the command line.

use vstd::prelude::*;

use crate::text::{
    alphabetic, is_alphabetic, lemma_trim_idempotent, lemma_trimmed_within, trim, trim_start, trimmed,
};
use crate::{ErrorKind, ExtraArgs};

verus! {

/// The part of a request that an override token targets.
#[derive(Debug, Clone, Copy, PartialEq, Eq, Structural)]
pub enum KeyValType {
    Query,
    Header,
    Body,
}

/// One classified override token.
#[derive(Debug, Clone)]
pub struct KeyVal {
    pub key_val_type: KeyValType,
    pub key: String,
    pub value: String,
}

/// What to do: compare or print the responses of a named profile, or build a profile
/// interactively.
#[derive(Debug)]
pub enum Action {
    Run(RunArgs),
    Parse,
}

/// The command line.
#[derive(Debug)]
pub struct Args {
    pub action: Action,
}

/// The arguments of a run.
#[derive(Debug)]
pub struct RunArgs {
    /// The profile's name.
    pub profile: String,
    /// Overrides of query parameters (`key=value`), headers (`%key=value`) and body
    /// fields (`@key=value`).
    pub extra_params: Vec<KeyVal>,
    /// The configuration file.
    pub config: Option<String>,
}

impl RunArgs {
    /// The configuration file: the one given, else `./rdiff.yaml`.
    pub fn config_file(&self) -> (r: String)
        ensures
            match self.config {
                Some(c) => r@ == c@,
                None => r@ == "./rdiff.yaml"@,
            },
    {
        match &self.config {
            Some(c) => c.clone(),
            None => String::from_str("./rdiff.yaml"),
        }
    }
}

/// The index of the first `=` in `s`.
pub open spec fn first_eq_at(s: Seq<char>, i: int) -> bool {
    0 <= i < s.len() && s[i] == '=' && forall|j: int| 0 <= j < i ==> s[j] != '='
}

/// The classification of a trimmed key: its target and the key without the prefix.
pub open spec fn classify_key(key: Seq<char>) -> Option<(KeyValType, Seq<char>)> {
    if key.len() == 0 {
        None
    } else if key[0] == '@' {
        if key.len() > 1 { Some((KeyValType::Body, key.drop_first())) } else { None }
    } else if key[0] == '%' {
        if key.len() > 1 { Some((KeyValType::Header, key.drop_first())) } else { None }
    } else if alphabetic(key[0]) {
        Some((KeyValType::Query, key))
    } else {
        None
    }
}

/// What a token parses to: its target, key and value, or `None` where it is malformed.
pub open spec fn key_val_of(s: Seq<char>) -> Option<(KeyValType, Seq<char>, Seq<char>)> {
    if exists|i: int| first_eq_at(s, i) {
        let i = choose|i: int| first_eq_at(s, i);
        let value = trimmed(s.subrange(i + 1, s.len() as int));
        match classify_key(trimmed(s.subrange(0, i))) {
            Some((t, k)) => Some((t, k, value)),
            None => None,
        }
    } else {
        None
    }
}

proof fn lemma_first_eq_unique(s: Seq<char>, i: int, j: int)
    requires
        first_eq_at(s, i),
        first_eq_at(s, j),
    ensures
        i == j,
{
}

/// Parses one override token: `@key=value` targets the body, `%key=value` a header,
/// and `key=value` with an alphabetic first character the query. The token is split at
/// its first `=`, and key and value are trimmed.
pub fn parse_key_val(s: &str) -> (r: Result<KeyVal, ErrorKind>)
    ensures
        match key_val_of(s@) {
            Some((t, k, v)) => r matches Ok(kv) && kv.key_val_type == t && kv.key@ == k
                && kv.value@ == v,
            None => r matches Err(ErrorKind::InvalidOverride),
        },
{
    let n = s.unicode_len();
    let mut i: usize = 0;
    while i < n && s.get_char(i) != '='
        invariant
            n == s@.len(),
            i <= n,
            forall|j: int| 0 <= j < i ==> s@[j] != '=',
        decreases n - i,
    {
        i = i + 1;
    }
    if i == n {
        assert(!exists|j: int| first_eq_at(s@, j));
        return Err(ErrorKind::InvalidOverride);
    }
    assert(first_eq_at(s@, i as int));
    proof {
        let c = choose|j: int| first_eq_at(s@, j);
        lemma_first_eq_unique(s@, i as int, c);
    }
    let key = trim(s.substring_char(0, i));
    let value = trim(s.substring_char(i + 1, n));
    let kn = key.as_str().unicode_len();
    if kn == 0 {
        return Err(ErrorKind::InvalidOverride);
    }
    let c = key.as_str().get_char(0);
    if c == '@' || c == '%' {
        if kn == 1 {
            return Err(ErrorKind::InvalidOverride);
        }
        let rest = String::from_str(key.as_str().substring_char(1, kn));
        assert(rest@ =~= key@.drop_first());
        let t = if c == '@' { KeyValType::Body } else { KeyValType::Header };
        Ok(KeyVal { key_val_type: t, key: rest, value })
    } else if is_alphabetic(c) {
        Ok(KeyVal { key_val_type: KeyValType::Query, key, value })
    } else {
        Err(ErrorKind::InvalidOverride)
    }
}

/// The `(key, value)` pairs, in order, of the tokens that target `t`.
pub open spec fn pairs_of(kvs: Seq<KeyVal>, t: KeyValType) -> Seq<(Seq<char>, Seq<char>)>
    decreases kvs.len(),
{
    if kvs.len() == 0 {
        Seq::empty()
    } else {
        let rest = pairs_of(kvs.drop_last(), t);
        let last = kvs.last();
        if last.key_val_type == t {
            rest.push((last.key@, last.value@))
        } else {
            rest
        }
    }
}

/// The views of a list of string pairs.
pub open spec fn pairs_view(v: Seq<(String, String)>) -> Seq<(Seq<char>, Seq<char>)> {
    v.map_values(|p: (String, String)| (p.0@, p.1@))
}

impl ExtraArgs {
    /// Splits classified tokens into the three override lists, keeping their order.
    pub fn from_key_vals(key_vals: Vec<KeyVal>) -> (r: ExtraArgs)
        ensures
            pairs_view(r.query@) == pairs_of(key_vals@, KeyValType::Query),
            pairs_view(r.header@) == pairs_of(key_vals@, KeyValType::Header),
            pairs_view(r.body@) == pairs_of(key_vals@, KeyValType::Body),
    {
        let mut query: Vec<(String, String)> = Vec::new();
        let mut header: Vec<(String, String)> = Vec::new();
        let mut body: Vec<(String, String)> = Vec::new();
        let mut i: usize = 0;
        while i < key_vals.len()
            invariant
                i <= key_vals@.len(),
                pairs_view(query@) == pairs_of(key_vals@.subrange(0, i as int), KeyValType::Query),
                pairs_view(header@) == pairs_of(key_vals@.subrange(0, i as int), KeyValType::Header),
                pairs_view(body@) == pairs_of(key_vals@.subrange(0, i as int), KeyValType::Body),
            decreases key_vals@.len() - i,
        {
            let kv = &key_vals[i];
            let pair = (kv.key.clone(), kv.value.clone());
            let ghost pre = key_vals@.subrange(0, i as int);
            let ghost next = key_vals@.subrange(0, i + 1);
            assert(next.drop_last() =~= pre);
            assert(next.last() == key_vals@[i as int]);
            let ghost (q0, h0, b0) = (query@, header@, body@);
            match kv.key_val_type {
                KeyValType::Query => query.push(pair),
                KeyValType::Header => header.push(pair),
                KeyValType::Body => body.push(pair),
            }
            assert(pairs_view(query@) =~= (if kv.key_val_type == KeyValType::Query {
                pairs_view(q0).push((kv.key@, kv.value@))
            } else {
                pairs_view(q0)
            }));
            assert(pairs_view(header@) =~= (if kv.key_val_type == KeyValType::Header {
                pairs_view(h0).push((kv.key@, kv.value@))
            } else {
                pairs_view(h0)
            }));
            assert(pairs_view(body@) =~= (if kv.key_val_type == KeyValType::Body {
                pairs_view(b0).push((kv.key@, kv.value@))
            } else {
                pairs_view(b0)
            }));
            i = i + 1;
        }
        assert(key_vals@.subrange(0, key_vals@.len() as int) =~= key_vals@);
        ExtraArgs { query, header, body }
    }
}

/// Classifying a list of tokens keeps their order: the tokens of `a` then those of `b`
/// give, for each target, the pairs of `a` followed by those of `b`.
pub proof fn lemma_pairs_keep_order(a: Seq<KeyVal>, b: Seq<KeyVal>, t: KeyValType)
    ensures
        pairs_of(a + b, t) == pairs_of(a, t) + pairs_of(b, t),
    decreases b.len(),
{
    if b.len() == 0 {
        assert(a + b =~= a);
        assert(pairs_of(b, t) =~= Seq::<(Seq<char>, Seq<char>)>::empty());
        assert(pairs_of(a, t) + pairs_of(b, t) =~= pairs_of(a, t));
    } else {
        assert((a + b).drop_last() =~= a + b.drop_last());
        assert((a + b).last() == b.last());
        lemma_pairs_keep_order(a, b.drop_last(), t);
        let l = b.last();
        if l.key_val_type == t {
            assert(pairs_of(a, t) + pairs_of(b, t) =~= (pairs_of(a, t) + pairs_of(b.drop_last(), t)).push(
                (l.key@, l.value@),
            ));
        }
    }
}

/// The prefix that marks a target in a token.
pub open spec fn prefix_of(t: KeyValType) -> Seq<char> {
    match t {
        KeyValType::Body => seq!['@'],
        KeyValType::Header => seq!['%'],
        KeyValType::Query => Seq::empty(),
    }
}

/// The token that stands for a classified key and value: prefix, key, `=`, value.
pub open spec fn rendered(t: KeyValType, k: Seq<char>, v: Seq<char>) -> Seq<char> {
    prefix_of(t) + k + seq!['='] + v
}

/// Parsing is stable: a parsed token, written back as prefix, key, `=` and value, parses
/// to the same target, key and value.
pub proof fn lemma_reparse_rendered(s: Seq<char>)
    requires
        key_val_of(s) is Some,
    ensures
        match key_val_of(s) {
            Some((t, k, v)) => key_val_of(rendered(t, k, v)) == Some((t, k, v)),
            None => true,
        },
{
    let i = choose|i: int| first_eq_at(s, i);
    let raw = s.subrange(0, i);
    let key = trimmed(raw);
    let value = trimmed(s.subrange(i + 1, s.len() as int));
    let (t, k, v) = key_val_of(s)->0;
    assert(v == value);
    lemma_trimmed_within(raw);
    assert forall|j: int| 0 <= j < key.len() implies key[j] != '=' by {
        let idx = raw.len() - trim_start(raw).len() + j;
        assert(key[j] == raw[idx]);
        assert(raw[idx] == s[idx]);
    }
    assert(prefix_of(t) + k =~= key);
    let r = rendered(t, k, v);
    assert(r =~= key + seq!['='] + value);
    assert(first_eq_at(r, key.len() as int));
    let c = choose|c: int| first_eq_at(r, c);
    lemma_first_eq_unique(r, key.len() as int, c);
    assert(r.subrange(0, key.len() as int) =~= key);
    assert(r.subrange(key.len() + 1 as int, r.len() as int) =~= value);
    lemma_trim_idempotent(raw);
    lemma_trim_idempotent(s.subrange(i + 1, s.len() as int));
}

} // verus!
