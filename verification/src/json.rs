//! The parts of a JSON error body that the client reads.
//!
//! An error response may carry a human-readable message in one of several
//! shapes. [`Json`] holds what the lookup needs of a parsed body: object
//! members by key, string values, null, and the compact rendering of any
//! other value.

use vstd::prelude::*;

use crate::text::{same_text, trim, trimmed, truncate, truncated};

verus! {

/// A parsed JSON value, as far as the detail lookup reads it.
#[derive(Debug)]
pub enum Json {
    /// `null`.
    Null,
    /// A string.
    Text(String),
    /// An object: its members in order, and its compact rendering.
    Object { members: Vec<(String, Json)>, rendered: String },
    /// A number, boolean, or array, by its compact rendering.
    Other { rendered: String },
}

/// The value of the first member named `key`.
pub open spec fn member_of(members: Seq<(String, Json)>, key: Seq<char>) -> Option<Json>
    decreases members.len(),
{
    if members.len() == 0 {
        None
    } else if members[0].0@ == key {
        Some(members[0].1)
    } else {
        member_of(members.drop_first(), key)
    }
}

/// The value reached from `doc` by following object members named `path`.
pub open spec fn walk(doc: Json, path: Seq<Seq<char>>) -> Option<Json>
    decreases path.len(),
{
    if path.len() == 0 {
        Some(doc)
    } else {
        match doc {
            Json::Object { members, .. } => match member_of(members@, path[0]) {
                Some(next) => walk(next, path.drop_first()),
                None => None,
            },
            _ => None,
        }
    }
}

/// The text a value offers as a detail: a string as it is, null nothing, and
/// anything else its compact rendering.
pub open spec fn shown(j: Json) -> Option<Seq<char>> {
    match j {
        Json::Null => None,
        Json::Text(t) => Some(t@),
        Json::Object { rendered, .. } => Some(rendered@),
        Json::Other { rendered } => Some(rendered@),
    }
}

/// The text at `path` in `doc`, if the path leads to a value that offers one.
pub open spec fn shown_at(doc: Json, path: Seq<Seq<char>>) -> Option<Seq<char>> {
    match walk(doc, path) {
        Some(j) => shown(j),
        None => None,
    }
}

/// The places a message is looked for, in order: `detail.message` (the shape
/// the live API returns), `error.message`, `message`, `detail`, `error`.
pub open spec fn detail_paths() -> Seq<Seq<Seq<char>>> {
    seq![
        seq!["detail"@, "message"@],
        seq!["error"@, "message"@],
        seq!["message"@],
        seq!["detail"@],
        seq!["error"@],
    ]
}

/// The text at the first of `paths` that offers one.
pub open spec fn first_shown(doc: Json, paths: Seq<Seq<Seq<char>>>) -> Option<Seq<char>>
    decreases paths.len(),
{
    if paths.len() == 0 {
        None
    } else {
        match shown_at(doc, paths[0]) {
            Some(t) => Some(t),
            None => first_shown(doc, paths.drop_first()),
        }
    }
}

/// The human-readable detail of an error body `body` whose JSON parse is
/// `doc`: nothing for a blank body, the first message found in the
/// document, or else the body itself trimmed and cut to 300 characters.
pub open spec fn detail_of(body: Seq<char>, doc: Option<Json>) -> Option<Seq<char>> {
    if trimmed(body).len() == 0 {
        None
    } else {
        match doc {
            Some(d) => match first_shown(d, detail_paths()) {
                Some(t) => Some(t),
                None => Some(truncated(body, 300)),
            },
            None => Some(truncated(body, 300)),
        }
    }
}

/// The value of the first member named `key`.
pub fn member<'a>(members: &'a Vec<(String, Json)>, key: &str) -> (r: Option<&'a Json>)
    ensures
        match member_of(members@, key@) {
            Some(j) => r matches Some(v) && *v == j,
            None => r is None,
        },
{
    let n = members.len();
    let mut i: usize = 0;
    assert(members@.skip(0) =~= members@);
    while i < n
        invariant
            n == members@.len(),
            i <= n,
            member_of(members@, key@) == member_of(members@.skip(i as int), key@),
        decreases n - i,
    {
        proof {
            assert(members@.skip(i as int).drop_first() =~= members@.skip(i + 1));
        }
        if same_text(members[i].0.as_str(), key) {
            return Some(&members[i].1);
        }
        i = i + 1;
    }
    None
}

/// The value reached from `doc` by following `path`.
pub fn walk_path<'a>(doc: &'a Json, path: &[&str]) -> (r: Option<&'a Json>)
    ensures
        match walk(*doc, path@.map_values(|k: &str| k@)) {
            Some(j) => r matches Some(v) && *v == j,
            None => r is None,
        },
{
    let ghost keys = path@.map_values(|k: &str| k@);
    let mut cursor: &Json = doc;
    let mut i: usize = 0;
    let n = path.len();
    assert(keys.skip(0) =~= keys);
    while i < n
        invariant
            n == path@.len(),
            i <= n,
            keys == path@.map_values(|k: &str| k@),
            walk(*doc, keys) == walk(*cursor, keys.skip(i as int)),
        decreases n - i,
    {
        proof {
            assert(keys.skip(i as int).drop_first() =~= keys.skip(i + 1));
        }
        match cursor {
            Json::Object { members, .. } => match member(members, path[i]) {
                Some(next) => {
                    cursor = next;
                },
                None => {
                    return None;
                },
            },
            _ => {
                return None;
            },
        }
        i = i + 1;
    }
    proof {
        assert(keys.skip(n as int) =~= Seq::<Seq<char>>::empty());
    }
    Some(cursor)
}

/// The text a value offers as a detail.
fn shown_text(j: &Json) -> (r: Option<String>)
    ensures
        match shown(*j) {
            Some(t) => r matches Some(s) && s@ == t,
            None => r is None,
        },
{
    match j {
        Json::Null => None,
        Json::Text(t) => Some(t.clone()),
        Json::Object { rendered, .. } => Some(rendered.clone()),
        Json::Other { rendered } => Some(rendered.clone()),
    }
}

/// The text at `path` in `doc`, if any.
fn text_at(doc: &Json, path: &[&str]) -> (r: Option<String>)
    ensures
        match shown_at(*doc, path@.map_values(|k: &str| k@)) {
            Some(t) => r matches Some(s) && s@ == t,
            None => r is None,
        },
{
    match walk_path(doc, path) {
        Some(j) => shown_text(j),
        None => None,
    }
}

/// The first message in `doc` at one of the detail paths.
fn first_text(doc: &Json) -> (r: Option<String>)
    ensures
        match first_shown(*doc, detail_paths()) {
            Some(t) => r matches Some(s) && s@ == t,
            None => r is None,
        },
{
    let p0: [&str; 2] = ["detail", "message"];
    let p1: [&str; 2] = ["error", "message"];
    let p2: [&str; 1] = ["message"];
    let p3: [&str; 1] = ["detail"];
    let p4: [&str; 1] = ["error"];
    let ghost paths = detail_paths();
    proof {
        assert(p0@.map_values(|k: &str| k@) =~= paths[0]);
        assert(p1@.map_values(|k: &str| k@) =~= paths[1]);
        assert(p2@.map_values(|k: &str| k@) =~= paths[2]);
        assert(p3@.map_values(|k: &str| k@) =~= paths[3]);
        assert(p4@.map_values(|k: &str| k@) =~= paths[4]);
        assert(paths.drop_first().drop_first().drop_first().drop_first().drop_first().len() == 0);
        reveal_with_fuel(first_shown, 6);
    }
    if let Some(t) = text_at(doc, p0.as_slice()) {
        return Some(t);
    }
    if let Some(t) = text_at(doc, p1.as_slice()) {
        return Some(t);
    }
    if let Some(t) = text_at(doc, p2.as_slice()) {
        return Some(t);
    }
    if let Some(t) = text_at(doc, p3.as_slice()) {
        return Some(t);
    }
    text_at(doc, p4.as_slice())
}

/// What `serde_json` parses `body` into, as a [`Json`]: `None` when the
/// body is not JSON.
pub uninterp spec fn json_of(body: Seq<char>) -> Option<Json>;

/// Trusted: parses `body` with `serde_json::from_str::<serde_json::Value>`
/// and hands the value over as a [`Json`]; a parse error becomes `None`.
/// The contract only names the result: the grammar of JSON is left to
/// `serde_json`.
#[verifier::external_body]
fn parse_json(body: &str) -> (doc: Option<Json>)
    ensures
        doc == json_of(body@),
{
    serde_json::from_str::<serde_json::Value>(body).ok().map(|v| json_from_value(&v))
}

/// Trusted: the variant-for-variant copy of a `serde_json::Value` that
/// [`parse_json`] hands back: null, strings and objects (members in the
/// map's order, with `to_string` as the rendering) as they are, anything
/// else by its `to_string`. It states nothing of its own.
#[verifier::external_body]
fn json_from_value(v: &serde_json::Value) -> Json {
    match v {
        serde_json::Value::Null => Json::Null,
        serde_json::Value::String(s) => Json::Text(s.clone()),
        serde_json::Value::Object(m) => Json::Object {
            members: m.iter().map(|(k, x)| (k.clone(), json_from_value(x))).collect(),
            rendered: v.to_string(),
        },
        other => Json::Other { rendered: other.to_string() },
    }
}

/// The detail of an error body `body` given its JSON parse `doc` (`None`
/// when the body is not JSON): nothing for a blank body, the first message
/// found in the document, or else the body trimmed and cut to 300
/// characters.
pub fn detail_from(body: &str, doc: Option<&Json>) -> (r: Option<String>)
    ensures
        match detail_of(body@, match doc {
            Some(d) => Some(*d),
            None => None,
        }) {
            Some(t) => r matches Some(s) && s@ == t,
            None => r is None,
        },
{
    let t = trim(body);
    if t.as_str().unicode_len() == 0 {
        return None;
    }
    if let Some(d) = doc {
        if let Some(found) = first_text(d) {
            return Some(found);
        }
    }
    Some(truncate(body, 300))
}

/// Pull a human-readable message out of an error body, whatever shape it
/// takes: a non-blank body is parsed as JSON and searched for a message.
pub fn extract_detail(body: &str) -> (r: Option<String>)
    ensures
        match detail_of(body@, json_of(body@)) {
            Some(t) => r matches Some(s) && s@ == t,
            None => r is None,
        },
{
    let t = trim(body);
    if t.as_str().unicode_len() == 0 {
        return None;
    }
    let doc = parse_json(body);
    detail_from(body, doc.as_ref())
}

} // verus!
