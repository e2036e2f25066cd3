//! JSON values as the platform's responses carry them, and the lookups that
//! pull timestamps, identifiers and titles out of them.
use vstd::prelude::*;

use crate::text::{trim_text, trimmed};
use crate::timestamp::{normalize_timestamp_seconds, seconds_of};
use crate::version::{chars_of, parse_u64_text, u64_of_text};

verus! {

/// A JSON number: a non-negative integer, a negative integer, or a number
/// with a fraction or exponent (which no lookup here reads).
#[derive(Clone, Debug)]
pub enum JsonNumber {
    PosInt(u64),
    NegInt(i64),
    Float,
}

/// A JSON value. An object keeps its entries in order.
#[derive(Debug)]
pub enum Json {
    Null,
    Bool(bool),
    Number(JsonNumber),
    String(String),
    Array(Vec<Json>),
    Object(Vec<(String, Json)>),
}

/// The value of the first entry named `key`.
pub open spec fn entry_value(entries: Seq<(String, Json)>, key: Seq<char>) -> Option<Json>
    decreases entries.len(),
{
    if entries.len() == 0 {
        None
    } else if entries[0].0@ == key {
        Some(entries[0].1)
    } else {
        entry_value(entries.drop_first(), key)
    }
}

/// The texts of a list of keys.
pub open spec fn key_texts(keys: Seq<&str>) -> Seq<Seq<char>> {
    Seq::new(keys.len(), |i: int| keys[i]@)
}

impl Json {
    /// The member `key` of an object; nothing for any other value.
    pub open spec fn member(self, key: Seq<char>) -> Option<Json> {
        match self {
            Json::Object(entries) => entry_value(entries@, key),
            _ => None,
        }
    }

    /// The value as an unsigned 64-bit integer, where it is one.
    pub open spec fn as_u64_spec(self) -> Option<u64> {
        match self {
            Json::Number(JsonNumber::PosInt(n)) => Some(n),
            _ => None,
        }
    }

    /// The value as a signed 64-bit integer, where it is one.
    pub open spec fn as_i64_spec(self) -> Option<i64> {
        match self {
            Json::Number(JsonNumber::PosInt(n)) => if n <= i64::MAX as u64 {
                Some(n as i64)
            } else {
                None
            },
            Json::Number(JsonNumber::NegInt(n)) => Some(n),
            _ => None,
        }
    }

    /// The text of a string value.
    pub open spec fn as_str_spec(self) -> Option<Seq<char>> {
        match self {
            Json::String(s) => Some(s@),
            _ => None,
        }
    }

    /// The member `key` of an object.
    pub fn get(&self, key: &str) -> (r: Option<&Json>)
        ensures
            match r {
                Some(v) => self.member(key@) == Some(*v),
                None => self.member(key@) is None,
            },
    {
        match self {
            Json::Object(entries) => {
                let wanted = String::from_str(key);
                let mut k: usize = 0;
                proof {
                    assert(entries@.skip(0) =~= entries@);
                }
                while k < entries.len()
                    invariant
                        self.member(key@) == entry_value(entries@, key@),
                        wanted@ == key@,
                        k <= entries@.len(),
                        entry_value(entries@, key@) == entry_value(entries@.skip(k as int), key@),
                    decreases entries@.len() - k,
                {
                    proof {
                        assert(entries@.skip(k as int).drop_first() =~= entries@.skip(k + 1));
                        assert(entries@.skip(k as int)[0] == entries@[k as int]);
                    }
                    if entries[k].0 == wanted {
                        return Some(&entries[k].1);
                    }
                    k = k + 1;
                }
                None
            },
            _ => None,
        }
    }

    /// The value as an unsigned 64-bit integer, where it is one.
    pub fn as_u64(&self) -> (r: Option<u64>)
        ensures
            r == self.as_u64_spec(),
    {
        match self {
            Json::Number(JsonNumber::PosInt(n)) => Some(*n),
            _ => None,
        }
    }

    /// The value as a signed 64-bit integer, where it is one.
    pub fn as_i64(&self) -> (r: Option<i64>)
        ensures
            r == self.as_i64_spec(),
    {
        match self {
            Json::Number(JsonNumber::PosInt(n)) => if *n <= i64::MAX as u64 {
                Some(*n as i64)
            } else {
                None
            },
            Json::Number(JsonNumber::NegInt(n)) => Some(*n),
            _ => None,
        }
    }

    /// The text of a string value.
    pub fn as_str(&self) -> (r: Option<&str>)
        ensures
            match r {
                Some(s) => self.as_str_spec() == Some(s@),
                None => self.as_str_spec() is None,
            },
    {
        match self {
            Json::String(s) => Some(s.as_str()),
            _ => None,
        }
    }
}

/// What a value says as a count or identifier: an unsigned integer, a
/// positive signed one, or a string holding a decimal number.
pub open spec fn u64_reading(v: Json) -> Option<u64> {
    if v.as_u64_spec() is Some {
        v.as_u64_spec()
    } else if v.as_i64_spec() is Some && v.as_i64_spec()->0 > 0 {
        Some(v.as_i64_spec()->0 as u64)
    } else if v.as_str_spec() is Some {
        u64_of_text(v.as_str_spec()->0)
    } else {
        None
    }
}

/// The first of `keys`, in order, whose member of `v` reads as a number.
pub open spec fn u64_by_keys(v: Json, keys: Seq<Seq<char>>) -> Option<u64>
    decreases keys.len(),
{
    if keys.len() == 0 {
        None
    } else {
        match v.member(keys[0]) {
            Some(x) if u64_reading(x) is Some => u64_reading(x),
            _ => u64_by_keys(v, keys.drop_first()),
        }
    }
}

/// The first of `keys`, in order, whose member of `v` is a non-empty string.
pub open spec fn str_by_keys(v: Json, keys: Seq<Seq<char>>) -> Option<Seq<char>>
    decreases keys.len(),
{
    if keys.len() == 0 {
        None
    } else {
        match v.member(keys[0]) {
            Some(x) if x.as_str_spec() is Some && x.as_str_spec()->0.len() > 0 => x.as_str_spec(),
            _ => str_by_keys(v, keys.drop_first()),
        }
    }
}

/// The number `v` reads as, from the first of `candidates` that gives one.
pub fn json_u64_candidates(value: &Json, candidates: &[&str]) -> (r: Option<u64>)
    ensures
        r == u64_by_keys(*value, key_texts(candidates@)),
{
    let ghost keys = key_texts(candidates@);
    let mut k: usize = 0;
    proof {
        assert(keys.skip(0) =~= keys);
    }
    while k < candidates.len()
        invariant
            keys == key_texts(candidates@),
            k <= candidates@.len(),
            u64_by_keys(*value, keys) == u64_by_keys(*value, keys.skip(k as int)),
        decreases candidates@.len() - k,
    {
        proof {
            assert(keys.skip(k as int).drop_first() =~= keys.skip(k + 1));
            assert(keys.skip(k as int)[0] == candidates@[k as int]@);
        }
        let key: &str = candidates[k];
        match value.get(key) {
            Some(v) => {
                match v.as_u64() {
                    Some(n) => {
                        return Some(n);
                    },
                    None => {},
                }
                match v.as_i64() {
                    Some(n) => {
                        if n > 0 {
                            return Some(n as u64);
                        }
                    },
                    None => {},
                }
                match v.as_str() {
                    Some(s) => {
                        let cs = chars_of(s);
                        match parse_u64_text(&cs) {
                            Some(n) => {
                                return Some(n);
                            },
                            None => {},
                        }
                    },
                    None => {},
                }
            },
            None => {},
        }
        k = k + 1;
    }
    proof {
        assert(keys.skip(k as int) =~= Seq::<Seq<char>>::empty());
    }
    None
}

/// The first non-empty string among the members `candidates` of `value`.
pub fn json_str_candidates(value: &Json, candidates: &[&str]) -> (r: Option<String>)
    ensures
        match r {
            Some(s) => str_by_keys(*value, key_texts(candidates@)) == Some(s@),
            None => str_by_keys(*value, key_texts(candidates@)) is None,
        },
{
    let ghost keys = key_texts(candidates@);
    let mut k: usize = 0;
    proof {
        assert(keys.skip(0) =~= keys);
    }
    while k < candidates.len()
        invariant
            keys == key_texts(candidates@),
            k <= candidates@.len(),
            str_by_keys(*value, keys) == str_by_keys(*value, keys.skip(k as int)),
        decreases candidates@.len() - k,
    {
        proof {
            assert(keys.skip(k as int).drop_first() =~= keys.skip(k + 1));
            assert(keys.skip(k as int)[0] == candidates@[k as int]@);
        }
        let key: &str = candidates[k];
        match value.get(key) {
            Some(v) => match v.as_str() {
                Some(s) => {
                    if !s.is_empty() {
                        return Some(String::from_str(s));
                    }
                },
                None => {},
            },
            None => {},
        }
        k = k + 1;
    }
    proof {
        assert(keys.skip(k as int) =~= Seq::<Seq<char>>::empty());
    }
    None
}

/// Seconds since the epoch that chrono reads from an RFC 3339 date and time.
pub uninterp spec fn rfc3339_seconds(s: Seq<char>) -> Option<i64>;

/// Seconds since the epoch that chrono reads from a date and time in format
/// `fmt`, taken as UTC.
pub uninterp spec fn formatted_utc_seconds(s: Seq<char>, fmt: Seq<char>) -> Option<i64>;

/// Relies on `chrono::DateTime::parse_from_rfc3339` and
/// `DateTime::timestamp`: the instant written, as seconds since the epoch,
/// where the text is an RFC 3339 date and time; a function of the text alone.
#[verifier::external_body]
fn parse_rfc3339_seconds(s: &str) -> (r: Option<i64>)
    ensures
        r == rfc3339_seconds(s@),
{
    match chrono::DateTime::parse_from_rfc3339(s) {
        Ok(dt) => Some(dt.timestamp()),
        Err(_) => None,
    }
}

/// Relies on `chrono::NaiveDateTime::parse_from_str`, `and_utc` and
/// `timestamp`: the instant written in format `fmt`, read as UTC, as seconds
/// since the epoch; a function of the text and the format alone.
#[verifier::external_body]
fn parse_formatted_utc_seconds(s: &str, fmt: &str) -> (r: Option<i64>)
    ensures
        r == formatted_utc_seconds(s@, fmt@),
{
    match chrono::NaiveDateTime::parse_from_str(s, fmt) {
        Ok(dt) => Some(dt.and_utc().timestamp()),
        Err(_) => None,
    }
}

/// The first date layout tried after RFC 3339.
pub const DASHED_DATE_TIME: &'static str = "%Y-%m-%d %H:%M:%S";

/// The second date layout tried after RFC 3339.
pub const SLASHED_DATE_TIME: &'static str = "%Y/%m/%d %H:%M:%S";

/// Negative instants count as the epoch.
pub open spec fn clamp_to_epoch(t: i64) -> u64 {
    if t < 0 {
        0
    } else {
        t as u64
    }
}

/// The timestamp a (trimmed) text gives: a decimal number, normalized to
/// seconds, or a date and time in RFC 3339 or one of the two layouts.
pub open spec fn text_timestamp(t: Seq<char>) -> Option<u64> {
    if t.len() == 0 {
        None
    } else if u64_of_text(t) is Some {
        seconds_of(u64_of_text(t)->0)
    } else if rfc3339_seconds(t) is Some {
        Some(clamp_to_epoch(rfc3339_seconds(t)->0))
    } else if formatted_utc_seconds(t, DASHED_DATE_TIME@) is Some {
        Some(clamp_to_epoch(formatted_utc_seconds(t, DASHED_DATE_TIME@)->0))
    } else if formatted_utc_seconds(t, SLASHED_DATE_TIME@) is Some {
        Some(clamp_to_epoch(formatted_utc_seconds(t, SLASHED_DATE_TIME@)->0))
    } else {
        None
    }
}

/// The timestamp, in seconds, a value gives: a number normalized to seconds,
/// or a string read as `text_timestamp` reads it once trimmed.
pub open spec fn timestamp_reading(v: Json) -> Option<u64> {
    if v.as_u64_spec() is Some {
        seconds_of(v.as_u64_spec()->0)
    } else if v.as_i64_spec() is Some && v.as_i64_spec()->0 > 0 {
        seconds_of(v.as_i64_spec()->0 as u64)
    } else if v.as_str_spec() is Some {
        text_timestamp(trimmed(v.as_str_spec()->0))
    } else {
        None
    }
}

/// Seconds since the epoch for a `u64`, a positive `i64`, or a string holding
/// a number or a date and time.
pub fn parse_timestamp_like_value(value: &Json) -> (r: Option<u64>)
    ensures
        r == timestamp_reading(*value),
{
    match value.as_u64() {
        Some(n) => {
            return normalize_timestamp_seconds(n);
        },
        None => {},
    }
    match value.as_i64() {
        Some(n) => {
            if n > 0 {
                return normalize_timestamp_seconds(n as u64);
            }
        },
        None => {},
    }
    match value.as_str() {
        Some(s) => {
            let t = trim_text(s);
            if t.is_empty() {
                return None;
            }
            let cs = chars_of(t);
            match parse_u64_text(&cs) {
                Some(n) => {
                    return normalize_timestamp_seconds(n);
                },
                None => {},
            }
            match parse_rfc3339_seconds(t) {
                Some(x) => {
                    return Some(if x < 0 { 0 } else { x as u64 });
                },
                None => {},
            }
            match parse_formatted_utc_seconds(t, DASHED_DATE_TIME) {
                Some(x) => {
                    return Some(if x < 0 { 0 } else { x as u64 });
                },
                None => {},
            }
            match parse_formatted_utc_seconds(t, SLASHED_DATE_TIME) {
                Some(x) => {
                    return Some(if x < 0 { 0 } else { x as u64 });
                },
                None => {},
            }
            None
        },
        None => None,
    }
}

/// The first of `keys`, in order, whose member of `v` reads as a timestamp.
pub open spec fn timestamp_by_keys(v: Json, keys: Seq<Seq<char>>) -> Option<u64>
    decreases keys.len(),
{
    if keys.len() == 0 {
        None
    } else {
        match v.member(keys[0]) {
            Some(x) if timestamp_reading(x) is Some => timestamp_reading(x),
            _ => timestamp_by_keys(v, keys.drop_first()),
        }
    }
}

/// The first of `keys`, in order, whose member of `v` is a string that is
/// not blank; the string trimmed.
pub open spec fn trimmed_str_by_keys(v: Json, keys: Seq<Seq<char>>) -> Option<Seq<char>>
    decreases keys.len(),
{
    if keys.len() == 0 {
        None
    } else {
        match v.member(keys[0]) {
            Some(x) if x.as_str_spec() is Some && trimmed(x.as_str_spec()->0).len() > 0 => Some(
                trimmed(x.as_str_spec()->0),
            ),
            _ => trimmed_str_by_keys(v, keys.drop_first()),
        }
    }
}

/// Searches `v` to `depth` levels: an object's own `keys` first, then its
/// members in order; an array's items in order. The first timestamp found.
pub open spec fn find_timestamp(v: Json, keys: Seq<Seq<char>>, depth: nat) -> Option<u64>
    decreases depth, 0nat, 0int,
{
    if depth == 0 {
        None
    } else {
        match v {
            Json::Object(entries) => if timestamp_by_keys(v, keys) is Some {
                timestamp_by_keys(v, keys)
            } else {
                find_timestamp_in_members(entries@, keys, (depth - 1) as nat, 0)
            },
            Json::Array(items) => find_timestamp_in_items(items@, keys, (depth - 1) as nat, 0),
            _ => None,
        }
    }
}

/// `find_timestamp` over the members of an object from position `i` on.
pub open spec fn find_timestamp_in_members(
    entries: Seq<(String, Json)>,
    keys: Seq<Seq<char>>,
    depth: nat,
    i: int,
) -> Option<u64>
    decreases depth, 1nat, entries.len() - i,
{
    if i < 0 || i >= entries.len() {
        None
    } else if find_timestamp(entries[i].1, keys, depth) is Some {
        find_timestamp(entries[i].1, keys, depth)
    } else {
        find_timestamp_in_members(entries, keys, depth, i + 1)
    }
}

/// `find_timestamp` over the items of an array from position `i` on.
pub open spec fn find_timestamp_in_items(items: Seq<Json>, keys: Seq<Seq<char>>, depth: nat, i: int) -> Option<u64>
    decreases depth, 1nat, items.len() - i,
{
    if i < 0 || i >= items.len() {
        None
    } else if find_timestamp(items[i], keys, depth) is Some {
        find_timestamp(items[i], keys, depth)
    } else {
        find_timestamp_in_items(items, keys, depth, i + 1)
    }
}

/// Searches `v` to `depth` levels as `find_timestamp` does, for a string
/// that is not blank; the string trimmed.
pub open spec fn find_string(v: Json, keys: Seq<Seq<char>>, depth: nat) -> Option<Seq<char>>
    decreases depth, 0nat, 0int,
{
    if depth == 0 {
        None
    } else {
        match v {
            Json::Object(entries) => if trimmed_str_by_keys(v, keys) is Some {
                trimmed_str_by_keys(v, keys)
            } else {
                find_string_in_members(entries@, keys, (depth - 1) as nat, 0)
            },
            Json::Array(items) => find_string_in_items(items@, keys, (depth - 1) as nat, 0),
            _ => None,
        }
    }
}

/// `find_string` over the members of an object from position `i` on.
pub open spec fn find_string_in_members(
    entries: Seq<(String, Json)>,
    keys: Seq<Seq<char>>,
    depth: nat,
    i: int,
) -> Option<Seq<char>>
    decreases depth, 1nat, entries.len() - i,
{
    if i < 0 || i >= entries.len() {
        None
    } else if find_string(entries[i].1, keys, depth) is Some {
        find_string(entries[i].1, keys, depth)
    } else {
        find_string_in_members(entries, keys, depth, i + 1)
    }
}

/// `find_string` over the items of an array from position `i` on.
pub open spec fn find_string_in_items(items: Seq<Json>, keys: Seq<Seq<char>>, depth: nat, i: int) -> Option<Seq<char>>
    decreases depth, 1nat, items.len() - i,
{
    if i < 0 || i >= items.len() {
        None
    } else if find_string(items[i], keys, depth) is Some {
        find_string(items[i], keys, depth)
    } else {
        find_string_in_items(items, keys, depth, i + 1)
    }
}

/// The first timestamp among the members `candidates` of an object.
fn timestamp_candidates(value: &Json, candidates: &[&str]) -> (r: Option<u64>)
    ensures
        r == timestamp_by_keys(*value, key_texts(candidates@)),
{
    let ghost keys = key_texts(candidates@);
    let mut k: usize = 0;
    proof {
        assert(keys.skip(0) =~= keys);
    }
    while k < candidates.len()
        invariant
            keys == key_texts(candidates@),
            k <= candidates@.len(),
            timestamp_by_keys(*value, keys) == timestamp_by_keys(*value, keys.skip(k as int)),
        decreases candidates@.len() - k,
    {
        proof {
            assert(keys.skip(k as int).drop_first() =~= keys.skip(k + 1));
            assert(keys.skip(k as int)[0] == candidates@[k as int]@);
        }
        let key: &str = candidates[k];
        match value.get(key) {
            Some(v) => match parse_timestamp_like_value(v) {
                Some(ts) => {
                    return Some(ts);
                },
                None => {},
            },
            None => {},
        }
        k = k + 1;
    }
    proof {
        assert(keys.skip(k as int) =~= Seq::<Seq<char>>::empty());
    }
    None
}

/// The first string that is not blank among the members `candidates` of an
/// object, trimmed.
fn trimmed_str_candidates(value: &Json, candidates: &[&str]) -> (r: Option<String>)
    ensures
        match r {
            Some(s) => trimmed_str_by_keys(*value, key_texts(candidates@)) == Some(s@),
            None => trimmed_str_by_keys(*value, key_texts(candidates@)) is None,
        },
{
    let ghost keys = key_texts(candidates@);
    let mut k: usize = 0;
    proof {
        assert(keys.skip(0) =~= keys);
    }
    while k < candidates.len()
        invariant
            keys == key_texts(candidates@),
            k <= candidates@.len(),
            trimmed_str_by_keys(*value, keys) == trimmed_str_by_keys(*value, keys.skip(k as int)),
        decreases candidates@.len() - k,
    {
        proof {
            assert(keys.skip(k as int).drop_first() =~= keys.skip(k + 1));
            assert(keys.skip(k as int)[0] == candidates@[k as int]@);
        }
        let key: &str = candidates[k];
        match value.get(key) {
            Some(v) => match v.as_str() {
                Some(s) => {
                    let t = trim_text(s);
                    if !t.is_empty() {
                        return Some(String::from_str(t));
                    }
                },
                None => {},
            },
            None => {},
        }
        k = k + 1;
    }
    proof {
        assert(keys.skip(k as int) =~= Seq::<Seq<char>>::empty());
    }
    None
}

/// Searches `value` to `depth` levels for a timestamp under one of
/// `candidates`: an object's own members first, then inside each member in
/// order; an array's items in order.
pub fn recursive_find_timestamp_by_keys(value: &Json, candidates: &[&str], depth: usize) -> (r: Option<u64>)
    ensures
        r == find_timestamp(*value, key_texts(candidates@), depth as nat),
    decreases depth,
{
    if depth == 0 {
        return None;
    }
    let ghost keys = key_texts(candidates@);
    match value {
        Json::Object(entries) => {
            match timestamp_candidates(value, candidates) {
                Some(ts) => {
                    return Some(ts);
                },
                None => {},
            }
            let mut k: usize = 0;
            while k < entries.len()
                invariant
                    keys == key_texts(candidates@),
                    depth >= 1,
                    k <= entries@.len(),
                    find_timestamp(*value, keys, depth as nat) == find_timestamp_in_members(
                        entries@,
                        keys,
                        (depth - 1) as nat,
                        k as int,
                    ),
                decreases entries@.len() - k,
            {
                match recursive_find_timestamp_by_keys(&entries[k].1, candidates, depth - 1) {
                    Some(ts) => {
                        return Some(ts);
                    },
                    None => {},
                }
                k = k + 1;
            }
            None
        },
        Json::Array(items) => {
            let mut k: usize = 0;
            while k < items.len()
                invariant
                    keys == key_texts(candidates@),
                    depth >= 1,
                    k <= items@.len(),
                    find_timestamp(*value, keys, depth as nat) == find_timestamp_in_items(
                        items@,
                        keys,
                        (depth - 1) as nat,
                        k as int,
                    ),
                decreases items@.len() - k,
            {
                match recursive_find_timestamp_by_keys(&items[k], candidates, depth - 1) {
                    Some(ts) => {
                        return Some(ts);
                    },
                    None => {},
                }
                k = k + 1;
            }
            None
        },
        _ => None,
    }
}

/// Searches `value` to `depth` levels, as `recursive_find_timestamp_by_keys`
/// does, for a string that is not blank under one of `candidates`; the
/// string trimmed.
pub fn recursive_find_string_by_keys(value: &Json, candidates: &[&str], depth: usize) -> (r: Option<String>)
    ensures
        match r {
            Some(s) => find_string(*value, key_texts(candidates@), depth as nat) == Some(s@),
            None => find_string(*value, key_texts(candidates@), depth as nat) is None,
        },
    decreases depth,
{
    if depth == 0 {
        return None;
    }
    let ghost keys = key_texts(candidates@);
    match value {
        Json::Object(entries) => {
            match trimmed_str_candidates(value, candidates) {
                Some(s) => {
                    return Some(s);
                },
                None => {},
            }
            let mut k: usize = 0;
            while k < entries.len()
                invariant
                    keys == key_texts(candidates@),
                    depth >= 1,
                    k <= entries@.len(),
                    find_string(*value, keys, depth as nat) == find_string_in_members(
                        entries@,
                        keys,
                        (depth - 1) as nat,
                        k as int,
                    ),
                decreases entries@.len() - k,
            {
                match recursive_find_string_by_keys(&entries[k].1, candidates, depth - 1) {
                    Some(s) => {
                        return Some(s);
                    },
                    None => {},
                }
                k = k + 1;
            }
            None
        },
        Json::Array(items) => {
            let mut k: usize = 0;
            while k < items.len()
                invariant
                    keys == key_texts(candidates@),
                    depth >= 1,
                    k <= items@.len(),
                    find_string(*value, keys, depth as nat) == find_string_in_items(
                        items@,
                        keys,
                        (depth - 1) as nat,
                        k as int,
                    ),
                decreases items@.len() - k,
            {
                match recursive_find_string_by_keys(&items[k], candidates, depth - 1) {
                    Some(s) => {
                        return Some(s);
                    },
                    None => {},
                }
                k = k + 1;
            }
            None
        },
        _ => None,
    }
}

/// Keys under which a scheduled publication time appears.
pub open spec fn schedule_keys() -> Seq<Seq<char>> {
    seq!["dtime"@, "delay_time"@, "delay_pub_time"@, "delay_pubtime"@]
}

/// Keys under which a publication time appears.
pub open spec fn publish_keys() -> Seq<Seq<char>> {
    seq!["publish_time"@, "pub_time"@, "pubtime"@, "pubdate"@]
}

/// Keys under which a collection's title appears in an archive item.
pub open spec fn season_title_keys() -> Seq<Seq<char>> {
    seq![
        "season_title"@,
        "season_name"@,
        "seasonTitle"@,
        "collection_title"@,
        "series_title"@,
        "channel_name"@,
    ]
}

/// Members searched last for a scheduled time.
pub open spec fn schedule_holders() -> Seq<Seq<char>> {
    seq!["arc"@, "archive"@, "publish"@, "meta"@]
}

/// Depth to which episodes and archive items are searched.
pub const SEARCH_DEPTH: usize = 4;

fn schedule_key_list() -> (r: Vec<&'static str>)
    ensures
        key_texts(r@) == schedule_keys(),
{
    let r = vec!["dtime", "delay_time", "delay_pub_time", "delay_pubtime"];
    proof {
        assert(key_texts(r@) =~= schedule_keys());
    }
    r
}

fn publish_key_list() -> (r: Vec<&'static str>)
    ensures
        key_texts(r@) == publish_keys(),
{
    let r = vec!["publish_time", "pub_time", "pubtime", "pubdate"];
    proof {
        assert(key_texts(r@) =~= publish_keys());
    }
    r
}

fn season_title_key_list() -> (r: Vec<&'static str>)
    ensures
        key_texts(r@) == season_title_keys(),
{
    let r = vec![
        "season_title",
        "season_name",
        "seasonTitle",
        "collection_title",
        "series_title",
        "channel_name",
    ];
    proof {
        assert(key_texts(r@) =~= season_title_keys());
    }
    r
}

/// The number found among `keys` inside the member `holder` of `v`.
pub open spec fn u64_in_member(v: Json, holder: Seq<char>, keys: Seq<Seq<char>>) -> Option<u64> {
    match v.member(holder) {
        Some(o) => u64_by_keys(o, keys),
        None => None,
    }
}

/// The non-empty string found among `keys` inside the member `holder` of `v`.
pub open spec fn str_in_member(v: Json, holder: Seq<char>, keys: Seq<Seq<char>>) -> Option<Seq<char>> {
    match v.member(holder) {
        Some(o) => str_by_keys(o, keys),
        None => None,
    }
}

pub(crate) fn member_u64_candidates(v: &Json, holder: &str, candidates: &[&str]) -> (r: Option<u64>)
    ensures
        r == u64_in_member(*v, holder@, key_texts(candidates@)),
{
    match v.get(holder) {
        Some(o) => json_u64_candidates(o, candidates),
        None => None,
    }
}

pub(crate) fn member_str_candidates(v: &Json, holder: &str, candidates: &[&str]) -> (r: Option<String>)
    ensures
        match r {
            Some(s) => str_in_member(*v, holder@, key_texts(candidates@)) == Some(s@),
            None => str_in_member(*v, holder@, key_texts(candidates@)) is None,
        },
{
    match v.get(holder) {
        Some(o) => json_str_candidates(o, candidates),
        None => None,
    }
}

/// The first value that is present.
pub open spec fn first_some<T>(a: Option<T>, b: Option<T>) -> Option<T> {
    if a is Some {
        a
    } else {
        b
    }
}

/// The time a number found under `keys` in `ep`, in its `arc` or in its
/// `publish` member gives, normalized to seconds.
pub open spec fn listed_time(ep: Json, keys: Seq<Seq<char>>) -> Option<u64> {
    let raw = first_some(
        u64_by_keys(ep, keys),
        first_some(u64_in_member(ep, "arc"@, keys), u64_in_member(ep, "publish"@, keys)),
    );
    match raw {
        Some(t) => seconds_of(t),
        None => None,
    }
}

/// The last resort for a scheduled time: the first of `holders` whose
/// member carries a number under a schedule key, normalized.
pub open spec fn schedule_in_holders(ep: Json, holders: Seq<Seq<char>>) -> Option<u64>
    decreases holders.len(),
{
    if holders.len() == 0 {
        None
    } else if u64_in_member(ep, holders[0], schedule_keys()) is Some {
        seconds_of(u64_in_member(ep, holders[0], schedule_keys())->0)
    } else {
        schedule_in_holders(ep, holders.drop_first())
    }
}

/// An episode's scheduled publication time: listed directly or in `arc` or
/// `publish`; else found within four levels; else under one of the holders.
pub open spec fn scheduled_time(ep: Json) -> Option<u64> {
    first_some(
        listed_time(ep, schedule_keys()),
        first_some(
            find_timestamp(ep, schedule_keys(), SEARCH_DEPTH as nat),
            schedule_in_holders(ep, schedule_holders()),
        ),
    )
}

/// An episode's publication time: listed directly or in `arc` or `publish`,
/// else found within four levels.
pub open spec fn published_time(ep: Json) -> Option<u64> {
    first_some(
        listed_time(ep, publish_keys()),
        find_timestamp(ep, publish_keys(), SEARCH_DEPTH as nat),
    )
}

fn listed_time_of(ep: &Json, keys: &[&str]) -> (r: Option<u64>)
    ensures
        r == listed_time(*ep, key_texts(keys@)),
{
    let raw = match json_u64_candidates(ep, keys) {
        Some(t) => Some(t),
        None => match member_u64_candidates(ep, "arc", keys) {
            Some(t) => Some(t),
            None => member_u64_candidates(ep, "publish", keys),
        },
    };
    match raw {
        Some(t) => normalize_timestamp_seconds(t),
        None => None,
    }
}

/// The scheduled publication time of an episode or archive item, in seconds.
pub fn extract_episode_scheduled_dtime(episode: &Json) -> (r: Option<u64>)
    ensures
        r == scheduled_time(*episode),
{
    let keys = schedule_key_list();
    match listed_time_of(episode, keys.as_slice()) {
        Some(t) => {
            return Some(t);
        },
        None => {},
    }
    match recursive_find_timestamp_by_keys(episode, keys.as_slice(), SEARCH_DEPTH) {
        Some(t) => {
            return Some(t);
        },
        None => {},
    }
    let holders = vec!["arc", "archive", "publish", "meta"];
    let ghost hs = schedule_holders();
    proof {
        assert(key_texts(holders@) =~= hs);
        assert(hs.skip(0) =~= hs);
    }
    let mut k: usize = 0;
    while k < holders.len()
        invariant
            key_texts(holders@) == hs,
            key_texts(keys@) == schedule_keys(),
            hs == schedule_holders(),
            listed_time(*episode, schedule_keys()) is None,
            find_timestamp(*episode, schedule_keys(), SEARCH_DEPTH as nat) is None,
            k <= holders@.len(),
            schedule_in_holders(*episode, hs) == schedule_in_holders(*episode, hs.skip(k as int)),
        decreases holders@.len() - k,
    {
        proof {
            assert(hs.skip(k as int).drop_first() =~= hs.skip(k + 1));
            assert(hs.skip(k as int)[0] == holders@[k as int]@);
        }
        match member_u64_candidates(episode, holders[k], keys.as_slice()) {
            Some(ts) => {
                return normalize_timestamp_seconds(ts);
            },
            None => {},
        }
        k = k + 1;
    }
    proof {
        assert(hs.skip(k as int) =~= Seq::<Seq<char>>::empty());
    }
    None
}

/// The publication time of an episode or archive item, in seconds.
pub fn extract_episode_published_time(episode: &Json) -> (r: Option<u64>)
    ensures
        r == published_time(*episode),
{
    let keys = publish_key_list();
    match listed_time_of(episode, keys.as_slice()) {
        Some(t) => Some(t),
        None => recursive_find_timestamp_by_keys(episode, keys.as_slice(), SEARCH_DEPTH),
    }
}

/// The collection an archive item belongs to: its own `season_id`, else the
/// id in its `season` or `season_info` member, else the `season_id` in its
/// `archive` or `Archive` member.
pub open spec fn season_id_of(item: Json) -> Option<u64> {
    let own = seq!["season_id"@, "seasonId"@];
    let nested = seq!["id"@, "season_id"@, "seasonId"@];
    first_some(
        u64_by_keys(item, own),
        first_some(
            u64_in_member(item, "season"@, nested),
            first_some(
                u64_in_member(item, "season_info"@, nested),
                first_some(
                    u64_in_member(item, "archive"@, own),
                    u64_in_member(item, "Archive"@, own),
                ),
            ),
        ),
    )
}

/// The collection id of an archive item.
pub fn extract_season_id_from_archive_item(item: &Json) -> (r: Option<u64>)
    ensures
        r == season_id_of(*item),
{
    let own = vec!["season_id", "seasonId"];
    let nested = vec!["id", "season_id", "seasonId"];
    proof {
        assert(key_texts(own@) =~= seq!["season_id"@, "seasonId"@]);
        assert(key_texts(nested@) =~= seq!["id"@, "season_id"@, "seasonId"@]);
    }
    match json_u64_candidates(item, own.as_slice()) {
        Some(t) => {
            return Some(t);
        },
        None => {},
    }
    match member_u64_candidates(item, "season", nested.as_slice()) {
        Some(t) => {
            return Some(t);
        },
        None => {},
    }
    match member_u64_candidates(item, "season_info", nested.as_slice()) {
        Some(t) => {
            return Some(t);
        },
        None => {},
    }
    match member_u64_candidates(item, "archive", own.as_slice()) {
        Some(t) => {
            return Some(t);
        },
        None => {},
    }
    member_u64_candidates(item, "Archive", own.as_slice())
}

/// The title of the collection an archive item belongs to: under one of the
/// title keys; else the title or name of its `season` or `season_info`
/// member; else the season title in its `Archive` or `archive` member; else
/// found within four levels; else empty.
pub open spec fn season_title_of(item: Json) -> Seq<char> {
    let names = seq!["title"@, "name"@];
    let archived = seq!["season_title"@, "season_name"@];
    let found = first_some(
        str_by_keys(item, season_title_keys()),
        first_some(
            str_in_member(item, "season"@, names),
            first_some(
                str_in_member(item, "season_info"@, names),
                first_some(
                    str_in_member(item, "Archive"@, archived),
                    first_some(
                        str_in_member(item, "archive"@, archived),
                        find_string(item, season_title_keys(), SEARCH_DEPTH as nat),
                    ),
                ),
            ),
        ),
    );
    match found {
        Some(t) => t,
        None => Seq::<char>::empty(),
    }
}

/// The collection title of an archive item, or empty.
pub fn extract_season_title_from_archive_item(item: &Json) -> (r: String)
    ensures
        r@ == season_title_of(*item),
{
    let keys = season_title_key_list();
    let names = vec!["title", "name"];
    let archived = vec!["season_title", "season_name"];
    proof {
        assert(key_texts(names@) =~= seq!["title"@, "name"@]);
        assert(key_texts(archived@) =~= seq!["season_title"@, "season_name"@]);
    }
    match json_str_candidates(item, keys.as_slice()) {
        Some(t) => {
            return t;
        },
        None => {},
    }
    match member_str_candidates(item, "season", names.as_slice()) {
        Some(t) => {
            return t;
        },
        None => {},
    }
    match member_str_candidates(item, "season_info", names.as_slice()) {
        Some(t) => {
            return t;
        },
        None => {},
    }
    match member_str_candidates(item, "Archive", archived.as_slice()) {
        Some(t) => {
            return t;
        },
        None => {},
    }
    match member_str_candidates(item, "archive", archived.as_slice()) {
        Some(t) => {
            return t;
        },
        None => {},
    }
    match recursive_find_string_by_keys(item, keys.as_slice(), SEARCH_DEPTH) {
        Some(t) => t,
        None => String::new(),
    }
}

} // verus!
