//! Reading the platform's responses: the CSRF token in the login cookies and
//! the account's collections with their sections.
use std::collections::HashMap;

use vstd::prelude::*;

use crate::json::Json;

verus! {

broadcast use vstd::std_specs::hash::group_hash_axioms;

/// Why no CSRF token could be read from the login cookies.
#[derive(Clone, Copy, Debug, PartialEq, Eq, Structural)]
pub enum CsrfError {
    /// The cookie information holds no `cookies` array.
    NoCookies,
    /// No cookie is named `bili_jct`.
    NoJct,
    /// The `bili_jct` cookie has no string value.
    NoValue,
}

/// The member `key` of `v`, where there is one.
pub open spec fn at(v: Json, key: Seq<char>) -> Json {
    match v.member(key) {
        Some(x) => x,
        None => Json::Null,
    }
}

/// A cookie object named `bili_jct`.
pub open spec fn is_jct(c: Json) -> bool {
    c is Object && at(c, "name"@).as_str_spec() == Some("bili_jct"@)
}

/// The CSRF token of a login: the string `value` of the first object named
/// `bili_jct` in the `cookies` array.
pub open spec fn csrf_of(cookie_info: Json) -> Result<Seq<char>, CsrfError> {
    match cookie_info.member("cookies"@) {
        Some(Json::Array(cookies)) => if exists|i: int|
            0 <= i < cookies@.len() && is_jct(#[trigger] cookies@[i]) {
            let i = choose|i: int|
                0 <= i < cookies@.len() && is_jct(#[trigger] cookies@[i]) && forall|j: int|
                    0 <= j < i ==> !is_jct(cookies@[j]);
            match at(cookies@[i], "value"@).as_str_spec() {
                Some(s) => Ok(s),
                None => Err(CsrfError::NoValue),
            }
        } else {
            Err(CsrfError::NoJct)
        },
        _ => Err(CsrfError::NoCookies),
    }
}

fn member_or_null<'a>(v: &'a Json, key: &str, null: &'a Json) -> (r: &'a Json)
    requires
        *null == Json::Null,
    ensures
        *r == at(*v, key@),
{
    match v.get(key) {
        Some(x) => x,
        None => null,
    }
}

/// The CSRF token in a login's cookie information.
pub fn csrf_from_cookies(cookie_info: &Json) -> (r: Result<String, CsrfError>)
    ensures
        match r {
            Ok(s) => csrf_of(*cookie_info) == Ok::<Seq<char>, CsrfError>(s@),
            Err(e) => csrf_of(*cookie_info) == Err::<Seq<char>, CsrfError>(e),
        },
{
    let null = Json::Null;
    let cookies = match cookie_info.get("cookies") {
        Some(Json::Array(cookies)) => cookies,
        _ => {
            return Err(CsrfError::NoCookies);
        },
    };
    let wanted = String::from_str("bili_jct");
    let mut k: usize = 0;
    while k < cookies.len()
        invariant
            null == Json::Null,
            wanted@ == "bili_jct"@,
            cookie_info.member("cookies"@) == Some(Json::Array(*cookies)),
            k <= cookies@.len(),
            forall|j: int| 0 <= j < k ==> !is_jct(#[trigger] cookies@[j]),
        decreases cookies@.len() - k,
    {
        let c = &cookies[k];
        let is_object = match c {
            Json::Object(_) => true,
            _ => false,
        };
        if is_object {
            let name = member_or_null(c, "name", &null);
            let matches_name = match name.as_str() {
                Some(n) => String::from_str(n) == wanted,
                None => false,
            };
            if matches_name {
                proof {
                    assert(is_jct(cookies@[k as int]));
                }
                return match member_or_null(c, "value", &null).as_str() {
                    Some(v) => Ok(String::from_str(v)),
                    None => Err(CsrfError::NoValue),
                };
            }
        }
        k = k + 1;
    }
    Err(CsrfError::NoJct)
}

/// A section of a collection.
pub struct SectionEntry {
    /// `None` where the response gives no positive id.
    pub section_id: Option<u64>,
    pub title: String,
}

/// A collection with its sections; its section is the first one's.
pub struct SeasonEntry {
    pub season_id: Option<u64>,
    pub section_id: Option<u64>,
    pub title: String,
    pub sections: Vec<SectionEntry>,
}

/// `Some(n)` for a positive `n`.
pub open spec fn positive(n: u64) -> Option<u64> {
    if n != 0 {
        Some(n)
    } else {
        None
    }
}

/// An unsigned integer member, zero where missing or of another kind.
pub open spec fn u64_or_zero(v: Json) -> u64 {
    match v.as_u64_spec() {
        Some(n) => n,
        None => 0,
    }
}

/// A string member, `default` where missing or of another kind.
pub open spec fn str_or(v: Json, default: Seq<char>) -> Seq<char> {
    match v.as_str_spec() {
        Some(s) => s,
        None => default,
    }
}

/// The items of an array, none for any other value.
pub open spec fn items_of(v: Json) -> Seq<Json> {
    match v {
        Json::Array(items) => items@,
        _ => Seq::empty(),
    }
}

/// `e` describes the section `s` of a collection titled `season_title`.
pub open spec fn describes_section(e: SectionEntry, s: Json, season_title: Seq<char>) -> bool {
    &&& e.section_id == positive(u64_or_zero(at(s, "id"@)))
    &&& e.title@ == str_or(at(s, "title"@), season_title)
}

/// `e` describes the collection entry `season` of the response.
pub open spec fn describes_season(e: SeasonEntry, season: Json) -> bool {
    let info = at(season, "season"@);
    let title = str_or(at(info, "title"@), Seq::empty());
    let sections = items_of(at(at(season, "sections"@), "sections"@));
    &&& e.season_id == positive(u64_or_zero(at(info, "id"@)))
    &&& e.title@ == title
    &&& e.sections@.len() == sections.len()
    &&& forall|i: int|
        0 <= i < sections.len() ==> describes_section(#[trigger] e.sections@[i], sections[i], title)
    &&& e.section_id == if sections.len() > 0 {
        e.sections@[0].section_id
    } else {
        None
    }
}

fn u64_member_or_zero(v: &Json, key: &str) -> (r: u64)
    ensures
        r == u64_or_zero(at(*v, key@)),
{
    match v.get(key) {
        Some(x) => match x.as_u64() {
            Some(n) => n,
            None => 0,
        },
        None => 0,
    }
}

fn str_member_or(v: &Json, key: &str, default: &str) -> (r: String)
    ensures
        r@ == str_or(at(*v, key@), default@),
{
    match v.get(key) {
        Some(x) => match x.as_str() {
            Some(s) => String::from_str(s),
            None => String::from_str(default),
        },
        None => String::from_str(default),
    }
}

/// The account's collections in a collection list response, in order.
pub fn season_entries(res: &Json) -> (r: Vec<SeasonEntry>)
    ensures
        r@.len() == items_of(at(at(*res, "data"@), "seasons"@)).len(),
        forall|i: int|
            0 <= i < r@.len() ==> describes_season(
                #[trigger] r@[i],
                items_of(at(at(*res, "data"@), "seasons"@))[i],
            ),
{
    proof {
        reveal_strlit("");
    }
    let null = Json::Null;
    let data = member_or_null(res, "data", &null);
    let seasons_value = member_or_null(data, "seasons", &null);
    let ghost seasons = items_of(*seasons_value);
    let mut out: Vec<SeasonEntry> = Vec::new();
    match seasons_value {
        Json::Array(seasons_vec) => {
            let mut k: usize = 0;
            while k < seasons_vec.len()
                invariant
                    null == Json::Null,
                    seasons == seasons_vec@,
                    k <= seasons.len(),
                    out@.len() == k,
                    forall|i: int| 0 <= i < k ==> describes_season(#[trigger] out@[i], seasons[i]),
                decreases seasons.len() - k,
            {
                let season = &seasons_vec[k];
                let info = member_or_null(season, "season", &null);
                let season_id = u64_member_or_zero(info, "id");
                let title = str_member_or(info, "title", "");
                let sections_value = member_or_null(member_or_null(season, "sections", &null), "sections", &null);
                let ghost sections = items_of(*sections_value);
                let mut entries: Vec<SectionEntry> = Vec::new();
                match sections_value {
                    Json::Array(section_vec) => {
                        let mut m: usize = 0;
                        while m < section_vec.len()
                            invariant
                                null == Json::Null,
                                sections == section_vec@,
                                m <= sections.len(),
                                entries@.len() == m,
                                forall|i: int|
                                    0 <= i < m ==> describes_section(#[trigger] entries@[i], sections[i], title@),
                            decreases sections.len() - m,
                        {
                            let section = &section_vec[m];
                            let id = u64_member_or_zero(section, "id");
                            let section_title = str_member_or(section, "title", title.as_str());
                            entries.push(
                                SectionEntry {
                                    section_id: if id != 0 { Some(id) } else { None },
                                    title: section_title,
                                },
                            );
                            m = m + 1;
                        }
                    },
                    _ => {},
                }
                let section_id = if entries.len() > 0 {
                    entries[0].section_id
                } else {
                    None
                };
                proof {
                    reveal_strlit("");
                    assert(*season == seasons[k as int]);
                    assert(title@ == str_or(at(*info, "title"@), Seq::empty()));
                    assert(season_id == u64_or_zero(at(*info, "id"@)));
                    assert(entries@.len() == sections.len());
                    assert(forall|i: int|
                        0 <= i < sections.len() ==> describes_section(#[trigger] entries@[i], sections[i], title@));
                }
                let ghost before = out@;
                out.push(
                    SeasonEntry {
                        season_id: if season_id != 0 { Some(season_id) } else { None },
                        section_id,
                        title,
                        sections: entries,
                    },
                );
                proof {
                    assert(describes_season(out@[k as int], seasons[k as int]));
                    assert forall|i: int| 0 <= i < k + 1 implies describes_season(#[trigger] out@[i], seasons[i]) by {
                        if i < k {
                            assert(out@[i] == before[i]);
                        }
                    }
                }
                k = k + 1;
            }
        },
        _ => {},
    }
    out
}

/// The id and title of a collection entry that has a positive id and a
/// non-empty title.
pub open spec fn titled_season(season: Json) -> Option<(u64, Seq<char>)> {
    let info = at(season, "season"@);
    let id = u64_or_zero(at(info, "id"@));
    let title = str_or(at(info, "title"@), Seq::empty());
    if id > 0 && title.len() > 0 {
        Some((id, title))
    } else {
        None
    }
}

/// The collections listed by a list response.
pub open spec fn listed_seasons(res: Json) -> Seq<Json> {
    items_of(at(at(res, "data"@), "seasons"@))
}

/// The title that the last of the first `n` collections with id `id` and a
/// title gives, if any does.
pub open spec fn last_title(seasons: Seq<Json>, n: int, id: u64) -> Option<Seq<char>>
    decreases n,
{
    if n <= 0 {
        None
    } else {
        match titled_season(seasons[n - 1]) {
            Some((k, t)) if k == id => Some(t),
            _ => last_title(seasons, n - 1, id),
        }
    }
}

/// `after` is `before` with, for every id that one of the first `n`
/// collections names with a title, the title of the last such collection.
pub open spec fn titles_recorded(
    before: Map<u64, String>,
    after: Map<u64, String>,
    seasons: Seq<Json>,
    n: int,
) -> bool {
    &&& forall|id: u64|
        #[trigger] after.contains_key(id) == (before.contains_key(id) || last_title(seasons, n, id) is Some)
    &&& forall|id: u64|
        #[trigger] last_title(seasons, n, id) is Some ==> after[id]@ == last_title(seasons, n, id)->0
    &&& forall|id: u64|
        last_title(seasons, n, id) is None && before.contains_key(id) ==> #[trigger] after[id]
            == before[id]
}

/// Adds to `titles` every collection of a list response that has a positive
/// id and a non-empty title (a later listing of an id wins), and returns how
/// many collections the page listed.
pub fn collect_season_titles(res: &Json, titles: &mut HashMap<u64, String>) -> (r: usize)
    ensures
        r == listed_seasons(*res).len(),
        titles_recorded(old(titles)@, final(titles)@, listed_seasons(*res), r as int),
{
    let entries = season_entries(res);
    let ghost seasons = listed_seasons(*res);
    let mut k: usize = 0;
    while k < entries.len()
        invariant
            entries@.len() == seasons.len(),
            seasons == listed_seasons(*res),
            forall|i: int| 0 <= i < entries@.len() ==> describes_season(#[trigger] entries@[i], seasons[i]),
            k <= entries@.len(),
            titles_recorded(old(titles)@, titles@, seasons, k as int),
        decreases entries@.len() - k,
    {
        let e = &entries[k];
        proof {
            assert(describes_season(entries@[k as int], seasons[k as int]));
        }
        let ghost pre = titles@;
        match e.season_id {
            Some(id) => {
                if !e.title.as_str().is_empty() {
                    titles.insert(id, e.title.clone());
                    proof {
                        assert(titled_season(seasons[k as int]) == Some((id, titles@[id]@)));
                        assert forall|x: u64| #[trigger] last_title(seasons, k + 1, x) == (if x == id {
                            Some(titles@[id]@)
                        } else {
                            last_title(seasons, k as int, x)
                        }) by {}
                        assert forall|x: u64| #[trigger] titles@.contains_key(x) == (old(titles)@.contains_key(x)
                            || last_title(seasons, k + 1, x) is Some) by {
                            assert(last_title(seasons, k + 1, x) == (if x == id {
                                Some(titles@[id]@)
                            } else {
                                last_title(seasons, k as int, x)
                            }));
                        }
                        assert forall|x: u64| #[trigger] last_title(seasons, k + 1, x) is Some implies titles@[x]@
                            == last_title(seasons, k + 1, x)->0 by {
                            assert(last_title(seasons, k + 1, x) == (if x == id {
                                Some(titles@[id]@)
                            } else {
                                last_title(seasons, k as int, x)
                            }));
                        }
                        assert forall|x: u64|
                            last_title(seasons, k + 1, x) is None && old(titles)@.contains_key(x) implies #[trigger] titles@[x]
                            == old(titles)@[x] by {
                            assert(last_title(seasons, k + 1, x) == (if x == id {
                                Some(titles@[id]@)
                            } else {
                                last_title(seasons, k as int, x)
                            }));
                        }
                    }
                } else {
                    proof {
                        assert(titled_season(seasons[k as int]) is None);
                        assert forall|x: u64| #[trigger] last_title(seasons, k + 1, x) == last_title(
                            seasons,
                            k as int,
                            x,
                        ) by {}
                    }
                }
            },
            None => {
                proof {
                    assert(titled_season(seasons[k as int]) is None);
                    assert forall|x: u64| #[trigger] last_title(seasons, k + 1, x) == last_title(
                        seasons,
                        k as int,
                        x,
                    ) by {}
                }
            },
        }
        k = k + 1;
    }
    entries.len()
}

} // verus!
