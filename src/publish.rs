//! Publication state of submissions as the creator centre lists them.
use std::collections::{HashMap, HashSet};

use vstd::prelude::*;

use crate::json::{
    extract_season_id_from_archive_item, extract_season_title_from_archive_item, find_string,
    find_timestamp, json_str_candidates, json_u64_candidates, key_texts, recursive_find_string_by_keys,
    recursive_find_timestamp_by_keys, member_str_candidates, member_u64_candidates, season_id_of, season_title_of, str_by_keys, str_in_member,
    u64_by_keys, u64_in_member, first_some, Json, SEARCH_DEPTH, extract_episode_published_time,
    extract_episode_scheduled_dtime, published_time, scheduled_time, publish_keys, schedule_keys,
};
use crate::responses::{SeasonEntry, SectionEntry};

verus! {

broadcast use vstd::std_specs::hash::group_hash_axioms;

/// How a submission's collection is labelled.
pub enum SeasonLabel {
    /// A title: the collection's own, or the one the item carries.
    Titled(String),
    /// A collection whose title is unknown, shown by its number.
    Numbered(u64),
    /// The item names no collection.
    Unknown,
}

/// The label of collection `id`: its title where known, else its number.
pub fn season_label_for_id(id: u64, titles: &HashMap<u64, String>) -> (r: SeasonLabel)
    ensures
        titles@.contains_key(id) ==> (r matches SeasonLabel::Titled(t) && t@ == titles@[id]@),
        !titles@.contains_key(id) ==> r == SeasonLabel::Numbered(id),
{
    match titles.get(&id) {
        Some(t) => SeasonLabel::Titled(t.clone()),
        None => SeasonLabel::Numbered(id),
    }
}

/// The collection label of an archive item, given the titles of the
/// account's collections: the collection's title where the item names a
/// collection with a known title, its number where the title is unknown;
/// else the title the item carries, where it is not empty.
pub fn season_label(item: &Json, titles: &HashMap<u64, String>) -> (r: SeasonLabel)
    ensures
        match season_id_of(*item) {
            Some(id) => if titles@.contains_key(id) {
                r matches SeasonLabel::Titled(t) && t@ == titles@[id]@
            } else {
                r == SeasonLabel::Numbered(id)
            },
            None => if season_title_of(*item).len() > 0 {
                r matches SeasonLabel::Titled(t) && t@ == season_title_of(*item)
            } else {
                r == SeasonLabel::Unknown
            },
        },
{
    match extract_season_id_from_archive_item(item) {
        Some(id) => season_label_for_id(id, titles),
        None => {
            let t = extract_season_title_from_archive_item(item);
            if t.as_str().is_empty() {
                SeasonLabel::Unknown
            } else {
                SeasonLabel::Titled(t)
            }
        },
    }
}

/// A submission counts as published when no publication is scheduled after
/// `now` and it has a publication time in `(0, now]`.
pub open spec fn published_by(dtime: Option<u64>, published_at: Option<u64>, now: u64) -> bool {
    let scheduled_later = match dtime {
        Some(ts) => ts > now,
        None => false,
    };
    !scheduled_later && match published_at {
        Some(ts) => 0 < ts <= now,
        None => false,
    }
}

/// Whether a submission is published at `now`, from its scheduled time and
/// its publication time.
pub fn is_published(dtime: Option<u64>, published_at: Option<u64>, now: u64) -> (r: bool)
    ensures
        r == published_by(dtime, published_at, now),
{
    let scheduled_later = match dtime {
        Some(ts) => ts > now,
        None => false,
    };
    if scheduled_later {
        false
    } else {
        match published_at {
            Some(ts) => ts > 0 && ts <= now,
            None => false,
        }
    }
}

/// A submission is still being processed when either state code is 0 and it
/// is not published.
pub fn is_in_progress(state: i64, archive_state: i64, published: bool) -> (r: bool)
    ensures
        r == ((state == 0 || archive_state == 0) && !published),
{
    (state == 0 || archive_state == 0) && !published
}

/// Keeps a time already known, else takes the one a detail lookup gave.
pub fn fill_missing(known: Option<u64>, detail: Option<u64>) -> (r: Option<u64>)
    ensures
        r == (if known is Some {
            known
        } else {
            detail
        }),
{
    match known {
        Some(t) => Some(t),
        None => detail,
    }
}

/// The page's payload: its `data` member where it has one, else the page.
pub open spec fn payload_of(page: Json) -> Json {
    match page.member("data"@) {
        Some(d) => d,
        None => page,
    }
}

/// The items of an archive list page: the first of `arc_audits`,
/// `archives`, `list` and `items` in the payload that is an array; else the
/// first member of the payload that is an array starting with an object.
pub open spec fn archive_items(page: Json) -> Option<Seq<Json>> {
    let data = payload_of(page);
    let keys = seq!["arc_audits"@, "archives"@, "list"@, "items"@];
    if exists|i: int| 0 <= i < 4 && array_member(data, #[trigger] keys[i]) is Some {
        let i = choose|i: int|
            0 <= i < 4 && array_member(data, #[trigger] keys[i]) is Some && forall|j: int|
                0 <= j < i ==> array_member(data, keys[j]) is None;
        array_member(data, keys[i])
    } else {
        match data {
            Json::Object(entries) => if exists|i: int|
                0 <= i < entries@.len() && starts_with_object(#[trigger] entries@[i].1) {
                let i = choose|i: int|
                    0 <= i < entries@.len() && starts_with_object(#[trigger] entries@[i].1)
                        && forall|j: int| 0 <= j < i ==> !starts_with_object(entries@[j].1);
                match entries@[i].1 {
                    Json::Array(items) => Some(items@),
                    _ => None,
                }
            } else {
                None
            },
            _ => None,
        }
    }
}

/// The member `key` of `v` where it is an array.
pub open spec fn array_member(v: Json, key: Seq<char>) -> Option<Seq<Json>> {
    match v.member(key) {
        Some(Json::Array(items)) => Some(items@),
        _ => None,
    }
}

/// An array whose first item is an object.
pub open spec fn starts_with_object(v: Json) -> bool {
    match v {
        Json::Array(items) => items@.len() > 0 && items@[0] is Object,
        _ => false,
    }
}

fn array_member_of<'a>(v: &'a Json, key: &str) -> (r: Option<&'a Vec<Json>>)
    ensures
        match r {
            Some(items) => array_member(*v, key@) == Some(items@),
            None => array_member(*v, key@) is None,
        },
{
    match v.get(key) {
        Some(Json::Array(items)) => Some(items),
        _ => None,
    }
}

/// The items of an archive list page, where it holds any.
pub fn extract_web_archives_items(page_res: &Json) -> (r: Option<&Vec<Json>>)
    ensures
        match r {
            Some(items) => archive_items(*page_res) == Some(items@),
            None => archive_items(*page_res) is None,
        },
{
    let data = match page_res.get("data") {
        Some(d) => d,
        None => page_res,
    };
    let ghost keys = seq!["arc_audits"@, "archives"@, "list"@, "items"@];
    let names = vec!["arc_audits", "archives", "list", "items"];
    proof {
        assert(*data == payload_of(*page_res));
        assert(names@[0]@ == keys[0]);
        assert(names@[1]@ == keys[1]);
        assert(names@[2]@ == keys[2]);
        assert(names@[3]@ == keys[3]);
    }
    let mut k: usize = 0;
    while k < names.len()
        invariant
            *data == payload_of(*page_res),
            keys == seq!["arc_audits"@, "archives"@, "list"@, "items"@],
            names@.len() == 4,
            forall|i: int| 0 <= i < 4 ==> names@[i]@ == #[trigger] keys[i],
            k <= 4,
            forall|j: int| 0 <= j < k ==> array_member(*data, #[trigger] keys[j]) is None,
        decreases 4 - k,
    {
        match array_member_of(data, names[k]) {
            Some(items) => {
                proof {
                    assert(array_member(*data, keys[k as int]) is Some);
                }
                return Some(items);
            },
            None => {},
        }
        k = k + 1;
    }
    match data {
        Json::Object(entries) => {
            let mut m: usize = 0;
            while m < entries.len()
                invariant
                    *data == payload_of(*page_res),
                    *data == Json::Object(*entries),
                    keys == seq!["arc_audits"@, "archives"@, "list"@, "items"@],
                    forall|j: int| 0 <= j < 4 ==> array_member(*data, #[trigger] keys[j]) is None,
                    m <= entries@.len(),
                    forall|j: int| 0 <= j < m ==> !starts_with_object(#[trigger] entries@[j].1),
                decreases entries@.len() - m,
            {
                match &entries[m].1 {
                    Json::Array(items) => {
                        if items.len() > 0 {
                            match &items[0] {
                                Json::Object(_) => {
                                    proof {
                                        assert(starts_with_object(entries@[m as int].1));
                                    }
                                    return Some(items);
                                },
                                _ => {},
                            }
                        }
                    },
                    _ => {},
                }
                m = m + 1;
            }
            None
        },
        _ => None,
    }
}

/// A state code: the member as a signed integer, else as an unsigned one
/// (wrapped into 64 signed bits).
pub open spec fn code_of(v: Option<Json>) -> Option<i64> {
    match v {
        Some(x) => if x.as_i64_spec() is Some {
            x.as_i64_spec()
        } else if x.as_u64_spec() is Some {
            Some(x.as_u64_spec()->0 as i64)
        } else {
            None
        },
        None => None,
    }
}

fn code_member(v: &Json, key: &str) -> (r: Option<i64>)
    ensures
        r == code_of(v.member(key@)),
{
    match v.get(key) {
        Some(x) => match x.as_i64() {
            Some(n) => Some(n),
            None => match x.as_u64() {
                Some(n) => Some(n as i64),
                None => None,
            },
        },
        None => None,
    }
}

/// What the publish-time views show of one submission.
pub struct ArchiveFields {
    /// 0 where unknown.
    pub aid: u64,
    pub bvid: String,
    pub title: String,
    /// -1 where unknown.
    pub state: i64,
    /// -1 where unknown.
    pub archive_state: i64,
    pub status_text: String,
}

/// The value or, where there is none, the default.
pub open spec fn or_default<T>(v: Option<T>, default: T) -> T {
    match v {
        Some(x) => x,
        None => default,
    }
}

/// The submission id of an item of the archive list: its own `aid`, that of
/// its `archive` or `Archive` member, or one found within four levels.
pub open spec fn list_item_aid(item: Json) -> u64 {
    let k = seq!["aid"@];
    or_default(
        first_some(
            u64_by_keys(item, k),
            first_some(
                u64_in_member(item, "archive"@, k),
                first_some(u64_in_member(item, "Archive"@, k), find_timestamp(item, k, SEARCH_DEPTH as nat)),
            ),
        ),
        0u64,
    )
}

/// A text field of an item of the archive list: its own, that of its
/// `archive` or `Archive` member, or one found within four levels under
/// `deep_keys`.
pub open spec fn list_item_text(item: Json, key: Seq<char>, deep_keys: Seq<Seq<char>>) -> Seq<char> {
    let k = seq![key];
    or_default(
        first_some(
            str_by_keys(item, k),
            first_some(
                str_in_member(item, "archive"@, k),
                first_some(str_in_member(item, "Archive"@, k), find_string(item, deep_keys, SEARCH_DEPTH as nat)),
            ),
        ),
        Seq::empty(),
    )
}

/// Keys under which an archive's status text appears.
pub open spec fn status_keys() -> Seq<Seq<char>> {
    seq!["status"@, "status_desc"@, "archive_state_desc"@, "state_desc"@, "state_text"@]
}

/// `f` shows item `item` of the archive list.
pub open spec fn shows_list_item(f: ArchiveFields, item: Json) -> bool {
    &&& f.aid == list_item_aid(item)
    &&& f.bvid@ == list_item_text(item, "bvid"@, seq!["bvid"@])
    &&& f.title@ == list_item_text(item, "title"@, seq!["title"@, "archive_title"@])
    &&& f.state == or_default(code_of(item.member("state"@)), -1i64)
    &&& f.archive_state == or_default(
        first_some(
            code_of(item.member("archiveState"@)),
            match item.member("archive"@) {
                Some(a) => code_of(a.member("state"@)),
                None => None,
            },
        ),
        -1i64,
    )
    &&& f.status_text@ == or_default(
        first_some(str_by_keys(item, status_keys()), str_in_member(item, "archive"@, status_keys())),
        Seq::empty(),
    )
}

fn text_from_item(item: &Json, key: &str, deep_keys: &[&str]) -> (r: String)
    ensures
        r@ == list_item_text(*item, key@, key_texts(deep_keys@)),
{
    let k = vec![key];
    proof {
        assert(key_texts(k@) =~= seq![key@]);
    }
    match json_str_candidates(item, k.as_slice()) {
        Some(t) => {
            return t;
        },
        None => {},
    }
    match member_str_candidates(item, "archive", k.as_slice()) {
        Some(t) => {
            return t;
        },
        None => {},
    }
    match member_str_candidates(item, "Archive", k.as_slice()) {
        Some(t) => {
            return t;
        },
        None => {},
    }
    match recursive_find_string_by_keys(item, deep_keys, SEARCH_DEPTH) {
        Some(t) => t,
        None => String::new(),
    }
}

/// The fields the publish-time view shows of an item of the archive list.
pub fn archive_list_item_fields(item: &Json) -> (r: ArchiveFields)
    ensures
        shows_list_item(r, *item),
{
    let aid_key = vec!["aid"];
    proof {
        assert(key_texts(aid_key@) =~= seq!["aid"@]);
    }
    let aid = match json_u64_candidates(item, aid_key.as_slice()) {
        Some(n) => n,
        None => match member_u64_candidates(item, "archive", aid_key.as_slice()) {
            Some(n) => n,
            None => match member_u64_candidates(item, "Archive", aid_key.as_slice()) {
                Some(n) => n,
                None => match recursive_find_timestamp_by_keys(item, aid_key.as_slice(), SEARCH_DEPTH) {
                    Some(n) => n,
                    None => 0,
                },
            },
        },
    };
    let bvid_keys = vec!["bvid"];
    let title_keys = vec!["title", "archive_title"];
    let status = vec!["status", "status_desc", "archive_state_desc", "state_desc", "state_text"];
    proof {
        assert(key_texts(bvid_keys@) =~= seq!["bvid"@]);
        assert(key_texts(title_keys@) =~= seq!["title"@, "archive_title"@]);
        assert(key_texts(status@) =~= status_keys());
    }
    let bvid = text_from_item(item, "bvid", bvid_keys.as_slice());
    let title = text_from_item(item, "title", title_keys.as_slice());
    let state = match code_member(item, "state") {
        Some(n) => n,
        None => -1,
    };
    let archive_state = match code_member(item, "archiveState") {
        Some(n) => n,
        None => match item.get("archive") {
            Some(a) => match code_member(a, "state") {
                Some(n) => n,
                None => -1,
            },
            None => -1,
        },
    };
    let status_text = match json_str_candidates(item, status.as_slice()) {
        Some(t) => t,
        None => match member_str_candidates(item, "archive", status.as_slice()) {
            Some(t) => t,
            None => String::new(),
        },
    };
    ArchiveFields { aid, bvid, title, state, archive_state, status_text }
}

/// The submission id of an episode of a collection section: its own `aid`
/// or that of its `arc` member.
pub open spec fn episode_aid(ep: Json) -> u64 {
    or_default(first_some(u64_by_keys(ep, seq!["aid"@]), u64_in_member(ep, "arc"@, seq!["aid"@])), 0u64)
}

/// A text field of an episode: its own or that of its `arc` member.
pub open spec fn episode_text(ep: Json, key: Seq<char>) -> Seq<char> {
    or_default(first_some(str_by_keys(ep, seq![key]), str_in_member(ep, "arc"@, seq![key])), Seq::empty())
}

/// `f` shows episode `ep` of a collection section; episodes carry no status
/// text.
pub open spec fn shows_episode(f: ArchiveFields, ep: Json) -> bool {
    &&& f.aid == episode_aid(ep)
    &&& f.bvid@ == episode_text(ep, "bvid"@)
    &&& f.title@ == episode_text(ep, "title"@)
    &&& f.state == or_default(code_of(ep.member("state"@)), -1i64)
    &&& f.archive_state == or_default(code_of(ep.member("archiveState"@)), -1i64)
    &&& f.status_text@.len() == 0
}

fn episode_text_of(ep: &Json, key: &str) -> (r: String)
    ensures
        r@ == episode_text(*ep, key@),
{
    let k = vec![key];
    proof {
        assert(key_texts(k@) =~= seq![key@]);
    }
    match json_str_candidates(ep, k.as_slice()) {
        Some(t) => t,
        None => match member_str_candidates(ep, "arc", k.as_slice()) {
            Some(t) => t,
            None => String::new(),
        },
    }
}

/// The fields the publish-time view shows of an episode of a collection
/// section.
pub fn episode_fields(ep: &Json) -> (r: ArchiveFields)
    ensures
        shows_episode(r, *ep),
{
    let aid_key = vec!["aid"];
    proof {
        assert(key_texts(aid_key@) =~= seq!["aid"@]);
    }
    let aid = match json_u64_candidates(ep, aid_key.as_slice()) {
        Some(n) => n,
        None => match member_u64_candidates(ep, "arc", aid_key.as_slice()) {
            Some(n) => n,
            None => 0,
        },
    };
    let state = match code_member(ep, "state") {
        Some(n) => n,
        None => -1,
    };
    let archive_state = match code_member(ep, "archiveState") {
        Some(n) => n,
        None => -1,
    };
    ArchiveFields {
        aid,
        bvid: episode_text_of(ep, "bvid"),
        title: episode_text_of(ep, "title"),
        state,
        archive_state,
        status_text: String::new(),
    }
}

/// The archive a detail response describes: the `archive` member of its
/// payload, or the payload itself.
pub open spec fn detail_archive(res: Json) -> Json {
    let data = payload_of(res);
    match data.member("archive"@) {
        Some(a) => a,
        None => data,
    }
}

/// Scheduled and publication times read from an archive detail response:
/// from the archive, else from the payload.
pub open spec fn detail_times(res: Json) -> (Option<u64>, Option<u64>) {
    let data = payload_of(res);
    let archive = detail_archive(res);
    (
        first_some(scheduled_time(archive), scheduled_time(data)),
        first_some(published_time(archive), published_time(data)),
    )
}

/// Depth of the last-resort search in the creator-centre detail response.
pub const DETAIL_SEARCH_DEPTH: usize = 5;

/// Times read from the creator-centre detail response: as `detail_times`,
/// else found within five levels of the payload.
pub open spec fn vupre_detail_times(res: Json) -> (Option<u64>, Option<u64>) {
    let data = payload_of(res);
    (
        first_some(detail_times(res).0, find_timestamp(data, schedule_keys(), DETAIL_SEARCH_DEPTH as nat)),
        first_some(detail_times(res).1, find_timestamp(data, publish_keys(), DETAIL_SEARCH_DEPTH as nat)),
    )
}

fn payload<'a>(res: &'a Json) -> (r: &'a Json)
    ensures
        *r == payload_of(*res),
{
    match res.get("data") {
        Some(d) => d,
        None => res,
    }
}

/// Scheduled and publication times from an archive detail response.
pub fn archive_view_times(res: &Json) -> (r: (Option<u64>, Option<u64>))
    ensures
        r == detail_times(*res),
{
    let data = payload(res);
    let archive = match data.get("archive") {
        Some(a) => a,
        None => data,
    };
    let scheduled = match extract_episode_scheduled_dtime(archive) {
        Some(t) => Some(t),
        None => extract_episode_scheduled_dtime(data),
    };
    let published = match extract_episode_published_time(archive) {
        Some(t) => Some(t),
        None => extract_episode_published_time(data),
    };
    (scheduled, published)
}

/// Scheduled and publication times from the creator-centre detail response.
pub fn vupre_view_times(res: &Json) -> (r: (Option<u64>, Option<u64>))
    ensures
        r == vupre_detail_times(*res),
{
    let data = payload(res);
    let (scheduled, published) = archive_view_times(res);
    let schedule = vec!["dtime", "delay_time", "delay_pub_time", "delay_pubtime"];
    let publish = vec!["publish_time", "pub_time", "pubtime", "pubdate"];
    proof {
        assert(key_texts(schedule@) =~= schedule_keys());
        assert(key_texts(publish@) =~= publish_keys());
    }
    let scheduled = match scheduled {
        Some(t) => Some(t),
        None => recursive_find_timestamp_by_keys(data, schedule.as_slice(), DETAIL_SEARCH_DEPTH),
    };
    let published = match published {
        Some(t) => Some(t),
        None => recursive_find_timestamp_by_keys(data, publish.as_slice(), DETAIL_SEARCH_DEPTH),
    };
    (scheduled, published)
}

/// The sections that have an id, as (id, title), in order.
pub open spec fn sections_with_id(s: Seq<SectionEntry>) -> Seq<(u64, Seq<char>)>
    decreases s.len(),
{
    if s.len() == 0 {
        Seq::empty()
    } else {
        let rest = sections_with_id(s.drop_last());
        match s.last().section_id {
            Some(id) => rest.push((id, s.last().title@)),
            None => rest,
        }
    }
}

/// The sections of a collection whose episodes are listed: those with an
/// id; where there is none, the collection itself under its own title.
pub open spec fn scanned_sections(e: SeasonEntry) -> Seq<(u64, Seq<char>)> {
    let with_id = sections_with_id(e.sections@);
    if with_id.len() > 0 {
        with_id
    } else {
        match e.season_id {
            Some(id) => seq![(id, e.title@)],
            None => Seq::empty(),
        }
    }
}

/// The sections of a collection whose episodes are listed, as
/// `scanned_sections` describes.
pub fn sections_to_scan(e: &SeasonEntry) -> (r: Vec<(u64, String)>)
    ensures
        r@.len() == scanned_sections(*e).len(),
        forall|i: int|
            0 <= i < r@.len() ==> (#[trigger] r@[i]).0 == scanned_sections(*e)[i].0 && r@[i].1@
                == scanned_sections(*e)[i].1,
{
    let mut out: Vec<(u64, String)> = Vec::new();
    let mut k: usize = 0;
    while k < e.sections.len()
        invariant
            k <= e.sections@.len(),
            out@.len() == sections_with_id(e.sections@.take(k as int)).len(),
            forall|i: int|
                0 <= i < out@.len() ==> (#[trigger] out@[i]).0 == sections_with_id(
                    e.sections@.take(k as int),
                )[i].0 && out@[i].1@ == sections_with_id(e.sections@.take(k as int))[i].1,
        decreases e.sections@.len() - k,
    {
        proof {
            assert(e.sections@.take(k + 1).drop_last() =~= e.sections@.take(k as int));
            assert(e.sections@.take(k + 1).last() == e.sections@[k as int]);
        }
        match e.sections[k].section_id {
            Some(id) => {
                out.push((id, e.sections[k].title.clone()));
            },
            None => {},
        }
        k = k + 1;
    }
    proof {
        assert(e.sections@.take(k as int) =~= e.sections@);
    }
    if out.len() == 0 {
        match e.season_id {
            Some(id) => {
                out.push((id, e.title.clone()));
            },
            None => {},
        }
    }
    out
}

/// Whether a submission is listed for the first time: an unknown id (0) is
/// always listed; a known one once, and it is remembered in `seen`.
pub fn first_sighting(seen: &mut HashSet<u64>, aid: u64) -> (r: bool)
    ensures
        r == (aid == 0 || !old(seen)@.contains(aid)),
        final(seen)@ == if aid == 0 {
            old(seen)@
        } else {
            old(seen)@.insert(aid)
        },
{
    if aid == 0 {
        return true;
    }
    seen.insert(aid)
}

/// Whether a paged listing goes on after a page of `page_len` items asked
/// for `page_size` at a time: only after a full, non-empty page.
pub fn more_pages(page_len: usize, page_size: usize) -> (r: bool)
    ensures
        r == (page_len > 0 && page_len >= page_size),
{
    page_len > 0 && page_len >= page_size
}

/// The description a submission's detail shows: the platform's own where it
/// is not empty, else the one the submission data carries.
pub fn preferred_description(platform: String, carried: String) -> (r: String)
    ensures
        r == (if platform@.len() > 0 {
            platform
        } else {
            carried
        }),
{
    if platform.as_str().is_empty() {
        carried
    } else {
        platform
    }
}

} // verus!
