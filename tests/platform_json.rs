use biliup_app::json::{
    extract_episode_published_time, extract_episode_scheduled_dtime, extract_season_id_from_archive_item,
    extract_season_title_from_archive_item, json_str_candidates, json_u64_candidates, parse_timestamp_like_value,
    recursive_find_string_by_keys, recursive_find_timestamp_by_keys, Json, JsonNumber,
};
use std::collections::HashSet;

use biliup_app::publish::{
    archive_list_item_fields, archive_view_times, episode_fields, extract_web_archives_items, fill_missing,
    first_sighting, is_in_progress, is_published, more_pages, preferred_description, sections_to_scan, vupre_view_times,
};
use biliup_app::responses::{SeasonEntry, SectionEntry};

fn n(v: u64) -> Json {
    Json::Number(JsonNumber::PosInt(v))
}

fn s(v: &str) -> Json {
    Json::String(v.to_string())
}

fn obj(entries: Vec<(&str, Json)>) -> Json {
    Json::Object(entries.into_iter().map(|(k, v)| (k.to_string(), v)).collect())
}

#[test]
fn numbers_are_read_from_candidate_keys() {
    let v = obj(vec![("a", s("x")), ("b", s("42")), ("c", n(7)), ("d", Json::Number(JsonNumber::NegInt(-3)))]);
    assert_eq!(json_u64_candidates(&v, &["a", "b"]), Some(42));
    assert_eq!(json_u64_candidates(&v, &["d", "c"]), Some(7));
    assert_eq!(json_u64_candidates(&v, &["a", "zz"]), None);
    assert_eq!(json_u64_candidates(&n(3), &["a"]), None);
    assert_eq!(json_str_candidates(&obj(vec![("t", s("")), ("u", s("ok"))]), &["t", "u"]), Some("ok".to_string()));
}

#[test]
fn timestamp_like_values() {
    assert_eq!(parse_timestamp_like_value(&n(1700000000123)), Some(1700000000));
    assert_eq!(parse_timestamp_like_value(&n(0)), None);
    assert_eq!(parse_timestamp_like_value(&Json::Number(JsonNumber::NegInt(-5))), None);
    assert_eq!(parse_timestamp_like_value(&s("  1700000000 ")), Some(1700000000));
    assert_eq!(parse_timestamp_like_value(&s("   ")), None);
    assert_eq!(parse_timestamp_like_value(&s("2023-11-14T22:13:20Z")), Some(1700000000));
    assert_eq!(parse_timestamp_like_value(&s("2023-11-14 22:13:20")), Some(1700000000));
    assert_eq!(parse_timestamp_like_value(&s("2023/11/14 22:13:20")), Some(1700000000));
    assert_eq!(parse_timestamp_like_value(&s("1969-12-31T23:59:00Z")), Some(0));
    assert_eq!(parse_timestamp_like_value(&s("tomorrow")), None);
    assert_eq!(parse_timestamp_like_value(&Json::Null), None);
}

#[test]
fn recursive_search_respects_depth() {
    let deep = obj(vec![("x", obj(vec![("y", obj(vec![("dtime", n(1700000001))]))]))]);
    assert_eq!(recursive_find_timestamp_by_keys(&deep, &["dtime"], 3), Some(1700000001));
    assert_eq!(recursive_find_timestamp_by_keys(&deep, &["dtime"], 2), None);
    let arr = Json::Array(vec![obj(vec![("name", s("  "))]), obj(vec![("name", s(" Season A "))])]);
    assert_eq!(recursive_find_string_by_keys(&arr, &["name"], 2), Some("Season A".to_string()));
    assert_eq!(recursive_find_string_by_keys(&arr, &["name"], 1), None);
}

#[test]
fn episode_times_are_extracted() {
    let ep = obj(vec![("arc", obj(vec![("delay_time", s("1700000000000")), ("pubdate", n(1600000000))]))]);
    assert_eq!(extract_episode_scheduled_dtime(&ep), Some(1700000000));
    assert_eq!(extract_episode_published_time(&ep), Some(1600000000));
    let meta = obj(vec![("meta", obj(vec![("dtime", n(1700000002))]))]);
    assert_eq!(extract_episode_scheduled_dtime(&meta), Some(1700000002));
    assert_eq!(extract_episode_published_time(&meta), None);
    let zero = obj(vec![("dtime", n(0)), ("inner", obj(vec![("dtime", n(1700000003))]))]);
    assert_eq!(extract_episode_scheduled_dtime(&zero), Some(1700000003));
}

#[test]
fn season_of_archive_item() {
    let item = obj(vec![("season", obj(vec![("id", n(12)), ("title", s("Trips"))]))]);
    assert_eq!(extract_season_id_from_archive_item(&item), Some(12));
    assert_eq!(extract_season_title_from_archive_item(&item), "Trips");
    let archived = obj(vec![("Archive", obj(vec![("season_id", s("34")), ("season_name", s("Cooking"))]))]);
    assert_eq!(extract_season_id_from_archive_item(&archived), Some(34));
    assert_eq!(extract_season_title_from_archive_item(&archived), "Cooking");
    assert_eq!(extract_season_title_from_archive_item(&obj(vec![])), "");
    assert_eq!(extract_season_id_from_archive_item(&obj(vec![])), None);
}

#[test]
fn archive_list_items_are_found() {
    let page = obj(vec![("data", obj(vec![("list", Json::Array(vec![n(1)])), ("archives", Json::Array(vec![n(2), n(3)]))]))]);
    assert_eq!(extract_web_archives_items(&page).map(|v| v.len()), Some(2));
    let other = obj(vec![("data", obj(vec![("x", Json::Array(vec![n(1)])), ("y", Json::Array(vec![obj(vec![])]))]))]);
    assert_eq!(extract_web_archives_items(&other).map(|v| v.len()), Some(1));
    assert!(extract_web_archives_items(&obj(vec![("data", obj(vec![]))])).is_none());
}

#[test]
fn publication_state() {
    assert!(is_published(None, Some(100), 200));
    assert!(!is_published(Some(300), Some(100), 200));
    assert!(is_published(Some(150), Some(100), 200));
    assert!(!is_published(None, Some(0), 200));
    assert!(!is_published(None, Some(201), 200));
    assert!(is_in_progress(0, 5, false));
    assert!(!is_in_progress(0, 5, true));
    assert!(!is_in_progress(1, 5, false));
    assert_eq!(fill_missing(None, Some(3)), Some(3));
    assert_eq!(fill_missing(Some(1), Some(3)), Some(1));
}

#[test]
fn archive_list_item_fields_are_read() {
    let item = obj(vec![
        ("Archive", obj(vec![("aid", n(77)), ("bvid", s("BV1xx"))])),
        ("meta", obj(vec![("archive_title", s("  Deep title  "))])),
        ("state", n(18446744073709551615)),
        ("archive", obj(vec![("state", Json::Number(JsonNumber::NegInt(-2))), ("state_desc", s("reviewing"))])),
    ]);
    let f = archive_list_item_fields(&item);
    assert_eq!(f.aid, 77);
    assert_eq!(f.bvid, "BV1xx");
    assert_eq!(f.title, "Deep title");
    assert_eq!(f.state, -1);
    assert_eq!(f.archive_state, -2);
    assert_eq!(f.status_text, "reviewing");
    let empty = archive_list_item_fields(&obj(vec![]));
    assert_eq!((empty.aid, empty.state, empty.archive_state), (0, -1, -1));
    assert_eq!(empty.title, "");
}

#[test]
fn episode_fields_are_read() {
    let ep = obj(vec![("arc", obj(vec![("aid", s("88")), ("title", s("Ep"))])), ("archiveState", n(0))]);
    let f = episode_fields(&ep);
    assert_eq!((f.aid, f.state, f.archive_state), (88, -1, 0));
    assert_eq!(f.title, "Ep");
    assert_eq!(f.bvid, "");
}

#[test]
fn detail_responses_give_times() {
    let res = obj(vec![("data", obj(vec![("archive", obj(vec![("dtime", n(1700000000))])), ("pubdate", n(1600000000))]))]);
    assert_eq!(archive_view_times(&res), (Some(1700000000), Some(1600000000)));
    let deep = obj(vec![("data", obj(vec![("a", obj(vec![("b", obj(vec![("c", obj(vec![("d", obj(vec![("pubtime", n(5))]))]))]))]))]))]);
    assert_eq!(archive_view_times(&deep), (None, None));
    assert_eq!(vupre_view_times(&deep), (None, Some(5)));
}

#[test]
fn sections_with_ids_are_scanned() {
    let e = SeasonEntry {
        season_id: Some(5),
        section_id: None,
        title: "Travel".to_string(),
        sections: vec![
            SectionEntry { section_id: None, title: "x".to_string() },
            SectionEntry { section_id: Some(7), title: "Part".to_string() },
        ],
    };
    assert_eq!(sections_to_scan(&e), vec![(7, "Part".to_string())]);
    let bare = SeasonEntry { season_id: Some(5), section_id: None, title: "Travel".to_string(), sections: vec![] };
    assert_eq!(sections_to_scan(&bare), vec![(5, "Travel".to_string())]);
}

#[test]
fn submissions_are_listed_once() {
    let mut seen = HashSet::new();
    assert!(first_sighting(&mut seen, 3));
    assert!(!first_sighting(&mut seen, 3));
    assert!(first_sighting(&mut seen, 0));
    assert!(first_sighting(&mut seen, 0));
    assert_eq!(seen.len(), 1);
}

#[test]
fn paging_and_descriptions() {
    assert!(more_pages(50, 50));
    assert!(!more_pages(49, 50));
    assert!(!more_pages(0, 0));
    assert_eq!(preferred_description("public".to_string(), "carried".to_string()), "public");
    assert_eq!(preferred_description(String::new(), "carried".to_string()), "carried");
}
