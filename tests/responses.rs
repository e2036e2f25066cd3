use std::collections::HashMap;

use biliup_app::json::{Json, JsonNumber};
use biliup_app::publish::{season_label, SeasonLabel};
use biliup_app::responses::{collect_season_titles, csrf_from_cookies, season_entries, CsrfError};
use biliup_app::version::update_available;

fn n(v: u64) -> Json {
    Json::Number(JsonNumber::PosInt(v))
}

fn s(v: &str) -> Json {
    Json::String(v.to_string())
}

fn obj(entries: Vec<(&str, Json)>) -> Json {
    Json::Object(entries.into_iter().map(|(k, v)| (k.to_string(), v)).collect())
}

fn seasons_page() -> Json {
    obj(vec![(
        "data",
        obj(vec![(
            "seasons",
            Json::Array(vec![
                obj(vec![
                    ("season", obj(vec![("id", n(5)), ("title", s("Travel"))])),
                    (
                        "sections",
                        obj(vec![(
                            "sections",
                            Json::Array(vec![obj(vec![("id", n(51)), ("title", s("Part A"))]), obj(vec![("id", n(0))])]),
                        )]),
                    ),
                ]),
                obj(vec![("season", obj(vec![("id", n(0)), ("title", s(""))]))]),
            ]),
        )]),
    )])
}

#[test]
fn csrf_token_is_read_from_cookies() {
    let info = obj(vec![(
        "cookies",
        Json::Array(vec![
            obj(vec![("name", s("SESSDATA")), ("value", s("x"))]),
            obj(vec![("name", s("bili_jct")), ("value", s("token123"))]),
        ]),
    )]);
    assert_eq!(csrf_from_cookies(&info), Ok("token123".to_string()));
    assert_eq!(csrf_from_cookies(&obj(vec![])), Err(CsrfError::NoCookies));
    let no_jct = obj(vec![("cookies", Json::Array(vec![obj(vec![("name", s("a"))])]))]);
    assert_eq!(csrf_from_cookies(&no_jct), Err(CsrfError::NoJct));
    let no_value = obj(vec![("cookies", Json::Array(vec![obj(vec![("name", s("bili_jct")), ("value", n(1))])]))]);
    assert_eq!(csrf_from_cookies(&no_value), Err(CsrfError::NoValue));
}

#[test]
fn collections_and_sections_are_listed() {
    let entries = season_entries(&seasons_page());
    assert_eq!(entries.len(), 2);
    assert_eq!(entries[0].season_id, Some(5));
    assert_eq!(entries[0].section_id, Some(51));
    assert_eq!(entries[0].title, "Travel");
    assert_eq!(entries[0].sections.len(), 2);
    assert_eq!(entries[0].sections[1].section_id, None);
    assert_eq!(entries[0].sections[1].title, "Travel");
    assert_eq!(entries[1].season_id, None);
    assert_eq!(entries[1].section_id, None);
    assert!(season_entries(&obj(vec![])).is_empty());
}

#[test]
fn collection_titles_are_collected() {
    let mut titles = HashMap::new();
    assert_eq!(collect_season_titles(&seasons_page(), &mut titles), 2);
    assert_eq!(titles.len(), 1);
    assert_eq!(titles[&5], "Travel");
}

#[test]
fn collection_labels() {
    let mut titles = HashMap::new();
    titles.insert(5u64, "Travel".to_string());
    let known = obj(vec![("season_id", n(5))]);
    assert!(matches!(season_label(&known, &titles), SeasonLabel::Titled(t) if t == "Travel"));
    let unknown = obj(vec![("season_id", n(9))]);
    assert!(matches!(season_label(&unknown, &titles), SeasonLabel::Numbered(9)));
    let carried = obj(vec![("season_name", s("Cooking"))]);
    assert!(matches!(season_label(&carried, &titles), SeasonLabel::Titled(t) if t == "Cooking"));
    assert!(matches!(season_label(&obj(vec![]), &titles), SeasonLabel::Unknown));
}

#[test]
fn release_tags_are_compared_with_the_running_version() {
    assert_eq!(update_available("app-v1.3.0", "1.2.9"), Ok(Some("app-v1.3.0".to_string())));
    assert_eq!(update_available("app-v1.2.9", "1.2.9"), Ok(None));
    assert!(update_available("v1.3.0", "1.2.9").is_err());
    assert!(update_available("app", "1.2.9").is_err());
    assert!(update_available("app-vx", "1.2.9").is_err());
}

#[test]
fn later_listing_of_a_collection_wins() {
    let page = obj(vec![(
        "data",
        obj(vec![(
            "seasons",
            Json::Array(vec![
                obj(vec![("season", obj(vec![("id", n(5)), ("title", s("Old"))]))]),
                obj(vec![("season", obj(vec![("id", n(5)), ("title", s("New"))]))]),
                obj(vec![("season", obj(vec![("id", n(6)), ("title", s(""))]))]),
            ]),
        )]),
    )]);
    let mut titles = HashMap::new();
    titles.insert(6u64, "Kept".to_string());
    titles.insert(5u64, "Stale".to_string());
    assert_eq!(collect_season_titles(&page, &mut titles), 3);
    assert_eq!(titles[&5], "New");
    assert_eq!(titles[&6], "Kept");
}
