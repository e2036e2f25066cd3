use biliup_app::compatible::{CompatibilityConverter, LegacyConfig, LegacyStreamerConfig, LegacyUser, LegacyUserAccount, LegacyVideoInfo, NamedStreamer};
use biliup_app::config::{default_log_level, default_translation_prompt, ConfigError, ConfigRoot, Subtitle, TemplateConfig, DEFAULT_TRANSLATION_PROMPT};
use biliup_app::text::is_blank;
use biliup_app::timestamp::normalize_timestamp_seconds;
use biliup_app::version::{is_newer_version, parse_version};

fn login_info() -> biliup::client::LoginInfo {
    serde_json::from_str(
        r#"{"cookie_info":{"cookies":[]},"sso":[],"token_info":{"access_token":"a","expires_in":1,"mid":2,"refresh_token":"r"},"platform":null}"#,
    )
    .unwrap()
}

#[test]
fn newer_versions_compare_by_number() {
    assert_eq!(is_newer_version("1.2.10", "1.2.9"), Ok(true));
    assert_eq!(is_newer_version("1.2.9", "1.2.10"), Ok(false));
    assert_eq!(is_newer_version("1.2.0", "1.2"), Ok(true));
    assert_eq!(is_newer_version("1.2", "1.2.0"), Ok(false));
    assert_eq!(is_newer_version("2.0.0", "2.0.0"), Ok(false));
    assert_eq!(is_newer_version("+3", "2.9"), Ok(true));
    assert!(is_newer_version("1.x", "1.0").is_err());
    assert!(is_newer_version("1.0", "").is_err());
    assert!(is_newer_version("1..0", "1.0").is_err());
    assert!(is_newer_version("4294967296", "1").is_err());
}

#[test]
fn versions_parse_into_numbers() {
    assert_eq!(parse_version("0.3.17"), Some(vec![0, 3, 17]));
    assert_eq!(parse_version("4294967295"), Some(vec![4294967295]));
    assert_eq!(parse_version("-1"), None);
    assert_eq!(parse_version("1."), None);
}

#[test]
fn timestamps_are_normalized_to_seconds() {
    assert_eq!(normalize_timestamp_seconds(0), None);
    assert_eq!(normalize_timestamp_seconds(1700000000), Some(1700000000));
    assert_eq!(normalize_timestamp_seconds(999999999999), Some(999999999999));
    assert_eq!(normalize_timestamp_seconds(1700000000123), Some(1700000000));
}

#[test]
fn defaults_of_the_configuration() {
    assert_eq!(default_log_level(), "info");
    assert!(default_translation_prompt().starts_with("You are a professional video title translator."));
    let c = ConfigRoot::default();
    assert_eq!(c.max_curr, 1);
    assert!(c.auto_start && c.auto_upload && !c.translation_auto);
    assert!(c.config.is_empty());
    let t = TemplateConfig::default();
    assert_eq!(t.copyright, 1);
    assert!(t.videos.is_empty() && t.aid.is_none());
}

#[test]
fn blank_translation_prompt_falls_back_to_default() {
    let mut c = ConfigRoot::default();
    c.save_global_config(3, false, true, "debug".to_string(), "u".to_string(), "k".to_string(), "m".to_string(), " \t\n".to_string(), true);
    assert_eq!(c.max_curr, 3);
    assert_eq!(c.log_level, "debug");
    assert_eq!(c.translation_prompt, DEFAULT_TRANSLATION_PROMPT);
    c.save_global_config(3, false, true, "debug".to_string(), "u".to_string(), "k".to_string(), "m".to_string(), " mine ".to_string(), true);
    assert_eq!(c.translation_prompt, " mine ");
    assert!(is_blank("  "));
    assert!(!is_blank(" a "));
}

#[test]
fn accounts_and_templates_are_edited_in_place() {
    let mut c = ConfigRoot::default();
    assert_eq!(c.save_user_config(5, None, None, 1, 0, 0), Err(ConfigError::UserNotFound));
    c.new_user_config(5, "alice".to_string(), login_info(), Some("socks5://p".to_string()));
    assert_eq!(c.save_user_config(5, Some("bda2".to_string()), None, 4, 1, 1), Ok(()));
    assert_eq!(c.config[&5].limit, 4);
    assert_eq!(c.config[&5].line.as_deref(), Some("bda2"));
    let mut t = TemplateConfig::default();
    t.title = "first".to_string();
    let back = c.add_user_template(5, "daily", t);
    assert_eq!(back.title, "first");
    let mut t2 = TemplateConfig::default();
    t2.title = "second".to_string();
    c.add_user_template(5, "daily", t2);
    c.add_user_template(5, "weekly", TemplateConfig::default());
    assert_eq!(c.config[&5].templates.len(), 2);
    assert_eq!(c.config[&5].templates[0].template.title, "second");
    let removed = c.delete_user_template(5, "daily").unwrap();
    assert_eq!(removed.title, "second");
    assert!(c.delete_user_template(5, "daily").is_none());
    assert!(c.delete_user_template(6, "weekly").is_none());
    c.add_user_template(6, "x", TemplateConfig::default());
    assert!(!c.config.contains_key(&6));
    assert_eq!(c.remove_user_config(5), Ok(()));
    assert_eq!(c.remove_user_config(5), Err(ConfigError::UserNotFound));
}

#[test]
fn template_becomes_submission_form() {
    let mut t = TemplateConfig::default();
    t.title = "Episode 1".to_string();
    t.title_prefix = "[Live] ".to_string();
    t.cover = "https://i0.example.com/cover.jpg".to_string();
    t.tid = 65536 + 17;
    t.open_subtitle = true;
    t.up_close_reply = 2;
    t.topic_id = Some(9);
    t.watermark = 1;
    let f = t.into_bilibili_form();
    assert_eq!(f.title, "[Live] Episode 1");
    assert_eq!(f.cover, "//i0.example.com/cover.jpg");
    assert_eq!(f.tid, 17);
    assert_eq!(f.subtitle.open, 1);
    assert!(f.up_close_reply && !f.up_close_danmu);
    assert_eq!(f.topic_detail.unwrap().from_topic_id, Some(9));
    assert_eq!(f.watermark.state, 1);
    assert_eq!(f.is_360, -1);

    let mut blank = TemplateConfig::default();
    blank.title = "Plain".to_string();
    blank.title_prefix = "   ".to_string();
    let f = blank.into_bilibili_form();
    assert_eq!(f.title, "Plain");
    assert!(f.topic_detail.is_none());
}

fn legacy_streamer() -> LegacyStreamerConfig {
    LegacyStreamerConfig {
        copyright: 2,
        source: "src".to_string(),
        tid: 171,
        cover: "c".to_string(),
        title: "stream {title}".to_string(),
        desc_format_id: 0,
        desc: "d".to_string(),
        desc_v2: None,
        dynamic: "".to_string(),
        subtitle: Subtitle { open: 0, lan: "".to_string() },
        tag: "a,b".to_string(),
        videos: vec![LegacyVideoInfo { title: "part one".to_string(), filename: "n1.mp4".to_string(), desc: "".to_string() }],
        dtime: Some(1700000000),
        open_subtitle: false,
        interactive: 0,
        mission_id: None,
        dolby: 1,
        lossless_music: 0,
        no_reprint: 1,
        open_elec: 0,
        aid: None,
        up_selection_reply: true,
        up_close_reply: false,
        up_close_danmu: true,
        atomic_int: 3,
        changed: None,
    }
}

#[test]
fn legacy_configuration_is_converted() {
    assert!(CompatibilityConverter::should_convert_old_config(false, true));
    assert!(!CompatibilityConverter::should_convert_old_config(true, true));
    assert!(!CompatibilityConverter::should_convert_old_config(false, false));
    let t = CompatibilityConverter::convert_streamer(legacy_streamer());
    assert_eq!((t.copyright, t.tid, t.dolby, t.atomic_int), (2, 171, 1, 3));
    assert_eq!((t.up_selection_reply, t.up_close_reply, t.up_close_danmu), (1, 0, 1));
    assert_eq!(t.videos[0].id, "n1.mp4");
    assert_eq!(t.videos[0].filename, "n1.mp4");
    let legacy = LegacyConfig {
        user: LegacyUser { account: LegacyUserAccount { username: "u".to_string(), password: "p".to_string() } },
        line: Some("ws".to_string()),
        limit: 3,
        streamers: vec![NamedStreamer { name: "chan".to_string(), config: legacy_streamer() }],
    };
    let root = CompatibilityConverter::convert_legacy_to_user_config(legacy, 77, "bob".to_string(), login_info());
    assert_eq!(root.max_curr, 1);
    let uc = &root.config[&77];
    assert_eq!(uc.user.name, "bob");
    assert_eq!(uc.limit, 3);
    assert_eq!(uc.templates[0].name, "chan");
    assert_eq!(uc.templates[0].template.tag, "a,b");
}
