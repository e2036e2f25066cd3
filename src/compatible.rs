//! Conversion of the legacy configuration format (one account, a template per
//! streamer) into the current configuration.
use vstd::prelude::*;

use crate::config::{ConfigRoot, NamedTemplate, Subtitle, TemplateConfig, UserConfig, UserInfo, VideoInfo};

verus! {

broadcast use vstd::std_specs::hash::group_hash_axioms;

/// The legacy account's credentials.
#[derive(Clone, Debug)]
pub struct LegacyUserAccount {
    pub username: String,
    pub password: String,
}

/// The legacy account.
#[derive(Clone, Debug)]
pub struct LegacyUser {
    pub account: LegacyUserAccount,
}

/// A video of a legacy streamer template.
#[derive(Clone, Debug)]
pub struct LegacyVideoInfo {
    pub title: String,
    pub filename: String,
    pub desc: String,
}

/// A legacy per-streamer template.
#[derive(Clone, Debug)]
pub struct LegacyStreamerConfig {
    pub copyright: u8,
    pub source: String,
    pub tid: u32,
    pub cover: String,
    pub title: String,
    pub desc_format_id: u32,
    pub desc: String,
    pub desc_v2: Option<String>,
    pub dynamic: String,
    pub subtitle: Subtitle,
    pub tag: String,
    pub videos: Vec<LegacyVideoInfo>,
    pub dtime: Option<u32>,
    pub open_subtitle: bool,
    pub interactive: u8,
    pub mission_id: Option<u32>,
    pub dolby: u8,
    pub lossless_music: u8,
    pub no_reprint: u8,
    pub open_elec: u8,
    pub aid: Option<u64>,
    pub up_selection_reply: bool,
    pub up_close_reply: bool,
    pub up_close_danmu: bool,
    pub atomic_int: u32,
    pub changed: Option<bool>,
}

/// A legacy streamer template under the streamer's name.
#[derive(Clone, Debug)]
pub struct NamedStreamer {
    pub name: String,
    pub config: LegacyStreamerConfig,
}

/// The whole legacy configuration.
#[derive(Clone, Debug)]
pub struct LegacyConfig {
    pub user: LegacyUser,
    pub line: Option<String>,
    pub limit: u32,
    pub streamers: Vec<NamedStreamer>,
}

/// No two legacy streamers share a name.
pub open spec fn names_unique_streamers(ss: Seq<NamedStreamer>) -> bool {
    forall|i: int, j: int|
        0 <= i < ss.len() && 0 <= j < ss.len() && i != j ==> (#[trigger] ss[i]).name@ != (
        #[trigger] ss[j]).name@
}

/// 1 for `true`, 0 for `false`.
pub open spec fn flag(b: bool) -> u8 {
    if b {
        1
    } else {
        0
    }
}

/// `v` is the current form of legacy video `l`: the file name doubles as the
/// id, and what the legacy format lacks is empty or zero.
pub open spec fn converted_video(v: VideoInfo, l: LegacyVideoInfo) -> bool {
    &&& v.title == l.title
    &&& v.id@ == l.filename@
    &&& v.cid == 0
    &&& v.filename == l.filename
    &&& v.desc == l.desc
    &&& v.path@.len() == 0
    &&& v.finished_at == 0
    &&& v.encoding_status == 0
    &&& v.status_desc@.len() == 0
    &&& v.group_key@.len() == 0
    &&& v.group_role@.len() == 0
}

/// `t` is the current form of legacy streamer template `s`.
pub open spec fn converted_template(t: TemplateConfig, s: LegacyStreamerConfig) -> bool {
    &&& t.copyright == s.copyright
    &&& t.source == s.source
    &&& t.tid == s.tid
    &&& t.cover == s.cover
    &&& t.title == s.title
    &&& t.title_prefix@.len() == 0
    &&& t.desc == s.desc
    &&& t.desc_v2 == s.desc_v2
    &&& t.dynamic == s.dynamic
    &&& t.subtitle == s.subtitle
    &&& t.tag == s.tag
    &&& t.videos@.len() == s.videos@.len()
    &&& forall|i: int| 0 <= i < s.videos@.len() ==> converted_video(#[trigger] t.videos@[i], s.videos@[i])
    &&& t.dtime == s.dtime
    &&& t.open_subtitle == s.open_subtitle
    &&& t.interactive == s.interactive
    &&& t.mission_id == s.mission_id
    &&& t.topic_id.is_none()
    &&& t.season_id.is_none()
    &&& t.section_id.is_none()
    &&& t.is_only_self == 0
    &&& t.dolby == s.dolby
    &&& t.lossless_music == s.lossless_music
    &&& t.no_reprint == s.no_reprint
    &&& t.open_elec == s.open_elec
    &&& t.aid == s.aid
    &&& t.up_selection_reply == flag(s.up_selection_reply)
    &&& t.up_close_reply == flag(s.up_close_reply)
    &&& t.up_close_danmu == flag(s.up_close_danmu)
    &&& t.atomic_int == s.atomic_int
    &&& t.watermark == 0
}

/// Converts the legacy configuration format.
pub struct CompatibilityConverter;

impl CompatibilityConverter {
    /// The legacy file is converted only where it exists and the current
    /// configuration file does not.
    pub fn should_convert_old_config(json_exists: bool, yaml_exists: bool) -> (r: bool)
        ensures
            r == (!json_exists && yaml_exists),
    {
        !json_exists && yaml_exists
    }

    /// The current form of a legacy video.
    pub fn convert_video(v: LegacyVideoInfo) -> (r: VideoInfo)
        ensures
            converted_video(r, v),
    {
        let id = v.filename.clone();
        VideoInfo {
            title: v.title,
            id,
            cid: 0,
            filename: v.filename,
            desc: v.desc,
            path: String::new(),
            finished_at: 0,
            encoding_status: 0,
            status_desc: String::new(),
            group_key: String::new(),
            group_role: String::new(),
        }
    }

    /// The current form of a legacy streamer template.
    pub fn convert_streamer(s: LegacyStreamerConfig) -> (r: TemplateConfig)
        ensures
            converted_template(r, s),
    {
        let ghost legacy_videos = s.videos@;
        let mut videos: Vec<VideoInfo> = Vec::new();
        let mut rest = s.videos;
        let mut k: usize = 0;
        let n = rest.len();
        while k < n
            invariant
                n == legacy_videos.len(),
                k <= n,
                rest@ == legacy_videos.skip(k as int),
                videos@.len() == k,
                forall|i: int| 0 <= i < k ==> converted_video(#[trigger] videos@[i], legacy_videos[i]),
            decreases n - k,
        {
            let v = rest.remove(0);
            proof {
                assert(v == legacy_videos[k as int]);
                assert(rest@ =~= legacy_videos.skip(k + 1));
            }
            videos.push(CompatibilityConverter::convert_video(v));
            k = k + 1;
        }
        TemplateConfig {
            copyright: s.copyright,
            source: s.source,
            tid: s.tid,
            cover: s.cover,
            title: s.title,
            title_prefix: String::new(),
            desc: s.desc,
            desc_v2: s.desc_v2,
            dynamic: s.dynamic,
            subtitle: s.subtitle,
            tag: s.tag,
            videos,
            dtime: s.dtime,
            open_subtitle: s.open_subtitle,
            interactive: s.interactive,
            mission_id: s.mission_id,
            topic_id: None,
            season_id: None,
            section_id: None,
            is_only_self: 0,
            dolby: s.dolby,
            lossless_music: s.lossless_music,
            no_reprint: s.no_reprint,
            open_elec: s.open_elec,
            aid: s.aid,
            up_selection_reply: if s.up_selection_reply {
                1
            } else {
                0
            },
            up_close_reply: if s.up_close_reply {
                1
            } else {
                0
            },
            up_close_danmu: if s.up_close_danmu {
                1
            } else {
                0
            },
            atomic_int: s.atomic_int,
            watermark: 0,
        }
    }

    /// The current configuration for a legacy one: the built-in global
    /// settings and one account, `uid` named `username` logging in with
    /// `cookie` (as checked against the legacy cookie file), holding one
    /// template per legacy streamer under the streamer's name.
    pub fn convert_legacy_to_user_config(
        legacy: LegacyConfig,
        uid: u64,
        username: String,
        cookie: biliup::client::LoginInfo,
    ) -> (r: ConfigRoot)
        ensures
            r.max_curr == 1,
            r.auto_start,
            r.auto_upload,
            r.log_level@ == crate::config::DEFAULT_LOG_LEVEL@,
            r.translation_api_url@.len() == 0,
            r.translation_api_key@.len() == 0,
            r.translation_model@.len() == 0,
            r.translation_prompt@ == crate::config::DEFAULT_TRANSLATION_PROMPT@,
            !r.translation_auto,
            names_unique_streamers(legacy.streamers@) ==> r.wf(),
            r.config@.dom() == set![uid],
            ({
                let c = r.config@[uid];
                &&& c.user.uid == uid
                &&& c.user.name == username
                &&& c.user.cookie == cookie
                &&& c.proxy.is_none()
                &&& c.line == legacy.line
                &&& c.limit == legacy.limit
                &&& c.watermark == 0
                &&& c.auto_edit == 0
                &&& c.templates@.len() == legacy.streamers@.len()
                &&& forall|i: int|
                    0 <= i < legacy.streamers@.len() ==> (#[trigger] c.templates@[i]).name
                        == legacy.streamers@[i].name && converted_template(
                        c.templates@[i].template,
                        legacy.streamers@[i].config,
                    )
            }),
    {
        let ghost streamers = legacy.streamers@;
        let mut templates: Vec<NamedTemplate> = Vec::new();
        let mut rest = legacy.streamers;
        let n = rest.len();
        let mut k: usize = 0;
        while k < n
            invariant
                n == streamers.len(),
                k <= n,
                rest@ == streamers.skip(k as int),
                templates@.len() == k,
                forall|i: int|
                    0 <= i < k ==> (#[trigger] templates@[i]).name == streamers[i].name
                        && converted_template(templates@[i].template, streamers[i].config),
            decreases n - k,
        {
            let s = rest.remove(0);
            proof {
                assert(s == streamers[k as int]);
                assert(rest@ =~= streamers.skip(k + 1));
            }
            templates.push(
                NamedTemplate { name: s.name, template: CompatibilityConverter::convert_streamer(s.config) },
            );
            k = k + 1;
        }
        let user_config = UserConfig {
            user: UserInfo { uid, name: username, cookie },
            proxy: None,
            line: legacy.line,
            limit: legacy.limit,
            watermark: 0,
            auto_edit: 0,
            templates,
        };
        let mut config_root = ConfigRoot::default();
        config_root.add_user_config(user_config);
        proof {
            assert(config_root.config@.dom() =~= set![uid]);
            if names_unique_streamers(streamers) {
                let ts = config_root.config@[uid].templates@;
                assert forall|i: int, j: int|
                    0 <= i < ts.len() && 0 <= j < ts.len() && i != j implies (#[trigger] ts[i]).name@
                    != (#[trigger] ts[j]).name@ by {
                    assert(ts[i].name == streamers[i].name);
                    assert(ts[j].name == streamers[j].name);
                }
                assert(config_root.config@[uid].wf());
            }
        }
        config_root
    }
}

} // verus!
