//! The application's configuration: global settings, the accounts with their
//! per-account settings, and each account's named metadata templates.
use std::collections::HashMap;

use vstd::prelude::*;

use crate::text::{is_blank, trimmed};

verus! {

broadcast use vstd::std_specs::hash::group_hash_axioms;

/// `biliup::client::LoginInfo`, the login data (cookies and tokens) the
/// upload client keeps for an account; carried through unread.
#[verifier::external_type_specification]
#[verifier::external_body]
pub struct ExLoginInfo(biliup::client::LoginInfo);

/// Log level used when the configuration names none.
pub const DEFAULT_LOG_LEVEL: &'static str = "info";

/// Prompt for the title translator when the configuration names none.
pub const DEFAULT_TRANSLATION_PROMPT: &'static str = "You are a professional video title translator. Translate the input title into concise, natural Simplified Chinese. Keep product names, proper nouns, and abbreviations accurate. Output only the translated title without explanation or quotes.";

/// The log level used when the configuration names none.
pub fn default_log_level() -> (r: String)
    ensures
        r@ == DEFAULT_LOG_LEVEL@,
{
    String::from_str(DEFAULT_LOG_LEVEL)
}

/// The translation prompt used when the configuration names none.
pub fn default_translation_prompt() -> (r: String)
    ensures
        r@ == DEFAULT_TRANSLATION_PROMPT@,
{
    String::from_str(DEFAULT_TRANSLATION_PROMPT)
}

/// Subtitle settings of a template.
#[derive(Clone, Debug)]
pub struct Subtitle {
    pub open: u8,
    pub lan: String,
}

impl Default for Subtitle {
    fn default() -> (r: Subtitle)
        ensures
            r.open == 0,
            r.lan@ == Seq::<char>::empty(),
    {
        Subtitle { open: 0, lan: String::new() }
    }
}

/// One video file of a template, local or already on the platform.
#[derive(Clone, Debug)]
pub struct VideoInfo {
    pub id: String,
    pub cid: u64,
    pub title: String,
    pub filename: String,
    pub desc: String,
    pub path: String,
    pub finished_at: u64,
    pub encoding_status: i64,
    pub status_desc: String,
    pub group_key: String,
    pub group_role: String,
}

/// The metadata of a submission: what the account fills in once and reuses.
#[derive(Clone, Debug)]
pub struct TemplateConfig {
    /// 1: own work, 2: repost.
    pub copyright: u8,
    pub source: String,
    /// Category id.
    pub tid: u32,
    /// Cover image URL.
    pub cover: String,
    pub title: String,
    pub title_prefix: String,
    pub desc: String,
    pub desc_v2: Option<String>,
    pub dynamic: String,
    pub subtitle: Subtitle,
    pub tag: String,
    pub videos: Vec<VideoInfo>,
    /// Scheduled publication time.
    pub dtime: Option<u32>,
    pub open_subtitle: bool,
    pub interactive: u8,
    pub mission_id: Option<u32>,
    pub topic_id: Option<u32>,
    pub season_id: Option<u64>,
    pub section_id: Option<u64>,
    pub dolby: u8,
    /// Hi-Res lossless audio.
    pub lossless_music: u8,
    pub no_reprint: u8,
    pub open_elec: u8,
    /// The submission this template edits, if it already exists.
    pub aid: Option<u64>,
    pub up_selection_reply: u8,
    pub up_close_reply: u8,
    pub up_close_danmu: u8,
    pub atomic_int: u32,
    pub is_only_self: u8,
    pub watermark: u8,
}

impl Default for TemplateConfig {
    /// An empty template for the account's own work.
    fn default() -> (r: TemplateConfig)
        ensures
            r.copyright == 1,
            r.source@.len() == 0,
            r.tid == 0,
            r.cover@.len() == 0,
            r.title@.len() == 0,
            r.title_prefix@.len() == 0,
            r.desc@.len() == 0,
            r.desc_v2.is_none(),
            r.dynamic@.len() == 0,
            r.subtitle.open == 0,
            r.subtitle.lan@.len() == 0,
            r.tag@.len() == 0,
            r.videos@.len() == 0,
            r.dtime.is_none(),
            !r.open_subtitle,
            r.interactive == 0,
            r.mission_id.is_none(),
            r.topic_id.is_none(),
            r.season_id.is_none(),
            r.section_id.is_none(),
            r.dolby == 0,
            r.lossless_music == 0,
            r.no_reprint == 0,
            r.open_elec == 0,
            r.aid.is_none(),
            r.up_selection_reply == 0,
            r.up_close_reply == 0,
            r.up_close_danmu == 0,
            r.atomic_int == 0,
            r.is_only_self == 0,
            r.watermark == 0,
    {
        TemplateConfig {
            copyright: 1,
            source: String::new(),
            tid: 0,
            cover: String::new(),
            title: String::new(),
            title_prefix: String::new(),
            desc: String::new(),
            desc_v2: None,
            dynamic: String::new(),
            subtitle: Subtitle::default(),
            tag: String::new(),
            videos: Vec::new(),
            dtime: None,
            open_subtitle: false,
            interactive: 0,
            mission_id: None,
            topic_id: None,
            season_id: None,
            section_id: None,
            dolby: 0,
            lossless_music: 0,
            no_reprint: 0,
            open_elec: 0,
            aid: None,
            up_selection_reply: 0,
            up_close_reply: 0,
            up_close_danmu: 0,
            atomic_int: 0,
            is_only_self: 0,
            watermark: 0,
        }
    }
}

/// `a` and `b` hold the same subtitle setting.
pub open spec fn same_subtitle(a: Subtitle, b: Subtitle) -> bool {
    a.open == b.open && a.lan@ == b.lan@
}

/// `a` and `b` describe the same video.
pub open spec fn same_video(a: VideoInfo, b: VideoInfo) -> bool {
    &&& a.id@ == b.id@
    &&& a.cid == b.cid
    &&& a.title@ == b.title@
    &&& a.filename@ == b.filename@
    &&& a.desc@ == b.desc@
    &&& a.path@ == b.path@
    &&& a.finished_at == b.finished_at
    &&& a.encoding_status == b.encoding_status
    &&& a.status_desc@ == b.status_desc@
    &&& a.group_key@ == b.group_key@
    &&& a.group_role@ == b.group_role@
}

/// The text of an optional string.
pub open spec fn opt_text(s: Option<String>) -> Option<Seq<char>> {
    match s {
        Some(t) => Some(t@),
        None => None,
    }
}

/// `a` and `b` hold the same template: equal numbers and flags, equal texts,
/// the same videos in the same order.
pub open spec fn same_template(a: TemplateConfig, b: TemplateConfig) -> bool {
    &&& a.copyright == b.copyright
    &&& a.source@ == b.source@
    &&& a.tid == b.tid
    &&& a.cover@ == b.cover@
    &&& a.title@ == b.title@
    &&& a.title_prefix@ == b.title_prefix@
    &&& a.desc@ == b.desc@
    &&& opt_text(a.desc_v2) == opt_text(b.desc_v2)
    &&& a.dynamic@ == b.dynamic@
    &&& same_subtitle(a.subtitle, b.subtitle)
    &&& a.tag@ == b.tag@
    &&& a.videos@.len() == b.videos@.len()
    &&& forall|i: int| 0 <= i < a.videos@.len() ==> same_video(#[trigger] a.videos@[i], b.videos@[i])
    &&& a.dtime == b.dtime
    &&& a.open_subtitle == b.open_subtitle
    &&& a.interactive == b.interactive
    &&& a.mission_id == b.mission_id
    &&& a.topic_id == b.topic_id
    &&& a.season_id == b.season_id
    &&& a.section_id == b.section_id
    &&& a.dolby == b.dolby
    &&& a.lossless_music == b.lossless_music
    &&& a.no_reprint == b.no_reprint
    &&& a.open_elec == b.open_elec
    &&& a.aid == b.aid
    &&& a.up_selection_reply == b.up_selection_reply
    &&& a.up_close_reply == b.up_close_reply
    &&& a.up_close_danmu == b.up_close_danmu
    &&& a.atomic_int == b.atomic_int
    &&& a.is_only_self == b.is_only_self
    &&& a.watermark == b.watermark
}

fn copy_text(s: &String) -> (r: String)
    ensures
        r@ == s@,
{
    s.clone()
}

fn copy_opt_text(s: &Option<String>) -> (r: Option<String>)
    ensures
        opt_text(r) == opt_text(*s),
{
    match s {
        Some(t) => Some(t.clone()),
        None => None,
    }
}

impl VideoInfo {
    /// A copy of this video.
    pub fn duplicate(&self) -> (r: VideoInfo)
        ensures
            same_video(r, *self),
    {
        VideoInfo {
            id: copy_text(&self.id),
            cid: self.cid,
            title: copy_text(&self.title),
            filename: copy_text(&self.filename),
            desc: copy_text(&self.desc),
            path: copy_text(&self.path),
            finished_at: self.finished_at,
            encoding_status: self.encoding_status,
            status_desc: copy_text(&self.status_desc),
            group_key: copy_text(&self.group_key),
            group_role: copy_text(&self.group_role),
        }
    }
}

impl TemplateConfig {
    /// A copy of this template.
    pub fn duplicate(&self) -> (r: TemplateConfig)
        ensures
            same_template(r, *self),
    {
        let mut videos: Vec<VideoInfo> = Vec::new();
        let mut k: usize = 0;
        while k < self.videos.len()
            invariant
                k <= self.videos@.len(),
                videos@.len() == k,
                forall|i: int| 0 <= i < k ==> same_video(#[trigger] videos@[i], self.videos@[i]),
            decreases self.videos@.len() - k,
        {
            videos.push(self.videos[k].duplicate());
            k = k + 1;
        }
        TemplateConfig {
            copyright: self.copyright,
            source: copy_text(&self.source),
            tid: self.tid,
            cover: copy_text(&self.cover),
            title: copy_text(&self.title),
            title_prefix: copy_text(&self.title_prefix),
            desc: copy_text(&self.desc),
            desc_v2: copy_opt_text(&self.desc_v2),
            dynamic: copy_text(&self.dynamic),
            subtitle: Subtitle { open: self.subtitle.open, lan: copy_text(&self.subtitle.lan) },
            tag: copy_text(&self.tag),
            videos,
            dtime: self.dtime,
            open_subtitle: self.open_subtitle,
            interactive: self.interactive,
            mission_id: self.mission_id,
            topic_id: self.topic_id,
            season_id: self.season_id,
            section_id: self.section_id,
            dolby: self.dolby,
            lossless_music: self.lossless_music,
            no_reprint: self.no_reprint,
            open_elec: self.open_elec,
            aid: self.aid,
            up_selection_reply: self.up_selection_reply,
            up_close_reply: self.up_close_reply,
            up_close_danmu: self.up_close_danmu,
            atomic_int: self.atomic_int,
            is_only_self: self.is_only_self,
            watermark: self.watermark,
        }
    }
}

/// `a` and `b` have the same global settings.
pub open spec fn same_globals(a: ConfigRoot, b: ConfigRoot) -> bool {
    &&& a.max_curr == b.max_curr
    &&& a.auto_upload == b.auto_upload
    &&& a.auto_start == b.auto_start
    &&& a.log_level == b.log_level
    &&& a.translation_api_url == b.translation_api_url
    &&& a.translation_api_key == b.translation_api_key
    &&& a.translation_model == b.translation_model
    &&& a.translation_prompt == b.translation_prompt
    &&& a.translation_auto == b.translation_auto
}

/// A template under its name.
#[derive(Clone, Debug)]
pub struct NamedTemplate {
    pub name: String,
    pub template: TemplateConfig,
}

/// `i` is the first position among `ts` of a template named `name`.
pub open spec fn first_named(ts: Seq<NamedTemplate>, name: Seq<char>, i: int) -> bool {
    &&& 0 <= i < ts.len()
    &&& ts[i].name@ == name
    &&& forall|j: int| 0 <= j < i ==> (#[trigger] ts[j]).name@ != name
}

/// No two templates among `ts` share a name.
pub open spec fn names_unique(ts: Seq<NamedTemplate>) -> bool {
    forall|i: int, j: int|
        0 <= i < ts.len() && 0 <= j < ts.len() && i != j ==> (#[trigger] ts[i]).name@ != (
        #[trigger] ts[j]).name@
}

/// No template among `ts` is named `name`.
pub open spec fn none_named(ts: Seq<NamedTemplate>, name: Seq<char>) -> bool {
    forall|j: int| 0 <= j < ts.len() ==> (#[trigger] ts[j]).name@ != name
}

/// Position of the first template named `name`.
pub fn find_template(ts: &Vec<NamedTemplate>, name: &str) -> (r: Option<usize>)
    ensures
        match r {
            Some(i) => first_named(ts@, name@, i as int),
            None => none_named(ts@, name@),
        },
{
    let key = String::from_str(name);
    let mut k: usize = 0;
    while k < ts.len()
        invariant
            key@ == name@,
            k <= ts@.len(),
            forall|j: int| 0 <= j < k ==> (#[trigger] ts@[j]).name@ != name@,
        decreases ts@.len() - k,
    {
        if ts[k].name == key {
            return Some(k);
        }
        k = k + 1;
    }
    None
}

/// An account: who it is and how it logs in.
pub struct UserInfo {
    pub uid: u64,
    pub name: String,
    pub cookie: biliup::client::LoginInfo,
}

/// An account's settings and templates.
pub struct UserConfig {
    pub user: UserInfo,
    /// Upload line.
    pub line: Option<String>,
    pub proxy: Option<String>,
    pub limit: u32,
    pub watermark: u8,
    pub auto_edit: u8,
    /// Templates by name. A vector with unique names (see `wf`) rather than a
    /// map: hashing of `String` keys has no specification to reason with.
    pub templates: Vec<NamedTemplate>,
}

impl UserConfig {
    /// Template names are unique within an account, as keys of a map are.
    pub open spec fn wf(&self) -> bool {
        names_unique(self.templates@)
    }
}

/// Errors of configuration edits.
#[derive(Clone, Copy, Debug, PartialEq, Eq, Structural)]
pub enum ConfigError {
    /// No account has the given uid.
    UserNotFound,
}

/// What a template command answers.
pub struct TemplateCommandResponse {
    pub success: bool,
    pub message: String,
    pub template: Option<TemplateConfig>,
}

/// The whole configuration.
pub struct ConfigRoot {
    pub max_curr: u32,
    pub auto_upload: bool,
    pub auto_start: bool,
    pub log_level: String,
    pub translation_api_url: String,
    pub translation_api_key: String,
    pub translation_model: String,
    pub translation_prompt: String,
    pub translation_auto: bool,
    /// Accounts by uid.
    pub config: HashMap<u64, UserConfig>,
}

/// `c` is a new account's configuration with no templates and default
/// settings.
pub open spec fn is_new_user_config(
    c: UserConfig,
    uid: u64,
    username: String,
    cookie: biliup::client::LoginInfo,
    proxy: Option<String>,
) -> bool {
    &&& c.user.uid == uid
    &&& c.user.name == username
    &&& c.user.cookie == cookie
    &&& c.line.is_none()
    &&& c.proxy == proxy
    &&& c.limit == 0
    &&& c.watermark == 0
    &&& c.auto_edit == 0
    &&& c.templates@.len() == 0
}

impl ConfigRoot {
    /// Every account's template names are unique.
    pub open spec fn wf(&self) -> bool {
        forall|uid: u64| self.config@.contains_key(uid) ==> (#[trigger] self.config@[uid]).wf()
    }

    /// The built-in configuration: one upload at a time, automatic start and
    /// upload, the default log level and prompt, no accounts.
    pub fn default() -> (r: ConfigRoot)
        ensures
            r.max_curr == 1,
            r.auto_start,
            r.auto_upload,
            r.log_level@ == DEFAULT_LOG_LEVEL@,
            r.translation_api_url@.len() == 0,
            r.translation_api_key@.len() == 0,
            r.translation_model@.len() == 0,
            r.translation_prompt@ == DEFAULT_TRANSLATION_PROMPT@,
            !r.translation_auto,
            r.config@ == Map::<u64, UserConfig>::empty(),
            r.wf(),
    {
        ConfigRoot {
            max_curr: 1,
            auto_start: true,
            auto_upload: true,
            log_level: default_log_level(),
            translation_api_url: String::new(),
            translation_api_key: String::new(),
            translation_model: String::new(),
            translation_prompt: default_translation_prompt(),
            translation_auto: false,
            config: HashMap::new(),
        }
    }

    /// Adds (or replaces) the account `uid` with default settings and no
    /// templates.
    pub fn new_user_config(
        &mut self,
        uid: u64,
        username: String,
        cookie: biliup::client::LoginInfo,
        proxy: Option<String>,
    )
        ensures
            final(self).config@.dom() == old(self).config@.dom().insert(uid),
            forall|k: u64| k != uid && old(self).config@.contains_key(k) ==> final(self).config@[k]
                == old(self).config@[k],
            is_new_user_config(final(self).config@[uid], uid, username, cookie, proxy),
            old(self).wf() ==> final(self).wf(),
            same_globals(*final(self), *old(self)),
    {
        let user_config = UserConfig {
            user: UserInfo { uid, name: username, cookie },
            line: None,
            proxy,
            limit: 0,
            watermark: 0,
            auto_edit: 0,
            templates: Vec::new(),
        };
        self.config.insert(uid, user_config);
        proof {
            assert(self.config@[uid].templates@.len() == 0);
            assert(self.config@[uid].wf());
        }
    }

    /// Adds (or replaces) an account's configuration under its own uid.
    pub fn add_user_config(&mut self, config: UserConfig)
        ensures
            final(self).config@ == old(self).config@.insert(config.user.uid, config),
            old(self).wf() && config.wf() ==> final(self).wf(),
            same_globals(*final(self), *old(self)),
    {
        let uid = config.user.uid;
        self.config.insert(uid, config);
    }

    /// Removes the account `uid`, or fails with `UserNotFound`.
    pub fn remove_user_config(&mut self, uid: u64) -> (r: Result<(), ConfigError>)
        ensures
            r is Ok <==> old(self).config@.contains_key(uid),
            r is Err ==> r == Err::<(), ConfigError>(ConfigError::UserNotFound),
            final(self).config@ == old(self).config@.remove(uid),
            old(self).wf() ==> final(self).wf(),
            same_globals(*final(self), *old(self)),
    {
        match self.config.remove(&uid) {
            Some(_) => Ok(()),
            None => {
                proof {
                    assert(old(self).config@.remove(uid) =~= old(self).config@);
                }
                Err(ConfigError::UserNotFound)
            },
        }
    }

    /// Replaces the settings of account `uid`, or fails with `UserNotFound`
    /// and changes nothing.
    pub fn save_user_config(
        &mut self,
        uid: u64,
        line: Option<String>,
        proxy: Option<String>,
        limit: u32,
        watermark: u8,
        auto_edit: u8,
    ) -> (r: Result<(), ConfigError>)
        ensures
            r is Ok <==> old(self).config@.contains_key(uid),
            r is Err ==> r == Err::<(), ConfigError>(ConfigError::UserNotFound)
                && final(self).config@ == old(self).config@,
            r is Ok ==> final(self).config@ == old(self).config@.insert(
                uid,
                UserConfig { line, proxy, limit, watermark, auto_edit, ..old(self).config@[uid] },
            ),
            old(self).wf() ==> final(self).wf(),
            same_globals(*final(self), *old(self)),
    {
        match self.config.remove(&uid) {
            Some(user_config) => {
                let mut user_config = user_config;
                user_config.line = line;
                user_config.proxy = proxy;
                user_config.limit = limit;
                user_config.watermark = watermark;
                user_config.auto_edit = auto_edit;
                self.config.insert(uid, user_config);
                proof {
                    assert(self.config@ =~= old(self).config@.insert(
                        uid,
                        UserConfig { line, proxy, limit, watermark, auto_edit, ..old(self).config@[uid] },
                    ));
                }
                Ok(())
            },
            None => {
                proof {
                    assert(self.config@ =~= old(self).config@);
                }
                Err(ConfigError::UserNotFound)
            },
        }
    }

    /// Replaces the global settings; a blank translation prompt is replaced
    /// by the default one.
    pub fn save_global_config(
        &mut self,
        max_curr: u32,
        auto_start: bool,
        auto_upload: bool,
        log_level: String,
        translation_api_url: String,
        translation_api_key: String,
        translation_model: String,
        translation_prompt: String,
        translation_auto: bool,
    )
        ensures
            final(self).max_curr == max_curr,
            final(self).auto_start == auto_start,
            final(self).auto_upload == auto_upload,
            final(self).log_level == log_level,
            final(self).translation_api_url == translation_api_url,
            final(self).translation_api_key == translation_api_key,
            final(self).translation_model == translation_model,
            trimmed(translation_prompt@).len() == 0 ==> final(self).translation_prompt@
                == DEFAULT_TRANSLATION_PROMPT@,
            trimmed(translation_prompt@).len() != 0 ==> final(self).translation_prompt
                == translation_prompt,
            final(self).translation_auto == translation_auto,
            final(self).config@ == old(self).config@,
            old(self).wf() ==> final(self).wf(),
    {
        self.max_curr = max_curr;
        self.auto_start = auto_start;
        self.auto_upload = auto_upload;
        self.log_level = log_level;
        self.translation_api_url = translation_api_url;
        self.translation_api_key = translation_api_key;
        self.translation_model = translation_model;
        self.translation_prompt = if is_blank(translation_prompt.as_str()) {
            default_translation_prompt()
        } else {
            translation_prompt
        };
        self.translation_auto = translation_auto;
    }
}

impl ConfigRoot {
    /// Account `uid` exists and has a template named `name`.
    pub open spec fn has_template_spec(&self, uid: u64, name: Seq<char>) -> bool {
        self.config@.contains_key(uid) && !none_named(self.config@[uid].templates@, name)
    }

    /// Whether account `uid` exists and has a template named `template_name`.
    pub fn has_template(&self, uid: u64, template_name: &str) -> (r: bool)
        ensures
            r == self.has_template_spec(uid, template_name@),
    {
        match self.config.get(&uid) {
            Some(user_config) => match find_template(&user_config.templates, template_name) {
                Some(_) => true,
                None => false,
            },
            None => false,
        }
    }

    /// Stores `template` under `template_name` for account `uid`, replacing
    /// a template of that name, and returns a copy of it. An unknown account
    /// changes nothing.
    pub fn add_user_template(&mut self, uid: u64, template_name: &str, template: TemplateConfig) -> (r:
        TemplateConfig)
        ensures
            same_template(r, template),
            old(self).wf() ==> final(self).wf(),
            same_globals(*final(self), *old(self)),
            !old(self).config@.contains_key(uid) ==> final(self).config@ == old(self).config@,
            old(self).config@.contains_key(uid) ==> {
                let before = old(self).config@[uid];
                let after = final(self).config@[uid];
                let ts = before.templates@;
                let us = after.templates@;
                &&& final(self).config@ == old(self).config@.insert(uid, after)
                &&& after == UserConfig { templates: after.templates, ..before }
                &&& (exists|i: int|
                    first_named(ts, template_name@, i) && us.len() == ts.len() && us[i].name@
                        == template_name@ && us[i].template == template && forall|j: int|
                        0 <= j < ts.len() && j != i ==> #[trigger] us[j] == ts[j]) || (none_named(
                    ts,
                    template_name@,
                ) && us.len() == ts.len() + 1 && us.take(ts.len() as int) == ts
                    && us.last().name@ == template_name@ && us.last().template == template)
            },
    {
        let copy = template.duplicate();
        match self.config.remove(&uid) {
            None => {
                proof {
                    assert(self.config@ =~= old(self).config@);
                }
            },
            Some(user_config) => {
                let mut user_config = user_config;
                let ghost ts = user_config.templates@;
                let named = NamedTemplate { name: String::from_str(template_name), template };
                match find_template(&user_config.templates, template_name) {
                    Some(i) => {
                        user_config.templates.set(i, named);
                        proof {
                            let us = user_config.templates@;
                            assert forall|j: int| 0 <= j < ts.len() && j != i implies #[trigger] us[j]
                                == ts[j] by {}
                        }
                    },
                    None => {
                        user_config.templates.push(named);
                        proof {
                            assert(user_config.templates@.take(ts.len() as int) =~= ts);
                        }
                    },
                }
                let ghost after = user_config;
                self.config.insert(uid, user_config);
                proof {
                    assert(self.config@ =~= old(self).config@.insert(uid, after));
                    assert(after == UserConfig { templates: after.templates, ..old(self).config@[uid] });
                }
            },
        }
        copy
    }

    /// Removes the template named `template_name` of account `uid` and
    /// returns it; `None`, with nothing changed, where the account or the
    /// template does not exist.
    pub fn delete_user_template(&mut self, uid: u64, template_name: &str) -> (r: Option<TemplateConfig>)
        ensures
            same_globals(*final(self), *old(self)),
            old(self).wf() ==> final(self).wf(),
            !old(self).config@.contains_key(uid) ==> r is None && final(self).config@ == old(self).config@,
            old(self).config@.contains_key(uid) ==> {
                let before = old(self).config@[uid];
                let ts = before.templates@;
                match r {
                    Some(t) => exists|i: int|
                        first_named(ts, template_name@, i) && t == ts[i].template && final(self).config@ == old(self).config@.insert(
                            uid,
                            UserConfig { templates: final(self).config@[uid].templates, ..before },
                        ) && final(self).config@[uid].templates@ == ts.remove(i),
                    None => none_named(ts, template_name@) && final(self).config@ == old(self).config@,
                }
            },
    {
        match self.config.remove(&uid) {
            None => {
                proof {
                    assert(self.config@ =~= old(self).config@);
                }
                None
            },
            Some(user_config) => {
                let mut user_config = user_config;
                let ghost before = user_config;
                match find_template(&user_config.templates, template_name) {
                    Some(i) => {
                        let removed = user_config.templates.remove(i);
                        let ghost after = user_config;
                        self.config.insert(uid, user_config);
                        proof {
                            assert(self.config@ =~= old(self).config@.insert(uid, after));
                            assert(after == UserConfig { templates: after.templates, ..before });
                        }
                        Some(removed.template)
                    },
                    None => {
                        self.config.insert(uid, user_config);
                        proof {
                            assert(self.config@ =~= old(self).config@);
                        }
                        None
                    },
                }
            },
        }
    }
}

} // verus!
