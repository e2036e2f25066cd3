//! The submission form the platform's API expects, built from a template.
use vstd::prelude::*;

use crate::config::{TemplateConfig, VideoInfo};
use crate::text::{concat, is_blank, replace_all, replace_text, trimmed};

verus! {

/// Where a submission's topic comes from.
pub struct TopicDetail {
    pub from_topic_id: Option<u32>,
    pub from_source: Option<String>,
}

/// Watermark setting of a submission.
pub struct Watermark {
    pub state: u8,
}

/// Subtitle setting of a submission.
pub struct Subtitle {
    pub open: u8,
    pub lan: String,
}

/// Marks a submission as not being a 360-degree video.
pub const NOT_360_VIDEO: i64 = -1;

/// A submission in the platform's terms.
pub struct BilibiliForm {
    /// 1: own work, 2: repost.
    pub copyright: u8,
    pub source: String,
    pub tid: u16,
    pub cover: String,
    pub title: String,
    pub desc_format_id: u32,
    pub desc: String,
    pub desc_v2: Option<()>,
    pub dynamic: String,
    pub subtitle: Subtitle,
    /// Comma-separated tags.
    pub tag: String,
    pub videos: Vec<VideoInfo>,
    /// Scheduled publication time, a 10-digit timestamp.
    pub dtime: Option<u32>,
    pub open_subtitle: bool,
    pub interactive: u8,
    pub mission_id: Option<u32>,
    pub dolby: u8,
    pub lossless_music: u8,
    /// 0: reposting allowed, 1: forbidden.
    pub no_reprint: u8,
    pub charging_pay: u8,
    /// The submission to append to.
    pub aid: Option<u64>,
    pub up_selection_reply: bool,
    pub up_close_reply: bool,
    pub up_close_danmu: bool,
    pub topic_id: Option<u32>,
    pub topic_detail: Option<TopicDetail>,
    pub is_only_self: u8,
    pub watermark: Watermark,
    pub is_360: i64,
}

/// The title a submission shows: the prefix before the title, unless the
/// prefix is blank.
pub open spec fn merged_title(prefix: Seq<char>, title: Seq<char>) -> Seq<char> {
    if trimmed(prefix).len() == 0 {
        title
    } else {
        prefix + title
    }
}

impl TemplateConfig {
    /// The submission form for this template: the title carries the prefix,
    /// the cover URL loses its `https:` scheme, flags stored as numbers become
    /// booleans, and the topic, visibility and watermark settings travel as
    /// extra fields.
    pub fn into_bilibili_form(self) -> (r: BilibiliForm)
        ensures
            r.copyright == self.copyright,
            r.source == self.source,
            r.tid == self.tid as u16,
            r.cover@ == replace_all(self.cover@, "https:"@, ""@),
            r.title@ == merged_title(self.title_prefix@, self.title@),
            r.desc_format_id == 0,
            r.desc == self.desc,
            r.desc_v2.is_none(),
            r.dynamic == self.dynamic,
            r.subtitle.open == (if self.open_subtitle {
                1u8
            } else {
                0u8
            }),
            r.subtitle.lan@.len() == 0,
            r.tag == self.tag,
            r.videos == self.videos,
            r.dtime == self.dtime,
            r.open_subtitle == self.open_subtitle,
            r.interactive == self.interactive,
            r.mission_id == self.mission_id,
            r.dolby == self.dolby,
            r.lossless_music == self.lossless_music,
            r.no_reprint == self.no_reprint,
            r.charging_pay == self.open_elec,
            r.aid == self.aid,
            r.up_selection_reply == (self.up_selection_reply > 0),
            r.up_close_reply == (self.up_close_reply > 0),
            r.up_close_danmu == (self.up_close_danmu > 0),
            r.topic_id == self.topic_id,
            match self.topic_id {
                Some(id) => r.topic_detail matches Some(d) && d.from_topic_id == Some(id)
                    && d.from_source.is_none(),
                None => r.topic_detail.is_none(),
            },
            r.is_only_self == self.is_only_self,
            r.watermark.state == self.watermark,
            r.is_360 == NOT_360_VIDEO,
    {
        let title = if is_blank(self.title_prefix.as_str()) {
            self.title
        } else {
            concat(self.title_prefix.as_str(), self.title.as_str())
        };
        let topic_detail = match self.topic_id {
            Some(id) => Some(TopicDetail { from_topic_id: Some(id), from_source: None }),
            None => None,
        };
        proof {
            reveal_strlit("https:");
        }
        let cover = replace_text(self.cover.as_str(), "https:", "");
        BilibiliForm {
            copyright: self.copyright,
            source: self.source,
            tid: self.tid as u16,
            cover,
            title,
            desc_format_id: 0,
            desc: self.desc,
            desc_v2: None,
            dynamic: self.dynamic,
            subtitle: Subtitle {
                open: if self.open_subtitle {
                    1
                } else {
                    0
                },
                lan: String::new(),
            },
            tag: self.tag,
            videos: self.videos,
            dtime: self.dtime,
            open_subtitle: self.open_subtitle,
            interactive: self.interactive,
            mission_id: self.mission_id,
            dolby: self.dolby,
            lossless_music: self.lossless_music,
            no_reprint: self.no_reprint,
            charging_pay: self.open_elec,
            aid: self.aid,
            up_selection_reply: self.up_selection_reply > 0,
            up_close_reply: self.up_close_reply > 0,
            up_close_danmu: self.up_close_danmu > 0,
            topic_id: self.topic_id,
            topic_detail,
            is_only_self: self.is_only_self,
            watermark: Watermark { state: self.watermark },
            is_360: NOT_360_VIDEO,
        }
    }
}

} // verus!
