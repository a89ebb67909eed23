//! One row of the `message` table and what can be derived from it.
use vstd::prelude::*;
use vstd::utf8::{encode_utf8, is_char_boundary};

use crate::archive::Archivable;
use crate::dates::{
    get_local_time, readable_diff, spec_diff_text, spec_unix_seconds, MAX_UNIX_SECONDS,
    MIN_UNIX_SECONDS,
};
use crate::error::MessageError;
use crate::message_types::{
    Announcement, BubbleEffect, CustomBalloon, CustomBalloonView, EditStatus, EditedMessage,
    Expressive, ScreenEffect, Service, Tapback, TapbackView, Variant, VariantView,
};
use crate::parse::{
    find_byte, find_byte_exec, parse_usize, spec_parse_usize, strip_part_marker,
    strip_part_marker_exec, sub_bytes,
};
use crate::strings::{find_char, find_char_exec, str_eq, str_get, trim_str, trimmed};

verus! {

pub const URL_PROVIDER: &'static str = "com.apple.messages.URLBalloonProvider";
pub const HANDWRITING_PROVIDER: &'static str = "com.apple.Handwriting.HandwritingProvider";
pub const DIGITAL_TOUCH_PROVIDER: &'static str = "com.apple.DigitalTouchBalloonProvider";
pub const APPLE_PAY_PROVIDER: &'static str = "com.apple.PassbookUIService.PeerPaymentMessagesExtension";
pub const FITNESS_PROVIDER: &'static str = "com.apple.ActivityMessagesApp.MessagesExtension";
pub const SLIDESHOW_PROVIDER: &'static str = "com.apple.mobileslideshow.PhotosMessagesApp";
pub const CHECK_IN_PROVIDER: &'static str = "com.apple.SafetyMonitorApp.SafetyMonitorMessages";
pub const FIND_MY_PROVIDER: &'static str = "com.apple.findmy.FindMyMessagesApp";

pub const GENTLE: &'static str = "com.apple.MobileSMS.expressivesend.gentle";
pub const IMPACT: &'static str = "com.apple.MobileSMS.expressivesend.impact";
pub const INVISIBLE_INK: &'static str = "com.apple.MobileSMS.expressivesend.invisibleink";
pub const LOUD: &'static str = "com.apple.MobileSMS.expressivesend.loud";
pub const CONFETTI: &'static str = "com.apple.messages.effect.CKConfettiEffect";
pub const ECHO: &'static str = "com.apple.messages.effect.CKEchoEffect";
pub const FIREWORKS: &'static str = "com.apple.messages.effect.CKFireworksEffect";
pub const BALLOONS: &'static str = "com.apple.messages.effect.CKHappyBirthdayEffect";
pub const HEART: &'static str = "com.apple.messages.effect.CKHeartEffect";
pub const LASERS: &'static str = "com.apple.messages.effect.CKLasersEffect";
pub const SHOOTING_STAR: &'static str = "com.apple.messages.effect.CKShootingStarEffect";
pub const SPARKLES: &'static str = "com.apple.messages.effect.CKSparklesEffect";
pub const SPOTLIGHT: &'static str = "com.apple.messages.effect.CKSpotlightEffect";

/// A single row of the `message` table.
#[derive(Debug)]
pub struct Message {
    pub rowid: i32,
    pub guid: String,
    /// The text of the message, once decoded from its body.
    pub text: Option<String>,
    /// The service the message was sent through.
    pub service: Option<String>,
    /// The sender's handle.
    pub handle_id: Option<i32>,
    pub destination_caller_id: Option<String>,
    pub subject: Option<String>,
    /// When the message was written, in nanoseconds since the stored epoch.
    pub date: i64,
    pub date_read: i64,
    pub date_delivered: i64,
    /// Whether the database owner sent the message.
    pub is_from_me: bool,
    pub is_read: bool,
    pub item_type: i32,
    /// The other party of shared content.
    pub other_handle: i32,
    /// Whether shared data, such as a location, is active.
    pub share_status: bool,
    /// `false` when shared data was sent by the database owner.
    pub share_direction: bool,
    /// The new name of a renamed group chat.
    pub group_title: Option<String>,
    /// Nonzero when the message changed the group.
    pub group_action_type: i32,
    /// The message this one reacts to.
    pub associated_message_guid: Option<String>,
    pub associated_message_type: Option<i32>,
    /// The bundle identifier of the application that made the message.
    pub balloon_bundle_id: Option<String>,
    pub expressive_send_style_id: Option<String>,
    /// The first message of the thread this one replies to.
    pub thread_originator_guid: Option<String>,
    /// The part of that message being replied to.
    pub thread_originator_part: Option<String>,
    pub date_edited: i64,
    /// The emoji of a custom emoji reaction.
    pub associated_message_emoji: Option<String>,
    pub chat_id: Option<i32>,
    pub num_attachments: i32,
    /// The chat the message was deleted from.
    pub deleted_from: Option<i32>,
    pub num_replies: i32,
    /// The decoded body of the message.
    pub components: Option<Vec<Archivable>>,
    /// The edit history of the message.
    pub edited_parts: Option<EditedMessage>,
}

pub open spec fn opt_view(s: Option<String>) -> Option<Seq<char>> {
    match s {
        Some(x) => Some(x@),
        None => None,
    }
}

/// The application identifier within a balloon bundle identifier: the whole
/// identifier when it has no `:`, else its third `:`-separated field.
pub open spec fn spec_balloon_app(id: Seq<char>) -> Option<Seq<char>> {
    match find_char(id, ':', 0) {
        None => Some(id),
        Some(c1) => match find_char(id, ':', c1 + 1) {
            None => None,
            Some(c2) => match find_char(id, ':', c2 + 1) {
                None => Some(id.subrange(c2 + 1, id.len() as int)),
                Some(c3) => Some(id.subrange(c2 + 1, c3)),
            },
        },
    }
}

pub open spec fn balloon_of(b: Seq<char>) -> CustomBalloonView {
    if b == URL_PROVIDER@ {
        CustomBalloonView::URL
    } else if b == HANDWRITING_PROVIDER@ {
        CustomBalloonView::Handwriting
    } else if b == DIGITAL_TOUCH_PROVIDER@ {
        CustomBalloonView::DigitalTouch
    } else if b == APPLE_PAY_PROVIDER@ {
        CustomBalloonView::ApplePay
    } else if b == FITNESS_PROVIDER@ {
        CustomBalloonView::Fitness
    } else if b == SLIDESHOW_PROVIDER@ {
        CustomBalloonView::Slideshow
    } else if b == CHECK_IN_PROVIDER@ {
        CustomBalloonView::CheckIn
    } else if b == FIND_MY_PROVIDER@ {
        CustomBalloonView::FindMy
    } else {
        CustomBalloonView::Application(b)
    }
}

/// The index and message identifier named by an associated message GUID, as
/// bytes of the GUID: `p:<index>/<36 bytes>...`, `bp:<36 bytes>` or `<36 bytes>...`.
pub open spec fn spec_clean_guid(g: Seq<u8>) -> Option<(usize, Seq<u8>)> {
    if g.len() >= 2 && g[0] == 0x70 && g[1] == 0x3a {
        match find_byte(g, 0x2f, 0) {
            None => None,
            Some(s1) => {
                let end = match find_byte(g, 0x2f, s1 + 1) {
                    Some(s2) => s2,
                    None => g.len() as int,
                };
                let index = match spec_parse_usize(strip_part_marker(g.subrange(0, s1))) {
                    Some(v) => v,
                    None => 0,
                };
                let a = s1 + 1;
                if a + 36 <= end && is_char_boundary(g, a) && is_char_boundary(g, a + 36) {
                    Some((index, g.subrange(a, a + 36)))
                } else {
                    None
                }
            },
        }
    } else if g.len() >= 3 && g[0] == 0x62 && g[1] == 0x70 && g[2] == 0x3a {
        if 39 <= g.len() && is_char_boundary(g, 3) && is_char_boundary(g, 39) {
            Some((0, g.subrange(3, 39)))
        } else {
            None
        }
    } else {
        if 36 <= g.len() && is_char_boundary(g, 0) && is_char_boundary(g, 36) {
            Some((0, g.subrange(0, 36)))
        } else {
            None
        }
    }
}

pub open spec fn tapback_of(k: int, emoji: Option<Seq<char>>) -> TapbackView {
    if k == 0 {
        TapbackView::Loved
    } else if k == 1 {
        TapbackView::Liked
    } else if k == 2 {
        TapbackView::Disliked
    } else if k == 3 {
        TapbackView::Laughed
    } else if k == 4 {
        TapbackView::Emphasized
    } else if k == 5 {
        TapbackView::Questioned
    } else {
        TapbackView::Emoji(emoji)
    }
}

/// The service named by a trimmed service name.
pub open spec fn is_service_named(r: Service, name: Seq<char>) -> bool {
    if name == "iMessage"@ {
        r == Service::iMessage
    } else if name == "SMS"@ {
        r == Service::SMS
    } else if name == "rcs"@ {
        r == Service::RCS
    } else {
        r is Other && r->Other_0@ == name
    }
}

/// The expressive named by an effect identifier.
pub open spec fn is_expressive_named(r: Expressive, id: Seq<char>) -> bool {
    if id == GENTLE@ {
        r == Expressive::Bubble(BubbleEffect::Gentle)
    } else if id == IMPACT@ {
        r == Expressive::Bubble(BubbleEffect::Slam)
    } else if id == INVISIBLE_INK@ {
        r == Expressive::Bubble(BubbleEffect::InvisibleInk)
    } else if id == LOUD@ {
        r == Expressive::Bubble(BubbleEffect::Loud)
    } else if id == CONFETTI@ {
        r == Expressive::Screen(ScreenEffect::Confetti)
    } else if id == ECHO@ {
        r == Expressive::Screen(ScreenEffect::Echo)
    } else if id == FIREWORKS@ {
        r == Expressive::Screen(ScreenEffect::Fireworks)
    } else if id == BALLOONS@ {
        r == Expressive::Screen(ScreenEffect::Balloons)
    } else if id == HEART@ {
        r == Expressive::Screen(ScreenEffect::Heart)
    } else if id == LASERS@ {
        r == Expressive::Screen(ScreenEffect::Lasers)
    } else if id == SHOOTING_STAR@ {
        r == Expressive::Screen(ScreenEffect::ShootingStar)
    } else if id == SPARKLES@ {
        r == Expressive::Screen(ScreenEffect::Sparkles)
    } else if id == SPOTLIGHT@ {
        r == Expressive::Screen(ScreenEffect::Spotlight)
    } else {
        r is Unknown && r->Unknown_0@ == id
    }
}

/// The service named by `name`.
pub fn service_from_name<'a>(name: &'a str) -> (r: Service<'a>)
    ensures
        is_service_named(r, name@),
{
    if str_eq(name, "iMessage") {
        Service::iMessage
    } else if str_eq(name, "SMS") {
        Service::SMS
    } else if str_eq(name, "rcs") {
        Service::RCS
    } else {
        Service::Other(name)
    }
}

impl Message {
    pub open spec fn spec_fully_unsent(&self) -> bool {
        match self.edited_parts {
            Some(ep) => forall|i: int|
                0 <= i < ep.parts@.len() ==> #[trigger] ep.parts@[i].status == EditStatus::Unsent,
            None => false,
        }
    }

    pub open spec fn spec_balloon_id(&self) -> Option<Seq<char>> {
        match self.balloon_bundle_id {
            Some(b) => spec_balloon_app(b@),
            None => None,
        }
    }

    pub open spec fn spec_clean_guid(&self) -> Option<(usize, Seq<u8>)> {
        match self.associated_message_guid {
            Some(g) => spec_clean_guid(encode_utf8(g@)),
            None => None,
        }
    }

    pub open spec fn spec_tapback_index(&self) -> usize {
        match self.spec_clean_guid() {
            Some((i, _)) => i,
            None => 0,
        }
    }

    pub open spec fn spec_variant(&self) -> VariantView {
        if self.date_edited != 0 {
            VariantView::Edited
        } else {
            match self.associated_message_type {
                Some(t) => if t == 0 || t == 2 || t == 3 {
                    match self.spec_balloon_id() {
                        Some(b) => VariantView::App(balloon_of(b)),
                        None => VariantView::Normal,
                    }
                } else if t == 1000 || t == 2007 || t == 3007 {
                    VariantView::Sticker(self.spec_tapback_index())
                } else if 2000 <= t <= 2006 {
                    VariantView::Tapback(
                        self.spec_tapback_index(),
                        true,
                        tapback_of(t - 2000, opt_view(self.associated_message_emoji)),
                    )
                } else if 3000 <= t <= 3006 {
                    VariantView::Tapback(
                        self.spec_tapback_index(),
                        false,
                        tapback_of(t - 3000, opt_view(self.associated_message_emoji)),
                    )
                } else {
                    VariantView::Unknown(t)
                },
                None => if self.item_type == 6 {
                    VariantView::SharePlay
                } else {
                    VariantView::Normal
                },
            }
        }
    }

    pub open spec fn spec_is_sticker(&self) -> bool {
        self.spec_variant() is Sticker
    }

    pub open spec fn spec_is_tapback(&self) -> bool {
        self.spec_variant() is Tapback || (self.spec_is_sticker()
            && self.associated_message_guid is Some)
    }

    /// The time from one stored timestamp to another, in words.
    pub open spec fn spec_elapsed(&self, from: i64, to: i64, offset: i64) -> Option<Seq<char>> {
        let a = spec_unix_seconds(from, offset);
        let b = spec_unix_seconds(to, offset);
        if MIN_UNIX_SECONDS <= a <= MAX_UNIX_SECONDS && MIN_UNIX_SECONDS <= b <= MAX_UNIX_SECONDS
            && b >= a {
            Some(spec_diff_text((b - a) as nat))
        } else {
            None
        }
    }

    /// When the message was written, in Unix seconds.
    pub fn date(&self, offset: &i64) -> (r: Result<i64, MessageError>)
        ensures
            r == get_local_time_spec(self.date, *offset),
    {
        get_local_time(&self.date, offset)
    }

    /// When the message was delivered, in Unix seconds.
    pub fn date_delivered(&self, offset: &i64) -> (r: Result<i64, MessageError>)
        ensures
            r == get_local_time_spec(self.date_delivered, *offset),
    {
        get_local_time(&self.date_delivered, offset)
    }

    /// When the message was read, in Unix seconds.
    pub fn date_read(&self, offset: &i64) -> (r: Result<i64, MessageError>)
        ensures
            r == get_local_time_spec(self.date_read, *offset),
    {
        get_local_time(&self.date_read, offset)
    }

    /// When the message was last edited, in Unix seconds.
    pub fn date_edited(&self, offset: &i64) -> (r: Result<i64, MessageError>)
        ensures
            r == get_local_time_spec(self.date_edited, *offset),
    {
        get_local_time(&self.date_edited, offset)
    }

    /// How long the message waited to be read: from writing to reading for a
    /// received message, from writing to delivery for a sent one.
    pub fn time_until_read(&self, offset: &i64) -> (r: Option<String>)
        ensures
            opt_view(r) == if !self.is_from_me && self.date_read != 0 && self.date != 0 {
                self.spec_elapsed(self.date, self.date_read, *offset)
            } else if self.is_from_me && self.date_delivered != 0 && self.date != 0 {
                self.spec_elapsed(self.date, self.date_delivered, *offset)
            } else {
                None
            },
    {
        if !self.is_from_me && self.date_read != 0 && self.date != 0 {
            readable_diff(self.date(offset), self.date_read(offset))
        } else if self.is_from_me && self.date_delivered != 0 && self.date != 0 {
            readable_diff(self.date(offset), self.date_delivered(offset))
        } else {
            None
        }
    }

    /// Whether the message replies to a thread.
    pub fn is_reply(&self) -> (r: bool)
        ensures
            r == self.thread_originator_guid is Some,
    {
        self.thread_originator_guid.is_some()
    }

    /// Whether the message is an announcement.
    pub fn is_announcement(&self) -> (r: bool)
        ensures
            r == (self.group_title is Some || self.group_action_type != 0
                || self.spec_fully_unsent()),
    {
        self.group_title.is_some() || self.group_action_type != 0 || self.is_fully_unsent()
    }

    /// Whether the message reacts to another one.
    pub fn is_tapback(&self) -> (r: bool)
        ensures
            r == self.spec_is_tapback(),
    {
        let v = self.variant();
        let tapback = match v {
            Variant::Tapback(..) => true,
            _ => false,
        };
        tapback || (self.is_sticker() && self.associated_message_guid.is_some())
    }

    /// Whether the message is a sticker.
    pub fn is_sticker(&self) -> (r: bool)
        ensures
            r == self.spec_is_sticker(),
    {
        match self.variant() {
            Variant::Sticker(_) => true,
            _ => false,
        }
    }

    /// Whether the message was sent with an effect.
    pub fn is_expressive(&self) -> (r: bool)
        ensures
            r == self.expressive_send_style_id is Some,
    {
        self.expressive_send_style_id.is_some()
    }

    /// Whether the message is a URL preview.
    pub fn is_url(&self) -> (r: bool)
        ensures
            r == (self.spec_variant() == VariantView::App(CustomBalloonView::URL)),
    {
        match self.variant() {
            Variant::App(CustomBalloon::URL) => true,
            _ => false,
        }
    }

    /// Whether the message is handwritten.
    pub fn is_handwriting(&self) -> (r: bool)
        ensures
            r == (self.spec_variant() == VariantView::App(CustomBalloonView::Handwriting)),
    {
        match self.variant() {
            Variant::App(CustomBalloon::Handwriting) => true,
            _ => false,
        }
    }

    /// Whether the message is a Digital Touch message.
    pub fn is_digital_touch(&self) -> (r: bool)
        ensures
            r == (self.spec_variant() == VariantView::App(CustomBalloonView::DigitalTouch)),
    {
        match self.variant() {
            Variant::App(CustomBalloon::DigitalTouch) => true,
            _ => false,
        }
    }

    /// Whether the message was edited.
    pub fn is_edited(&self) -> (r: bool)
        ensures
            r == (self.date_edited != 0),
    {
        self.date_edited != 0
    }

    /// Whether the message part at `index` was edited.
    pub fn is_part_edited(&self, index: usize) -> (r: bool)
        ensures
            r == (self.edited_parts matches Some(ep) && index < ep.parts@.len()
                && ep.parts@[index as int].status == EditStatus::Edited),
    {
        if let Some(edited_parts) = &self.edited_parts {
            if let Some(part) = edited_parts.part(index) {
                return match part.status {
                    EditStatus::Edited => true,
                    _ => false,
                };
            }
        }
        false
    }

    /// Whether every part of the message was unsent.
    pub fn is_fully_unsent(&self) -> (r: bool)
        ensures
            r == self.spec_fully_unsent(),
    {
        match &self.edited_parts {
            Some(ep) => {
                let mut i: usize = 0;
                while i < ep.parts.len()
                    invariant
                        self.edited_parts == Some(*ep),
                        i <= ep.parts@.len(),
                        forall|k: int| 0 <= k < i ==> #[trigger] ep.parts@[k].status == EditStatus::Unsent,
                    decreases ep.parts@.len() - i,
                {
                    match ep.parts[i].status {
                        EditStatus::Unsent => {},
                        _ => {
                            proof {
                                assert(ep.parts@[i as int].status != EditStatus::Unsent);

                            }
                            return false;
                        },
                    }
                    i = i + 1;
                }
                true
            },
            None => false,
        }
    }

    /// Whether the message has attachments.
    pub fn has_attachments(&self) -> (r: bool)
        ensures
            r == (self.num_attachments > 0),
    {
        self.num_attachments > 0
    }

    /// Whether the message starts a thread.
    pub fn has_replies(&self) -> (r: bool)
        ensures
            r == (self.num_replies > 0),
    {
        self.num_replies > 0
    }

    /// Whether the message is a SharePlay message.
    pub fn is_shareplay(&self) -> (r: bool)
        ensures
            r == (self.item_type == 6),
    {
        self.item_type == 6
    }

    /// Whether the database owner sent the message.
    pub fn is_from_me(&self) -> (r: bool)
        ensures
            r == (self.is_from_me || (self.other_handle != 0 && !self.share_direction)),
    {
        self.is_from_me || self.other_handle != 0 && !self.share_direction
    }

    /// Whether the message says someone started sharing their location.
    pub fn started_sharing_location(&self) -> (r: bool)
        ensures
            r == (self.item_type == 4 && self.group_action_type == 0 && !self.share_status),
    {
        self.item_type == 4 && self.group_action_type == 0 && !self.share_status
    }

    /// Whether the message says someone stopped sharing their location.
    pub fn stopped_sharing_location(&self) -> (r: bool)
        ensures
            r == (self.item_type == 4 && self.group_action_type == 0 && self.share_status),
    {
        self.item_type == 4 && self.group_action_type == 0 && self.share_status
    }

    /// Whether the message was deleted and can still be recovered.
    pub fn is_deleted(&self) -> (r: bool)
        ensures
            r == self.deleted_from is Some,
    {
        self.deleted_from.is_some()
    }

    /// The index of the message part a reply points to: the number before the
    /// first `:` of the originator part, or 0.
    pub fn get_reply_index(&self) -> (r: usize)
        ensures
            r == match self.thread_originator_part {
                Some(p) => {
                    let b = encode_utf8(p@);
                    let first = match find_byte(b, 0x3a, 0) {
                        Some(c) => b.subrange(0, c),
                        None => b,
                    };
                    match spec_parse_usize(first) {
                        Some(v) => v,
                        None => 0,
                    }
                },
                None => 0,
            },
    {
        match &self.thread_originator_part {
            Some(parts) => {
                let b = parts.as_str().as_bytes();
                let end = match find_byte_exec(b, 0x3a, 0) {
                    Some(c) => c,
                    None => b.len(),
                };
                let first = sub_bytes(b, 0, end);
                proof {
                    if find_byte(b@, 0x3a, 0) is None {
                        assert(b@.subrange(0, b@.len() as int) =~= b@);
                    }
                }
                match parse_usize(first.as_slice()) {
                    Some(v) => v,
                    None => 0,
                }
            },
            None => 0,
        }
    }

    /// The index of the reacted-to part and the GUID of the reacted-to message.
    pub fn clean_associated_guid(&self) -> (r: Option<(usize, &str)>)
        ensures
            match r {
                Some((i, g)) => self.spec_clean_guid() == Some((i, encode_utf8(g@))),
                None => self.spec_clean_guid() is None,
            },
    {
        let guid = match &self.associated_message_guid {
            Some(g) => g.as_str(),
            None => return None,
        };
        let b = guid.as_bytes();
        let n = b.len();
        if n >= 2 && b[0] == 0x70 && b[1] == 0x3a {
            let s1 = match find_byte_exec(b, 0x2f, 0) {
                Some(s) => s,
                None => return None,
            };
            let end = match find_byte_exec(b, 0x2f, s1 + 1) {
                Some(s) => s,
                None => n,
            };
            let head = sub_bytes(b, 0, s1);
            let stripped = strip_part_marker_exec(head.as_slice());
            let index = match parse_usize(stripped.as_slice()) {
                Some(v) => v,
                None => 0,
            };
            let a = s1 + 1;
            if end < a || end - a < 36 {
                return None;
            }
            match str_get(guid, a, a + 36) {
                Some(id) => Some((index, id)),
                None => None,
            }
        } else if n >= 3 && b[0] == 0x62 && b[1] == 0x70 && b[2] == 0x3a {
            match str_get(guid, 3, 39) {
                Some(id) => Some((0, id)),
                None => None,
            }
        } else {
            match str_get(guid, 0, 36) {
                Some(id) => Some((0, id)),
                None => None,
            }
        }
    }

    /// The index of the message part a reaction points to, or 0.
    pub fn tapback_index(&self) -> (r: usize)
        ensures
            r == self.spec_tapback_index(),
    {
        match self.clean_associated_guid() {
            Some((x, _)) => x,
            None => 0,
        }
    }

    /// The application identifier within the balloon bundle identifier.
    pub fn parse_balloon_bundle_id(&self) -> (r: Option<&str>)
        ensures
            match r {
                Some(s) => self.spec_balloon_id() == Some(s@),
                None => self.spec_balloon_id() is None,
            },
    {
        let id = match &self.balloon_bundle_id {
            Some(b) => b.as_str(),
            None => return None,
        };
        let n = id.unicode_len();
        let c1 = match find_char_exec(id, ':', 0) {
            Some(c) => c,
            None => return Some(id),
        };
        let c2 = match find_char_exec(id, ':', c1 + 1) {
            Some(c) => c,
            None => return None,
        };
        match find_char_exec(id, ':', c2 + 1) {
            Some(c3) => Some(id.substring_char(c2 + 1, c3)),
            None => Some(id.substring_char(c2 + 1, n)),
        }
    }

    /// The kind of the message.
    pub fn variant(&self) -> (r: Variant)
        ensures
            r@ == self.spec_variant(),
    {
        if self.is_edited() {
            return Variant::Edited;
        }
        if let Some(t) = self.associated_message_type {
            if t == 0 || t == 2 || t == 3 {
                return match self.parse_balloon_bundle_id() {
                    Some(b) => Variant::App(balloon_from_id(b)),
                    None => Variant::Normal,
                };
            }
            if t == 1000 || t == 2007 || t == 3007 {
                return Variant::Sticker(self.tapback_index());
            }
            if 2000 <= t && t <= 2006 {
                return Variant::Tapback(self.tapback_index(), true, self.tapback_kind(t - 2000));
            }
            if 3000 <= t && t <= 3006 {
                return Variant::Tapback(self.tapback_index(), false, self.tapback_kind(t - 3000));
            }
            return Variant::Unknown(t);
        }
        if self.is_shareplay() {
            return Variant::SharePlay;
        }
        Variant::Normal
    }

    fn tapback_kind(&self, k: i32) -> (r: Tapback)
        requires
            0 <= k <= 6,
        ensures
            r@ == tapback_of(k as int, opt_view(self.associated_message_emoji)),
    {
        if k == 0 {
            Tapback::Loved
        } else if k == 1 {
            Tapback::Liked
        } else if k == 2 {
            Tapback::Disliked
        } else if k == 3 {
            Tapback::Laughed
        } else if k == 4 {
            Tapback::Emphasized
        } else if k == 5 {
            Tapback::Questioned
        } else {
            Tapback::Emoji(
                match &self.associated_message_emoji {
                    Some(e) => Some(e.as_str()),
                    None => None,
                },
            )
        }
    }

    /// The announcement the message makes, if any.
    pub fn get_announcement(&self) -> (r: Option<Announcement>)
        ensures
            match self.group_title {
                Some(name) => r matches Some(Announcement::NameChange(n)) && n@ == name@,
                None => if self.spec_fully_unsent() {
                    r == Some(Announcement::FullyUnsent)
                } else if self.group_action_type == 0 {
                    r is None
                } else if self.group_action_type == 1 {
                    r == Some(Announcement::PhotoChange)
                } else {
                    r == Some(Announcement::Unknown(self.group_action_type))
                },
            },
    {
        if let Some(name) = &self.group_title {
            return Some(Announcement::NameChange(name.as_str()));
        }
        if self.is_fully_unsent() {
            return Some(Announcement::FullyUnsent);
        }
        if self.group_action_type == 0 {
            None
        } else if self.group_action_type == 1 {
            Some(Announcement::PhotoChange)
        } else {
            Some(Announcement::Unknown(self.group_action_type))
        }
    }

    /// The service the message was sent through.
    pub fn service(&self) -> (r: Service)
        ensures
            match self.service {
                Some(s) => is_service_named(r, trimmed(s@)),
                None => r == Service::Unknown,
            },
    {
        match &self.service {
            Some(name) => service_from_name(trim_str(name.as_str())),
            None => Service::Unknown,
        }
    }

    /// The effect the message was sent with.
    pub fn get_expressive(&self) -> (r: Expressive)
        ensures
            match self.expressive_send_style_id {
                Some(id) => is_expressive_named(r, id@),
                None => r == Expressive::NoEffect,
            },
    {
        let id = match &self.expressive_send_style_id {
            Some(c) => c.as_str(),
            None => return Expressive::NoEffect,
        };
        if str_eq(id, GENTLE) {
            Expressive::Bubble(BubbleEffect::Gentle)
        } else if str_eq(id, IMPACT) {
            Expressive::Bubble(BubbleEffect::Slam)
        } else if str_eq(id, INVISIBLE_INK) {
            Expressive::Bubble(BubbleEffect::InvisibleInk)
        } else if str_eq(id, LOUD) {
            Expressive::Bubble(BubbleEffect::Loud)
        } else if str_eq(id, CONFETTI) {
            Expressive::Screen(ScreenEffect::Confetti)
        } else if str_eq(id, ECHO) {
            Expressive::Screen(ScreenEffect::Echo)
        } else if str_eq(id, FIREWORKS) {
            Expressive::Screen(ScreenEffect::Fireworks)
        } else if str_eq(id, BALLOONS) {
            Expressive::Screen(ScreenEffect::Balloons)
        } else if str_eq(id, HEART) {
            Expressive::Screen(ScreenEffect::Heart)
        } else if str_eq(id, LASERS) {
            Expressive::Screen(ScreenEffect::Lasers)
        } else if str_eq(id, SHOOTING_STAR) {
            Expressive::Screen(ScreenEffect::ShootingStar)
        } else if str_eq(id, SPARKLES) {
            Expressive::Screen(ScreenEffect::Sparkles)
        } else if str_eq(id, SPOTLIGHT) {
            Expressive::Screen(ScreenEffect::Spotlight)
        } else {
            Expressive::Unknown(id)
        }
    }
}

/// The stored-timestamp conversion of [`get_local_time`].
pub open spec fn get_local_time_spec(stamp: i64, offset: i64) -> Result<i64, MessageError> {
    let t = spec_unix_seconds(stamp, offset);
    if MIN_UNIX_SECONDS <= t <= MAX_UNIX_SECONDS {
        Ok(t as i64)
    } else {
        Err(MessageError::InvalidTimestamp(stamp))
    }
}

/// The balloon kind of an application identifier.
pub fn balloon_from_id<'a>(b: &'a str) -> (r: CustomBalloon<'a>)
    ensures
        r@ == balloon_of(b@),
{
    if str_eq(b, URL_PROVIDER) {
        CustomBalloon::URL
    } else if str_eq(b, HANDWRITING_PROVIDER) {
        CustomBalloon::Handwriting
    } else if str_eq(b, DIGITAL_TOUCH_PROVIDER) {
        CustomBalloon::DigitalTouch
    } else if str_eq(b, APPLE_PAY_PROVIDER) {
        CustomBalloon::ApplePay
    } else if str_eq(b, FITNESS_PROVIDER) {
        CustomBalloon::Fitness
    } else if str_eq(b, SLIDESHOW_PROVIDER) {
        CustomBalloon::Slideshow
    } else if str_eq(b, CHECK_IN_PROVIDER) {
        CustomBalloon::CheckIn
    } else if str_eq(b, FIND_MY_PROVIDER) {
        CustomBalloon::FindMy
    } else {
        CustomBalloon::Application(b)
    }
}

} // verus!
