//! Kinds of messages, their effects and their edit history.
use vstd::prelude::*;

use crate::archive::Archivable;

verus! {

/// Application balloons that have their own rendering.
#[derive(Debug, PartialEq, Eq)]
pub enum CustomBalloon<'a> {
    URL,
    Handwriting,
    DigitalTouch,
    ApplePay,
    Fitness,
    Slideshow,
    CheckIn,
    FindMy,
    /// Any other application, by bundle identifier.
    Application(&'a str),
}

pub enum CustomBalloonView {
    URL,
    Handwriting,
    DigitalTouch,
    ApplePay,
    Fitness,
    Slideshow,
    CheckIn,
    FindMy,
    Application(Seq<char>),
}

impl<'a> View for CustomBalloon<'a> {
    type V = CustomBalloonView;

    open spec fn view(&self) -> CustomBalloonView {
        match self {
            CustomBalloon::URL => CustomBalloonView::URL,
            CustomBalloon::Handwriting => CustomBalloonView::Handwriting,
            CustomBalloon::DigitalTouch => CustomBalloonView::DigitalTouch,
            CustomBalloon::ApplePay => CustomBalloonView::ApplePay,
            CustomBalloon::Fitness => CustomBalloonView::Fitness,
            CustomBalloon::Slideshow => CustomBalloonView::Slideshow,
            CustomBalloon::CheckIn => CustomBalloonView::CheckIn,
            CustomBalloon::FindMy => CustomBalloonView::FindMy,
            CustomBalloon::Application(s) => CustomBalloonView::Application(s@),
        }
    }
}

/// Reactions to a message.
#[derive(Debug, PartialEq, Eq)]
pub enum Tapback<'a> {
    Loved,
    Liked,
    Disliked,
    Laughed,
    Emphasized,
    Questioned,
    /// A custom emoji reaction.
    Emoji(Option<&'a str>),
}

pub enum TapbackView {
    Loved,
    Liked,
    Disliked,
    Laughed,
    Emphasized,
    Questioned,
    Emoji(Option<Seq<char>>),
}

impl<'a> View for Tapback<'a> {
    type V = TapbackView;

    open spec fn view(&self) -> TapbackView {
        match self {
            Tapback::Loved => TapbackView::Loved,
            Tapback::Liked => TapbackView::Liked,
            Tapback::Disliked => TapbackView::Disliked,
            Tapback::Laughed => TapbackView::Laughed,
            Tapback::Emphasized => TapbackView::Emphasized,
            Tapback::Questioned => TapbackView::Questioned,
            Tapback::Emoji(e) => TapbackView::Emoji(
                match e {
                    Some(s) => Some(s@),
                    None => None,
                },
            ),
        }
    }
}

/// The kind of a message.
#[derive(Debug, PartialEq, Eq)]
pub enum Variant<'a> {
    /// A message that was edited or unsent.
    Edited,
    /// An application balloon.
    App(CustomBalloon<'a>),
    /// A sticker placed on the message part at this index.
    Sticker(usize),
    /// A reaction to the message part at this index; `true` when added, `false` when removed.
    Tapback(usize, bool, Tapback<'a>),
    /// An unrecognized associated message type.
    Unknown(i32),
    /// A SharePlay session message.
    SharePlay,
    /// An ordinary message.
    Normal,
}

pub enum VariantView {
    Edited,
    App(CustomBalloonView),
    Sticker(usize),
    Tapback(usize, bool, TapbackView),
    Unknown(i32),
    SharePlay,
    Normal,
}

impl<'a> View for Variant<'a> {
    type V = VariantView;

    open spec fn view(&self) -> VariantView {
        match self {
            Variant::Edited => VariantView::Edited,
            Variant::App(b) => VariantView::App(b@),
            Variant::Sticker(i) => VariantView::Sticker(*i),
            Variant::Tapback(i, added, t) => VariantView::Tapback(*i, *added, t@),
            Variant::Unknown(t) => VariantView::Unknown(*t),
            Variant::SharePlay => VariantView::SharePlay,
            Variant::Normal => VariantView::Normal,
        }
    }
}

/// Group events shown inline in a conversation.
#[derive(Debug, PartialEq, Eq)]
pub enum Announcement<'a> {
    /// The group was renamed to this name.
    NameChange(&'a str),
    PhotoChange,
    FullyUnsent,
    /// An unrecognized group action type.
    Unknown(i32),
}

/// Effects applied to a message bubble.
#[derive(Debug, Clone, Copy, PartialEq, Eq, Structural)]
pub enum BubbleEffect {
    Slam,
    Loud,
    Gentle,
    InvisibleInk,
}

/// Effects applied to the whole screen.
#[derive(Debug, Clone, Copy, PartialEq, Eq, Structural)]
pub enum ScreenEffect {
    Confetti,
    Echo,
    Fireworks,
    Balloons,
    Heart,
    Lasers,
    ShootingStar,
    Sparkles,
    Spotlight,
}

/// The effect a message was sent with.
#[derive(Debug, PartialEq, Eq)]
pub enum Expressive<'a> {
    Screen(ScreenEffect),
    Bubble(BubbleEffect),
    /// An unrecognized effect identifier.
    Unknown(&'a str),
    NoEffect,
}

/// The state of one part of an edited message.
#[derive(Debug, Clone, Copy, PartialEq, Eq, Structural)]
pub enum EditStatus {
    Edited,
    Unsent,
    Original,
}

/// One past version of an edited message part.
#[derive(Debug, PartialEq, Eq)]
pub struct EditedEvent {
    pub date: i64,
    pub text: String,
    pub components: Option<Vec<Archivable>>,
    pub guid: Option<String>,
}

/// One part of an edited message and its history.
#[derive(Debug, PartialEq, Eq)]
pub struct EditedMessagePart {
    pub status: EditStatus,
    pub edit_history: Vec<EditedEvent>,
}

/// One recorded edit of a message part, as stored in the message summary:
/// the part, when, the archived body of that version and its GUID.
#[derive(Debug, PartialEq, Eq)]
pub struct EditRecord {
    pub part: usize,
    pub date: i64,
    pub body: Vec<u8>,
    pub guid: Option<String>,
}

/// The edit history of a message, part by part.
#[derive(Debug, PartialEq, Eq)]
pub struct EditedMessage {
    pub parts: Vec<EditedMessagePart>,
}

impl EditedMessage {
    /// The part at `index`, if there is one.
    pub fn part(&self, index: usize) -> (r: Option<&EditedMessagePart>)
        ensures
            match r {
                Some(p) => index < self.parts@.len() && *p == self.parts@[index as int],
                None => index >= self.parts@.len(),
            },
    {
        if index < self.parts.len() {
            Some(&self.parts[index])
        } else {
            None
        }
    }
}

/// The service a message was sent through.
#[allow(non_camel_case_types)]
#[derive(Debug, PartialEq, Eq)]
pub enum Service<'a> {
    iMessage,
    SMS,
    RCS,
    /// Another service, by name.
    Other(&'a str),
    /// No service was recorded.
    Unknown,
}

/// One part of a message body as shown in its bubble.
#[derive(Debug, PartialEq, Eq)]
pub enum BubbleComponent {
    /// A run of text, as ranges of UTF-16 code units.
    Text(Vec<crate::text::TextAttributes>),
    /// An attachment slot.
    Attachment,
    /// Application content.
    App,
}

} // verus!
