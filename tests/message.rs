use imessage_database::dates::get_offset;
use imessage_database::grouping::{group_positions, reply_keys, tapback_keys};
use imessage_database::message::Message;
use imessage_database::message_types::{
    Announcement, Service, BubbleEffect, CustomBalloon, EditStatus, EditedMessage, EditedMessagePart, Expressive,
    ScreenEffect, Variant,
};

fn blank() -> Message {
    Message {
        rowid: i32::default(),
        guid: String::default(),
        text: None,
        service: Some("iMessage".to_string()),
        handle_id: Some(i32::default()),
        destination_caller_id: None,
        subject: None,
        date: i64::default(),
        date_read: i64::default(),
        date_delivered: i64::default(),
        is_from_me: false,
        is_read: false,
        item_type: 0,
        other_handle: 0,
        share_status: false,
        share_direction: false,
        group_title: None,
        group_action_type: 0,
        associated_message_guid: None,
        associated_message_type: Some(i32::default()),
        balloon_bundle_id: None,
        expressive_send_style_id: None,
        thread_originator_guid: None,
        thread_originator_part: None,
        date_edited: 0,
        associated_message_emoji: None,
        chat_id: None,
        num_attachments: 0,
        deleted_from: None,
        num_replies: 0,
        components: None,
        edited_parts: None,
    }
}

#[test]
fn can_gen_message() {
    blank();
}

#[test]
fn can_get_time_date_read_after_date() {
    let offset = get_offset();
    let mut message = blank();
    // May 17, 2022  8:29:42 PM
    message.date = 674526582885055488;
    // May 17, 2022  8:29:42 PM
    message.date_delivered = 674526582885055488;
    // May 17, 2022  9:30:31 PM
    message.date_read = 674530231992568192;

    assert_eq!(
        message.time_until_read(&offset),
        Some("1 hour, 49 seconds".to_string())
    );
}

#[test]
fn can_get_time_date_read_before_date() {
    let offset = get_offset();
    let mut message = blank();
    // May 17, 2022  9:30:31 PM
    message.date = 674530231992568192;
    // May 17, 2022  9:30:31 PM
    message.date_delivered = 674530231992568192;
    // May 17, 2022  8:29:42 PM
    message.date_read = 674526582885055488;

    assert_eq!(message.time_until_read(&offset), None);
}

#[test]
fn can_get_message_expression_none() {
    let m = blank();
    assert_eq!(m.get_expressive(), Expressive::NoEffect);
}

#[test]
fn can_get_message_expression_bubble() {
    let mut m = blank();
    m.expressive_send_style_id = Some("com.apple.MobileSMS.expressivesend.gentle".to_string());
    assert_eq!(m.get_expressive(), Expressive::Bubble(BubbleEffect::Gentle));
}

#[test]
fn can_get_message_expression_screen() {
    let mut m = blank();
    m.expressive_send_style_id =
        Some("com.apple.messages.effect.CKHappyBirthdayEffect".to_string());
    assert_eq!(m.get_expressive(), Expressive::Screen(ScreenEffect::Balloons));
}

#[test]
fn can_get_no_balloon_bundle_id() {
    let m = blank();
    assert_eq!(m.parse_balloon_bundle_id(), None);
}

#[test]
fn can_get_balloon_bundle_id_os() {
    let mut m = blank();
    m.balloon_bundle_id = Some("com.apple.Handwriting.HandwritingProvider".to_owned());
    assert_eq!(
        m.parse_balloon_bundle_id(),
        Some("com.apple.Handwriting.HandwritingProvider")
    );
}

#[test]
fn can_get_balloon_bundle_id_url() {
    let mut m = blank();
    m.balloon_bundle_id = Some("com.apple.messages.URLBalloonProvider".to_owned());
    assert_eq!(
        m.parse_balloon_bundle_id(),
        Some("com.apple.messages.URLBalloonProvider")
    );
}

#[test]
fn can_get_balloon_bundle_id_apple() {
    let mut m = blank();
    m.balloon_bundle_id = Some("com.apple.messages.MSMessageExtensionBalloonPlugin:0000000000:com.apple.PassbookUIService.PeerPaymentMessagesExtension".to_owned());
    assert_eq!(
        m.parse_balloon_bundle_id(),
        Some("com.apple.PassbookUIService.PeerPaymentMessagesExtension")
    );
}

#[test]
fn can_get_balloon_bundle_id_third_party() {
    let mut m = blank();
    m.balloon_bundle_id = Some("com.apple.messages.MSMessageExtensionBalloonPlugin:QPU8QS3E62:com.contextoptional.OpenTable.Messages".to_owned());
    assert_eq!(
        m.parse_balloon_bundle_id(),
        Some("com.contextoptional.OpenTable.Messages")
    );
    assert!(matches!(
        m.variant(),
        Variant::App(CustomBalloon::Application(
            "com.contextoptional.OpenTable.Messages"
        ))
    ));
}

#[test]
fn can_get_valid_guid() {
    let mut m = blank();
    m.associated_message_guid = Some("A44CE9D7-AAAA-BBBB-CCCC-23C54E1A9B6A".to_string());

    assert_eq!(
        Some((0usize, "A44CE9D7-AAAA-BBBB-CCCC-23C54E1A9B6A")),
        m.clean_associated_guid()
    );
}

#[test]
fn cant_get_invalid_guid() {
    let mut m = blank();
    m.associated_message_guid = Some("FAKE_GUID".to_string());

    assert_eq!(None, m.clean_associated_guid());
}

#[test]
fn can_get_valid_guid_p() {
    let mut m = blank();
    m.associated_message_guid = Some("p:1/A44CE9D7-AAAA-BBBB-CCCC-23C54E1A9B6A".to_string());

    assert_eq!(
        Some((1usize, "A44CE9D7-AAAA-BBBB-CCCC-23C54E1A9B6A")),
        m.clean_associated_guid()
    );
}

#[test]
fn cant_get_invalid_guid_p() {
    let mut m = blank();
    m.associated_message_guid = Some("p:1/FAKE_GUID".to_string());

    assert_eq!(None, m.clean_associated_guid());
}

#[test]
fn can_get_valid_guid_bp() {
    let mut m = blank();
    m.associated_message_guid = Some("bp:A44CE9D7-AAAA-BBBB-CCCC-23C54E1A9B6A".to_string());

    assert_eq!(
        Some((0usize, "A44CE9D7-AAAA-BBBB-CCCC-23C54E1A9B6A")),
        m.clean_associated_guid()
    );
}

#[test]
fn cant_get_invalid_guid_bp() {
    let mut m = blank();
    m.associated_message_guid = Some("bp:FAKE_GUID".to_string());

    assert_eq!(None, m.clean_associated_guid());
}

fn part(status: EditStatus) -> EditedMessagePart {
    EditedMessagePart {
        status,
        edit_history: vec![],
    }
}

#[test]
fn can_get_fully_unsent_true_single() {
    let mut m = blank();
    m.edited_parts = Some(EditedMessage {
        parts: vec![part(EditStatus::Unsent)],
    });

    assert!(m.is_fully_unsent());
}

#[test]
fn can_get_fully_unsent_true_multiple() {
    let mut m = blank();
    m.edited_parts = Some(EditedMessage {
        parts: vec![part(EditStatus::Unsent), part(EditStatus::Unsent)],
    });

    assert!(m.is_fully_unsent());
}

#[test]
fn can_get_fully_unsent_false() {
    let mut m = blank();
    m.edited_parts = Some(EditedMessage {
        parts: vec![part(EditStatus::Original)],
    });

    assert!(!m.is_fully_unsent());
}

#[test]
fn can_get_fully_unsent_false_multiple() {
    let mut m = blank();
    m.edited_parts = Some(EditedMessage {
        parts: vec![part(EditStatus::Unsent), part(EditStatus::Original)],
    });

    assert!(!m.is_fully_unsent());
}

#[test]
fn can_get_part_edited_true() {
    let mut m = blank();
    m.edited_parts = Some(EditedMessage {
        parts: vec![part(EditStatus::Edited), part(EditStatus::Original)],
    });

    assert!(m.is_part_edited(0));
}

#[test]
fn can_get_part_edited_false() {
    let mut m = blank();
    m.edited_parts = Some(EditedMessage {
        parts: vec![part(EditStatus::Edited), part(EditStatus::Original)],
    });

    assert!(!m.is_part_edited(1));
}

#[test]
fn can_get_part_edited_blank() {
    let m = blank();

    assert!(!m.is_part_edited(0));
}

#[test]
fn can_get_fully_unsent_none() {
    let m = blank();

    assert!(!m.is_fully_unsent());
}

#[test]
fn tapbacks_and_stickers() {
    let mut m = blank();
    m.associated_message_guid = Some("p:2/A44CE9D7-AAAA-BBBB-CCCC-23C54E1A9B6A".to_string());
    m.associated_message_type = Some(2001);
    assert!(matches!(m.variant(), Variant::Tapback(2, true, imessage_database::message_types::Tapback::Liked)));
    assert!(m.is_tapback());
    assert_eq!(m.tapback_index(), 2);
    m.associated_message_type = Some(3006);
    m.associated_message_emoji = Some("🎉".to_string());
    assert!(matches!(
        m.variant(),
        Variant::Tapback(2, false, imessage_database::message_types::Tapback::Emoji(Some("🎉")))
    ));
    m.associated_message_type = Some(1000);
    assert!(matches!(m.variant(), Variant::Sticker(2)));
    assert!(m.is_sticker());
    assert!(m.is_tapback());
    m.associated_message_type = Some(4242);
    assert!(matches!(m.variant(), Variant::Unknown(4242)));
}

#[test]
fn variants_of_plain_messages() {
    let mut m = blank();
    assert!(matches!(m.variant(), Variant::Normal));
    m.balloon_bundle_id = Some("com.apple.messages.URLBalloonProvider".to_string());
    assert!(m.is_url());
    m.date_edited = 5;
    assert!(matches!(m.variant(), Variant::Edited));
    assert!(m.is_edited());
    let mut s = blank();
    s.associated_message_type = None;
    s.item_type = 6;
    assert!(matches!(s.variant(), Variant::SharePlay));
    assert!(s.is_shareplay());
}

#[test]
fn reply_index_and_flags() {
    let mut m = blank();
    assert_eq!(m.get_reply_index(), 0);
    m.thread_originator_part = Some("3:0:12".to_string());
    assert_eq!(m.get_reply_index(), 3);
    m.thread_originator_part = Some("x:0:12".to_string());
    assert_eq!(m.get_reply_index(), 0);
    m.thread_originator_guid = Some("G".to_string());
    assert!(m.is_reply());
    m.other_handle = 4;
    assert!(m.is_from_me());
    m.item_type = 4;
    assert!(m.started_sharing_location());
    m.share_status = true;
    assert!(m.stopped_sharing_location());
    m.num_attachments = 1;
    assert!(m.has_attachments());
    m.deleted_from = Some(2);
    assert!(m.is_deleted());
}

#[test]
fn announcements_and_services() {
    let mut m = blank();
    assert_eq!(m.get_announcement(), None);
    m.group_action_type = 1;
    assert_eq!(m.get_announcement(), Some(Announcement::PhotoChange));
    m.group_action_type = 9;
    assert_eq!(m.get_announcement(), Some(Announcement::Unknown(9)));
    m.group_title = Some("Friends".to_string());
    assert_eq!(m.get_announcement(), Some(Announcement::NameChange("Friends")));
    assert!(m.is_announcement());
    assert_eq!(m.service(), Service::iMessage);
    m.service = Some("  SMS ".to_string());
    assert_eq!(m.service(), Service::SMS);
    m.service = Some("\u{3000}SMS\u{a0}\t".to_string());
    assert_eq!(m.service(), Service::SMS);
    m.service = Some(" rcs".to_string());
    assert_eq!(m.service(), Service::RCS);
    m.service = None;
    assert_eq!(m.service(), Service::Unknown);
}

#[test]
fn body_splits_text_and_apps() {
    let mut m = blank();
    m.text = Some("\u{FFFC}hi".to_string());
    assert_eq!(m.body().len(), 2);
    m.balloon_bundle_id = Some("com.example.app".to_string());
    assert_eq!(m.body(), vec![imessage_database::message_types::BubbleComponent::App]);
}

#[test]
fn generate_text_uses_the_legacy_decoder() {
    let mut m = blank();
    let body = vec![0x01, 0x2b, 0x10, 0, 0, 0, 0x01, b'h', b'i', 0x86, 0x84];
    assert_eq!(m.generate_text(Some(&body)), Ok("hi".to_string()));
    assert_eq!(m.text, Some("hi".to_string()));
    assert!(m.components.is_none());
    let mut n = blank();
    assert_eq!(n.generate_text(Some(&vec![1, 2])), Err(imessage_database::error::MessageError::NoText));
    assert_eq!(n.generate_text(None), Err(imessage_database::error::MessageError::NoText));
}

#[test]
fn positions_group_by_key_in_order() {
    let g = group_positions(&vec![Some(1), None, Some(0), Some(1)]);
    assert_eq!(g.len(), 2);
    assert_eq!(g[&1], vec![0, 3]);
    assert_eq!(g[&0], vec![2]);
    assert!(group_positions(&vec![None, None]).is_empty());
}

#[test]
fn reply_and_tapback_keys() {
    let mut reply = blank();
    reply.thread_originator_part = Some("2:0:5".to_string());
    let mut like = blank();
    like.associated_message_type = Some(2001);
    like.associated_message_guid = Some("p:1/A44CE9D7-AAAA-BBBB-CCCC-23C54E1A9B6A".to_string());
    let msgs = vec![reply, like];
    assert_eq!(reply_keys(&msgs), vec![Some(2), Some(0)]);
    assert_eq!(tapback_keys(&msgs), vec![None, Some(1)]);
}
