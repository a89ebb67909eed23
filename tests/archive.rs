use imessage_database::archive::{Archivable, Class, Leaf};
use imessage_database::body::{decode_body, split_at_placeholders, Decoded};
use imessage_database::message::Message;
use imessage_database::error::{DecodeError, MessageError, ReconstructError, StreamTypedError};
use imessage_database::message_types::{BubbleComponent, EditRecord, EditStatus, EditedMessage};
use imessage_database::reader::{read_blob, read_signed, read_unsigned};
use imessage_database::streamtyped::parse;
use imessage_database::text::{
    cover, reconstruct, text_utf16_len, Placeholder, PlaceholderKind, TextAttributes, TextEffect,
};
use imessage_database::typedstream::{decode, Tables};

const START: u8 = 0x84;
const EMPTY: u8 = 0x85;
const END: u8 = 0x86;
const REF: u8 = 0x92;

fn header() -> Vec<u8> {
    let mut v = vec![0x04, 0x0B];
    v.extend_from_slice(b"streamtyped");
    v.extend_from_slice(&[0x81, 0xE8, 0x03]);
    v
}

fn blob(bytes: &[u8]) -> Vec<u8> {
    let mut v = Vec::new();
    if bytes.len() < 0x81 {
        v.push(bytes.len() as u8);
    } else {
        v.push(0x81);
        v.extend_from_slice(&(bytes.len() as u16).to_le_bytes());
    }
    v.extend_from_slice(bytes);
    v
}

/// A new class followed by its superclass chain.
fn class(name: &str, version: u8, rest: &[u8]) -> Vec<u8> {
    let mut v = vec![START];
    v.extend(blob(name.as_bytes()));
    v.push(version);
    v.extend_from_slice(rest);
    v
}

/// An object: its class chain, its values and its nested objects.
fn object(chain: &[u8], types: &[u8], values: &[u8], children: &[Vec<u8>]) -> Vec<u8> {
    let mut v = vec![START];
    v.extend_from_slice(chain);
    v.extend(blob(types));
    v.extend_from_slice(values);
    v.push(children.len() as u8);
    for c in children {
        v.extend_from_slice(c);
    }
    v
}

fn object_event(obj: &[u8]) -> Vec<u8> {
    let mut v = vec![START, 0x01, b'@'];
    v.extend_from_slice(obj);
    v
}

fn run_event(index: u8, length: u8) -> Vec<u8> {
    vec![START, 0x02, b'i', b'I', index, length]
}

// Class table of the fixtures below, in declaration order:
// 0 NSObject, 1 NSString, 2 NSDictionary, 3 NSValue, 4 NSNumber, 5 NSURL.
fn text_event(text: &str) -> Vec<u8> {
    let chain = class("NSString", 1, &class("NSObject", 0, &[EMPTY]));
    object_event(&object(&chain, b"+", &blob(text.as_bytes()), &[]))
}

fn string_object(s: &str) -> Vec<u8> {
    object(&[REF + 1], b"+", &blob(s.as_bytes()), &[])
}

fn first_dictionary(children: &[Vec<u8>]) -> Vec<u8> {
    object_event(&object(&class("NSDictionary", 0, &[REF]), b"", &[], children))
}

fn later_dictionary(children: &[Vec<u8>]) -> Vec<u8> {
    object_event(&object(&[REF + 2], b"", &[], children))
}

fn first_number(n: u8) -> Vec<u8> {
    let chain = class("NSNumber", 0, &class("NSValue", 0, &[REF]));
    object(&chain, b"i", &[n], &[])
}

fn later_number(n: u8) -> Vec<u8> {
    object(&[REF + 4], b"i", &[n], &[])
}

fn bold_fixture() -> Vec<u8> {
    let mut v = header();
    v.extend(text_event("Bold rest"));
    v.extend(run_event(1, 4));
    v.extend(first_dictionary(&[
        string_object("__kIMTextBoldAttributeName"),
        first_number(1),
    ]));
    v.extend(run_event(2, 5));
    v.extend(later_dictionary(&[
        string_object("__kIMMessagePartAttributeName"),
        later_number(0),
    ]));
    v.push(END);
    v
}

fn placeholder_fixture(text: &str) -> Vec<u8> {
    let mut v = header();
    v.extend(text_event(text));
    v.extend(run_event(1, 5));
    v.extend(first_dictionary(&[
        string_object("__kIMTextBoldAttributeName"),
        first_number(1),
    ]));
    v.push(END);
    v
}

fn link_fixture() -> Vec<u8> {
    let mut v = header();
    v.extend(text_event("chrissardegna.com"));
    v.extend(run_event(1, 17));
    let url = object(
        &class("NSURL", 0, &[REF]),
        b"",
        &[],
        &[string_object("https://chrissardegna.com")],
    );
    v.extend(first_dictionary(&[
        string_object("__kIMLinkAttributeName"),
        url,
    ]));
    v.push(END);
    v
}

fn text_of(nodes: &[Archivable]) -> &str {
    nodes[0].as_nsstring().unwrap()
}

#[test]
fn bold_range_then_plain() {
    let nodes = decode(&bold_fixture()).unwrap();
    let text = text_of(&nodes).to_string();
    assert_eq!(text, "Bold rest");
    let (runs, marks) = reconstruct(&text, &nodes).unwrap();
    assert_eq!(
        runs,
        vec![TextAttributes {
            start: 0,
            end: 4,
            effects: vec![TextEffect::Bold]
        }]
    );
    assert!(marks.is_empty());
    let full = cover(&runs, text_utf16_len(&text));
    assert_eq!(full.len(), 2);
    assert_eq!(full[1], TextAttributes { start: 4, end: 9, effects: vec![] });
    let total: usize = full.iter().map(|r| r.end - r.start).sum();
    assert_eq!(total, text.encode_utf16().count());
}

#[test]
fn decoded_nodes_keep_wire_order() {
    let nodes = decode(&bold_fixture()).unwrap();
    assert_eq!(nodes.len(), 9);
    assert_eq!(
        nodes[1],
        Archivable::Data(vec![Leaf::Signed(1), Leaf::Unsigned(4)])
    );
    match &nodes[0] {
        Archivable::Object(chain, leaves) => {
            assert_eq!(
                chain,
                &vec![
                    Class { name: "NSObject".to_string(), version: 0 },
                    Class { name: "NSString".to_string(), version: 1 },
                ]
            );
            assert_eq!(leaves, &vec![Leaf::Text("Bold rest".to_string())]);
        }
        other => panic!("unexpected node {other:?}"),
    }
}

#[test]
fn decoding_twice_gives_equal_nodes() {
    let b = bold_fixture();
    assert_eq!(decode(&b), decode(&b));
}

#[test]
fn placeholder_is_recorded_and_runs_unchanged() {
    let with = "Check\u{FFFC}this out";
    let without = "Check this out";
    let nodes_with = decode(&placeholder_fixture(with)).unwrap();
    let nodes_without = decode(&placeholder_fixture(without)).unwrap();
    let (runs_with, marks) = reconstruct(with, &nodes_with).unwrap();
    let (runs_without, no_marks) = reconstruct(without, &nodes_without).unwrap();
    assert_eq!(
        marks,
        vec![Placeholder { position: 5, kind: PlaceholderKind::Attachment }]
    );
    assert!(no_marks.is_empty());
    assert_eq!(runs_with, runs_without);
}

#[test]
fn app_placeholder_is_recorded() {
    let nodes = decode(&placeholder_fixture("abcd\u{FFFD}")).unwrap();
    let (_, marks) = reconstruct("abcd\u{FFFD}", &nodes).unwrap();
    assert_eq!(marks, vec![Placeholder { position: 4, kind: PlaceholderKind::App }]);
}

#[test]
fn link_target_is_recovered() {
    let nodes = decode(&link_fixture()).unwrap();
    let text = text_of(&nodes).to_string();
    let (runs, _) = reconstruct(&text, &nodes).unwrap();
    assert_eq!(
        runs,
        vec![TextAttributes {
            start: 0,
            end: 17,
            effects: vec![TextEffect::Link("https://chrissardegna.com".to_string())]
        }]
    );
}

#[test]
fn unknown_attribute_is_kept() {
    let mut v = header();
    v.extend(text_event("hey"));
    v.extend(run_event(1, 3));
    v.extend(first_dictionary(&[string_object("__kIMSomethingNew"), first_number(7)]));
    v.push(END);
    let nodes = decode(&v).unwrap();
    let (runs, _) = reconstruct("hey", &nodes).unwrap();
    assert_eq!(runs.len(), 1);
    match &runs[0].effects[0] {
        TextEffect::Unknown(key, value) => {
            assert_eq!(key, "__kIMSomethingNew");
            assert_eq!(value, &nodes[4]);
        }
        other => panic!("unexpected effect {other:?}"),
    }
}

#[test]
fn numbered_effects_are_read() {
    let mut v = header();
    v.extend(text_event("ab"));
    v.extend(run_event(1, 2));
    v.extend(first_dictionary(&[
        string_object("__kIMTextEffectAttributeName"),
        first_number(5),
        string_object("__kIMTextItalicAttributeName"),
        later_number(1),
    ]));
    v.push(END);
    let nodes = decode(&v).unwrap();
    let (runs, _) = reconstruct("ab", &nodes).unwrap();
    assert_eq!(runs[0].effects, vec![TextEffect::Animated(5), TextEffect::Italic]);
}

#[test]
fn range_past_text_is_an_error() {
    let nodes = decode(&bold_fixture()).unwrap();
    assert_eq!(
        reconstruct("Bold", &nodes),
        Err(ReconstructError::RangeOutOfBounds)
    );
}

#[test]
fn utf16_offsets_count_surrogate_pairs() {
    assert_eq!(text_utf16_len("a\u{1F600}b"), 4);
    assert_eq!(text_utf16_len(""), 0);
}

#[test]
fn truncated_archive_falls_back_without_panicking() {
    let full = bold_fixture();
    let cut = &full[..40];
    assert_eq!(decode(cut), Err(DecodeError::TruncatedInput));
    assert_eq!(decode_body(&cut.to_vec()), Err(MessageError::NoText));
}

#[test]
fn every_prefix_fails_cleanly() {
    let full = bold_fixture();
    for n in 0..full.len() {
        let r = decode(&full[..n]);
        if n < 16 {
            assert_eq!(r, Err(DecodeError::NotThisFormat));
        } else {
            assert_eq!(r, Err(DecodeError::TruncatedInput));
        }
    }
}

#[test]
fn archive_is_preferred_by_the_orchestrator() {
    match decode_body(&bold_fixture()).unwrap() {
        Decoded::Archive(text, nodes) => {
            assert_eq!(text, "Bold rest");
            assert_eq!(nodes.len(), 9);
        }
        other => panic!("unexpected {other:?}"),
    }
}

#[test]
fn unknown_value_reference_is_rejected() {
    let mut v = header();
    v.extend_from_slice(&[START, 0x01, b'@', REF + 3, END]);
    assert_eq!(decode(&v), Err(DecodeError::BadBackreference));
}

#[test]
fn unknown_class_reference_is_rejected() {
    let mut v = header();
    v.extend_from_slice(&[START, 0x01, b'@', START, REF + 9, END]);
    assert_eq!(decode(&v), Err(DecodeError::BadBackreference));
}

#[test]
fn shared_value_reference_repeats_the_value() {
    let mut v = header();
    v.extend(text_event("x"));
    v.extend_from_slice(&[START, 0x01, b'@', REF]);
    v.push(END);
    let nodes = decode(&v).unwrap();
    assert_eq!(nodes.len(), 2);
    assert_eq!(nodes[0], nodes[1]);
}

#[test]
fn wrong_signature_is_not_this_format() {
    let mut v = header();
    v[3] = b'X';
    v.push(END);
    assert_eq!(decode(&v), Err(DecodeError::NotThisFormat));
}

#[test]
fn bad_marker_and_bad_utf8_are_rejected() {
    let mut v = header();
    v.push(0x40);
    assert_eq!(decode(&v), Err(DecodeError::UnexpectedMarker));
    let mut w = header();
    w.extend_from_slice(&[START, 0x01, b'+', 0x02, 0xff, 0xfe, END]);
    assert_eq!(decode(&w), Err(DecodeError::InvalidUtf8));
}

#[test]
fn empty_archive_decodes_to_nothing() {
    let mut v = header();
    v.push(END);
    assert_eq!(decode(&v), Ok(vec![]));
}

#[test]
fn integers_by_width() {
    assert_eq!(read_unsigned(&[0x05], 0), Ok((5, 1)));
    assert_eq!(read_unsigned(&[0x81, 0x34, 0x12], 0), Ok((0x1234, 3)));
    assert_eq!(read_unsigned(&[0x82, 0x78, 0x56, 0x34, 0x12], 0), Ok((0x12345678, 5)));
    assert_eq!(
        read_unsigned(&[0x83, 1, 0, 0, 0, 0, 0, 0, 0x80], 0),
        Ok((0x8000_0000_0000_0001, 9))
    );
    assert_eq!(read_signed(&[0xff], 0), Ok((-1, 1)));
    assert_eq!(read_signed(&[0x81, 0xE8, 0x03], 0), Ok((1000, 3)));
    assert_eq!(read_signed(&[0x81, 0xff, 0xff], 0), Ok((-1, 3)));
    assert_eq!(read_signed(&[0x83, 0, 0, 0, 0, 0, 0, 0, 0x80], 0), Ok((i64::MIN, 9)));
    assert_eq!(read_unsigned(&[0x81, 0x34], 0), Err(DecodeError::TruncatedInput));
    assert_eq!(read_unsigned(&[0x85], 0), Err(DecodeError::UnexpectedMarker));
    assert_eq!(read_signed(&[], 0), Err(DecodeError::TruncatedInput));
    assert_eq!(read_blob(&[0x02, 7, 8, 9], 0), Ok((vec![7, 8], 3)));
    assert_eq!(read_blob(&[0x03, 7], 0), Err(DecodeError::TruncatedInput));
}

#[test]
fn tables_resolve_only_declared_entries() {
    let mut t = Tables::new();
    assert_eq!(t.resolve_class(0), Err(DecodeError::BadBackreference));
    let i = t.declare_class(vec![Class { name: "NSObject".to_string(), version: 0 }]);
    assert_eq!(i, 0);
    assert_eq!(
        t.resolve_class(0),
        Ok(vec![Class { name: "NSObject".to_string(), version: 0 }])
    );
    let mut out = Vec::new();
    assert_eq!(t.resolve_value(0, &mut out), Err(DecodeError::BadBackreference));
    t.declare_value(vec![Archivable::Data(vec![Leaf::Unsigned(3)])]);
    assert_eq!(t.resolve_value(0, &mut out), Ok(()));
    assert_eq!(out, vec![Archivable::Data(vec![Leaf::Unsigned(3)])]);
}

fn legacy(text: &[u8], ts: [u8; 4], prefix: u8) -> Vec<u8> {
    let mut v = vec![0x04, 0x0b, 0x61, 0x62];
    v.extend_from_slice(&[0x01, 0x2b]);
    v.extend_from_slice(&ts);
    v.push(prefix);
    v.extend_from_slice(text);
    v.extend_from_slice(&[0x86, 0x84, 0x01, 0x2b, 0x86, 0x84]);
    v
}

#[test]
fn legacy_recovers_text_between_markers() {
    assert_eq!(parse(legacy(b"Hello world", [0x10, 0, 0, 0], 0x01)), Ok("Hello world".to_string()));
    assert_eq!(parse(legacy(b"", [0x10, 0, 0, 0], 0x01)), Ok(String::new()));
}

#[test]
fn legacy_replaces_invalid_utf8() {
    assert_eq!(
        parse(legacy(&[b'a', 0xff, b'b'], [0x10, 0, 0, 0], 0x01)),
        Ok("a\u{FFFD}b".to_string())
    );
}

#[test]
fn legacy_errors() {
    assert_eq!(parse(vec![1, 2, 3]), Err(StreamTypedError::NoStartPattern));
    assert_eq!(
        parse(legacy(b"x", [0, 0, 0, 0], 0x01)),
        Err(StreamTypedError::InvalidTimestamp)
    );
    assert_eq!(
        parse(legacy(b"x", [0, 0, 0, 0x80], 0x01)),
        Err(StreamTypedError::InvalidTimestamp)
    );
    assert_eq!(parse(vec![0x01, 0x2b, 1, 0]), Err(StreamTypedError::InvalidTimestamp));
    assert_eq!(
        parse(legacy(b"x", [0x10, 0, 0, 0], 0x02)),
        Err(StreamTypedError::InvalidPrefix)
    );
    assert_eq!(
        parse(vec![0x01, 0x2b, 0x10, 0, 0, 0, 0x01, b'x', b'y']),
        Err(StreamTypedError::NoEndPattern)
    );
}

#[test]
fn orchestrator_falls_back_to_legacy() {
    let b = legacy(b"plain text", [0x10, 0, 0, 0], 0x01);
    assert_eq!(decode_body(&b), Ok(Decoded::Legacy("plain text".to_string())));
}

#[test]
fn error_messages() {
    assert_eq!(StreamTypedError::NoEndPattern.message(), "No end pattern found!");
    assert_eq!(StreamTypedError::InvalidPrefix.message(), "Prefix length is not standard!");
    assert_eq!(
        DecodeError::BadBackreference.message(),
        "The archive refers to an undeclared class or value."
    );
}

#[test]
fn split_marks_placeholders() {
    let parts = split_at_placeholders("\u{FFFC}Check out this photo!", &cover(&vec![], 22));
    assert_eq!(parts.len(), 2);
    assert_eq!(parts[0], BubbleComponent::Attachment);
    assert_eq!(
        parts[1],
        BubbleComponent::Text(vec![TextAttributes { start: 1, end: 22, effects: vec![] }])
    );
    let parts = split_at_placeholders("a\u{FFFD}b", &cover(&vec![], 3));
    assert_eq!(parts.len(), 3);
    assert_eq!(parts[1], BubbleComponent::App);
}

#[test]
fn cover_of_no_runs() {
    assert_eq!(cover(&vec![], 0), vec![]);
    assert_eq!(
        cover(&vec![], 3),
        vec![TextAttributes { start: 0, end: 3, effects: vec![] }]
    );
    let runs = vec![TextAttributes { start: 1, end: 3, effects: vec![TextEffect::Italic] }];
    let full = cover(&runs, 3);
    assert_eq!(full.len(), 2);
    assert_eq!(full[0], TextAttributes { start: 0, end: 1, effects: vec![] });
}

fn message_with(text: &str, nodes: Option<Vec<Archivable>>) -> Message {
    Message {
        rowid: 0,
        guid: String::new(),
        text: Some(text.to_string()),
        service: None,
        handle_id: None,
        destination_caller_id: None,
        subject: None,
        date: 0,
        date_read: 0,
        date_delivered: 0,
        is_from_me: false,
        is_read: false,
        item_type: 0,
        other_handle: 0,
        share_status: false,
        share_direction: false,
        group_title: None,
        group_action_type: 0,
        associated_message_guid: None,
        associated_message_type: Some(0),
        balloon_bundle_id: None,
        expressive_send_style_id: None,
        thread_originator_guid: None,
        thread_originator_part: None,
        date_edited: 0,
        associated_message_emoji: None,
        chat_id: None,
        num_attachments: 0,
        deleted_from: None,
        num_replies: 0,
        components: nodes,
        edited_parts: None,
    }
}

#[test]
fn body_carries_bold_runs() {
    let mut m = message_with("", None);
    m.text = None;
    assert_eq!(m.generate_text(Some(&bold_fixture())), Ok("Bold rest".to_string()));
    assert_eq!(
        m.body(),
        vec![BubbleComponent::Text(vec![
            TextAttributes { start: 0, end: 4, effects: vec![TextEffect::Bold] },
            TextAttributes { start: 4, end: 9, effects: vec![] },
        ])]
    );
}

#[test]
fn body_carries_links() {
    let nodes = decode(&link_fixture()).unwrap();
    let m = message_with("chrissardegna.com", Some(nodes));
    assert_eq!(
        m.body(),
        vec![BubbleComponent::Text(vec![TextAttributes {
            start: 0,
            end: 17,
            effects: vec![TextEffect::Link("https://chrissardegna.com".to_string())]
        }])]
    );
}

#[test]
fn body_splits_runs_at_placeholders() {
    let text = "Check\u{FFFC}this out";
    let nodes = decode(&placeholder_fixture(text)).unwrap();
    let m = message_with(text, Some(nodes));
    assert_eq!(
        m.body(),
        vec![
            BubbleComponent::Text(vec![TextAttributes {
                start: 0,
                end: 5,
                effects: vec![TextEffect::Bold]
            }]),
            BubbleComponent::Attachment,
            BubbleComponent::Text(vec![TextAttributes { start: 6, end: 14, effects: vec![] }]),
        ]
    );
}

#[test]
fn body_keeps_unknown_attributes() {
    let mut v = header();
    v.extend(text_event("hey"));
    v.extend(run_event(1, 3));
    v.extend(first_dictionary(&[string_object("__kIMSomethingNew"), first_number(7)]));
    v.push(END);
    let nodes = decode(&v).unwrap();
    let value = decode(&v).unwrap().remove(4);
    let m = message_with("hey", Some(nodes));
    assert_eq!(
        m.body(),
        vec![BubbleComponent::Text(vec![TextAttributes {
            start: 0,
            end: 3,
            effects: vec![TextEffect::Unknown("__kIMSomethingNew".to_string(), value)]
        }])]
    );
}

#[test]
fn body_falls_back_when_runs_do_not_fit() {
    let nodes = decode(&bold_fixture()).unwrap();
    let m = message_with("Bold", Some(nodes));
    assert_eq!(
        m.body(),
        vec![BubbleComponent::Text(vec![TextAttributes { start: 0, end: 4, effects: vec![] }])]
    );
}

#[test]
fn failed_decoding_clears_old_text() {
    let mut m = message_with("stale", None);
    assert_eq!(m.generate_text(Some(&vec![1, 2, 3])), Err(MessageError::NoText));
    assert_eq!(m.text, None);
    assert!(m.components.is_none());
}

#[test]
fn edit_history_from_summary() {

    let legacy_body = vec![0x01, 0x2b, 0x10, 0, 0, 0, 0x01, b'o', b'l', b'd', 0x86, 0x84];
    let edits = vec![
        EditRecord { part: 0, date: 5, body: legacy_body, guid: Some("g".to_string()) },
        EditRecord { part: 0, date: 6, body: bold_fixture(), guid: None },
        EditRecord { part: 7, date: 9, body: vec![], guid: None },
    ];
    let m = EditedMessage::from_summary(3, &edits, &vec![2, 9]);
    assert_eq!(m.parts.len(), 3);
    assert_eq!(m.parts[0].status, EditStatus::Edited);
    assert_eq!(m.parts[1].status, EditStatus::Original);
    assert_eq!(m.parts[2].status, EditStatus::Unsent);
    let h = &m.parts[0].edit_history;
    assert_eq!(h.len(), 2);
    assert_eq!((h[0].date, h[0].text.as_str(), h[0].guid.as_deref()), (5, "old", Some("g")));
    assert!(h[0].components.is_none());
    assert_eq!(h[1].text, "Bold rest");
    assert!(h[1].components.is_some());
    assert!(m.parts[1].edit_history.is_empty());
}

#[test]
fn cut_after_end_marker_decodes_as_whole() {
    let mut longer = bold_fixture();
    let whole = decode(&longer);
    longer.extend_from_slice(&[0xde, 0xad]);
    for n in bold_fixture().len()..=longer.len() {
        assert_eq!(decode(&longer[..n]), whole);
    }
}
