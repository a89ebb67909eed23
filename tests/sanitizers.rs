use imessage_database::sanitizers::{sanitize_filename, sanitize_html, sanitize_json};

#[test]
fn can_sanitize_macos() {
    assert_eq!(sanitize_filename("a/b\\c:d"), "a_b_c_d");
}

#[test]
fn doesnt_sanitize_none() {
    assert_eq!(sanitize_filename("a_b_c_d"), "a_b_c_d");
}

#[test]
fn can_sanitize_one() {
    assert_eq!(sanitize_filename("ab/cd"), "ab_cd");
}

#[test]
fn can_sanitize_only_bad() {
    assert_eq!(
        sanitize_filename("* \" / \\ < > : | ?"),
        "_ _ _ _ _ _ _ _ _"
    );
}

#[test]
fn test_escape_html_chars_basic() {
    assert_eq!(
        &sanitize_html("<p>Hello, world > HTML</p>"),
        "&lt;p&gt;Hello, world &gt; HTML&lt;/p&gt;"
    );
}

#[test]
fn doesnt_sanitize_empty_string() {
    assert_eq!(&sanitize_html(""), "");
}

#[test]
fn doesnt_sanitize_no_special_chars() {
    assert_eq!(&sanitize_html("Hello world"), "Hello world");
}

#[test]
fn can_sanitize_code_block() {
    assert_eq!(
        &sanitize_html("`imessage-exporter -f txt`"),
        "&grave;imessage-exporter -f txt&grave;"
    );
}

#[test]
fn can_sanitize_all_special_chars() {
    assert_eq!(
        &sanitize_html("<>&\"`'"),
        "&lt;&gt;&amp;&quot;&grave;&apos;"
    );
}

#[test]
fn can_sanitize_mixed_content() {
    assert_eq!(
        &sanitize_html("<div>Hello &amp; world</div>"),
        "&lt;div&gt;Hello &amp;amp; world&lt;/div&gt;"
    );
}

#[test]
fn can_sanitize_mixed_content_nbsp() {
    assert_eq!(
        &sanitize_html("<div>Hello &amp; world</div>"),
        "&lt;div&gt;Hello&nbsp;&amp;amp;&nbsp;world&lt;/div&gt;"
    );
}

#[test]
fn test_escape_json_chars_basic() {
    assert_eq!(
        &sanitize_json("Hello \"world\" \\ JSON"),
        "Hello \\\"world\\\" \\\\ JSON"
    );
}

#[test]
fn sanitizers_doesnt_sanitize_empty_string() {
    assert_eq!(&sanitize_json(""), "");
}

#[test]
fn sanitizers_doesnt_sanitize_no_special_chars() {
    assert_eq!(&sanitize_json("Hello world"), "Hello world");
}

#[test]
fn can_escape_control_characters() {
    assert_eq!(
        &sanitize_json("Line1\nLine2\tTabbed"),
        "Line1\\nLine2\\tTabbed"
    );
}

#[test]
fn can_escape_all_control_characters() {
    assert_eq!(
        &sanitize_json(
            "\x00\x01\x02\x03\x04\x05\x06\x07\x08\x09\x0a\x0b\x0c\x0d\x0e\x0f\
             \x10\x11\x12\x13\x14\x15\x16\x17\x18\x19\x1a\x1b\x1c\x1d\x1e\x1f"
        ),
        "\\u0000\\u0001\\u0002\\u0003\\u0004\\u0005\\u0006\\u0007\\b\\t\\n\
         \\u000b\\f\\r\\u000e\\u000f\\u0010\\u0011\\u0012\\u0013\\u0014\\u0015\
         \\u0016\\u0017\\u0018\\u0019\\u001a\\u001b\\u001c\\u001d\\u001e\\u001f"
    );
}

#[test]
fn can_escape_mixed_content() {
    assert_eq!(
        &sanitize_json("Key: \"value\" with \\ control and \n newline"),
        "Key: \\\"value\\\" with \\\\ control and \\n newline"
    );
}

#[test]
fn can_escape_special_json_characters() {
    assert_eq!(
        &sanitize_json("\"\\/\x08\x0c\n\r\t"),
        "\\\"\\\\/\\b\\f\\n\\r\\t"
    );
}

#[test]
fn sanitizes_complex_content_with_control_chars() {
    assert_eq!(
        &sanitize_json("Complex: \"Line1\nLine2\\Tab\" with control chars \x1f"),
        "Complex: \\\"Line1\\nLine2\\\\Tab\\\" with control chars \\u001f"
    );
}

#[test]
fn borrowed_when_nothing_to_escape() {
    assert!(matches!(sanitize_html("plain"), std::borrow::Cow::Borrowed(_)));
    assert!(matches!(sanitize_html("a\u{a0}b"), std::borrow::Cow::Owned(_)));
    assert!(matches!(sanitize_json("plain/text"), std::borrow::Cow::Borrowed(_)));
    assert!(matches!(sanitize_json("a\nb"), std::borrow::Cow::Owned(_)));
}
