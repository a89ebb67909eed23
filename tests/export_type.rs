use imessage_database::export_type::ExportType;

#[test]
fn can_parse_html_any_case() {
    assert!(matches!(ExportType::from_cli("html"), Some(ExportType::Html)));
    assert!(matches!(ExportType::from_cli("HTML"), Some(ExportType::Html)));
    assert!(matches!(ExportType::from_cli("HtMl"), Some(ExportType::Html)));
}

#[test]
fn can_parse_txt_any_case() {
    assert!(matches!(ExportType::from_cli("txt"), Some(ExportType::Txt)));
    assert!(matches!(ExportType::from_cli("TXT"), Some(ExportType::Txt)));
    assert!(matches!(ExportType::from_cli("tXt"), Some(ExportType::Txt)));
}

#[test]
fn can_parse_json_any_case() {
    assert!(matches!(ExportType::from_cli("json"), Some(ExportType::Json)));
    assert!(matches!(ExportType::from_cli("JSON"), Some(ExportType::Json)));
    assert!(matches!(ExportType::from_cli("jSoN"), Some(ExportType::Json)));
}

#[test]
fn cant_parse_invalid() {
    assert!(ExportType::from_cli("pdf").is_none());
    assert!(ExportType::from_cli("xml").is_none());
    assert!(ExportType::from_cli("").is_none());
}

#[test]
fn lowercase_names_only_match_exactly() {
    assert_eq!(ExportType::from_lowercase("html"), Some(ExportType::Html));
    assert_eq!(ExportType::from_lowercase("HTML"), None);
}

#[test]
fn extensions_and_names() {
    assert_eq!(ExportType::Html.extension(), ".html");
    assert_eq!(ExportType::Txt.extension(), ".txt");
    assert_eq!(ExportType::Json.extension(), ".json");
    assert_eq!(ExportType::Json.name(), "json");
    assert_eq!(ExportType::from_cli(ExportType::Txt.name()), Some(ExportType::Txt));
}
