use pdf2html::options::ConversionOptions;
use pdf2html::options::default_options;
use pdf2html::options::parse_bool_field;
use pdf2html::options::parse_u32_field;
use pdf2html::options::parse_zoom_field;
use pdf2html::options::parse_options;

fn field(name: &str, value: &str) -> (String, Vec<u8>) {
    (name.to_string(), value.as_bytes().to_vec())
}

#[test]
fn bool_true_tokens() {
    assert_eq!(parse_bool_field(&b"true".to_vec()), Some(true));
    assert_eq!(parse_bool_field(&b"1".to_vec()), Some(true));
    assert_eq!(parse_bool_field(&b"  true\n".to_vec()), Some(true));
}

#[test]
fn bool_other_tokens_are_false() {
    assert_eq!(parse_bool_field(&b"false".to_vec()), Some(false));
    assert_eq!(parse_bool_field(&b"yes".to_vec()), Some(false));
    assert_eq!(parse_bool_field(&b"TRUE".to_vec()), Some(false));
    assert_eq!(parse_bool_field(&b"".to_vec()), Some(false));
}

#[test]
fn bool_non_text_bytes_leave_field_alone() {
    assert_eq!(parse_bool_field(&vec![0xff, 0xfe]), None);
}

#[test]
fn numeric_parsing() {
    assert_eq!(parse_u32_field(&b"12".to_vec()), Some(Some(12)));
    assert_eq!(parse_u32_field(&b" 34 ".to_vec()), Some(Some(34)));
    assert_eq!(parse_u32_field(&b"+7".to_vec()), Some(Some(7)));
    assert_eq!(parse_u32_field(&b"4294967295".to_vec()), Some(Some(u32::MAX)));
}

#[test]
fn numeric_noise_defaults() {
    assert_eq!(parse_u32_field(&b"abc".to_vec()), Some(None));
    assert_eq!(parse_u32_field(&b"".to_vec()), Some(None));
    assert_eq!(parse_u32_field(&b"-3".to_vec()), Some(None));
    assert_eq!(parse_u32_field(&b"4294967296".to_vec()), Some(None));
    assert_eq!(parse_u32_field(&b"99999999999".to_vec()), Some(None));
    assert_eq!(parse_u32_field(&vec![0xff]), None);
}

#[test]
fn zoom_tokens() {
    assert_eq!(parse_zoom_field(&b"1.5".to_vec()), Some(Some("1.5".to_string())));
    assert_eq!(parse_zoom_field(&b"+1.5".to_vec()), Some(Some("1.5".to_string())));
    assert_eq!(parse_zoom_field(&b"+".to_vec()), Some(None));
    assert_eq!(parse_zoom_field(&b" 2 ".to_vec()), Some(Some("2".to_string())));
    assert_eq!(parse_zoom_field(&b"abc".to_vec()), Some(None));
    assert_eq!(parse_zoom_field(&b"0.0".to_vec()), Some(None));
    assert_eq!(parse_zoom_field(&b"1.2.3".to_vec()), Some(None));
    assert_eq!(parse_zoom_field(&vec![0x80]), None);
}

#[test]
fn defaults_when_no_fields() {
    let opts: ConversionOptions = parse_options(&Vec::new());
    let d = default_options();
    assert_eq!(opts.zoom, d.zoom);
    assert_eq!(opts.fit_width, None);
    assert_eq!(opts.fit_height, None);
    assert_eq!(opts.embed_css, Some(true));
    assert_eq!(opts.embed_font, Some(true));
    assert_eq!(opts.embed_image, Some(true));
    assert_eq!(opts.embed_javascript, Some(true));
    assert_eq!(opts.split_pages, None);
    assert_eq!(opts.first_page, None);
    assert_eq!(opts.last_page, None);
}

#[test]
fn fields_are_applied() {
    let fields = vec![
        field("zoom", "1.5"),
        field("fit_width", "800"),
        field("embed_css", "false"),
        field("split_pages", "true"),
        field("first_page", "2"),
        field("last_page", "9"),
    ];
    let opts = parse_options(&fields);
    assert_eq!(opts.zoom, Some("1.5".to_string()));
    assert_eq!(opts.fit_width, Some(800));
    assert_eq!(opts.embed_css, Some(false));
    assert_eq!(opts.split_pages, Some(true));
    assert_eq!(opts.first_page, Some(2));
    assert_eq!(opts.last_page, Some(9));
    assert_eq!(opts.embed_font, Some(true));
}

#[test]
fn malformed_fields_fall_back_to_defaults() {
    let fields = vec![
        field("zoom", "huge"),
        field("fit_width", "very wide"),
        field("first_page", "-1"),
    ];
    let opts = parse_options(&fields);
    assert_eq!(opts.zoom, None);
    assert_eq!(opts.fit_width, None);
    assert_eq!(opts.first_page, None);
    assert_eq!(opts.embed_css, Some(true));
}

#[test]
fn later_occurrence_overwrites() {
    let fields = vec![field("zoom", "1.5"), field("zoom", "2.5")];
    let opts = parse_options(&fields);
    assert_eq!(opts.zoom, Some("2.5".to_string()));
}

#[test]
fn unknown_fields_are_ignored() {
    let fields = vec![field("colour", "blue"), field("file", "raw bytes")];
    let opts = parse_options(&fields);
    assert_eq!(opts.fit_width, None);
    assert_eq!(opts.embed_css, Some(true));
}
