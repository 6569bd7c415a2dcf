use pdf2html::invoke::build_args;
use pdf2html::options::default_options;
use pdf2html::options::parse_options;
use pdf2html::strnum::u32_to_dec;

fn has_pair(args: &[String], flag: &str, val: &str) -> bool {
    args.windows(2).any(|w| w[0] == flag && w[1] == val)
}

#[test]
fn default_options_build_minimal_args() {
    let args = build_args("/tmp/pdf2html/output/t", "/tmp/pdf2html/in.pdf", &default_options());
    assert_eq!(
        args,
        vec![
            "--dest-dir".to_string(),
            "/tmp/pdf2html/output/t".to_string(),
            "/tmp/pdf2html/in.pdf".to_string()
        ]
    );
}

#[test]
fn disabled_embed_css_appears_as_zero() {
    let mut o = default_options();
    o.embed_css = Some(false);
    let args = build_args("/d", "/i.pdf", &o);
    assert!(has_pair(&args, "--embed-css", "0"));
    assert!(!args.iter().any(|a| a == "--embed-font"));
}

#[test]
fn enabled_split_pages_appears_as_one() {
    let mut o = default_options();
    o.split_pages = Some(true);
    let args = build_args("/d", "/i.pdf", &o);
    assert!(has_pair(&args, "--split-pages", "1"));
}

#[test]
fn explicitly_true_embed_flags_are_omitted() {
    let mut o = default_options();
    o.embed_css = Some(true);
    o.embed_javascript = Some(true);
    let args = build_args("/d", "/i.pdf", &o);
    assert_eq!(args.len(), 3);
}

#[test]
fn zoom_appears_whatever_else_is_set() {
    let mut o = default_options();
    o.zoom = Some("1.5".to_string());
    o.fit_width = Some(800);
    o.split_pages = Some(true);
    o.embed_image = Some(false);
    let args = build_args("/d", "/i.pdf", &o);
    assert!(has_pair(&args, "--zoom", "1.5"));
    assert!(has_pair(&args, "--fit-width", "800"));
    assert!(has_pair(&args, "--embed-image", "0"));
    assert!(has_pair(&args, "--split-pages", "1"));
}

#[test]
fn numeric_options_render_in_decimal() {
    assert_eq!(u32_to_dec(0), "0");
    assert_eq!(u32_to_dec(7), "7");
    assert_eq!(u32_to_dec(1080), "1080");
    assert_eq!(u32_to_dec(u32::MAX), "4294967295");
}

#[test]
fn parsed_fields_reach_the_command_line() {
    let fields = vec![
        ("zoom".to_string(), b"1.5".to_vec()),
        ("embed_css".to_string(), b"false".to_vec()),
        ("first_page".to_string(), b"2".to_vec()),
    ];
    let o = parse_options(&fields);
    let args = build_args("/d", "/i.pdf", &o);
    assert!(has_pair(&args, "--zoom", "1.5"));
    assert!(has_pair(&args, "--embed-css", "0"));
    assert!(has_pair(&args, "--first-page", "2"));
    assert!(!args.iter().any(|a| a == "--last-page"));
}
