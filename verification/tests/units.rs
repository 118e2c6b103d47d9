use rote::lex::{extract_glyphs, parse_directive, wrap_paragraph};
use rote::normalize::normalize_text;
use rote::ocr::OcrPlan;
use rote::render::get_image_mime_type;
use rote::text::{contains_sub, find_sub, padded_dec_str, split_lines, str_eq};

#[test]
fn normalizer_rewrites_punctuation() {
    assert_eq!(normalize_text("Hello...?!"), "Hello…？！");
    assert_eq!(normalize_text("(a)~"), "（a）〜");
    assert_eq!(normalize_text("plain text"), "plain text");
}

#[test]
fn normalizer_dot_runs() {
    assert_eq!(normalize_text("...."), "….");
    assert_eq!(normalize_text("....."), "…..");
    assert_eq!(normalize_text("......"), "……");
    assert_eq!(normalize_text(".."), "..");
}

#[test]
fn normalizer_idempotent_on_samples() {
    for s in ["Hello...?!", "(a)~", "....", "a?b!c(d)e~f...", ""] {
        let once = normalize_text(s);
        let twice = normalize_text(&once);
        assert_eq!(once, twice);
    }
}

#[test]
fn paragraph_indent_rule() {
    assert_eq!(wrap_paragraph("Hello"), "<p>\u{3000}Hello</p>\n");
    assert_eq!(wrap_paragraph("「Quote"), "<p>「Quote</p>\n");
    assert_eq!(wrap_paragraph("（Aside"), "<p>（Aside</p>\n");
    assert_eq!(wrap_paragraph("─Dash"), "<p>─Dash</p>\n");
    assert_eq!(wrap_paragraph("\u{3000}Indented"), "<p>\u{3000}Indented</p>\n");
}

#[test]
fn directive_parsing() {
    assert_eq!(
        parse_directive("#chapter,Intro#"),
        Some(("chapter".to_string(), "Intro".to_string()))
    );
    assert_eq!(
        parse_directive("#fill,a,b#"),
        Some(("fill".to_string(), "a,b".to_string()))
    );
    assert_eq!(
        parse_directive("#bibliography#"),
        Some(("bibliography".to_string(), "".to_string()))
    );
    assert_eq!(parse_directive("no marks here"), None);
    assert_eq!(parse_directive("one # only"), None);
}

#[test]
fn glyph_extraction() {
    let (names, rewritten) = extract_glyphs("a#gaiji,face.png#b");
    assert_eq!(names, vec!["face.png".to_string()]);
    assert_eq!(
        rewritten,
        "a<img class=\"gaiji\" src=\"../image/face.png\" alt=\"\" />b"
    );
}

#[test]
fn glyph_extraction_multiple_and_unclosed() {
    let (names, rewritten) = extract_glyphs("#gaiji,a.png#x#gaiji,b.png#");
    assert_eq!(names, vec!["a.png".to_string(), "b.png".to_string()]);
    assert!(rewritten.contains("../image/a.png"));
    assert!(rewritten.contains("../image/b.png"));
    let (none, same) = extract_glyphs("#gaiji,open");
    assert!(none.is_empty());
    assert_eq!(same, "#gaiji,open");
}

#[test]
fn mime_from_extension() {
    assert_eq!(get_image_mime_type("cover.png").unwrap(), "image/png");
    assert_eq!(get_image_mime_type("dir/photo.jpg").unwrap(), "image/jpeg");
    assert!(get_image_mime_type("animated.gif").is_err());
    assert!(get_image_mime_type("no_extension").is_err());
}

#[test]
fn line_splitting() {
    let lines = split_lines("a\r\nb\nc");
    assert_eq!(lines, vec!["a".to_string(), "b".to_string(), "c".to_string()]);
    assert_eq!(split_lines("x\n"), vec!["x".to_string()]);
    assert!(split_lines("").is_empty());
    assert_eq!(split_lines("\n\n"), vec!["".to_string(), "".to_string()]);
}

#[test]
fn zero_padded_numbers() {
    assert_eq!(padded_dec_str(7, 3), "007");
    assert_eq!(padded_dec_str(42, 4), "0042");
    assert_eq!(padded_dec_str(1234, 3), "1234");
    assert_eq!(padded_dec_str(0, 2), "00");
}

#[test]
fn text_search_helpers() {
    assert!(str_eq("abc", "abc"));
    assert!(!str_eq("abc", "abd"));
    assert_eq!(find_sub("hello world", "world"), Some(6));
    assert_eq!(find_sub("hello", "xyz"), None);
    assert!(contains_sub("line with #toc# marker", "#toc#"));
}

#[test]
fn ocr_plan_ignore() {
    let plan = OcrPlan::new(
        vec!["p1.png".to_string()],
        vec!["p2.png".to_string()],
        vec!["p3.png".to_string()],
    );
    assert!(plan.ignore("p1.png".to_string()));
    assert!(plan.ignore("p2.png".to_string()));
    assert!(plan.ignore("p3.png".to_string()));
    assert!(!plan.ignore("p4.png".to_string()));
}
