use rote::assemble::RefRole;
use rote::render::generate_content_xhtml;
use rote::sequence::{sequence_lines, Action};
use rote::toc::{build_skeleton, SkeletonLine};
use rote::{compile, BookPlan, Error};

fn book_plan(cover: &str) -> BookPlan {
    BookPlan {
        title: "Sample Book".to_string(),
        author: "An Author".to_string(),
        lang: "ja".to_string(),
        generator: "rote".to_string(),
        toc_name: "目次".to_string(),
        cover_image: cover.to_string(),
        raw: "raw.txt".to_string(),
    }
}

fn lines_of(raw: &str) -> Vec<String> {
    raw.lines().map(|l| l.to_string()).collect()
}

const SAMPLE_RAW: &str = "#title-page,title.png#\n#preface-img,pref.png#\n#toc#\n#chapter,One#\nHello (world)...\n#chapter,Two#\nSecond chapter text!\n#bibliography#\n#atogaki,After#\nThanks\n#end-atogaki#\n#toc-chapter,One#\n#toc-chapter,Two#";

#[test]
fn two_chapter_scenario() {
    let lines = lines_of("#chapter,Intro#\nHello\n#chapter,Two#\nWorld");
    let sq = sequence_lines(&lines).unwrap();
    assert_eq!(sq.titles, vec!["Intro".to_string(), "Two".to_string()]);
    // The first chapter's buffer is flushed at the second chapter directive
    // as a chapter-titled unit, carrying the first anchor identifier; the
    // trailing buffer holds the second anchor and, with no directive after
    // it, is never flushed.
    assert_eq!(sq.actions.len(), 1);
    match &sq.actions[0] {
        Action::BodyWithChapterTitle(content) => {
            assert_eq!(
                content,
                "<p class=\"mfont font-1em30\" id=\"mokuji-0001\">Intro</p>\n<p><br/></p>\n<p>\u{3000}Hello</p>\n"
            );
        }
        other => panic!("unexpected action {:?}", action_name(other)),
    }
}

fn action_name(a: &Action) -> &'static str {
    match a {
        Action::TableOfContents => "TableOfContents",
        Action::PrefaceImage(_) => "PrefaceImage",
        Action::TitlePage(_) => "TitlePage",
        Action::Body(_) => "Body",
        Action::BodyWithChapterTitle(_) => "BodyWithChapterTitle",
        Action::Image(_) => "Image",
        Action::Afterword(_) => "Afterword",
        Action::ColophonImage(_) => "ColophonImage",
        Action::ColophonText(_) => "ColophonText",
        Action::Copyright(_) => "Copyright",
        Action::Bibliography(_) => "Bibliography",
        Action::GlyphImage(_) => "GlyphImage",
    }
}

#[test]
fn glyph_line_scenario() {
    let lines = lines_of("x#gaiji,face.png#y\n#end-copyright#");
    let sq = sequence_lines(&lines).unwrap();
    assert_eq!(sq.actions.len(), 2);
    match &sq.actions[0] {
        Action::GlyphImage(name) => assert_eq!(name, "face.png"),
        other => panic!("unexpected action {:?}", action_name(other)),
    }
    match &sq.actions[1] {
        Action::Copyright(content) => {
            assert_eq!(
                content,
                "<p>\u{3000}x<img class=\"gaiji\" src=\"../image/face.png\" alt=\"\" />y</p>\n"
            );
            assert!(!content.contains("#gaiji,"));
        }
        other => panic!("unexpected action {:?}", action_name(other)),
    }
}

#[test]
fn empty_line_and_page_break() {
    let lines = lines_of("----------\n\nx\n#end-copyright#");
    let sq = sequence_lines(&lines).unwrap();
    assert_eq!(sq.actions.len(), 1);
    match &sq.actions[0] {
        Action::Copyright(content) => {
            assert_eq!(content, "<p><br/></p>\n<p>\u{3000}x</p>\n");
        }
        other => panic!("unexpected action {:?}", action_name(other)),
    }
}

#[test]
fn fill_and_no_indent_blocks() {
    let lines = lines_of("#fill,Signed#\n#no-indent,Bare#\n#end-colophon-text#");
    let sq = sequence_lines(&lines).unwrap();
    assert_eq!(sq.actions.len(), 1);
    match &sq.actions[0] {
        Action::ColophonText(content) => {
            assert_eq!(
                content,
                "<p><br/></p>\n<div class=\"align-end\">\n<p>Signed</p>\n</div>\n<p>Bare</p>\n"
            );
        }
        other => panic!("unexpected action {:?}", action_name(other)),
    }
}

#[test]
fn unknown_directive_is_fatal() {
    let lines = lines_of("#frobnicate,x#");
    match sequence_lines(&lines) {
        Err(Error::UnknownDirective(cmd)) => assert_eq!(cmd, "frobnicate"),
        _ => panic!("expected the unknown-directive error"),
    }
}

#[test]
fn skeleton_with_phantom_and_afterword() {
    let lines = lines_of("#toc-chapter,phantom#\n#toc-chapter,One#\n#atogaki,Aft#");
    let sk = build_skeleton(&lines);
    assert_eq!(sk.lines.len(), 2);
    assert!(matches!(sk.lines[0], SkeletonLine::Blank));
    match &sk.lines[1] {
        SkeletonLine::Chapter(e) => {
            assert_eq!(e.anchor, 1);
            assert_eq!(e.title, "One");
        }
        SkeletonLine::Blank => panic!("expected a linked entry"),
    }
    let aft = sk.afterword.as_ref().unwrap();
    assert_eq!(aft.anchor, 2);
    assert_eq!(aft.title, "Aft");
}

#[test]
fn sample_book_unit_layout() {
    let plan = book_plan("cover.jpg");
    let pkg = compile(&plan, SAMPLE_RAW).unwrap();
    let names: Vec<&str> = pkg.units.iter().map(|u| u.name.as_str()).collect();
    assert_eq!(
        names,
        vec![
            "xhtml/p-cover.xhtml",
            "xhtml/p-titlepage.xhtml",
            "xhtml/p-fmatter-001.xhtml",
            "xhtml/p-toc.xhtml",
            "xhtml/p-001.xhtml",
            "xhtml/p-002.xhtml",
            "xhtml/p-003.xhtml",
            "xhtml/p-004.xhtml",
        ]
    );
    assert_eq!(pkg.cover.path, "image/cover-image.jpg");
    assert_eq!(pkg.cover.file, "cover.jpg");
    assert_eq!(pkg.cover.mime, "image/jpeg");
    let resource_paths: Vec<&str> = pkg.resources.iter().map(|r| r.path.as_str()).collect();
    assert_eq!(resource_paths, vec!["image/title.png", "image/pref.png"]);
    assert_eq!(pkg.resources[0].mime, "image/png");
}

#[test]
fn sample_book_roles_and_titles() {
    let plan = book_plan("cover.jpg");
    let pkg = compile(&plan, SAMPLE_RAW).unwrap();
    assert_eq!(pkg.units[0].role, Some(RefRole::Cover));
    assert_eq!(pkg.units[0].title.as_deref(), Some("表紙"));
    assert_eq!(pkg.units[1].role, Some(RefRole::TitlePage));
    assert_eq!(pkg.units[2].role, Some(RefRole::Preface));
    assert_eq!(pkg.units[3].role, Some(RefRole::Toc));
    assert_eq!(pkg.units[3].title.as_deref(), Some("目次"));
    // The one-shot main-text tag goes to the first body-numbered unit only.
    assert_eq!(pkg.units[4].role, Some(RefRole::Text));
    assert_eq!(pkg.units[4].title.as_deref(), Some("One"));
    assert_eq!(pkg.units[5].role, None);
    assert_eq!(pkg.units[5].title.as_deref(), Some("Two"));
    assert_eq!(pkg.units[6].role, None);
    assert_eq!(pkg.units[7].role, Some(RefRole::Afterword));
    assert_eq!(pkg.units[7].title.as_deref(), Some("奥付"));
}

#[test]
fn sample_book_contents_and_toc_targets() {
    let plan = book_plan("cover.jpg");
    let pkg = compile(&plan, SAMPLE_RAW).unwrap();
    let chapter_one = "<p class=\"mfont font-1em30\" id=\"mokuji-0001\">One</p>\n<p><br/></p>\n<p>\u{3000}Hello （world）…</p>\n";
    assert_eq!(
        pkg.units[4].content,
        generate_content_xhtml(&plan, chapter_one)
    );
    let toc_doc = &pkg.units[3].content;
    assert!(toc_doc.contains("<a href=\"p-001.xhtml#mokuji-0001\" class=\"mokuji-0001\">One</a>"));
    assert!(toc_doc.contains("<a href=\"p-002.xhtml#mokuji-0002\" class=\"mokuji-0002\">Two</a>"));
    assert!(toc_doc.contains("<a href=\"p-004.xhtml#mokuji-0003\" class=\"mokuji-0003\">After</a>"));
}

#[test]
fn unsupported_cover_extension_is_fatal() {
    let plan = book_plan("cover.gif");
    match compile(&plan, SAMPLE_RAW) {
        Err(Error::UnsupportedImageType(path)) => assert_eq!(path, "cover.gif"),
        _ => panic!("expected the unsupported-image-type error"),
    }
}

#[test]
fn unsupported_image_action_is_fatal() {
    let plan = book_plan("cover.jpg");
    match compile(&plan, "#img,anim.gif#") {
        Err(Error::UnsupportedImageType(path)) => assert_eq!(path, "anim.gif"),
        _ => panic!("expected the unsupported-image-type error"),
    }
}

#[test]
fn toc_mismatch_is_reported() {
    let plan = book_plan("cover.jpg");
    let raw = "#toc-chapter,A#\n#toc-chapter,B#\n#chapter,A#\nText\n#end-copyright#";
    match compile(&plan, raw) {
        Err(Error::TocActionMismatch { placeholders, qualifying }) => {
            assert_eq!(placeholders, 2);
            assert_eq!(qualifying, 1);
        }
        _ => panic!("expected the mismatch error"),
    }
}

#[test]
fn missing_chapter_title_is_reported() {
    let plan = book_plan("cover.jpg");
    match compile(&plan, "#bibliography#\n#toc-chapter,X#") {
        Err(Error::MissingChapterTitle { titled, titles }) => {
            assert_eq!(titled, 1);
            assert_eq!(titles, 0);
        }
        _ => panic!("expected the missing-title error"),
    }
}

#[test]
fn colophon_image_unit() {
    let plan = book_plan("cover.jpg");
    let pkg = compile(&plan, "#colophon,back.png#").unwrap();
    let names: Vec<&str> = pkg.units.iter().map(|u| u.name.as_str()).collect();
    assert_eq!(names, vec!["xhtml/p-cover.xhtml", "xhtml/p-colophon.xhtml"]);
    assert_eq!(pkg.units[1].role, Some(RefRole::Colophon));
    assert_eq!(pkg.resources[0].path, "image/back.png");
    assert_eq!(pkg.resources[0].mime, "image/png");
}

#[test]
fn bibliography_takes_a_number_but_no_placeholder() {
    let plan = book_plan("cover.jpg");
    let raw = "text\n#end-bibliography#\nmore\n#end-copyright#\n#toc-chapter,X#";
    let pkg = compile(&plan, raw).unwrap();
    let names: Vec<&str> = pkg.units.iter().map(|u| u.name.as_str()).collect();
    // The bibliography unit takes a paragraph number without being linked
    // from the table of contents.
    assert_eq!(
        names,
        vec!["xhtml/p-cover.xhtml", "xhtml/p-001.xhtml", "xhtml/p-002.xhtml"]
    );
    assert_eq!(pkg.units[1].role, Some(RefRole::Bibliography));
    assert_eq!(pkg.units[2].role, None);
}

#[test]
fn preface_images_have_their_own_sequence() {
    let plan = book_plan("cover.jpg");
    let pkg = compile(&plan, "#preface-img,a.png#\n#preface-img,b.png#").unwrap();
    let names: Vec<&str> = pkg.units.iter().map(|u| u.name.as_str()).collect();
    assert_eq!(
        names,
        vec![
            "xhtml/p-cover.xhtml",
            "xhtml/p-fmatter-001.xhtml",
            "xhtml/p-fmatter-002.xhtml",
        ]
    );
}

#[test]
fn toc_marker_anywhere_on_the_line() {
    let lines = lines_of("x#toc#y");
    let sq = sequence_lines(&lines).unwrap();
    assert_eq!(sq.actions.len(), 1);
    assert!(matches!(sq.actions[0], Action::TableOfContents));
}

#[test]
fn normalized_parenthesis_suppresses_indent() {
    let plan = book_plan("cover.jpg");
    let pkg = compile(&plan, "(aside)\n#end-copyright#\n#toc-chapter,X#").unwrap();
    // The ASCII parenthesis becomes full-width before the indent test, and
    // the full-width parenthesis is in the no-indent set.
    assert!(pkg.units[1].content.contains("<p>（aside）</p>\n"));
}
