//! Unit renderer: one fixed template per content kind, parameterized by the
//! book's language and title and by the unit's content or image name; and
//! the file-extension rule that derives an image's MIME type.

use vstd::prelude::*;
use vstd::string::*;

use crate::BookPlan;
use crate::Error;
use crate::text::{find_last_char, find_last_char_in, lemma_find_last_char_characterizes,
    zero_padded, padded_dec_str};
use crate::toc::{ResolvedLine, ResolvedLineV, ResolvedToc, ResolvedTocV, ResolvedEntryV};

verus! {

/// The body template shared by text units.
pub open spec fn content_xhtml(lang: Seq<char>, title: Seq<char>, content: Seq<char>) -> Seq<
    char,
> {
    "<?xml version=\"1.0\" encoding=\"UTF-8\"?>\n<!DOCTYPE html>\n<html\n xmlns=\"http://www.w3.org/1999/xhtml\"\n xmlns:epub=\"http://www.idpf.org/2007/ops\"\n xml:lang=\""@
        + lang
        + "\"\n class=\"vrtl\"\n>\n<head>\n<meta charset=\"UTF-8\"/>\n<title>"@
        + title
        + "</title>\n<link rel=\"stylesheet\" type=\"text/css\" href=\"../style/book-style.css\"/>\n</head>\n<body class=\"p-honmon top-left-on\">\n<p class=\"dummy\"><img class=\"keep-space\" src=\"../image/keep-space.jpg\"/></p>\n<div class=\"main\">\n"@
        + content + "</div>\n</body>\n</html>"@
}

/// The image-display template shared by standalone and colophon images.
pub open spec fn image_xhtml(lang: Seq<char>, title: Seq<char>, image: Seq<char>) -> Seq<char> {
    "<?xml version=\"1.0\" encoding=\"UTF-8\"?>\n<!DOCTYPE html>\n<html\n xmlns=\"http://www.w3.org/1999/xhtml\"\n xmlns:epub=\"http://www.idpf.org/2007/ops\"\n xml:lang=\""@
        + lang
        + "\"\n class=\"hltr\"\n>\n<head>\n<meta charset=\"UTF-8\"/>\n<title>"@
        + title
        + "</title>\n<link rel=\"stylesheet\" type=\"text/css\" href=\"../style/book-style.css\"/>\n</head>\n<body class=\"p-image middle-center-on\">\n<p class=\"dummy\"><img class=\"keep-space\" src=\"../image/keep-space.jpg\"/></p>\n<div class=\"main\">\n<p><img class=\"fit\" src=\"../image/"@
        + image + "\" alt=\"\"/></p>\n</div>\n</body>\n</html>"@
}

/// The full-bleed image template shared by preface images and the title page.
pub open spec fn preface_image_xhtml(lang: Seq<char>, title: Seq<char>, image: Seq<char>) -> Seq<
    char,
> {
    "<?xml version=\"1.0\" encoding=\"UTF-8\"?>\n<!DOCTYPE html>\n<html\n xmlns=\"http://www.w3.org/1999/xhtml\"\n xmlns:epub=\"http://www.idpf.org/2007/ops\"\n xml:lang=\""@
        + lang
        + "\"\n class=\"hltr\"\n>\n<head>\n<meta charset=\"UTF-8\"/>\n<title>"@
        + title
        + "</title>\n<link rel=\"stylesheet\" type=\"text/css\" href=\"../style/fit-style.css\"/>\n<meta name=\"viewport\" content=\"width=2048, height=1444\"/>\n</head>\n<body class=\"p-image\">\n<div class=\"main align-center\">\n<p><img class=\"fit\" src=\"../image/"@
        + image + "\" alt=\"\"/></p>\n</div>\n</body>\n</html>"@
}

/// The cover template.
pub open spec fn cover_xhtml(lang: Seq<char>, title: Seq<char>) -> Seq<char> {
    "<?xml version=\"1.0\" encoding=\"UTF-8\"?>\n<!DOCTYPE html>\n<html\n xmlns=\"http://www.w3.org/1999/xhtml\"\n xmlns:epub=\"http://www.idpf.org/2007/ops\"\n xml:lang=\""@
        + lang
        + "\"\n class=\"hltr\"\n>\n<head>\n<meta charset=\"UTF-8\"/>\n<title>"@
        + title
        + "</title>\n<link rel=\"stylesheet\" type=\"text/css\" href=\"../style/book-style.css\"/>\n</head>\n<body epub:type=\"cover\" class=\"p-cover\">\n<div class=\"main\">\n<p><img class=\"fit\" src=\"../image/cover-image.jpg\"/></p>\n</div>\n</body>\n</html>\n        "@
}

/// Render a text unit through the body template.
pub fn generate_content_xhtml(plan: &BookPlan, content: &str) -> (r: String)
    ensures
        r@ == content_xhtml(plan.lang@, plan.title@, content@),
{
    let mut out =
        "<?xml version=\"1.0\" encoding=\"UTF-8\"?>\n<!DOCTYPE html>\n<html\n xmlns=\"http://www.w3.org/1999/xhtml\"\n xmlns:epub=\"http://www.idpf.org/2007/ops\"\n xml:lang=\"".to_owned();
    out.append(plan.lang.as_str());
    out.append("\"\n class=\"vrtl\"\n>\n<head>\n<meta charset=\"UTF-8\"/>\n<title>");
    out.append(plan.title.as_str());
    out.append(
        "</title>\n<link rel=\"stylesheet\" type=\"text/css\" href=\"../style/book-style.css\"/>\n</head>\n<body class=\"p-honmon top-left-on\">\n<p class=\"dummy\"><img class=\"keep-space\" src=\"../image/keep-space.jpg\"/></p>\n<div class=\"main\">\n",
    );
    out.append(content);
    out.append("</div>\n</body>\n</html>");
    out
}

/// Render a standalone image unit through the image-display template.
pub fn generate_image_xhtml(plan: &BookPlan, image_name: &str) -> (r: String)
    ensures
        r@ == image_xhtml(plan.lang@, plan.title@, image_name@),
{
    let mut out =
        "<?xml version=\"1.0\" encoding=\"UTF-8\"?>\n<!DOCTYPE html>\n<html\n xmlns=\"http://www.w3.org/1999/xhtml\"\n xmlns:epub=\"http://www.idpf.org/2007/ops\"\n xml:lang=\"".to_owned();
    out.append(plan.lang.as_str());
    out.append("\"\n class=\"hltr\"\n>\n<head>\n<meta charset=\"UTF-8\"/>\n<title>");
    out.append(plan.title.as_str());
    out.append(
        "</title>\n<link rel=\"stylesheet\" type=\"text/css\" href=\"../style/book-style.css\"/>\n</head>\n<body class=\"p-image middle-center-on\">\n<p class=\"dummy\"><img class=\"keep-space\" src=\"../image/keep-space.jpg\"/></p>\n<div class=\"main\">\n<p><img class=\"fit\" src=\"../image/",
    );
    out.append(image_name);
    out.append("\" alt=\"\"/></p>\n</div>\n</body>\n</html>");
    out
}

/// Render a preface or title-page unit through the full-bleed template.
pub fn generate_preface_image_xhtml(plan: &BookPlan, image_name: &str) -> (r: String)
    ensures
        r@ == preface_image_xhtml(plan.lang@, plan.title@, image_name@),
{
    let mut out =
        "<?xml version=\"1.0\" encoding=\"UTF-8\"?>\n<!DOCTYPE html>\n<html\n xmlns=\"http://www.w3.org/1999/xhtml\"\n xmlns:epub=\"http://www.idpf.org/2007/ops\"\n xml:lang=\"".to_owned();
    out.append(plan.lang.as_str());
    out.append("\"\n class=\"hltr\"\n>\n<head>\n<meta charset=\"UTF-8\"/>\n<title>");
    out.append(plan.title.as_str());
    out.append(
        "</title>\n<link rel=\"stylesheet\" type=\"text/css\" href=\"../style/fit-style.css\"/>\n<meta name=\"viewport\" content=\"width=2048, height=1444\"/>\n</head>\n<body class=\"p-image\">\n<div class=\"main align-center\">\n<p><img class=\"fit\" src=\"../image/",
    );
    out.append(image_name);
    out.append("\" alt=\"\"/></p>\n</div>\n</body>\n</html>");
    out
}

/// Render the cover unit.
pub fn generate_cover_image_xhtml(plan: &BookPlan) -> (r: String)
    ensures
        r@ == cover_xhtml(plan.lang@, plan.title@),
{
    let mut out =
        "<?xml version=\"1.0\" encoding=\"UTF-8\"?>\n<!DOCTYPE html>\n<html\n xmlns=\"http://www.w3.org/1999/xhtml\"\n xmlns:epub=\"http://www.idpf.org/2007/ops\"\n xml:lang=\"".to_owned();
    out.append(plan.lang.as_str());
    out.append("\"\n class=\"hltr\"\n>\n<head>\n<meta charset=\"UTF-8\"/>\n<title>");
    out.append(plan.title.as_str());
    out.append(
        "</title>\n<link rel=\"stylesheet\" type=\"text/css\" href=\"../style/book-style.css\"/>\n</head>\n<body epub:type=\"cover\" class=\"p-cover\">\n<div class=\"main\">\n<p><img class=\"fit\" src=\"../image/cover-image.jpg\"/></p>\n</div>\n</body>\n</html>\n        ",
    );
    out
}

/// The extension of a path: the text after the last dot of its file name,
/// when such a dot stands after the file name's first character.
pub open spec fn spec_extension(path: Seq<char>) -> Option<Seq<char>> {
    let start: int = match find_last_char(path, '/') {
        Some(k) => k + 1,
        None => 0,
    };
    match find_last_char(path, '.') {
        Some(j) => if j > start {
            Some(path.skip(j + 1))
        } else {
            None
        },
        None => None,
    }
}

/// The MIME type derived from a file extension: only `png` and `jpg` name
/// supported image types.
pub open spec fn mime_of(path: Seq<char>) -> Option<Seq<char>> {
    match spec_extension(path) {
        Some(ext) => if ext == "png"@ {
            Some("image/png"@)
        } else if ext == "jpg"@ {
            Some("image/jpeg"@)
        } else {
            None
        },
        None => None,
    }
}

/// Derive the MIME type of an image from its file extension; any other
/// extension is the unsupported-image-type fatal condition.
pub fn get_image_mime_type(path: &str) -> (r: Result<&'static str, Error>)
    ensures
        match r {
            Ok(m) => mime_of(path@) == Some(m@),
            Err(e) => mime_of(path@) is None && (e matches Error::UnsupportedImageType(p) && p@
                == path@),
        },
{
    let slash = find_last_char_in(path, '/');
    proof {
        lemma_find_last_char_characterizes(path@, '/');
        lemma_find_last_char_characterizes(path@, '.');
    }
    match find_last_char_in(path, '.') {
        Some(j) => {
            let in_name = match slash {
                Some(k) => j > k && j - k >= 2,
                None => j > 0,
            };
            if in_name {
                let n = path.unicode_len();
                let ext = path.substring_char(j + 1, n);
                proof {
                    assert(ext@ =~= path@.skip(j + 1));
                }
                if crate::text::str_eq(ext, "png") {
                    Ok("image/png")
                } else if crate::text::str_eq(ext, "jpg") {
                    Ok("image/jpeg")
                } else {
                    Err(Error::UnsupportedImageType(path.to_owned()))
                }
            } else {
                Err(Error::UnsupportedImageType(path.to_owned()))
            }
        },
        None => Err(Error::UnsupportedImageType(path.to_owned())),
    }
}

/// The text of one resolved table-of-contents line.
pub open spec fn toc_line_text(l: ResolvedLineV) -> Seq<char> {
    match l {
        ResolvedLineV::Blank => "<p><br/></p>\n"@,
        ResolvedLineV::Chapter(e) => "<p><a href=\"p-"@ + zero_padded(e.target, 3)
            + ".xhtml#mokuji-"@ + zero_padded(e.anchor, 4) + "\" class=\"mokuji-"@ + zero_padded(
            e.anchor,
            4,
        ) + "\">"@ + e.title + "</a></p>\n"@,
    }
}

/// The text of all resolved lines, in order.
pub open spec fn toc_lines_text(ls: Seq<ResolvedLineV>) -> Seq<char>
    decreases ls.len(),
{
    if ls.len() == 0 {
        Seq::empty()
    } else {
        toc_line_text(ls[0]) + toc_lines_text(ls.skip(1))
    }
}

/// The text of the afterword entry's block.
pub open spec fn toc_afterword_text(e: ResolvedEntryV) -> Seq<char> {
    "<p><br/></p>\n<div class=\"h-indent-1em\">\n<p>　<a href=\"p-"@ + zero_padded(e.target, 3)
        + ".xhtml#mokuji-"@ + zero_padded(e.anchor, 4) + "\" class=\"mokuji-"@ + zero_padded(
        e.anchor,
        4,
    ) + "\">"@ + e.title + "</a></p>\n</div>\n"@
}

/// The head of the table-of-contents document.
pub open spec fn toc_header(lang: Seq<char>, title: Seq<char>, toc_name: Seq<char>) -> Seq<char> {
    "<?xml version=\"1.0\" encoding=\"UTF-8\"?>\n<!DOCTYPE html>\n<html\n xmlns=\"http://www.w3.org/1999/xhtml\"\n xmlns:epub=\"http://www.idpf.org/2007/ops\"\n xml:lang=\""@
        + lang
        + "\"\n class=\"vrtl\"\n>\n<head>\n<meta charset=\"UTF-8\"/>\n<title>"@
        + title
        + "</title>\n<link rel=\"stylesheet\" type=\"text/css\" href=\"../style/book-style.css\"/>\n</head>\n<body class=\"p-toc top-left-off\">\n<p class=\"dummy\"><img class=\"keep-space\" src=\"../image/keep-space.jpg\"/></p>\n<div class=\"main\">\n<div class=\"start-2em\">\n<p>　<span class=\"mfont font-1em30\">"@
        + toc_name + "</span></p>\n<p><br/></p>\n<div class=\"font-1em10\">\n"@
}

/// The whole table-of-contents document.
pub open spec fn toc_xhtml(
    lang: Seq<char>,
    title: Seq<char>,
    toc_name: Seq<char>,
    toc: ResolvedTocV,
) -> Seq<char> {
    toc_header(lang, title, toc_name) + toc_lines_text(toc.lines) + (match toc.afterword {
        Some(e) => toc_afterword_text(e),
        None => Seq::empty(),
    }) + "</div>\n</div>\n</div>\n</body>\n</html>"@
}

/// Render the resolved table of contents into its document.
pub fn render_toc_xhtml(plan: &BookPlan, toc: &ResolvedToc) -> (r: String)
    ensures
        r@ == toc_xhtml(plan.lang@, plan.title@, plan.toc_name@, toc@),
{
    let mut out =
        "<?xml version=\"1.0\" encoding=\"UTF-8\"?>\n<!DOCTYPE html>\n<html\n xmlns=\"http://www.w3.org/1999/xhtml\"\n xmlns:epub=\"http://www.idpf.org/2007/ops\"\n xml:lang=\"".to_owned();
    out.append(plan.lang.as_str());
    out.append("\"\n class=\"vrtl\"\n>\n<head>\n<meta charset=\"UTF-8\"/>\n<title>");
    out.append(plan.title.as_str());
    out.append(
        "</title>\n<link rel=\"stylesheet\" type=\"text/css\" href=\"../style/book-style.css\"/>\n</head>\n<body class=\"p-toc top-left-off\">\n<p class=\"dummy\"><img class=\"keep-space\" src=\"../image/keep-space.jpg\"/></p>\n<div class=\"main\">\n<div class=\"start-2em\">\n<p>　<span class=\"mfont font-1em30\">",
    );
    out.append(plan.toc_name.as_str());
    out.append("</span></p>\n<p><br/></p>\n<div class=\"font-1em10\">\n");
    let ghost lsv = toc@.lines;
    let m = toc.lines.len();
    let mut j: usize = 0;
    proof {
        assert(lsv.skip(0) =~= lsv);
        assert(out@ == toc_header(plan.lang@, plan.title@, plan.toc_name@));
        assert(out@ + toc_lines_text(lsv) =~= toc_header(plan.lang@, plan.title@, plan.toc_name@)
            + toc_lines_text(lsv));
    }
    while j < m
        invariant
            lsv == toc@.lines,
            m == toc.lines@.len(),
            lsv.len() == m,
            0 <= j <= m,
            out@ + toc_lines_text(lsv.skip(j as int)) == toc_header(
                plan.lang@,
                plan.title@,
                plan.toc_name@,
            ) + toc_lines_text(lsv),
        decreases m - j,
    {
        proof {
            assert(lsv.skip(j as int)[0] == lsv[j as int]);
            assert(lsv[j as int] == toc.lines@[j as int]@);
            assert(lsv.skip(j as int).skip(1) =~= lsv.skip(j + 1));
        }
        let ghost out0 = out@;
        match &toc.lines[j] {
            ResolvedLine::Blank => {
                out.append("<p><br/></p>\n");
            },
            ResolvedLine::Chapter(e) => {
                out.append("<p><a href=\"p-");
                let t3 = padded_dec_str(e.target, 3);
                out.append(t3.as_str());
                out.append(".xhtml#mokuji-");
                let a4 = padded_dec_str(e.anchor, 4);
                out.append(a4.as_str());
                out.append("\" class=\"mokuji-");
                out.append(a4.as_str());
                out.append("\">");
                out.append(e.title.as_str());
                out.append("</a></p>\n");
            },
        }
        proof {
            assert(out@ =~= out0 + toc_line_text(lsv[j as int]));
            assert(out@ + toc_lines_text(lsv.skip(j + 1)) =~= out0 + toc_lines_text(
                lsv.skip(j as int),
            ));
        }
        j += 1;
    }
    proof {
        assert(lsv.skip(m as int) =~= Seq::<ResolvedLineV>::empty());
        assert(toc_lines_text(lsv.skip(m as int)) =~= Seq::<char>::empty());
        assert(out@ =~= toc_header(plan.lang@, plan.title@, plan.toc_name@) + toc_lines_text(lsv));
    }
    match &toc.afterword {
        Some(e) => {
            out.append("<p><br/></p>\n<div class=\"h-indent-1em\">\n<p>　<a href=\"p-");
            let t3 = padded_dec_str(e.target, 3);
            out.append(t3.as_str());
            out.append(".xhtml#mokuji-");
            let a4 = padded_dec_str(e.anchor, 4);
            out.append(a4.as_str());
            out.append("\" class=\"mokuji-");
            out.append(a4.as_str());
            out.append("\">");
            out.append(e.title.as_str());
            out.append("</a></p>\n</div>\n");
        },
        None => {},
    }
    out.append("</div>\n</div>\n</div>\n</body>\n</html>");
    out
}

} // verus!
