//! Directive lexer: recognises the markup syntax of one line — bracketed
//! `#name,argument#` directives, embedded glyph-substitution markers — and
//! wraps plain text into paragraphs, deciding by the leading character
//! whether the paragraph opens with an ideographic space.

use vstd::prelude::*;
use vstd::string::*;

use crate::text::{
    find_char, find_char_in, find_first, find_last_char, find_last_char_in, find_sub,
    lemma_find_char_characterizes, lemma_find_first_characterizes,
    lemma_find_last_char_characterizes,
};

verus! {

/// Opening punctuation and list markers: a paragraph that begins with one of
/// these is written without the leading ideographic space.
pub open spec fn no_indent_char(c: char) -> bool {
    c == '　' || c == '『' || c == '「' || c == '（' || c == '＜' || c == '〔' || c == '｛'
        || c == '｟' || c == '〈' || c == '《' || c == '【' || c == '〖' || c == '〘' || c == '〚'
        || c == '─'
}

/// Whether the line's first character suppresses the indent.
pub open spec fn no_indent_start(line: Seq<char>) -> bool {
    line.len() > 0 && no_indent_char(line[0])
}

/// A paragraph around `body`, with or without the leading ideographic space.
pub open spec fn paragraph_with(body: Seq<char>, indent: bool) -> Seq<char> {
    if indent {
        "<p>　"@ + body + "</p>\n"@
    } else {
        "<p>"@ + body + "</p>\n"@
    }
}

/// The paragraph written for a plain text line.
pub open spec fn plain_paragraph(line: Seq<char>) -> Seq<char> {
    paragraph_with(line, !no_indent_start(line))
}

/// The empty paragraph written for an explicitly empty line.
pub open spec fn empty_paragraph() -> Seq<char> {
    "<p><br/></p>\n"@
}

/// Test the leading character of a line against the fixed opening set.
pub fn starts_without_indent(line: &str) -> (r: bool)
    ensures
        r == no_indent_start(line@),
{
    if line.unicode_len() == 0 {
        return false;
    }
    let c = line.get_char(0);
    c == '　' || c == '『' || c == '「' || c == '（' || c == '＜' || c == '〔' || c == '｛'
        || c == '｟' || c == '〈' || c == '《' || c == '【' || c == '〖' || c == '〘' || c == '〚'
        || c == '─'
}

/// Wrap a body into a paragraph, the indent decided by `reference`'s first
/// character.
pub fn wrap_paragraph_as(body: &str, reference: &str) -> (r: String)
    ensures
        r@ == paragraph_with(body@, !no_indent_start(reference@)),
{
    let mut out: String;
    if starts_without_indent(reference) {
        out = "<p>".to_owned();
    } else {
        out = "<p>　".to_owned();
    }
    out.append(body);
    out.append("</p>\n");
    out
}

/// Wrap a plain text line into its paragraph.
pub fn wrap_paragraph(line: &str) -> (r: String)
    ensures
        r@ == plain_paragraph(line@),
{
    wrap_paragraph_as(line, line)
}

/// The `(command, argument)` parts of a bracketed directive line: the text
/// between the first and the last `#`, split at its first comma; without a
/// comma the argument is empty. A line without two `#` holds no directive.
pub open spec fn directive_parts(line: Seq<char>) -> Option<(Seq<char>, Seq<char>)> {
    match (find_char(line, '#'), find_last_char(line, '#')) {
        (Some(i), Some(j)) => if i < j {
            let content = line.subrange(i + 1, j);
            match find_char(content, ',') {
                Some(k) => Some((content.take(k), content.skip(k + 1))),
                None => Some((content, Seq::empty())),
            }
        } else {
            None
        },
        _ => None,
    }
}

/// Parse a bracketed directive line into its command and argument.
pub fn parse_directive(line: &str) -> (r: Option<(String, String)>)
    ensures
        match r {
            Some(p) => directive_parts(line@) == Some((p.0@, p.1@)),
            None => directive_parts(line@) is None,
        },
{
    let first = find_char_in(line, '#');
    let last = find_last_char_in(line, '#');
    match (first, last) {
        (Some(i), Some(j)) => {
            if i < j {
                proof {
                    lemma_find_char_characterizes(line@, '#');
                    lemma_find_last_char_characterizes(line@, '#');
                }
                let content = line.substring_char(i + 1, j);
                let ghost cv = line@.subrange(i + 1, j as int);
                proof {
                    assert(content@ =~= cv);
                }
                match find_char_in(content, ',') {
                    Some(k) => {
                        proof {
                            lemma_find_char_characterizes(cv, ',');
                        }
                        let cmd = content.substring_char(0, k);
                        let n = content.unicode_len();
                        let arg = content.substring_char(k + 1, n);
                        proof {
                            assert(cmd@ =~= cv.take(k as int));
                            assert(arg@ =~= cv.skip(k + 1));
                        }
                        Some((cmd.to_owned(), arg.to_owned()))
                    },
                    None => {
                        let empty = String::new();
                        proof {
                            assert(empty@ =~= Seq::<char>::empty());
                        }
                        Some((content.to_owned(), empty))
                    },
                }
            } else {
                None
            }
        },
        _ => None,
    }
}

/// The marker that opens an embedded glyph reference.
pub open spec fn glyph_marker() -> Seq<char> {
    "#gaiji,"@
}

/// The inline image reference written in place of a glyph marker.
pub open spec fn glyph_img_tag(name: Seq<char>) -> Seq<char> {
    "<img class=\"gaiji\" src=\"../image/"@ + name + "\" alt=\"\" />"@
}

/// The glyph file names referenced in `s`, in the order encountered. Each
/// reference runs from a `#gaiji,` marker to the next `#`; a marker without
/// a closing `#` is not a reference.
pub open spec fn glyph_names(s: Seq<char>) -> Seq<Seq<char>>
    decreases s.len(),
    via glyph_names_decreases
{
    match find_first(s, glyph_marker()) {
        None => Seq::empty(),
        Some(i) => {
            let after = s.skip(i + 7);
            match find_char(after, '#') {
                None => Seq::empty(),
                Some(k) => seq![after.take(k)] + glyph_names(after.skip(k + 1)),
            }
        },
    }
}

#[via_fn]
proof fn glyph_names_decreases(s: Seq<char>) {
    lemma_glyph_step_bounds(s);
}

/// Bounds used by the termination and unfolding of the glyph scans.
pub proof fn lemma_glyph_step_bounds(s: Seq<char>)
    ensures
        glyph_marker().len() == 7,
        match find_first(s, glyph_marker()) {
            None => true,
            Some(i) => 0 <= i && i + 7 <= s.len() && (match find_char(s.skip(i + 7), '#') {
                None => true,
                Some(k) => 0 <= k < s.len() - i - 7,
            }),
        },
{
    reveal_strlit("#gaiji,");
    lemma_find_first_characterizes(s, glyph_marker());
    match find_first(s, glyph_marker()) {
        None => {},
        Some(i) => {
            lemma_find_char_characterizes(s.skip(i + 7), '#');
        },
    }
}

/// A line of `n` characters holds at most `n` glyph references.
pub proof fn lemma_glyph_names_count(s: Seq<char>)
    ensures
        glyph_names(s).len() <= s.len(),
    decreases s.len(),
{
    lemma_glyph_step_bounds(s);
    match find_first(s, glyph_marker()) {
        None => {},
        Some(i) => {
            let after = s.skip(i + 7);
            match find_char(after, '#') {
                None => {},
                Some(k) => {
                    lemma_glyph_names_count(after.skip(k + 1));
                    assert((seq![after.take(k)] + glyph_names(after.skip(k + 1))).len() == 1
                        + glyph_names(after.skip(k + 1)).len());
                },
            }
        },
    }
}

/// `s` with each glyph reference rewritten to its inline image tag.
pub open spec fn glyph_rewrite(s: Seq<char>) -> Seq<char>
    decreases s.len(),
    via glyph_rewrite_decreases
{
    match find_first(s, glyph_marker()) {
        None => s,
        Some(i) => {
            let after = s.skip(i + 7);
            match find_char(after, '#') {
                None => s,
                Some(k) => s.take(i) + glyph_img_tag(after.take(k)) + glyph_rewrite(
                    after.skip(k + 1),
                ),
            }
        },
    }
}

#[via_fn]
proof fn glyph_rewrite_decreases(s: Seq<char>) {
    lemma_glyph_step_bounds(s);
}

/// Extract the glyph references of a line: the referenced file names in
/// order, and the line with each reference replaced by its image tag.
pub fn extract_glyphs(line: &str) -> (r: (Vec<String>, String))
    ensures
        r.0.deep_view() == glyph_names(line@),
        r.1@ == glyph_rewrite(line@),
{
    let n = line.unicode_len();
    let mut names: Vec<String> = Vec::new();
    let mut out = String::new();
    let mut p: usize = 0;
    proof {
        assert(line@.skip(0) =~= line@);
        assert(names.deep_view() =~= Seq::<Seq<char>>::empty());
        assert(names.deep_view() + glyph_names(line@) =~= glyph_names(line@));
        assert(out@ + glyph_rewrite(line@) =~= glyph_rewrite(line@));
    }
    loop
        invariant
            n == line@.len(),
            0 <= p <= n,
            glyph_names(line@) == names.deep_view() + glyph_names(line@.skip(p as int)),
            glyph_rewrite(line@) == out@ + glyph_rewrite(line@.skip(p as int)),
        decreases n - p,
    {
        let ghost rest = line@.skip(p as int);
        let suffix = line.substring_char(p, n);
        proof {
            assert(suffix@ =~= rest);
        }
        match find_sub(suffix, "#gaiji,") {
            None => {
                out.append(suffix);
                proof {
                    assert(glyph_names(rest) =~= Seq::<Seq<char>>::empty());
                    assert(names.deep_view() + glyph_names(rest) =~= names.deep_view());
                }
                return (names, out);
            },
            Some(i) => {
                proof {
                    lemma_glyph_step_bounds(rest);
                }
                let after_start = p + i + 7;
                let after = line.substring_char(after_start, n);
                proof {
                    assert(after@ =~= rest.skip(i + 7));
                }
                match find_char_in(after, '#') {
                    None => {
                        out.append(suffix);
                        proof {
                            assert(glyph_names(rest) =~= Seq::<Seq<char>>::empty());
                            assert(names.deep_view() + glyph_names(rest) =~= names.deep_view());
                        }
                        return (names, out);
                    },
                    Some(k) => {
                        let name = line.substring_char(after_start, after_start + k);
                        let prefix = line.substring_char(p, p + i);
                        out.append(prefix);
                        out.append("<img class=\"gaiji\" src=\"../image/");
                        out.append(name);
                        out.append("\" alt=\"\" />");
                        names.push(name.to_owned());
                        proof {
                            let av = rest.skip(i + 7);
                            assert(name@ =~= av.take(k as int));
                            assert(prefix@ =~= rest.take(i as int));
                            assert(av.skip(k + 1) =~= line@.skip(after_start + k + 1));
                            assert(glyph_names(rest) == seq![av.take(k as int)] + glyph_names(
                                av.skip(k + 1),
                            ));
                            assert(names.deep_view() =~= names.deep_view().take(
                                names.deep_view().len() - 1,
                            ).push(name@));
                            assert(names.deep_view() + glyph_names(line@.skip(after_start + k + 1))
                                =~= glyph_names(line@));
                            assert(glyph_rewrite(rest) == rest.take(i as int) + glyph_img_tag(
                                av.take(k as int),
                            ) + glyph_rewrite(av.skip(k + 1)));
                            assert(out@ + glyph_rewrite(line@.skip(after_start + k + 1))
                                =~= glyph_rewrite(line@));
                        }
                        p = after_start + k + 1;
                    },
                }
            },
        }
    }
}

} // verus!
