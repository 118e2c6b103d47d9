//! Action sequencer: consumes the normalized text line by line, keeping a
//! fragment buffer, the ordered chapter-title list, a "preamble flushed"
//! flag and the chapter-anchor counter, and emits the ordered list of typed
//! content actions.

use vstd::prelude::*;
use vstd::string::*;

use crate::Error;
use crate::lex::{
    directive_parts, empty_paragraph, glyph_marker, glyph_names, glyph_rewrite, no_indent_start,
    paragraph_with, plain_paragraph, extract_glyphs, parse_directive, wrap_paragraph,
    wrap_paragraph_as,
};
use crate::text::{contains_seq, contains_sub, str_eq, zero_padded, padded_dec_str};

verus! {

/// One typed content action, produced in source order and never reordered.
pub enum Action {
    TableOfContents,
    PrefaceImage(String),
    TitlePage(String),
    Body(String),
    BodyWithChapterTitle(String),
    Image(String),
    Afterword(String),
    ColophonImage(String),
    ColophonText(String),
    Copyright(String),
    Bibliography(String),
    GlyphImage(String),
}

/// The mathematical value of an action: the same variants over `Seq<char>`.
pub enum ActionV {
    TableOfContents,
    PrefaceImage(Seq<char>),
    TitlePage(Seq<char>),
    Body(Seq<char>),
    BodyWithChapterTitle(Seq<char>),
    Image(Seq<char>),
    Afterword(Seq<char>),
    ColophonImage(Seq<char>),
    ColophonText(Seq<char>),
    Copyright(Seq<char>),
    Bibliography(Seq<char>),
    GlyphImage(Seq<char>),
}

impl View for Action {
    type V = ActionV;

    open spec fn view(&self) -> ActionV {
        match self {
            Action::TableOfContents => ActionV::TableOfContents,
            Action::PrefaceImage(s) => ActionV::PrefaceImage(s@),
            Action::TitlePage(s) => ActionV::TitlePage(s@),
            Action::Body(s) => ActionV::Body(s@),
            Action::BodyWithChapterTitle(s) => ActionV::BodyWithChapterTitle(s@),
            Action::Image(s) => ActionV::Image(s@),
            Action::Afterword(s) => ActionV::Afterword(s@),
            Action::ColophonImage(s) => ActionV::ColophonImage(s@),
            Action::ColophonText(s) => ActionV::ColophonText(s@),
            Action::Copyright(s) => ActionV::Copyright(s@),
            Action::Bibliography(s) => ActionV::Bibliography(s@),
            Action::GlyphImage(s) => ActionV::GlyphImage(s@),
        }
    }
}

impl DeepView for Action {
    type V = ActionV;

    open spec fn deep_view(&self) -> ActionV {
        self.view()
    }
}

/// The glyph-image actions recorded for the references of one line.
pub open spec fn glyph_actions(names: Seq<Seq<char>>) -> Seq<ActionV> {
    names.map_values(|nm: Seq<char>| ActionV::GlyphImage(nm))
}

/// The chapter heading paragraph seeded at the head of a chapter buffer,
/// anchored by the zero-padded chapter-anchor identifier.
pub open spec fn chapter_heading(mokuji: nat, title: Seq<char>) -> Seq<char> {
    "<p class=\"mfont font-1em30\" id=\"mokuji-"@ + zero_padded(mokuji, 4) + "\">"@ + title
        + "</p>\n<p><br/></p>\n"@
}

/// The afterword heading paragraph: as a chapter heading, but the title is
/// set off by an ideographic space.
pub open spec fn afterword_heading(mokuji: nat, title: Seq<char>) -> Seq<char> {
    "<p class=\"mfont font-1em30\" id=\"mokuji-"@ + zero_padded(mokuji, 4) + "\">　"@ + title
        + "</p>\n<p><br/></p>\n"@
}

/// The right-aligned signature block appended in place by a fill directive.
pub open spec fn fill_block(text: Seq<char>) -> Seq<char> {
    "<p><br/></p>\n<div class=\"align-end\">\n<p>"@ + text + "</p>\n</div>\n"@
}

/// Write the chapter heading paragraph.
pub fn chapter_heading_str(mokuji: usize, title: &str) -> (r: String)
    ensures
        r@ == chapter_heading(mokuji as nat, title@),
{
    let mut out = "<p class=\"mfont font-1em30\" id=\"mokuji-".to_owned();
    let pad = padded_dec_str(mokuji, 4);
    out.append(pad.as_str());
    out.append("\">");
    out.append(title);
    out.append("</p>\n<p><br/></p>\n");
    out
}

/// Write the afterword heading paragraph.
pub fn afterword_heading_str(mokuji: usize, title: &str) -> (r: String)
    ensures
        r@ == afterword_heading(mokuji as nat, title@),
{
    let mut out = "<p class=\"mfont font-1em30\" id=\"mokuji-".to_owned();
    let pad = padded_dec_str(mokuji, 4);
    out.append(pad.as_str());
    out.append("\">　");
    out.append(title);
    out.append("</p>\n<p><br/></p>\n");
    out
}

/// The sequencer's accumulator: emitted actions, recorded chapter titles,
/// the open fragment buffer, whether the preamble was flushed as a plain
/// body that an image may still claim, and the next chapter-anchor number.
pub struct SeqStateV {
    pub actions: Seq<ActionV>,
    pub titles: Seq<Seq<char>>,
    pub buf: Seq<char>,
    pub preamble_open: bool,
    pub mokuji: nat,
}

/// The accumulator at the start of a run.
pub open spec fn initial_state() -> SeqStateV {
    SeqStateV {
        actions: Seq::empty(),
        titles: Seq::empty(),
        buf: Seq::empty(),
        preamble_open: false,
        mokuji: 1,
    }
}

/// One bracketed directive applied to the accumulator; an unknown command
/// name is the fatal condition, reported as the command.
pub open spec fn step_directive(st: SeqStateV, cmd: Seq<char>, arg: Seq<char>) -> Result<
    SeqStateV,
    Seq<char>,
> {
    if cmd == "title-page"@ {
        Ok(SeqStateV { actions: st.actions.push(ActionV::TitlePage(arg)), ..st })
    } else if cmd == "preface-img"@ {
        Ok(SeqStateV { actions: st.actions.push(ActionV::PrefaceImage(arg)), ..st })
    } else if cmd == "gaiji"@ {
        Ok(st)
    } else if cmd == "chapter"@ {
        let flushed = if st.buf.len() > 0 {
            if st.preamble_open || st.titles.len() > 0 {
                SeqStateV {
                    actions: st.actions.push(ActionV::BodyWithChapterTitle(st.buf)),
                    buf: Seq::empty(),
                    ..st
                }
            } else {
                SeqStateV {
                    actions: st.actions.push(ActionV::Body(st.buf)),
                    buf: Seq::empty(),
                    preamble_open: true,
                    ..st
                }
            }
        } else {
            st
        };
        Ok(SeqStateV {
            buf: chapter_heading(flushed.mokuji, arg),
            titles: flushed.titles.push(arg),
            mokuji: flushed.mokuji + 1,
            ..flushed
        })
    } else if cmd == "img"@ {
        let flushed = if st.buf.len() > 0 {
            if st.preamble_open {
                SeqStateV {
                    actions: st.actions.push(ActionV::BodyWithChapterTitle(st.buf)),
                    buf: Seq::empty(),
                    preamble_open: false,
                    ..st
                }
            } else {
                SeqStateV {
                    actions: st.actions.push(ActionV::Body(st.buf)),
                    buf: Seq::empty(),
                    ..st
                }
            }
        } else {
            st
        };
        Ok(SeqStateV { actions: flushed.actions.push(ActionV::Image(arg)), ..flushed })
    } else if cmd == "atogaki"@ {
        Ok(SeqStateV {
            actions: st.actions.push(ActionV::Body(st.buf)),
            buf: afterword_heading(st.mokuji, arg),
            mokuji: st.mokuji + 1,
            ..st
        })
    } else if cmd == "bibliography"@ {
        Ok(SeqStateV {
            actions: st.actions.push(ActionV::BodyWithChapterTitle(st.buf)),
            buf: Seq::empty(),
            ..st
        })
    } else if cmd == "fill"@ {
        Ok(SeqStateV { buf: st.buf + fill_block(arg), ..st })
    } else if cmd == "colophon"@ {
        Ok(SeqStateV { actions: st.actions.push(ActionV::ColophonImage(arg)), ..st })
    } else if cmd == "toc-chapter"@ {
        Ok(st)
    } else if cmd == "no-indent"@ {
        Ok(SeqStateV { buf: st.buf + paragraph_with(arg, false), ..st })
    } else {
        Err(cmd)
    }
}

/// One line of the normalized text applied to the accumulator, in the
/// lexer's priority order.
pub open spec fn step_line(st: SeqStateV, line: Seq<char>) -> Result<SeqStateV, Seq<char>> {
    if contains_seq(line, "#toc#"@) {
        Ok(SeqStateV { actions: st.actions.push(ActionV::TableOfContents), ..st })
    } else if contains_seq(line, glyph_marker()) {
        Ok(SeqStateV {
            actions: st.actions + glyph_actions(glyph_names(line)),
            buf: st.buf + paragraph_with(glyph_rewrite(line), !no_indent_start(line)),
            ..st
        })
    } else if contains_seq(line, "#end-bibliography#"@) {
        Ok(SeqStateV {
            actions: st.actions.push(ActionV::Bibliography(st.buf)),
            buf: Seq::empty(),
            ..st
        })
    } else if contains_seq(line, "#end-copyright#"@) {
        Ok(SeqStateV {
            actions: st.actions.push(ActionV::Copyright(st.buf)),
            buf: Seq::empty(),
            ..st
        })
    } else if contains_seq(line, "#end-colophon-text#"@) {
        Ok(SeqStateV {
            actions: st.actions.push(ActionV::ColophonText(st.buf)),
            buf: Seq::empty(),
            ..st
        })
    } else if contains_seq(line, "#end-atogaki#"@) {
        Ok(SeqStateV {
            actions: st.actions.push(ActionV::Afterword(st.buf)),
            buf: Seq::empty(),
            ..st
        })
    } else {
        match directive_parts(line) {
            Some(parts) => step_directive(st, parts.0, parts.1),
            None => {
                if contains_seq(line, "----------"@) {
                    Ok(st)
                } else if line.len() == 0 {
                    Ok(SeqStateV { buf: st.buf + empty_paragraph(), ..st })
                } else {
                    Ok(SeqStateV { buf: st.buf + plain_paragraph(line), ..st })
                }
            },
        }
    }
}

/// The accumulator after consuming `lines`, starting from `st`.
pub open spec fn run_from(lines: Seq<Seq<char>>, st: SeqStateV) -> Result<SeqStateV, Seq<char>>
    decreases lines.len(),
{
    if lines.len() == 0 {
        Ok(st)
    } else {
        match step_line(st, lines[0]) {
            Ok(st2) => run_from(lines.skip(1), st2),
            Err(c) => Err(c),
        }
    }
}

/// The accumulator after a whole run over `lines`.
pub open spec fn run_lines(lines: Seq<Seq<char>>) -> Result<SeqStateV, Seq<char>> {
    run_from(lines, initial_state())
}

/// What a run hands on: the ordered action list and the chapter titles.
pub struct Sequenced {
    pub actions: Vec<Action>,
    pub titles: Vec<String>,
}

/// Consume the normalized lines and emit the ordered action list and the
/// ordered chapter-title list; an unknown directive command is fatal.
pub fn sequence_lines(lines: &Vec<String>) -> (r: Result<Sequenced, Error>)
    requires
        lines@.len() + 1 < usize::MAX,
    ensures
        match r {
            Ok(sq) => run_lines(lines.deep_view()) matches Ok(st) && sq.actions.deep_view()
                == st.actions && sq.titles.deep_view() == st.titles,
            Err(e) => run_lines(lines.deep_view()) matches Err(c) && e matches
                Error::UnknownDirective(u) && u@ == c,
        },
{
    let ghost all = lines.deep_view();
    let mut actions: Vec<Action> = Vec::new();
    let mut titles: Vec<String> = Vec::new();
    let mut buf = String::new();
    let mut preamble_open = false;
    let mut mokuji: usize = 1;
    let ghost mut st = initial_state();
    proof {
        assert(all.skip(0) =~= all);
        assert(actions.deep_view() =~= st.actions);
        assert(titles.deep_view() =~= st.titles);
    }
    let n = lines.len();
    let mut i: usize = 0;
    while i < n
        invariant
            all == lines.deep_view(),
            n == lines@.len(),
            all.len() == n,
            n + 1 < usize::MAX,
            0 <= i <= n,
            run_lines(all) == run_from(all.skip(i as int), st),
            actions.deep_view() == st.actions,
            titles.deep_view() == st.titles,
            buf@ == st.buf,
            preamble_open == st.preamble_open,
            mokuji as nat == st.mokuji,
            st.mokuji <= 1 + i,
        decreases n - i,
    {
        let ghost st0 = st;
        let line: &String = &lines[i];
        let ghost lv = all[i as int];
        proof {
            assert(lv == lines@[i as int]@);
        }
        if contains_sub(line.as_str(), "#toc#") {
            actions.push(Action::TableOfContents);
            proof {
                st = SeqStateV { actions: st0.actions.push(ActionV::TableOfContents), ..st0 };
                assert(actions.deep_view() =~= st.actions);
            }
        } else if contains_sub(line.as_str(), "#gaiji,") {
            proof {
                reveal_strlit("#gaiji,");
            }
            let (names, rewritten) = extract_glyphs(line.as_str());
            let ghost nv = names.deep_view();
            let m = names.len();
            let mut j: usize = 0;
            proof {
                assert(actions.deep_view() + glyph_actions(nv.take(0)) =~= st0.actions);
            }
            while j < m
                invariant
                    m == names@.len(),
                    nv == names.deep_view(),
                    nv.len() == m,
                    0 <= j <= m,
                    actions.deep_view() == st0.actions + glyph_actions(nv.take(j as int)),
                decreases m - j,
            {
                let name = names[j].clone();
                let ghost prev = actions.deep_view();
                actions.push(Action::GlyphImage(name));
                proof {
                    assert(name@ == nv[j as int]);
                    assert(actions.deep_view() =~= prev.push(ActionV::GlyphImage(nv[j as int])));
                    assert(glyph_actions(nv.take(j + 1)) =~= glyph_actions(nv.take(j as int)).push(
                        ActionV::GlyphImage(nv[j as int]),
                    ));
                    assert((st0.actions + glyph_actions(nv.take(j as int))).push(
                        ActionV::GlyphImage(nv[j as int]),
                    ) =~= st0.actions + glyph_actions(nv.take(j + 1)));
                }
                j += 1;
            }
            let par = wrap_paragraph_as(rewritten.as_str(), line.as_str());
            buf.append(par.as_str());
            proof {
                st = SeqStateV {
                    actions: st0.actions + glyph_actions(glyph_names(lv)),
                    buf: st0.buf + paragraph_with(glyph_rewrite(lv), !no_indent_start(lv)),
                    ..st0
                };
                assert(nv.take(m as int) =~= nv);
                assert(actions.deep_view() =~= st.actions);
            }
        } else if contains_sub(line.as_str(), "#end-bibliography#") {
            actions.push(Action::Bibliography(buf.clone()));
            buf = String::new();
            proof {
                st = SeqStateV {
                    actions: st0.actions.push(ActionV::Bibliography(st0.buf)),
                    buf: Seq::empty(),
                    ..st0
                };
                assert(actions.deep_view() =~= st.actions);
                assert(buf@ =~= st.buf);
            }
        } else if contains_sub(line.as_str(), "#end-copyright#") {
            actions.push(Action::Copyright(buf.clone()));
            buf = String::new();
            proof {
                st = SeqStateV {
                    actions: st0.actions.push(ActionV::Copyright(st0.buf)),
                    buf: Seq::empty(),
                    ..st0
                };
                assert(actions.deep_view() =~= st.actions);
                assert(buf@ =~= st.buf);
            }
        } else if contains_sub(line.as_str(), "#end-colophon-text#") {
            actions.push(Action::ColophonText(buf.clone()));
            buf = String::new();
            proof {
                st = SeqStateV {
                    actions: st0.actions.push(ActionV::ColophonText(st0.buf)),
                    buf: Seq::empty(),
                    ..st0
                };
                assert(actions.deep_view() =~= st.actions);
                assert(buf@ =~= st.buf);
            }
        } else if contains_sub(line.as_str(), "#end-atogaki#") {
            actions.push(Action::Afterword(buf.clone()));
            buf = String::new();
            proof {
                st = SeqStateV {
                    actions: st0.actions.push(ActionV::Afterword(st0.buf)),
                    buf: Seq::empty(),
                    ..st0
                };
                assert(actions.deep_view() =~= st.actions);
                assert(buf@ =~= st.buf);
            }
        } else {
            match parse_directive(line.as_str()) {
                Some((cmd, arg)) => {
                    if str_eq(cmd.as_str(), "title-page") {
                        actions.push(Action::TitlePage(arg));
                        proof {
                            st = SeqStateV {
                                actions: st0.actions.push(ActionV::TitlePage(lv_arg(lv))),
                                ..st0
                            };
                            assert(actions.deep_view() =~= st.actions);
                        }
                    } else if str_eq(cmd.as_str(), "preface-img") {
                        actions.push(Action::PrefaceImage(arg));
                        proof {
                            st = SeqStateV {
                                actions: st0.actions.push(ActionV::PrefaceImage(lv_arg(lv))),
                                ..st0
                            };
                            assert(actions.deep_view() =~= st.actions);
                        }
                    } else if str_eq(cmd.as_str(), "gaiji") {
                    } else if str_eq(cmd.as_str(), "chapter") {
                        if !buf.as_str().is_empty() {
                            if preamble_open || titles.len() > 0 {
                                actions.push(Action::BodyWithChapterTitle(buf.clone()));
                            } else {
                                actions.push(Action::Body(buf.clone()));
                                preamble_open = true;
                            }
                            buf = String::new();
                        }
                        let heading = chapter_heading_str(mokuji, arg.as_str());
                        buf = heading;
                        titles.push(arg);
                        mokuji += 1;
                        proof {
                            let flushed = if st0.buf.len() > 0 {
                                if st0.preamble_open || st0.titles.len() > 0 {
                                    SeqStateV {
                                        actions: st0.actions.push(
                                            ActionV::BodyWithChapterTitle(st0.buf),
                                        ),
                                        buf: Seq::empty(),
                                        ..st0
                                    }
                                } else {
                                    SeqStateV {
                                        actions: st0.actions.push(ActionV::Body(st0.buf)),
                                        buf: Seq::empty(),
                                        preamble_open: true,
                                        ..st0
                                    }
                                }
                            } else {
                                st0
                            };
                            st = SeqStateV {
                                buf: chapter_heading(flushed.mokuji, lv_arg(lv)),
                                titles: flushed.titles.push(lv_arg(lv)),
                                mokuji: flushed.mokuji + 1,
                                ..flushed
                            };
                            assert(actions.deep_view() =~= st.actions);
                            assert(titles.deep_view() =~= st.titles);
                        }
                    } else if str_eq(cmd.as_str(), "img") {
                        if !buf.as_str().is_empty() {
                            if preamble_open {
                                actions.push(Action::BodyWithChapterTitle(buf.clone()));
                                preamble_open = false;
                            } else {
                                actions.push(Action::Body(buf.clone()));
                            }
                            buf = String::new();
                        }
                        actions.push(Action::Image(arg));
                        proof {
                            let flushed = if st0.buf.len() > 0 {
                                if st0.preamble_open {
                                    SeqStateV {
                                        actions: st0.actions.push(
                                            ActionV::BodyWithChapterTitle(st0.buf),
                                        ),
                                        buf: Seq::empty(),
                                        preamble_open: false,
                                        ..st0
                                    }
                                } else {
                                    SeqStateV {
                                        actions: st0.actions.push(ActionV::Body(st0.buf)),
                                        buf: Seq::empty(),
                                        ..st0
                                    }
                                }
                            } else {
                                st0
                            };
                            st = SeqStateV {
                                actions: flushed.actions.push(ActionV::Image(lv_arg(lv))),
                                ..flushed
                            };
                            assert(actions.deep_view() =~= st.actions);
                        }
                    } else if str_eq(cmd.as_str(), "atogaki") {
                        actions.push(Action::Body(buf.clone()));
                        let heading = afterword_heading_str(mokuji, arg.as_str());
                        buf = heading;
                        mokuji += 1;
                        proof {
                            st = SeqStateV {
                                actions: st0.actions.push(ActionV::Body(st0.buf)),
                                buf: afterword_heading(st0.mokuji, lv_arg(lv)),
                                mokuji: st0.mokuji + 1,
                                ..st0
                            };
                            assert(actions.deep_view() =~= st.actions);
                        }
                    } else if str_eq(cmd.as_str(), "bibliography") {
                        actions.push(Action::BodyWithChapterTitle(buf.clone()));
                        buf = String::new();
                        proof {
                            st = SeqStateV {
                                actions: st0.actions.push(ActionV::BodyWithChapterTitle(st0.buf)),
                                buf: Seq::empty(),
                                ..st0
                            };
                            assert(actions.deep_view() =~= st.actions);
                            assert(buf@ =~= st.buf);
                        }
                    } else if str_eq(cmd.as_str(), "fill") {
                        let mut block = "<p><br/></p>\n<div class=\"align-end\">\n<p>".to_owned();
                        block.append(arg.as_str());
                        block.append("</p>\n</div>\n");
                        buf.append(block.as_str());
                        proof {
                            st = SeqStateV { buf: st0.buf + fill_block(lv_arg(lv)), ..st0 };
                        }
                    } else if str_eq(cmd.as_str(), "colophon") {
                        actions.push(Action::ColophonImage(arg));
                        proof {
                            st = SeqStateV {
                                actions: st0.actions.push(ActionV::ColophonImage(lv_arg(lv))),
                                ..st0
                            };
                            assert(actions.deep_view() =~= st.actions);
                        }
                    } else if str_eq(cmd.as_str(), "toc-chapter") {
                    } else if str_eq(cmd.as_str(), "no-indent") {
                        let mut par = "<p>".to_owned();
                        par.append(arg.as_str());
                        par.append("</p>\n");
                        buf.append(par.as_str());
                        proof {
                            st = SeqStateV {
                                buf: st0.buf + paragraph_with(lv_arg(lv), false),
                                ..st0
                            };
                        }
                    } else {
                        proof {
                            assert(step_line(st0, lv) == Err::<SeqStateV, Seq<char>>(cmd@));
                            assert(all.skip(i as int)[0] == lv);
                            assert(run_from(all.skip(i as int), st0) == Err::<SeqStateV, Seq<char>>(
                                cmd@,
                            ));
                        }
                        return Err(Error::UnknownDirective(cmd));
                    }
                },
                None => {
                    if contains_sub(line.as_str(), "----------") {
                    } else if line.as_str().is_empty() {
                        buf.append("<p><br/></p>\n");
                        proof {
                            st = SeqStateV { buf: st0.buf + empty_paragraph(), ..st0 };
                        }
                    } else {
                        let par = wrap_paragraph(line.as_str());
                        buf.append(par.as_str());
                        proof {
                            st = SeqStateV { buf: st0.buf + plain_paragraph(lv), ..st0 };
                        }
                    }
                },
            }
        }
        proof {
            assert(step_line(st0, lv) == Ok::<SeqStateV, Seq<char>>(st));
            assert(all.skip(i as int)[0] == lv);
            assert(all.skip(i as int).skip(1) =~= all.skip(i + 1));
            assert(run_from(all.skip(i as int), st0) == run_from(all.skip(i + 1), st));
        }
        i += 1;
    }
    proof {
        assert(all.skip(n as int) =~= Seq::<Seq<char>>::empty());
    }
    Ok(Sequenced { actions, titles })
}

/// The argument part of the directive on `line`, empty when there is none.
pub open spec fn lv_arg(line: Seq<char>) -> Seq<char> {
    match directive_parts(line) {
        Some(parts) => parts.1,
        None => Seq::empty(),
    }
}

/// One line grows the action list by at most its length plus one.
proof fn lemma_step_actions_bound(st: SeqStateV, line: Seq<char>)
    ensures
        step_line(st, line) matches Ok(st2) ==> st2.actions.len() <= st.actions.len() + line.len()
            + 1,
{
    if contains_seq(line, "#toc#"@) {
    } else if contains_seq(line, crate::lex::glyph_marker()) {
        crate::lex::lemma_glyph_names_count(line);
    } else {
        match directive_parts(line) {
            Some(parts) => {
                crate::text::lemma_find_char_characterizes(line, '#');
                assert(line.len() >= 1);
            },
            None => {},
        }
    }
}

/// A whole run grows the action list by at most the weight of its lines.
pub proof fn lemma_run_actions_bound(lines: Seq<Seq<char>>, st: SeqStateV)
    ensures
        run_from(lines, st) matches Ok(st2) ==> st2.actions.len() <= st.actions.len()
            + crate::text::lines_measure(lines),
    decreases lines.len(),
{
    if lines.len() == 0 {
    } else {
        match step_line(st, lines[0]) {
            Ok(st2) => {
                lemma_step_actions_bound(st, lines[0]);
                lemma_run_actions_bound(lines.skip(1), st2);
            },
            Err(_) => {},
        }
    }
}

} // verus!
