use vstd::prelude::*;

pub mod assemble;
pub mod epub;
pub mod lex;
pub mod normalize;
pub mod ocr;
pub mod render;
pub mod sequence;
pub mod toc;
pub mod text;

use crate::assemble::{assemble, assemble_spec, AsmErrV, PackagePlan, PackagePlanV};
use crate::normalize::{norm, normalize_text, lemma_norm_len};
use crate::render::{get_image_mime_type, mime_of, render_toc_xhtml, toc_xhtml};
use crate::sequence::{initial_state, run_lines, sequence_lines, lemma_run_actions_bound};
use crate::toc::{build_skeleton, build_skeleton_spec, resolve_spec, resolve_toc,
    lemma_skeleton_count};
use crate::text::{spec_lines, split_lines, lemma_spec_lines_count, lemma_spec_lines_measure,
    lines_measure};

verus! {

/// The immutable configuration of one book: bibliographic metadata, the
/// label used for the table-of-contents section, the cover image file name,
/// and the path of the raw markup text.
pub struct BookPlan {
    pub title: String,
    pub author: String,
    pub lang: String,
    pub generator: String,
    pub toc_name: String,
    pub cover_image: String,
    pub raw: String,
}

/// A fatal condition of one compiler run. The run either produces one
/// complete, internally consistent package or reports the first of these.
#[derive(Debug)]
pub enum Error {
    /// A bracketed directive whose command name is outside the closed set.
    UnknownDirective(String),
    /// An image file name whose extension names no supported image type.
    UnsupportedImageType(String),
    /// The table-of-contents skeleton and the action list disagree: the
    /// number of placeholders differs from the number of qualifying actions.
    TocActionMismatch { placeholders: usize, qualifying: usize },
    /// More chapter-titled units than recorded chapter titles.
    MissingChapterTitle { titled: usize, titles: usize },
    /// A unit names an image file that was not supplied.
    MissingImage(String),
    /// The package container refused an entry.
    Package(String),
}

/// The mathematical value of a compiler fault.
pub enum CompileErrV {
    UnknownDirective(Seq<char>),
    TocMismatch(nat, nat),
    UnsupportedImage(Seq<char>),
    MissingTitle(nat, nat),
}

/// The whole compile of one book: the raw text is normalized and split
/// into lines, the table-of-contents skeleton is built, the sequencer
/// emits the action list, the skeleton is resolved against it, and the
/// assembler lays the rendered units out as the package plan.
pub open spec fn compile_spec(
    lang: Seq<char>,
    title: Seq<char>,
    toc_name: Seq<char>,
    cover_image: Seq<char>,
    raw: Seq<char>,
) -> Result<PackagePlanV, CompileErrV> {
    match mime_of(cover_image) {
        None => Err(CompileErrV::UnsupportedImage(cover_image)),
        Some(_) => {
            let lines = spec_lines(norm(raw));
            match run_lines(lines) {
                Err(c) => Err(CompileErrV::UnknownDirective(c)),
                Ok(st) => match resolve_spec(build_skeleton_spec(lines), st.actions) {
                    Err(counts) => Err(CompileErrV::TocMismatch(counts.0, counts.1)),
                    Ok(rt) => match assemble_spec(
                        lang,
                        title,
                        cover_image,
                        toc_xhtml(lang, title, toc_name, rt),
                        st.titles,
                        st.actions,
                    ) {
                        Ok(p) => Ok(p),
                        Err(AsmErrV::UnsupportedImage(s)) => Err(
                            CompileErrV::UnsupportedImage(s),
                        ),
                        Err(AsmErrV::MissingTitle { titled, titles }) => Err(
                            CompileErrV::MissingTitle(titled, titles),
                        ),
                    },
                },
            }
        },
    }
}

/// Whether an execution error reports the given compiler fault.
pub open spec fn compile_err_matches(e: Error, c: CompileErrV) -> bool {
    match c {
        CompileErrV::UnknownDirective(s) => e matches Error::UnknownDirective(u) && u@ == s,
        CompileErrV::TocMismatch(ph, q) => e matches Error::TocActionMismatch {
            placeholders,
            qualifying,
        } && placeholders as nat == ph && qualifying as nat == q,
        CompileErrV::UnsupportedImage(s) => e matches Error::UnsupportedImageType(p) && p@ == s,
        CompileErrV::MissingTitle(a, b) => e matches Error::MissingChapterTitle {
            titled,
            titles,
        } && titled as nat == a && titles as nat == b,
    }
}

/// Compile one book: from the configuration and the raw markup text to the
/// package plan, or the first fatal condition encountered.
pub fn compile(plan: &BookPlan, raw: &str) -> (r: Result<PackagePlan, Error>)
    requires
        2 * raw@.len() + 4 < usize::MAX,
    ensures
        match r {
            Ok(p) => compile_spec(
                plan.lang@,
                plan.title@,
                plan.toc_name@,
                plan.cover_image@,
                raw@,
            ) == Ok::<PackagePlanV, CompileErrV>(p@),
            Err(e) => compile_spec(
                plan.lang@,
                plan.title@,
                plan.toc_name@,
                plan.cover_image@,
                raw@,
            ) matches Err(c) && compile_err_matches(e, c),
        },
{
    if let Err(e) = get_image_mime_type(plan.cover_image.as_str()) {
        return Err(e);
    }
    let normalized = normalize_text(raw);
    let lines = split_lines(normalized.as_str());
    proof {
        lemma_norm_len(raw@);
        lemma_spec_lines_count(norm(raw@));
        lemma_spec_lines_measure(norm(raw@));
        assert(lines@.len() == lines.deep_view().len());
        assert(lines@.len() <= raw@.len() + 1);
    }
    let sk = build_skeleton(&lines);
    let sq = match sequence_lines(&lines) {
        Ok(s) => s,
        Err(e) => {
            return Err(e);
        },
    };
    proof {
        lemma_run_actions_bound(lines.deep_view(), initial_state());
        assert(sq.actions@.len() == sq.actions.deep_view().len());
        assert(sq.actions@.len() <= lines_measure(lines.deep_view()));
        lemma_skeleton_count(lines.deep_view(), 1);
        assert(sk.lines@.len() == sk@.lines.len());
    }
    let resolved = match resolve_toc(&sk, &sq.actions) {
        Ok(t) => t,
        Err(e) => {
            return Err(e);
        },
    };
    let toc_doc = render_toc_xhtml(plan, &resolved);
    match assemble(plan, &sq.actions, &sq.titles, &toc_doc) {
        Ok(p) => Ok(p),
        Err(e) => Err(e),
    }
}

} // verus!
