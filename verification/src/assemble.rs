//! Package assembler: turns the action list into the ordered package plan —
//! the cover unit first, then one unit per action under its deterministic
//! name, with image resources collected along the way. Body units and
//! images share one paragraph-number sequence; preface images have their
//! own; the first unit of the main-text family carries its role tag once.

use vstd::prelude::*;
use vstd::string::*;

use crate::BookPlan;
use crate::Error;
use crate::render::{
    content_xhtml, cover_xhtml, image_xhtml, mime_of, preface_image_xhtml, generate_content_xhtml,
    generate_cover_image_xhtml, generate_image_xhtml, generate_preface_image_xhtml,
    get_image_mime_type,
};
use crate::sequence::{Action, ActionV};
use crate::text::{zero_padded, padded_dec_str};
use crate::toc::{
    is_qualifying, qualifying_numbers, lemma_qualifying_numbers_increasing, lemma_resolved_targets,
    placeholder_count, resolve_spec, targets_of, TocSkeletonV,
};

verus! {

/// The semantic role a unit can carry in the container.
#[derive(Clone, Copy, PartialEq, Eq, Structural, Debug)]
pub enum RefRole {
    Cover,
    Toc,
    Preface,
    TitlePage,
    Text,
    Afterword,
    Copyright,
    Bibliography,
    Colophon,
}

/// One document of the container: its name, its rendered text, an optional
/// display title, and an optional role tag.
pub struct PackageUnit {
    pub name: String,
    pub content: String,
    pub title: Option<String>,
    pub role: Option<RefRole>,
}

/// The mathematical value of a unit.
pub struct PackageUnitV {
    pub name: Seq<char>,
    pub content: Seq<char>,
    pub title: Option<Seq<char>>,
    pub role: Option<RefRole>,
}

impl View for PackageUnit {
    type V = PackageUnitV;

    open spec fn view(&self) -> PackageUnitV {
        PackageUnitV {
            name: self.name@,
            content: self.content@,
            title: match self.title {
                Some(ref t) => Some(t@),
                None => None,
            },
            role: self.role,
        }
    }
}

/// One image carried into the container: the name it is stored under, the
/// source file it is read from, and its MIME type.
pub struct ImageResource {
    pub path: String,
    pub file: String,
    pub mime: String,
}

/// The mathematical value of an image resource.
pub struct ImageResourceV {
    pub path: Seq<char>,
    pub file: Seq<char>,
    pub mime: Seq<char>,
}

impl View for ImageResource {
    type V = ImageResourceV;

    open spec fn view(&self) -> ImageResourceV {
        ImageResourceV { path: self.path@, file: self.file@, mime: self.mime@ }
    }
}

/// The full package plan: the cover image, the image resources in the order
/// encountered, and the documents in their final order.
pub struct PackagePlan {
    pub cover: ImageResource,
    pub resources: Vec<ImageResource>,
    pub units: Vec<PackageUnit>,
}

/// The mathematical value of the package plan.
pub struct PackagePlanV {
    pub cover: ImageResourceV,
    pub resources: Seq<ImageResourceV>,
    pub units: Seq<PackageUnitV>,
}

impl View for PackagePlan {
    type V = PackagePlanV;

    open spec fn view(&self) -> PackagePlanV {
        PackagePlanV {
            cover: self.cover@,
            resources: Seq::new(self.resources@.len(), |i: int| self.resources@[i]@),
            units: Seq::new(self.units@.len(), |i: int| self.units@[i]@),
        }
    }
}

/// The name of a body-numbered document.
pub open spec fn para_name(p: nat) -> Seq<char> {
    "xhtml/p-"@ + zero_padded(p, 3) + ".xhtml"@
}

/// The name of a preface document.
pub open spec fn fmatter_name(f: nat) -> Seq<char> {
    "xhtml/p-fmatter-"@ + zero_padded(f, 3) + ".xhtml"@
}

/// The container path of an image file.
pub open spec fn image_path(file: Seq<char>) -> Seq<char> {
    "image/"@ + file
}

/// Whether an action takes a number from the shared paragraph sequence.
pub open spec fn is_body_numbered(a: ActionV) -> bool {
    match a {
        ActionV::Body(_) => true,
        ActionV::BodyWithChapterTitle(_) => true,
        ActionV::Image(_) => true,
        ActionV::Copyright(_) => true,
        ActionV::Bibliography(_) => true,
        ActionV::Afterword(_) => true,
        _ => false,
    }
}

/// The number of units an action list renders: one per action, except
/// that a glyph image contributes a resource only.
pub open spec fn rendered_unit_count(actions: Seq<ActionV>) -> nat
    decreases actions.len(),
{
    if actions.len() == 0 {
        0
    } else {
        (match actions[0] {
            ActionV::GlyphImage(_) => 0nat,
            _ => 1nat,
        }) + rendered_unit_count(actions.skip(1))
    }
}

/// The number of body-numbered actions.
pub open spec fn body_numbered_count(actions: Seq<ActionV>) -> nat
    decreases actions.len(),
{
    if actions.len() == 0 {
        0
    } else {
        (if is_body_numbered(actions[0]) {
            1nat
        } else {
            0nat
        }) + body_numbered_count(actions.skip(1))
    }
}

/// The paragraph numbers taken by the body-numbered actions, in order,
/// counting from `p`.
pub open spec fn assigned_numbers(actions: Seq<ActionV>, p: nat) -> Seq<nat>
    decreases actions.len(),
{
    if actions.len() == 0 {
        Seq::empty()
    } else if is_body_numbered(actions[0]) {
        seq![p] + assigned_numbers(actions.skip(1), p + 1)
    } else {
        assigned_numbers(actions.skip(1), p)
    }
}

/// The paragraph numbers taken by the qualifying actions under the final
/// rendering pass, counting from `p`.
pub open spec fn qualifying_assigned(actions: Seq<ActionV>, p: nat) -> Seq<nat>
    decreases actions.len(),
{
    if actions.len() == 0 {
        Seq::empty()
    } else if is_qualifying(actions[0]) {
        seq![p] + qualifying_assigned(actions.skip(1), p + 1)
    } else if is_body_numbered(actions[0]) {
        qualifying_assigned(actions.skip(1), p + 1)
    } else {
        qualifying_assigned(actions.skip(1), p)
    }
}

/// The assembler's accumulator.
pub struct AsmStateV {
    pub units: Seq<PackageUnitV>,
    pub resources: Seq<ImageResourceV>,
    pub para: nat,
    pub fmatter: nat,
    pub tidx: nat,
    pub text_done: bool,
}

/// The fatal conditions of assembly.
pub enum AsmErrV {
    UnsupportedImage(Seq<char>),
    MissingTitle { titled: nat, titles: nat },
}

/// One action rendered into the accumulator.
pub open spec fn asm_step(
    lang: Seq<char>,
    title: Seq<char>,
    toc_doc: Seq<char>,
    titles: Seq<Seq<char>>,
    st: AsmStateV,
    a: ActionV,
) -> Result<AsmStateV, AsmErrV> {
    match a {
        ActionV::TableOfContents => Ok(
            AsmStateV {
                units: st.units.push(
                    PackageUnitV {
                        name: "xhtml/p-toc.xhtml"@,
                        content: toc_doc,
                        title: Some("目次"@),
                        role: Some(RefRole::Toc),
                    },
                ),
                ..st
            },
        ),
        ActionV::PrefaceImage(img) => match mime_of(img) {
            None => Err(AsmErrV::UnsupportedImage(img)),
            Some(m) => Ok(
                AsmStateV {
                    resources: st.resources.push(
                        ImageResourceV { path: image_path(img), file: img, mime: m },
                    ),
                    units: st.units.push(
                        PackageUnitV {
                            name: fmatter_name(st.fmatter),
                            content: preface_image_xhtml(lang, title, img),
                            title: None,
                            role: Some(RefRole::Preface),
                        },
                    ),
                    fmatter: st.fmatter + 1,
                    ..st
                },
            ),
        },
        ActionV::TitlePage(img) => match mime_of(img) {
            None => Err(AsmErrV::UnsupportedImage(img)),
            Some(m) => Ok(
                AsmStateV {
                    resources: st.resources.push(
                        ImageResourceV { path: image_path(img), file: img, mime: m },
                    ),
                    units: st.units.push(
                        PackageUnitV {
                            name: "xhtml/p-titlepage.xhtml"@,
                            content: preface_image_xhtml(lang, title, img),
                            title: None,
                            role: Some(RefRole::TitlePage),
                        },
                    ),
                    ..st
                },
            ),
        },
        ActionV::Afterword(content) => Ok(
            AsmStateV {
                units: st.units.push(
                    PackageUnitV {
                        name: para_name(st.para),
                        content: content_xhtml(lang, title, content),
                        title: Some("奥付"@),
                        role: Some(RefRole::Afterword),
                    },
                ),
                para: st.para + 1,
                ..st
            },
        ),
        ActionV::BodyWithChapterTitle(content) => if st.tidx >= titles.len() {
            Err(AsmErrV::MissingTitle { titled: st.tidx + 1, titles: titles.len() })
        } else {
            Ok(
                AsmStateV {
                    units: st.units.push(
                        PackageUnitV {
                            name: para_name(st.para),
                            content: content_xhtml(lang, title, content),
                            title: Some(titles[st.tidx as int]),
                            role: if st.text_done {
                                None
                            } else {
                                Some(RefRole::Text)
                            },
                        },
                    ),
                    para: st.para + 1,
                    tidx: st.tidx + 1,
                    text_done: true,
                    ..st
                },
            )
        },
        ActionV::Body(content) => Ok(
            AsmStateV {
                units: st.units.push(
                    PackageUnitV {
                        name: para_name(st.para),
                        content: content_xhtml(lang, title, content),
                        title: None,
                        role: if st.text_done {
                            None
                        } else {
                            Some(RefRole::Text)
                        },
                    },
                ),
                para: st.para + 1,
                text_done: true,
                ..st
            },
        ),
        ActionV::Image(img) => match mime_of(img) {
            None => Err(AsmErrV::UnsupportedImage(img)),
            Some(m) => Ok(
                AsmStateV {
                    resources: st.resources.push(
                        ImageResourceV { path: image_path(img), file: img, mime: m },
                    ),
                    units: st.units.push(
                        PackageUnitV {
                            name: para_name(st.para),
                            content: image_xhtml(lang, title, img),
                            title: None,
                            role: if st.text_done {
                                None
                            } else {
                                Some(RefRole::Text)
                            },
                        },
                    ),
                    para: st.para + 1,
                    text_done: true,
                    ..st
                },
            ),
        },
        ActionV::ColophonImage(img) => match mime_of(img) {
            None => Err(AsmErrV::UnsupportedImage(img)),
            Some(m) => Ok(
                AsmStateV {
                    resources: st.resources.push(
                        ImageResourceV { path: image_path(img), file: img, mime: m },
                    ),
                    units: st.units.push(
                        PackageUnitV {
                            name: "xhtml/p-colophon.xhtml"@,
                            content: image_xhtml(lang, title, img),
                            title: None,
                            role: Some(RefRole::Colophon),
                        },
                    ),
                    ..st
                },
            ),
        },
        ActionV::ColophonText(content) => Ok(
            AsmStateV {
                units: st.units.push(
                    PackageUnitV {
                        name: para_name(st.para),
                        content: content_xhtml(lang, title, content),
                        title: None,
                        role: if st.text_done {
                            None
                        } else {
                            Some(RefRole::Colophon)
                        },
                    },
                ),
                text_done: true,
                ..st
            },
        ),
        ActionV::Copyright(content) => Ok(
            AsmStateV {
                units: st.units.push(
                    PackageUnitV {
                        name: para_name(st.para),
                        content: content_xhtml(lang, title, content),
                        title: None,
                        role: if st.text_done {
                            None
                        } else {
                            Some(RefRole::Copyright)
                        },
                    },
                ),
                para: st.para + 1,
                text_done: true,
                ..st
            },
        ),
        ActionV::Bibliography(content) => Ok(
            AsmStateV {
                units: st.units.push(
                    PackageUnitV {
                        name: para_name(st.para),
                        content: content_xhtml(lang, title, content),
                        title: None,
                        role: if st.text_done {
                            None
                        } else {
                            Some(RefRole::Bibliography)
                        },
                    },
                ),
                para: st.para + 1,
                text_done: true,
                ..st
            },
        ),
        ActionV::GlyphImage(img) => match mime_of(img) {
            None => Err(AsmErrV::UnsupportedImage(img)),
            Some(m) => Ok(
                AsmStateV {
                    resources: st.resources.push(
                        ImageResourceV { path: image_path(img), file: img, mime: m },
                    ),
                    ..st
                },
            ),
        },
    }
}

/// The accumulator after rendering `actions`, starting from `st`.
pub open spec fn asm_run(
    lang: Seq<char>,
    title: Seq<char>,
    toc_doc: Seq<char>,
    titles: Seq<Seq<char>>,
    st: AsmStateV,
    actions: Seq<ActionV>,
) -> Result<AsmStateV, AsmErrV>
    decreases actions.len(),
{
    if actions.len() == 0 {
        Ok(st)
    } else {
        match asm_step(lang, title, toc_doc, titles, st, actions[0]) {
            Ok(st2) => asm_run(lang, title, toc_doc, titles, st2, actions.skip(1)),
            Err(e) => Err(e),
        }
    }
}

/// The cover document that opens every container.
pub open spec fn cover_unit(lang: Seq<char>, title: Seq<char>) -> PackageUnitV {
    PackageUnitV {
        name: "xhtml/p-cover.xhtml"@,
        content: cover_xhtml(lang, title),
        title: Some("表紙"@),
        role: Some(RefRole::Cover),
    }
}

/// The accumulator every run starts from: the cover unit alone, both
/// counters at one, no title consumed, the one-shot tag unspent.
pub open spec fn initial_asm_state(lang: Seq<char>, title: Seq<char>) -> AsmStateV {
    AsmStateV {
        units: seq![cover_unit(lang, title)],
        resources: Seq::empty(),
        para: 1,
        fmatter: 1,
        tidx: 0,
        text_done: false,
    }
}

/// The package plan of a whole run.
pub open spec fn assemble_spec(
    lang: Seq<char>,
    title: Seq<char>,
    cover_image: Seq<char>,
    toc_doc: Seq<char>,
    titles: Seq<Seq<char>>,
    actions: Seq<ActionV>,
) -> Result<PackagePlanV, AsmErrV> {
    match mime_of(cover_image) {
        None => Err(AsmErrV::UnsupportedImage(cover_image)),
        Some(m) => match asm_run(
            lang,
            title,
            toc_doc,
            titles,
            initial_asm_state(lang, title),
            actions,
        ) {
            Ok(st) => Ok(
                PackagePlanV {
                    cover: ImageResourceV {
                        path: "image/cover-image.jpg"@,
                        file: cover_image,
                        mime: m,
                    },
                    resources: st.resources,
                    units: st.units,
                },
            ),
            Err(e) => Err(e),
        },
    }
}

/// Collect the ordered documents and resources of the package: the cover
/// first, then one document per action under its deterministic name.
pub fn assemble(
    plan: &BookPlan,
    actions: &Vec<Action>,
    titles: &Vec<String>,
    toc_doc: &String,
) -> (r: Result<PackagePlan, Error>)
    requires
        actions@.len() + 1 < usize::MAX,
    ensures
        match r {
            Ok(p) => assemble_spec(
                plan.lang@,
                plan.title@,
                plan.cover_image@,
                toc_doc@,
                titles.deep_view(),
                actions.deep_view(),
            ) == Ok::<PackagePlanV, AsmErrV>(p@),
            Err(e) => assemble_spec(
                plan.lang@,
                plan.title@,
                plan.cover_image@,
                toc_doc@,
                titles.deep_view(),
                actions.deep_view(),
            ) matches Err(c) && err_matches(e, c),
        },
{
    let ghost acts = actions.deep_view();
    let ghost tv = titles.deep_view();
    let cover_mime = match get_image_mime_type(plan.cover_image.as_str()) {
        Ok(m) => m,
        Err(e) => {
            return Err(e);
        },
    };
    let cover = ImageResource {
        path: "image/cover-image.jpg".to_owned(),
        file: plan.cover_image.clone(),
        mime: cover_mime.to_owned(),
    };
    let mut units: Vec<PackageUnit> = Vec::new();
    units.push(
        PackageUnit {
            name: "xhtml/p-cover.xhtml".to_owned(),
            content: generate_cover_image_xhtml(plan),
            title: Some("表紙".to_owned()),
            role: Some(RefRole::Cover),
        },
    );
    let mut resources: Vec<ImageResource> = Vec::new();
    let mut para: usize = 1;
    let mut fmatter: usize = 1;
    let mut tidx: usize = 0;
    let mut text_done = false;
    let ghost mut st = initial_asm_state(plan.lang@, plan.title@);
    proof {
        assert(acts.skip(0) =~= acts);
        assert(Seq::new(units@.len(), |k: int| units@[k]@) =~= st.units);
        assert(Seq::new(resources@.len(), |k: int| resources@[k]@) =~= st.resources);
    }
    let n = actions.len();
    let mut i: usize = 0;
    while i < n
        invariant
            acts == actions.deep_view(),
            tv == titles.deep_view(),
            n == actions@.len(),
            acts.len() == n,
            n + 1 < usize::MAX,
            tv.len() == titles@.len(),
            mime_of(plan.cover_image@) is Some,
            0 <= i <= n,
            asm_run(plan.lang@, plan.title@, toc_doc@, tv, initial_asm_state(
                plan.lang@,
                plan.title@,
            ), acts) == asm_run(plan.lang@, plan.title@, toc_doc@, tv, st, acts.skip(i as int)),
            Seq::new(units@.len(), |k: int| units@[k]@) == st.units,
            Seq::new(resources@.len(), |k: int| resources@[k]@) == st.resources,
            para as nat == st.para,
            fmatter as nat == st.fmatter,
            tidx as nat == st.tidx,
            text_done == st.text_done,
            para <= 1 + i,
            fmatter <= 1 + i,
            tidx <= i,
        decreases n - i,
    {
        let ghost st0 = st;
        let ghost av = acts[i as int];
        let ghost units0 = units@;
        let ghost res0 = resources@;
        proof {
            assert(av == actions@[i as int]@);
            assert(acts.skip(i as int)[0] == av);
            assert(acts.skip(i as int).skip(1) =~= acts.skip(i + 1));
        }
        match &actions[i] {
            Action::TableOfContents => {
                units.push(
                    PackageUnit {
                        name: "xhtml/p-toc.xhtml".to_owned(),
                        content: toc_doc.clone(),
                        title: Some("目次".to_owned()),
                        role: Some(RefRole::Toc),
                    },
                );
                proof {
                    st = asm_step(plan.lang@, plan.title@, toc_doc@, tv, st0, av)->Ok_0;
                    assert(Seq::new(units@.len(), |k: int| units@[k]@) =~= st.units);
                }
            },
            Action::PrefaceImage(img) => {
                let mime = match get_image_mime_type(img.as_str()) {
                    Ok(m) => m,
                    Err(e) => {
                        proof {
                            lemma_run_err(plan.lang@, plan.title@, toc_doc@, tv, st0, acts, i as int);
                        }
                        return Err(e);
                    },
                };
                resources.push(
                    ImageResource {
                        path: prefixed_image_path(img.as_str()),
                        file: img.clone(),
                        mime: mime.to_owned(),
                    },
                );
                let name = fmatter_name_str(fmatter);
                units.push(
                    PackageUnit {
                        name,
                        content: generate_preface_image_xhtml(plan, img.as_str()),
                        title: None,
                        role: Some(RefRole::Preface),
                    },
                );
                fmatter += 1;
                proof {
                    st = asm_step(plan.lang@, plan.title@, toc_doc@, tv, st0, av)->Ok_0;
                    assert(Seq::new(units@.len(), |k: int| units@[k]@) =~= st.units);
                    assert(Seq::new(resources@.len(), |k: int| resources@[k]@) =~= st.resources);
                }
            },
            Action::TitlePage(img) => {
                let mime = match get_image_mime_type(img.as_str()) {
                    Ok(m) => m,
                    Err(e) => {
                        proof {
                            lemma_run_err(plan.lang@, plan.title@, toc_doc@, tv, st0, acts, i as int);
                        }
                        return Err(e);
                    },
                };
                resources.push(
                    ImageResource {
                        path: prefixed_image_path(img.as_str()),
                        file: img.clone(),
                        mime: mime.to_owned(),
                    },
                );
                units.push(
                    PackageUnit {
                        name: "xhtml/p-titlepage.xhtml".to_owned(),
                        content: generate_preface_image_xhtml(plan, img.as_str()),
                        title: None,
                        role: Some(RefRole::TitlePage),
                    },
                );
                proof {
                    st = asm_step(plan.lang@, plan.title@, toc_doc@, tv, st0, av)->Ok_0;
                    assert(Seq::new(units@.len(), |k: int| units@[k]@) =~= st.units);
                    assert(Seq::new(resources@.len(), |k: int| resources@[k]@) =~= st.resources);
                }
            },
            Action::Afterword(content) => {
                let name = para_name_str(para);
                units.push(
                    PackageUnit {
                        name,
                        content: generate_content_xhtml(plan, content.as_str()),
                        title: Some("奥付".to_owned()),
                        role: Some(RefRole::Afterword),
                    },
                );
                para += 1;
                proof {
                    st = asm_step(plan.lang@, plan.title@, toc_doc@, tv, st0, av)->Ok_0;
                    assert(Seq::new(units@.len(), |k: int| units@[k]@) =~= st.units);
                }
            },
            Action::BodyWithChapterTitle(content) => {
                if tidx >= titles.len() {
                    proof {
                        lemma_run_err(plan.lang@, plan.title@, toc_doc@, tv, st0, acts, i as int);
                    }
                    return Err(
                        Error::MissingChapterTitle { titled: tidx + 1, titles: titles.len() },
                    );
                }
                let chapter = titles[tidx].clone();
                let name = para_name_str(para);
                let role = if text_done {
                    None
                } else {
                    Some(RefRole::Text)
                };
                units.push(
                    PackageUnit {
                        name,
                        content: generate_content_xhtml(plan, content.as_str()),
                        title: Some(chapter),
                        role,
                    },
                );
                para += 1;
                tidx += 1;
                text_done = true;
                proof {
                    assert(tv[st0.tidx as int] == titles@[st0.tidx as int]@);
                    st = asm_step(plan.lang@, plan.title@, toc_doc@, tv, st0, av)->Ok_0;
                    assert(Seq::new(units@.len(), |k: int| units@[k]@) =~= st.units);
                }
            },
            Action::Body(content) => {
                let name = para_name_str(para);
                let role = if text_done {
                    None
                } else {
                    Some(RefRole::Text)
                };
                units.push(
                    PackageUnit {
                        name,
                        content: generate_content_xhtml(plan, content.as_str()),
                        title: None,
                        role,
                    },
                );
                para += 1;
                text_done = true;
                proof {
                    st = asm_step(plan.lang@, plan.title@, toc_doc@, tv, st0, av)->Ok_0;
                    assert(Seq::new(units@.len(), |k: int| units@[k]@) =~= st.units);
                }
            },
            Action::Image(img) => {
                let mime = match get_image_mime_type(img.as_str()) {
                    Ok(m) => m,
                    Err(e) => {
                        proof {
                            lemma_run_err(plan.lang@, plan.title@, toc_doc@, tv, st0, acts, i as int);
                        }
                        return Err(e);
                    },
                };
                resources.push(
                    ImageResource {
                        path: prefixed_image_path(img.as_str()),
                        file: img.clone(),
                        mime: mime.to_owned(),
                    },
                );
                let name = para_name_str(para);
                let role = if text_done {
                    None
                } else {
                    Some(RefRole::Text)
                };
                units.push(
                    PackageUnit {
                        name,
                        content: generate_image_xhtml(plan, img.as_str()),
                        title: None,
                        role,
                    },
                );
                para += 1;
                text_done = true;
                proof {
                    st = asm_step(plan.lang@, plan.title@, toc_doc@, tv, st0, av)->Ok_0;
                    assert(Seq::new(units@.len(), |k: int| units@[k]@) =~= st.units);
                    assert(Seq::new(resources@.len(), |k: int| resources@[k]@) =~= st.resources);
                }
            },
            Action::ColophonImage(img) => {
                let mime = match get_image_mime_type(img.as_str()) {
                    Ok(m) => m,
                    Err(e) => {
                        proof {
                            lemma_run_err(plan.lang@, plan.title@, toc_doc@, tv, st0, acts, i as int);
                        }
                        return Err(e);
                    },
                };
                resources.push(
                    ImageResource {
                        path: prefixed_image_path(img.as_str()),
                        file: img.clone(),
                        mime: mime.to_owned(),
                    },
                );
                units.push(
                    PackageUnit {
                        name: "xhtml/p-colophon.xhtml".to_owned(),
                        content: generate_image_xhtml(plan, img.as_str()),
                        title: None,
                        role: Some(RefRole::Colophon),
                    },
                );
                proof {
                    st = asm_step(plan.lang@, plan.title@, toc_doc@, tv, st0, av)->Ok_0;
                    assert(Seq::new(units@.len(), |k: int| units@[k]@) =~= st.units);
                    assert(Seq::new(resources@.len(), |k: int| resources@[k]@) =~= st.resources);
                }
            },
            Action::ColophonText(content) => {
                let name = para_name_str(para);
                let role = if text_done {
                    None
                } else {
                    Some(RefRole::Colophon)
                };
                units.push(
                    PackageUnit {
                        name,
                        content: generate_content_xhtml(plan, content.as_str()),
                        title: None,
                        role,
                    },
                );
                text_done = true;
                proof {
                    st = asm_step(plan.lang@, plan.title@, toc_doc@, tv, st0, av)->Ok_0;
                    assert(Seq::new(units@.len(), |k: int| units@[k]@) =~= st.units);
                }
            },
            Action::Copyright(content) => {
                let name = para_name_str(para);
                let role = if text_done {
                    None
                } else {
                    Some(RefRole::Copyright)
                };
                units.push(
                    PackageUnit {
                        name,
                        content: generate_content_xhtml(plan, content.as_str()),
                        title: None,
                        role,
                    },
                );
                para += 1;
                text_done = true;
                proof {
                    st = asm_step(plan.lang@, plan.title@, toc_doc@, tv, st0, av)->Ok_0;
                    assert(Seq::new(units@.len(), |k: int| units@[k]@) =~= st.units);
                }
            },
            Action::Bibliography(content) => {
                let name = para_name_str(para);
                let role = if text_done {
                    None
                } else {
                    Some(RefRole::Bibliography)
                };
                units.push(
                    PackageUnit {
                        name,
                        content: generate_content_xhtml(plan, content.as_str()),
                        title: None,
                        role,
                    },
                );
                para += 1;
                text_done = true;
                proof {
                    st = asm_step(plan.lang@, plan.title@, toc_doc@, tv, st0, av)->Ok_0;
                    assert(Seq::new(units@.len(), |k: int| units@[k]@) =~= st.units);
                }
            },
            Action::GlyphImage(img) => {
                let mime = match get_image_mime_type(img.as_str()) {
                    Ok(m) => m,
                    Err(e) => {
                        proof {
                            lemma_run_err(plan.lang@, plan.title@, toc_doc@, tv, st0, acts, i as int);
                        }
                        return Err(e);
                    },
                };
                resources.push(
                    ImageResource {
                        path: prefixed_image_path(img.as_str()),
                        file: img.clone(),
                        mime: mime.to_owned(),
                    },
                );
                proof {
                    st = asm_step(plan.lang@, plan.title@, toc_doc@, tv, st0, av)->Ok_0;
                    assert(Seq::new(resources@.len(), |k: int| resources@[k]@) =~= st.resources);
                }
            },
        }
        proof {
            assert(asm_step(plan.lang@, plan.title@, toc_doc@, tv, st0, av) == Ok::<
                AsmStateV,
                AsmErrV,
            >(st));
        }
        i += 1;
    }
    proof {
        assert(acts.skip(n as int) =~= Seq::<ActionV>::empty());
    }
    let r = PackagePlan { cover, resources, units };
    proof {
        assert(r@.units =~= Seq::new(units@.len(), |k: int| units@[k]@));
        assert(r@.resources =~= Seq::new(resources@.len(), |k: int| resources@[k]@));
    }
    Ok(r)
}

/// Whether an execution error reports the given assembly fault.
pub open spec fn err_matches(e: Error, c: AsmErrV) -> bool {
    match c {
        AsmErrV::UnsupportedImage(img) => e matches Error::UnsupportedImageType(p) && p@ == img,
        AsmErrV::MissingTitle { titled, titles } => e matches Error::MissingChapterTitle {
            titled: a,
            titles: b,
        } && a as nat == titled && b as nat == titles,
    }
}

/// When the step at position `i` fails, the whole run from the current
/// state fails with the same fault.
proof fn lemma_run_err(
    lang: Seq<char>,
    title: Seq<char>,
    toc_doc: Seq<char>,
    titles: Seq<Seq<char>>,
    st: AsmStateV,
    acts: Seq<ActionV>,
    i: int,
)
    requires
        0 <= i < acts.len(),
        asm_step(lang, title, toc_doc, titles, st, acts[i]) is Err,
    ensures
        asm_run(lang, title, toc_doc, titles, st, acts.skip(i)) == Err::<AsmStateV, AsmErrV>(
            asm_step(lang, title, toc_doc, titles, st, acts[i])->Err_0,
        ),
{
    assert(acts.skip(i)[0] == acts[i]);
}

/// The container path of an image file name.
fn prefixed_image_path(file: &str) -> (r: String)
    ensures
        r@ == image_path(file@),
{
    let mut out = "image/".to_owned();
    out.append(file);
    out
}

/// Write the name of a body-numbered document.
fn para_name_str(p: usize) -> (r: String)
    ensures
        r@ == para_name(p as nat),
{
    let mut out = "xhtml/p-".to_owned();
    let pad = padded_dec_str(p, 3);
    out.append(pad.as_str());
    out.append(".xhtml");
    out
}

/// Write the name of a preface document.
fn fmatter_name_str(f: usize) -> (r: String)
    ensures
        r@ == fmatter_name(f as nat),
{
    let mut out = "xhtml/p-fmatter-".to_owned();
    let pad = padded_dec_str(f, 3);
    out.append(pad.as_str());
    out.append(".xhtml");
    out
}

/// A successful run renders one unit per action but the glyph images, and
/// moves the paragraph counter forward once per body-numbered action: as
/// many numbers are taken as there are body-numbered actions.
pub proof fn lemma_asm_counts(
    lang: Seq<char>,
    title: Seq<char>,
    toc_doc: Seq<char>,
    titles: Seq<Seq<char>>,
    st: AsmStateV,
    actions: Seq<ActionV>,
)
    requires
        asm_run(lang, title, toc_doc, titles, st, actions) is Ok,
    ensures
        asm_run(lang, title, toc_doc, titles, st, actions)->Ok_0.para == st.para
            + body_numbered_count(actions),
        asm_run(lang, title, toc_doc, titles, st, actions)->Ok_0.units.len() == st.units.len()
            + rendered_unit_count(actions),
    decreases actions.len(),
{
    if actions.len() == 0 {
    } else {
        let st2 = asm_step(lang, title, toc_doc, titles, st, actions[0])->Ok_0;
        lemma_asm_counts(lang, title, toc_doc, titles, st2, actions.skip(1));
    }
}

/// No qualifying action gives no substituted number under either pass.
proof fn lemma_no_qualifying_empty(actions: Seq<ActionV>, c: nat, p: nat)
    requires
        forall|i: int| 0 <= i < actions.len() ==> !is_qualifying(#[trigger] actions[i]),
    ensures
        qualifying_numbers(actions, c).len() == 0,
        qualifying_assigned(actions, p).len() == 0,
    decreases actions.len(),
{
    if actions.len() == 0 {
    } else {
        assert(forall|i: int|
            0 <= i < actions.len() - 1 ==> actions.skip(1)[i] == actions[i + 1]);
        lemma_no_qualifying_empty(actions.skip(1), c, p);
        lemma_no_qualifying_empty(actions.skip(1), c + 1, p + 1);
        lemma_no_qualifying_empty(actions.skip(1), c + 1, p);
        lemma_no_qualifying_empty(actions.skip(1), c, p + 1);
    }
}

/// No bibliography action stands before a qualifying action.
pub open spec fn no_bibliography_before_qualifying(actions: Seq<ActionV>) -> bool {
    forall|i: int, j: int|
        (0 <= i < j < actions.len() && ((#[trigger] actions[i]) matches ActionV::Bibliography(_)))
            ==> !is_qualifying(#[trigger] actions[j])
}

/// Until a bibliography is rendered, the resolution pass and the final
/// rendering pass count the same: they assign the same numbers to the
/// qualifying actions.
proof fn lemma_passes_agree(actions: Seq<ActionV>, c: nat)
    requires
        no_bibliography_before_qualifying(actions),
    ensures
        qualifying_numbers(actions, c) == qualifying_assigned(actions, c),
    decreases actions.len(),
{
    if actions.len() == 0 {
        assert(qualifying_numbers(actions, c) =~= qualifying_assigned(actions, c));
    } else {
        assert(forall|i: int|
            0 <= i < actions.len() - 1 ==> actions.skip(1)[i] == actions[i + 1]);
        assert(no_bibliography_before_qualifying(actions.skip(1)));
        if actions[0] matches ActionV::Bibliography(_) {
            assert(forall|j: int|
                0 <= j < actions.skip(1).len() ==> !is_qualifying(#[trigger] actions.skip(1)[j]));
            lemma_no_qualifying_empty(actions.skip(1), c, c + 1);
            assert(qualifying_numbers(actions, c) =~= qualifying_assigned(actions, c));
        } else {
            lemma_passes_agree(actions.skip(1), c);
            lemma_passes_agree(actions.skip(1), c + 1);
        }
    }
}

/// With N qualifying actions the skeleton holds exactly N placeholders
/// when resolution succeeds, and resolving them in order yields N
/// distinct, strictly increasing targets, the k-th being the k-th
/// qualifying action's unit number under the final rendering pass. The
/// rendering pass counts a bibliography unit while the resolution pass
/// does not, so this holds of action lists where no bibliography stands
/// before a qualifying action.
pub proof fn lemma_toc_targets_match_unit_numbers(sk: TocSkeletonV, actions: Seq<ActionV>)
    requires
        resolve_spec(sk, actions) is Ok,
        no_bibliography_before_qualifying(actions),
    ensures
        targets_of(resolve_spec(sk, actions)->Ok_0).len() == placeholder_count(sk),
        targets_of(resolve_spec(sk, actions)->Ok_0) == qualifying_assigned(actions, 1),
        forall|i: int, j: int|
            0 <= i < j < targets_of(resolve_spec(sk, actions)->Ok_0).len()
                ==> #[trigger] targets_of(resolve_spec(sk, actions)->Ok_0)[i]
                < #[trigger] targets_of(resolve_spec(sk, actions)->Ok_0)[j],
{
    lemma_resolved_targets(sk, actions);
    lemma_passes_agree(actions, 1);
    lemma_qualifying_numbers_increasing(actions, 1);
}

/// Body-numbered units take the numbers one, two, three, … in action
/// order: as many numbers as there are body-numbered actions, the first
/// number one, each next one greater by exactly one.
pub proof fn lemma_unit_numbers_sequential(actions: Seq<ActionV>, p: nat)
    ensures
        assigned_numbers(actions, p).len() == body_numbered_count(actions),
        forall|i: int|
            0 <= i < assigned_numbers(actions, p).len() ==> #[trigger] assigned_numbers(
                actions,
                p,
            )[i] == p + i,
    decreases actions.len(),
{
    if actions.len() == 0 {
    } else {
        lemma_unit_numbers_sequential(actions.skip(1), p + 1);
        lemma_unit_numbers_sequential(actions.skip(1), p);
        let nums = assigned_numbers(actions, p);
        if is_body_numbered(actions[0]) {
            let rest = assigned_numbers(actions.skip(1), p + 1);
            assert(forall|i: int| 1 <= i < nums.len() ==> nums[i] == rest[i - 1]);
        } else {
            let rest = assigned_numbers(actions.skip(1), p);
            assert(forall|i: int| 0 <= i < nums.len() ==> nums[i] == rest[i]);
        }
    }
}

} // verus!
