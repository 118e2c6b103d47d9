//! Table-of-contents resolver. A first pass over the normalized text builds
//! a skeleton of placeholder entries from the chapter and afterword
//! annotations; a second pass over the action list computes the sequential
//! numbering of renderable units and substitutes each placeholder with the
//! number of its qualifying action, in strict positional order.

use vstd::prelude::*;
use vstd::string::*;

use crate::Error;
use crate::sequence::ActionV;
use crate::sequence::Action;
use crate::text::{
    find_first, find_last_char, find_sub, find_last_char_in, lemma_find_first_characterizes,
    lemma_find_last_char_characterizes,
};

verus! {

/// One linked table-of-contents entry: its chapter-anchor number and title.
pub struct TocEntry {
    pub anchor: usize,
    pub title: String,
}

/// The mathematical value of a linked entry.
pub struct TocEntryV {
    pub anchor: nat,
    pub title: Seq<char>,
}

impl View for TocEntry {
    type V = TocEntryV;

    open spec fn view(&self) -> TocEntryV {
        TocEntryV { anchor: self.anchor as nat, title: self.title@ }
    }
}

/// One line of the skeleton: a blank spacer (the phantom chapter name) or a
/// linked entry whose target is still a placeholder.
pub enum SkeletonLine {
    Blank,
    Chapter(TocEntry),
}

/// The mathematical value of a skeleton line.
pub enum SkeletonLineV {
    Blank,
    Chapter(TocEntryV),
}

impl View for SkeletonLine {
    type V = SkeletonLineV;

    open spec fn view(&self) -> SkeletonLineV {
        match self {
            SkeletonLine::Blank => SkeletonLineV::Blank,
            SkeletonLine::Chapter(e) => SkeletonLineV::Chapter(e@),
        }
    }
}

/// The placeholder table of contents: the ordered chapter lines and one
/// optional afterword entry.
pub struct TocSkeleton {
    pub lines: Vec<SkeletonLine>,
    pub afterword: Option<TocEntry>,
}

/// The mathematical value of the skeleton.
pub struct TocSkeletonV {
    pub lines: Seq<SkeletonLineV>,
    pub afterword: Option<TocEntryV>,
}

impl View for TocSkeleton {
    type V = TocSkeletonV;

    open spec fn view(&self) -> TocSkeletonV {
        TocSkeletonV {
            lines: Seq::new(self.lines@.len(), |i: int| self.lines@[i]@),
            afterword: match self.afterword {
                Some(e) => Some(e@),
                None => None,
            },
        }
    }
}

/// A linked entry with its placeholder replaced by a concrete unit number.
pub struct ResolvedEntry {
    pub anchor: usize,
    pub title: String,
    pub target: usize,
}

/// The mathematical value of a resolved entry.
pub struct ResolvedEntryV {
    pub anchor: nat,
    pub title: Seq<char>,
    pub target: nat,
}

impl View for ResolvedEntry {
    type V = ResolvedEntryV;

    open spec fn view(&self) -> ResolvedEntryV {
        ResolvedEntryV {
            anchor: self.anchor as nat,
            title: self.title@,
            target: self.target as nat,
        }
    }
}

/// One line of the resolved table of contents.
pub enum ResolvedLine {
    Blank,
    Chapter(ResolvedEntry),
}

/// The mathematical value of a resolved line.
pub enum ResolvedLineV {
    Blank,
    Chapter(ResolvedEntryV),
}

impl View for ResolvedLine {
    type V = ResolvedLineV;

    open spec fn view(&self) -> ResolvedLineV {
        match self {
            ResolvedLine::Blank => ResolvedLineV::Blank,
            ResolvedLine::Chapter(e) => ResolvedLineV::Chapter(e@),
        }
    }
}

/// The fully resolved table of contents.
pub struct ResolvedToc {
    pub lines: Vec<ResolvedLine>,
    pub afterword: Option<ResolvedEntry>,
}

/// The mathematical value of the resolved table of contents.
pub struct ResolvedTocV {
    pub lines: Seq<ResolvedLineV>,
    pub afterword: Option<ResolvedEntryV>,
}

impl View for ResolvedToc {
    type V = ResolvedTocV;

    open spec fn view(&self) -> ResolvedTocV {
        ResolvedTocV {
            lines: Seq::new(self.lines@.len(), |i: int| self.lines@[i]@),
            afterword: match self.afterword {
                Some(e) => Some(e@),
                None => None,
            },
        }
    }
}

/// The chapter name annotated on a line: the text between the first
/// `#toc-chapter,` marker and the last `#` of the line, when that `#`
/// stands after the marker.
pub open spec fn toc_chapter_name(line: Seq<char>) -> Option<Seq<char>> {
    match find_first(line, "#toc-chapter,"@) {
        None => None,
        Some(i) => match find_last_char(line, '#') {
            Some(j) => if j >= i + 13 {
                Some(line.subrange(i + 13, j))
            } else {
                None
            },
            None => None,
        },
    }
}

/// The afterword title annotated on a line, by the same rule with the
/// `#atogaki,` marker.
pub open spec fn atogaki_name(line: Seq<char>) -> Option<Seq<char>> {
    match find_first(line, "#atogaki,"@) {
        None => None,
        Some(i) => match find_last_char(line, '#') {
            Some(j) => if j >= i + 9 {
                Some(line.subrange(i + 9, j))
            } else {
                None
            },
            None => None,
        },
    }
}

/// The number of lines that carry a non-phantom chapter annotation.
pub open spec fn num_chapter_names(lines: Seq<Seq<char>>) -> nat
    decreases lines.len(),
{
    if lines.len() == 0 {
        0
    } else {
        (match toc_chapter_name(lines[0]) {
            Some(name) => if name == "phantom"@ {
                0nat
            } else {
                1nat
            },
            None => 0nat,
        }) + num_chapter_names(lines.skip(1))
    }
}

/// The skeleton lines built from `lines`, numbering chapters from `next`.
pub open spec fn skeleton_lines(lines: Seq<Seq<char>>, next: nat) -> Seq<SkeletonLineV>
    decreases lines.len(),
{
    if lines.len() == 0 {
        Seq::empty()
    } else {
        match toc_chapter_name(lines[0]) {
            Some(name) => if name == "phantom"@ {
                seq![SkeletonLineV::Blank] + skeleton_lines(lines.skip(1), next)
            } else {
                seq![SkeletonLineV::Chapter(TocEntryV { anchor: next, title: name })]
                    + skeleton_lines(lines.skip(1), next + 1)
            },
            None => skeleton_lines(lines.skip(1), next),
        }
    }
}

/// The first afterword title annotated in `lines`, if any.
pub open spec fn atogaki_title(lines: Seq<Seq<char>>) -> Option<Seq<char>>
    decreases lines.len(),
{
    if lines.len() == 0 {
        None
    } else {
        match atogaki_name(lines[0]) {
            Some(t) => Some(t),
            None => atogaki_title(lines.skip(1)),
        }
    }
}

/// The skeleton of the whole text: chapter lines numbered from one, and the
/// afterword entry numbered after all chapters.
pub open spec fn build_skeleton_spec(lines: Seq<Seq<char>>) -> TocSkeletonV {
    TocSkeletonV {
        lines: skeleton_lines(lines, 1),
        afterword: match atogaki_title(lines) {
            Some(t) => Some(TocEntryV { anchor: 1 + num_chapter_names(lines), title: t }),
            None => None,
        },
    }
}

/// Extract the chapter annotation of one line.
fn line_toc_chapter_name(line: &str) -> (r: Option<String>)
    ensures
        match r {
            Some(name) => toc_chapter_name(line@) == Some(name@),
            None => toc_chapter_name(line@) is None,
        },
{
    match find_sub(line, "#toc-chapter,") {
        None => None,
        Some(i) => {
            match find_last_char_in(line, '#') {
                Some(j) => {
                    proof {
                        reveal_strlit("#toc-chapter,");
                        lemma_find_first_characterizes(line@, "#toc-chapter,"@);
                        lemma_find_last_char_characterizes(line@, '#');
                    }
                    if j >= i && j - i >= 13 {
                        let name = line.substring_char(i + 13, j);
                        proof {
                            assert(name@ =~= line@.subrange(i + 13, j as int));
                        }
                        Some(name.to_owned())
                    } else {
                        None
                    }
                },
                None => None,
            }
        },
    }
}

/// Extract the afterword annotation of one line.
fn line_atogaki_name(line: &str) -> (r: Option<String>)
    ensures
        match r {
            Some(name) => atogaki_name(line@) == Some(name@),
            None => atogaki_name(line@) is None,
        },
{
    match find_sub(line, "#atogaki,") {
        None => None,
        Some(i) => {
            match find_last_char_in(line, '#') {
                Some(j) => {
                    proof {
                        reveal_strlit("#atogaki,");
                        lemma_find_first_characterizes(line@, "#atogaki,"@);
                        lemma_find_last_char_characterizes(line@, '#');
                    }
                    if j >= i && j - i >= 9 {
                        let name = line.substring_char(i + 9, j);
                        proof {
                            assert(name@ =~= line@.subrange(i + 9, j as int));
                        }
                        Some(name.to_owned())
                    } else {
                        None
                    }
                },
                None => None,
            }
        },
    }
}

/// Build the placeholder table of contents by scanning the normalized text,
/// independently of the action stream.
pub fn build_skeleton(lines: &Vec<String>) -> (r: TocSkeleton)
    requires
        lines@.len() + 1 < usize::MAX,
    ensures
        r@ == build_skeleton_spec(lines.deep_view()),
{
    let ghost all = lines.deep_view();
    let mut out: Vec<SkeletonLine> = Vec::new();
    let mut found: Option<String> = None;
    let mut next: usize = 1;
    let n = lines.len();
    let mut i: usize = 0;
    proof {
        assert(all.skip(0) =~= all);
        assert(Seq::new(out@.len(), |k: int| out@[k]@) =~= Seq::<SkeletonLineV>::empty());
    }
    while i < n
        invariant
            all == lines.deep_view(),
            n == lines@.len(),
            all.len() == n,
            n + 1 < usize::MAX,
            0 <= i <= n,
            next <= 1 + i,
            skeleton_lines(all, 1) == Seq::new(out@.len(), |k: int| out@[k]@) + skeleton_lines(
                all.skip(i as int),
                next as nat,
            ),
            1 + num_chapter_names(all) == next + num_chapter_names(all.skip(i as int)),
            match found {
                Some(t) => atogaki_title(all) == Some(t@),
                None => atogaki_title(all) == atogaki_title(all.skip(i as int)),
            },
        decreases n - i,
    {
        let line: &String = &lines[i];
        let ghost lv = all[i as int];
        let ghost rest = all.skip(i as int);
        proof {
            assert(lv == lines@[i as int]@);
            assert(rest[0] == lv);
            assert(rest.skip(1) =~= all.skip(i + 1));
        }
        let ghost out0 = out@;
        match line_toc_chapter_name(line.as_str()) {
            Some(name) => {
                if str_is_phantom(name.as_str()) {
                    out.push(SkeletonLine::Blank);
                    proof {
                        assert(Seq::new(out@.len(), |k: int| out@[k]@) =~= Seq::new(
                            out0.len(),
                            |k: int| out0[k]@,
                        ) + seq![SkeletonLineV::Blank]);
                    }
                } else {
                    out.push(SkeletonLine::Chapter(TocEntry { anchor: next, title: name }));
                    proof {
                        assert(Seq::new(out@.len(), |k: int| out@[k]@) =~= Seq::new(
                            out0.len(),
                            |k: int| out0[k]@,
                        ) + seq![
                            SkeletonLineV::Chapter(
                                TocEntryV { anchor: next as nat, title: toc_chapter_name(lv)->0 },
                            ),
                        ]);
                    }
                    next += 1;
                }
            },
            None => {},
        }
        if found.is_none() {
            match line_atogaki_name(line.as_str()) {
                Some(t) => {
                    found = Some(t);
                },
                None => {},
            }
        }
        i += 1;
    }
    proof {
        assert(all.skip(n as int) =~= Seq::<Seq<char>>::empty());
        let builtv = Seq::new(out@.len(), |k: int| out@[k]@);
        assert(builtv + skeleton_lines(all.skip(n as int), next as nat) =~= builtv);
    }
    let afterword = match found {
        Some(t) => Some(TocEntry { anchor: next, title: t }),
        None => None,
    };
    let r = TocSkeleton { lines: out, afterword };
    proof {
        assert(r@.lines =~= build_skeleton_spec(all).lines);
    }
    r
}

/// Whether a chapter annotation names the phantom chapter.
fn str_is_phantom(s: &str) -> (r: bool)
    ensures
        r == (s@ == "phantom"@),
{
    crate::text::str_eq(s, "phantom")
}

/// Whether an action substitutes the next placeholder during resolution.
pub open spec fn is_qualifying(a: ActionV) -> bool {
    match a {
        ActionV::Copyright(_) => true,
        ActionV::BodyWithChapterTitle(_) => true,
        ActionV::Afterword(_) => true,
        _ => false,
    }
}

/// Whether an action advances the resolution counter without substituting.
pub open spec fn advances_only(a: ActionV) -> bool {
    match a {
        ActionV::Body(_) => true,
        ActionV::Image(_) => true,
        _ => false,
    }
}

/// The unit numbers substituted for the placeholders, in order, walking the
/// action list with the counter starting at `c`.
pub open spec fn qualifying_numbers(actions: Seq<ActionV>, c: nat) -> Seq<nat>
    decreases actions.len(),
{
    if actions.len() == 0 {
        Seq::empty()
    } else if is_qualifying(actions[0]) {
        seq![c] + qualifying_numbers(actions.skip(1), c + 1)
    } else if advances_only(actions[0]) {
        qualifying_numbers(actions.skip(1), c + 1)
    } else {
        qualifying_numbers(actions.skip(1), c)
    }
}

/// The number of placeholders in the skeleton: one per linked chapter line,
/// and one for the afterword entry when it is present.
pub open spec fn count_chapter_lines(lines: Seq<SkeletonLineV>) -> nat
    decreases lines.len(),
{
    if lines.len() == 0 {
        0
    } else {
        (match lines[0] {
            SkeletonLineV::Chapter(_) => 1nat,
            SkeletonLineV::Blank => 0nat,
        }) + count_chapter_lines(lines.skip(1))
    }
}

/// The number of placeholders in the whole skeleton.
pub open spec fn placeholder_count(sk: TocSkeletonV) -> nat {
    count_chapter_lines(sk.lines) + (if sk.afterword is Some {
        1nat
    } else {
        0nat
    })
}

/// The resolved lines: each linked entry takes the next number of `nums`.
pub open spec fn assign_lines(lines: Seq<SkeletonLineV>, nums: Seq<nat>) -> Seq<ResolvedLineV>
    decreases lines.len(),
{
    if lines.len() == 0 {
        Seq::empty()
    } else {
        match lines[0] {
            SkeletonLineV::Blank => seq![ResolvedLineV::Blank] + assign_lines(
                lines.skip(1),
                nums,
            ),
            SkeletonLineV::Chapter(e) => seq![
                ResolvedLineV::Chapter(
                    ResolvedEntryV { anchor: e.anchor, title: e.title, target: nums[0] },
                ),
            ] + assign_lines(lines.skip(1), nums.skip(1)),
        }
    }
}

/// The resolved table of contents, or the two disagreeing counts.
pub open spec fn resolve_spec(sk: TocSkeletonV, actions: Seq<ActionV>) -> Result<
    ResolvedTocV,
    (nat, nat),
> {
    let nums = qualifying_numbers(actions, 1);
    let ph = placeholder_count(sk);
    if nums.len() != ph {
        Err((ph, nums.len()))
    } else {
        Ok(
            ResolvedTocV {
                lines: assign_lines(sk.lines, nums),
                afterword: match sk.afterword {
                    Some(e) => Some(
                        ResolvedEntryV {
                            anchor: e.anchor,
                            title: e.title,
                            target: nums[nums.len() - 1],
                        },
                    ),
                    None => None,
                },
            },
        )
    }
}

/// Substitute the placeholders of the skeleton with the unit numbers of the
/// qualifying actions, in strict positional order. A placeholder count that
/// differs from the qualifying-action count is the mismatch error.
pub fn resolve_toc(sk: &TocSkeleton, actions: &Vec<Action>) -> (r: Result<ResolvedToc, Error>)
    requires
        actions@.len() + 1 < usize::MAX,
        sk.lines@.len() < usize::MAX,
    ensures
        match r {
            Ok(t) => resolve_spec(sk@, actions.deep_view()) == Ok::<ResolvedTocV, (nat, nat)>(t@),
            Err(e) => resolve_spec(sk@, actions.deep_view()) matches Err(c) && e matches
                Error::TocActionMismatch { placeholders, qualifying } && placeholders as nat == c.0
                && qualifying as nat == c.1,
        },
{
    let ghost acts = actions.deep_view();
    // Walk the action list once, recording the number of each qualifying
    // action under the shared counter.
    let mut nums: Vec<usize> = Vec::new();
    let mut counter: usize = 1;
    let n = actions.len();
    let mut i: usize = 0;
    proof {
        assert(acts.skip(0) =~= acts);
        assert(nums@.map_values(|x: usize| x as nat) + qualifying_numbers(acts, 1)
            =~= qualifying_numbers(acts, 1));
    }
    while i < n
        invariant
            acts == actions.deep_view(),
            n == actions@.len(),
            acts.len() == n,
            n + 1 < usize::MAX,
            0 <= i <= n,
            counter <= 1 + i,
            qualifying_numbers(acts, 1) == nums@.map_values(|x: usize| x as nat)
                + qualifying_numbers(acts.skip(i as int), counter as nat),
        decreases n - i,
    {
        let ghost nums0 = nums@;
        let ghost rest = acts.skip(i as int);
        proof {
            assert(rest[0] == acts[i as int]);
            assert(acts[i as int] == actions@[i as int]@);
            assert(rest.skip(1) =~= acts.skip(i + 1));
        }
        match &actions[i] {
            Action::Copyright(_) | Action::BodyWithChapterTitle(_) | Action::Afterword(_) => {
                nums.push(counter);
                counter += 1;
                proof {
                    assert(nums@.map_values(|x: usize| x as nat) =~= nums0.map_values(
                        |x: usize| x as nat,
                    ).push((counter - 1) as nat));
                }
            },
            Action::Body(_) | Action::Image(_) => {
                counter += 1;
            },
            _ => {},
        }
        i += 1;
    }
    proof {
        assert(acts.skip(n as int) =~= Seq::<ActionV>::empty());
        assert(nums@.map_values(|x: usize| x as nat) =~= qualifying_numbers(acts, 1));
    }
    // Count the placeholders of the skeleton.
    let ghost skl = sk@.lines;
    let mut ph: usize = 0;
    let m = sk.lines.len();
    let mut j: usize = 0;
    proof {
        assert(skl.skip(0) =~= skl);
    }
    while j < m
        invariant
            skl == sk@.lines,
            m == sk.lines@.len(),
            skl.len() == m,
            0 <= j <= m,
            ph <= j,
            count_chapter_lines(skl) == ph + count_chapter_lines(skl.skip(j as int)),
        decreases m - j,
    {
        proof {
            assert(skl.skip(j as int)[0] == skl[j as int]);
            assert(skl[j as int] == sk.lines@[j as int]@);
            assert(skl.skip(j as int).skip(1) =~= skl.skip(j + 1));
        }
        match &sk.lines[j] {
            SkeletonLine::Chapter(_) => {
                ph += 1;
            },
            SkeletonLine::Blank => {},
        }
        j += 1;
    }
    proof {
        assert(skl.skip(m as int) =~= Seq::<SkeletonLineV>::empty());
        assert(ph as nat == count_chapter_lines(skl));
    }
    let total_ph = if sk.afterword.is_some() {
        ph + 1
    } else {
        ph
    };
    if total_ph != nums.len() {
        proof {
            assert(placeholder_count(sk@) == total_ph as nat);
            assert(qualifying_numbers(acts, 1).len() == nums@.len());
        }
        return Err(Error::TocActionMismatch { placeholders: total_ph, qualifying: nums.len() });
    }
    // Assign the numbers positionally.
    let ghost numsv = nums@.map_values(|x: usize| x as nat);
    let nn = nums.len();
    let mut lines_out: Vec<ResolvedLine> = Vec::new();
    let mut k: usize = 0;
    let mut j: usize = 0;
    proof {
        assert(numsv.skip(0) =~= numsv);
        assert(Seq::new(lines_out@.len(), |t: int| lines_out@[t]@) =~= Seq::<
            ResolvedLineV,
        >::empty());
    }
    while j < m
        invariant
            skl == sk@.lines,
            m == sk.lines@.len(),
            skl.len() == m,
            0 <= j <= m,
            nn == nums@.len(),
            0 <= k <= nn,
            numsv == nums@.map_values(|x: usize| x as nat),
            numsv.len() == nums@.len(),
            count_chapter_lines(skl.skip(j as int)) + (if sk@.afterword is Some {
                1nat
            } else {
                0nat
            }) == numsv.len() - k,
            assign_lines(skl, numsv) == Seq::new(lines_out@.len(), |t: int| lines_out@[t]@)
                + assign_lines(skl.skip(j as int), numsv.skip(k as int)),
        decreases m - j,
    {
        let ghost out0 = lines_out@;
        proof {
            assert(skl.skip(j as int)[0] == skl[j as int]);
            assert(skl[j as int] == sk.lines@[j as int]@);
            assert(skl.skip(j as int).skip(1) =~= skl.skip(j + 1));
        }
        match &sk.lines[j] {
            SkeletonLine::Chapter(e) => {
                proof {
                    assert(count_chapter_lines(skl.skip(j as int)) >= 1);
                    assert(k < nums@.len());
                }
                let target = nums[k];
                lines_out.push(
                    ResolvedLine::Chapter(
                        ResolvedEntry { anchor: e.anchor, title: e.title.clone(), target },
                    ),
                );
                k += 1;
                proof {
                    assert(numsv.skip(k - 1)[0] == numsv[k - 1]);
                    assert(numsv[k - 1] == target as nat);
                    assert(numsv.skip(k - 1).skip(1) =~= numsv.skip(k as int));
                    assert(Seq::new(lines_out@.len(), |t: int| lines_out@[t]@) =~= Seq::new(
                        out0.len(),
                        |t: int| out0[t]@,
                    ) + seq![lines_out@[lines_out@.len() - 1]@]);
                }
            },
            SkeletonLine::Blank => {
                lines_out.push(ResolvedLine::Blank);
                proof {
                    assert(Seq::new(lines_out@.len(), |t: int| lines_out@[t]@) =~= Seq::new(
                        out0.len(),
                        |t: int| out0[t]@,
                    ) + seq![ResolvedLineV::Blank]);
                }
            },
        }
        j += 1;
    }
    proof {
        assert(skl.skip(m as int) =~= Seq::<SkeletonLineV>::empty());
    }
    let afterword = match &sk.afterword {
        Some(e) => {
            proof {
                assert(k == nums@.len() - 1);
            }
            let target = nums[k];
            Some(ResolvedEntry { anchor: e.anchor, title: e.title.clone(), target })
        },
        None => {
            proof {
                assert(k == nums@.len());
            }
            None
        },
    };
    let r = ResolvedToc { lines: lines_out, afterword };
    proof {
        assert(r@.lines =~= assign_lines(skl, numsv));
        assert(resolve_spec(sk@, acts) == Ok::<ResolvedTocV, (nat, nat)>(r@));
    }
    Ok(r)
}

/// The skeleton holds at most one line per line of text.
pub proof fn lemma_skeleton_count(lines: Seq<Seq<char>>, next: nat)
    ensures
        skeleton_lines(lines, next).len() <= lines.len(),
    decreases lines.len(),
{
    if lines.len() == 0 {
    } else {
        match toc_chapter_name(lines[0]) {
            Some(name) => {
                if name == "phantom"@ {
                    lemma_skeleton_count(lines.skip(1), next);
                } else {
                    lemma_skeleton_count(lines.skip(1), next + 1);
                }
            },
            None => {
                lemma_skeleton_count(lines.skip(1), next);
            },
        }
    }
}

/// The targets of the resolved chapter lines, in order.
pub open spec fn chapter_targets(lines: Seq<ResolvedLineV>) -> Seq<nat>
    decreases lines.len(),
{
    if lines.len() == 0 {
        Seq::empty()
    } else {
        (match lines[0] {
            ResolvedLineV::Chapter(e) => seq![e.target],
            ResolvedLineV::Blank => Seq::empty(),
        }) + chapter_targets(lines.skip(1))
    }
}

/// All the targets of a resolved table of contents, the afterword's last.
pub open spec fn targets_of(t: ResolvedTocV) -> Seq<nat> {
    chapter_targets(t.lines) + (match t.afterword {
        Some(e) => seq![e.target],
        None => Seq::empty(),
    })
}

/// Assigning numbers to the skeleton lines hands out exactly the first
/// `count_chapter_lines` numbers, in order.
proof fn lemma_assign_targets(lines: Seq<SkeletonLineV>, nums: Seq<nat>)
    requires
        count_chapter_lines(lines) <= nums.len(),
    ensures
        chapter_targets(assign_lines(lines, nums)) == nums.take(
            count_chapter_lines(lines) as int,
        ),
    decreases lines.len(),
{
    if lines.len() == 0 {
        assert(chapter_targets(assign_lines(lines, nums)) =~= nums.take(0));
    } else {
        match lines[0] {
            SkeletonLineV::Blank => {
                lemma_assign_targets(lines.skip(1), nums);
                assert((seq![ResolvedLineV::Blank] + assign_lines(lines.skip(1), nums)).skip(1)
                    =~= assign_lines(lines.skip(1), nums));
            },
            SkeletonLineV::Chapter(e) => {
                lemma_assign_targets(lines.skip(1), nums.skip(1));
                let head = ResolvedLineV::Chapter(
                    ResolvedEntryV { anchor: e.anchor, title: e.title, target: nums[0] },
                );
                assert((seq![head] + assign_lines(lines.skip(1), nums.skip(1))).skip(1)
                    =~= assign_lines(lines.skip(1), nums.skip(1)));
                let c = count_chapter_lines(lines);
                assert(seq![nums[0]] + nums.skip(1).take(c - 1) =~= nums.take(c as int));
            },
        }
    }
}

/// A successful resolution substitutes exactly the numbers of the
/// qualifying actions, in order: the first placeholder takes the first
/// qualifying action's number, and so on through the afterword entry.
pub proof fn lemma_resolved_targets(sk: TocSkeletonV, actions: Seq<ActionV>)
    requires
        resolve_spec(sk, actions) is Ok,
    ensures
        targets_of(resolve_spec(sk, actions)->Ok_0) == qualifying_numbers(actions, 1),
{
    let nums = qualifying_numbers(actions, 1);
    lemma_assign_targets(sk.lines, nums);
    let t = resolve_spec(sk, actions)->Ok_0;
    let c = count_chapter_lines(sk.lines);
    match sk.afterword {
        Some(e) => {
            assert(targets_of(t) =~= nums.take(c as int).push(nums[nums.len() - 1]));
            assert(targets_of(t) =~= nums);
        },
        None => {
            assert(targets_of(t) =~= nums.take(c as int));
            assert(targets_of(t) =~= nums);
        },
    }
}

/// Every substituted number is at least `c`, and they increase strictly.
pub proof fn lemma_qualifying_numbers_increasing(actions: Seq<ActionV>, c: nat)
    ensures
        forall|i: int|
            0 <= i < qualifying_numbers(actions, c).len() ==> #[trigger] qualifying_numbers(
                actions,
                c,
            )[i] >= c,
        forall|i: int, j: int|
            0 <= i < j < qualifying_numbers(actions, c).len() ==> #[trigger] qualifying_numbers(
                actions,
                c,
            )[i] < #[trigger] qualifying_numbers(actions, c)[j],
    decreases actions.len(),
{
    if actions.len() == 0 {
    } else {
        lemma_qualifying_numbers_increasing(actions.skip(1), c + 1);
        lemma_qualifying_numbers_increasing(actions.skip(1), c);
        let nums = qualifying_numbers(actions, c);
        if is_qualifying(actions[0]) {
            let rest = qualifying_numbers(actions.skip(1), c + 1);
            assert(forall|i: int| 1 <= i < nums.len() ==> nums[i] == rest[i - 1]);
        } else if advances_only(actions[0]) {
            let rest = qualifying_numbers(actions.skip(1), c + 1);
            assert(forall|i: int| 0 <= i < nums.len() ==> nums[i] == rest[i]);
        } else {
            let rest = qualifying_numbers(actions.skip(1), c);
            assert(forall|i: int| 0 <= i < nums.len() ==> nums[i] == rest[i]);
        }
    }
}

} // verus!
