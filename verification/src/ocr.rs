//! The page-classification plan that the scanning stage hands over: three
//! lists of page paths that the later stages leave out.

use vstd::prelude::*;
use vstd::string::*;

verus! {

/// The three page lists of a scanning plan.
struct Plan {
    empty_page: Vec<String>,
    image_page: Vec<String>,
    ignore_page: Vec<String>,
}

/// The pages found empty, the pages found to be images, and the pages the
/// operator chose to leave out.
pub struct OcrPlan {
    plan: Plan,
}

impl OcrPlan {
    /// The paths recorded as empty pages.
    pub closed spec fn empty_pages(&self) -> Seq<Seq<char>> {
        self.plan.empty_page.deep_view()
    }

    /// The paths recorded as image pages.
    pub closed spec fn image_pages(&self) -> Seq<Seq<char>> {
        self.plan.image_page.deep_view()
    }

    /// The paths the operator chose to leave out.
    pub closed spec fn ignored_pages(&self) -> Seq<Seq<char>> {
        self.plan.ignore_page.deep_view()
    }

    /// Record the three page lists.
    pub fn new(empty_page: Vec<String>, image_page: Vec<String>, ignore_page: Vec<String>) -> (r:
        Self)
        ensures
            r.empty_pages() == empty_page.deep_view(),
            r.image_pages() == image_page.deep_view(),
            r.ignored_pages() == ignore_page.deep_view(),
    {
        Self { plan: Plan { empty_page, image_page, ignore_page } }
    }

    /// Whether a page path is left out: it stands in any of the three
    /// lists.
    pub fn ignore(&self, path: String) -> (r: bool)
        ensures
            r == (self.empty_pages().contains(path@) || self.image_pages().contains(path@)
                || self.ignored_pages().contains(path@)),
    {
        vec_contains_string(&self.plan.empty_page, &path) || vec_contains_string(
            &self.plan.image_page,
            &path,
        ) || vec_contains_string(&self.plan.ignore_page, &path)
    }
}

/// Whether a list holds a string with the given characters.
fn vec_contains_string(v: &Vec<String>, s: &String) -> (r: bool)
    ensures
        r == v.deep_view().contains(s@),
{
    let ghost dv = v.deep_view();
    let n = v.len();
    let mut i: usize = 0;
    while i < n
        invariant
            dv == v.deep_view(),
            n == v@.len(),
            dv.len() == n,
            0 <= i <= n,
            forall|j: int| 0 <= j < i ==> dv[j] != s@,
        decreases n - i,
    {
        proof {
            assert(dv[i as int] == v@[i as int]@);
        }
        if v[i].eq(s) {
            proof {
                assert(dv.contains(s@));
            }
            return true;
        }
        i += 1;
    }
    proof {
        assert(!dv.contains(s@));
    }
    false
}

} // verus!
