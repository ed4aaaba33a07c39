use vstd::prelude::*;

verus! {

/// The largest page height, and screen height, that page placement takes,
/// in fixed-point units (2^31 pixels or document units).
pub const MAX_EXTENT: i64 = 0x8000_0000_0000;

/// The total height of a run of pages.
pub open spec fn extent(hs: Seq<i64>) -> int
    decreases hs.len(),
{
    if hs.len() == 0 {
        0
    } else {
        extent(hs.drop_last()) + hs.last()
    }
}

/// The running cursor at page `i`: the vertical offset plus the heights of
/// the pages before it. Pages lie back to back with no gap.
///
/// The heights are added in document units as they are, not scaled by the
/// zoom, while the pages are drawn scaled. So the cursor follows the drawn
/// pages exactly only at zoom 1.0: below it, the cursor reaches the screen
/// height before the drawn pages do and later visible pages are left out;
/// above it, pages already past the bottom edge are still drawn.
pub open spec fn page_top(y_offset: i64, hs: Seq<i64>, i: int) -> int {
    y_offset + extent(hs.take(i))
}

/// A page spanning `top .. top + dy` meets the band `0 .. screen_height`:
/// it lies neither wholly at or below the bottom edge nor wholly at or above
/// the top edge.
pub open spec fn overlaps(top: int, dy: int, screen_height: int) -> bool {
    !(top >= screen_height || top + dy <= 0)
}

/// Page `i` is to be drawn.
pub open spec fn shown(y_offset: i64, hs: Seq<i64>, screen_height: i64, i: int) -> bool {
    overlaps(page_top(y_offset, hs, i), hs[i] as int, screen_height as int)
}

/// Heights that page placement accepts.
pub open spec fn heights_ok(hs: Seq<i64>) -> bool {
    forall|i: int| 0 <= i < hs.len() ==> 0 <= #[trigger] hs[i] <= MAX_EXTENT
}

/// A page to draw: its index, and its distance below the first page's top in
/// fixed-point document units.
#[derive(Clone, Copy, Debug, PartialEq, Eq, Structural)]
pub struct Placement {
    pub index: usize,
    pub offset: u64,
}

/// The placements of the shown pages among the first `m`, in page order.
pub open spec fn placements(y_offset: i64, hs: Seq<i64>, screen_height: i64, m: int) -> Seq<Placement>
    decreases m,
{
    if m <= 0 {
        Seq::empty()
    } else {
        let rest = placements(y_offset, hs, screen_height, m - 1);
        if shown(y_offset, hs, screen_height, m - 1) {
            rest.push(Placement { index: (m - 1) as usize, offset: extent(hs.take(m - 1)) as u64 })
        } else {
            rest
        }
    }
}

/// The pages of one frame.
pub struct FramePlan {
    /// The pages to draw, in page order.
    pub pages: Vec<Placement>,
    /// How many pages the frame looked at before the cursor passed the
    /// bottom of the screen.
    pub visited: usize,
}

/// Extra height never moves a later page up.
pub proof fn lemma_extent_grows(hs: Seq<i64>, i: int, j: int)
    requires
        heights_ok(hs),
        0 <= i <= j <= hs.len(),
    ensures
        extent(hs.take(i)) <= extent(hs.take(j)),
    decreases j - i,
{
    if i < j {
        lemma_extent_grows(hs, i, j - 1);
        lemma_extent_step(hs, j - 1);
    }
}

/// The cursor moves down by each page's height.
pub proof fn lemma_extent_step(hs: Seq<i64>, i: int)
    requires
        0 <= i < hs.len(),
    ensures
        extent(hs.take(i + 1)) == extent(hs.take(i)) + hs[i],
{
    assert(hs.take(i + 1).drop_last() == hs.take(i));
}

/// Lays the pages out below the vertical offset and keeps those that meet
/// the screen. Pages are looked at in order until the cursor reaches the
/// bottom of the screen. The cursor does not scale page heights by the zoom
/// (see `page_top`), so culling is exact for the drawn pages at zoom 1.0
/// only.
pub fn plan_pages(y_offset: i64, heights: &Vec<i64>, screen_height: i64) -> (r: FramePlan)
    requires
        heights_ok(heights@),
        0 <= screen_height <= MAX_EXTENT,
    ensures
        r.visited <= heights@.len(),
        heights@.len() > 0 ==> r.visited >= 1,
        forall|k: int| 1 <= k < r.visited ==> page_top(y_offset, heights@, k) < screen_height,
        r.visited < heights@.len() ==> page_top(y_offset, heights@, r.visited as int) >= screen_height,
        r.pages@ == placements(y_offset, heights@, screen_height, r.visited as int),
        forall|i: int|
            r.visited <= i < heights@.len() ==> !shown(y_offset, heights@, screen_height, i),
{
    let n = heights.len();
    let mut pages: Vec<Placement> = Vec::new();
    let mut top: i64 = y_offset;
    let mut acc: u64 = 0;
    let mut i: usize = 0;
    let mut stopped = false;
    while i < n
        invariant_except_break
            !stopped,
            top == page_top(y_offset, heights@, i as int),
            acc == extent(heights@.take(i as int)),
            i > 0 ==> top < screen_height,
        invariant
            n == heights@.len(),
            heights_ok(heights@),
            0 <= screen_height <= MAX_EXTENT,
            i <= n,
            forall|k: int| 1 <= k < i ==> page_top(y_offset, heights@, k) < screen_height,
            pages@ == placements(y_offset, heights@, screen_height, i as int),
        ensures
            stopped ==> i >= 1 && page_top(y_offset, heights@, i as int) >= screen_height,
            !stopped ==> i == n,
        decreases n - i,
    {
        let dy = heights[i];
        proof {
            lemma_extent_step(heights@, i as int);
            lemma_extent_grows(heights@, 0, i as int);
            assert(heights@.take(0) =~= Seq::<i64>::empty());
        }
        if top < screen_height && top + dy > 0 {
            pages.push(Placement { index: i, offset: acc });
        }
        if top >= screen_height - dy {
            i = i + 1;
            stopped = true;
            break;
        }
        top = top + dy;
        acc = acc + dy as u64;
        i = i + 1;
    }
    proof {
        if i < n {
            assert forall|j: int| i <= j < n implies !shown(y_offset, heights@, screen_height, j) by {
                lemma_extent_grows(heights@, i as int, j);
            }
        }
    }
    FramePlan { pages, visited: i }
}


/// Culling: among the first `m` pages, the placements name exactly the pages
/// that meet the screen, each once and in page order, each at the height of
/// the pages above it.
pub proof fn lemma_placements_exact(y_offset: i64, hs: Seq<i64>, screen_height: i64, m: int)
    requires
        0 <= m <= hs.len() <= usize::MAX,
    ensures
        forall|k: int|
            0 <= k < placements(y_offset, hs, screen_height, m).len() ==> {
                let p = #[trigger] placements(y_offset, hs, screen_height, m)[k];
                &&& p.index < m
                &&& shown(y_offset, hs, screen_height, p.index as int)
                &&& p.offset == extent(hs.take(p.index as int)) as u64
            },
        forall|k1: int, k2: int|
            0 <= k1 < k2 < placements(y_offset, hs, screen_height, m).len() ==> (
            #[trigger] placements(y_offset, hs, screen_height, m)[k1]).index < (
            #[trigger] placements(y_offset, hs, screen_height, m)[k2]).index,
        forall|i: int|
            0 <= i < m && #[trigger] shown(y_offset, hs, screen_height, i) ==> exists|k: int|
                0 <= k < placements(y_offset, hs, screen_height, m).len() && (
                #[trigger] placements(y_offset, hs, screen_height, m)[k]).index == i,
    decreases m,
{
    if m > 0 {
        lemma_placements_exact(y_offset, hs, screen_height, m - 1);
        let rest = placements(y_offset, hs, screen_height, m - 1);
        let ps = placements(y_offset, hs, screen_height, m);
        assert forall|i: int|
            0 <= i < m && #[trigger] shown(y_offset, hs, screen_height, i) implies exists|k: int|
                0 <= k < ps.len() && (#[trigger] ps[k]).index == i by {
            if i < m - 1 {
                let k = choose|k: int| 0 <= k < rest.len() && (#[trigger] rest[k]).index == i;
                assert(ps[k] == rest[k]);
            } else {
                assert(ps[rest.len() as int].index == i);
            }
        }
    }
}

} // verus!
