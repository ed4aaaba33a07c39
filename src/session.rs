use vstd::prelude::*;

use crate::frame::Geometry;
use crate::layout::{heights_ok, page_top, placements, plan_pages, shown, FramePlan, MAX_EXTENT};
use crate::viewport::{batch_result, KeyBatch, Viewport, UNIT};

verus! {

/// The tallest screen, in pixels, that the viewer lays pages out for.
pub const MAX_SCREEN_HEIGHT: usize = 0x8000_0000;

/// `v / 4`, rounded toward negative infinity.
pub open spec fn quarter_floor(v: int) -> int {
    v / 4
}

/// The first horizontal offset: a quarter of twice the screen height less
/// the first page's width, so that a half-width first page sits centred on
/// a square of the screen's height (in `UNIT`s; width zero without pages).
pub open spec fn initial_x_offset(screen_height: int, first_width: int) -> int {
    quarter_floor(2 * screen_height * UNIT - first_width)
}

/// The viewer between frames: where the pages are seen from, their heights,
/// the screen, and whether it still runs.
pub struct Viewer {
    pub viewport: Viewport,
    pub page_heights: Vec<i64>,
    pub screen: Geometry,
    pub running: bool,
}

impl Viewer {
    pub open spec fn wf(&self) -> bool {
        &&& self.viewport.wf()
        &&& heights_ok(self.page_heights@)
        &&& self.screen.height <= MAX_SCREEN_HEIGHT
    }

    /// The screen height in fixed-point units.
    pub open spec fn screen_extent(&self) -> i64 {
        (self.screen.height * UNIT) as i64
    }

    /// A running viewer at zoom 1.0, the vertical offset at zero, and the
    /// horizontal offset from the screen height and the first page's width
    /// (`UNIT`s of a document unit, or zero when there is no page).
    pub fn new(screen: Geometry, first_width: i64, page_heights: Vec<i64>) -> (r: Viewer)
        requires
            heights_ok(page_heights@),
            screen.height <= MAX_SCREEN_HEIGHT,
            0 <= first_width <= MAX_EXTENT,
        ensures
            r.wf(),
            r.running,
            r.screen == screen,
            r.page_heights@ == page_heights@,
            r.viewport == (Viewport {
                x_offset: initial_x_offset(screen.height as int, first_width as int) as i64,
                y_offset: 0,
                zoom_level: 0,
            }),
    {
        let v = 2 * (screen.height as i64) * UNIT - first_width;
        let x = if v >= 0 {
            v / 4
        } else {
            -((-v + 3) / 4)
        };
        Viewer { viewport: Viewport::new(x, 0), page_heights, screen, running: true }
    }

    /// The pages of the next frame.
    pub fn plan(&self) -> (r: FramePlan)
        requires
            self.wf(),
        ensures
            r.visited <= self.page_heights@.len(),
            self.page_heights@.len() > 0 ==> r.visited >= 1,
            forall|k: int|
                1 <= k < r.visited ==> page_top(self.viewport.y_offset, self.page_heights@, k)
                    < self.screen_extent(),
            r.visited < self.page_heights@.len() ==> page_top(
                self.viewport.y_offset,
                self.page_heights@,
                r.visited as int,
            ) >= self.screen_extent(),
            r.pages@ == placements(
                self.viewport.y_offset,
                self.page_heights@,
                self.screen_extent(),
                r.visited as int,
            ),
            forall|i: int|
                r.visited <= i < self.page_heights@.len() ==> !shown(
                    self.viewport.y_offset,
                    self.page_heights@,
                    self.screen_extent(),
                    i,
                ),
    {
        plan_pages(self.viewport.y_offset, &self.page_heights, (self.screen.height as i64) * UNIT)
    }

    /// Applies the keys of one read; a quit key stops the viewer.
    pub fn handle_keys(&mut self, keys: &[u8]) -> (r: KeyBatch)
        requires
            old(self).wf(),
        ensures
            final(self).wf(),
            batch_result(old(self).viewport, keys@, r, final(self).viewport),
            final(self).running == (old(self).running && !r.quit),
            final(self).page_heights@ == old(self).page_heights@,
            final(self).screen == old(self).screen,
    {
        let r = self.viewport.apply_keys(keys);
        if r.quit {
            self.running = false;
        }
        r
    }
}

} // verus!
