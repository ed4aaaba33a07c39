use vstd::prelude::*;

use crate::keys::{action_of, decode, is_quit_key, Action};

verus! {

/// Fixed-point subdivisions of one pixel or one document unit.
pub const UNIT: i64 = 65536;

/// The largest zoom, in `UNIT`s: the limit of the number type, not a
/// choice. Computing a zoom multiplies a value of up to twice this bound
/// by 11, which must fit in `i64` (so this is `i64::MAX / 22`, about
/// 6.4 * 10^12 times 1.0).
pub const MAX_ZOOM: i64 = 419_244_183_493_398_900;

/// The smallest zoom that zooming out may reach (about 0.01x).
pub const MIN_ZOOM: i64 = 656;

/// The zoom factor at a zoom level, in `UNIT`s: each level up multiplies by
/// 1.1 and each level down divides by 1.1, rounding down, starting from 1.0
/// at level zero.
pub open spec fn zoom_at(level: int) -> int
    decreases (if level >= 0 { level } else { -level }),
{
    if level == 0 {
        UNIT as int
    } else if level > 0 {
        zoom_at(level - 1) * 11 / 10
    } else {
        zoom_at(level + 1) * 10 / 11
    }
}

/// Levels at or above zero zoom in; levels at or below zero zoom out.
pub proof fn lemma_zoom_sides(level: int)
    ensures
        level >= 0 ==> zoom_at(level) >= UNIT,
        level <= 0 ==> 0 <= zoom_at(level) <= UNIT,
    decreases (if level >= 0 { level } else { -level }),
{
    if level > 0 {
        lemma_zoom_sides(level - 1);
    } else if level < 0 {
        lemma_zoom_sides(level + 1);
    }
}

/// Above level zero the zoom never decreases as the level grows.
pub proof fn lemma_zoom_grows(i: int, j: int)
    requires
        0 <= i <= j,
    ensures
        zoom_at(i) <= zoom_at(j),
    decreases j - i,
{
    if i < j {
        lemma_zoom_grows(i, j - 1);
        lemma_zoom_sides(j - 1);
    }
}

/// Computes `zoom_at(level)`.
pub fn zoom_value(level: i32) -> (z: i64)
    requires
        zoom_at(level as int) <= 2 * MAX_ZOOM,
    ensures
        z == zoom_at(level as int),
{
    let mut z: i64 = UNIT;
    if level >= 0 {
        let mut i: i32 = 0;
        while i < level
            invariant
                0 <= i <= level,
                z == zoom_at(i as int),
                zoom_at(level as int) <= 2 * MAX_ZOOM,
            decreases level - i,
        {
            proof {
                lemma_zoom_grows(i as int, level as int);
                lemma_zoom_sides(i as int);
            }
            z = z * 11 / 10;
            i = i + 1;
        }
    } else {
        let mut i: i32 = 0;
        while i > level
            invariant
                level <= i <= 0,
                z == zoom_at(i as int),
            decreases i - level,
        {
            proof {
                lemma_zoom_sides(i as int);
            }
            z = z * 10 / 11;
            i = i - 1;
        }
    }
    z
}

/// Pan distance of one directional key, in pixels at zoom 1.0.
pub const PAN_STEP: i64 = 20;

/// Scroll distance of the space key, in pixels at zoom 1.0.
pub const PAGE_STEP: i64 = 200;

/// An offset brought back into the range of `i64`: offsets saturate.
pub open spec fn clamp_offset(v: int) -> i64 {
    if v > i64::MAX {
        i64::MAX
    } else if v < i64::MIN {
        i64::MIN
    } else {
        v as i64
    }
}

/// How far an action pans, as `(x, y)` in pixels at zoom 1.0.
pub open spec fn pan_steps(a: Action) -> (int, int) {
    match a {
        Action::PanLeft => (-PAN_STEP as int, 0),
        Action::PanRight => (PAN_STEP as int, 0),
        Action::PanUp => (0, -PAN_STEP as int),
        Action::PanDown => (0, PAN_STEP as int),
        Action::PageUp => (0, -PAGE_STEP as int),
        _ => (0, 0),
    }
}

/// How far an action moves the offsets `(x, y)` at a given zoom, in `UNIT`s.
pub open spec fn pan_delta(a: Action, zoom: int) -> (int, int) {
    (pan_steps(a).0 * zoom, pan_steps(a).1 * zoom)
}

/// Where the pages are seen from: the screen position of the first page's
/// top-left corner, in `UNIT`s of a pixel, and a zoom level (see `zoom_at`).
#[derive(Clone, Copy, Debug, PartialEq, Eq, Structural)]
pub struct Viewport {
    pub x_offset: i64,
    pub y_offset: i64,
    pub zoom_level: i32,
}

impl Viewport {
    /// The zoom stays between `MIN_ZOOM` and `MAX_ZOOM`, so it stays positive.
    pub open spec fn wf(self) -> bool {
        MIN_ZOOM <= zoom_at(self.zoom_level as int) <= MAX_ZOOM
    }

    /// The zoom factor, in `UNIT`s.
    pub open spec fn zoom_spec(self) -> int {
        zoom_at(self.zoom_level as int)
    }

    /// One level up stays within `MAX_ZOOM`, the limit of `i64`.
    pub open spec fn can_zoom_in(self) -> bool {
        self.zoom_level < i32::MAX && zoom_at(self.zoom_level + 1) <= MAX_ZOOM
    }

    /// One level down stays within `MIN_ZOOM`.
    pub open spec fn can_zoom_out(self) -> bool {
        self.zoom_level > i32::MIN && zoom_at(self.zoom_level - 1) >= MIN_ZOOM
    }

    /// The viewport after one action. A zoom step that would leave the zoom
    /// bounds (`MIN_ZOOM`, which keeps the zoom positive, or `MAX_ZOOM`, the
    /// limit of `i64`) is ignored; pans move by the step times the current zoom.
    pub open spec fn after(self, a: Action) -> Viewport {
        match a {
            Action::ZoomIn => if self.can_zoom_in() {
                Viewport { zoom_level: (self.zoom_level + 1) as i32, ..self }
            } else {
                self
            },
            Action::ZoomOut => if self.can_zoom_out() {
                Viewport { zoom_level: (self.zoom_level - 1) as i32, ..self }
            } else {
                self
            },
            _ => self.panned(pan_steps(a).0, pan_steps(a).1),
        }
    }

    /// The viewport moved by `(dx, dy)` pixels at zoom 1.0, scaled by the
    /// zoom so that a step looks the same at every zoom.
    pub open spec fn panned(self, dx: int, dy: int) -> Viewport {
        Viewport {
            x_offset: clamp_offset(self.x_offset + dx * self.zoom_spec()),
            y_offset: clamp_offset(self.y_offset + dy * self.zoom_spec()),
            ..self
        }
    }

    /// A viewport at zoom 1.0 with the given offsets.
    pub fn new(x_offset: i64, y_offset: i64) -> (v: Viewport)
        ensures
            v == (Viewport { x_offset, y_offset, zoom_level: 0 }),
            v.wf(),
    {
        Viewport { x_offset, y_offset, zoom_level: 0 }
    }

    /// The zoom factor, in `UNIT`s.
    pub fn zoom(&self) -> (z: i64)
        requires
            self.wf(),
        ensures
            z == self.zoom_spec(),
            MIN_ZOOM <= z <= MAX_ZOOM,
    {
        zoom_value(self.zoom_level)
    }

    /// Applies one action.
    pub fn apply(&mut self, a: Action)
        requires
            old(self).wf(),
        ensures
            *final(self) == old(self).after(a),
            final(self).wf(),
    {
        proof {
            lemma_after_wf(*self, a);
        }
        match a {
            Action::ZoomIn => self.zoom_in(),
            Action::ZoomOut => self.zoom_out(),
            Action::PanLeft => self.pan(-PAN_STEP, 0),
            Action::PanRight => self.pan(PAN_STEP, 0),
            Action::PanUp => self.pan(0, -PAN_STEP),
            Action::PanDown => self.pan(0, PAN_STEP),
            Action::PageUp => self.pan(0, -PAGE_STEP),
            _ => {},
        }
    }

    /// Moves the offsets by `(dx, dy)` pixels at zoom 1.0, each scaled by the
    /// current zoom; offsets saturate at the bounds of `i64`.
    pub fn pan(&mut self, dx: i64, dy: i64)
        requires
            old(self).wf(),
        ensures
            *final(self) == old(self).panned(dx as int, dy as int),
            final(self).wf(),
    {
        let z = self.zoom();
        proof {
            lemma_scaled_step_bound(dx as int, z as int);
            lemma_scaled_step_bound(dy as int, z as int);
        }
        self.x_offset = shift(self.x_offset, dx as i128 * z as i128);
        self.y_offset = shift(self.y_offset, dy as i128 * z as i128);
    }

    /// Multiplies the zoom by 1.1: one level up, unless the new zoom would
    /// not fit the number type (past `MAX_ZOOM`), in which case nothing
    /// changes.
    pub fn zoom_in(&mut self)
        requires
            old(self).wf(),
        ensures
            *final(self) == old(self).after(Action::ZoomIn),
            final(self).wf(),
    {
        proof {
            lemma_after_wf(*self, Action::ZoomIn);
        }
        let level = self.zoom_level;
        if level < i32::MAX {
            proof {
                lemma_zoom_step_bound(level as int);
            }
            if zoom_value(level + 1) <= MAX_ZOOM {
                self.zoom_level = level + 1;
            }
        }
    }

    /// Divides the zoom by 1.1: one level down, unless that passes
    /// `MIN_ZOOM`, in which case nothing changes.
    pub fn zoom_out(&mut self)
        requires
            old(self).wf(),
        ensures
            *final(self) == old(self).after(Action::ZoomOut),
            final(self).wf(),
    {
        proof {
            lemma_after_wf(*self, Action::ZoomOut);
        }
        let level = self.zoom_level;
        if level > i32::MIN {
            proof {
                lemma_zoom_step_bound((level - 1) as int);
            }
            if zoom_value(level - 1) >= MIN_ZOOM {
                self.zoom_level = level - 1;
            }
        }
    }
}

/// Adds with saturation at the bounds of `i64`.
fn shift(x: i64, d: i128) -> (r: i64)
    requires
        -0x400_0000_0000_0000_0000_0000_0000_0000 <= d <= 0x400_0000_0000_0000_0000_0000_0000_0000,
    ensures
        r == clamp_offset(x + d),
{
    let sum = x as i128 + d;
    if sum > i64::MAX as i128 {
        i64::MAX
    } else if sum < i64::MIN as i128 {
        i64::MIN
    } else {
        sum as i64
    }
}

/// A pan step of any `i64` length at a bounded zoom fits well inside `i128`.
proof fn lemma_scaled_step_bound(d: int, z: int)
    requires
        i64::MIN <= d <= i64::MAX,
        0 < z <= MAX_ZOOM,
    ensures
        -0x400_0000_0000_0000_0000_0000_0000_0000 <= d * z <= 0x400_0000_0000_0000_0000_0000_0000_0000,
{
    assert(-0x400_0000_0000_0000_0000_0000_0000_0000 <= d * z <= 0x400_0000_0000_0000_0000_0000_0000_0000)
        by (nonlinear_arith)
        requires
            -0x8000_0000_0000_0000 <= d <= 0x8000_0000_0000_0000,
            0 < z <= 0x800_0000_0000_0000,
    ;
}

/// An action moves the offsets by its `pan_delta` at the current zoom.
proof fn lemma_after_offsets(v: Viewport, a: Action)
    ensures
        v.after(a).x_offset == clamp_offset(v.x_offset + pan_delta(a, v.zoom_spec()).0),
        v.after(a).y_offset == clamp_offset(v.y_offset + pan_delta(a, v.zoom_spec()).1),
{
    let z = v.zoom_spec();
    match a {
        Action::ZoomIn | Action::ZoomOut | Action::Quit | Action::Unknown(_) => {
            assert(pan_delta(a, z) == (0int, 0int));
        },
        _ => {},
    }
}

/// Neighbouring levels stay within twice the zoom bound of a well-formed level.
proof fn lemma_zoom_step_bound(level: int)
    requires
        zoom_at(level) <= MAX_ZOOM || zoom_at(level + 1) <= MAX_ZOOM,
    ensures
        zoom_at(level) <= 2 * MAX_ZOOM,
        zoom_at(level + 1) <= 2 * MAX_ZOOM,
{
    lemma_zoom_sides(level);
    lemma_zoom_sides(level + 1);
    if level >= 0 {
        lemma_zoom_grows(level, level + 1);
        let z = zoom_at(level);
        assert(z * 11 / 10 <= 2 * MAX_ZOOM) by (nonlinear_arith)
            requires
                z <= MAX_ZOOM,
        ;
    }
}

/// Every action keeps a viewport well formed.
pub proof fn lemma_after_wf(v: Viewport, a: Action)
    requires
        v.wf(),
    ensures
        v.after(a).wf(),
{
    let l = v.zoom_level as int;
    match a {
        Action::ZoomIn => {
            if v.can_zoom_in() {
                lemma_zoom_sides(l + 1);
                if l < 0 {
                    let z = zoom_at(l + 1);
                    assert(z * 10 / 11 <= z) by (nonlinear_arith)
                        requires
                            z >= 0,
                    ;
                }
            }
        },
        Action::ZoomOut => {
            if v.can_zoom_out() {
                lemma_zoom_sides(l - 1);
                if l > 0 {
                    lemma_zoom_grows(l - 1, l);
                }
            }
        },
        _ => {},
    }
}


/// The viewport after the actions of `keys`, in order, quit keys included
/// (they change nothing).
pub open spec fn after_keys(v: Viewport, keys: Seq<u8>) -> Viewport
    decreases keys.len(),
{
    if keys.len() == 0 {
        v
    } else {
        after_keys(v, keys.drop_last()).after(action_of(keys.last()))
    }
}

/// The bytes of `keys` that have no action, in order.
pub open spec fn unknown_keys(keys: Seq<u8>) -> Seq<u8>
    decreases keys.len(),
{
    if keys.len() == 0 {
        Seq::empty()
    } else if action_of(keys.last()) is Unknown {
        unknown_keys(keys.drop_last()).push(keys.last())
    } else {
        unknown_keys(keys.drop_last())
    }
}

/// The sum of the offset changes `(x, y)` of the actions of `keys`, each at
/// the zoom in force when its key comes.
pub open spec fn pan_total(v: Viewport, keys: Seq<u8>) -> (int, int)
    decreases keys.len(),
{
    if keys.len() == 0 {
        (0, 0)
    } else {
        let rest = pan_total(v, keys.drop_last());
        let d = pan_delta(action_of(keys.last()), after_keys(v, keys.drop_last()).zoom_spec());
        (rest.0 + d.0, rest.1 + d.1)
    }
}

/// What one batch of key bytes did.
pub struct KeyBatch {
    /// A quit key came, and the viewer stops.
    pub quit: bool,
    /// How many keys were applied: those before the first quit key.
    pub applied: usize,
    /// The applied keys that have no meaning, in order, to be reported.
    pub unknown: Vec<u8>,
}

/// A batch stops at its first quit key: the keys before it are applied in
/// order and the rest are not.
pub open spec fn batch_result(v: Viewport, keys: Seq<u8>, r: KeyBatch, v2: Viewport) -> bool {
    &&& r.applied <= keys.len()
    &&& forall|j: int| 0 <= j < r.applied ==> !is_quit_key(#[trigger] keys[j])
    &&& r.quit == (r.applied < keys.len())
    &&& r.quit ==> is_quit_key(keys[r.applied as int])
    &&& v2 == after_keys(v, keys.take(r.applied as int))
    &&& r.unknown@ == unknown_keys(keys.take(r.applied as int))
}

/// After any number of actions a viewport is still well formed.
pub proof fn lemma_after_keys_wf(v: Viewport, keys: Seq<u8>)
    requires
        v.wf(),
    ensures
        after_keys(v, keys).wf(),
    decreases keys.len(),
{
    if keys.len() > 0 {
        lemma_after_keys_wf(v, keys.drop_last());
        lemma_after_wf(after_keys(v, keys.drop_last()), action_of(keys.last()));
    }
}

impl Viewport {
    /// Applies the key bytes of one read in order, up to the first quit key.
    pub fn apply_keys(&mut self, keys: &[u8]) -> (r: KeyBatch)
        requires
            old(self).wf(),
        ensures
            batch_result(*old(self), keys@, r, *final(self)),
            final(self).wf(),
    {
        let ghost v0 = *self;
        let mut unknown: Vec<u8> = Vec::new();
        let mut i: usize = 0;
        while i < keys.len()
            invariant
                i <= keys@.len(),
                v0.wf(),
                v0 == *old(self),
                *self == after_keys(v0, keys@.take(i as int)),
                self.wf(),
                unknown@ == unknown_keys(keys@.take(i as int)),
                forall|j: int| 0 <= j < i ==> !is_quit_key(#[trigger] keys@[j]),
            decreases keys@.len() - i,
        {
            let a = decode(keys[i]);
            if let Action::Quit = a {
                proof {
                    assert(is_quit_key(keys@[i as int]));
                }
                return KeyBatch { quit: true, applied: i, unknown };
            }
            proof {
                let t = keys@.take(i + 1);
                assert(t.drop_last() == keys@.take(i as int));
                assert(t.last() == keys@[i as int]);
            }
            self.apply(a);
            if let Action::Unknown(k) = a {
                unknown.push(k);
            }
            i = i + 1;
        }
        proof {
            assert(keys@.take(i as int) == keys@);
        }
        KeyBatch { quit: false, applied: i, unknown }
    }
}

/// Pans add up: after a batch of keys, each offset has moved by the sum of
/// the pan steps of its keys, each step scaled by the zoom in force when its
/// key came (so a zoom key between pans changes the later steps), as long as
/// no running offset leaves the range of `i64`.
pub proof fn lemma_pan_sum(v: Viewport, keys: Seq<u8>)
    requires
        v.wf(),
        forall|i: int|
            0 <= i <= keys.len() ==> i64::MIN <= v.x_offset + (#[trigger] pan_total(v, keys.take(i))).0 <= i64::MAX
                && i64::MIN <= v.y_offset + pan_total(v, keys.take(i)).1 <= i64::MAX,
    ensures
        after_keys(v, keys).x_offset == v.x_offset + pan_total(v, keys).0,
        after_keys(v, keys).y_offset == v.y_offset + pan_total(v, keys).1,
    decreases keys.len(),
{
    assert(keys.take(keys.len() as int) == keys);
    if keys.len() > 0 {
        let rest = keys.drop_last();
        assert forall|i: int| 0 <= i <= rest.len() implies rest.take(i) == keys.take(i) by {
            assert(rest.take(i) =~= keys.take(i));
        }
        lemma_pan_sum(v, rest);
        lemma_after_offsets(after_keys(v, rest), action_of(keys.last()));
    }
}

/// The viewport after `n` zoom-in actions.
pub open spec fn zoomed_in(v: Viewport, n: nat) -> Viewport
    decreases n,
{
    if n == 0 {
        v
    } else {
        zoomed_in(v, (n - 1) as nat).after(Action::ZoomIn)
    }
}

/// The viewport after `n` zoom-out actions.
pub open spec fn zoomed_out(v: Viewport, n: nat) -> Viewport
    decreases n,
{
    if n == 0 {
        v
    } else {
        zoomed_out(v, (n - 1) as nat).after(Action::ZoomOut)
    }
}

proof fn lemma_zoomed_in_wf(v: Viewport, n: nat)
    requires
        v.wf(),
    ensures
        zoomed_in(v, n).wf(),
    decreases n,
{
    if n > 0 {
        lemma_zoomed_in_wf(v, (n - 1) as nat);
        lemma_after_wf(zoomed_in(v, (n - 1) as nat), Action::ZoomIn);
    }
}

/// Zooming in `n` times and then out `n` times gives back the viewport
/// exactly, provided no zoom-in step was stopped at `MAX_ZOOM`, where the
/// zoom would no longer fit in `i64`.
pub proof fn lemma_zoom_round_trip(v: Viewport, n: nat)
    requires
        v.wf(),
        forall|k: nat| k < n ==> (#[trigger] zoomed_in(v, k)).can_zoom_in(),
    ensures
        zoomed_out(zoomed_in(v, n), n) == v,
{
    lemma_zoom_undo(v, n, n);
}

proof fn lemma_zoom_undo(v: Viewport, n: nat, k: nat)
    requires
        v.wf(),
        k <= n,
        forall|j: nat| j < n ==> (#[trigger] zoomed_in(v, j)).can_zoom_in(),
    ensures
        zoomed_out(zoomed_in(v, n), k) == zoomed_in(v, (n - k) as nat),
    decreases k,
{
    if k > 0 {
        lemma_zoom_undo(v, n, (k - 1) as nat);
        let j = (n - k) as nat;
        lemma_zoomed_in_wf(v, j);
        assert(zoomed_in(v, j).can_zoom_in());
        assert(zoomed_in(v, (j + 1) as nat) == zoomed_in(v, j).after(Action::ZoomIn));
    }
}

} // verus!
