//! Atlas packing: assigns every frame a rectangle in one packed texture.
//!
//! Frames are laid out left to right on shelves; a frame that does not fit
//! on the current shelf starts a new one below it. The packer returns an
//! explicit frame-to-slot mapping, one entry per source frame, and fails
//! when a frame is zero-sized or the layout would exceed the configured
//! maximum atlas dimension.

use vstd::prelude::*;

verus! {

/// A rectangle assigned to one frame inside the packed atlas.
#[derive(Clone, Copy, Debug, PartialEq, Eq, Structural)]
pub struct Slot {
    pub x: u32,
    pub y: u32,
    pub width: u32,
    pub height: u32,
}

/// Why an atlas could not be built.
#[derive(Clone, Copy, Debug, PartialEq, Eq, Structural)]
pub enum AtlasBuildError {
    /// An input frame has a zero width or height.
    DegenerateFrame,
    /// The frames do not fit within the maximum atlas dimension.
    CapacityExceeded,
}

/// The result of packing: the used extent of the atlas, the slot rectangles,
/// and for each source frame the index of its slot.
#[derive(Clone, Debug)]
pub struct AtlasLayout {
    pub width: u32,
    pub height: u32,
    pub slots: Vec<Slot>,
    pub frame_to_slot: Vec<usize>,
}

pub open spec fn spec_max(a: int, b: int) -> int {
    if a >= b {
        a
    } else {
        b
    }
}

/// Where a frame of width `w` is placed given the shelf state
/// `(cursor x, shelf top y, shelf height)`: at the cursor if it fits on the
/// current shelf, else at the left edge of a fresh shelf below it.
pub open spec fn shelf_pos(st: (int, int, int), w: int, max: int) -> (int, int) {
    if st.0 + w > max {
        (0, st.1 + st.2)
    } else {
        (st.0, st.1)
    }
}

/// The shelf state after placing a frame of size `w` by `h`.
pub open spec fn shelf_next(st: (int, int, int), w: int, h: int, max: int) -> (int, int, int) {
    if st.0 + w > max {
        (w, st.1 + st.2, h)
    } else {
        (st.0 + w, st.1, spec_max(st.2, h))
    }
}

/// The shelf state after placing the first `i` frames.
pub open spec fn shelf_state(sizes: Seq<(u32, u32)>, i: int, max: int) -> (int, int, int)
    decreases i,
{
    if i <= 0 {
        (0, 0, 0)
    } else {
        shelf_next(
            shelf_state(sizes, i - 1, max),
            sizes[i - 1].0 as int,
            sizes[i - 1].1 as int,
            max,
        )
    }
}

/// The position assigned to frame `i`.
pub open spec fn slot_pos(sizes: Seq<(u32, u32)>, i: int, max: int) -> (int, int) {
    shelf_pos(shelf_state(sizes, i, max), sizes[i].0 as int, max)
}

/// Frame `i`'s rectangle lies within the square of side `max`.
pub open spec fn frame_fits(sizes: Seq<(u32, u32)>, i: int, max: int) -> bool {
    &&& slot_pos(sizes, i, max).0 + sizes[i].0 <= max
    &&& slot_pos(sizes, i, max).1 + sizes[i].1 <= max
}

/// Every frame's rectangle lies within the square of side `max`.
pub open spec fn all_fit(sizes: Seq<(u32, u32)>, max: int) -> bool {
    forall|i: int| 0 <= i < sizes.len() ==> frame_fits(sizes, i, max)
}

/// Some frame has a zero width or height.
pub open spec fn has_degenerate(sizes: Seq<(u32, u32)>) -> bool {
    exists|i: int| 0 <= i < sizes.len() && (sizes[i].0 == 0 || sizes[i].1 == 0)
}

/// The slot vector matches the shelf layout of `sizes` exactly.
pub open spec fn slots_match(slots: Seq<Slot>, sizes: Seq<(u32, u32)>, max: int) -> bool {
    &&& slots.len() == sizes.len()
    &&& forall|i: int| 0 <= i < sizes.len() ==> (slots[i].x == slot_pos(sizes, i, max).0
        && slots[i].y == slot_pos(sizes, i, max).1 && slots[i].width == sizes[i].0
        && slots[i].height == sizes[i].1)
}

/// Everything a successful packing promises: one slot per frame at the
/// shelf position, the identity frame-to-slot mapping, and a used extent
/// within the maximum dimension that contains every slot.
pub open spec fn layout_ok(l: AtlasLayout, sizes: Seq<(u32, u32)>, max: int) -> bool {
    &&& slots_match(l.slots@, sizes, max)
    &&& l.frame_to_slot@.len() == sizes.len()
    &&& (forall|i: int| 0 <= i < sizes.len() ==> #[trigger] l.frame_to_slot@[i] == i)
    &&& l.width <= max
    &&& l.height <= max
    &&& (forall|i: int|
        0 <= i < sizes.len() ==> ((#[trigger] l.slots@[i]).x + l.slots@[i].width <= l.width
            && l.slots@[i].y + l.slots@[i].height <= l.height))
}

/// Packs `sizes` into a square atlas of side at most `max_dim`.
///
/// Fails with `DegenerateFrame` exactly when some frame is zero-sized, and
/// otherwise with `CapacityExceeded` exactly when the shelf layout does not
/// fit. On success the layout holds one slot per frame, in frame order, at
/// the shelf position, and the mapping sends frame `i` to slot `i`; every
/// slot lies inside the used extent, which is itself within `max_dim`.
pub fn pack(sizes: &Vec<(u32, u32)>, max_dim: u32) -> (r: Result<AtlasLayout, AtlasBuildError>)
    ensures
        (r == Err::<AtlasLayout, AtlasBuildError>(AtlasBuildError::DegenerateFrame))
            <==> has_degenerate(sizes@),
        !has_degenerate(sizes@) ==> ((r == Err::<AtlasLayout, AtlasBuildError>(
            AtlasBuildError::CapacityExceeded,
        )) <==> !all_fit(sizes@, max_dim as int)),
        r is Ok <==> (!has_degenerate(sizes@) && all_fit(sizes@, max_dim as int)),
        r matches Ok(l) ==> layout_ok(l, sizes@, max_dim as int),
{
    let n = sizes.len();
    let mut k: usize = 0;
    while k < n
        invariant
            k <= n,
            n == sizes@.len(),
            forall|j: int| 0 <= j < k ==> (sizes@[j].0 != 0 && sizes@[j].1 != 0),
        decreases n - k,
    {
        let (w, h) = sizes[k];
        if w == 0 || h == 0 {
            return Err(AtlasBuildError::DegenerateFrame);
        }
        k = k + 1;
    }

    let max = max_dim as u64;
    let mut x: u32 = 0;
    let mut y: u32 = 0;
    let mut row_h: u32 = 0;
    let mut used_w: u32 = 0;
    let mut used_h: u32 = 0;
    let mut slots: Vec<Slot> = Vec::new();
    let mut frame_to_slot: Vec<usize> = Vec::new();
    let mut i: usize = 0;
    while i < n
        invariant
            i <= n,
            n == sizes@.len(),
            max == max_dim as u64,
            !has_degenerate(sizes@),
            (x as int, y as int, row_h as int) == shelf_state(sizes@, i as int, max_dim as int),
            x <= max_dim && y <= max_dim && row_h <= max_dim,
            used_w <= max_dim && used_h <= max_dim,
            forall|j: int| 0 <= j < i ==> frame_fits(sizes@, j, max_dim as int),
            slots@.len() == i,
            frame_to_slot@.len() == i,
            forall|j: int| 0 <= j < i ==> frame_to_slot@[j] == j,
            forall|j: int| 0 <= j < i ==> (slots@[j].x == slot_pos(sizes@, j, max_dim as int).0
                && slots@[j].y == slot_pos(sizes@, j, max_dim as int).1
                && slots@[j].width == sizes@[j].0 && slots@[j].height == sizes@[j].1),
            forall|j: int| 0 <= j < i ==> (slots@[j].x + slots@[j].width <= used_w
                && slots@[j].y + slots@[j].height <= used_h),
        decreases n - i,
    {
        let (w, h) = sizes[i];
        let (px, py): (u32, u32) = if x as u64 + w as u64 > max {
            // start a new shelf below the current one
            if y as u64 + row_h as u64 > max {
                proof {
                    assert(slot_pos(sizes@, i as int, max_dim as int) == (
                        0int,
                        y as int + row_h as int,
                    ));
                    assert(!frame_fits(sizes@, i as int, max_dim as int));
                }
                return Err(AtlasBuildError::CapacityExceeded);
            }
            (0, y + row_h)
        } else {
            (x, y)
        };
        if px as u64 + w as u64 > max || py as u64 + h as u64 > max {
            proof {
                assert(slot_pos(sizes@, i as int, max_dim as int) == (px as int, py as int));
                assert(!frame_fits(sizes@, i as int, max_dim as int));
            }
            return Err(AtlasBuildError::CapacityExceeded);
        }
        let nx = px + w;
        let ny = py + h;
        if x as u64 + w as u64 > max {
            x = nx;
            y = py;
            row_h = h;
        } else {
            x = nx;
            row_h = if row_h >= h {
                row_h
            } else {
                h
            };
        }
        if nx > used_w {
            used_w = nx;
        }
        if ny > used_h {
            used_h = ny;
        }
        slots.push(Slot { x: px, y: py, width: w, height: h });
        frame_to_slot.push(i);
        i = i + 1;
    }
    Ok(AtlasLayout { width: used_w, height: used_h, slots, frame_to_slot })
}

/// Slot `j` (already placed) is behind the shelf cursor after the first `i`
/// placements: either fully above the current shelf, or on it and to the
/// left of the cursor, no taller than the shelf.
spec fn behind_cursor(sizes: Seq<(u32, u32)>, i: int, j: int, max: int) -> bool {
    let st = shelf_state(sizes, i, max);
    let p = slot_pos(sizes, j, max);
    ||| p.1 + sizes[j].1 <= st.1
    ||| (p.1 == st.1 && p.0 + sizes[j].0 <= st.0 && sizes[j].1 <= st.2)
}

proof fn lemma_state_nonneg(sizes: Seq<(u32, u32)>, i: int, max: int)
    ensures
        shelf_state(sizes, i, max).0 >= 0,
        shelf_state(sizes, i, max).1 >= 0,
        shelf_state(sizes, i, max).2 >= 0,
    decreases i,
{
    if i > 0 {
        lemma_state_nonneg(sizes, i - 1, max);
    }
}

proof fn lemma_behind_cursor(sizes: Seq<(u32, u32)>, i: int, max: int)
    requires
        0 <= i <= sizes.len(),
    ensures
        forall|j: int| 0 <= j < i ==> #[trigger] behind_cursor(sizes, i, j, max),
    decreases i,
{
    if i > 0 {
        lemma_behind_cursor(sizes, i - 1, max);
        lemma_state_nonneg(sizes, i - 1, max);
        assert forall|j: int| 0 <= j < i implies #[trigger] behind_cursor(sizes, i, j, max) by {
            if j < i - 1 {
                assert(behind_cursor(sizes, i - 1, j, max));
            }
        }
    }
}

/// The two rectangles do not overlap: one ends before the other begins,
/// horizontally or vertically.
pub open spec fn slots_disjoint(a: Slot, b: Slot) -> bool {
    ||| a.x + a.width <= b.x
    ||| b.x + b.width <= a.x
    ||| a.y + a.height <= b.y
    ||| b.y + b.height <= a.y
}

/// Law: in a packed layout no two slots overlap; every frame gets its own
/// region of the atlas.
pub proof fn lemma_layout_slots_disjoint(
    l: AtlasLayout,
    sizes: Seq<(u32, u32)>,
    max: int,
    i: int,
    j: int,
)
    requires
        layout_ok(l, sizes, max),
        0 <= i < j < sizes.len(),
    ensures
        slots_disjoint(l.slots@[i], l.slots@[j]),
{
    lemma_behind_cursor(sizes, j, max);
    lemma_state_nonneg(sizes, j, max);
    assert(behind_cursor(sizes, j, i, max));
}

} // verus!
