use vstd::prelude::*;
use crate::text::{before_nul, decode_utf16_lossy, utf16_lossy, wide_prefix};

verus! {

/// The point lies within the four edges of `r`: at or right of `left`, left of `right`,
/// at or below `top`, above `bottom`.
pub open spec fn in_bounds(r: Rect, x: i32, y: i32) -> bool {
    &&& r.left <= x
    &&& x < r.right
    &&& r.top <= y
    &&& y < r.bottom
}

/// Law: containment is exactly the four edge conditions; in particular a point above the
/// top edge, below the bottom edge, or left or right of the sides is never contained.
pub proof fn lemma_contains_point_is_bounds(r: Rect, x: i32, y: i32)
    ensures
        r.spec_contains_point(x, y) == in_bounds(r, x, y),
        y < r.top ==> !r.spec_contains_point(x, y),
        y >= r.bottom ==> !r.spec_contains_point(x, y),
        x < r.left ==> !r.spec_contains_point(x, y),
        x >= r.right ==> !r.spec_contains_point(x, y),
{
}

/// A monitor's bounds in virtual-screen coordinates; `right` and `bottom` are exclusive.
#[derive(Clone, Copy, Debug, PartialEq, Eq, Structural)]
pub struct Rect {
    pub left: i32,
    pub top: i32,
    pub right: i32,
    pub bottom: i32,
}

impl Rect {
    /// Whether the point lies in the rectangle: `left <= x < right` and `top <= y < bottom`.
    pub open spec fn spec_contains_point(self, x: i32, y: i32) -> bool {
        self.left <= x < self.right && self.top <= y < self.bottom
    }

    pub fn contains_point(&self, x: i32, y: i32) -> (res: bool)
        ensures
            res == self.spec_contains_point(x, y),
            res == (self.left <= x && x < self.right && self.top <= y && y < self.bottom),
            y < self.top || y >= self.bottom || x < self.left || x >= self.right ==> !res,
    {
        x >= self.left && x < self.right && y >= self.top && y < self.bottom
    }
}


/// A display monitor as the system reports it: its handle, device name and bounds.
#[derive(Clone, Debug)]
pub struct Monitor {
    pub hmonitor: isize,
    pub name: String,
    pub bounds: Rect,
}

/// `i` is the first monitor whose bounds hold the point `(x, y)`.
pub open spec fn is_first_hit(monitors: Seq<Monitor>, x: i32, y: i32, i: int) -> bool {
    &&& 0 <= i < monitors.len()
    &&& monitors[i].bounds.spec_contains_point(x, y)
    &&& forall|j: int| 0 <= j < i ==> !(#[trigger] monitors[j]).bounds.spec_contains_point(x, y)
}

/// The index of the first monitor under the cursor; `None` when the cursor position is
/// unknown or lies on no monitor.
pub open spec fn cursor_monitor_index(monitors: Seq<Monitor>, cursor: Option<(i32, i32)>) -> Option<int> {
    match cursor {
        None => None,
        Some((x, y)) => if exists|i: int| is_first_hit(monitors, x, y, i) {
            Some(choose|i: int| is_first_hit(monitors, x, y, i))
        } else {
            None
        },
    }
}

/// There is at most one first hit.
pub proof fn lemma_first_hit_unique(monitors: Seq<Monitor>, x: i32, y: i32, i: int, k: int)
    requires
        is_first_hit(monitors, x, y, i),
        is_first_hit(monitors, x, y, k),
    ensures
        i == k,
{
    if i < k {
        assert(!monitors[i].bounds.spec_contains_point(x, y));
    } else if k < i {
        assert(!monitors[k].bounds.spec_contains_point(x, y));
    }
}

/// Finds the monitor under the cursor: the first monitor, in the given order, whose
/// bounds hold `cursor`. `cursor` is `None` when the cursor position could not be read.
pub fn get_cursor_monitor_index(monitors: &[Monitor], cursor: Option<(i32, i32)>) -> (res: Option<usize>)
    ensures
        cursor is None ==> res is None,
        cursor matches Some((x, y)) ==> match res {
            Some(i) => {
                &&& i < monitors.len()
                &&& in_bounds(monitors@[i as int].bounds, x, y)
                &&& forall|j: int| 0 <= j < i ==> !in_bounds((#[trigger] monitors@[j]).bounds, x, y)
            },
            None => forall|j: int| 0 <= j < monitors.len() ==> !in_bounds((#[trigger] monitors@[j]).bounds, x, y),
        },
        match res {
            Some(i) => cursor_monitor_index(monitors@, cursor) == Some(i as int),
            None => cursor_monitor_index(monitors@, cursor) is None,
        },
{
    match cursor {
        None => None,
        Some((x, y)) => {
            let mut i: usize = 0;
            while i < monitors.len()
                invariant
                    0 <= i <= monitors.len(),
                    cursor == Some((x, y)),
                    forall|j: int| 0 <= j < i ==> !(#[trigger] monitors@[j]).bounds.spec_contains_point(x, y),
                decreases monitors.len() - i,
            {
                if monitors[i].bounds.contains_point(x, y) {
                    proof {
                        assert(is_first_hit(monitors@, x, y, i as int));
                        let k = choose|k: int| is_first_hit(monitors@, x, y, k);
                        lemma_first_hit_unique(monitors@, x, y, i as int, k);
                        assert forall|j: int| 0 <= j < i implies !in_bounds((#[trigger] monitors@[j]).bounds, x, y) by {
                            lemma_contains_point_is_bounds(monitors@[j].bounds, x, y);
                        }
                    }
                    return Some(i);
                }
                i = i + 1;
            }
            proof {
                assert forall|j: int| 0 <= j < monitors.len() implies !in_bounds((#[trigger] monitors@[j]).bounds, x, y) by {
                    lemma_contains_point_is_bounds(monitors@[j].bounds, x, y);
                }
                assert forall|k: int| !is_first_hit(monitors@, x, y, k) by {
                    if is_first_hit(monitors@, x, y, k) {
                        assert(!monitors@[k].bounds.spec_contains_point(x, y));
                    }
                }
            }
            None
        },
    }
}

/// Brightness sent to a monitor: the requested value, capped at 100.
pub open spec fn spec_clamp_brightness(brightness: u32) -> u32 {
    if brightness > 100 { 100 } else { brightness }
}

/// Caps a requested brightness to the 0-100 range that monitors accept.
pub fn clamp_brightness(brightness: u32) -> (res: u32)
    ensures
        res == spec_clamp_brightness(brightness),
        res <= 100,
{
    if brightness > 100 { 100 } else { brightness }
}

/// A monitor's device name (such as `\\.\DISPLAY1`) from the fixed-size, NUL-padded
/// UTF-16 buffer the system fills in.
pub fn device_name(sz_device: &[u16]) -> (name: String)
    ensures
        name@ == utf16_lossy(before_nul(sz_device@)),
{
    let units = wide_prefix(sz_device);
    decode_utf16_lossy(units.as_slice())
}

} // verus!
