//! Turning pointer presses into click events.
use vstd::prelude::*;

use crate::geometry::Point;

verus! {

/// A click at a world-space point, by the button that made it.
#[derive(Clone, Copy, Debug, PartialEq, Eq, Structural)]
pub enum ClickEvent {
    /// The primary button: paint.
    LeftClick(Point),
    /// The secondary button: inspect.
    RightClick(Point),
}

/// The click events of one frame: `cursor` is the pointer in world space,
/// or `None` when it is outside the viewport or no camera is active.
pub open spec fn clicks_spec(left: bool, right: bool, cursor: Option<Point>) -> Seq<ClickEvent> {
    match cursor {
        Some(p) => {
            let l = if left { seq![ClickEvent::LeftClick(p)] } else { Seq::empty() };
            let r = if right { seq![ClickEvent::RightClick(p)] } else { Seq::empty() };
            l + r
        },
        None => Seq::empty(),
    }
}

/// The click events of one frame, given which buttons were just pressed:
/// at most one per button, the left one first, none without a cursor.
pub fn translate_clicks(left: bool, right: bool, cursor: Option<Point>) -> (r: Vec<ClickEvent>)
    ensures
        r@ == clicks_spec(left, right, cursor),
{
    let mut r: Vec<ClickEvent> = Vec::new();
    if let Some(p) = cursor {
        if left {
            r.push(ClickEvent::LeftClick(p));
        }
        if right {
            r.push(ClickEvent::RightClick(p));
        }
    }
    proof {
        assert(r@ =~= clicks_spec(left, right, cursor));
    }
    r
}

} // verus!
