//! Where a frameless window is resized by its edges and corners.
use vstd::prelude::*;

verus! {

/// The side or corner that a window is resized by.
#[derive(Clone, Copy, Debug, PartialEq, Eq, Structural)]
pub enum ResizeDirection {
    North,
    South,
    East,
    West,
    NorthEast,
    NorthWest,
    SouthEast,
    SouthWest,
}

/// A window, in the same units as the pointer.
#[derive(Clone, Copy, Debug, PartialEq, Eq, Structural)]
pub struct WindowRect {
    pub left: i32,
    pub top: i32,
    pub right: i32,
    pub bottom: i32,
}

/// The direction for a pointer at these distances from the left, right, upper and lower
/// edge: along an edge its own, near the end of an edge the corner's.
pub open spec fn direction(l: int, r: int, t: int, b: int, edge: int, corner: int) -> Option<
    ResizeDirection,
> {
    if l < 0 || r < 0 || t < 0 || b < 0 {
        None
    } else if (t <= edge && l <= corner) || (l <= edge && t <= corner) {
        Some(ResizeDirection::NorthWest)
    } else if (t <= edge && r <= corner) || (r <= edge && t <= corner) {
        Some(ResizeDirection::NorthEast)
    } else if (b <= edge && l <= corner) || (l <= edge && b <= corner) {
        Some(ResizeDirection::SouthWest)
    } else if (b <= edge && r <= corner) || (r <= edge && b <= corner) {
        Some(ResizeDirection::SouthEast)
    } else if t <= edge {
        Some(ResizeDirection::North)
    } else if b <= edge {
        Some(ResizeDirection::South)
    } else if l <= edge {
        Some(ResizeDirection::West)
    } else if r <= edge {
        Some(ResizeDirection::East)
    } else {
        None
    }
}

/// The direction that a press at a point resizes a window in. `edge` is how wide an edge
/// is, `corner` how far a corner reaches along it.
pub fn resize_dir_at(x: i32, y: i32, w: &WindowRect, edge: i32, corner: i32) -> (d: Option<
    ResizeDirection,
>)
    ensures
        d == direction(
            x - w.left,
            w.right - x,
            y - w.top,
            w.bottom - y,
            edge as int,
            corner as int,
        ),
{
    let l: i64 = x as i64 - w.left as i64;
    let r: i64 = w.right as i64 - x as i64;
    let t: i64 = y as i64 - w.top as i64;
    let b: i64 = w.bottom as i64 - y as i64;
    let e: i64 = edge as i64;
    let c: i64 = corner as i64;
    if l < 0 || r < 0 || t < 0 || b < 0 {
        None
    } else if (t <= e && l <= c) || (l <= e && t <= c) {
        Some(ResizeDirection::NorthWest)
    } else if (t <= e && r <= c) || (r <= e && t <= c) {
        Some(ResizeDirection::NorthEast)
    } else if (b <= e && l <= c) || (l <= e && b <= c) {
        Some(ResizeDirection::SouthWest)
    } else if (b <= e && r <= c) || (r <= e && b <= c) {
        Some(ResizeDirection::SouthEast)
    } else if t <= e {
        Some(ResizeDirection::North)
    } else if b <= e {
        Some(ResizeDirection::South)
    } else if l <= e {
        Some(ResizeDirection::West)
    } else if r <= e {
        Some(ResizeDirection::East)
    } else {
        None
    }
}

/// The interior is never a resize zone, and neither is the outside.
pub proof fn law_only_the_border_resizes(l: int, r: int, t: int, b: int, edge: int, corner: int)
    ensures
        direction(l, r, t, b, edge, corner) is Some ==> l >= 0 && r >= 0 && t >= 0 && b >= 0 && (l
            <= edge || r <= edge || t <= edge || b <= edge),
        l >= 0 && r >= 0 && t >= 0 && b >= 0 && (l <= edge || r <= edge || t <= edge || b <= edge)
            ==> direction(l, r, t, b, edge, corner) is Some,
{
}

/// Away from the corners each edge resizes its own side; near the end of an edge the corner does.
/// The window is wide and high enough that no two opposite corners meet.
pub proof fn law_each_edge_resizes_its_side(l: int, r: int, t: int, b: int, edge: int, corner: int)
    requires
        l >= 0,
        r >= 0,
        t >= 0,
        b >= 0,
        0 <= edge <= corner,
        l > corner || r > corner,
        t > corner || b > corner,
    ensures
        ({
            let d = direction(l, r, t, b, edge, corner);
            &&& l <= edge && t > corner && b > corner ==> d == Some(ResizeDirection::West)
            &&& r <= edge && t > corner && b > corner ==> d == Some(ResizeDirection::East)
            &&& t <= edge && l > corner && r > corner ==> d == Some(ResizeDirection::North)
            &&& b <= edge && l > corner && r > corner ==> d == Some(ResizeDirection::South)
            &&& (t <= edge && l <= corner) || (l <= edge && t <= corner) ==> d == Some(
                ResizeDirection::NorthWest,
            )
            &&& (t <= edge && r <= corner) || (r <= edge && t <= corner) ==> d == Some(
                ResizeDirection::NorthEast,
            )
            &&& (b <= edge && l <= corner) || (l <= edge && b <= corner) ==> d == Some(
                ResizeDirection::SouthWest,
            )
            &&& (b <= edge && r <= corner) || (r <= edge && b <= corner) ==> d == Some(
                ResizeDirection::SouthEast,
            )
        }),
{
}

} // verus!
