//! Where the popup window stands: its position when it is shown and when it
//! is hidden, for a window anchored to one of the four screen edges.

use vstd::prelude::*;
use vstd::string::*;
use crate::text::same_text;

verus! {

/// The screen edge that the window is anchored to.
#[derive(Clone, Copy, Debug, PartialEq, Eq, Structural)]
pub enum Edge {
    Top,
    Bottom,
    Left,
    Right,
}

/// The edge that a configured name stands for, if it names one.
pub open spec fn edge_named(name: Seq<char>) -> Option<Edge> {
    if name == "top"@ {
        Some(Edge::Top)
    } else if name == "bottom"@ {
        Some(Edge::Bottom)
    } else if name == "left"@ {
        Some(Edge::Left)
    } else if name == "right"@ {
        Some(Edge::Right)
    } else {
        None
    }
}

/// Reads an edge from its configured name: `top`, `bottom`, `left` or
/// `right`.
pub fn parse_edge(name: &str) -> (edge: Option<Edge>)
    ensures
        edge == edge_named(name@),
{
    if same_text(name, "top") {
        Some(Edge::Top)
    } else if same_text(name, "bottom") {
        Some(Edge::Bottom)
    } else if same_text(name, "left") {
        Some(Edge::Left)
    } else if same_text(name, "right") {
        Some(Edge::Right)
    } else {
        None
    }
}

/// A position on the desktop, in physical pixels.
#[derive(Clone, Copy, Debug, PartialEq, Eq, Structural)]
pub struct Position {
    pub x: i64,
    pub y: i64,
}

/// The size of the primary screen, in physical pixels.
#[derive(Clone, Copy, Debug, PartialEq, Eq, Structural)]
pub struct Screen {
    pub width: u32,
    pub height: u32,
}

/// How the window is placed along its edge.
#[derive(Clone, Copy, Debug, PartialEq, Eq, Structural)]
pub struct Placement {
    pub edge: Edge,
    /// The window's thickness perpendicular to the edge.
    pub secondary_size: i32,
    pub padding_x: i32,
    pub padding_y: i32,
    /// Where the band that the window occupies along its edge begins: half
    /// of what the window leaves free of the screen's length along the edge.
    pub band_offset: i32,
}

/// The horizontal coordinate of the window. Along the top and the bottom
/// edge the window stands in its band; at the left and the right edge it
/// stands `padding_x` inside the screen when shown and `padding_x` beyond it
/// when hidden.
pub open spec fn anchor_x(p: Placement, screen: Screen, visible: bool) -> int {
    match p.edge {
        Edge::Top | Edge::Bottom => p.band_offset + p.padding_x,
        Edge::Left => if visible {
            p.padding_x as int
        } else {
            -p.secondary_size - p.padding_x
        },
        Edge::Right => if visible {
            screen.width - p.secondary_size - p.padding_x
        } else {
            screen.width + p.padding_x
        },
    }
}

/// The vertical coordinate of the window. At the left and the right edge the
/// window stands in its band; at the top and the bottom edge it stands
/// `padding_y` inside the screen when shown and `padding_y` beyond it when
/// hidden.
pub open spec fn anchor_y(p: Placement, screen: Screen, visible: bool) -> int {
    match p.edge {
        Edge::Left | Edge::Right => p.band_offset + p.padding_y,
        Edge::Top => if visible {
            p.padding_y as int
        } else {
            -p.secondary_size - p.padding_y
        },
        Edge::Bottom => if visible {
            screen.height - p.secondary_size - p.padding_y
        } else {
            screen.height + p.padding_y
        },
    }
}

/// The position of the window: on the screen when `visible`, off the screen
/// otherwise.
pub open spec fn anchor(p: Placement, screen: Screen, visible: bool) -> Position {
    Position { x: anchor_x(p, screen, visible) as i64, y: anchor_y(p, screen, visible) as i64 }
}

/// Computes the position of the window.
pub fn anchor_position(p: &Placement, screen: &Screen, visible: bool) -> (position: Position)
    ensures
        position == anchor(*p, *screen, visible),
        position.x == anchor_x(*p, *screen, visible),
        position.y == anchor_y(*p, *screen, visible),
{
    let width = screen.width as i64;
    let height = screen.height as i64;
    let size = p.secondary_size as i64;
    let padding_x = p.padding_x as i64;
    let padding_y = p.padding_y as i64;
    let offset = p.band_offset as i64;
    match p.edge {
        Edge::Top => Position {
            x: offset + padding_x,
            y: if visible {
                padding_y
            } else {
                -size - padding_y
            },
        },
        Edge::Bottom => Position {
            x: offset + padding_x,
            y: if visible {
                height - size - padding_y
            } else {
                height + padding_y
            },
        },
        Edge::Left => Position {
            x: if visible {
                padding_x
            } else {
                -size - padding_x
            },
            y: offset + padding_y,
        },
        Edge::Right => Position {
            x: if visible {
                width - size - padding_x
            } else {
                width + padding_x
            },
            y: offset + padding_y,
        },
    }
}

/// How far a window of thickness `p.secondary_size` that stands at
/// (`x`, `y`) is from the screen, along the axis perpendicular to its edge.
/// The distance is negative where the window reaches into the screen.
pub open spec fn clearance(p: Placement, screen: Screen, x: int, y: int) -> int {
    match p.edge {
        Edge::Top => -(y + p.secondary_size),
        Edge::Bottom => y - screen.height,
        Edge::Left => -(x + p.secondary_size),
        Edge::Right => x - screen.width,
    }
}

/// The hidden window is off the screen by exactly the padding along the axis
/// perpendicular to its edge.
pub proof fn lemma_hidden_clears_screen(p: Placement, screen: Screen)
    ensures
        clearance(p, screen, anchor_x(p, screen, false), anchor_y(p, screen, false)) == (
        match p.edge {
            Edge::Top | Edge::Bottom => p.padding_y,
            Edge::Left | Edge::Right => p.padding_x,
        }),
{
}

} // verus!
