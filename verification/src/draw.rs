//! Display-list drawing primitives.
//!
//! Games emit a sequence of [`DrawCmd`] values each frame describing what
//! to render; a renderer consumes them in order. Order is significant:
//! transform pushes and pops must balance within one render pass, and
//! layer begin/end markers must pair up.

use vstd::prelude::*;
use crate::color::Rgba;
use crate::font::FontStyleId;
use crate::fx::FX_ONE;
use crate::linear::{Mat3Fx, Vec2Fx};

verus! {

/// Stroke style for vector lines: color, beam width in pixels, and a
/// phosphor-glow intensity hint a renderer may ignore.
#[derive(Clone, Copy, Debug, PartialEq, Eq, Structural)]
pub struct Stroke {
    pub color: Rgba,
    /// Width in screen pixels, in fixed point.
    pub width_px: i64,
    /// Phosphor glow intensity hint: zero for none, `FX_ONE` for full.
    pub glow: i64,
}

impl Stroke {
    /// A stroke with the given color and width and no glow.
    pub fn new(color: Rgba, width_px: i64) -> (r: Stroke)
        ensures
            r == (Stroke { color, width_px, glow: 0i64 }),
    {
        Stroke { color, width_px, glow: 0 }
    }

    /// A stroke with a glow hint.
    pub fn with_glow(color: Rgba, width_px: i64, glow: i64) -> (r: Stroke)
        ensures
            r == (Stroke { color, width_px, glow }),
    {
        Stroke { color, width_px, glow }
    }
}

impl Default for Stroke {
    /// A white stroke one pixel wide without glow.
    fn default() -> (r: Stroke)
        ensures
            r == (Stroke { color: Rgba(FX_ONE, FX_ONE, FX_ONE, FX_ONE), width_px: FX_ONE, glow: 0i64 }),
    {
        Stroke::new(Rgba::white(), FX_ONE)
    }
}

/// A line segment with its stroke style.
#[derive(Clone, Copy, Debug, PartialEq, Eq, Structural)]
pub struct Line2 {
    /// Start point of the line.
    pub a: Vec2Fx,
    /// End point of the line.
    pub b: Vec2Fx,
    /// Stroke style for the segment.
    pub stroke: Stroke,
}

/// One command of a frame's display list.
#[derive(Clone, Debug, PartialEq)]
pub enum DrawCmd {
    /// Fill the entire screen with a solid color.
    Clear { color: Rgba },
    /// Draw a single line segment.
    Line(Line2),
    /// Draw connected line segments; `closed` joins the last point back
    /// to the first.
    Polyline { pts: Vec<Vec2Fx>, closed: bool, stroke: Stroke },
    /// Draw text with a vector font backend.
    Text { pos: Vec2Fx, text: String, size_px: i64, color: Rgba, style: FontStyleId },
    /// Push a transform onto the transform stack; later commands are
    /// transformed by it until the matching pop.
    PushTransform(Mat3Fx),
    /// Pop the most recent transform from the stack.
    PopTransform,
    /// Begin a named render layer, a grouping hint for batching.
    BeginLayer { name: &'static str },
    /// End the current render layer.
    EndLayer,
}

/// A wireframe rectangle: a closed four-point polyline over the corners
/// from `min` to `max`, in counter-clockwise order starting at `min`.
pub fn rect_wire(min: Vec2Fx, max: Vec2Fx, stroke: Stroke) -> (r: DrawCmd)
    ensures
        r matches DrawCmd::Polyline { pts, closed, stroke: st } && pts@.len() == 4 && pts@[0]
            == (Vec2Fx { x: min.x, y: min.y }) && pts@[1] == (Vec2Fx { x: max.x, y: min.y })
            && pts@[2] == (Vec2Fx { x: max.x, y: max.y }) && pts@[3] == (Vec2Fx {
            x: min.x,
            y: max.y,
        }) && closed && st == stroke,
{
    let mut pts: Vec<Vec2Fx> = Vec::new();
    pts.push(Vec2Fx { x: min.x, y: min.y });
    pts.push(Vec2Fx { x: max.x, y: min.y });
    pts.push(Vec2Fx { x: max.x, y: max.y });
    pts.push(Vec2Fx { x: min.x, y: max.y });
    DrawCmd::Polyline { pts, closed: true, stroke }
}

} // verus!
