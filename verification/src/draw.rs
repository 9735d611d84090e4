//! Shapes that a draw hook hands back, and the checks they must pass.
use vstd::prelude::*;

use crate::config::ConfigError;
use crate::hooks::{parse_draw_space, DrawSpace};
use crate::number::{Double, Single};
use crate::text::{concat_str, copy_str, str_equal};

verus! {

/// A shape to draw: a filled rectangle or a rectangle outline.
#[derive(Debug, Clone, Copy, PartialEq)]
pub enum DrawCommand {
    Rect { space: DrawSpace, x: Double, y: Double, w: Double, h: Double, color: [Single; 4] },
    StrokeRect { space: DrawSpace, x: Double, y: Double, w: Double, h: Double, width: Double, outer: Double, color: [Single; 4] },
}

/// A shape table as read from the hook: its kind and space as named, its numbers as
/// read, and the stroke width and outer offset where the table has them.
#[derive(Debug, Clone, PartialEq)]
pub struct DrawShape {
    pub kind: String,
    pub space: Option<String>,
    pub x: Double,
    pub y: Double,
    pub w: Double,
    pub h: Double,
    pub color: [Single; 4],
    pub width: Option<Double>,
    pub outer: Option<Double>,
}

/// What a draw hook returned.
#[derive(Debug, Clone, PartialEq)]
pub enum DrawHookValue {
    /// `nil`: nothing to draw.
    Nothing,
    /// A list of shapes (a sequence, or the `shapes` field of a table).
    Shapes(Vec<DrawShape>),
    /// One shape table.
    One(DrawShape),
    /// Anything else.
    Other,
}

/// The message for a draw hook that returned something else than shapes.
pub open spec fn draw_hook_shape_message() -> Seq<char> {
    "draw hook must return nil, a shape table, a sequence of shape tables, or { shapes = { ... } }"@
}

/// What a shape table gives: the first failed check, in the order space, size, colour,
/// kind, stroke width, outer offset; else the command. A stroke without a width counts
/// as a width that is not positive; a missing outer offset is 0.
pub open spec fn shape_outcome(s: DrawShape) -> Result<DrawCommand, Seq<char>> {
    let space = match s.space {
        None => Some(DrawSpace::World),
        Some(n) => if n@ == "world"@ { Some(DrawSpace::World) } else if n@ == "screen"@ { Some(DrawSpace::Screen) } else { None },
    };
    if space is None {
        Err("unsupported draw space: "@ + s.space->0@)
    } else if s.w.le_zero_spec() || s.h.le_zero_spec() {
        Err("draw shapes require positive width and height"@)
    } else if exists|i: int| 0 <= i < 4 && !(#[trigger] s.color@[i]).in_unit_interval_spec() {
        Err("draw colors must use normalized rgba values in the range 0..1"@)
    } else if s.kind@ == "rect"@ {
        Ok(DrawCommand::Rect { space: space->0, x: s.x, y: s.y, w: s.w, h: s.h, color: s.color })
    } else if s.kind@ == "stroke_rect"@ {
        let width = match s.width { Some(v) => v, None => Double(0) };
        let outer = match s.outer { Some(v) => v, None => Double(0) };
        if width.le_zero_spec() {
            Err("stroke_rect requires width > 0"@)
        } else if outer.lt_zero_spec() {
            Err("stroke_rect outer must be >= 0"@)
        } else {
            Ok(DrawCommand::StrokeRect { space: space->0, x: s.x, y: s.y, w: s.w, h: s.h, width, outer, color: s.color })
        }
    } else {
        Err("unsupported draw command kind: "@ + s.kind@)
    }
}

/// Whether `r` is what `outcome` describes.
pub open spec fn matches_outcome<T>(r: Result<T, ConfigError>, outcome: Result<T, Seq<char>>) -> bool {
    match outcome {
        Ok(v) => r == Ok::<T, ConfigError>(v),
        Err(m) => r matches Err(ConfigError::Validation(e)) && e@ == m,
    }
}

/// The command a shape table describes (see `shape_outcome`).
#[verifier::loop_isolation(false)]
pub fn draw_command_from_shape(shape: &DrawShape) -> (r: Result<DrawCommand, ConfigError>)
    ensures
        matches_outcome(r, shape_outcome(*shape)),
{
    let space = match &shape.space {
        Some(n) => parse_draw_space(Some(n.as_str())),
        None => parse_draw_space(None),
    };
    let space = match space {
        Ok(s) => s,
        Err(e) => {
            return Err(e);
        },
    };
    if shape.w.le_zero() || shape.h.le_zero() {
        return Err(ConfigError::Validation(copy_str("draw shapes require positive width and height")));
    }
    let mut i: usize = 0;
    while i < 4
        invariant
            i <= 4,
            forall|k: int| 0 <= k < i ==> (#[trigger] shape.color@[k]).in_unit_interval_spec(),
        decreases 4 - i,
    {
        if !shape.color[i].in_unit_interval() {
            assert(!shape.color@[i as int].in_unit_interval_spec());
            return Err(ConfigError::Validation(copy_str("draw colors must use normalized rgba values in the range 0..1")));
        }
        i += 1;
    }
    if str_equal(shape.kind.as_str(), "rect") {
        Ok(DrawCommand::Rect { space, x: shape.x, y: shape.y, w: shape.w, h: shape.h, color: shape.color })
    } else if str_equal(shape.kind.as_str(), "stroke_rect") {
        let width = match shape.width {
            Some(v) => v,
            None => Double(0),
        };
        let outer = match shape.outer {
            Some(v) => v,
            None => Double(0),
        };
        if width.le_zero() {
            return Err(ConfigError::Validation(copy_str("stroke_rect requires width > 0")));
        }
        if outer.lt_zero() {
            return Err(ConfigError::Validation(copy_str("stroke_rect outer must be >= 0")));
        }
        Ok(DrawCommand::StrokeRect { space, x: shape.x, y: shape.y, w: shape.w, h: shape.h, width, outer, color: shape.color })
    } else {
        Err(ConfigError::Validation(concat_str("unsupported draw command kind: ", shape.kind.as_str())))
    }
}

/// The commands a list of shapes gives, or the message of the first shape that fails.
pub open spec fn shapes_outcome(shapes: Seq<DrawShape>) -> Result<Seq<DrawCommand>, Seq<char>>
    decreases shapes.len(),
{
    if shapes.len() == 0 {
        Ok(Seq::empty())
    } else {
        match shapes_outcome(shapes.drop_last()) {
            Err(m) => Err(m),
            Ok(front) => match shape_outcome(shapes.last()) {
                Err(m) => Err(m),
                Ok(c) => Ok(front.push(c)),
            },
        }
    }
}

proof fn lemma_shapes_outcome_prefix_err(shapes: Seq<DrawShape>, i: int)
    requires
        0 <= i <= shapes.len(),
        shapes_outcome(shapes.take(i)) is Err,
    ensures
        shapes_outcome(shapes) == shapes_outcome(shapes.take(i)),
    decreases shapes.len() - i,
{
    if i < shapes.len() {
        let next = shapes.take(i + 1);
        assert(next.drop_last() =~= shapes.take(i));
        lemma_shapes_outcome_prefix_err(shapes, i + 1);
    } else {
        assert(shapes.take(i) =~= shapes);
    }
}

fn commands_from_shapes(shapes: &[DrawShape]) -> (r: Result<Vec<DrawCommand>, ConfigError>)
    ensures
        match shapes_outcome(shapes@) {
            Ok(cs) => r matches Ok(v) && v@ == cs,
            Err(m) => r matches Err(ConfigError::Validation(e)) && e@ == m,
        },
{
    let mut out: Vec<DrawCommand> = Vec::new();
    let mut i: usize = 0;
    assert(shapes@.take(0) =~= Seq::<DrawShape>::empty());
    while i < shapes.len()
        invariant
            i <= shapes@.len(),
            shapes_outcome(shapes@.take(i as int)) == Ok::<Seq<DrawCommand>, Seq<char>>(out@),
        decreases shapes@.len() - i,
    {
        let ghost next = shapes@.take(i + 1);
        proof {
            assert(next.drop_last() =~= shapes@.take(i as int));
            assert(next.last() == shapes@[i as int]);
        }
        match draw_command_from_shape(&shapes[i]) {
            Ok(c) => {
                out.push(c);
            },
            Err(e) => {
                proof {
                    lemma_shapes_outcome_prefix_err(shapes@, (i + 1) as int);
                }
                return Err(e);
            },
        }
        i += 1;
    }
    assert(shapes@.take(shapes@.len() as int) =~= shapes@);
    Ok(out)
}

/// The commands of what a draw hook returned: none for `nil`, the shapes' commands in
/// order, or the message for anything that is not shapes.
pub fn parse_draw_commands(value: &DrawHookValue) -> (r: Result<Vec<DrawCommand>, ConfigError>)
    ensures
        match *value {
            DrawHookValue::Nothing => r matches Ok(v) && v@.len() == 0,
            DrawHookValue::Shapes(shapes) => match shapes_outcome(shapes@) {
                Ok(cs) => r matches Ok(v) && v@ == cs,
                Err(m) => r matches Err(ConfigError::Validation(e)) && e@ == m,
            },
            DrawHookValue::One(shape) => match shape_outcome(shape) {
                Ok(c) => r matches Ok(v) && v@ == seq![c],
                Err(m) => r matches Err(ConfigError::Validation(e)) && e@ == m,
            },
            DrawHookValue::Other => r matches Err(ConfigError::Validation(e)) && e@ == draw_hook_shape_message(),
        },
{
    match value {
        DrawHookValue::Nothing => Ok(Vec::new()),
        DrawHookValue::Shapes(shapes) => commands_from_shapes(shapes.as_slice()),
        DrawHookValue::One(shape) => match draw_command_from_shape(shape) {
            Ok(c) => {
                let mut v: Vec<DrawCommand> = Vec::new();
                v.push(c);
                assert(v@ =~= seq![c]);
                Ok(v)
            },
            Err(e) => Err(e),
        },
        DrawHookValue::Other => Err(ConfigError::Validation(copy_str(
            "draw hook must return nil, a shape table, a sequence of shape tables, or { shapes = { ... } }",
        ))),
    }
}

} // verus!
