//! Abstract draw commands and the canvas that widgets record them on.

use vstd::prelude::*;
use crate::geometry::{Point, Rect};

verus! {

/// The handle that stands for "no texture": a solid fill, drawn with the font
/// atlas bound. Registered textures get handles from 1 upwards.
pub const NULL_TEXTURE: u32 = 0;

/// A colour as red, green, blue and opacity.
#[derive(Clone, Copy, Debug, PartialEq, Eq, Structural)]
pub struct Color {
    pub r: u8,
    pub g: u8,
    pub b: u8,
    pub a: u8,
}

/// Texture coordinates of a rectangle, each in 65535ths of the texture's
/// extent.
#[derive(Clone, Copy, Debug, PartialEq, Eq, Structural)]
pub struct UvRect {
    pub u0: u16,
    pub v0: u16,
    pub u1: u16,
    pub v1: u16,
}

/// One laid-out glyph of a text run: where it goes and which part of the font
/// atlas it shows.
#[derive(Clone, Copy, Debug, PartialEq, Eq, Structural)]
pub struct GlyphQuad {
    pub bounds: Rect,
    pub uv: UvRect,
}

/// What a draw command draws.
#[derive(Clone, Debug, PartialEq, Eq)]
pub enum Shape {
    /// The ellipse inscribed in `bounds`, filled.
    FillCircle { bounds: Rect },
    /// The pie slice around `center` between the angles `a_min` and `a_max`
    /// (minutes of arc), filled.
    FillArc { center: Point, radius: u32, a_min: u32, a_max: u32 },
    /// The straight line between two points, `thickness` units wide.
    StrokeLine { from: Point, to: Point, thickness: u32 },
    /// The cubic curve from `from` to `to` that the two control points bend,
    /// `thickness` units wide.
    StrokeCurve { from: Point, ctrl_a: Point, ctrl_b: Point, to: Point, thickness: u32 },
    /// A convex polygon, filled.
    FillPolygon { points: Vec<Point> },
    /// A registered texture stretched over `bounds`.
    Image { bounds: Rect, texture: u32 },
    /// A run of laid-out glyphs from the font atlas.
    Text { glyphs: Vec<GlyphQuad> },
}

/// The mathematical value of a [`Shape`].
pub enum ShapeView {
    FillCircle { bounds: Rect },
    FillArc { center: Point, radius: u32, a_min: u32, a_max: u32 },
    StrokeLine { from: Point, to: Point, thickness: u32 },
    StrokeCurve { from: Point, ctrl_a: Point, ctrl_b: Point, to: Point, thickness: u32 },
    FillPolygon { points: Seq<Point> },
    Image { bounds: Rect, texture: u32 },
    Text { glyphs: Seq<GlyphQuad> },
}

impl View for Shape {
    type V = ShapeView;

    open spec fn view(&self) -> ShapeView {
        match *self {
            Shape::FillCircle { bounds } => ShapeView::FillCircle { bounds },
            Shape::FillArc { center, radius, a_min, a_max } => ShapeView::FillArc {
                center,
                radius,
                a_min,
                a_max,
            },
            Shape::StrokeLine { from, to, thickness } => ShapeView::StrokeLine {
                from,
                to,
                thickness,
            },
            Shape::StrokeCurve { from, ctrl_a, ctrl_b, to, thickness } => ShapeView::StrokeCurve {
                from,
                ctrl_a,
                ctrl_b,
                to,
                thickness,
            },
            Shape::FillPolygon { points } => ShapeView::FillPolygon { points: points@ },
            Shape::Image { bounds, texture } => ShapeView::Image { bounds, texture },
            Shape::Text { glyphs } => ShapeView::Text { glyphs: glyphs@ },
        }
    }
}

/// One abstract drawing instruction: a shape, its colour, and the rectangle
/// outside of which nothing of it shows.
#[derive(Clone, Debug, PartialEq, Eq)]
pub struct DrawCommand {
    pub shape: Shape,
    pub color: Color,
    pub clip: Rect,
}

/// The mathematical value of a [`DrawCommand`].
pub struct DrawCommandView {
    pub shape: ShapeView,
    pub color: Color,
    pub clip: Rect,
}

impl View for DrawCommand {
    type V = DrawCommandView;

    open spec fn view(&self) -> DrawCommandView {
        DrawCommandView { shape: self.shape@, color: self.color, clip: self.clip }
    }
}

impl DrawCommandView {
    /// The texture that the command samples: its own for an image, the
    /// reserved null handle for everything else.
    pub open spec fn texture(self) -> u32 {
        match self.shape {
            ShapeView::Image { bounds, texture } => texture,
            _ => NULL_TEXTURE,
        }
    }
}

/// The mathematical value of a list of commands.
pub open spec fn commands_view(commands: Seq<DrawCommand>) -> Seq<DrawCommandView> {
    Seq::new(commands.len(), |i: int| commands[i]@)
}

/// An opaque colour.
pub fn color_rgb(r: u8, g: u8, b: u8) -> (c: Color)
    ensures
        c == (Color { r, g, b, a: 255 }),
{
    Color { r, g, b, a: 255 }
}

/// A colour with the given opacity.
pub fn color_rgba(r: u8, g: u8, b: u8, a: u8) -> (c: Color)
    ensures
        c == (Color { r, g, b, a }),
{
    Color { r, g, b, a }
}

/// The list of draw commands of one frame, in the order in which they were
/// recorded, with the clip rectangle that new commands get.
pub struct Canvas {
    commands: Vec<DrawCommand>,
    clip: Rect,
}

impl View for Canvas {
    type V = Seq<DrawCommandView>;

    closed spec fn view(&self) -> Seq<DrawCommandView> {
        commands_view(self.commands@)
    }
}

impl Canvas {
    /// The clip rectangle that the next recorded command gets.
    pub closed spec fn current_clip(self) -> Rect {
        self.clip
    }

    /// An empty canvas that clips to `clip`.
    pub fn new(clip: Rect) -> (canvas: Canvas)
        ensures
            canvas@ == Seq::<DrawCommandView>::empty(),
            canvas.current_clip() == clip,
    {
        let canvas = Canvas { commands: Vec::new(), clip };
        assert(canvas@ =~= Seq::<DrawCommandView>::empty());
        canvas
    }

    /// The clip rectangle that the next recorded command gets.
    pub fn clip(&self) -> (clip: Rect)
        ensures
            clip == self.current_clip(),
    {
        self.clip
    }

    /// Makes `clip` the clip rectangle of the commands recorded from now on.
    pub fn set_clip(&mut self, clip: Rect)
        ensures
            final(self)@ == old(self)@,
            final(self).current_clip() == clip,
    {
        self.clip = clip;
    }

    /// The number of recorded commands.
    pub fn len(&self) -> (n: usize)
        ensures
            n == self@.len(),
    {
        self.commands.len()
    }

    /// The recorded commands, oldest first.
    pub fn commands(&self) -> (list: &Vec<DrawCommand>)
        ensures
            commands_view(list@) == self@,
    {
        &self.commands
    }

    /// Forgets every recorded command and keeps the clip rectangle.
    pub fn clear(&mut self)
        ensures
            final(self)@ == Seq::<DrawCommandView>::empty(),
            final(self).current_clip() == old(self).current_clip(),
    {
        self.commands.clear();
        assert(self@ =~= Seq::<DrawCommandView>::empty());
    }

    /// Records `shape` in `color` under the current clip rectangle.
    pub fn record(&mut self, shape: Shape, color: Color)
        ensures
            final(self)@ == old(self)@.push(
                DrawCommandView { shape: shape@, color, clip: old(self).current_clip() },
            ),
            final(self).current_clip() == old(self).current_clip(),
    {
        let command = DrawCommand { shape, color, clip: self.clip };
        self.commands.push(command);
        assert(self@ =~= old(self)@.push(
            DrawCommandView { shape: shape@, color, clip: old(self).current_clip() },
        ));
    }

    /// Records the filled ellipse inscribed in `bounds`.
    pub fn fill_circle(&mut self, bounds: Rect, color: Color)
        ensures
            final(self)@ == old(self)@.push(
                DrawCommandView {
                    shape: ShapeView::FillCircle { bounds },
                    color,
                    clip: old(self).current_clip(),
                },
            ),
            final(self).current_clip() == old(self).current_clip(),
    {
        self.record(Shape::FillCircle { bounds }, color);
    }

    /// Records the filled pie slice around `center` from `a_min` to `a_max`.
    pub fn fill_arc(&mut self, center: Point, radius: u32, a_min: u32, a_max: u32, color: Color)
        ensures
            final(self)@ == old(self)@.push(
                DrawCommandView {
                    shape: ShapeView::FillArc { center, radius, a_min, a_max },
                    color,
                    clip: old(self).current_clip(),
                },
            ),
            final(self).current_clip() == old(self).current_clip(),
    {
        self.record(Shape::FillArc { center, radius, a_min, a_max }, color);
    }

    /// Records the line from `from` to `to`, `thickness` units wide.
    pub fn stroke_line(&mut self, from: Point, to: Point, thickness: u32, color: Color)
        ensures
            final(self)@ == old(self)@.push(
                DrawCommandView {
                    shape: ShapeView::StrokeLine { from, to, thickness },
                    color,
                    clip: old(self).current_clip(),
                },
            ),
            final(self).current_clip() == old(self).current_clip(),
    {
        self.record(Shape::StrokeLine { from, to, thickness }, color);
    }

    /// Records the curve from `from` to `to` that `ctrl_a` and `ctrl_b` bend,
    /// `thickness` units wide.
    pub fn stroke_curve(
        &mut self,
        from: Point,
        ctrl_a: Point,
        ctrl_b: Point,
        to: Point,
        thickness: u32,
        color: Color,
    )
        ensures
            final(self)@ == old(self)@.push(
                DrawCommandView {
                    shape: ShapeView::StrokeCurve { from, ctrl_a, ctrl_b, to, thickness },
                    color,
                    clip: old(self).current_clip(),
                },
            ),
            final(self).current_clip() == old(self).current_clip(),
    {
        self.record(Shape::StrokeCurve { from, ctrl_a, ctrl_b, to, thickness }, color);
    }

    /// Records the filled convex polygon with the corners `points`.
    pub fn fill_polygon(&mut self, points: Vec<Point>, color: Color)
        ensures
            final(self)@ == old(self)@.push(
                DrawCommandView {
                    shape: ShapeView::FillPolygon { points: points@ },
                    color,
                    clip: old(self).current_clip(),
                },
            ),
            final(self).current_clip() == old(self).current_clip(),
    {
        self.record(Shape::FillPolygon { points }, color);
    }

    /// Records the texture `texture` stretched over `bounds` and tinted with
    /// `color`.
    pub fn draw_image(&mut self, bounds: Rect, texture: u32, color: Color)
        ensures
            final(self)@ == old(self)@.push(
                DrawCommandView {
                    shape: ShapeView::Image { bounds, texture },
                    color,
                    clip: old(self).current_clip(),
                },
            ),
            final(self).current_clip() == old(self).current_clip(),
    {
        self.record(Shape::Image { bounds, texture }, color);
    }

    /// Records a run of laid-out glyphs.
    pub fn draw_text(&mut self, glyphs: Vec<GlyphQuad>, color: Color)
        ensures
            final(self)@ == old(self)@.push(
                DrawCommandView {
                    shape: ShapeView::Text { glyphs: glyphs@ },
                    color,
                    clip: old(self).current_clip(),
                },
            ),
            final(self).current_clip() == old(self).current_clip(),
    {
        self.record(Shape::Text { glyphs }, color);
    }
}

} // verus!
