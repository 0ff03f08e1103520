//! Tessellation: the outline of each shape and the mesh that each draw
//! command is drawn with.
//!
//! A disc, a slice, a line and each straight piece of a curve become an
//! outline of points (those of a disc and of a slice by the table of
//! directions in the configuration), which is filled as a fan of triangles, with a fringe
//! around it where the edge is anti-aliased. Pictures and glyphs become
//! textured quadrilaterals. A command that cannot be drawn, because a
//! coordinate is out of range or a segment count does not fit, has the empty
//! mesh.

use vstd::prelude::*;
use crate::canvas::{Color, DrawCommand, DrawCommandView, GlyphQuad, Shape, ShapeView, UvRect};
use crate::geometry::{
    floor_sqrt, isqrt, lemma_leg_below_hypotenuse, lemma_rounded_div_bound, polar_point,
    round_div, rounded_div, scaled_cos, scaled_sin, Directions, Point, Rect, FULL_TURN,
};
use crate::mesh::{
    faded, fade, fan, fan_mesh, fringed, fringed_mesh, full_uv, joined, lemma_fan_mesh_wf,
    lemma_fringed_mesh_wf, lemma_joined_wf, lemma_quads_mesh_wf, point_drawable,
    point_is_drawable, point_reachable, push_shifted, quads, quads_mesh, rect_drawable,
    rect_is_drawable, solid_vertices, AntiAliasing, ConvertConfig, Mesh, MeshView, Vertex,
    DRAW_LIMIT, MAX_MESH_VERTICES, UV_ONE,
};

verus! {

/// The most straight pieces that a curve can be drawn with: as many as keep
/// its mesh within what indices of 16 bits address, at four vertices a
/// piece. With a faded edge a piece takes eight, and half as many fit.
pub const MAX_CURVE_SEGMENTS: u32 = 16384;

/// Whether a curve of `s` straight pieces has at least one and few enough
/// for its mesh to be indexed.
pub open spec fn curve_countable(s: int, aa: AntiAliasing) -> bool {
    1 <= s && s * fill_vertex_count(4, aa) <= MAX_MESH_VERTICES
}

/// The number of vertices that filling an outline of `n` points takes: one
/// per point, and one more per point for the fringe where the edge is
/// anti-aliased.
pub open spec fn fill_vertex_count(n: int, aa: AntiAliasing) -> int {
    if aa == AntiAliasing::On {
        2 * n
    } else {
        n
    }
}

/// Whether an outline has at least three points and few enough for its mesh
/// to be indexed.
pub open spec fn outline_countable(n: int, aa: AntiAliasing) -> bool {
    3 <= n && fill_vertex_count(n, aa) <= MAX_MESH_VERTICES
}

/// Whether a polygon can be drawn: its outline is countable and each of its
/// points can be drawn.
pub open spec fn outline_drawable(points: Seq<Point>, aa: AntiAliasing) -> bool {
    &&& outline_countable(points.len() as int, aa)
    &&& forall|i: int| 0 <= i < points.len() ==> point_drawable(#[trigger] points[i])
}

/// Whether an outline can be filled: it is countable and each of its points
/// is within reach.
pub open spec fn outline_fillable(points: Seq<Point>, aa: AntiAliasing) -> bool {
    &&& outline_countable(points.len() as int, aa)
    &&& forall|i: int| 0 <= i < points.len() ==> point_reachable(#[trigger] points[i])
}

/// Whether a run of quads can be drawn: each of them can, and the mesh of the
/// run can be indexed.
pub open spec fn quads_drawable(run: Seq<GlyphQuad>) -> bool {
    &&& 4 * run.len() <= MAX_MESH_VERTICES
    &&& forall|i: int| 0 <= i < run.len() ==> rect_drawable((#[trigger] run[i]).bounds)
}

/// The mesh that fills a convex outline.
pub open spec fn fill_mesh(points: Seq<Point>, color: Color, aa: AntiAliasing, cfg: ConvertConfig)
    -> MeshView {
    if aa == AntiAliasing::On {
        fringed_mesh(points, color, cfg)
    } else {
        fan_mesh(points, color, cfg)
    }
}

/// The mesh of a fillable outline is well formed.
pub proof fn lemma_fill_mesh_wf(
    points: Seq<Point>,
    color: Color,
    aa: AntiAliasing,
    cfg: ConvertConfig,
)
    requires
        outline_countable(points.len() as int, aa),
    ensures
        fill_mesh(points, color, aa, cfg).wf(),
        fill_mesh(points, color, aa, cfg).vertices.len() == fill_vertex_count(
            points.len() as int,
            aa,
        ),
{
    if aa == AntiAliasing::On {
        lemma_fringed_mesh_wf(points, color, cfg);
    } else {
        lemma_fan_mesh_wf(points, color, cfg);
    }
}

/// Point `k` of the outline of the ellipse inscribed in `bounds`, for
/// `segments` points spread evenly over the turn, the first one on the
/// positive x axis.
pub open spec fn circle_point(table: Seq<Point>, bounds: Rect, segments: int, k: int) -> Point {
    let angle = k * FULL_TURN / segments;
    Point {
        x: (bounds.x + bounds.w / 2 + scaled_cos(table, angle, bounds.w as int / 2)) as i32,
        y: (bounds.y + bounds.h / 2 + scaled_sin(table, angle, bounds.h as int / 2)) as i32,
    }
}

/// The outline of the ellipse inscribed in `bounds`.
pub open spec fn circle_outline(table: Seq<Point>, bounds: Rect, segments: int) -> Seq<Point> {
    Seq::new(segments as nat, |k: int| circle_point(table, bounds, segments, k))
}

/// Point `k` of the outline of a pie slice: the centre first, then
/// `segments + 1` points on the arc from `a_min` to `a_max`, evenly spread.
pub open spec fn arc_point(
    table: Seq<Point>,
    center: Point,
    radius: int,
    a_min: int,
    a_max: int,
    segments: int,
    k: int,
) -> Point {
    if k == 0 {
        center
    } else {
        polar_point(table, center, a_min + (k - 1) * (a_max - a_min) / segments, radius)
    }
}

/// The outline of a pie slice.
pub open spec fn arc_outline(
    table: Seq<Point>,
    center: Point,
    radius: int,
    a_min: int,
    a_max: int,
    segments: int,
) -> Seq<Point> {
    Seq::new(
        (segments + 2) as nat,
        |k: int| arc_point(table, center, radius, a_min, a_max, segments, k),
    )
}

/// How far the side of a line of the given thickness lies from its axis, at
/// a right angle to the direction `(dx, dy)`: the x and the y offset.
pub open spec fn side_offset(dx: int, dy: int, half: int) -> (int, int) {
    let len = floor_sqrt((dx * dx + dy * dy) as nat) as int;
    (rounded_div(dy * half, len), rounded_div(-dx * half, len))
}

/// The outline of a line: the four corners of the strip along it. Of the
/// thickness, the half rounded up lies on one side of the axis and the half
/// rounded down on the other.
pub open spec fn line_outline(from: Point, to: Point, thickness: int) -> Seq<Point> {
    let dx = to.x - from.x;
    let dy = to.y - from.y;
    let a = side_offset(dx, dy, (thickness + 1) / 2);
    let b = side_offset(dx, dy, thickness / 2);
    seq![
        Point { x: (from.x + a.0) as i32, y: (from.y + a.1) as i32 },
        Point { x: (to.x + a.0) as i32, y: (to.y + a.1) as i32 },
        Point { x: (to.x - b.0) as i32, y: (to.y - b.1) as i32 },
        Point { x: (from.x - b.0) as i32, y: (from.y - b.1) as i32 },
    ]
}

/// The weighted sum of the four control coordinates of a cubic curve at step
/// `k` of `s`: the weights are the four terms of `((s - k) + k)^3`.
pub open spec fn bezier_sum(p0: int, p1: int, p2: int, p3: int, k: int, s: int) -> int {
    let u = s - k;
    u * u * u * p0 + 3 * (u * u * k) * p1 + 3 * (u * k * k) * p2 + k * k * k * p3
}

/// One coordinate of the point of a cubic curve at `k / s` of its way,
/// rounded to the nearest unit.
pub open spec fn bezier_coord(p0: int, p1: int, p2: int, p3: int, k: int, s: int) -> int {
    rounded_div(bezier_sum(p0, p1, p2, p3, k, s), s * s * s)
}

/// The point of a cubic curve at `k / s` of its way from `from` to `to`.
pub open spec fn curve_point(
    from: Point,
    ctrl_a: Point,
    ctrl_b: Point,
    to: Point,
    k: int,
    s: int,
) -> Point {
    Point {
        x: bezier_coord(from.x as int, ctrl_a.x as int, ctrl_b.x as int, to.x as int, k, s) as i32,
        y: bezier_coord(from.y as int, ctrl_a.y as int, ctrl_b.y as int, to.y as int, k, s) as i32,
    }
}

/// The outline of one straight piece of a curve: that of the line between
/// its ends, or four times the same point where the ends coincide.
pub open spec fn piece_outline(a: Point, b: Point, thickness: int) -> Seq<Point> {
    if a == b {
        seq![a, a, a, a]
    } else {
        line_outline(a, b, thickness)
    }
}

/// The mesh of the first `n` straight pieces of a curve that is drawn with
/// `s` of them: the meshes of the pieces, joined in the order of the curve.
pub open spec fn curve_mesh(
    from: Point,
    ctrl_a: Point,
    ctrl_b: Point,
    to: Point,
    thickness: int,
    color: Color,
    cfg: ConvertConfig,
    s: int,
    n: int,
) -> MeshView
    decreases n,
{
    if n <= 0 {
        MeshView::empty()
    } else {
        joined(
            curve_mesh(from, ctrl_a, ctrl_b, to, thickness, color, cfg, s, n - 1),
            fill_mesh(
                piece_outline(
                    curve_point(from, ctrl_a, ctrl_b, to, n - 1, s),
                    curve_point(from, ctrl_a, ctrl_b, to, n, s),
                    thickness,
                ),
                color,
                cfg.line_aa,
                cfg,
            ),
        )
    }
}

/// A coordinate of a curve stays within every bound on the magnitude of its
/// four control coordinates.
pub proof fn lemma_bezier_coord_bound(p0: int, p1: int, p2: int, p3: int, k: int, s: int, l: int)
    requires
        0 <= k <= s,
        1 <= s,
        0 <= l,
        -l <= p0 <= l,
        -l <= p1 <= l,
        -l <= p2 <= l,
        -l <= p3 <= l,
    ensures
        -l <= bezier_coord(p0, p1, p2, p3, k, s) <= l,
        0 < s * s * s,
        -(s * s * s * l) <= bezier_sum(p0, p1, p2, p3, k, s) <= s * s * s * l,
{
    let u = s - k;
    let c0 = u * u * u;
    let c1 = 3 * (u * u * k);
    let c2 = 3 * (u * k * k);
    let c3 = k * k * k;
    let cube = s * s * s;
    assert(0 <= c0 && 0 <= c1 && 0 <= c2 && 0 <= c3) by (nonlinear_arith)
        requires
            0 <= u,
            0 <= k,
            c0 == u * u * u,
            c1 == 3 * (u * u * k),
            c2 == 3 * (u * k * k),
            c3 == k * k * k,
    ;
    assert(c0 + c1 + c2 + c3 == cube) by (nonlinear_arith)
        requires
            s == u + k,
            c0 == u * u * u,
            c1 == 3 * (u * u * k),
            c2 == 3 * (u * k * k),
            c3 == k * k * k,
            cube == s * s * s,
    ;
    assert(0 < cube) by (nonlinear_arith)
        requires
            1 <= s,
            cube == s * s * s,
    ;
    assert(-(c0 * l) <= c0 * p0 <= c0 * l) by (nonlinear_arith)
        requires
            0 <= c0,
            -l <= p0 <= l,
    ;
    assert(-(c1 * l) <= c1 * p1 <= c1 * l) by (nonlinear_arith)
        requires
            0 <= c1,
            -l <= p1 <= l,
    ;
    assert(-(c2 * l) <= c2 * p2 <= c2 * l) by (nonlinear_arith)
        requires
            0 <= c2,
            -l <= p2 <= l,
    ;
    assert(-(c3 * l) <= c3 * p3 <= c3 * l) by (nonlinear_arith)
        requires
            0 <= c3,
            -l <= p3 <= l,
    ;
    assert(c0 * l + c1 * l + c2 * l + c3 * l == cube * l) by (nonlinear_arith)
        requires
            c0 + c1 + c2 + c3 == cube,
    ;
    assert(bezier_sum(p0, p1, p2, p3, k, s) == c0 * p0 + c1 * p1 + c2 * p2 + c3 * p3);
    lemma_rounded_div_bound(bezier_sum(p0, p1, p2, p3, k, s), cube, l);
}

/// The mesh of the pieces of a curve is well formed and has as many vertices
/// per piece as the filling of a quadrilateral.
pub proof fn lemma_curve_mesh_wf(
    from: Point,
    ctrl_a: Point,
    ctrl_b: Point,
    to: Point,
    thickness: int,
    color: Color,
    cfg: ConvertConfig,
    s: int,
    n: int,
)
    requires
        0 <= n,
        n * fill_vertex_count(4, cfg.line_aa) <= MAX_MESH_VERTICES,
    ensures
        curve_mesh(from, ctrl_a, ctrl_b, to, thickness, color, cfg, s, n).wf(),
        curve_mesh(from, ctrl_a, ctrl_b, to, thickness, color, cfg, s, n).vertices.len() == n
            * fill_vertex_count(4, cfg.line_aa),
    decreases n,
{
    if cfg.line_aa == AntiAliasing::On {
        assert(n * fill_vertex_count(4, cfg.line_aa) == n * 8);
        assert((n - 1) * fill_vertex_count(4, cfg.line_aa) == (n - 1) * 8);
    } else {
        assert(n * fill_vertex_count(4, cfg.line_aa) == n * 4);
        assert((n - 1) * fill_vertex_count(4, cfg.line_aa) == (n - 1) * 4);
    }
    if n > 0 {
        lemma_curve_mesh_wf(from, ctrl_a, ctrl_b, to, thickness, color, cfg, s, n - 1);
        let piece = piece_outline(
            curve_point(from, ctrl_a, ctrl_b, to, n - 1, s),
            curve_point(from, ctrl_a, ctrl_b, to, n, s),
            thickness,
        );
        lemma_fill_mesh_wf(piece, color, cfg.line_aa, cfg);
        lemma_joined_wf(
            curve_mesh(from, ctrl_a, ctrl_b, to, thickness, color, cfg, s, n - 1),
            fill_mesh(piece, color, cfg.line_aa, cfg),
        );
    }
}

impl DrawCommandView {
    /// Whether the command draws anything. A command that does not is left
    /// out of the frame without an error.
    pub open spec fn drawable(self, cfg: ConvertConfig) -> bool {
        match self.shape {
            ShapeView::FillCircle { bounds } => {
                &&& rect_drawable(bounds)
                &&& outline_countable(cfg.circle_segment_count as int, cfg.shape_aa)
            },
            ShapeView::FillArc { center, radius, a_min, a_max } => {
                &&& point_drawable(center)
                &&& radius <= DRAW_LIMIT
                &&& a_min <= a_max
                &&& 1 <= cfg.arc_segment_count
                &&& outline_countable(cfg.arc_segment_count + 2, cfg.shape_aa)
            },
            ShapeView::StrokeLine { from, to, thickness } => {
                &&& point_drawable(from)
                &&& point_drawable(to)
                &&& from != to
                &&& thickness <= DRAW_LIMIT
            },
            ShapeView::StrokeCurve { from, ctrl_a, ctrl_b, to, thickness } => {
                &&& point_drawable(from)
                &&& point_drawable(ctrl_a)
                &&& point_drawable(ctrl_b)
                &&& point_drawable(to)
                &&& thickness <= DRAW_LIMIT
                &&& curve_countable(cfg.curve_segment_count as int, cfg.line_aa)
            },
            ShapeView::FillPolygon { points } => outline_drawable(points, cfg.shape_aa),
            ShapeView::Image { bounds, texture } => rect_drawable(bounds),
            ShapeView::Text { glyphs } => quads_drawable(glyphs),
        }
    }

    /// The triangles that the command is drawn with: its colour faded by the
    /// global opacity, its outline tessellated as `cfg` says.
    pub open spec fn mesh(self, cfg: ConvertConfig) -> MeshView {
        let color = faded(self.color, cfg.global_alpha);
        if !self.drawable(cfg) {
            MeshView::empty()
        } else {
            match self.shape {
                ShapeView::FillCircle { bounds } => fill_mesh(
                    circle_outline(cfg.directions@, bounds, cfg.circle_segment_count as int),
                    color,
                    cfg.shape_aa,
                    cfg,
                ),
                ShapeView::FillArc { center, radius, a_min, a_max } => fill_mesh(
                    arc_outline(
                        cfg.directions@,
                        center,
                        radius as int,
                        a_min as int,
                        a_max as int,
                        cfg.arc_segment_count as int,
                    ),
                    color,
                    cfg.shape_aa,
                    cfg,
                ),
                ShapeView::StrokeLine { from, to, thickness } => fill_mesh(
                    line_outline(from, to, thickness as int),
                    color,
                    cfg.line_aa,
                    cfg,
                ),
                ShapeView::StrokeCurve { from, ctrl_a, ctrl_b, to, thickness } => curve_mesh(
                    from,
                    ctrl_a,
                    ctrl_b,
                    to,
                    thickness as int,
                    color,
                    cfg,
                    cfg.curve_segment_count as int,
                    cfg.curve_segment_count as int,
                ),
                ShapeView::FillPolygon { points } => fill_mesh(points, color, cfg.shape_aa, cfg),
                ShapeView::Image { bounds, texture } => quads_mesh(
                    seq![GlyphQuad { bounds, uv: full_uv() }],
                    color,
                ),
                ShapeView::Text { glyphs } => quads_mesh(glyphs, color),
            }
        }
    }
}

/// The mesh of every command is well formed.
pub proof fn lemma_command_mesh_wf(cmd: DrawCommandView, cfg: ConvertConfig)
    ensures
        cmd.mesh(cfg).wf(),
{
    let color = faded(cmd.color, cfg.global_alpha);
    if cmd.drawable(cfg) {
        match cmd.shape {
            ShapeView::FillCircle { bounds } => {
                lemma_fill_mesh_wf(
                    circle_outline(cfg.directions@, bounds, cfg.circle_segment_count as int),
                    color,
                    cfg.shape_aa,
                    cfg,
                );
            },
            ShapeView::FillArc { center, radius, a_min, a_max } => {
                lemma_fill_mesh_wf(
                    arc_outline(
                        cfg.directions@,
                        center,
                        radius as int,
                        a_min as int,
                        a_max as int,
                        cfg.arc_segment_count as int,
                    ),
                    color,
                    cfg.shape_aa,
                    cfg,
                );
            },
            ShapeView::StrokeLine { from, to, thickness } => {
                lemma_fill_mesh_wf(line_outline(from, to, thickness as int), color, cfg.line_aa, cfg);
            },
            ShapeView::StrokeCurve { from, ctrl_a, ctrl_b, to, thickness } => {
                lemma_curve_mesh_wf(
                    from,
                    ctrl_a,
                    ctrl_b,
                    to,
                    thickness as int,
                    color,
                    cfg,
                    cfg.curve_segment_count as int,
                    cfg.curve_segment_count as int,
                );
            },
            ShapeView::FillPolygon { points } => {
                lemma_fill_mesh_wf(points, color, cfg.shape_aa, cfg);
            },
            ShapeView::Image { bounds, texture } => {
                lemma_quads_mesh_wf(seq![GlyphQuad { bounds, uv: full_uv() }], color);
            },
            ShapeView::Text { glyphs } => {
                lemma_quads_mesh_wf(glyphs, color);
            },
        }
    }
}

/// Whether an outline of `n` points has at least three and few enough.
fn is_countable(n: usize, aa: AntiAliasing) -> (ok: bool)
    ensures
        ok == outline_countable(n as int, aa),
{
    if n < 3 {
        return false;
    }
    match aa {
        AntiAliasing::On => n <= MAX_MESH_VERTICES / 2,
        AntiAliasing::Off => n <= MAX_MESH_VERTICES,
    }
}

/// Whether every point of an outline can be drawn.
fn points_are_drawable(points: &Vec<Point>) -> (ok: bool)
    ensures
        ok == (forall|i: int| 0 <= i < points@.len() ==> point_drawable(#[trigger] points@[i])),
{
    let mut i: usize = 0;
    while i < points.len()
        invariant
            0 <= i <= points.len(),
            forall|k: int| 0 <= k < i ==> point_drawable(#[trigger] points@[k]),
        decreases points.len() - i,
    {
        if !point_is_drawable(&points[i]) {
            return false;
        }
        i = i + 1;
    }
    true
}

/// Whether a curve of `s` straight pieces has at least one and few enough.
fn curve_is_countable(s: u32, aa: AntiAliasing) -> (ok: bool)
    ensures
        ok == curve_countable(s as int, aa),
        ok ==> s <= MAX_CURVE_SEGMENTS,
{
    assert(s * fill_vertex_count(4, aa) == if aa == AntiAliasing::On {
        s * 8
    } else {
        s * 4
    });
    match aa {
        AntiAliasing::On => 1 <= s && s <= MAX_CURVE_SEGMENTS / 2,
        AntiAliasing::Off => 1 <= s && s <= MAX_CURVE_SEGMENTS,
    }
}

/// Whether a polygon can be drawn.
fn outline_is_drawable(points: &Vec<Point>, aa: AntiAliasing) -> (ok: bool)
    ensures
        ok == outline_drawable(points@, aa),
{
    is_countable(points.len(), aa) && points_are_drawable(points)
}

/// Whether a run of quads can be drawn.
fn quads_are_drawable(run: &Vec<GlyphQuad>) -> (ok: bool)
    ensures
        ok == quads_drawable(run@),
{
    if run.len() > MAX_MESH_VERTICES / 4 {
        return false;
    }
    let mut i: usize = 0;
    while i < run.len()
        invariant
            0 <= i <= run.len(),
            forall|k: int| 0 <= k < i ==> rect_drawable((#[trigger] run@[k]).bounds),
        decreases run.len() - i,
    {
        if !rect_is_drawable(&run[i].bounds) {
            return false;
        }
        i = i + 1;
    }
    true
}

/// The mesh that fills a convex outline.
pub fn fill(points: &Vec<Point>, color: Color, aa: AntiAliasing, cfg: &ConvertConfig) -> (mesh: Mesh)
    requires
        outline_fillable(points@, aa),
    ensures
        mesh@ == fill_mesh(points@, color, aa, *cfg),
{
    match aa {
        AntiAliasing::On => fringed(points, color, cfg),
        AntiAliasing::Off => {
            let vertices = solid_vertices(points, color, cfg);
            let indices = fan(points.len());
            Mesh { vertices, indices }
        },
    }
}

/// The outline of the ellipse inscribed in `bounds`.
pub fn circle_points(directions: &Directions, bounds: &Rect, segments: u32) -> (points: Vec<Point>)
    requires
        rect_drawable(*bounds),
        1 <= segments <= MAX_MESH_VERTICES,
    ensures
        points@ == circle_outline(directions@, *bounds, segments as int),
        forall|k: int| 0 <= k < points@.len() ==> point_drawable(#[trigger] points@[k]),
{
    let cx: i64 = bounds.x as i64 + (bounds.w / 2) as i64;
    let cy: i64 = bounds.y as i64 + (bounds.h / 2) as i64;
    let rx: u32 = (bounds.w / 2) as u32;
    let ry: u32 = (bounds.h / 2) as u32;
    let mut points: Vec<Point> = Vec::new();
    let mut k: u32 = 0;
    while k < segments
        invariant
            rect_drawable(*bounds),
            1 <= segments <= MAX_MESH_VERTICES,
            0 <= k <= segments,
            cx == bounds.x + bounds.w / 2,
            cy == bounds.y + bounds.h / 2,
            rx == bounds.w / 2,
            ry == bounds.h / 2,
            points@ == Seq::new(
                k as nat,
                |i: int| circle_point(directions@, *bounds, segments as int, i),
            ),
            forall|i: int| 0 <= i < points@.len() ==> point_drawable(#[trigger] points@[i]),
        decreases segments - k,
    {
        assert(0 <= k * 21600 <= 65536 * 21600) by (nonlinear_arith)
            requires
                0 <= k <= 65536,
        ;
        let angle: u64 = (k as u64) * (FULL_TURN as u64) / (segments as u64);
        proof {
            vstd::arithmetic::div_mod::lemma_div_is_ordered(0, k * 21600, segments as int);
            vstd::arithmetic::div_mod::lemma_div_nonincreasing(k * 21600, segments as int);
        }
        let x: i64 = cx + directions.cos_times(angle as u32, rx);
        let y: i64 = cy + directions.sin_times(angle as u32, ry);
        points.push(Point { x: x as i32, y: y as i32 });
        assert(points@ =~= Seq::new(
            (k + 1) as nat,
            |i: int| circle_point(directions@, *bounds, segments as int, i),
        ));
        k = k + 1;
    }
    points
}

/// The outline of a pie slice.
pub fn arc_points(
    directions: &Directions,
    center: Point,
    radius: u32,
    a_min: u32,
    a_max: u32,
    segments: u32,
) -> (points: Vec<Point>)
    requires
        point_drawable(center),
        radius <= DRAW_LIMIT,
        a_min <= a_max,
        1 <= segments <= MAX_MESH_VERTICES,
    ensures
        points@ == arc_outline(
            directions@,
            center,
            radius as int,
            a_min as int,
            a_max as int,
            segments as int,
        ),
        forall|k: int| 0 <= k < points@.len() ==> point_reachable(#[trigger] points@[k]),
{
    let mut points: Vec<Point> = Vec::new();
    points.push(center);
    let sweep: u64 = (a_max - a_min) as u64;
    let mut k: u32 = 0;
    assert(points@ =~= Seq::new(
        1,
        |i: int|
            arc_point(
                directions@,
                center,
                radius as int,
                a_min as int,
                a_max as int,
                segments as int,
                i,
            ),
    ));
    while k <= segments
        invariant
            point_drawable(center),
            radius <= DRAW_LIMIT,
            a_min <= a_max,
            sweep == a_max - a_min,
            1 <= segments <= MAX_MESH_VERTICES,
            0 <= k <= segments + 1,
            points@ == Seq::new(
                (k + 1) as nat,
                |i: int|
                    arc_point(
                        directions@,
                        center,
                        radius as int,
                        a_min as int,
                        a_max as int,
                        segments as int,
                        i,
                    ),
            ),
            forall|i: int| 0 <= i < points@.len() ==> point_reachable(#[trigger] points@[i]),
        decreases segments + 1 - k,
    {
        assert(0 <= k * sweep <= segments * sweep <= 65536 * 0xffff_ffff) by (nonlinear_arith)
            requires
                0 <= k <= segments <= 65536,
                0 <= sweep <= 0xffff_ffff,
        ;
        let part: u64 = (k as u64) * sweep / (segments as u64);
        proof {
            vstd::arithmetic::div_mod::lemma_div_is_ordered(
                k * sweep,
                segments * sweep,
                segments as int,
            );
            vstd::arithmetic::div_mod::lemma_div_multiples_vanish(sweep as int, segments as int);
            assert(segments * sweep == segments as int * sweep as int);
            assert(segments as int * sweep as int == sweep as int * segments as int)
                by (nonlinear_arith);
        }
        let angle: u32 = (a_min as u64 + part) as u32;
        let p = directions.polar(center, angle, radius);
        points.push(p);
        assert(points@ =~= Seq::new(
            (k + 2) as nat,
            |i: int|
                arc_point(
                    directions@,
                    center,
                    radius as int,
                    a_min as int,
                    a_max as int,
                    segments as int,
                    i,
                ),
        ));
        k = k + 1;
    }
    points
}

/// How far the side of a line lies from its axis.
fn side(dx: i64, dy: i64, len: i64, half: i64) -> (offset: (i64, i64))
    requires
        -0x1000_0000 <= dx <= 0x1000_0000,
        -0x1000_0000 <= dy <= 0x1000_0000,
        0 < len < 0x1_0000_0000,
        len == floor_sqrt((dx * dx + dy * dy) as nat),
        0 <= half <= DRAW_LIMIT,
    ensures
        offset.0 == side_offset(dx as int, dy as int, half as int).0,
        offset.1 == side_offset(dx as int, dy as int, half as int).1,
        -half <= offset.0 <= half,
        -half <= offset.1 <= half,
{
    proof {
        lemma_leg_below_hypotenuse(dx as int, dy as int);
        lemma_leg_below_hypotenuse(dy as int, dx as int);
        assert(dx * dx + dy * dy == dy * dy + dx * dx);
        assert(-(len * half) <= dy * half <= len * half && -(len * half) <= -dx * half <= len
            * half) by (nonlinear_arith)
            requires
                -len <= dx <= len,
                -len <= dy <= len,
                0 <= half,
        ;
        assert(-0x1000_0000 * 0x400_0000 <= dy * half <= 0x1000_0000 * 0x400_0000
            && -0x1000_0000 * 0x400_0000 <= -dx * half <= 0x1000_0000 * 0x400_0000)
            by (nonlinear_arith)
            requires
                -0x1000_0000 <= dx <= 0x1000_0000,
                -0x1000_0000 <= dy <= 0x1000_0000,
                0 <= half <= 0x400_0000,
        ;
        lemma_rounded_div_bound(dy * half, len as int, half as int);
        lemma_rounded_div_bound(-dx * half, len as int, half as int);
    }
    (round_div(dy * half, len), round_div(-dx * half, len))
}

/// The outline of a line.
pub fn line_points(from: Point, to: Point, thickness: u32) -> (points: Vec<Point>)
    requires
        point_drawable(from),
        point_drawable(to),
        from != to,
        thickness <= DRAW_LIMIT,
    ensures
        points@ == line_outline(from, to, thickness as int),
        forall|k: int| 0 <= k < points@.len() ==> point_reachable(#[trigger] points@[k]),
{
    let dx: i64 = to.x as i64 - from.x as i64;
    let dy: i64 = to.y as i64 - from.y as i64;
    proof {
        lemma_leg_below_hypotenuse(dx as int, dy as int);
        lemma_leg_below_hypotenuse(dy as int, dx as int);
        assert(dx * dx + dy * dy == dy * dy + dx * dx);
        assert(0 <= dx * dx <= 0x1000_0000 * 0x1000_0000 && 0 <= dy * dy <= 0x1000_0000
            * 0x1000_0000) by (nonlinear_arith)
            requires
                -0x1000_0000 <= dx <= 0x1000_0000,
                -0x1000_0000 <= dy <= 0x1000_0000,
        ;
    }
    let len: i64 = isqrt((dx * dx + dy * dy) as u64) as i64;
    let a = side(dx, dy, len, ((thickness + 1) / 2) as i64);
    let b = side(dx, dy, len, (thickness / 2) as i64);
    let mut points: Vec<Point> = Vec::new();
    points.push(Point { x: (from.x as i64 + a.0) as i32, y: (from.y as i64 + a.1) as i32 });
    points.push(Point { x: (to.x as i64 + a.0) as i32, y: (to.y as i64 + a.1) as i32 });
    points.push(Point { x: (to.x as i64 - b.0) as i32, y: (to.y as i64 - b.1) as i32 });
    points.push(Point { x: (from.x as i64 - b.0) as i32, y: (from.y as i64 - b.1) as i32 });
    assert(points@ =~= line_outline(from, to, thickness as int));
    points
}

/// `a` divided by `b` and rounded to the nearest whole number, halves
/// upwards, for numbers too wide for 64 bits.
fn round_div_wide(a: i128, b: i128) -> (q: i128)
    requires
        0 < b < 0x1_0000_0000_0000_0000_0000,
        -0x1_0000_0000_0000_0000_0000 < a < 0x1_0000_0000_0000_0000_0000,
    ensures
        q == rounded_div(a as int, b as int),
{
    let num: i128 = 2 * a + b;
    let den: i128 = 2 * b;
    if num >= 0 {
        num / den
    } else {
        let up: i128 = (-num + den - 1) / den;
        proof {
            let m = -(num as int);
            let d = den as int;
            let c = (m + d - 1) / d;
            vstd::arithmetic::div_mod::lemma_fundamental_div_mod(m + d - 1, d);
            vstd::arithmetic::div_mod::lemma_mod_bound(m + d - 1, d);
            let r = c * d - m;
            assert(d * c == c * d) by (nonlinear_arith);
            assert((-c) * d == -(c * d)) by (nonlinear_arith);
            vstd::arithmetic::div_mod::lemma_fundamental_div_mod_converse(num as int, d, -c, r);
        }
        -up
    }
}

/// One coordinate of the point of a cubic curve at `k / s` of its way.
fn bezier(p0: i32, p1: i32, p2: i32, p3: i32, k: u32, s: u32) -> (v: i32)
    requires
        k <= s,
        1 <= s <= MAX_CURVE_SEGMENTS,
        -DRAW_LIMIT <= p0 <= DRAW_LIMIT,
        -DRAW_LIMIT <= p1 <= DRAW_LIMIT,
        -DRAW_LIMIT <= p2 <= DRAW_LIMIT,
        -DRAW_LIMIT <= p3 <= DRAW_LIMIT,
    ensures
        v == bezier_coord(p0 as int, p1 as int, p2 as int, p3 as int, k as int, s as int),
        -DRAW_LIMIT <= v <= DRAW_LIMIT,
{
    let u: i128 = (s - k) as i128;
    let t: i128 = k as i128;
    let w: i128 = s as i128;
    proof {
        lemma_bezier_coord_bound(
            p0 as int,
            p1 as int,
            p2 as int,
            p3 as int,
            k as int,
            s as int,
            DRAW_LIMIT as int,
        );
        assert(0 <= u * u <= 0x4000 * 0x4000 && 0 <= u * t <= 0x4000 * 0x4000 && 0 <= t * t
            <= 0x4000 * 0x4000 && 0 < w * w <= 0x4000 * 0x4000) by (nonlinear_arith)
            requires
                0 <= u <= 0x4000,
                0 <= t <= 0x4000,
                1 <= w <= 0x4000,
        ;
        assert(0 <= u * u * u <= 0x400_0000_0000 && 0 <= u * u * t <= 0x400_0000_0000 && 0 <= u
            * t * t <= 0x400_0000_0000 && 0 <= t * t * t <= 0x400_0000_0000 && 0 < w * w * w
            <= 0x400_0000_0000) by (nonlinear_arith)
            requires
                0 <= u <= 0x4000,
                0 <= t <= 0x4000,
                1 <= w <= 0x4000,
                0 <= u * u <= 0x4000 * 0x4000,
                0 <= u * t <= 0x4000 * 0x4000,
                0 <= t * t <= 0x4000 * 0x4000,
                0 < w * w <= 0x4000 * 0x4000,
        ;
    }
    let cube: i128 = w * w * w;
    let c0: i128 = u * u * u;
    let c1: i128 = 3 * (u * u * t);
    let c2: i128 = 3 * (u * t * t);
    let c3: i128 = t * t * t;
    assert(-(c0 * 0x400_0000) <= c0 * p0 <= c0 * 0x400_0000 <= 0x400_0000_0000 * 0x400_0000)
        by (nonlinear_arith)
        requires
            0 <= c0 <= 0x400_0000_0000,
            -0x400_0000 <= p0 <= 0x400_0000,
    ;
    assert(-(c1 * 0x400_0000) <= c1 * p1 <= c1 * 0x400_0000 <= 3 * 0x400_0000_0000 * 0x400_0000)
        by (nonlinear_arith)
        requires
            0 <= c1 <= 3 * 0x400_0000_0000,
            -0x400_0000 <= p1 <= 0x400_0000,
    ;
    assert(-(c2 * 0x400_0000) <= c2 * p2 <= c2 * 0x400_0000 <= 3 * 0x400_0000_0000 * 0x400_0000)
        by (nonlinear_arith)
        requires
            0 <= c2 <= 3 * 0x400_0000_0000,
            -0x400_0000 <= p2 <= 0x400_0000,
    ;
    assert(-(c3 * 0x400_0000) <= c3 * p3 <= c3 * 0x400_0000 <= 0x400_0000_0000 * 0x400_0000)
        by (nonlinear_arith)
        requires
            0 <= c3 <= 0x400_0000_0000,
            -0x400_0000 <= p3 <= 0x400_0000,
    ;
    let sum: i128 = c0 * (p0 as i128) + c1 * (p1 as i128) + c2 * (p2 as i128) + c3 * (p3 as i128);
    round_div_wide(sum, cube) as i32
}

/// The point of a cubic curve at `k / s` of its way.
pub fn curve_point_at(from: Point, ctrl_a: Point, ctrl_b: Point, to: Point, k: u32, s: u32) -> (p:
    Point)
    requires
        k <= s,
        1 <= s <= MAX_CURVE_SEGMENTS,
        point_drawable(from),
        point_drawable(ctrl_a),
        point_drawable(ctrl_b),
        point_drawable(to),
    ensures
        p == curve_point(from, ctrl_a, ctrl_b, to, k as int, s as int),
        point_drawable(p),
{
    Point {
        x: bezier(from.x, ctrl_a.x, ctrl_b.x, to.x, k, s),
        y: bezier(from.y, ctrl_a.y, ctrl_b.y, to.y, k, s),
    }
}

/// The outline of one straight piece of a curve.
fn piece_points(a: Point, b: Point, thickness: u32) -> (points: Vec<Point>)
    requires
        point_drawable(a),
        point_drawable(b),
        thickness <= DRAW_LIMIT,
    ensures
        points@ == piece_outline(a, b, thickness as int),
        points@.len() == 4,
        forall|k: int| 0 <= k < points@.len() ==> point_reachable(#[trigger] points@[k]),
{
    if a.x == b.x && a.y == b.y {
        let mut points: Vec<Point> = Vec::new();
        points.push(a);
        points.push(a);
        points.push(a);
        points.push(a);
        assert(points@ =~= seq![a, a, a, a]);
        points
    } else {
        line_points(a, b, thickness)
    }
}

/// The mesh of a curve: one quadrilateral per straight piece.
pub fn curve(
    from: Point,
    ctrl_a: Point,
    ctrl_b: Point,
    to: Point,
    thickness: u32,
    color: Color,
    cfg: &ConvertConfig,
) -> (mesh: Mesh)
    requires
        point_drawable(from),
        point_drawable(ctrl_a),
        point_drawable(ctrl_b),
        point_drawable(to),
        thickness <= DRAW_LIMIT,
        curve_countable(cfg.curve_segment_count as int, cfg.line_aa),
    ensures
        mesh@ == curve_mesh(
            from,
            ctrl_a,
            ctrl_b,
            to,
            thickness as int,
            color,
            *cfg,
            cfg.curve_segment_count as int,
            cfg.curve_segment_count as int,
        ),
{
    let s: u32 = cfg.curve_segment_count;
    assert(s <= MAX_CURVE_SEGMENTS) by {
        assert(4 * s <= s * fill_vertex_count(4, cfg.line_aa)) by (nonlinear_arith)
            requires
                0 <= s,
                4 <= fill_vertex_count(4, cfg.line_aa),
        ;
    }
    let mut vertices: Vec<Vertex> = Vec::new();
    let mut indices: Vec<u16> = Vec::new();
    let mut start = curve_point_at(from, ctrl_a, ctrl_b, to, 0, s);
    let mut k: u32 = 0;
    while k < s
        invariant
            point_drawable(from),
            point_drawable(ctrl_a),
            point_drawable(ctrl_b),
            point_drawable(to),
            thickness <= DRAW_LIMIT,
            s == cfg.curve_segment_count,
            1 <= s <= MAX_CURVE_SEGMENTS,
            curve_countable(s as int, cfg.line_aa),
            0 <= k <= s,
            start == curve_point(from, ctrl_a, ctrl_b, to, k as int, s as int),
            point_drawable(start),
            (Mesh { vertices, indices })@ == curve_mesh(
                from,
                ctrl_a,
                ctrl_b,
                to,
                thickness as int,
                color,
                *cfg,
                s as int,
                k as int,
            ),
        decreases s - k,
    {
        let end = curve_point_at(from, ctrl_a, ctrl_b, to, k + 1, s);
        let outline = piece_points(start, end, thickness);
        proof {
            assert((k + 1) * fill_vertex_count(4, cfg.line_aa) <= s * fill_vertex_count(
                4,
                cfg.line_aa,
            ) && (k + 1) * fill_vertex_count(4, cfg.line_aa) == k * fill_vertex_count(
                4,
                cfg.line_aa,
            ) + fill_vertex_count(4, cfg.line_aa)) by (nonlinear_arith)
                requires
                    0 <= k < s,
                    0 <= fill_vertex_count(4, cfg.line_aa),
            ;
            lemma_curve_mesh_wf(
                from,
                ctrl_a,
                ctrl_b,
                to,
                thickness as int,
                color,
                *cfg,
                s as int,
                k as int,
            );
            lemma_fill_mesh_wf(outline@, color, cfg.line_aa, *cfg);
        }
        let mut part = fill(&outline, color, cfg.line_aa, cfg);
        let offset: usize = vertices.len();
        push_shifted(&mut indices, &part.indices, offset, part.vertices.len());
        vertices.append(&mut part.vertices);
        start = end;
        k = k + 1;
    }
    Mesh { vertices, indices }
}

/// Whether `cmd` draws anything under `cfg`. A host that wants to know of
/// commands that are left out of a frame asks here.
pub fn can_draw(cmd: &DrawCommand, cfg: &ConvertConfig) -> (ok: bool)
    ensures
        ok == cmd@.drawable(*cfg),
{
    match &cmd.shape {
        Shape::FillCircle { bounds } => rect_is_drawable(bounds) && cfg.circle_segment_count as usize
            <= MAX_MESH_VERTICES && is_countable(cfg.circle_segment_count as usize, cfg.shape_aa),
        Shape::FillArc { center, radius, a_min, a_max } => point_is_drawable(center) && *radius
            <= DRAW_LIMIT as u32 && *a_min <= *a_max && 1 <= cfg.arc_segment_count
            && cfg.arc_segment_count <= 65534 && is_countable(
            cfg.arc_segment_count as usize + 2,
            cfg.shape_aa,
        ),
        Shape::StrokeLine { from, to, thickness } => point_is_drawable(from) && point_is_drawable(
            to,
        ) && !(from.x == to.x && from.y == to.y) && *thickness <= DRAW_LIMIT as u32,
        Shape::StrokeCurve { from, ctrl_a, ctrl_b, to, thickness } => point_is_drawable(from)
            && point_is_drawable(ctrl_a) && point_is_drawable(ctrl_b) && point_is_drawable(to)
            && *thickness <= DRAW_LIMIT as u32 && curve_is_countable(
            cfg.curve_segment_count,
            cfg.line_aa,
        ),
        Shape::FillPolygon { points } => outline_is_drawable(points, cfg.shape_aa),
        Shape::Image { bounds, texture } => rect_is_drawable(bounds),
        Shape::Text { glyphs } => quads_are_drawable(glyphs),
    }
}

/// The triangles that `cmd` is drawn with.
pub fn tessellate(cmd: &DrawCommand, cfg: &ConvertConfig) -> (mesh: Mesh)
    ensures
        mesh@ == cmd@.mesh(*cfg),
        mesh@.wf(),
{
    proof {
        lemma_command_mesh_wf(cmd@, *cfg);
    }
    let color = fade(cmd.color, cfg.global_alpha);
    match &cmd.shape {
        Shape::FillCircle { bounds } => {
            if rect_is_drawable(bounds) && is_countable(
                cfg.circle_segment_count as usize,
                cfg.shape_aa,
            ) {
                let outline = circle_points(&cfg.directions, bounds, cfg.circle_segment_count);
                assert(outline_fillable(outline@, cfg.shape_aa)) by {
                    assert forall|i: int| 0 <= i < outline@.len() implies point_reachable(
                        #[trigger] outline@[i],
                    ) by {
                        assert(point_drawable(outline@[i]));
                    }
                }
                fill(&outline, color, cfg.shape_aa, cfg)
            } else {
                Mesh { vertices: Vec::new(), indices: Vec::new() }
            }
        },
        Shape::FillArc { center, radius, a_min, a_max } => {
            if point_is_drawable(center) && *radius <= DRAW_LIMIT as u32 && *a_min <= *a_max
                && cfg.arc_segment_count <= 65534 && is_countable(
                cfg.arc_segment_count as usize + 2,
                cfg.shape_aa,
            ) && 1 <= cfg.arc_segment_count {
                let outline = arc_points(
                    &cfg.directions,
                    *center,
                    *radius,
                    *a_min,
                    *a_max,
                    cfg.arc_segment_count,
                );
                fill(&outline, color, cfg.shape_aa, cfg)
            } else {
                Mesh { vertices: Vec::new(), indices: Vec::new() }
            }
        },
        Shape::StrokeLine { from, to, thickness } => {
            if point_is_drawable(from) && point_is_drawable(to) && !(from.x == to.x && from.y
                == to.y) && *thickness <= DRAW_LIMIT as u32 {
                let outline = line_points(*from, *to, *thickness);
                proof {
                    lemma_fill_mesh_wf(outline@, color, cfg.line_aa, *cfg);
                }
                fill(&outline, color, cfg.line_aa, cfg)
            } else {
                Mesh { vertices: Vec::new(), indices: Vec::new() }
            }
        },
        Shape::StrokeCurve { from, ctrl_a, ctrl_b, to, thickness } => {
            if point_is_drawable(from) && point_is_drawable(ctrl_a) && point_is_drawable(ctrl_b)
                && point_is_drawable(to) && *thickness <= DRAW_LIMIT as u32 && curve_is_countable(
                cfg.curve_segment_count,
                cfg.line_aa,
            ) {
                curve(*from, *ctrl_a, *ctrl_b, *to, *thickness, color, cfg)
            } else {
                Mesh { vertices: Vec::new(), indices: Vec::new() }
            }
        },
        Shape::FillPolygon { points } => {
            if outline_is_drawable(points, cfg.shape_aa) {
                assert(outline_fillable(points@, cfg.shape_aa)) by {
                    assert forall|i: int| 0 <= i < points@.len() implies point_reachable(
                        #[trigger] points@[i],
                    ) by {
                        assert(point_drawable(points@[i]));
                    }
                }
                fill(points, color, cfg.shape_aa, cfg)
            } else {
                Mesh { vertices: Vec::new(), indices: Vec::new() }
            }
        },
        Shape::Image { bounds, texture } => {
            if rect_is_drawable(bounds) {
                let mut run: Vec<GlyphQuad> = Vec::new();
                run.push(
                    GlyphQuad { bounds: *bounds, uv: UvRect { u0: 0, v0: 0, u1: UV_ONE, v1: UV_ONE } },
                );
                assert(run@ =~= seq![GlyphQuad { bounds: *bounds, uv: full_uv() }]);
                quads(&run, color)
            } else {
                Mesh { vertices: Vec::new(), indices: Vec::new() }
            }
        },
        Shape::Text { glyphs } => {
            if quads_are_drawable(glyphs) {
                quads(glyphs, color)
            } else {
                Mesh { vertices: Vec::new(), indices: Vec::new() }
            }
        },
    }
}

} // verus!
