//! Vertices, triangle meshes and the configuration of the conversion from
//! draw commands to meshes.

use vstd::prelude::*;
use crate::canvas::{Color, GlyphQuad, UvRect};
use crate::geometry::{
    floor_sqrt, isqrt, lemma_leg_below_hypotenuse, lemma_rounded_div_bound, round_div,
    rounded_div, Directions, Point, Rect,
};

verus! {

/// Largest magnitude of a coordinate that can be drawn. It leaves room for
/// every sum that tessellation forms.
pub const DRAW_LIMIT: i32 = 67108864;

/// The texture coordinate of the far edge of a texture.
pub const UV_ONE: u16 = 65535;

/// The most vertices that one mesh, or one batch, can hold: as many as an
/// index of 16 bits can tell apart.
pub const MAX_MESH_VERTICES: usize = 65536;

/// One corner of a triangle: position, texture coordinate in 65535ths of the
/// texture's extent, and colour.
#[derive(Clone, Copy, Debug, PartialEq, Eq, Structural)]
pub struct Vertex {
    pub x: i32,
    pub y: i32,
    pub u: u16,
    pub v: u16,
    pub color: Color,
}

/// Whether the edge of a shape is faded out over a fringe one unit wide.
#[derive(Clone, Copy, Debug, PartialEq, Eq, Structural)]
pub enum AntiAliasing {
    Off,
    On,
}

/// How draw commands are converted to triangles.
#[derive(Debug, PartialEq, Eq)]
pub struct ConvertConfig {
    /// Anti-aliasing of filled shapes.
    pub shape_aa: AntiAliasing,
    /// Anti-aliasing of lines.
    pub line_aa: AntiAliasing,
    /// Number of straight segments that stand for a full circle.
    pub circle_segment_count: u32,
    /// Number of straight segments that stand for the curved side of an arc.
    pub arc_segment_count: u32,
    /// Number of straight pieces that stand for a curve.
    pub curve_segment_count: u32,
    /// Opacity that every colour is multiplied with, in 255ths.
    pub global_alpha: u8,
    /// Texture coordinate of a white texel of the font atlas, which solid
    /// fills sample.
    pub null_u: u16,
    pub null_v: u16,
    /// The directions that the points of discs and slices are placed by.
    pub directions: Directions,
}

/// A list of vertices and a list of indices into it, three per triangle.
#[derive(Clone, Debug, PartialEq, Eq)]
pub struct Mesh {
    pub vertices: Vec<Vertex>,
    pub indices: Vec<u16>,
}

/// The mathematical value of a [`Mesh`].
pub struct MeshView {
    pub vertices: Seq<Vertex>,
    pub indices: Seq<u16>,
}

impl View for Mesh {
    type V = MeshView;

    open spec fn view(&self) -> MeshView {
        MeshView { vertices: self.vertices@, indices: self.indices@ }
    }
}

impl MeshView {
    /// The mesh without any vertex.
    pub open spec fn empty() -> MeshView {
        MeshView { vertices: Seq::empty(), indices: Seq::empty() }
    }

    /// Every index names a vertex of the mesh, the indices come in threes,
    /// and the vertices are few enough to be indexed.
    pub open spec fn wf(self) -> bool {
        &&& self.vertices.len() <= MAX_MESH_VERTICES
        &&& self.indices.len() % 3 == 0
        &&& forall|j: int| 0 <= j < self.indices.len() ==> (#[trigger] self.indices[j])
            < self.vertices.len()
    }
}

/// `indices` with `offset` added to each.
pub open spec fn shifted(indices: Seq<u16>, offset: int) -> Seq<u16> {
    Seq::new(indices.len(), |j: int| (indices[j] + offset) as u16)
}

/// Two meshes as one: the vertices of the second follow those of the first,
/// and its indices are raised by the number of vertices before them.
pub open spec fn joined(first: MeshView, second: MeshView) -> MeshView {
    MeshView {
        vertices: first.vertices + second.vertices,
        indices: first.indices + shifted(second.indices, first.vertices.len() as int),
    }
}

/// Two well-formed meshes that together are few enough join to a well-formed
/// mesh.
pub proof fn lemma_joined_wf(first: MeshView, second: MeshView)
    requires
        first.wf(),
        second.wf(),
        first.vertices.len() + second.vertices.len() <= MAX_MESH_VERTICES,
    ensures
        joined(first, second).wf(),
{
    let all = joined(first, second);
    assert forall|j: int| 0 <= j < all.indices.len() implies (#[trigger] all.indices[j])
        < all.vertices.len() by {
        if j < first.indices.len() {
            assert(all.indices[j] == first.indices[j]);
        } else {
            let k = j - first.indices.len();
            assert(all.indices[j] == shifted(second.indices, first.vertices.len() as int)[k]);
            assert(second.indices[k] < second.vertices.len());
        }
    }
}

/// Whether `v` is a coordinate that can be drawn.
pub open spec fn draw_ok(v: int) -> bool {
    -(DRAW_LIMIT as int) <= v <= DRAW_LIMIT as int
}

/// Whether both coordinates of `p` can be drawn.
pub open spec fn point_drawable(p: Point) -> bool {
    draw_ok(p.x as int) && draw_ok(p.y as int)
}

/// Whether the extent of `r` is not negative and its four corners can be
/// drawn.
pub open spec fn rect_drawable(r: Rect) -> bool {
    &&& 0 <= r.w
    &&& 0 <= r.h
    &&& draw_ok(r.x as int)
    &&& draw_ok(r.y as int)
    &&& draw_ok(r.x + r.w)
    &&& draw_ok(r.y + r.h)
}

/// Whether both coordinates of `p` are within twice the drawable range, which
/// is as far as the outline of a drawable shape reaches.
pub open spec fn point_reachable(p: Point) -> bool {
    &&& -2 * DRAW_LIMIT <= p.x <= 2 * DRAW_LIMIT
    &&& -2 * DRAW_LIMIT <= p.y <= 2 * DRAW_LIMIT
}

/// `color` with its opacity multiplied by `alpha` 255ths, rounded down.
pub open spec fn faded(color: Color, alpha: u8) -> Color {
    Color { a: (color.a * alpha / 255) as u8, ..color }
}

/// `color` without any opacity.
pub open spec fn transparent(color: Color) -> Color {
    Color { a: 0, ..color }
}

/// Texture coordinates that span a whole texture.
pub open spec fn full_uv() -> UvRect {
    UvRect { u0: 0, v0: 0, u1: UV_ONE, v1: UV_ONE }
}

/// Corner `k` of a quad, `0 <= k < 4`: the corners run from the one of least
/// coordinates along the x axis first.
pub open spec fn quad_vertex(quad: GlyphQuad, k: int, color: Color) -> Vertex {
    let b = quad.bounds;
    if k == 0 {
        Vertex { x: b.x, y: b.y, u: quad.uv.u0, v: quad.uv.v0, color }
    } else if k == 1 {
        Vertex { x: (b.x + b.w) as i32, y: b.y, u: quad.uv.u1, v: quad.uv.v0, color }
    } else if k == 2 {
        Vertex { x: (b.x + b.w) as i32, y: (b.y + b.h) as i32, u: quad.uv.u1, v: quad.uv.v1, color }
    } else {
        Vertex { x: b.x, y: (b.y + b.h) as i32, u: quad.uv.u0, v: quad.uv.v1, color }
    }
}

/// The corner of a quad that position `k` of its six indices names: two
/// triangles that share the diagonal from corner 0 to corner 2.
pub open spec fn quad_corner(k: int) -> int {
    if k == 0 || k == 3 {
        0
    } else if k == 1 {
        1
    } else if k == 2 || k == 4 {
        2
    } else {
        3
    }
}

/// The mesh of a run of textured quads: four vertices and six indices each,
/// in the order of the run.
pub open spec fn quads_mesh(quads: Seq<GlyphQuad>, color: Color) -> MeshView {
    MeshView {
        vertices: Seq::new(4 * quads.len(), |j: int| quad_vertex(quads[j / 4], j % 4, color)),
        indices: Seq::new(6 * quads.len(), |j: int| (4 * (j / 6) + quad_corner(j % 6)) as u16),
    }
}

/// A run of few enough quads is well formed.
pub proof fn lemma_quads_mesh_wf(quads: Seq<GlyphQuad>, color: Color)
    requires
        4 * quads.len() <= MAX_MESH_VERTICES,
    ensures
        quads_mesh(quads, color).wf(),
        quads_mesh(quads, color).vertices.len() == 4 * quads.len(),
        quads_mesh(quads, color).indices.len() == 6 * quads.len(),
{
    let m = quads_mesh(quads, color);
    assert forall|j: int| 0 <= j < m.indices.len() implies (#[trigger] m.indices[j])
        < m.vertices.len() by {
        assert(0 <= 4 * (j / 6) + quad_corner(j % 6) < 4 * quads.len());
    }
}

/// The vertex that index `j` of a triangle fan names: triangle `t` joins the
/// first vertex with vertices `t + 1` and `t + 2`.
pub open spec fn fan_index(j: int) -> int {
    if j % 3 == 0 {
        0
    } else {
        j / 3 + j % 3
    }
}

/// The vertex at `p` that samples the white texel.
pub open spec fn solid_vertex(p: Point, color: Color, cfg: ConvertConfig) -> Vertex {
    Vertex { x: p.x, y: p.y, u: cfg.null_u, v: cfg.null_v, color }
}

/// The mesh that fills a convex outline without a fringe: one vertex per
/// point and a fan of `n - 2` triangles.
pub open spec fn fan_mesh(points: Seq<Point>, color: Color, cfg: ConvertConfig) -> MeshView {
    MeshView {
        vertices: Seq::new(points.len(), |i: int| solid_vertex(points[i], color, cfg)),
        indices: Seq::new((3 * (points.len() - 2)) as nat, |j: int| fan_index(j) as u16),
    }
}

/// A fan over at least three and few enough points is well formed.
pub proof fn lemma_fan_mesh_wf(points: Seq<Point>, color: Color, cfg: ConvertConfig)
    requires
        3 <= points.len() <= MAX_MESH_VERTICES,
    ensures
        fan_mesh(points, color, cfg).wf(),
        fan_mesh(points, color, cfg).vertices.len() == points.len(),
        fan_mesh(points, color, cfg).indices.len() == 3 * (points.len() - 2),
{
    let m = fan_mesh(points, color, cfg);
    assert forall|j: int| 0 <= j < m.indices.len() implies (#[trigger] m.indices[j])
        < m.vertices.len() by {
        assert(0 <= fan_index(j) < points.len());
    }
}

/// The point before point `i` of a closed outline of `n` points.
pub open spec fn ring_prev(n: int, i: int) -> int {
    if i == 0 {
        n - 1
    } else {
        i - 1
    }
}

/// The point after point `i` of a closed outline of `n` points.
pub open spec fn ring_next(n: int, i: int) -> int {
    if i + 1 == n {
        0
    } else {
        i + 1
    }
}

/// The vertex that index `j` of the fringe around an outline of `n` points
/// names. The fringe's vertices follow the outline's at positions `n` to
/// `2 n - 1`; edge `i` of the outline carries two triangles that span to the
/// fringe.
pub open spec fn ring_index(n: int, j: int) -> int {
    let i = j / 6;
    let k = j % 6;
    let next = if i + 1 == n { 0 } else { i + 1 };
    if k == 0 || k == 3 {
        i
    } else if k == 1 {
        next
    } else if k == 2 || k == 4 {
        n + next
    } else {
        n + i
    }
}

/// The point of the fringe that belongs to point `i` of an outline: one unit
/// away from it, at a right angle to the line from the point before to the
/// point after, each coordinate rounded to the nearest unit. It lies outside
/// of an outline that runs from the x axis towards the y axis. Where the two
/// neighbours coincide it is the point itself.
pub open spec fn fringe_point(points: Seq<Point>, i: int) -> Point {
    let n = points.len() as int;
    let prev = points[ring_prev(n, i)];
    let next = points[ring_next(n, i)];
    let dx = next.x - prev.x;
    let dy = next.y - prev.y;
    let len = floor_sqrt((dx * dx + dy * dy) as nat) as int;
    if len == 0 {
        points[i]
    } else {
        Point {
            x: (points[i].x + rounded_div(dy, len)) as i32,
            y: (points[i].y + rounded_div(-dx, len)) as i32,
        }
    }
}

/// The mesh that fills a convex outline and fades its edge: the fan of the
/// outline in full colour, and around it a fringe that ends without opacity.
pub open spec fn fringed_mesh(points: Seq<Point>, color: Color, cfg: ConvertConfig) -> MeshView {
    let n = points.len() as int;
    MeshView {
        vertices: Seq::new(
            (2 * n) as nat,
            |i: int|
                if i < n {
                    solid_vertex(points[i], color, cfg)
                } else {
                    solid_vertex(fringe_point(points, i - n), transparent(color), cfg)
                },
        ),
        indices: Seq::new(
            (3 * (n - 2) + 6 * n) as nat,
            |j: int|
                (if j < 3 * (n - 2) {
                    fan_index(j)
                } else {
                    ring_index(n, j - 3 * (n - 2))
                }) as u16,
        ),
    }
}

/// A fringed fan over at least three and few enough points is well formed.
pub proof fn lemma_fringed_mesh_wf(points: Seq<Point>, color: Color, cfg: ConvertConfig)
    requires
        3 <= points.len(),
        2 * points.len() <= MAX_MESH_VERTICES,
    ensures
        fringed_mesh(points, color, cfg).wf(),
        fringed_mesh(points, color, cfg).vertices.len() == 2 * points.len(),
        fringed_mesh(points, color, cfg).indices.len() == 3 * (points.len() - 2) + 6
            * points.len(),
{
    let m = fringed_mesh(points, color, cfg);
    let n = points.len() as int;
    assert forall|j: int| 0 <= j < m.indices.len() implies (#[trigger] m.indices[j])
        < m.vertices.len() by {
        if j < 3 * (n - 2) {
            assert(0 <= fan_index(j) < n);
        } else {
            let k = j - 3 * (n - 2);
            assert(0 <= k / 6 < n);
            assert(0 <= ring_index(n, k) < 2 * n);
        }
    }
}

/// `color` with its opacity multiplied by `alpha` 255ths.
pub fn fade(color: Color, alpha: u8) -> (c: Color)
    ensures
        c == faded(color, alpha),
{
    assert(0 <= color.a * alpha <= 255 * 255) by (nonlinear_arith)
        requires
            0 <= color.a <= 255,
            0 <= alpha <= 255,
    ;
    let a: u32 = color.a as u32 * alpha as u32 / 255;
    Color { r: color.r, g: color.g, b: color.b, a: a as u8 }
}

/// Whether `p` can be drawn.
pub fn point_is_drawable(p: &Point) -> (ok: bool)
    ensures
        ok == point_drawable(*p),
{
    -DRAW_LIMIT <= p.x && p.x <= DRAW_LIMIT && -DRAW_LIMIT <= p.y && p.y <= DRAW_LIMIT
}

/// Whether the four corners of `r` can be drawn.
pub fn rect_is_drawable(r: &Rect) -> (ok: bool)
    ensures
        ok == rect_drawable(*r),
{
    let limit: i64 = DRAW_LIMIT as i64;
    0 <= r.w && 0 <= r.h && -limit <= r.x as i64 && r.x as i64 <= limit && -limit <= r.y as i64
        && r.y as i64 <= limit && r.x as i64 + r.w as i64 <= limit && r.y as i64 + r.h as i64
        <= limit
}

/// Appends `indices` to `target`, each raised by `offset`. `limit` is a
/// bound on the indices, which keeps the raised ones within 16 bits.
pub fn push_shifted(target: &mut Vec<u16>, indices: &Vec<u16>, offset: usize, limit: usize)
    requires
        offset + limit <= MAX_MESH_VERTICES,
        forall|j: int| 0 <= j < indices@.len() ==> (#[trigger] indices@[j]) < limit,
    ensures
        final(target)@ == old(target)@ + shifted(indices@, offset as int),
{
    let mut j: usize = 0;
    while j < indices.len()
        invariant
            0 <= j <= indices.len(),
            offset + limit <= MAX_MESH_VERTICES,
            forall|k: int| 0 <= k < indices@.len() ==> (#[trigger] indices@[k]) < limit,
            target@ == old(target)@ + shifted(indices@, offset as int).subrange(0, j as int),
        decreases indices.len() - j,
    {
        let raised: usize = indices[j] as usize + offset;
        target.push(raised as u16);
        assert(target@ =~= old(target)@ + shifted(indices@, offset as int).subrange(
            0,
            j + 1,
        ));
        j = j + 1;
    }
    assert(shifted(indices@, offset as int).subrange(0, indices@.len() as int) =~= shifted(
        indices@,
        offset as int,
    ));
}

/// The mesh of a run of textured quads.
pub fn quads(run: &Vec<GlyphQuad>, color: Color) -> (mesh: Mesh)
    requires
        4 * run.len() <= MAX_MESH_VERTICES,
        forall|i: int| 0 <= i < run.len() ==> rect_drawable((#[trigger] run[i]).bounds),
    ensures
        mesh@ == quads_mesh(run@, color),
{
    let mut vertices: Vec<Vertex> = Vec::new();
    let mut indices: Vec<u16> = Vec::new();
    let mut i: usize = 0;
    while i < run.len()
        invariant
            0 <= i <= run.len(),
            4 * run.len() <= MAX_MESH_VERTICES,
            forall|i: int| 0 <= i < run.len() ==> rect_drawable((#[trigger] run[i]).bounds),
            vertices@ == Seq::new(4 * (i as nat), |j: int| quad_vertex(run@[j / 4], j % 4, color)),
            indices@ == Seq::new(
                6 * (i as nat),
                |j: int| (4 * (j / 6) + quad_corner(j % 6)) as u16,
            ),
        decreases run.len() - i,
    {
        let quad = run[i];
        let b = quad.bounds;
        assert(rect_drawable(run[i as int].bounds));
        let ghost old_vertices = vertices@;
        let ghost old_indices = indices@;
        vertices.push(Vertex { x: b.x, y: b.y, u: quad.uv.u0, v: quad.uv.v0, color });
        vertices.push(Vertex { x: b.x + b.w, y: b.y, u: quad.uv.u1, v: quad.uv.v0, color });
        vertices.push(Vertex { x: b.x + b.w, y: b.y + b.h, u: quad.uv.u1, v: quad.uv.v1, color });
        vertices.push(Vertex { x: b.x, y: b.y + b.h, u: quad.uv.u0, v: quad.uv.v1, color });
        let base: u16 = (4 * i) as u16;
        indices.push(base);
        indices.push(base + 1);
        indices.push(base + 2);
        indices.push(base);
        indices.push(base + 2);
        indices.push(base + 3);
        proof {
            assert(vertices@ =~= Seq::new(
                4 * ((i + 1) as nat),
                |j: int| quad_vertex(run@[j / 4], j % 4, color),
            ));
            assert(indices@ =~= Seq::new(
                6 * ((i + 1) as nat),
                |j: int| (4 * (j / 6) + quad_corner(j % 6)) as u16,
            ));
        }
        i = i + 1;
    }
    Mesh { vertices, indices }
}

/// One vertex per point, each sampling the white texel.
pub fn solid_vertices(points: &Vec<Point>, color: Color, cfg: &ConvertConfig) -> (vertices: Vec<
    Vertex,
>)
    ensures
        vertices@ == Seq::new(points@.len(), |i: int| solid_vertex(points@[i], color, *cfg)),
{
    let mut vertices: Vec<Vertex> = Vec::new();
    let mut i: usize = 0;
    while i < points.len()
        invariant
            0 <= i <= points.len(),
            vertices@ == Seq::new(i as nat, |k: int| solid_vertex(points@[k], color, *cfg)),
        decreases points.len() - i,
    {
        let p = points[i];
        vertices.push(Vertex { x: p.x, y: p.y, u: cfg.null_u, v: cfg.null_v, color });
        assert(vertices@ =~= Seq::new(
            (i + 1) as nat,
            |k: int| solid_vertex(points@[k], color, *cfg),
        ));
        i = i + 1;
    }
    vertices
}

/// The fan of triangles over `n` vertices.
pub fn fan(n: usize) -> (indices: Vec<u16>)
    requires
        3 <= n <= MAX_MESH_VERTICES,
    ensures
        indices@ == Seq::new((3 * (n - 2)) as nat, |j: int| fan_index(j) as u16),
{
    let mut indices: Vec<u16> = Vec::new();
    let mut t: usize = 0;
    while t + 2 < n
        invariant
            3 <= n <= MAX_MESH_VERTICES,
            0 <= t <= n - 2,
            indices@ == Seq::new(3 * (t as nat), |j: int| fan_index(j) as u16),
        decreases n - t,
    {
        indices.push(0);
        indices.push((t + 1) as u16);
        indices.push((t + 2) as u16);
        assert(indices@ =~= Seq::new(3 * ((t + 1) as nat), |j: int| fan_index(j) as u16));
        t = t + 1;
    }
    indices
}

/// The two triangles per edge that span from an outline of `n` points to its
/// fringe.
pub fn ring(n: usize) -> (indices: Vec<u16>)
    requires
        3 <= n,
        2 * n <= MAX_MESH_VERTICES,
    ensures
        indices@ == Seq::new((6 * n) as nat, |j: int| ring_index(n as int, j) as u16),
{
    let mut indices: Vec<u16> = Vec::new();
    let mut i: usize = 0;
    while i < n
        invariant
            3 <= n,
            2 * n <= MAX_MESH_VERTICES,
            0 <= i <= n,
            indices@ == Seq::new((6 * i) as nat, |j: int| ring_index(n as int, j) as u16),
        decreases n - i,
    {
        let next: usize = if i + 1 == n { 0 } else { i + 1 };
        indices.push(i as u16);
        indices.push(next as u16);
        indices.push((n + next) as u16);
        indices.push(i as u16);
        indices.push((n + next) as u16);
        indices.push((n + i) as u16);
        assert(indices@ =~= Seq::new(
            (6 * (i + 1)) as nat,
            |j: int| ring_index(n as int, j) as u16,
        ));
        i = i + 1;
    }
    indices
}

/// The point of the fringe that belongs to point `i` of an outline.
pub fn fringe_at(points: &Vec<Point>, i: usize) -> (p: Point)
    requires
        i < points.len(),
        forall|k: int| 0 <= k < points@.len() ==> point_reachable(#[trigger] points@[k]),
    ensures
        p == fringe_point(points@, i as int),
        points@[i as int].x - 1 <= p.x <= points@[i as int].x + 1,
        points@[i as int].y - 1 <= p.y <= points@[i as int].y + 1,
{
    let n: usize = points.len();
    let before: usize = if i == 0 { n - 1 } else { i - 1 };
    let after: usize = if i + 1 == n { 0 } else { i + 1 };
    let here = points[i];
    let prev = points[before];
    let next = points[after];
    assert(point_reachable(points@[i as int]) && point_reachable(points@[before as int])
        && point_reachable(points@[after as int]));
    let dx: i64 = next.x as i64 - prev.x as i64;
    let dy: i64 = next.y as i64 - prev.y as i64;
    proof {
        lemma_leg_below_hypotenuse(dx as int, dy as int);
        lemma_leg_below_hypotenuse(dy as int, dx as int);
        assert(dx * dx + dy * dy == dy * dy + dx * dx);
        assert(0 <= dx * dx <= 0x2000_0000 * 0x2000_0000 && 0 <= dy * dy <= 0x2000_0000
            * 0x2000_0000) by (nonlinear_arith)
            requires
                -0x2000_0000 <= dx <= 0x2000_0000,
                -0x2000_0000 <= dy <= 0x2000_0000,
        ;
    }
    let len: i64 = isqrt((dx * dx + dy * dy) as u64) as i64;
    if len == 0 {
        return here;
    }
    proof {
        assert(len * 1 == len) by (nonlinear_arith);
        lemma_rounded_div_bound(dy as int, len as int, 1);
        lemma_rounded_div_bound(-dx as int, len as int, 1);
    }
    let ox: i64 = round_div(dy, len);
    let oy: i64 = round_div(-dx, len);
    Point { x: (here.x as i64 + ox) as i32, y: (here.y as i64 + oy) as i32 }
}

/// The mesh that fills a convex outline and fades its edge.
pub fn fringed(points: &Vec<Point>, color: Color, cfg: &ConvertConfig) -> (mesh: Mesh)
    requires
        3 <= points.len(),
        2 * points.len() <= MAX_MESH_VERTICES,
        forall|k: int| 0 <= k < points@.len() ==> point_reachable(#[trigger] points@[k]),
    ensures
        mesh@ == fringed_mesh(points@, color, *cfg),
{
    let n: usize = points.len();
    let clear = Color { r: color.r, g: color.g, b: color.b, a: 0 };
    let mut vertices = solid_vertices(points, color, cfg);
    let mut i: usize = 0;
    while i < n
        invariant
            n == points.len(),
            0 <= i <= n,
            clear == transparent(color),
            forall|k: int| 0 <= k < points@.len() ==> point_reachable(#[trigger] points@[k]),
            vertices@ == Seq::new(
                (n + i) as nat,
                |k: int|
                    if k < n {
                        solid_vertex(points@[k], color, *cfg)
                    } else {
                        solid_vertex(fringe_point(points@, k - n), transparent(color), *cfg)
                    },
            ),
        decreases n - i,
    {
        let p = fringe_at(points, i);
        vertices.push(Vertex { x: p.x, y: p.y, u: cfg.null_u, v: cfg.null_v, color: clear });
        assert(vertices@ =~= Seq::new(
            (n + i + 1) as nat,
            |k: int|
                if k < n {
                    solid_vertex(points@[k], color, *cfg)
                } else {
                    solid_vertex(fringe_point(points@, k - n), transparent(color), *cfg)
                },
        ));
        i = i + 1;
    }
    let mut indices = fan(n);
    let mut outer = ring(n);
    indices.append(&mut outer);
    assert(indices@ =~= fringed_mesh(points@, color, *cfg).indices);
    assert(vertices@ =~= fringed_mesh(points@, color, *cfg).vertices);
    Mesh { vertices, indices }
}

} // verus!
