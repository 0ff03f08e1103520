//! The buffers of one frame and the compiler that fills them from a list of
//! draw commands.
//!
//! A frame is a vertex array, an index array and a list of batches. A batch
//! is a run of consecutive commands with one texture and one clip rectangle;
//! its indices count from its own first vertex, so that 16 bits suffice for
//! them however many vertices the frame holds.

use vstd::prelude::*;
use crate::canvas::{commands_view, DrawCommand, DrawCommandView, Shape, NULL_TEXTURE};
use crate::geometry::Rect;
use crate::mesh::{push_shifted, shifted, ConvertConfig, MeshView, Vertex, MAX_MESH_VERTICES};
use crate::pack::{
    pack_indices, pack_vertices, packed_indices, packed_vertices, INDEX_BYTES, VERTEX_BYTES,
};
use crate::tessellate::{lemma_command_mesh_wf, tessellate};

verus! {

/// Bytes of one batch record: four range bounds, four clip coordinates and a
/// texture handle, 32 bits each.
pub const BATCH_BYTES: usize = 36;

/// A half-open range of positions in a buffer.
#[derive(Clone, Copy, Debug, PartialEq, Eq, Structural)]
pub struct Span {
    pub start: usize,
    pub end: usize,
}

/// A run of geometry that is drawn with one call: its vertices, its indices
/// (each counted from the first vertex of the batch), the rectangle it is
/// clipped to and the texture it samples.
#[derive(Clone, Copy, Debug, PartialEq, Eq, Structural)]
pub struct DrawBatch {
    pub vertex_range: Span,
    pub index_range: Span,
    pub clip_rect: Rect,
    pub texture_handle: u32,
}

/// The memory that a frame may take, in bytes, for its vertices, its indices
/// and its batch records.
#[derive(Clone, Copy, Debug, PartialEq, Eq, Structural)]
pub struct Budget {
    pub vertex_bytes: usize,
    pub index_bytes: usize,
    pub command_bytes: usize,
}

/// The error of a frame whose commands need more room than its budget: the
/// first `compiled` commands are in the buffers, the next one did not fit,
/// and nothing after it was looked at.
#[derive(Clone, Copy, Debug, PartialEq, Eq, Structural)]
pub struct CapacityExceeded {
    pub compiled: usize,
}

impl Span {
    /// The number of positions in the range.
    pub open spec fn count(self) -> int {
        self.end - self.start
    }
}

impl Budget {
    /// The number of vertices that fit the budget.
    pub open spec fn vertex_capacity(self) -> int {
        self.vertex_bytes as int / VERTEX_BYTES as int
    }

    /// The number of indices that fit the budget.
    pub open spec fn index_capacity(self) -> int {
        self.index_bytes as int / INDEX_BYTES as int
    }

    /// The number of batches that fit the budget.
    pub open spec fn batch_capacity(self) -> int {
        self.command_bytes as int / BATCH_BYTES as int
    }

    /// The number of vertices that fit the budget.
    pub fn max_vertices(&self) -> (n: usize)
        ensures
            n == self.vertex_capacity(),
    {
        self.vertex_bytes / VERTEX_BYTES
    }

    /// The number of indices that fit the budget.
    pub fn max_indices(&self) -> (n: usize)
        ensures
            n == self.index_capacity(),
    {
        self.index_bytes / INDEX_BYTES
    }

    /// The number of batches that fit the budget.
    pub fn max_batches(&self) -> (n: usize)
        ensures
            n == self.batch_capacity(),
    {
        self.command_bytes / BATCH_BYTES
    }
}

/// The mathematical value of the buffers of a frame.
pub struct FrameView {
    pub vertices: Seq<Vertex>,
    pub indices: Seq<u16>,
    pub batches: Seq<DrawBatch>,
}

impl FrameView {
    /// The frame without any geometry.
    pub open spec fn empty() -> FrameView {
        FrameView { vertices: Seq::empty(), indices: Seq::empty(), batches: Seq::empty() }
    }

    /// Batch `i` is not empty, can be indexed with 16 bits, begins where the
    /// batch before it ends (the first one at zero), lies within the buffers,
    /// and each of its indices names one of its own vertices.
    pub open spec fn batch_ok(self, i: int) -> bool {
        let b = self.batches[i];
        &&& b.vertex_range.start < b.vertex_range.end <= self.vertices.len()
        &&& b.vertex_range.count() <= MAX_MESH_VERTICES
        &&& b.index_range.start <= b.index_range.end <= self.indices.len()
        &&& b.vertex_range.start == if i == 0 {
            0
        } else {
            self.batches[i - 1].vertex_range.end as int
        }
        &&& b.index_range.start == if i == 0 {
            0
        } else {
            self.batches[i - 1].index_range.end as int
        }
        &&& forall|j: int|
            b.index_range.start <= j < b.index_range.end ==> (#[trigger] self.indices[j])
                < b.vertex_range.count()
    }

    /// The batches cover both buffers from end to end, in order and without a
    /// gap, and each of them is renderable on its own.
    pub open spec fn wf(self) -> bool {
        &&& forall|i: int| 0 <= i < self.batches.len() ==> #[trigger] self.batch_ok(i)
        &&& if self.batches.len() == 0 {
            self.vertices.len() == 0 && self.indices.len() == 0
        } else {
            self.batches.last().vertex_range.end == self.vertices.len()
                && self.batches.last().index_range.end == self.indices.len()
        }
    }

    /// Batch `i` and the batch after it could not have been one: they differ
    /// in texture or in clip rectangle, or together they hold more vertices
    /// than one batch can index.
    pub open spec fn apart(self, i: int) -> bool {
        let a = self.batches[i];
        let b = self.batches[i + 1];
        ||| a.texture_handle != b.texture_handle
        ||| a.clip_rect != b.clip_rect
        ||| a.vertex_range.count() + b.vertex_range.count() > MAX_MESH_VERTICES
    }

    /// No two neighbouring batches could have been one.
    pub open spec fn merged(self) -> bool {
        forall|i: int| 0 <= i < self.batches.len() - 1 ==> #[trigger] self.apart(i)
    }

    /// The buffers hold no more than the budget allows.
    pub open spec fn within(self, budget: Budget) -> bool {
        &&& self.vertices.len() <= budget.vertex_capacity()
        &&& self.indices.len() <= budget.index_capacity()
        &&& self.batches.len() <= budget.batch_capacity()
    }

    /// Whether geometry of `cmd` goes into the last batch: there is one, it
    /// has the command's texture and clip rectangle, and it stays indexable
    /// with the new vertices.
    pub open spec fn continues(self, cmd: DrawCommandView, mesh: MeshView) -> bool {
        &&& self.batches.len() > 0
        &&& self.batches.last().texture_handle == cmd.texture()
        &&& self.batches.last().clip_rect == cmd.clip
        &&& self.batches.last().vertex_range.count() + mesh.vertices.len() <= MAX_MESH_VERTICES
    }

    /// Whether the budget has room for the geometry of `cmd`. A command
    /// without geometry always fits.
    pub open spec fn fits(self, cmd: DrawCommandView, mesh: MeshView, budget: Budget) -> bool {
        mesh.vertices.len() == 0 || {
            &&& self.vertices.len() + mesh.vertices.len() <= budget.vertex_capacity()
            &&& self.indices.len() + mesh.indices.len() <= budget.index_capacity()
            &&& self.continues(cmd, mesh) || self.batches.len() + 1 <= budget.batch_capacity()
        }
    }

    /// The frame with the geometry of `cmd` added: to the last batch where it
    /// continues it, else as a new batch. A command without geometry adds
    /// nothing.
    pub open spec fn with(self, cmd: DrawCommandView, mesh: MeshView) -> FrameView {
        if mesh.vertices.len() == 0 {
            self
        } else if self.continues(cmd, mesh) {
            let last = self.batches.last();
            FrameView {
                vertices: self.vertices + mesh.vertices,
                indices: self.indices + shifted(mesh.indices, last.vertex_range.count()),
                batches: self.batches.update(
                    self.batches.len() - 1,
                    DrawBatch {
                        vertex_range: Span {
                            start: last.vertex_range.start,
                            end: (last.vertex_range.end + mesh.vertices.len()) as usize,
                        },
                        index_range: Span {
                            start: last.index_range.start,
                            end: (last.index_range.end + mesh.indices.len()) as usize,
                        },
                        clip_rect: last.clip_rect,
                        texture_handle: last.texture_handle,
                    },
                ),
            }
        } else {
            FrameView {
                vertices: self.vertices + mesh.vertices,
                indices: self.indices + mesh.indices,
                batches: self.batches.push(
                    DrawBatch {
                        vertex_range: Span {
                            start: self.vertices.len() as usize,
                            end: (self.vertices.len() + mesh.vertices.len()) as usize,
                        },
                        index_range: Span {
                            start: self.indices.len() as usize,
                            end: (self.indices.len() + mesh.indices.len()) as usize,
                        },
                        clip_rect: cmd.clip,
                        texture_handle: cmd.texture(),
                    },
                ),
            }
        }
    }
}

/// Adding a well-formed mesh that fits keeps a frame well formed and within
/// its budget.
pub proof fn lemma_with_wf(frame: FrameView, cmd: DrawCommandView, mesh: MeshView, budget: Budget)
    requires
        frame.wf(),
        frame.within(budget),
        mesh.wf(),
        frame.fits(cmd, mesh, budget),
    ensures
        frame.with(cmd, mesh).wf(),
        frame.with(cmd, mesh).within(budget),
{
    let next = frame.with(cmd, mesh);
    if mesh.vertices.len() == 0 {
    } else if frame.continues(cmd, mesh) {
        let n = frame.batches.len() as int;
        let last = frame.batches.last();
        assert(frame.batch_ok(n - 1));
        let offset = last.vertex_range.count();
        assert forall|i: int| 0 <= i < next.batches.len() implies #[trigger] next.batch_ok(i) by {
            assert(frame.batch_ok(i));
            let b = next.batches[i];
            assert forall|j: int| b.index_range.start <= j < b.index_range.end implies (
            #[trigger] next.indices[j]) < b.vertex_range.count() by {
                if j < frame.indices.len() {
                    assert(next.indices[j] == frame.indices[j]);
                } else {
                    let k = j - frame.indices.len();
                    assert(next.indices[j] == shifted(mesh.indices, offset)[k]);
                    assert(mesh.indices[k] < mesh.vertices.len());
                }
            }
        }
    } else {
        let n = frame.batches.len() as int;
        assert forall|i: int| 0 <= i < next.batches.len() implies #[trigger] next.batch_ok(i) by {
            if i < n {
                assert(frame.batch_ok(i));
                let b = next.batches[i];
                assert forall|j: int| b.index_range.start <= j < b.index_range.end implies (
                #[trigger] next.indices[j]) < b.vertex_range.count() by {
                    assert(next.indices[j] == frame.indices[j]);
                }
            } else {
                let b = next.batches[i];
                assert forall|j: int| b.index_range.start <= j < b.index_range.end implies (
                #[trigger] next.indices[j]) < b.vertex_range.count() by {
                    let k = j - frame.indices.len();
                    assert(next.indices[j] == mesh.indices[k]);
                }
            }
        }
    }
}

/// The frame compiled from the first `n` of `cmds`, where all of them fit.
pub open spec fn compiled(cmds: Seq<DrawCommandView>, cfg: ConvertConfig, n: int) -> FrameView
    decreases n,
{
    if n <= 0 {
        FrameView::empty()
    } else {
        compiled(cmds, cfg, n - 1).with(cmds[n - 1], cmds[n - 1].mesh(cfg))
    }
}

/// Whether the first `n` of `cmds` fit the budget, each on top of those
/// before it.
pub open spec fn fits_all(cmds: Seq<DrawCommandView>, cfg: ConvertConfig, budget: Budget, n: int)
    -> bool
    decreases n,
{
    n <= 0 || {
        &&& fits_all(cmds, cfg, budget, n - 1)
        &&& compiled(cmds, cfg, n - 1).fits(cmds[n - 1], cmds[n - 1].mesh(cfg), budget)
    }
}

/// Whether compiling `cmds` under `budget` takes in exactly the first `k`
/// commands and yields `frame`: those `k` fit, the next one, if there is one,
/// does not, and `frame` holds what the `k` draw.
pub open spec fn compiles_to(
    cmds: Seq<DrawCommandView>,
    cfg: ConvertConfig,
    budget: Budget,
    k: int,
    frame: FrameView,
) -> bool {
    &&& 0 <= k <= cmds.len()
    &&& fits_all(cmds, cfg, budget, k)
    &&& k < cmds.len() ==> !fits_all(cmds, cfg, budget, k + 1)
    &&& frame == compiled(cmds, cfg, k)
}

/// Where the first `m` commands fit, so do the first `n <= m`.
pub proof fn lemma_fits_all_prefix(
    cmds: Seq<DrawCommandView>,
    cfg: ConvertConfig,
    budget: Budget,
    n: int,
    m: int,
)
    requires
        n <= m,
        fits_all(cmds, cfg, budget, m),
    ensures
        fits_all(cmds, cfg, budget, n),
    decreases m - n,
{
    if n < m && m > 0 {
        lemma_fits_all_prefix(cmds, cfg, budget, n, m - 1);
    }
}

/// A frame compiled from commands that fit is well formed and within its
/// budget.
pub proof fn lemma_compiled_wf(
    cmds: Seq<DrawCommandView>,
    cfg: ConvertConfig,
    budget: Budget,
    n: int,
)
    requires
        0 <= n <= cmds.len(),
        fits_all(cmds, cfg, budget, n),
    ensures
        compiled(cmds, cfg, n).wf(),
        compiled(cmds, cfg, n).within(budget),
    decreases n,
{
    if n > 0 {
        lemma_compiled_wf(cmds, cfg, budget, n - 1);
        lemma_command_mesh_wf(cmds[n - 1], cfg);
        lemma_with_wf(compiled(cmds, cfg, n - 1), cmds[n - 1], cmds[n - 1].mesh(cfg), budget);
    }
}

/// Adding a mesh that fits to a well-formed frame whose batches are merged
/// leaves them merged: the mesh joins the last batch wherever it can.
pub proof fn lemma_with_merged(
    frame: FrameView,
    cmd: DrawCommandView,
    mesh: MeshView,
    budget: Budget,
)
    requires
        frame.wf(),
        frame.within(budget),
        frame.merged(),
        mesh.wf(),
        frame.fits(cmd, mesh, budget),
    ensures
        frame.with(cmd, mesh).merged(),
{
    let next = frame.with(cmd, mesh);
    let n = frame.batches.len() as int;
    if mesh.vertices.len() == 0 {
    } else if frame.continues(cmd, mesh) {
        assert(frame.batch_ok(n - 1));
        assert forall|i: int| 0 <= i < next.batches.len() - 1 implies #[trigger] next.apart(i) by {
            assert(frame.apart(i));
        }
    } else {
        assert forall|i: int| 0 <= i < next.batches.len() - 1 implies #[trigger] next.apart(i) by {
            if i < n - 1 {
                assert(frame.apart(i));
            } else {
                assert(frame.batch_ok(n - 1));
            }
        }
    }
}

/// The compiler merges what can be merged: in a frame compiled from commands
/// that fit, two neighbouring batches differ in texture or in clip
/// rectangle, or together they hold more vertices than one batch can index.
pub proof fn lemma_compiled_merged(
    cmds: Seq<DrawCommandView>,
    cfg: ConvertConfig,
    budget: Budget,
    n: int,
)
    requires
        0 <= n <= cmds.len(),
        fits_all(cmds, cfg, budget, n),
    ensures
        compiled(cmds, cfg, n).merged(),
    decreases n,
{
    if n > 0 {
        lemma_compiled_merged(cmds, cfg, budget, n - 1);
        lemma_compiled_wf(cmds, cfg, budget, n - 1);
        lemma_command_mesh_wf(cmds[n - 1], cfg);
        lemma_with_merged(compiled(cmds, cfg, n - 1), cmds[n - 1], cmds[n - 1].mesh(cfg), budget);
    }
}

/// Compiling is a function of its input: two runs over the same commands,
/// with the same configuration and budget, take in the same number of
/// commands and yield the same vertices, indices and batches.
pub proof fn lemma_compile_replay(
    cmds: Seq<DrawCommandView>,
    cfg: ConvertConfig,
    budget: Budget,
    k1: int,
    first: FrameView,
    k2: int,
    second: FrameView,
)
    requires
        compiles_to(cmds, cfg, budget, k1, first),
        compiles_to(cmds, cfg, budget, k2, second),
    ensures
        k1 == k2,
        first == second,
{
    if k1 < k2 {
        lemma_fits_all_prefix(cmds, cfg, budget, k1 + 1, k2);
    } else if k2 < k1 {
        lemma_fits_all_prefix(cmds, cfg, budget, k2 + 1, k1);
    }
}

/// The number of vertices in the first `n` batches.
pub open spec fn vertex_total(batches: Seq<DrawBatch>, n: int) -> int
    decreases n,
{
    if n <= 0 {
        0
    } else {
        vertex_total(batches, n - 1) + batches[n - 1].vertex_range.count()
    }
}

/// The number of indices in the first `n` batches.
pub open spec fn index_total(batches: Seq<DrawBatch>, n: int) -> int
    decreases n,
{
    if n <= 0 {
        0
    } else {
        index_total(batches, n - 1) + batches[n - 1].index_range.count()
    }
}

/// In a well-formed frame the first `n` batches hold exactly the vertices and
/// the indices up to where batch `n - 1` ends.
pub proof fn lemma_totals_prefix(frame: FrameView, n: int)
    requires
        frame.wf(),
        0 <= n <= frame.batches.len(),
    ensures
        vertex_total(frame.batches, n) == if n == 0 {
            0
        } else {
            frame.batches[n - 1].vertex_range.end as int
        },
        index_total(frame.batches, n) == if n == 0 {
            0
        } else {
            frame.batches[n - 1].index_range.end as int
        },
    decreases n,
{
    if n > 0 {
        lemma_totals_prefix(frame, n - 1);
        assert(frame.batch_ok(n - 1));
    }
}

/// The vertex counts of the batches of a well-formed frame add up to the
/// number of vertices in the frame, and their index counts to the number of
/// indices.
pub proof fn lemma_batch_totals(frame: FrameView)
    requires
        frame.wf(),
    ensures
        vertex_total(frame.batches, frame.batches.len() as int) == frame.vertices.len(),
        index_total(frame.batches, frame.batches.len() as int) == frame.indices.len(),
{
    lemma_totals_prefix(frame, frame.batches.len() as int);
}

/// Every batch of a compiled frame has the texture of one of the commands:
/// where each of the first `n` commands samples a texture in `allowed`, so
/// does each batch compiled from them.
pub proof fn lemma_batch_textures(
    cmds: Seq<DrawCommandView>,
    cfg: ConvertConfig,
    n: int,
    allowed: Set<u32>,
)
    requires
        0 <= n <= cmds.len(),
        forall|i: int| 0 <= i < n ==> allowed.contains((#[trigger] cmds[i]).texture()),
    ensures
        forall|j: int|
            0 <= j < compiled(cmds, cfg, n).batches.len() ==> allowed.contains(
                (#[trigger] compiled(cmds, cfg, n).batches[j]).texture_handle,
            ),
    decreases n,
{
    if n > 0 {
        lemma_batch_textures(cmds, cfg, n - 1, allowed);
        let before = compiled(cmds, cfg, n - 1);
        let after = compiled(cmds, cfg, n);
        assert(allowed.contains(cmds[n - 1].texture()));
        assert forall|j: int| 0 <= j < after.batches.len() implies allowed.contains(
            (#[trigger] after.batches[j]).texture_handle,
        ) by {
            if j < before.batches.len() {
                assert(allowed.contains(before.batches[j].texture_handle));
            }
        }
    }
}

/// The commands' view of a list, position by position.
pub proof fn lemma_commands_view_index(commands: Seq<DrawCommand>, i: int)
    requires
        0 <= i < commands.len(),
    ensures
        commands_view(commands).len() == commands.len(),
        commands_view(commands)[i] == commands[i]@,
{
}

/// The vertex, index and batch arrays of one frame. They are made once,
/// emptied and refilled every frame, and never hold more than the budget
/// they were made with.
pub struct FrameBuffers {
    vertices: Vec<Vertex>,
    indices: Vec<u16>,
    batches: Vec<DrawBatch>,
    budget: Budget,
}

impl View for FrameBuffers {
    type V = FrameView;

    closed spec fn view(&self) -> FrameView {
        FrameView { vertices: self.vertices@, indices: self.indices@, batches: self.batches@ }
    }
}

/// The texture that `cmd` samples.
fn command_texture(cmd: &DrawCommand) -> (texture: u32)
    ensures
        texture == cmd@.texture(),
{
    match &cmd.shape {
        Shape::Image { bounds, texture } => *texture,
        _ => NULL_TEXTURE,
    }
}

impl FrameBuffers {
    /// The budget that the buffers were made with.
    pub closed spec fn budget(self) -> Budget {
        self.budget
    }

    /// The batches cover the buffers in order, each renderable on its own,
    /// and the buffers are within their budget.
    pub open spec fn wf(self) -> bool {
        self@.wf() && self@.within(self.budget())
    }

    /// Empty buffers for frames within `budget`. Room for what the budget
    /// allows is reserved at once, where the machine has it.
    pub fn new(budget: Budget) -> (buffers: FrameBuffers)
        ensures
            buffers@ == FrameView::empty(),
            buffers.budget() == budget,
            buffers.wf(),
    {
        let mut vertices: Vec<Vertex> = Vec::new();
        let mut indices: Vec<u16> = Vec::new();
        let mut batches: Vec<DrawBatch> = Vec::new();
        let _ = vertices.try_reserve(budget.max_vertices());
        let _ = indices.try_reserve(budget.max_indices());
        let _ = batches.try_reserve(budget.max_batches());
        FrameBuffers { vertices, indices, batches, budget }
    }

    /// The budget that the buffers were made with.
    pub fn capacity(&self) -> (budget: Budget)
        ensures
            budget == self.budget(),
    {
        self.budget
    }

    /// The vertices of the frame.
    pub fn vertices(&self) -> (list: &Vec<Vertex>)
        ensures
            list@ == self@.vertices,
    {
        &self.vertices
    }

    /// The indices of the frame, each counted from the first vertex of its
    /// batch.
    pub fn indices(&self) -> (list: &Vec<u16>)
        ensures
            list@ == self@.indices,
    {
        &self.indices
    }

    /// The batches of the frame in the order in which they are to be drawn.
    pub fn batches(&self) -> (list: &Vec<DrawBatch>)
        ensures
            list@ == self@.batches,
    {
        &self.batches
    }

    /// The vertex buffer as a backend uploads it: the packed records of the
    /// vertices.
    pub fn vertex_bytes(&self) -> (bytes: Vec<u8>)
        ensures
            bytes@ == packed_vertices(self@.vertices),
    {
        pack_vertices(&self.vertices)
    }

    /// The index buffer as a backend uploads it: the packed indices.
    pub fn index_bytes(&self) -> (bytes: Vec<u8>)
        ensures
            bytes@ == packed_indices(self@.indices),
    {
        pack_indices(&self.indices)
    }

    /// Empties the buffers and keeps their room.
    pub fn clear(&mut self)
        ensures
            final(self)@ == FrameView::empty(),
            final(self).budget() == old(self).budget(),
            final(self).wf(),
    {
        self.vertices.clear();
        self.indices.clear();
        self.batches.clear();
    }

    /// Adds the geometry of `cmd` where the budget has room for it, and says
    /// whether it had. Without room the buffers stay as they are.
    pub fn append(&mut self, cmd: &DrawCommand, cfg: &ConvertConfig) -> (fitted: bool)
        requires
            old(self).wf(),
        ensures
            final(self).budget() == old(self).budget(),
            fitted == old(self)@.fits(cmd@, cmd@.mesh(*cfg), old(self).budget()),
            final(self)@ == if fitted {
                old(self)@.with(cmd@, cmd@.mesh(*cfg))
            } else {
                old(self)@
            },
            final(self).wf(),
    {
        let mut mesh = tessellate(cmd, cfg);
        let ghost shape = mesh@;
        let nv: usize = mesh.vertices.len();
        let ni: usize = mesh.indices.len();
        if nv == 0 {
            return true;
        }
        let texture: u32 = command_texture(cmd);
        let nb: usize = self.batches.len();
        let mut continues: bool = false;
        if nb > 0 {
            let last = self.batches[nb - 1];
            assert(self@.batch_ok(nb - 1));
            continues = last.texture_handle == texture && last.clip_rect == cmd.clip
                && last.vertex_range.end - last.vertex_range.start + nv <= MAX_MESH_VERTICES;
        }
        assert(continues == self@.continues(cmd@, shape));
        let max_v: usize = self.budget.max_vertices();
        let max_i: usize = self.budget.max_indices();
        let max_b: usize = self.budget.max_batches();
        if nv > max_v - self.vertices.len() || ni > max_i - self.indices.len() || (!continues
            && nb >= max_b) {
            return false;
        }
        proof {
            lemma_with_wf(self@, cmd@, shape, self.budget);
        }
        let v0: usize = self.vertices.len();
        let i0: usize = self.indices.len();
        if continues {
            let last = self.batches[nb - 1];
            let offset: usize = last.vertex_range.end - last.vertex_range.start;
            push_shifted(&mut self.indices, &mesh.indices, offset, nv);
            self.vertices.append(&mut mesh.vertices);
            self.batches.set(
                nb - 1,
                DrawBatch {
                    vertex_range: Span { start: last.vertex_range.start, end: v0 + nv },
                    index_range: Span { start: last.index_range.start, end: i0 + ni },
                    clip_rect: last.clip_rect,
                    texture_handle: last.texture_handle,
                },
            );
        } else {
            self.vertices.append(&mut mesh.vertices);
            self.indices.append(&mut mesh.indices);
            self.batches.push(
                DrawBatch {
                    vertex_range: Span { start: v0, end: v0 + nv },
                    index_range: Span { start: i0, end: i0 + ni },
                    clip_rect: cmd.clip,
                    texture_handle: texture,
                },
            );
        }
        assert(self@.batches =~= old(self)@.with(cmd@, shape).batches);
        true
    }

    /// Compiles the commands of one frame: empties the buffers, then adds the
    /// geometry of each command in turn, merging consecutive commands with
    /// the same texture and clip rectangle into one batch. It stops at the
    /// first command that the budget has no room for and reports how many
    /// commands came before it; what those drew stays in the buffers and can
    /// be rendered.
    pub fn compile(&mut self, commands: &Vec<DrawCommand>, cfg: &ConvertConfig) -> (status: Result<
        (),
        CapacityExceeded,
    >)
        ensures
            final(self).budget() == old(self).budget(),
            final(self).wf(),
            status is Ok <==> fits_all(
                commands_view(commands@),
                *cfg,
                old(self).budget(),
                commands@.len() as int,
            ),
            status is Ok ==> compiles_to(
                commands_view(commands@),
                *cfg,
                old(self).budget(),
                commands@.len() as int,
                final(self)@,
            ),
            status matches Err(e) ==> e.compiled < commands@.len() && compiles_to(
                commands_view(commands@),
                *cfg,
                old(self).budget(),
                e.compiled as int,
                final(self)@,
            ),
    {
        self.clear();
        let ghost list = commands_view(commands@);
        let ghost budget = self.budget;
        let mut i: usize = 0;
        while i < commands.len()
            invariant
                0 <= i <= commands.len(),
                list == commands_view(commands@),
                budget == old(self).budget(),
                self.budget() == budget,
                self.wf(),
                self@ == compiled(list, *cfg, i as int),
                fits_all(list, *cfg, budget, i as int),
            decreases commands.len() - i,
        {
            proof {
                lemma_commands_view_index(commands@, i as int);
            }
            if !self.append(&commands[i], cfg) {
                proof {
                    if fits_all(list, *cfg, budget, commands@.len() as int) {
                        lemma_fits_all_prefix(list, *cfg, budget, i + 1, commands@.len() as int);
                    }
                }
                return Err(CapacityExceeded { compiled: i });
            }
            i = i + 1;
        }
        Ok(())
    }
}

} // verus!
