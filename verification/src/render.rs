//! The renderer: one draw call per batch, in the order of the batches.

use vstd::prelude::*;
use crate::canvas::NULL_TEXTURE;
use crate::canvas::DrawCommandView;
use crate::frame::{
    compiled, fits_all, index_total, lemma_batch_textures, lemma_batch_totals, lemma_compiled_wf,
    vertex_total, Budget, DrawBatch, FrameBuffers,
};
use crate::mesh::ConvertConfig;
use crate::geometry::Rect;
use crate::registry::{TextureRegistry, UnknownTextureHandle};

verus! {

/// The texture that a draw call samples.
#[derive(Clone, Copy, Debug, PartialEq, Eq, Structural)]
pub enum TextureBinding {
    /// The font atlas, which the reserved null handle stands for.
    Atlas,
    /// The registered texture with this handle.
    Registered(u32),
}

/// One indexed draw: clip to `clip_rect`, bind `binding`, and draw
/// `index_count` indices from position `first_index` of the frame's index
/// buffer, each counted from vertex `base_vertex`.
#[derive(Clone, Copy, Debug, PartialEq, Eq, Structural)]
pub struct DrawCall {
    /// Position of the batch in the frame.
    pub batch: usize,
    pub binding: TextureBinding,
    pub clip_rect: Rect,
    pub base_vertex: usize,
    pub first_index: usize,
    pub index_count: usize,
}

/// What rendering a frame came to: the calls to issue, in order, and one
/// error for each batch that was left out because its texture is unknown.
#[derive(Clone, Debug, PartialEq, Eq)]
pub struct RenderReport {
    pub calls: Vec<DrawCall>,
    pub errors: Vec<UnknownTextureHandle>,
}

/// Whether a batch with texture `handle` can be drawn with a registry that
/// has issued `issued` handles: the null handle always can, another one if it
/// was issued.
pub open spec fn bindable(handle: u32, issued: nat) -> bool {
    handle == NULL_TEXTURE || 1 <= handle <= issued
}

/// The texture that `handle` binds.
pub open spec fn binding_of(handle: u32) -> TextureBinding {
    if handle == NULL_TEXTURE {
        TextureBinding::Atlas
    } else {
        TextureBinding::Registered(handle)
    }
}

/// The draw call of batch `i`.
pub open spec fn call_of(batch: DrawBatch, i: int) -> DrawCall {
    DrawCall {
        batch: i as usize,
        binding: binding_of(batch.texture_handle),
        clip_rect: batch.clip_rect,
        base_vertex: batch.vertex_range.start,
        first_index: batch.index_range.start,
        index_count: (batch.index_range.end - batch.index_range.start) as usize,
    }
}

/// The draw calls of the first `n` batches: the call of each batch whose
/// texture can be bound, in the order of the batches.
pub open spec fn calls_of(batches: Seq<DrawBatch>, issued: nat, n: int) -> Seq<DrawCall>
    decreases n,
{
    if n <= 0 {
        Seq::empty()
    } else if bindable(batches[n - 1].texture_handle, issued) {
        calls_of(batches, issued, n - 1).push(call_of(batches[n - 1], n - 1))
    } else {
        calls_of(batches, issued, n - 1)
    }
}

/// The errors of the first `n` batches: the handle of each batch whose
/// texture cannot be bound, in the order of the batches.
pub open spec fn errors_of(batches: Seq<DrawBatch>, issued: nat, n: int) -> Seq<
    UnknownTextureHandle,
>
    decreases n,
{
    if n <= 0 {
        Seq::empty()
    } else if bindable(batches[n - 1].texture_handle, issued) {
        errors_of(batches, issued, n - 1)
    } else {
        errors_of(batches, issued, n - 1).push(
            UnknownTextureHandle { handle: batches[n - 1].texture_handle },
        )
    }
}

/// Every batch ends as a draw call or as an error, never as both.
pub proof fn lemma_one_outcome_per_batch(batches: Seq<DrawBatch>, issued: nat, n: int)
    requires
        0 <= n <= batches.len(),
    ensures
        calls_of(batches, issued, n).len() + errors_of(batches, issued, n).len() == n,
    decreases n,
{
    if n > 0 {
        lemma_one_outcome_per_batch(batches, issued, n - 1);
    }
}

/// Where the texture of every batch can be bound, the renderer issues exactly
/// one draw call per batch, in the order of the batches, and no error.
pub proof fn lemma_one_call_per_batch(batches: Seq<DrawBatch>, issued: nat, n: int)
    requires
        0 <= n <= batches.len(),
        forall|i: int| 0 <= i < n ==> bindable((#[trigger] batches[i]).texture_handle, issued),
    ensures
        calls_of(batches, issued, n).len() == n,
        errors_of(batches, issued, n).len() == 0,
        forall|i: int|
            0 <= i < n ==> (#[trigger] calls_of(batches, issued, n)[i]) == call_of(batches[i], i),
    decreases n,
{
    if n > 0 {
        lemma_one_call_per_batch(batches, issued, n - 1);
        assert(bindable(batches[n - 1].texture_handle, issued));
    }
}

/// A texture that can be bound stays so however many textures are registered
/// after it: nothing is ever taken out of a registry.
pub proof fn lemma_bindable_stays(handle: u32, issued: nat, later: nat)
    requires
        bindable(handle, issued),
        issued <= later,
    ensures
        bindable(handle, later),
{
}

/// Round trip of texture handles: where every command of a frame samples the
/// atlas or a texture that the registry has issued, every batch compiled
/// from the commands can be bound, and the renderer draws all of them.
pub proof fn lemma_compiled_textures_resolve(
    cmds: Seq<DrawCommandView>,
    cfg: ConvertConfig,
    n: int,
    issued: nat,
)
    requires
        0 <= n <= cmds.len(),
        forall|i: int| 0 <= i < n ==> bindable((#[trigger] cmds[i]).texture(), issued),
    ensures
        forall|j: int|
            0 <= j < compiled(cmds, cfg, n).batches.len() ==> bindable(
                (#[trigger] compiled(cmds, cfg, n).batches[j]).texture_handle,
                issued,
            ),
        errors_of(
            compiled(cmds, cfg, n).batches,
            issued,
            compiled(cmds, cfg, n).batches.len() as int,
        ).len() == 0,
        calls_of(
            compiled(cmds, cfg, n).batches,
            issued,
            compiled(cmds, cfg, n).batches.len() as int,
        ).len() == compiled(cmds, cfg, n).batches.len(),
{
    let allowed = Set::new(|h: u32| bindable(h, issued));
    lemma_batch_textures(cmds, cfg, n, allowed);
    let batches = compiled(cmds, cfg, n).batches;
    assert forall|j: int| 0 <= j < batches.len() implies bindable(
        (#[trigger] batches[j]).texture_handle,
        issued,
    ) by {
        assert(allowed.contains(batches[j].texture_handle));
    }
    lemma_one_call_per_batch(batches, issued, batches.len() as int);
}

/// A frame that fits its budget and samples only textures that can be bound
/// is rendered whole: the renderer issues exactly one draw call per batch, in
/// the order of the batches, and the vertices and indices of the batches add
/// up to those of the frame.
pub proof fn lemma_frame_rendered_whole(
    cmds: Seq<DrawCommandView>,
    cfg: ConvertConfig,
    budget: Budget,
    issued: nat,
)
    requires
        fits_all(cmds, cfg, budget, cmds.len() as int),
        forall|i: int| 0 <= i < cmds.len() ==> bindable((#[trigger] cmds[i]).texture(), issued),
    ensures
        ({
            let frame = compiled(cmds, cfg, cmds.len() as int);
            let n = frame.batches.len() as int;
            let calls = calls_of(frame.batches, issued, n);
            &&& calls.len() == n
            &&& errors_of(frame.batches, issued, n).len() == 0
            &&& forall|i: int| 0 <= i < n ==> (#[trigger] calls[i]) == call_of(frame.batches[i], i)
            &&& vertex_total(frame.batches, n) == frame.vertices.len()
            &&& index_total(frame.batches, n) == frame.indices.len()
        }),
{
    let frame = compiled(cmds, cfg, cmds.len() as int);
    lemma_compiled_wf(cmds, cfg, budget, cmds.len() as int);
    lemma_batch_totals(frame);
    lemma_compiled_textures_resolve(cmds, cfg, cmds.len() as int, issued);
    lemma_one_call_per_batch(frame.batches, issued, frame.batches.len() as int);
}

/// Turns the batches of a frame into draw calls, first batch first. A batch
/// whose texture handle the registry never issued is left out and reported;
/// the batches after it are still drawn.
pub fn render<R>(frame: &FrameBuffers, registry: &TextureRegistry<R>) -> (report: RenderReport)
    requires
        frame@.wf(),
    ensures
        report.calls@ == calls_of(frame@.batches, registry@.len(), frame@.batches.len() as int),
        report.errors@ == errors_of(frame@.batches, registry@.len(), frame@.batches.len() as int),
{
    let batches = frame.batches();
    let mut calls: Vec<DrawCall> = Vec::new();
    let mut errors: Vec<UnknownTextureHandle> = Vec::new();
    let mut i: usize = 0;
    while i < batches.len()
        invariant
            0 <= i <= batches.len(),
            batches@ == frame@.batches,
            frame@.wf(),
            calls@ == calls_of(batches@, registry@.len(), i as int),
            errors@ == errors_of(batches@, registry@.len(), i as int),
        decreases batches.len() - i,
    {
        let batch = batches[i];
        assert(frame@.batch_ok(i as int));
        if batch.texture_handle == NULL_TEXTURE {
            calls.push(
                DrawCall {
                    batch: i,
                    binding: TextureBinding::Atlas,
                    clip_rect: batch.clip_rect,
                    base_vertex: batch.vertex_range.start,
                    first_index: batch.index_range.start,
                    index_count: batch.index_range.end - batch.index_range.start,
                },
            );
        } else if registry.contains(batch.texture_handle) {
            calls.push(
                DrawCall {
                    batch: i,
                    binding: TextureBinding::Registered(batch.texture_handle),
                    clip_rect: batch.clip_rect,
                    base_vertex: batch.vertex_range.start,
                    first_index: batch.index_range.start,
                    index_count: batch.index_range.end - batch.index_range.start,
                },
            );
        } else {
            errors.push(UnknownTextureHandle { handle: batch.texture_handle });
        }
        i = i + 1;
    }
    RenderReport { calls, errors }
}

} // verus!
