//! The per-frame protocol: rewind the batcher, traverse every loaded asset
//! under its placement, and flush the accumulated batches as instanced
//! submissions.
//!
//! Camera math and the projection/view uniform uploads are the embedder's
//! concern (they are driver-facing floating-point work); what this module
//! pins down is the ordering contract — clear before traversal, traversal
//! before flush — and exactly what the frame leaves in the batcher and in
//! the command stream.

use vstd::prelude::*;

use crate::commands::GlCtx;
use crate::draw_calls::{apply_add, flush_cmds, total_instances, BatchesView, DrawCalls};
use crate::gltf::{apply_adds, Gltf};
use crate::mat::Mat;

verus! {

/// The batcher state after traversing each listed asset in order, each
/// seeded with its own placement transform.
pub open spec fn fold_models(b: BatchesView, models: Seq<(Gltf, Mat)>) -> BatchesView
    decreases models.len(),
{
    if models.len() == 0 {
        b
    } else {
        fold_models(
            apply_adds(b, models[0].0.scene_adds(models[0].1.view_bits())),
            models.drop_first(),
        )
    }
}

/// The batcher with every batch emptied (descriptors kept).
pub open spec fn cleared_batches(b: BatchesView) -> BatchesView {
    Seq::new(b.len(), |i: int| (b[i].0, Seq::<Seq<u32>>::empty()))
}

/// Runs one frame: clears the batcher, traverses every asset, and — when
/// the staged instance data fits the machine's byte range, which it always
/// does for realistic scenes — flushes, appending exactly the accumulated
/// batches' submission commands.  Returns whether the flush ran.
pub fn render_frame(
    ctx: &mut GlCtx,
    draw_calls: &mut DrawCalls,
    models: &Vec<(Gltf, Mat)>,
    model_transform_attrib_locations: [u32; 4],
) -> (flushed: bool)
    requires
        old(draw_calls).wf(),
        forall|i: int| 0 <= i < models@.len() ==> (#[trigger] models@[i]).0.wf(),
    ensures
        final(draw_calls).wf(),
        final(draw_calls).batches_view() == fold_models(
            cleared_batches(old(draw_calls).batches_view()),
            models@,
        ),
        flushed ==> final(ctx).cmds() == old(ctx).cmds() + flush_cmds(
            final(draw_calls).batches_view(),
            (crate::bumpalloc_buffer::ArenaState {
                offset: 0,
                mirror: Seq::<u8>::empty(),
                ..old(draw_calls).arena().state()
            }),
            model_transform_attrib_locations,
        ),
        !flushed ==> final(ctx).cmds() == old(ctx).cmds(),
        flushed <==> old(draw_calls).arena().size_spec() + 64 * total_instances(
            fold_models(cleared_batches(old(draw_calls).batches_view()), models@),
        ) <= usize::MAX,
{
    draw_calls.clear();
    let ghost cleared = draw_calls.batches_view();
    let n: usize = models.len();
    let mut i: usize = 0;
    proof {
        assert(models@.skip(0) =~= models@);
    }
    while i < n
        invariant
            0 <= i <= n,
            n == models@.len(),
            draw_calls.wf(),
            forall|k: int| 0 <= k < models@.len() ==> (#[trigger] models@[k]).0.wf(),
            fold_models(cleared, models@) == fold_models(
                draw_calls.batches_view(),
                models@.skip(i as int),
            ),
            draw_calls.arena().state() == (crate::bumpalloc_buffer::ArenaState {
                offset: 0,
                mirror: Seq::<u8>::empty(),
                ..old(draw_calls).arena().state()
            }),
            ctx.cmds() == old(ctx).cmds(),
            ctx.names_spec() == old(ctx).names_spec(),
        decreases n - i,
    {
        proof {
            assert(models@.skip(i as int).drop_first() =~= models@.skip(i + 1));
            assert(models@.skip(i as int)[0] == models@[i as int]);
        }
        let entry = &models[i];
        entry.0.draw(draw_calls, entry.1);
        i = i + 1;
    }
    proof {
        assert(models@.skip(n as int) =~= Seq::<(Gltf, Mat)>::empty());
    }
    if draw_calls.flush_fits() {
        draw_calls.draw(ctx, model_transform_attrib_locations);
        true
    } else {
        false
    }
}

} // verus!
