//! The draw-call batcher.
//!
//! `add` accumulates (descriptor, instance transform) pairs; descriptors are
//! the batching key, so primitives sharing one GPU binding configuration are
//! drawn with a single instanced submission however many nodes reference
//! them.  `draw` flushes: for each non-empty batch it stages the batch's
//! instance transforms through the bump arena and records one instanced
//! indexed draw.  `clear` empties every batch and the arena.

use vstd::prelude::*;

use crate::bumpalloc_buffer::{
    arena_alloc_cmds, arena_state_allocate, ArenaState, BumpAllocatedBuffer,
};
use crate::commands::{BufferTarget, BufferUsage, Cmd, GlCmd, GlCtx, Winding};
use crate::mat::{mat_bytes, push_mat_bytes, Mat};

verus! {

/// The GL component type enumerant for single-precision floats.
pub const FLOAT_COMPONENT_TYPE: u32 = 5126;

/// One GPU binding configuration: the batching key.  Two descriptors are
/// equal exactly when all fields match.
#[derive(Clone, Copy, PartialEq, Eq, Structural, Debug)]
pub struct DrawCall {
    pub vao: u64,
    pub mode: u32,
    pub index_buffer: u64,
    pub index_type: u32,
    pub index_byte_offset: usize,
    pub index_count: usize,
    /// If vertex colors aren't provided, they should default to 1, 1, 1, 1
    /// instead of the driver default 0, 0, 0, 1.  The default has to be
    /// supplied at draw time, so this holds the color attribute's location
    /// when that attribute is disabled.
    pub disabled_all_ones_vertex_attribute: Option<u32>,
    pub front_face: Winding,
}

/// The batcher's mathematical state: descriptors with the element bits of
/// their accumulated instance transforms, in insertion order.
pub type BatchesView = Seq<(DrawCall, Seq<Seq<u32>>)>;

/// Distinct descriptors: the batching-key invariant.
pub open spec fn batches_distinct(b: BatchesView) -> bool {
    forall|i: int, j: int| 0 <= i < j < b.len() ==> (#[trigger] b[i]).0 != (#[trigger] b[j]).0
}

/// Every accumulated transform has sixteen elements.
pub open spec fn batches_mats_wf(b: BatchesView) -> bool {
    forall|i: int, j: int|
        0 <= i < b.len() && 0 <= j < (#[trigger] b[i]).1.len() ==> (#[trigger] b[i].1[j]).len()
            == 16
}

/// The total number of accumulated instances.
pub open spec fn total_instances(b: BatchesView) -> int
    decreases b.len(),
{
    if b.len() == 0 {
        0
    } else {
        b[0].1.len() + total_instances(b.drop_first())
    }
}

/// The number of batches that hold at least one instance.
pub open spec fn nonempty_batches(b: BatchesView) -> int
    decreases b.len(),
{
    if b.len() == 0 {
        0
    } else {
        (if b[0].1.len() > 0 {
            1int
        } else {
            0int
        }) + nonempty_batches(b.drop_first())
    }
}

/// What `add` does to the batcher state: append the transform to the
/// descriptor's batch, creating the batch if the descriptor is new.
pub open spec fn apply_add(b: BatchesView, dc: DrawCall, t: Seq<u32>) -> BatchesView {
    if exists|i: int| 0 <= i < b.len() && b[i].0 == dc {
        let i = choose|i: int| 0 <= i < b.len() && b[i].0 == dc;
        b.update(i, (dc, b[i].1.push(t)))
    } else {
        b.push((dc, seq![t]))
    }
}

/// The byte image of a sequence of transforms, one 64-byte matrix after
/// another.
pub open spec fn transforms_bytes(ts: Seq<Seq<u32>>) -> Seq<u8>
    decreases ts.len(),
{
    if ts.len() == 0 {
        Seq::empty()
    } else {
        transforms_bytes(ts.drop_last()) + mat_bytes(ts.last())
    }
}

/// Enable one per-instance matrix-column attribute and point it at the
/// staged transforms.
pub open spec fn attrib_cmds(location: u32, offset: usize) -> Seq<Cmd> {
    seq![
        Cmd::EnableVertexAttribArray { location },
        Cmd::VertexAttribPointer {
            location,
            size: 4,
            component_type: FLOAT_COMPONENT_TYPE,
            normalized: false,
            stride: 64,
            offset,
        },
        Cmd::VertexAttribDivisor { location, divisor: 1 },
    ]
}

/// The commands one non-empty batch records: bind the vertex array, stage
/// the instance transforms through the arena, point the four per-instance
/// attribute columns at them, apply the default-color and winding state,
/// bind the index buffer and draw.
pub open spec fn batch_cmds(
    dc: DrawCall,
    ts: Seq<Seq<u32>>,
    s: ArenaState,
    locations: [u32; 4],
) -> Seq<Cmd> {
    seq![Cmd::BindVertexArray { vao: dc.vao }] + arena_alloc_cmds(s, transforms_bytes(ts))
        + seq![Cmd::BindBuffer { target: BufferTarget::Array, buffer: s.buffer }] + attrib_cmds(
        locations@[0],
        s.offset as usize,
    ) + attrib_cmds(locations@[1], (s.offset + 16) as usize) + attrib_cmds(
        locations@[2],
        (s.offset + 32) as usize,
    ) + attrib_cmds(locations@[3], (s.offset + 48) as usize) + (
    match dc.disabled_all_ones_vertex_attribute {
        Some(location) => seq![Cmd::VertexAttribAllOnes { location }],
        None => Seq::<Cmd>::empty(),
    }) + seq![
        Cmd::FrontFace { winding: dc.front_face },
        Cmd::BindBuffer { target: BufferTarget::ElementArray, buffer: dc.index_buffer },
        Cmd::DrawElementsInstanced {
            mode: dc.mode,
            index_count: dc.index_count,
            index_type: dc.index_type,
            index_byte_offset: dc.index_byte_offset,
            instance_count: ts.len() as usize,
        },
    ]
}

/// The command sequence that flushing the batches appends, given the
/// arena's state on arrival: non-empty batches in order, each one
/// submission.
pub open spec fn flush_cmds(b: BatchesView, s: ArenaState, locations: [u32; 4]) -> Seq<Cmd>
    decreases b.len(),
{
    if b.len() == 0 {
        Seq::empty()
    } else if b[0].1.len() == 0 {
        flush_cmds(b.drop_first(), s, locations)
    } else {
        batch_cmds(b[0].0, b[0].1, s, locations) + flush_cmds(
            b.drop_first(),
            arena_state_allocate(s, transforms_bytes(b[0].1)),
            locations,
        )
    }
}

pub struct DrawCalls {
    batches: Vec<(DrawCall, Vec<Mat>)>,
    temp_buffer: BumpAllocatedBuffer,
}

impl DrawCalls {
    pub closed spec fn batches_view(self) -> BatchesView {
        Seq::new(
            self.batches@.len() as nat,
            |i: int|
                (
                    self.batches@[i].0,
                    Seq::new(
                        self.batches@[i].1@.len() as nat,
                        |j: int| self.batches@[i].1@[j].view_bits(),
                    ),
                ),
        )
    }

    pub closed spec fn arena(self) -> BumpAllocatedBuffer {
        self.temp_buffer
    }

    pub open spec fn wf(self) -> bool {
        &&& batches_distinct(self.batches_view())
        &&& batches_mats_wf(self.batches_view())
        &&& self.arena().wf()
        &&& self.arena().target_spec() == BufferTarget::Array
    }

    pub fn new(ctx: &mut GlCtx) -> (r: DrawCalls)
        ensures
            r.wf(),
            r.batches_view() == Seq::<(DrawCall, Seq<Seq<u32>>)>::empty(),
            r.arena().offset_spec() == 0,
            r.arena().size_spec() == 0,
            final(ctx).cmds() == old(ctx).cmds().push(
                Cmd::CreateBuffer { buffer: r.arena().buffer_spec() },
            ),
    {
        let temp_buffer = BumpAllocatedBuffer::new(
            ctx,
            BufferTarget::Array,
            BufferUsage::StreamDraw,
        );
        let r = DrawCalls { batches: Vec::new(), temp_buffer };
        proof {
            assert(r.batches_view() =~= Seq::<(DrawCall, Seq<Seq<u32>>)>::empty());
        }
        r
    }

    /// Accumulates one instance of the descriptor with the given transform.
    pub fn add(&mut self, draw_call: DrawCall, transform: Mat)
        requires
            old(self).wf(),
        ensures
            final(self).wf(),
            final(self).batches_view() == apply_add(
                old(self).batches_view(),
                draw_call,
                transform.view_bits(),
            ),
            final(self).arena() == old(self).arena(),
            total_instances(final(self).batches_view()) == total_instances(
                old(self).batches_view(),
            ) + 1,
    {
        let ghost b0 = self.batches_view();
        let mut i: usize = 0;
        let n: usize = self.batches.len();
        while i < n
            invariant
                0 <= i <= n,
                n == self.batches@.len(),
                b0 == self.batches_view(),
                b0 == old(self).batches_view(),
                old(self).wf(),
                self.arena() == old(self).arena(),
                forall|j: int| 0 <= j < i ==> (#[trigger] self.batches@[j]).0 != draw_call,
            decreases n - i,
        {
            if self.batches[i].0 == draw_call {
                let ghost raw0 = self.batches@;
                let (key, mut ts) = self.batches.remove(i);
                ts.push(transform);
                self.batches.insert(i, (key, ts));
                proof {
                    let entry = (key, ts);
                    vstd::seq_lib::lemma_update_is_remove_insert(raw0, i as int, entry);
                    assert(self.batches@ =~= raw0.update(i as int, entry));
                    lemma_apply_add_at(b0, draw_call, transform.view_bits(), i as int);
                    assert(self.batches_view() =~~= b0.update(
                        i as int,
                        (draw_call, b0[i as int].1.push(transform.view_bits())),
                    ));
                    lemma_total_instances_update(
                        b0,
                        i as int,
                        (draw_call, b0[i as int].1.push(transform.view_bits())),
                    );
                    assert(batches_distinct(self.batches_view()));
                    assert(batches_mats_wf(self.batches_view()));
                }
                return ;
            }
            i = i + 1;
        }
        let mut ts: Vec<Mat> = Vec::new();
        ts.push(transform);
        self.batches.push((draw_call, ts));
        proof {
            assert(forall|k: int| 0 <= k < b0.len() ==> (#[trigger] b0[k]).0 != draw_call);
            lemma_apply_add_new(b0, draw_call, transform.view_bits());
            assert(self.batches_view() =~~= b0.push((draw_call, seq![transform.view_bits()])));
            lemma_total_instances_push(b0, (draw_call, seq![transform.view_bits()]));
            assert(batches_distinct(self.batches_view()));
            assert(batches_mats_wf(self.batches_view()));
        }
    }

    /// Flushes every non-empty batch as one instanced submission.
    #[verifier::rlimit(100)]
    pub fn draw(&mut self, ctx: &mut GlCtx, model_transform_attrib_locations: [u32; 4])
        requires
            old(self).wf(),
            old(self).arena().size_spec() + 64 * total_instances(old(self).batches_view())
                <= usize::MAX,
        ensures
            final(self).wf(),
            final(self).batches_view() == old(self).batches_view(),
            final(ctx).cmds() == old(ctx).cmds() + flush_cmds(
                old(self).batches_view(),
                old(self).arena().state(),
                model_transform_attrib_locations,
            ),
            final(ctx).names_spec() == old(ctx).names_spec(),
    {
        let ghost b = self.batches_view();
        let ghost cmds0 = ctx.cmds();
        let ghost s0 = self.arena().state();
        let ghost mut emitted: Seq<Cmd> = Seq::empty();
        let locations = model_transform_attrib_locations;
        let n: usize = self.batches.len();
        let mut i: usize = 0;
        proof {
            assert(b.skip(0) =~= b);
            assert(cmds0 + emitted =~= cmds0);
        }
        while i < n
            invariant
                0 <= i <= n,
                n == self.batches@.len(),
                self.wf(),
                b == self.batches_view(),
                self.arena().size_spec() + 64 * total_instances(b.skip(i as int)) <= usize::MAX,
                flush_cmds(b, s0, locations) == emitted + flush_cmds(
                    b.skip(i as int),
                    self.arena().state(),
                    locations,
                ),
                ctx.cmds() == cmds0 + emitted,
                ctx.names_spec() == old(ctx).names_spec(),
            decreases n - i,
        {
            let ghost scur = self.arena().state();
            proof {
                assert(b.skip(i as int).drop_first() =~= b.skip(i + 1));
                assert(b.skip(i as int)[0] == b[i as int]);
                lemma_total_instances_nonneg(b.skip(i + 1));
            }
            let count: usize = self.batches[i].1.len();
            if count > 0 {
                let dc: DrawCall = self.batches[i].0;
                ctx.push_cmd(GlCmd::BindVertexArray { vao: dc.vao });
                let mut bytes: Vec<u8> = Vec::new();
                let mut j: usize = 0;
                let ghost self_snap = *self;
                while j < count
                    invariant
                        0 <= j <= count,
                        i < n,
                        *self == self_snap,
                        n == self.batches@.len(),
                        count == self.batches@[i as int].1@.len(),
                        b == self.batches_view(),
                        bytes@ == transforms_bytes(b[i as int].1.subrange(0, j as int)),
                    decreases count - j,
                {
                    proof {
                        assert(b[i as int].1.subrange(0, j + 1).drop_last() =~= b[
                            i as int
                        ].1.subrange(0, j as int));
                        assert(b[i as int].1[j as int] == self.batches@[i as int].1@[
                            j as int
                        ].view_bits());
                    }
                    let m: Mat = self.batches[i].1[j];
                    push_mat_bytes(&mut bytes, &m);
                    j = j + 1;
                }
                proof {
                    assert(b[i as int].1.subrange(0, count as int) =~= b[i as int].1);
                    assert(forall|k: int|
                        0 <= k < b[i as int].1.len() ==> (#[trigger] b[i as int].1[k]).len()
                            == 16);
                    lemma_transforms_bytes_len(b[i as int].1);
                    self.arena().lemma_wf_bounds();
                }
                let (buf, off) = self.temp_buffer.allocate_buffer(ctx, bytes.as_slice());
                proof {
                    self.arena().lemma_wf_bounds();
                    assert(off + 64 <= usize::MAX);
                }
                ctx.push_cmd(GlCmd::BindBuffer { target: BufferTarget::Array, buffer: buf });
                push_attrib(ctx, locations[0], off);
                push_attrib(ctx, locations[1], off + 16);
                push_attrib(ctx, locations[2], off + 32);
                push_attrib(ctx, locations[3], off + 48);
                match dc.disabled_all_ones_vertex_attribute {
                    Some(location) => {
                        ctx.push_cmd(GlCmd::VertexAttribAllOnes { location });
                    },
                    None => {},
                }
                ctx.push_cmd(GlCmd::FrontFace { winding: dc.front_face });
                ctx.push_cmd(GlCmd::BindBuffer {
                    target: BufferTarget::ElementArray,
                    buffer: dc.index_buffer,
                });
                ctx.push_cmd(GlCmd::DrawElementsInstanced {
                    mode: dc.mode,
                    index_count: dc.index_count,
                    index_type: dc.index_type,
                    index_byte_offset: dc.index_byte_offset,
                    instance_count: count,
                });
                proof {
                    emitted = emitted + batch_cmds(b[i as int].0, b[i as int].1, scur, locations);
                    assert(ctx.cmds() =~= cmds0 + emitted);
                }
            }
            i = i + 1;
        }
        proof {
            assert(b.skip(n as int) =~= Seq::<(DrawCall, Seq<Seq<u32>>)>::empty());
            assert(ctx.cmds() =~= cmds0 + flush_cmds(b, s0, locations));
        }
    }

    /// Whether flushing now stays within the machine's byte range: the
    /// staging arena's capacity plus 64 bytes per accumulated instance must
    /// fit in `usize`.
    pub fn flush_fits(&self) -> (r: bool)
        requires
            self.wf(),
        ensures
            r <==> self.arena().size_spec() + 64 * total_instances(self.batches_view())
                <= usize::MAX,
    {
        let ghost b = self.batches_view();
        let mut acc: u128 = self.temp_buffer.size() as u128;
        let n: usize = self.batches.len();
        let mut i: usize = 0;
        proof {
            assert(b.skip(0) =~= b);
        }
        while i < n
            invariant
                0 <= i <= n,
                n == self.batches@.len(),
                b == self.batches_view(),
                self.wf(),
                acc == self.arena().size_spec() + 64 * (total_instances(b) - total_instances(
                    b.skip(i as int),
                )),
                acc <= usize::MAX as int + 64 * (usize::MAX as int),
            decreases n - i,
        {
            proof {
                assert(b.skip(i as int).drop_first() =~= b.skip(i + 1));
                assert(b.skip(i as int)[0] == b[i as int]);
                lemma_total_instances_nonneg(b.skip(i + 1));
                lemma_total_instances_nonneg(b.skip(i as int));
            }
            if acc > usize::MAX as u128 {
                proof {
                    lemma_total_instances_skip_le(b, i as int);
                }
                return false;
            }
            let count: usize = self.batches[i].1.len();
            acc = acc + 64u128 * (count as u128);
            i = i + 1;
        }
        proof {
            assert(b.skip(n as int) =~= Seq::<(DrawCall, Seq<Seq<u32>>)>::empty());
        }
        acc <= usize::MAX as u128
    }

    /// Empties every batch's transform sequence (keeping the descriptors)
    /// and rewinds the staging arena.
    pub fn clear(&mut self)
        requires
            old(self).wf(),
        ensures
            final(self).wf(),
            final(self).batches_view() == Seq::new(
                old(self).batches_view().len(),
                |i: int| (old(self).batches_view()[i].0, Seq::<Seq<u32>>::empty()),
            ),
            total_instances(final(self).batches_view()) == 0,
            final(self).arena().state() == (ArenaState {
                offset: 0,
                mirror: Seq::<u8>::empty(),
                ..old(self).arena().state()
            }),
    {
        let ghost b = self.batches_view();
        let n: usize = self.batches.len();
        let mut emptied: Vec<(DrawCall, Vec<Mat>)> = Vec::new();
        let mut i: usize = 0;
        while i < n
            invariant
                0 <= i <= n,
                n == self.batches@.len(),
                b == self.batches_view(),
                emptied@.len() == i,
                forall|j: int|
                    0 <= j < i ==> (#[trigger] emptied@[j]).0 == b[j].0 && emptied@[j].1@.len()
                        == 0,
            decreases n - i,
        {
            let dc: DrawCall = self.batches[i].0;
            emptied.push((dc, Vec::new()));
            i = i + 1;
        }
        self.batches = emptied;
        self.temp_buffer.clear();
        proof {
            assert(self.batches_view() =~~= Seq::new(
                b.len(),
                |i: int| (b[i].0, Seq::<Seq<u32>>::empty()),
            ));
            lemma_total_instances_all_empty(self.batches_view());
        }
    }
}

fn push_attrib(ctx: &mut GlCtx, location: u32, offset: usize)
    ensures
        final(ctx).cmds() == old(ctx).cmds() + attrib_cmds(location, offset),
        final(ctx).names_spec() == old(ctx).names_spec(),
{
    ctx.push_cmd(GlCmd::EnableVertexAttribArray { location });
    ctx.push_cmd(GlCmd::VertexAttribPointer {
        location,
        size: 4,
        component_type: FLOAT_COMPONENT_TYPE,
        normalized: false,
        stride: 64,
        offset,
    });
    ctx.push_cmd(GlCmd::VertexAttribDivisor { location, divisor: 1 });
    proof {
        assert(ctx.cmds() =~= old(ctx).cmds() + attrib_cmds(location, offset));
    }
}

/// With distinct keys, `apply_add` on a present key updates exactly its
/// batch.
proof fn lemma_apply_add_at(b: BatchesView, dc: DrawCall, t: Seq<u32>, i: int)
    requires
        batches_distinct(b),
        0 <= i < b.len(),
        b[i].0 == dc,
    ensures
        apply_add(b, dc, t) == b.update(i, (dc, b[i].1.push(t))),
{
    assert(exists|k: int| 0 <= k < b.len() && b[k].0 == dc);
    let k = choose|k: int| 0 <= k < b.len() && b[k].0 == dc;
    if k < i {
        assert(b[k].0 != b[i].0);
    }
    if k > i {
        assert(b[i].0 != b[k].0);
    }
    assert(k == i);
}

/// On an absent key, `apply_add` appends a fresh singleton batch.
proof fn lemma_apply_add_new(b: BatchesView, dc: DrawCall, t: Seq<u32>)
    requires
        forall|k: int| 0 <= k < b.len() ==> (#[trigger] b[k]).0 != dc,
    ensures
        apply_add(b, dc, t) == b.push((dc, seq![t])),
{
}

proof fn lemma_total_instances_push(b: BatchesView, entry: (DrawCall, Seq<Seq<u32>>))
    ensures
        total_instances(b.push(entry)) == total_instances(b) + entry.1.len(),
    decreases b.len(),
{
    if b.len() == 0 {
        assert(b.push(entry)[0] == entry);
        assert(b.push(entry).drop_first() =~= Seq::<(DrawCall, Seq<Seq<u32>>)>::empty());
        assert(total_instances(Seq::<(DrawCall, Seq<Seq<u32>>)>::empty()) == 0);
    } else {
        assert(b.push(entry)[0] == b[0]);
        assert(b.push(entry).drop_first() =~= b.drop_first().push(entry));
        lemma_total_instances_push(b.drop_first(), entry);
    }
}

proof fn lemma_total_instances_update(b: BatchesView, i: int, entry: (DrawCall, Seq<Seq<u32>>))
    requires
        0 <= i < b.len(),
        entry.1.len() == b[i].1.len() + 1,
    ensures
        total_instances(b.update(i, entry)) == total_instances(b) + 1,
    decreases b.len(),
{
    if i == 0 {
        assert(b.update(0, entry).drop_first() =~= b.drop_first());
    } else {
        assert(b.update(i, entry).drop_first() =~= b.drop_first().update(i - 1, entry));
        lemma_total_instances_update(b.drop_first(), i - 1, entry);
    }
}

proof fn lemma_total_instances_all_empty(b: BatchesView)
    requires
        forall|i: int| 0 <= i < b.len() ==> (#[trigger] b[i]).1.len() == 0,
    ensures
        total_instances(b) == 0,
    decreases b.len(),
{
    if b.len() > 0 {
        lemma_total_instances_all_empty(b.drop_first());
    }
}

pub proof fn lemma_total_instances_nonneg(b: BatchesView)
    ensures
        total_instances(b) >= 0,
    decreases b.len(),
{
    if b.len() > 0 {
        lemma_total_instances_nonneg(b.drop_first());
    }
}

proof fn lemma_transforms_bytes_len(ts: Seq<Seq<u32>>)
    requires
        forall|i: int| 0 <= i < ts.len() ==> (#[trigger] ts[i]).len() == 16,
    ensures
        transforms_bytes(ts).len() == 64 * ts.len(),
    decreases ts.len(),
{
    if ts.len() > 0 {
        lemma_transforms_bytes_len(ts.drop_last());
        lemma_mat_bytes_len(ts.last());
    }
}

proof fn lemma_mat_bytes_len(bits: Seq<u32>)
    ensures
        mat_bytes(bits).len() == 4 * bits.len(),
    decreases bits.len(),
{
    if bits.len() > 0 {
        lemma_mat_bytes_len(bits.drop_last());
    }
}


/// The number of instanced draw submissions in a command sequence.
pub open spec fn count_draw_submissions(cmds: Seq<Cmd>) -> int
    decreases cmds.len(),
{
    if cmds.len() == 0 {
        0
    } else {
        (if cmds[0] is DrawElementsInstanced {
            1int
        } else {
            0int
        }) + count_draw_submissions(cmds.drop_first())
    }
}

/// The sum of the instance counts of all draw submissions in a command
/// sequence.
pub open spec fn sum_draw_instances(cmds: Seq<Cmd>) -> int
    decreases cmds.len(),
{
    if cmds.len() == 0 {
        0
    } else {
        (match cmds[0] {
            Cmd::DrawElementsInstanced { instance_count, .. } => instance_count as int,
            _ => 0int,
        }) + sum_draw_instances(cmds.drop_first())
    }
}

/// The number of default-color commands for an attribute location in a
/// command sequence.
pub open spec fn count_all_ones(cmds: Seq<Cmd>, location: u32) -> int
    decreases cmds.len(),
{
    if cmds.len() == 0 {
        0
    } else {
        (if cmds[0] == (Cmd::VertexAttribAllOnes { location }) {
            1int
        } else {
            0int
        }) + count_all_ones(cmds.drop_first(), location)
    }
}

proof fn lemma_counts_concat(a: Seq<Cmd>, b: Seq<Cmd>, location: u32)
    ensures
        count_draw_submissions(a + b) == count_draw_submissions(a) + count_draw_submissions(b),
        sum_draw_instances(a + b) == sum_draw_instances(a) + sum_draw_instances(b),
        count_all_ones(a + b, location) == count_all_ones(a, location) + count_all_ones(
            b,
            location,
        ),
    decreases a.len(),
{
    if a.len() == 0 {
        assert(a + b =~= b);
    } else {
        assert((a + b)[0] == a[0]);
        assert((a + b).drop_first() =~= a.drop_first() + b);
        lemma_counts_concat(a.drop_first(), b, location);
    }
}

proof fn lemma_counts_plain(cmds: Seq<Cmd>, location: u32)
    requires
        forall|i: int|
            0 <= i < cmds.len() ==> !((#[trigger] cmds[i]) is DrawElementsInstanced) && cmds[i]
                != (Cmd::VertexAttribAllOnes { location }),
    ensures
        count_draw_submissions(cmds) == 0,
        sum_draw_instances(cmds) == 0,
        count_all_ones(cmds, location) == 0,
    decreases cmds.len(),
{
    if cmds.len() > 0 {
        lemma_counts_plain(cmds.drop_first(), location);
    }
}

/// One non-empty batch records exactly one instanced draw submission, with
/// instance count equal to the batch size, and sets the all-ones default
/// exactly when its descriptor asks for it at that location.
pub proof fn lemma_batch_cmds_counts(
    dc: DrawCall,
    ts: Seq<Seq<u32>>,
    s: ArenaState,
    locations: [u32; 4],
    location: u32,
)
    ensures
        count_draw_submissions(batch_cmds(dc, ts, s, locations)) == 1,
        sum_draw_instances(batch_cmds(dc, ts, s, locations)) == ts.len() as usize,
        count_all_ones(batch_cmds(dc, ts, s, locations), location) == (
        if dc.disabled_all_ones_vertex_attribute == Some(location) {
            1int
        } else {
            0int
        }),
{
    let prefix = seq![Cmd::BindVertexArray { vao: dc.vao }] + arena_alloc_cmds(
        s,
        transforms_bytes(ts),
    ) + seq![Cmd::BindBuffer { target: BufferTarget::Array, buffer: s.buffer }] + attrib_cmds(
        locations@[0],
        s.offset as usize,
    ) + attrib_cmds(locations@[1], (s.offset + 16) as usize) + attrib_cmds(
        locations@[2],
        (s.offset + 32) as usize,
    ) + attrib_cmds(locations@[3], (s.offset + 48) as usize);
    let ones = match dc.disabled_all_ones_vertex_attribute {
        Some(location) => seq![Cmd::VertexAttribAllOnes { location }],
        None => Seq::<Cmd>::empty(),
    };
    let tail = seq![
        Cmd::FrontFace { winding: dc.front_face },
        Cmd::BindBuffer { target: BufferTarget::ElementArray, buffer: dc.index_buffer },
        Cmd::DrawElementsInstanced {
            mode: dc.mode,
            index_count: dc.index_count,
            index_type: dc.index_type,
            index_byte_offset: dc.index_byte_offset,
            instance_count: ts.len() as usize,
        },
    ];
    assert(batch_cmds(dc, ts, s, locations) =~= prefix + ones + tail);
    lemma_counts_plain(prefix, location);
    lemma_counts_concat(prefix, ones, location);
    lemma_counts_concat(prefix + ones, tail, location);
    match dc.disabled_all_ones_vertex_attribute {
        Some(loc) => {
            assert(ones =~= seq![Cmd::VertexAttribAllOnes { location: loc }]);
            lemma_counts_single(Cmd::VertexAttribAllOnes { location: loc }, location);
        },
        None => {
            lemma_counts_plain(ones, location);
        },
    }
    let t0 = Cmd::FrontFace { winding: dc.front_face };
    let t1 = Cmd::BindBuffer { target: BufferTarget::ElementArray, buffer: dc.index_buffer };
    let t2 = Cmd::DrawElementsInstanced {
        mode: dc.mode,
        index_count: dc.index_count,
        index_type: dc.index_type,
        index_byte_offset: dc.index_byte_offset,
        instance_count: ts.len() as usize,
    };
    assert(tail =~= seq![t0] + seq![t1] + seq![t2]);
    lemma_counts_single(t0, location);
    lemma_counts_single(t1, location);
    lemma_counts_single(t2, location);
    lemma_counts_concat(seq![t0], seq![t1], location);
    lemma_counts_concat(seq![t0] + seq![t1], seq![t2], location);
}

proof fn lemma_counts_single(c: Cmd, location: u32)
    ensures
        count_draw_submissions(seq![c]) == if c is DrawElementsInstanced {
            1int
        } else {
            0int
        },
        sum_draw_instances(seq![c]) == (match c {
            Cmd::DrawElementsInstanced { instance_count, .. } => instance_count as int,
            _ => 0int,
        }),
        count_all_ones(seq![c], location) == if c == (Cmd::VertexAttribAllOnes { location }) {
            1int
        } else {
            0int
        },
{
    assert(seq![c].drop_first() =~= Seq::<Cmd>::empty());
    assert(count_draw_submissions(Seq::<Cmd>::empty()) == 0);
    assert(sum_draw_instances(Seq::<Cmd>::empty()) == 0);
    assert(count_all_ones(Seq::<Cmd>::empty(), location) == 0);
}

/// Flushing issues exactly one instanced draw submission per distinct
/// descriptor that accumulated at least one instance, and the instance
/// counts of the submissions sum to the total number of accumulated
/// instances.
pub proof fn lemma_flush_cmds_submissions(b: BatchesView, s: ArenaState, locations: [u32; 4])
    requires
        forall|i: int| 0 <= i < b.len() ==> (#[trigger] b[i]).1.len() <= usize::MAX,
    ensures
        count_draw_submissions(flush_cmds(b, s, locations)) == nonempty_batches(b),
        sum_draw_instances(flush_cmds(b, s, locations)) == total_instances(b),
    decreases b.len(),
{
    if b.len() == 0 {
    } else if b[0].1.len() == 0 {
        lemma_flush_cmds_submissions(b.drop_first(), s, locations);
    } else {
        let head = batch_cmds(b[0].0, b[0].1, s, locations);
        let rest = flush_cmds(
            b.drop_first(),
            arena_state_allocate(s, transforms_bytes(b[0].1)),
            locations,
        );
        lemma_batch_cmds_counts(b[0].0, b[0].1, s, locations, 0);
        lemma_counts_concat(head, rest, 0);
        lemma_flush_cmds_submissions(
            b.drop_first(),
            arena_state_allocate(s, transforms_bytes(b[0].1)),
            locations,
        );
    }
}

/// Flushing sets the all-ones default for a location exactly as many times
/// as there are non-empty batches whose descriptor asks for it there.
pub proof fn lemma_flush_cmds_all_ones(
    b: BatchesView,
    s: ArenaState,
    locations: [u32; 4],
    location: u32,
)
    ensures
        count_all_ones(flush_cmds(b, s, locations), location) == count_batches_all_ones(
            b,
            location,
        ),
    decreases b.len(),
{
    if b.len() == 0 {
    } else if b[0].1.len() == 0 {
        lemma_flush_cmds_all_ones(b.drop_first(), s, locations, location);
    } else {
        let head = batch_cmds(b[0].0, b[0].1, s, locations);
        let rest = flush_cmds(
            b.drop_first(),
            arena_state_allocate(s, transforms_bytes(b[0].1)),
            locations,
        );
        lemma_batch_cmds_counts(b[0].0, b[0].1, s, locations, location);
        lemma_counts_concat(head, rest, location);
        lemma_flush_cmds_all_ones(
            b.drop_first(),
            arena_state_allocate(s, transforms_bytes(b[0].1)),
            locations,
            location,
        );
    }
}

/// The number of non-empty batches whose descriptor requests the all-ones
/// default at the given attribute location.
pub open spec fn count_batches_all_ones(b: BatchesView, location: u32) -> int
    decreases b.len(),
{
    if b.len() == 0 {
        0
    } else {
        (if b[0].1.len() > 0 && b[0].0.disabled_all_ones_vertex_attribute == Some(location) {
            1int
        } else {
            0int
        }) + count_batches_all_ones(b.drop_first(), location)
    }
}


/// A suffix never holds more instances than the whole.
proof fn lemma_total_instances_skip_le(b: BatchesView, i: int)
    requires
        0 <= i <= b.len(),
    ensures
        total_instances(b.skip(i)) <= total_instances(b),
    decreases i,
{
    if i > 0 {
        lemma_total_instances_skip_le(b, i - 1);
        assert(b.skip(i - 1).drop_first() =~= b.skip(i));
        assert(b.skip(i - 1)[0] == b[i - 1]);
    } else {
        assert(b.skip(0) =~= b);
    }
}


/// One submission always raises the accumulated instance count by one,
/// whether it extends a batch or opens one.
pub proof fn lemma_apply_add_total(b: BatchesView, dc: DrawCall, t: Seq<u32>)
    ensures
        total_instances(apply_add(b, dc, t)) == total_instances(b) + 1,
{
    if exists|i: int| 0 <= i < b.len() && b[i].0 == dc {
        assert forall|i: int|
            0 <= i < b.len() && b[i].0 == dc implies total_instances(
            #[trigger] b.update(i, (dc, b[i].1.push(t))),
        ) == total_instances(b) + 1 by {
            lemma_total_instances_update(b, i, (dc, b[i].1.push(t)));
        }
    } else {
        assert(apply_add(b, dc, t) == b.push((dc, seq![t])));
        lemma_total_instances_push(b, (dc, seq![t]));
    }
}

/// No single batch holds more instances than the whole batcher.
pub proof fn lemma_batch_len_le_total(b: BatchesView, i: int)
    requires
        0 <= i < b.len(),
    ensures
        b[i].1.len() <= total_instances(b),
    decreases i,
{
    lemma_total_instances_nonneg(b.drop_first());
    if i > 0 {
        lemma_batch_len_le_total(b.drop_first(), i - 1);
    }
}

} // verus!
