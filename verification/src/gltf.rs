//! The loaded scene: flat, index-linked tables for scenes, nodes, meshes,
//! primitives and materials, plus the driver objects the loader created.
//!
//! `draw` walks the active scene's node trees with an explicit pending list
//! (no recursion, so deep hierarchies cannot grow the call stack),
//! accumulates each node's transform onto its parent's, corrects each
//! submitted descriptor's winding order by the sign of the accumulated
//! transform's determinant, and hands every primitive instance to the
//! batcher.  The loader guarantees (and `wf` records) that the node
//! hierarchy is a forest, witnessed by per-node levels that strictly grow
//! along edges, which also grounds the traversal's specification.

use vstd::prelude::*;

use crate::commands::{Cmd, GlCmd, GlCtx};
use crate::draw_calls::{apply_add, total_instances, BatchesView, DrawCall, DrawCalls};
use crate::mat::{
    mat_det_bits, mat_det_of, mat_mul, mat_mul_of, winding_from_det_bits, winding_of_det, Mat,
};

verus! {

/// Vertex attribute locations the shaders use.
pub const ATTR_LOC_POSITION: u32 = 0;

pub const ATTR_LOC_NORMAL: u32 = 1;

pub const ATTR_LOC_TANGENT: u32 = 2;

pub const ATTR_LOC_TEXCOORD_0: u32 = 3;

pub const ATTR_LOC_TEXCOORD_1: u32 = 4;

pub const ATTR_LOC_COLOR_0: u32 = 5;

/// Texture units the material bindings use.
pub const TEX_UNIT_BASE_COLOR: u32 = 0;

pub const TEX_UNIT_METALLIC_ROUGHNESS: u32 = 1;

pub const TEX_UNIT_NORMAL: u32 = 2;

pub const TEX_UNIT_OCCLUSION: u32 = 3;

pub const TEX_UNIT_EMISSIVE: u32 = 4;

/// Uniform block binding points.
pub const UNIFORM_BLOCK_MATERIAL: u32 = 0;

pub const UNIFORM_BLOCK_LIGHTS: u32 = 1;

/// The four consecutive attribute locations holding the per-instance model
/// transform, one per matrix column.
pub fn model_transform_attrib_columns() -> (r: [u32; 4])
    ensures
        r@ == seq![6u32, 7u32, 8u32, 9u32],
{
    let r = [6u32, 7, 8, 9];
    proof {
        assert(r@ =~= seq![6u32, 7u32, 8u32, 9u32]);
    }
    r
}

pub struct Scene {
    pub node_indices: Vec<usize>,
}

pub struct Node {
    pub mesh_index: Option<usize>,
    pub child_node_indices: Vec<usize>,
    pub transform: Mat,
}

pub struct Mesh {
    pub primitive_indices: Vec<usize>,
}

pub struct Primitive {
    pub material_index: usize,
    pub draw_call: DrawCall,
}

/// One texture-unit binding of a material.
#[derive(Clone, Copy, PartialEq, Eq, Structural, Debug)]
pub struct TextureBinding {
    pub unit: u32,
    pub texture: u64,
    pub sampler: u64,
}

/// A material: its five texture-unit bindings and the byte range of its
/// packed factors in the shared uniform buffer.
pub struct Material {
    pub bindings: Vec<TextureBinding>,
    pub ubo_buffer: u64,
    pub ubo_offset: usize,
    pub ubo_size: usize,
}

pub struct Gltf {
    pub scene: usize,
    pub scenes: Vec<Scene>,
    pub nodes: Vec<Node>,
    pub meshes: Vec<Mesh>,
    pub materials: Vec<Material>,
    pub primitives: Vec<Primitive>,
    pub gl_vaos: Vec<u64>,
    pub gl_buffers: Vec<u64>,
    pub gl_textures: Vec<u64>,
    pub gl_samplers: Vec<u64>,
    /// One level per node, strictly increasing along parent-child edges:
    /// the loader's witness that the hierarchy is a forest.
    pub node_levels: Vec<usize>,
}

/// The descriptor a traversal actually submits under an accumulated
/// transform: the primitive's descriptor with the winding order recomputed
/// from the sign of the transform's determinant (mirrored transforms flip
/// the visual winding of a mesh's triangles).
pub open spec fn submitted_descriptor(dc: DrawCall, t: Seq<u32>) -> DrawCall {
    DrawCall { front_face: winding_of_det(mat_det_of(t)), ..dc }
}

impl Gltf {
    /// Index validity plus the forest witness.
    pub open spec fn wf(self) -> bool {
        &&& self.scene < self.scenes@.len()
        &&& forall|s: int, i: int|
            0 <= s < self.scenes@.len() && 0 <= i < (#[trigger] self.scenes@[s]).node_indices@.len()
                ==> (#[trigger] self.scenes@[s].node_indices@[i]) < self.nodes@.len()
        &&& forall|n: int, i: int|
            0 <= n < self.nodes@.len() && 0 <= i < (
            #[trigger] self.nodes@[n]).child_node_indices@.len() ==> (
            #[trigger] self.nodes@[n].child_node_indices@[i]) < self.nodes@.len()
        &&& forall|n: int|
            0 <= n < self.nodes@.len() && (#[trigger] self.nodes@[n]).mesh_index is Some
                ==> self.nodes@[n].mesh_index->0 < self.meshes@.len()
        &&& forall|m: int, i: int|
            0 <= m < self.meshes@.len() && 0 <= i < (
            #[trigger] self.meshes@[m]).primitive_indices@.len() ==> (
            #[trigger] self.meshes@[m].primitive_indices@[i]) < self.primitives@.len()
        &&& forall|p: int|
            0 <= p < self.primitives@.len() ==> (#[trigger] self.primitives@[p]).material_index
                < self.materials@.len()
        &&& self.node_levels@.len() == self.nodes@.len()
        &&& forall|n: int, i: int|
            0 <= n < self.nodes@.len() && 0 <= i < (
            #[trigger] self.nodes@[n]).child_node_indices@.len() ==> self.node_levels@[(
            #[trigger] self.nodes@[n].child_node_indices@[i]) as int] == self.node_levels@[n] + 1
        &&& forall|n: int|
            0 <= n < self.nodes@.len() ==> (#[trigger] self.node_levels@[n]) < self.nodes@.len()
    }

    /// The (descriptor, transform) pairs the primitives of one mesh submit
    /// under an accumulated transform, in table order.
    pub open spec fn prim_adds(self, idxs: Seq<usize>, t: Seq<u32>) -> Seq<(DrawCall, Seq<u32>)>
        decreases idxs.len(),
    {
        if idxs.len() == 0 {
            Seq::empty()
        } else {
            seq![
                (submitted_descriptor(self.primitives@[idxs[0] as int].draw_call, t), t),
            ] + self.prim_adds(idxs.drop_first(), t)
        }
    }

    /// Everything one node's subtree submits, seeded with the parent's
    /// accumulated transform: the node's own primitives first, then its
    /// children's subtrees, last child first (the traversal pops its pending
    /// list from the back; sibling order carries no meaning).
    pub open spec fn collect_node(self, n: int, t: Seq<u32>) -> Seq<(DrawCall, Seq<u32>)>
        decreases self.nodes@.len() - self.node_levels@[n], 1int, 0int,
            when self.wf() && 0 <= n < self.nodes@.len()
    {
        let tt = mat_mul_of(t, self.nodes@[n].transform.view_bits());
        (match self.nodes@[n].mesh_index {
            Some(m) => self.prim_adds(self.meshes@[m as int].primitive_indices@, tt),
            None => Seq::empty(),
        }) + self.collect_children(
            self.nodes@[n].child_node_indices@,
            tt,
            self.node_levels@[n] as int,
        )
    }

    /// What the subtrees of the listed nodes submit, last first.  `lvl` is
    /// strictly below every listed node's level.
    pub open spec fn collect_children(self, cs: Seq<usize>, t: Seq<u32>, lvl: int) -> Seq<
        (DrawCall, Seq<u32>),
    >
        decreases self.nodes@.len() - lvl, 0int, cs.len(),
            when self.wf() && lvl >= -1 && forall|i: int|
                0 <= i < cs.len() ==> (#[trigger] cs[i]) < self.nodes@.len()
                    && self.node_levels@[cs[i] as int] > lvl
    {
        if cs.len() == 0 {
            Seq::empty()
        } else {
            self.collect_node(cs.last() as int, t) + self.collect_children(
                cs.drop_last(),
                t,
                lvl,
            )
        }
    }

    /// Everything one full traversal of the active scene submits.
    pub open spec fn scene_adds(self, t: Seq<u32>) -> Seq<(DrawCall, Seq<u32>)> {
        self.collect_children(self.scenes@[self.scene as int].node_indices@, t, -1)
    }

    /// Walks the active scene and hands every primitive instance to the
    /// batcher: the batcher ends up with exactly the scene's submissions
    /// applied, each with its winding-corrected descriptor and accumulated
    /// transform.
    #[verifier::rlimit(100)]
    pub fn draw(&self, draw_calls: &mut DrawCalls, model_transform: Mat)
        requires
            self.wf(),
            old(draw_calls).wf(),
        ensures
            final(draw_calls).wf(),
            final(draw_calls).batches_view() == apply_adds(
                old(draw_calls).batches_view(),
                self.scene_adds(model_transform.view_bits()),
            ),
            final(draw_calls).arena() == old(draw_calls).arena(),
            total_instances(final(draw_calls).batches_view()) == total_instances(
                old(draw_calls).batches_view(),
            ) + self.scene_adds(model_transform.view_bits()).len(),
    {
        let ghost b0 = draw_calls.batches_view();
        let ghost t0 = model_transform.view_bits();
        let ghost mut done: Seq<(DrawCall, Seq<u32>)> = Seq::empty();
        let mut node_queue: Vec<(Mat, usize)> = Vec::new();
        let root_count: usize = self.scenes[self.scene].node_indices.len();
        let mut r: usize = 0;
        proof {
            assert(self.stack_adds(node_queue@) =~= Seq::<(DrawCall, Seq<u32>)>::empty());
            assert(self.scenes@[self.scene as int].node_indices@.subrange(0, 0)
                =~= Seq::<usize>::empty());
        }
        while r < root_count
            invariant
                0 <= r <= root_count,
                self.wf(),
                root_count == self.scenes@[self.scene as int].node_indices@.len(),
                stack_nodes_ok(*self, node_queue@),
                self.stack_adds(node_queue@) == self.collect_children(
                    self.scenes@[self.scene as int].node_indices@.subrange(0, r as int),
                    t0,
                    -1,
                ),
                t0 == model_transform.view_bits(),
            decreases root_count - r,
        {
            let ghost queue_before = node_queue@;
            let ghost roots = self.scenes@[self.scene as int].node_indices@;
            let n: usize = self.scenes[self.scene].node_indices[r];
            node_queue.push((model_transform, n));
            r = r + 1;
            proof {
                assert(node_queue@.drop_last() =~= queue_before);
                assert(node_queue@.last() == (model_transform, n));
                assert(roots.subrange(0, r as int).drop_last() =~= roots.subrange(
                    0,
                    r as int - 1,
                ));
                assert(roots.subrange(0, r as int).last() == roots[r as int - 1]);
            }
        }
        proof {
            assert(self.scenes@[self.scene as int].node_indices@.subrange(
                0,
                root_count as int,
            ) =~= self.scenes@[self.scene as int].node_indices@);
            assert(done + self.stack_adds(node_queue@) =~= self.stack_adds(node_queue@));
        }
        while node_queue.len() > 0
            invariant
                self.wf(),
                draw_calls.wf(),
                stack_nodes_ok(*self, node_queue@),
                draw_calls.batches_view() == apply_adds(b0, done),
                draw_calls.arena() == old(draw_calls).arena(),
                b0 == old(draw_calls).batches_view(),
                total_instances(draw_calls.batches_view()) == total_instances(b0) + done.len(),
                self.scene_adds(t0) == done + self.stack_adds(node_queue@),
                t0 == model_transform.view_bits(),
            decreases self.stack_weight(node_queue@),
        {
            proof {
                self.lemma_stack_weight_nonneg(node_queue@);
            }
            let ghost queue_before = node_queue@;
            let popped = node_queue.pop().unwrap();
            let parent_transform: Mat = popped.0;
            let n: usize = popped.1;
            proof {
                assert(queue_before.drop_last() =~= node_queue@);
                assert(queue_before.last() == popped);
            }
            let node = &self.nodes[n];
            let transform: Mat = mat_mul(&parent_transform, &node.transform);
            let ghost tt = transform.view_bits();
            let ghost lvl = self.node_levels@[n as int] as int;
            let ghost children = self.nodes@[n as int].child_node_indices@;
            let ghost queue_mid = node_queue@;
            proof {
                assert(self.stack_adds(queue_before) == self.collect_node(n as int, 
                    parent_transform.view_bits()) + self.stack_adds(queue_mid));
                assert(self.stack_weight(queue_before) == self.node_weight(n as int)
                    + self.stack_weight(queue_mid));
                assert(tt == mat_mul_of(parent_transform.view_bits(),
                    self.nodes@[n as int].transform.view_bits()));
            }
            match node.mesh_index {
                Some(mesh_index) => {
                    let prim_count: usize = self.meshes[mesh_index].primitive_indices.len();
                    let ghost prims = self.meshes@[mesh_index as int].primitive_indices@;
                    let mut p: usize = 0;
                    proof {
                        assert(prims.skip(0) =~= prims);
                        assert(self.scene_adds(t0) =~= done + (self.prim_adds(prims, tt)
                            + (self.collect_children(children, tt, lvl)
                            + self.stack_adds(queue_mid))));
                    }
                    while p < prim_count
                        invariant
                            0 <= p <= prim_count,
                            self.wf(),
                            draw_calls.wf(),
                            0 <= (n as int) < self.nodes@.len(),
                            0 <= (mesh_index as int) < self.meshes@.len(),
                            prims == self.meshes@[mesh_index as int].primitive_indices@,
                            children == self.nodes@[n as int].child_node_indices@,
                            lvl == self.node_levels@[n as int] as int,
                            prim_count == prims.len(),
                            tt == transform.view_bits(),
                            node_queue@ == queue_mid,
                            draw_calls.batches_view() == apply_adds(b0, done),
                            draw_calls.arena() == old(draw_calls).arena(),
                            b0 == old(draw_calls).batches_view(),
                            total_instances(draw_calls.batches_view()) == total_instances(b0)
                                + done.len(),
                            self.scene_adds(t0) == done + (self.prim_adds(
                                prims.skip(p as int),
                                tt,
                            ) + (self.collect_children(children, tt, lvl) + self.stack_adds(
                                queue_mid,
                            ))),
                        decreases prim_count - p,
                    {
                        proof {
                            assert(prims.skip(p as int).drop_first() =~= prims.skip(p + 1));
                            assert(prims.skip(p as int)[0] == prims[p as int]);
                        }
                        let prim_index: usize = self.meshes[mesh_index].primitive_indices[p];
                        let primitive = &self.primitives[prim_index];
                        let mut draw_call: DrawCall = primitive.draw_call;
                        let det_bits: u32 = mat_det_bits(&transform);
                        draw_call.front_face = winding_from_det_bits(det_bits);
                        proof {
                            assert(draw_call == submitted_descriptor(
                                self.primitives@[prims[p as int] as int].draw_call,
                                tt,
                            ));
                        }
                        draw_calls.add(draw_call, transform);
                        proof {
                            let ghost done_old = done;
                            let pair = (draw_call, tt);
                            lemma_apply_adds_snoc(b0, done_old, pair);
                            done = done_old.push(pair);
                            assert(done_old + (self.prim_adds(prims.skip(p as int), tt)
                                + (self.collect_children(children, tt, lvl)
                                + self.stack_adds(queue_mid))) =~= done + (self.prim_adds(
                                prims.skip(p + 1),
                                tt,
                            ) + (self.collect_children(children, tt, lvl) + self.stack_adds(
                                queue_mid,
                            ))));
                        }
                        p = p + 1;
                    }
                    proof {
                        assert(prims.skip(prim_count as int) =~= Seq::<usize>::empty());
                        assert(done + (self.prim_adds(prims.skip(prim_count as int), tt)
                            + (self.collect_children(children, tt, lvl) + self.stack_adds(
                            queue_mid,
                        ))) =~= done + (self.collect_children(children, tt, lvl)
                            + self.stack_adds(queue_mid)));
                    }
                },
                None => {
                    proof {
                        assert(self.scene_adds(t0) =~= done + (self.collect_children(
                            children,
                            tt,
                            lvl,
                        ) + self.stack_adds(queue_mid)));
                    }
                },
            }
            let child_count: usize = self.nodes[n].child_node_indices.len();
            let mut c: usize = 0;
            proof {
                assert(children.subrange(0, 0) =~= Seq::<usize>::empty());
            }
            while c < child_count
                invariant
                    0 <= c <= child_count,
                    self.wf(),
                    0 <= (n as int) < self.nodes@.len(),
                    children == self.nodes@[n as int].child_node_indices@,
                    child_count == children.len(),
                    lvl == self.node_levels@[n as int] as int,
                    tt == transform.view_bits(),
                    stack_nodes_ok(*self, node_queue@),
                    self.stack_adds(node_queue@) == self.collect_children(
                        children.subrange(0, c as int),
                        tt,
                        lvl,
                    ) + self.stack_adds(queue_mid),
                    self.stack_weight(node_queue@) == self.children_weight(
                        children.subrange(0, c as int),
                        lvl,
                    ) + self.stack_weight(queue_mid),
                decreases child_count - c,
            {
                let ghost queue_c = node_queue@;
                let child: usize = self.nodes[n].child_node_indices[c];
                node_queue.push((transform, child));
                c = c + 1;
                proof {
                    assert(node_queue@.drop_last() =~= queue_c);
                    assert(node_queue@.last() == (transform, child));
                    assert(children.subrange(0, c as int).drop_last() =~= children.subrange(
                        0,
                        c as int - 1,
                    ));
                    assert(children.subrange(0, c as int).last() == children[c as int - 1]);
                }
            }
            proof {
                assert(children.subrange(0, child_count as int) =~= children);
                assert(done + (self.collect_children(children, tt, lvl) + self.stack_adds(
                    queue_mid,
                )) =~= done + self.stack_adds(node_queue@));
            }
        }
        proof {
            assert(self.stack_adds(node_queue@) =~= Seq::<(DrawCall, Seq<u32>)>::empty());
            assert(done + Seq::<(DrawCall, Seq<u32>)>::empty() =~= done);
        }
    }

    /// The size of a node's subtree, used as the traversal's termination
    /// measure: popping a node and pushing its children shrinks the pending
    /// list's total weight by one.
    pub open spec fn node_weight(self, n: int) -> int
        decreases self.nodes@.len() - self.node_levels@[n], 1int, 0int,
            when self.wf() && 0 <= n < self.nodes@.len()
    {
        1 + self.children_weight(
            self.nodes@[n].child_node_indices@,
            self.node_levels@[n] as int,
        )
    }

    pub open spec fn children_weight(self, cs: Seq<usize>, lvl: int) -> int
        decreases self.nodes@.len() - lvl, 0int, cs.len(),
            when self.wf() && lvl >= -1 && forall|i: int|
                0 <= i < cs.len() ==> (#[trigger] cs[i]) < self.nodes@.len()
                    && self.node_levels@[cs[i] as int] > lvl
    {
        if cs.len() == 0 {
            0
        } else {
            self.node_weight(cs.last() as int) + self.children_weight(cs.drop_last(), lvl)
        }
    }

    /// The total weight of the pending list.
    pub open spec fn stack_weight(self, st: Seq<(Mat, usize)>) -> int
        decreases st.len(),
    {
        if st.len() == 0 {
            0
        } else {
            self.node_weight(st.last().1 as int) + self.stack_weight(st.drop_last())
        }
    }

    pub proof fn lemma_node_weight_pos(self, n: int)
        requires
            self.wf(),
            0 <= n < self.nodes@.len(),
        ensures
            self.node_weight(n) >= 1,
        decreases self.nodes@.len() - self.node_levels@[n], 1int, 0int,
    {
        self.lemma_children_weight_nonneg(
            self.nodes@[n].child_node_indices@,
            self.node_levels@[n] as int,
        );
    }

    pub proof fn lemma_children_weight_nonneg(self, cs: Seq<usize>, lvl: int)
        requires
            self.wf(),
            lvl >= -1,
            forall|i: int|
                0 <= i < cs.len() ==> (#[trigger] cs[i]) < self.nodes@.len()
                    && self.node_levels@[cs[i] as int] > lvl,
        ensures
            self.children_weight(cs, lvl) >= 0,
        decreases self.nodes@.len() - lvl, 0int, cs.len(),
    {
        if cs.len() > 0 {
            self.lemma_node_weight_pos(cs.last() as int);
            self.lemma_children_weight_nonneg(cs.drop_last(), lvl);
        }
    }

    pub proof fn lemma_stack_weight_nonneg(self, st: Seq<(Mat, usize)>)
        requires
            self.wf(),
            stack_nodes_ok(self, st),
        ensures
            self.stack_weight(st) >= 0,
            st.len() > 0 ==> self.stack_weight(st) >= 1,
        decreases st.len(),
    {
        if st.len() > 0 {
            self.lemma_node_weight_pos(st.last().1 as int);
            self.lemma_stack_weight_nonneg(st.drop_last());
        }
    }

    /// What the pending entries' subtrees will still submit, next-popped
    /// entry first.
    pub open spec fn stack_adds(self, st: Seq<(Mat, usize)>) -> Seq<(DrawCall, Seq<u32>)>
        decreases st.len(),
    {
        if st.len() == 0 {
            Seq::empty()
        } else {
            self.collect_node(st.last().1 as int, st.last().0.view_bits()) + self.stack_adds(
                st.drop_last(),
            )
        }
    }

    /// Releases every driver object the asset owns.
    pub fn delete(self, ctx: &mut GlCtx)
        ensures
            final(ctx).cmds() == old(ctx).cmds() + delete_cmds(self),
    {
        let ghost cmds0 = ctx.cmds();
        push_deletes_vaos(ctx, &self.gl_vaos);
        push_deletes_buffers(ctx, &self.gl_buffers);
        push_deletes_textures(ctx, &self.gl_textures);
        push_deletes_samplers(ctx, &self.gl_samplers);
        proof {
            assert(ctx.cmds() =~= cmds0 + delete_cmds(self));
        }
    }
}

/// Winding-order correction: one primitive, traversed under a transform
/// whose determinant is positive and under one whose determinant is not,
/// is submitted with counter-clockwise and clockwise front faces
/// respectively — all other descriptor fields equal.
pub proof fn lemma_winding_correction(dc: DrawCall, t_pos: Seq<u32>, t_neg: Seq<u32>)
    requires
        crate::mat::f32_bits_positive(mat_det_of(t_pos)),
        !crate::mat::f32_bits_positive(mat_det_of(t_neg)),
    ensures
        submitted_descriptor(dc, t_pos).front_face
            == crate::commands::Winding::CounterClockwise,
        submitted_descriptor(dc, t_neg).front_face == crate::commands::Winding::Clockwise,
        submitted_descriptor(dc, t_pos).front_face != submitted_descriptor(
            dc,
            t_neg,
        ).front_face,
        submitted_descriptor(dc, t_pos).vao == dc.vao,
        submitted_descriptor(dc, t_pos).index_buffer == dc.index_buffer,
        submitted_descriptor(dc, t_pos).index_count == dc.index_count,
        submitted_descriptor(dc, t_pos).disabled_all_ones_vertex_attribute
            == dc.disabled_all_ones_vertex_attribute,
{
}

/// Every pending entry names a node of the asset.
pub open spec fn stack_nodes_ok(g: Gltf, st: Seq<(Mat, usize)>) -> bool {
    forall|i: int| 0 <= i < st.len() ==> (#[trigger] st[i]).1 < g.nodes@.len()
}

/// Applying a list of submissions to the batcher, first to last.
pub open spec fn apply_adds(b: BatchesView, adds: Seq<(DrawCall, Seq<u32>)>) -> BatchesView
    decreases adds.len(),
{
    if adds.len() == 0 {
        b
    } else {
        apply_adds(apply_add(b, adds[0].0, adds[0].1), adds.drop_first())
    }
}

/// Applying one more submission after a list equals appending it to the
/// list.
pub proof fn lemma_apply_adds_snoc(b: BatchesView, adds: Seq<(DrawCall, Seq<u32>)>, x: (
    DrawCall,
    Seq<u32>,
))
    ensures
        apply_adds(b, adds.push(x)) == apply_add(apply_adds(b, adds), x.0, x.1),
    decreases adds.len(),
{
    if adds.len() == 0 {
        assert(adds.push(x)[0] == x);
        assert(adds.push(x).drop_first() =~= Seq::<(DrawCall, Seq<u32>)>::empty());
        assert(apply_adds(apply_add(b, x.0, x.1), Seq::<(DrawCall, Seq<u32>)>::empty())
            == apply_add(b, x.0, x.1));
    } else {
        assert(adds.push(x)[0] == adds[0]);
        assert(adds.push(x).drop_first() =~= adds.drop_first().push(x));
        lemma_apply_adds_snoc(apply_add(b, adds[0].0, adds[0].1), adds.drop_first(), x);
    }
}

/// The commands that releasing an asset appends: one delete per owned
/// vertex array, buffer, texture and sampler, in that order.
pub open spec fn delete_cmds(g: Gltf) -> Seq<Cmd> {
    Seq::new(g.gl_vaos@.len(), |i: int| Cmd::DeleteVertexArray { vao: g.gl_vaos@[i] }) + Seq::new(
        g.gl_buffers@.len(),
        |i: int| Cmd::DeleteBuffer { buffer: g.gl_buffers@[i] },
    ) + Seq::new(g.gl_textures@.len(), |i: int| Cmd::DeleteTexture { texture: g.gl_textures@[i] })
        + Seq::new(
        g.gl_samplers@.len(),
        |i: int| Cmd::DeleteSampler { sampler: g.gl_samplers@[i] },
    )
}

fn push_deletes_vaos(ctx: &mut GlCtx, names: &Vec<u64>)
    ensures
        final(ctx).cmds() == old(ctx).cmds() + Seq::new(
            names@.len(),
            |i: int| Cmd::DeleteVertexArray { vao: names@[i] },
        ),
        final(ctx).names_spec() == old(ctx).names_spec(),
{
    let mut i: usize = 0;
    while i < names.len()
        invariant
            0 <= i <= names@.len(),
            ctx.cmds() == old(ctx).cmds() + Seq::new(
                i as nat,
                |k: int| Cmd::DeleteVertexArray { vao: names@[k] },
            ),
            ctx.names_spec() == old(ctx).names_spec(),
        decreases names@.len() - i,
    {
        ctx.push_cmd(GlCmd::DeleteVertexArray { vao: names[i] });
        i = i + 1;
        proof {
            assert(ctx.cmds() =~= old(ctx).cmds() + Seq::new(
                i as nat,
                |k: int| Cmd::DeleteVertexArray { vao: names@[k] },
            ));
        }
    }
    proof {
        assert(ctx.cmds() =~= old(ctx).cmds() + Seq::new(
            names@.len(),
            |k: int| Cmd::DeleteVertexArray { vao: names@[k] },
        ));
    }
}

fn push_deletes_buffers(ctx: &mut GlCtx, names: &Vec<u64>)
    ensures
        final(ctx).cmds() == old(ctx).cmds() + Seq::new(
            names@.len(),
            |i: int| Cmd::DeleteBuffer { buffer: names@[i] },
        ),
        final(ctx).names_spec() == old(ctx).names_spec(),
{
    let mut i: usize = 0;
    while i < names.len()
        invariant
            0 <= i <= names@.len(),
            ctx.cmds() == old(ctx).cmds() + Seq::new(
                i as nat,
                |k: int| Cmd::DeleteBuffer { buffer: names@[k] },
            ),
            ctx.names_spec() == old(ctx).names_spec(),
        decreases names@.len() - i,
    {
        ctx.push_cmd(GlCmd::DeleteBuffer { buffer: names[i] });
        i = i + 1;
        proof {
            assert(ctx.cmds() =~= old(ctx).cmds() + Seq::new(
                i as nat,
                |k: int| Cmd::DeleteBuffer { buffer: names@[k] },
            ));
        }
    }
    proof {
        assert(ctx.cmds() =~= old(ctx).cmds() + Seq::new(
            names@.len(),
            |k: int| Cmd::DeleteBuffer { buffer: names@[k] },
        ));
    }
}

fn push_deletes_textures(ctx: &mut GlCtx, names: &Vec<u64>)
    ensures
        final(ctx).cmds() == old(ctx).cmds() + Seq::new(
            names@.len(),
            |i: int| Cmd::DeleteTexture { texture: names@[i] },
        ),
        final(ctx).names_spec() == old(ctx).names_spec(),
{
    let mut i: usize = 0;
    while i < names.len()
        invariant
            0 <= i <= names@.len(),
            ctx.cmds() == old(ctx).cmds() + Seq::new(
                i as nat,
                |k: int| Cmd::DeleteTexture { texture: names@[k] },
            ),
            ctx.names_spec() == old(ctx).names_spec(),
        decreases names@.len() - i,
    {
        ctx.push_cmd(GlCmd::DeleteTexture { texture: names[i] });
        i = i + 1;
        proof {
            assert(ctx.cmds() =~= old(ctx).cmds() + Seq::new(
                i as nat,
                |k: int| Cmd::DeleteTexture { texture: names@[k] },
            ));
        }
    }
    proof {
        assert(ctx.cmds() =~= old(ctx).cmds() + Seq::new(
            names@.len(),
            |k: int| Cmd::DeleteTexture { texture: names@[k] },
        ));
    }
}

fn push_deletes_samplers(ctx: &mut GlCtx, names: &Vec<u64>)
    ensures
        final(ctx).cmds() == old(ctx).cmds() + Seq::new(
            names@.len(),
            |i: int| Cmd::DeleteSampler { sampler: names@[i] },
        ),
        final(ctx).names_spec() == old(ctx).names_spec(),
{
    let mut i: usize = 0;
    while i < names.len()
        invariant
            0 <= i <= names@.len(),
            ctx.cmds() == old(ctx).cmds() + Seq::new(
                i as nat,
                |k: int| Cmd::DeleteSampler { sampler: names@[k] },
            ),
            ctx.names_spec() == old(ctx).names_spec(),
        decreases names@.len() - i,
    {
        ctx.push_cmd(GlCmd::DeleteSampler { sampler: names[i] });
        i = i + 1;
        proof {
            assert(ctx.cmds() =~= old(ctx).cmds() + Seq::new(
                i as nat,
                |k: int| Cmd::DeleteSampler { sampler: names@[k] },
            ));
        }
    }
    proof {
        assert(ctx.cmds() =~= old(ctx).cmds() + Seq::new(
            names@.len(),
            |k: int| Cmd::DeleteSampler { sampler: names@[k] },
        ));
    }
}


/// A list of submissions applied in order raises the instance count by
/// exactly its length.
pub proof fn lemma_apply_adds_total(b: BatchesView, adds: Seq<(DrawCall, Seq<u32>)>)
    ensures
        total_instances(apply_adds(b, adds)) == total_instances(b) + adds.len(),
    decreases adds.len(),
{
    if adds.len() > 0 {
        crate::draw_calls::lemma_apply_add_total(b, adds[0].0, adds[0].1);
        lemma_apply_adds_total(apply_add(b, adds[0].0, adds[0].1), adds.drop_first());
    }
}

/// Batching an asset: for an asset whose full traversal submits N
/// primitive instances, traversing into an empty batcher and flushing
/// issues exactly one instanced draw submission per distinct non-empty
/// descriptor, and the submissions' instance counts sum to N.
pub proof fn lemma_traversal_then_flush(
    g: Gltf,
    t: Seq<u32>,
    s: crate::bumpalloc_buffer::ArenaState,
    locations: [u32; 4],
)
    requires
        g.scene_adds(t).len() <= usize::MAX,
    ensures
        crate::draw_calls::count_draw_submissions(
            crate::draw_calls::flush_cmds(
                apply_adds(Seq::empty(), g.scene_adds(t)),
                s,
                locations,
            ),
        ) == crate::draw_calls::nonempty_batches(apply_adds(Seq::empty(), g.scene_adds(t))),
        crate::draw_calls::sum_draw_instances(
            crate::draw_calls::flush_cmds(
                apply_adds(Seq::empty(), g.scene_adds(t)),
                s,
                locations,
            ),
        ) == g.scene_adds(t).len(),
{
    let b = apply_adds(Seq::empty(), g.scene_adds(t));
    lemma_apply_adds_total(Seq::empty(), g.scene_adds(t));
    assert(total_instances(b) == g.scene_adds(t).len());
    assert forall|i: int| 0 <= i < b.len() implies (#[trigger] b[i]).1.len() <= usize::MAX by {
        crate::draw_calls::lemma_batch_len_le_total(b, i);
    }
    crate::draw_calls::lemma_flush_cmds_submissions(b, s, locations);
}

} // verus!
