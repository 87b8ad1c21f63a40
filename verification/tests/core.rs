//! End-to-end and unit tests for the renderer core, driven through the
//! public interface with the real outside crates linked.

use gltf_renderer_core::bumpalloc_buffer::BumpAllocatedBuffer;
use gltf_renderer_core::commands::{BufferTarget, BufferUsage, GlCmd, GlCtx, Winding};
use gltf_renderer_core::draw_calls::DrawCalls;
use gltf_renderer_core::loader::load_gltf;
use gltf_renderer_core::mat::Mat;
use gltf_renderer_core::renderer::render_frame;
use gltf_renderer_core::LoadError;

fn res(name: &str, data: &[u8]) -> (Vec<u8>, Vec<u8>) {
    (name.as_bytes().to_vec(), data.to_vec())
}

/// A minimal valid asset: one scene, one node, one triangle primitive with
/// positions and 16-bit indices, one default material.
fn minimal_doc() -> &'static str {
    r#"{
        "scene": 0,
        "scenes": [{"nodes": [0]}],
        "nodes": [{"mesh": 0}],
        "meshes": [{"primitives": [
            {"attributes": {"POSITION": 0}, "indices": 1, "material": 0}
        ]}],
        "accessors": [
            {"bufferView": 0, "count": 3, "type": "VEC3", "componentType": 5126},
            {"bufferView": 1, "count": 3, "type": "SCALAR", "componentType": 5123}
        ],
        "bufferViews": [
            {"buffer": 0},
            {"buffer": 0, "byteOffset": 36}
        ],
        "buffers": [{"uri": "tri.bin", "byteLength": 42}],
        "materials": [{}],
        "textures": [],
        "images": []
    }"#
}

fn minimal_resources() -> Vec<(Vec<u8>, Vec<u8>)> {
    let mut bin = Vec::new();
    for f in [
        0.0f32, 0.0, 0.0, 1.0, 0.0, 0.0, 0.0, 1.0, 0.0,
    ] {
        bin.extend_from_slice(&f.to_le_bytes());
    }
    for i in [0u16, 1, 2] {
        bin.extend_from_slice(&i.to_le_bytes());
    }
    assert_eq!(bin.len(), 42);
    vec![res("tri.bin", &bin)]
}

fn draw_submissions(cmds: &[GlCmd]) -> Vec<(usize, usize)> {
    let mut out = Vec::new();
    for c in cmds {
        if let GlCmd::DrawElementsInstanced { index_count, instance_count, .. } = c {
            out.push((*index_count, *instance_count));
        }
    }
    out
}

#[test]
fn round_trip_minimal_asset() {
    let mut ctx = GlCtx::new();
    let asset = load_gltf(&mut ctx, minimal_doc().as_bytes(), &minimal_resources())
        .expect("minimal asset loads");
    assert_eq!(asset.scenes.len(), 1);
    assert_eq!(asset.nodes.len(), 1);
    assert_eq!(asset.primitives.len(), 1);
    let mut dc = DrawCalls::new(&mut ctx);
    asset.draw(&mut dc, Mat::identity());
    let start = ctx.commands.len();
    dc.draw(&mut ctx, [6, 7, 8, 9]);
    let draws = draw_submissions(&ctx.commands[start..]);
    assert_eq!(draws, vec![(3, 1)]);
}

#[test]
fn batching_counts_instances_per_descriptor() {
    // Two nodes reference the same mesh: one submission, two instances.
    let doc = r#"{
        "scene": 0,
        "scenes": [{"nodes": [0, 1]}],
        "nodes": [{"mesh": 0}, {"mesh": 0, "translation": [1, 0, 0]}],
        "meshes": [{"primitives": [
            {"attributes": {"POSITION": 0}, "indices": 1, "material": 0}
        ]}],
        "accessors": [
            {"bufferView": 0, "count": 3, "type": "VEC3", "componentType": 5126},
            {"bufferView": 1, "count": 3, "type": "SCALAR", "componentType": 5123}
        ],
        "bufferViews": [
            {"buffer": 0},
            {"buffer": 0, "byteOffset": 36}
        ],
        "buffers": [{"uri": "tri.bin", "byteLength": 42}],
        "materials": [{}],
        "textures": [],
        "images": []
    }"#;
    let mut ctx = GlCtx::new();
    let asset = load_gltf(&mut ctx, doc.as_bytes(), &minimal_resources()).unwrap();
    let mut dc = DrawCalls::new(&mut ctx);
    asset.draw(&mut dc, Mat::identity());
    let start = ctx.commands.len();
    dc.draw(&mut ctx, [6, 7, 8, 9]);
    let draws = draw_submissions(&ctx.commands[start..]);
    assert_eq!(draws, vec![(3, 2)]);
}

#[test]
fn winding_flips_under_mirror_transform() {
    // The same primitive under an identity and under a single-axis mirror:
    // two batches, opposite front faces.
    let doc = r#"{
        "scene": 0,
        "scenes": [{"nodes": [0, 1]}],
        "nodes": [{"mesh": 0}, {"mesh": 0, "scale": [-1, 1, 1]}],
        "meshes": [{"primitives": [
            {"attributes": {"POSITION": 0}, "indices": 1, "material": 0}
        ]}],
        "accessors": [
            {"bufferView": 0, "count": 3, "type": "VEC3", "componentType": 5126},
            {"bufferView": 1, "count": 3, "type": "SCALAR", "componentType": 5123}
        ],
        "bufferViews": [
            {"buffer": 0},
            {"buffer": 0, "byteOffset": 36}
        ],
        "buffers": [{"uri": "tri.bin", "byteLength": 42}],
        "materials": [{}],
        "textures": [],
        "images": []
    }"#;
    let mut ctx = GlCtx::new();
    let asset = load_gltf(&mut ctx, doc.as_bytes(), &minimal_resources()).unwrap();
    let mut dc = DrawCalls::new(&mut ctx);
    asset.draw(&mut dc, Mat::identity());
    let start = ctx.commands.len();
    dc.draw(&mut ctx, [6, 7, 8, 9]);
    let tail = &ctx.commands[start..];
    let draws = draw_submissions(tail);
    assert_eq!(draws, vec![(3, 1), (3, 1)]);
    let mut windings = Vec::new();
    for c in tail {
        if let GlCmd::FrontFace { winding } = c {
            windings.push(*winding);
        }
    }
    assert_eq!(windings.len(), 2);
    assert!(windings.contains(&Winding::CounterClockwise));
    assert!(windings.contains(&Winding::Clockwise));
}

#[test]
fn identity_matrix_and_absent_transform_agree() {
    let with_matrix = r#"{
        "scene": 0,
        "scenes": [{"nodes": [0]}],
        "nodes": [{"matrix": [1,0,0,0, 0,1,0,0, 0,0,1,0, 0,0,0,1]}],
        "meshes": [], "accessors": [], "bufferViews": [],
        "buffers": [], "materials": [], "textures": [], "images": []
    }"#;
    let without = r#"{
        "scene": 0,
        "scenes": [{"nodes": [0]}],
        "nodes": [{}],
        "meshes": [], "accessors": [], "bufferViews": [],
        "buffers": [], "materials": [], "textures": [], "images": []
    }"#;
    let mut ctx = GlCtx::new();
    let a = load_gltf(&mut ctx, with_matrix.as_bytes(), &Vec::new()).unwrap();
    let b = load_gltf(&mut ctx, without.as_bytes(), &Vec::new()).unwrap();
    assert!(a.nodes[0].transform.bits_eq(&b.nodes[0].transform));
    assert!(a.nodes[0].transform.bits_eq(&Mat::identity()));
}

#[test]
fn srgb_role_conflict_fails() {
    // Image index 3 used both as color data (baseColorTexture) and as
    // linear data (normalTexture).
    let doc = r#"{
        "scene": 0,
        "scenes": [{"nodes": []}],
        "nodes": [],
        "meshes": [], "accessors": [], "bufferViews": [], "buffers": [],
        "materials": [{
            "pbrMetallicRoughness": {"baseColorTexture": {"index": 0}},
            "normalTexture": {"index": 0}
        }],
        "textures": [{"source": 3}],
        "images": [{}, {}, {}, {}]
    }"#;
    let mut ctx = GlCtx::new();
    let r = load_gltf(&mut ctx, doc.as_bytes(), &Vec::new());
    assert_eq!(r.err(), Some(LoadError::SrgbConflict));
}

#[test]
fn default_color_applied_only_without_color_attribute() {
    let with_color = r#"{
        "scene": 0,
        "scenes": [{"nodes": [0]}],
        "nodes": [{"mesh": 0}],
        "meshes": [{"primitives": [
            {"attributes": {"POSITION": 0, "COLOR_0": 0}, "indices": 1, "material": 0}
        ]}],
        "accessors": [
            {"bufferView": 0, "count": 3, "type": "VEC3", "componentType": 5126},
            {"bufferView": 1, "count": 3, "type": "SCALAR", "componentType": 5123}
        ],
        "bufferViews": [
            {"buffer": 0},
            {"buffer": 0, "byteOffset": 36}
        ],
        "buffers": [{"uri": "tri.bin", "byteLength": 42}],
        "materials": [{}],
        "textures": [],
        "images": []
    }"#;
    let count_all_ones = |doc: &str| {
        let mut ctx = GlCtx::new();
        let asset = load_gltf(&mut ctx, doc.as_bytes(), &minimal_resources()).unwrap();
        let mut dc = DrawCalls::new(&mut ctx);
        asset.draw(&mut dc, Mat::identity());
        let start = ctx.commands.len();
        dc.draw(&mut ctx, [6, 7, 8, 9]);
        ctx.commands[start..]
            .iter()
            .filter(|c| matches!(c, GlCmd::VertexAttribAllOnes { location: 5 }))
            .count()
    };
    assert_eq!(count_all_ones(minimal_doc()), 1);
    assert_eq!(count_all_ones(with_color), 0);
}

#[test]
fn render_frame_runs_clear_traverse_flush() {
    let mut ctx = GlCtx::new();
    let asset = load_gltf(&mut ctx, minimal_doc().as_bytes(), &minimal_resources()).unwrap();
    let mut dc = DrawCalls::new(&mut ctx);
    let models = vec![(asset, Mat::identity())];
    let start = ctx.commands.len();
    assert!(render_frame(&mut ctx, &mut dc, &models, [6, 7, 8, 9]));
    assert_eq!(draw_submissions(&ctx.commands[start..]), vec![(3, 1)]);
    // A second frame redraws the same single instance, not a stale double.
    let start2 = ctx.commands.len();
    assert!(render_frame(&mut ctx, &mut dc, &models, [6, 7, 8, 9]));
    assert_eq!(draw_submissions(&ctx.commands[start2..]), vec![(3, 1)]);
}

#[test]
fn arena_ranges_do_not_overlap_and_clear_rewinds() {
    let mut ctx = GlCtx::new();
    let mut arena = BumpAllocatedBuffer::new(
        &mut ctx,
        BufferTarget::Array,
        BufferUsage::StreamDraw,
    );
    let (b1, o1) = arena.allocate_buffer(&mut ctx, &[1, 2, 3, 4]);
    let (b2, o2) = arena.allocate_buffer(&mut ctx, &[5, 6]);
    let (b3, o3) = arena.allocate_buffer(&mut ctx, &[7]);
    assert_eq!(b1, b2);
    assert_eq!(b2, b3);
    assert_eq!(o1, 0);
    assert!(o1 + 4 <= o2);
    assert!(o2 + 2 <= o3);
    arena.clear();
    let (_, o4) = arena.allocate_buffer(&mut ctx, &[9, 9]);
    assert_eq!(o4, 0);
}
