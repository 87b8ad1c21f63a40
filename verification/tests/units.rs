//! Unit tests: number decoding, matrix transforms, the JSON parser, the
//! program manager, and image decoding through the loader.

use gltf_renderer_core::commands::{GlCmd, GlCtx};
use gltf_renderer_core::json::{parse_json, Json};
use gltf_renderer_core::loader::load_gltf;
use gltf_renderer_core::draw_calls::DrawCalls;
use gltf_renderer_core::mat::{winding_from_det_bits, Mat};
use gltf_renderer_core::numbers::{int_to_f32_bits, parse_digits_u64};
use gltf_renderer_core::commands::Winding;
use gltf_renderer_core::program::{create_program, ProgramError, ProgramInterface};
use gltf_renderer_core::LoadError;

#[test]
fn digit_tokens_decode_exactly() {
    assert_eq!(parse_digits_u64(b"0"), Ok(0));
    assert_eq!(parse_digits_u64(b"42"), Ok(42));
    assert_eq!(parse_digits_u64(b"18446744073709551615").err(), Some(LoadError::BadNumber));
    assert_eq!(parse_digits_u64(b"9999999999999999999"), Ok(9_999_999_999_999_999_999));
    assert_eq!(parse_digits_u64(b"1x").err(), Some(LoadError::BadNumber));
    assert_eq!(parse_digits_u64(b"").err(), Some(LoadError::BadNumber));
}

#[test]
fn small_integers_convert_to_exact_float_bits() {
    assert_eq!(int_to_f32_bits(0), 0.0f32.to_bits());
    assert_eq!(int_to_f32_bits(1), 1.0f32.to_bits());
    assert_eq!(int_to_f32_bits(7), 7.0f32.to_bits());
    assert_eq!(int_to_f32_bits(255), 255.0f32.to_bits());
    assert_eq!(int_to_f32_bits(0xFF_FFFF), 16777215.0f32.to_bits());
}

#[test]
fn winding_decision_matches_float_comparison() {
    assert_eq!(winding_from_det_bits(1.0f32.to_bits()), Winding::CounterClockwise);
    assert_eq!(winding_from_det_bits((-1.0f32).to_bits()), Winding::Clockwise);
    assert_eq!(winding_from_det_bits(0.0f32.to_bits()), Winding::Clockwise);
    assert_eq!(winding_from_det_bits((-0.0f32).to_bits()), Winding::Clockwise);
    assert_eq!(winding_from_det_bits(f32::NAN.to_bits()), Winding::Clockwise);
    assert_eq!(winding_from_det_bits(f32::INFINITY.to_bits()), Winding::CounterClockwise);
}

#[test]
fn matrix_multiplication_accumulates_translations() {
    // A parent and child translation stack up: the staged instance
    // transform of the child's primitive carries the summed offset, and a
    // pure translation keeps a positive determinant (counter-clockwise).
    let doc = r#"{
        "scene": 0,
        "scenes": [{"nodes": [0]}],
        "nodes": [
            {"translation": [1, 0, 0], "children": [1]},
            {"translation": [2.5, 0, 0], "mesh": 0}
        ],
        "meshes": [{"primitives": [
            {"attributes": {"POSITION": 0}, "indices": 1, "material": 0}
        ]}],
        "accessors": [
            {"bufferView": 0, "count": 3, "type": "VEC3", "componentType": 5126},
            {"bufferView": 1, "count": 3, "type": "SCALAR", "componentType": 5123}
        ],
        "bufferViews": [
            {"buffer": 0},
            {"buffer": 0, "byteOffset": 36}
        ],
        "buffers": [{"uri": "tri.bin", "byteLength": 42}],
        "materials": [{}],
        "textures": [],
        "images": []
    }"#;
    let mut bin = Vec::new();
    for f in [0.0f32, 0.0, 0.0, 1.0, 0.0, 0.0, 0.0, 1.0, 0.0] {
        bin.extend_from_slice(&f.to_le_bytes());
    }
    for i in [0u16, 1, 2] {
        bin.extend_from_slice(&i.to_le_bytes());
    }
    let resources = vec![(b"tri.bin".to_vec(), bin)];
    let mut ctx = GlCtx::new();
    let asset = load_gltf(&mut ctx, doc.as_bytes(), &resources).unwrap();
    assert_eq!(asset.nodes[0].transform.bits[12], 1.0f32.to_bits());
    assert_eq!(asset.nodes[1].transform.bits[12], 2.5f32.to_bits());
    let mut dc = DrawCalls::new(&mut ctx);
    asset.draw(&mut dc, Mat::identity());
    let start = ctx.commands.len();
    dc.draw(&mut ctx, [6, 7, 8, 9]);
    let tail = &ctx.commands[start..];
    // The staged 64-byte instance matrix holds the accumulated translation
    // in its fourth column.
    let staged = tail
        .iter()
        .find_map(|c| match c {
            GlCmd::BufferSubData { data, .. } if data.len() == 64 => Some(data.clone()),
            _ => None,
        })
        .expect("one staged instance matrix");
    let x = f32::from_le_bytes([staged[48], staged[49], staged[50], staged[51]]);
    assert_eq!(x, 3.5);
    assert!(tail
        .iter()
        .any(|c| matches!(c, GlCmd::FrontFace { winding: Winding::CounterClockwise })));
}

#[test]
fn json_parser_handles_structure_and_escapes() {
    let j = parse_json(br#"  {"a": [1, -2.5e1, true, null], "s": "x\nA\u00e9"}  "#)
        .unwrap();
    let a = j.get(b"a").unwrap();
    match a {
        Json::Arr(items) => {
            assert_eq!(items.len(), 4);
            match &items[0] {
                Json::Num(t) => assert_eq!(t.as_slice(), b"1"),
                _ => panic!("expected a number"),
            }
            match &items[1] {
                Json::Num(t) => assert_eq!(t.as_slice(), b"-2.5e1"),
                _ => panic!("expected a number"),
            }
            assert!(matches!(items[2], Json::Bool(true)));
            assert!(matches!(items[3], Json::Null));
        },
        _ => panic!("expected an array"),
    }
    match j.get(b"s").unwrap() {
        Json::Str(bytes) => assert_eq!(bytes.as_slice(), "x\nA\u{e9}".as_bytes()),
        _ => panic!("expected a string"),
    }
    assert!(j.get(b"missing").is_none());
    assert!(parse_json(b"{\"a\": }").is_err());
    assert!(parse_json(b"[1, 2").is_err());
    assert!(parse_json(b"").is_err());
    // Leading zeros are not valid number tokens.
    assert!(parse_json(b"[007]").is_err());
    assert!(parse_json(b"-01").is_err());
    assert!(parse_json(b"[0]").is_ok());
    assert!(parse_json(b"[0.5, -0.25e-1]").is_ok());
}

#[test]
fn json_duplicate_keys_last_wins() {
    let j = parse_json(br#"{"k": 1, "k": 2}"#).unwrap();
    match j.get(b"k").unwrap() {
        Json::Num(t) => assert_eq!(t.as_slice(), b"2"),
        _ => panic!("expected a number"),
    }
}

#[test]
fn program_setup_points_samplers_and_checks_limits() {
    let info = ProgramInterface {
        program: 7,
        proj_from_view_location: Some(1),
        view_from_world_location: Some(2),
        base_color_tex_location: Some(3),
        metallic_roughness_tex_location: None,
        normal_tex_location: Some(4),
        occlusion_tex_location: None,
        emissive_tex_location: None,
        material_block_index: Some(0),
        lights_block_index: None,
        max_uniform_block_size: 16384,
        max_uniform_buffer_bindings: 24,
        max_texture_image_units: 16,
    };
    let mut ctx = GlCtx::new();
    let p = create_program(&mut ctx, &info, true).unwrap();
    assert_eq!(p.program, 7);
    assert_eq!(p.proj_from_view_location, 1);
    assert_eq!(p.view_from_world_location, 2);
    let uniform1i: Vec<_> = ctx
        .commands
        .iter()
        .filter(|c| matches!(c, GlCmd::Uniform1i { .. }))
        .collect();
    assert_eq!(uniform1i.len(), 2);
    assert!(ctx
        .commands
        .iter()
        .any(|c| matches!(c, GlCmd::UniformBlockBinding { program: 7, binding: 0, .. })));

    let mut tight = info;
    tight.max_texture_image_units = 1;
    let mut ctx2 = GlCtx::new();
    assert_eq!(
        create_program(&mut ctx2, &tight, true).err(),
        Some(ProgramError::TextureImageUnitLimit)
    );
    let mut missing = tight;
    missing.proj_from_view_location = None;
    let mut ctx3 = GlCtx::new();
    assert_eq!(
        create_program(&mut ctx3, &missing, false).err(),
        Some(ProgramError::MissingProjFromView)
    );
}

#[test]
fn images_decode_and_mip_upload() {
    // Encode a 2x2 PNG with the image crate, reference it as a base color
    // texture, and expect a gamma-correct upload with two mipmap levels.
    let img = image::RgbaImage::from_pixel(2, 2, image::Rgba([10, 20, 30, 255]));
    let mut png: Vec<u8> = Vec::new();
    image::DynamicImage::ImageRgba8(img)
        .write_to(&mut std::io::Cursor::new(&mut png), image::ImageFormat::Png)
        .unwrap();
    let doc = r#"{
        "scene": 0,
        "scenes": [{"nodes": []}],
        "nodes": [],
        "meshes": [], "accessors": [], "bufferViews": [], "buffers": [],
        "materials": [{
            "pbrMetallicRoughness": {"baseColorTexture": {"index": 0}}
        }],
        "textures": [{"source": 0}],
        "images": [{"uri": "px.png"}]
    }"#;
    let resources = vec![(b"px.png".to_vec(), png)];
    let mut ctx = GlCtx::new();
    load_gltf(&mut ctx, doc.as_bytes(), &resources).unwrap();
    let uploads: Vec<_> = ctx
        .commands
        .iter()
        .filter_map(|c| match c {
            GlCmd::TexImage2D { level, internal_format, width, height, data, .. } => {
                Some((*level, *internal_format, *width, *height, data.len()))
            },
            _ => None,
        })
        .collect();
    // Four 1x1 fallback textures plus two mip levels of the 2x2 image.
    assert_eq!(uploads.len(), 6);
    assert!(uploads.contains(&(0, 35907, 2, 2, 16)));
    assert!(uploads.contains(&(1, 35907, 1, 1, 4)));
}

#[test]
fn malformed_assets_fail_with_descriptive_errors() {
    let mut ctx = GlCtx::new();
    assert_eq!(
        load_gltf(&mut ctx, b"not json", &Vec::new()).err(),
        Some(LoadError::JsonSyntax)
    );
    assert_eq!(
        load_gltf(&mut ctx, b"{}", &Vec::new()).err(),
        Some(LoadError::Structure)
    );
    let missing_buffer = r#"{
        "scene": 0, "scenes": [{"nodes": []}], "nodes": [],
        "meshes": [], "accessors": [], "bufferViews": [],
        "buffers": [{"uri": "gone.bin", "byteLength": 4}],
        "materials": [], "textures": [], "images": []
    }"#;
    assert_eq!(
        load_gltf(&mut ctx, missing_buffer.as_bytes(), &Vec::new()).err(),
        Some(LoadError::UnresolvedBuffer)
    );
    let cyclic = r#"{
        "scene": 0, "scenes": [{"nodes": [0]}],
        "nodes": [{"children": [1]}, {"children": [0]}],
        "meshes": [], "accessors": [], "bufferViews": [], "buffers": [],
        "materials": [], "textures": [], "images": []
    }"#;
    assert_eq!(
        load_gltf(&mut ctx, cyclic.as_bytes(), &Vec::new()).err(),
        Some(LoadError::NotATree)
    );
    assert_eq!(
        LoadError::SrgbConflict.message(),
        "an image is used both as srgb and not"
    );
}

#[test]
fn each_malformed_shape_reports_its_error() {
    let minimal = r#"{
        "scene": 0,
        "scenes": [{"nodes": [0]}],
        "nodes": [{"mesh": 0}],
        "meshes": [{"primitives": [
            {"attributes": {"POSITION": 0}, "indices": 1, "material": 0}
        ]}],
        "accessors": [
            {"bufferView": 0, "count": 3, "type": "VEC3", "componentType": 5126},
            {"bufferView": 1, "count": 3, "type": "SCALAR", "componentType": 5123}
        ],
        "bufferViews": [
            {"buffer": 0},
            {"buffer": 0, "byteOffset": 36}
        ],
        "buffers": [{"uri": "tri.bin", "byteLength": 42}],
        "materials": [{}],
        "textures": [],
        "images": []
    }"#;
    let mut bin = Vec::new();
    for f in [0.0f32, 0.0, 0.0, 1.0, 0.0, 0.0, 0.0, 1.0, 0.0] {
        bin.extend_from_slice(&f.to_le_bytes());
    }
    for i in [0u16, 1, 2] {
        bin.extend_from_slice(&i.to_le_bytes());
    }
    let resources = vec![(b"tri.bin".to_vec(), bin)];
    let expect = |doc: String, err: LoadError| {
        let mut ctx = GlCtx::new();
        assert_eq!(load_gltf(&mut ctx, doc.as_bytes(), &resources).err(), Some(err));
    };
    expect(
        minimal.replace("\"byteLength\": 42", "\"byteLength\": 41"),
        LoadError::BufferLengthMismatch,
    );
    expect(
        minimal.replace("{\"buffer\": 0},", "{\"buffer\": 0, \"byteStride\": 12},"),
        LoadError::InterleavedStride,
    );
    expect(
        minimal.replace("\"POSITION\": 0", "\"JOINTS_0\": 0"),
        LoadError::UnsupportedAttribute,
    );
    expect(
        minimal.replace("\"type\": \"VEC3\"", "\"type\": \"MAT4\""),
        LoadError::UnsupportedAccessorType,
    );
    expect(
        minimal.replace("\"type\": \"SCALAR\", \"componentType\": 5123", "\"type\": \"SCALAR\", \"componentType\": 5126"),
        LoadError::UnsupportedIndexType,
    );
    expect(
        minimal.replace("\"nodes\": [{\"mesh\": 0}]", "\"nodes\": [{\"mesh\": 0, \"children\": [5]}]"),
        LoadError::IndexOutOfBounds,
    );
    expect(
        minimal
            .replace("\"textures\": []", "\"textures\": [{\"source\": 0}]")
            .replace("\"images\": []", "\"images\": [{\"uri\": \"gone.png\"}]")
            .replace(
                "\"materials\": [{}]",
                "\"materials\": [{\"pbrMetallicRoughness\": {\"baseColorTexture\": {\"index\": 0}}}]",
            ),
        LoadError::UnresolvedImage,
    );
    expect(
        minimal
            .replace("\"textures\": []", "\"textures\": [{\"source\": 0}]")
            .replace("\"images\": []", "\"images\": [{\"uri\": \"tri.bin\"}]")
            .replace(
                "\"materials\": [{}]",
                "\"materials\": [{\"pbrMetallicRoughness\": {\"baseColorTexture\": {\"index\": 0}}}]",
            ),
        LoadError::UnsupportedImage,
    );
    let img = image::RgbaImage::from_pixel(1, 1, image::Rgba([1, 2, 3, 255]));
    let mut png: Vec<u8> = Vec::new();
    image::DynamicImage::ImageRgba8(img)
        .write_to(&mut std::io::Cursor::new(&mut png), image::ImageFormat::Png)
        .unwrap();
    let mut with_png = resources.clone();
    with_png.push((b"px.png".to_vec(), png));
    let doc = minimal
        .replace("\"textures\": []", "\"textures\": [{\"source\": 0}]")
        .replace("\"images\": []", "\"images\": [{\"uri\": \"px.png\"}]")
        .replace(
            "\"materials\": [{}]",
            "\"materials\": [{\"pbrMetallicRoughness\": {\"baseColorTexture\": {\"index\": 0, \"texCoord\": 1}}}]",
        );
    let mut ctx = GlCtx::new();
    assert_eq!(
        load_gltf(&mut ctx, doc.as_bytes(), &with_png).err(),
        Some(LoadError::UnsupportedTexCoord)
    );
}
