//! Shader program setup: resolving uniform locations, pointing sampler
//! uniforms at their texture units, binding uniform blocks, and checking
//! driver capability limits.
//!
//! Compiling and linking, and querying locations and limits, are driver
//! work: the embedder does both and hands the results in as a
//! [`ProgramInterface`].  This module makes the decisions: which commands
//! to record, and whether the program fits the driver's limits.

use vstd::prelude::*;

use crate::commands::{Cmd, GlCmd, GlCtx};
use crate::gltf::{
    TEX_UNIT_BASE_COLOR, TEX_UNIT_EMISSIVE, TEX_UNIT_METALLIC_ROUGHNESS, TEX_UNIT_NORMAL,
    TEX_UNIT_OCCLUSION, UNIFORM_BLOCK_LIGHTS, UNIFORM_BLOCK_MATERIAL,
};

verus! {

/// The packed byte size of the per-material factor block: a four-element
/// color vector, four scalar factors, and a four-element emissive vector,
/// each element four bytes.
pub const UNIFORM_BLOCK_MATERIAL_SIZE: i32 = 48;

/// The packed byte size of the lights block: four 32-light scalar arrays
/// and two 32-light three-vector arrays, each element four bytes.
pub const UNIFORM_BLOCK_LIGHTS_SIZE: i32 = 1280;

/// Debug-build ceilings, tighter than any reasonable driver's limits so
/// portability problems surface early.
pub const DEBUG_MAX_UNIFORM_BLOCK_SIZE: i32 = 16384;

pub const DEBUG_MAX_UNIFORM_BUFFER_BINDINGS: i32 = 24;

pub const DEBUG_MAX_TEXTURE_IMAGE_UNITS: i32 = 16;

/// A compiled and linked program as the driver reported it: its name, the
/// locations it resolved (absent uniforms are simply skipped), and the
/// driver's capability limits.
pub struct ProgramInterface {
    pub program: u64,
    pub proj_from_view_location: Option<i32>,
    pub view_from_world_location: Option<i32>,
    pub base_color_tex_location: Option<i32>,
    pub metallic_roughness_tex_location: Option<i32>,
    pub normal_tex_location: Option<i32>,
    pub occlusion_tex_location: Option<i32>,
    pub emissive_tex_location: Option<i32>,
    pub material_block_index: Option<u32>,
    pub lights_block_index: Option<u32>,
    pub max_uniform_block_size: i32,
    pub max_uniform_buffer_bindings: i32,
    pub max_texture_image_units: i32,
}

/// The program handle and the two required transform locations.
pub struct ShaderProgram {
    pub program: u64,
    pub proj_from_view_location: i32,
    pub view_from_world_location: i32,
}

#[derive(Clone, Copy, PartialEq, Eq, Structural, Debug)]
pub enum ProgramError {
    /// The program lacks the projection-transform uniform.
    MissingProjFromView,
    /// The program lacks the view-transform uniform.
    MissingViewFromWorld,
    /// The largest used uniform block exceeds the driver's limit.
    UniformBlockSizeLimit,
    /// The used uniform blocks exceed the driver's binding-point limit.
    UniformBufferBindingLimit,
    /// The used texture units exceed the driver's limit.
    TextureImageUnitLimit,
}

/// How many of the five material sampler uniforms the program resolved.
pub open spec fn texture_count(info: ProgramInterface) -> int {
    (if info.base_color_tex_location is Some { 1int } else { 0int })
        + (if info.metallic_roughness_tex_location is Some { 1int } else { 0int })
        + (if info.normal_tex_location is Some { 1int } else { 0int })
        + (if info.occlusion_tex_location is Some { 1int } else { 0int })
        + (if info.emissive_tex_location is Some { 1int } else { 0int })
}

pub open spec fn uniform_block_count(info: ProgramInterface) -> int {
    (if info.material_block_index is Some { 1int } else { 0int })
        + (if info.lights_block_index is Some { 1int } else { 0int })
}

/// The byte size of the largest uniform block the program uses.
pub open spec fn max_ubo_size(info: ProgramInterface) -> int {
    let material = if info.material_block_index is Some {
        UNIFORM_BLOCK_MATERIAL_SIZE as int
    } else {
        0int
    };
    let lights = if info.lights_block_index is Some {
        UNIFORM_BLOCK_LIGHTS_SIZE as int
    } else {
        0int
    };
    if material >= lights {
        material
    } else {
        lights
    }
}

/// One sampler-uniform command, when the program resolved the uniform.
pub open spec fn sampler_cmd(location: Option<i32>, unit: u32) -> Seq<Cmd> {
    match location {
        Some(location) => seq![Cmd::Uniform1i { location, value: unit }],
        None => Seq::empty(),
    }
}

/// One uniform-block binding command, when the program has the block.
pub open spec fn block_cmd(program: u64, index: Option<u32>, binding: u32) -> Seq<Cmd> {
    match index {
        Some(block_index) => seq![Cmd::UniformBlockBinding { program, block_index, binding }],
        None => Seq::empty(),
    }
}

/// Everything program setup records: each resolved sampler uniform pointed
/// at its texture unit, then each present uniform block bound to its
/// binding point.
pub open spec fn program_setup_cmds(info: ProgramInterface) -> Seq<Cmd> {
    sampler_cmd(info.base_color_tex_location, TEX_UNIT_BASE_COLOR) + sampler_cmd(
        info.metallic_roughness_tex_location,
        TEX_UNIT_METALLIC_ROUGHNESS,
    ) + sampler_cmd(info.normal_tex_location, TEX_UNIT_NORMAL) + sampler_cmd(
        info.occlusion_tex_location,
        TEX_UNIT_OCCLUSION,
    ) + sampler_cmd(info.emissive_tex_location, TEX_UNIT_EMISSIVE) + block_cmd(
        info.program,
        info.material_block_index,
        UNIFORM_BLOCK_MATERIAL,
    ) + block_cmd(info.program, info.lights_block_index, UNIFORM_BLOCK_LIGHTS)
}

/// Whether the program's requirements stay within the driver's limits.
pub open spec fn within_driver_limits(info: ProgramInterface) -> bool {
    &&& max_ubo_size(info) <= info.max_uniform_block_size
    &&& uniform_block_count(info) <= info.max_uniform_buffer_bindings
    &&& texture_count(info) <= info.max_texture_image_units
}

/// Whether the program's requirements stay within the debug-build
/// ceilings.
pub open spec fn within_debug_limits(info: ProgramInterface) -> bool {
    &&& max_ubo_size(info) <= DEBUG_MAX_UNIFORM_BLOCK_SIZE
    &&& uniform_block_count(info) <= DEBUG_MAX_UNIFORM_BUFFER_BINDINGS
    &&& texture_count(info) <= DEBUG_MAX_TEXTURE_IMAGE_UNITS
}

/// Which error a rejected program reports: the missing required uniform,
/// or the first exceeded limit, driver limits checked before the debug
/// ceilings (meaningless when the program is accepted).
pub open spec fn program_failure(info: ProgramInterface, enforce_debug_limits: bool) -> ProgramError {
    if info.proj_from_view_location is None {
        ProgramError::MissingProjFromView
    } else if info.view_from_world_location is None {
        ProgramError::MissingViewFromWorld
    } else if max_ubo_size(info) > info.max_uniform_block_size {
        ProgramError::UniformBlockSizeLimit
    } else if uniform_block_count(info) > info.max_uniform_buffer_bindings {
        ProgramError::UniformBufferBindingLimit
    } else if texture_count(info) > info.max_texture_image_units {
        ProgramError::TextureImageUnitLimit
    } else if enforce_debug_limits && max_ubo_size(info) > DEBUG_MAX_UNIFORM_BLOCK_SIZE {
        ProgramError::UniformBlockSizeLimit
    } else if enforce_debug_limits && uniform_block_count(info)
        > DEBUG_MAX_UNIFORM_BUFFER_BINDINGS {
        ProgramError::UniformBufferBindingLimit
    } else {
        ProgramError::TextureImageUnitLimit
    }
}

/// Wires up a compiled program for the glTF shaders: resolves the two
/// required transform uniforms, points every resolved sampler uniform at
/// its texture unit, binds the present uniform blocks, and validates the
/// driver's capability limits (and, when asked, the debug ceilings).
/// Sampler and block commands are recorded before validation, as the
/// driver sees them in that order either way; nothing is recorded when a
/// required transform uniform is missing.
#[verifier::rlimit(100)]
pub fn create_program(ctx: &mut GlCtx, info: &ProgramInterface, enforce_debug_limits: bool) -> (r:
    Result<ShaderProgram, ProgramError>)
    ensures
        r is Ok <==> info.proj_from_view_location is Some && info.view_from_world_location is Some
            && within_driver_limits(*info) && (enforce_debug_limits ==> within_debug_limits(
            *info,
        )),
        r is Ok ==> (r->Ok_0.program == info.program && Some(r->Ok_0.proj_from_view_location)
            == info.proj_from_view_location && Some(r->Ok_0.view_from_world_location)
            == info.view_from_world_location),
        final(ctx).cmds() == old(ctx).cmds() + (
        if info.proj_from_view_location is Some && info.view_from_world_location is Some {
            program_setup_cmds(*info)
        } else {
            Seq::<Cmd>::empty()
        }),
        final(ctx).names_spec() == old(ctx).names_spec(),
        r is Err ==> r->Err_0 == program_failure(*info, enforce_debug_limits),
{
    let ghost cmds0 = ctx.cmds();
    let proj_from_view_location: i32 = match info.proj_from_view_location {
        Some(location) => location,
        None => {
            proof {
                assert(cmds0 + Seq::<Cmd>::empty() =~= cmds0);
            }
            return Err(ProgramError::MissingProjFromView);
        },
    };
    let view_from_world_location: i32 = match info.view_from_world_location {
        Some(location) => location,
        None => {
            proof {
                assert(cmds0 + Seq::<Cmd>::empty() =~= cmds0);
            }
            return Err(ProgramError::MissingViewFromWorld);
        },
    };
    let mut textures: i32 = 0;
    let mut uniform_blocks: i32 = 0;
    let mut max_ubo: i32 = 0;
    match info.base_color_tex_location {
        Some(location) => {
            ctx.push_cmd(GlCmd::Uniform1i { location, value: TEX_UNIT_BASE_COLOR });
            textures = textures + 1;
        },
        None => {},
    }
    match info.metallic_roughness_tex_location {
        Some(location) => {
            ctx.push_cmd(GlCmd::Uniform1i { location, value: TEX_UNIT_METALLIC_ROUGHNESS });
            textures = textures + 1;
        },
        None => {},
    }
    match info.normal_tex_location {
        Some(location) => {
            ctx.push_cmd(GlCmd::Uniform1i { location, value: TEX_UNIT_NORMAL });
            textures = textures + 1;
        },
        None => {},
    }
    match info.occlusion_tex_location {
        Some(location) => {
            ctx.push_cmd(GlCmd::Uniform1i { location, value: TEX_UNIT_OCCLUSION });
            textures = textures + 1;
        },
        None => {},
    }
    match info.emissive_tex_location {
        Some(location) => {
            ctx.push_cmd(GlCmd::Uniform1i { location, value: TEX_UNIT_EMISSIVE });
            textures = textures + 1;
        },
        None => {},
    }
    match info.material_block_index {
        Some(block_index) => {
            ctx.push_cmd(GlCmd::UniformBlockBinding {
                program: info.program,
                block_index,
                binding: UNIFORM_BLOCK_MATERIAL,
            });
            uniform_blocks = uniform_blocks + 1;
            if max_ubo < UNIFORM_BLOCK_MATERIAL_SIZE {
                max_ubo = UNIFORM_BLOCK_MATERIAL_SIZE;
            }
        },
        None => {},
    }
    match info.lights_block_index {
        Some(block_index) => {
            ctx.push_cmd(GlCmd::UniformBlockBinding {
                program: info.program,
                block_index,
                binding: UNIFORM_BLOCK_LIGHTS,
            });
            uniform_blocks = uniform_blocks + 1;
            if max_ubo < UNIFORM_BLOCK_LIGHTS_SIZE {
                max_ubo = UNIFORM_BLOCK_LIGHTS_SIZE;
            }
        },
        None => {},
    }
    proof {
        assert(ctx.cmds() =~= cmds0 + program_setup_cmds(*info));
        assert(max_ubo == max_ubo_size(*info));
        assert(uniform_blocks == uniform_block_count(*info));
        assert(textures == texture_count(*info));
    }
    if max_ubo > info.max_uniform_block_size {
        return Err(ProgramError::UniformBlockSizeLimit);
    }
    if uniform_blocks > info.max_uniform_buffer_bindings {
        return Err(ProgramError::UniformBufferBindingLimit);
    }
    if textures > info.max_texture_image_units {
        return Err(ProgramError::TextureImageUnitLimit);
    }
    if enforce_debug_limits {
        if max_ubo > DEBUG_MAX_UNIFORM_BLOCK_SIZE {
            return Err(ProgramError::UniformBlockSizeLimit);
        }
        if uniform_blocks > DEBUG_MAX_UNIFORM_BUFFER_BINDINGS {
            return Err(ProgramError::UniformBufferBindingLimit);
        }
        if textures > DEBUG_MAX_TEXTURE_IMAGE_UNITS {
            return Err(ProgramError::TextureImageUnitLimit);
        }
    }
    Ok(ShaderProgram { program: info.program, proj_from_view_location, view_from_world_location })
}

} // verus!
