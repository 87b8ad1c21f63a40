//! A recorded model of the graphics driver.
//!
//! The renderer core never talks to a graphics driver directly: every
//! driver-side effect it decides on is appended to a `GlCtx` as a `GlCmd`
//! value, and object names are drawn from the context's counter.  The
//! embedding program replays the recorded commands against the real driver;
//! the core's contracts speak about the exact command sequence that a call
//! appends.

use vstd::prelude::*;

verus! {

/// The buffer binding point a buffer object is used through.
#[derive(Clone, Copy, PartialEq, Eq, Structural, Debug)]
pub enum BufferTarget {
    Array,
    ElementArray,
    Uniform,
}

/// The usage hint handed to the driver when a buffer's storage is allocated.
#[derive(Clone, Copy, PartialEq, Eq, Structural, Debug)]
pub enum BufferUsage {
    StaticDraw,
    StaticRead,
    StreamDraw,
    DynamicDraw,
}

/// Triangle front-face winding order.
#[derive(Clone, Copy, PartialEq, Eq, Structural, Debug)]
pub enum Winding {
    CounterClockwise,
    Clockwise,
}

/// One driver command.  Object names (`u64` fields) refer to names handed out
/// by [`GlCtx::gen_name`].
#[derive(Clone, PartialEq, Eq, Debug)]
pub enum GlCmd {
    CreateBuffer { buffer: u64 },
    DeleteBuffer { buffer: u64 },
    BindBuffer { target: BufferTarget, buffer: u64 },
    /// Allocate `size` bytes of storage for the bound buffer, contents undefined.
    BufferData { target: BufferTarget, size: usize, usage: BufferUsage },
    /// Upload `data` into the bound buffer at byte `offset`.
    BufferSubData { target: BufferTarget, offset: usize, data: Vec<u8> },
    CreateVertexArray { vao: u64 },
    DeleteVertexArray { vao: u64 },
    BindVertexArray { vao: u64 },
    EnableVertexAttribArray { location: u32 },
    VertexAttribPointer {
        location: u32,
        size: u32,
        component_type: u32,
        normalized: bool,
        stride: usize,
        offset: usize,
    },
    VertexAttribDivisor { location: u32, divisor: u32 },
    /// Set the constant value of a disabled vertex attribute to (1, 1, 1, 1).
    VertexAttribAllOnes { location: u32 },
    FrontFace { winding: Winding },
    DrawElementsInstanced {
        mode: u32,
        index_count: usize,
        index_type: u32,
        index_byte_offset: usize,
        instance_count: usize,
    },
    CreateTexture { texture: u64 },
    DeleteTexture { texture: u64 },
    BindTexture { texture: u64 },
    /// Upload one mipmap level of the bound texture.
    TexImage2D {
        level: u32,
        internal_format: u32,
        width: u32,
        height: u32,
        format: u32,
        component_type: u32,
        data: Vec<u8>,
    },
    CreateSampler { sampler: u64 },
    DeleteSampler { sampler: u64 },
    SamplerParameter { sampler: u64, parameter: u32, value: u32 },
    /// Point a sampler uniform at a texture unit.
    Uniform1i { location: i32, value: u32 },
    /// Bind a named uniform block of the program to a binding point.
    UniformBlockBinding { program: u64, block_index: u32, binding: u32 },
}

/// The mathematical value of a [`GlCmd`]: identical shape, with byte payloads
/// abstracted to sequences.
pub ghost enum Cmd {
    CreateBuffer { buffer: u64 },
    DeleteBuffer { buffer: u64 },
    BindBuffer { target: BufferTarget, buffer: u64 },
    BufferData { target: BufferTarget, size: usize, usage: BufferUsage },
    BufferSubData { target: BufferTarget, offset: usize, data: Seq<u8> },
    CreateVertexArray { vao: u64 },
    DeleteVertexArray { vao: u64 },
    BindVertexArray { vao: u64 },
    EnableVertexAttribArray { location: u32 },
    VertexAttribPointer {
        location: u32,
        size: u32,
        component_type: u32,
        normalized: bool,
        stride: usize,
        offset: usize,
    },
    VertexAttribDivisor { location: u32, divisor: u32 },
    VertexAttribAllOnes { location: u32 },
    FrontFace { winding: Winding },
    DrawElementsInstanced {
        mode: u32,
        index_count: usize,
        index_type: u32,
        index_byte_offset: usize,
        instance_count: usize,
    },
    CreateTexture { texture: u64 },
    DeleteTexture { texture: u64 },
    BindTexture { texture: u64 },
    TexImage2D {
        level: u32,
        internal_format: u32,
        width: u32,
        height: u32,
        format: u32,
        component_type: u32,
        data: Seq<u8>,
    },
    CreateSampler { sampler: u64 },
    DeleteSampler { sampler: u64 },
    SamplerParameter { sampler: u64, parameter: u32, value: u32 },
    Uniform1i { location: i32, value: u32 },
    UniformBlockBinding { program: u64, block_index: u32, binding: u32 },
}

impl View for GlCmd {
    type V = Cmd;

    open spec fn view(&self) -> Cmd {
        match self {
            GlCmd::CreateBuffer { buffer } => Cmd::CreateBuffer { buffer: *buffer },
            GlCmd::DeleteBuffer { buffer } => Cmd::DeleteBuffer { buffer: *buffer },
            GlCmd::BindBuffer { target, buffer } => Cmd::BindBuffer {
                target: *target,
                buffer: *buffer,
            },
            GlCmd::BufferData { target, size, usage } => Cmd::BufferData {
                target: *target,
                size: *size,
                usage: *usage,
            },
            GlCmd::BufferSubData { target, offset, data } => Cmd::BufferSubData {
                target: *target,
                offset: *offset,
                data: data@,
            },
            GlCmd::CreateVertexArray { vao } => Cmd::CreateVertexArray { vao: *vao },
            GlCmd::DeleteVertexArray { vao } => Cmd::DeleteVertexArray { vao: *vao },
            GlCmd::BindVertexArray { vao } => Cmd::BindVertexArray { vao: *vao },
            GlCmd::EnableVertexAttribArray { location } => Cmd::EnableVertexAttribArray {
                location: *location,
            },
            GlCmd::VertexAttribPointer {
                location,
                size,
                component_type,
                normalized,
                stride,
                offset,
            } => Cmd::VertexAttribPointer {
                location: *location,
                size: *size,
                component_type: *component_type,
                normalized: *normalized,
                stride: *stride,
                offset: *offset,
            },
            GlCmd::VertexAttribDivisor { location, divisor } => Cmd::VertexAttribDivisor {
                location: *location,
                divisor: *divisor,
            },
            GlCmd::VertexAttribAllOnes { location } => Cmd::VertexAttribAllOnes {
                location: *location,
            },
            GlCmd::FrontFace { winding } => Cmd::FrontFace { winding: *winding },
            GlCmd::DrawElementsInstanced {
                mode,
                index_count,
                index_type,
                index_byte_offset,
                instance_count,
            } => Cmd::DrawElementsInstanced {
                mode: *mode,
                index_count: *index_count,
                index_type: *index_type,
                index_byte_offset: *index_byte_offset,
                instance_count: *instance_count,
            },
            GlCmd::CreateTexture { texture } => Cmd::CreateTexture { texture: *texture },
            GlCmd::DeleteTexture { texture } => Cmd::DeleteTexture { texture: *texture },
            GlCmd::BindTexture { texture } => Cmd::BindTexture { texture: *texture },
            GlCmd::TexImage2D {
                level,
                internal_format,
                width,
                height,
                format,
                component_type,
                data,
            } => Cmd::TexImage2D {
                level: *level,
                internal_format: *internal_format,
                width: *width,
                height: *height,
                format: *format,
                component_type: *component_type,
                data: data@,
            },
            GlCmd::CreateSampler { sampler } => Cmd::CreateSampler { sampler: *sampler },
            GlCmd::DeleteSampler { sampler } => Cmd::DeleteSampler { sampler: *sampler },
            GlCmd::SamplerParameter { sampler, parameter, value } => Cmd::SamplerParameter {
                sampler: *sampler,
                parameter: *parameter,
                value: *value,
            },
            GlCmd::Uniform1i { location, value } => Cmd::Uniform1i {
                location: *location,
                value: *value,
            },
            GlCmd::UniformBlockBinding { program, block_index, binding } => {
                Cmd::UniformBlockBinding {
                    program: *program,
                    block_index: *block_index,
                    binding: *binding,
                }
            },
        }
    }
}

impl DeepView for GlCmd {
    type V = Cmd;

    open spec fn deep_view(&self) -> Cmd {
        self.view()
    }
}

/// The recording driver context: a counter for fresh object names and the
/// sequence of commands issued so far.
pub struct GlCtx {
    pub next_name: u64,
    pub commands: Vec<GlCmd>,
}

impl GlCtx {
    /// The recorded command sequence, as mathematical values.
    pub open spec fn cmds(self) -> Seq<Cmd> {
        self.commands.deep_view()
    }

    pub open spec fn names_spec(self) -> u64 {
        self.next_name
    }

    pub fn new() -> (r: GlCtx)
        ensures
            r.cmds() == Seq::<Cmd>::empty(),
            r.names_spec() == 1u64,
    {
        let r = GlCtx { next_name: 1, commands: Vec::new() };
        proof {
            assert(r.cmds() =~= Seq::<Cmd>::empty());
        }
        r
    }

    /// Draw a fresh object name.  The counter wraps at the top of `u64`, so a
    /// single context hands out distinct names for any realistic workload.
    pub fn gen_name(&mut self) -> (r: u64)
        ensures
            r == old(self).names_spec(),
            final(self).names_spec() == if old(self).names_spec() == u64::MAX {
                0u64
            } else {
                (old(self).names_spec() + 1) as u64
            },
            final(self).cmds() == old(self).cmds(),
    {
        let name: u64 = self.next_name;
        if self.next_name == u64::MAX {
            self.next_name = 0;
        } else {
            self.next_name = self.next_name + 1;
        }
        name
    }

    pub fn push_cmd(&mut self, cmd: GlCmd)
        ensures
            final(self).cmds() == old(self).cmds().push(cmd@),
            final(self).names_spec() == old(self).names_spec(),
    {
        self.commands.push(cmd);
        proof {
            assert(self.cmds() =~= old(self).cmds().push(cmd@));
        }
    }
}

} // verus!
