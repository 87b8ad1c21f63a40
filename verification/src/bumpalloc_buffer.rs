//! A bump-allocated, growable driver buffer with a CPU-side mirror.
//!
//! The arena owns one driver buffer object.  `allocate_buffer` appends bytes
//! at the current cursor, growing the driver allocation when the new end
//! would reach or exceed the current capacity; on growth everything written
//! so far is re-uploaded from the mirror, since driver buffers cannot be
//! resized in place.  `clear` rewinds the cursor without shrinking the
//! driver-side capacity.

use vstd::prelude::*;

use crate::commands::{BufferTarget, BufferUsage, Cmd, GlCmd, GlCtx};

verus! {

/// The arena's mathematical state: which buffer it owns, its cursor, its
/// driver-side capacity, and the mirror of everything written since the last
/// clear.
pub ghost struct ArenaState {
    pub buffer: u64,
    pub target: BufferTarget,
    pub usage: BufferUsage,
    pub offset: int,
    pub size: int,
    pub mirror: Seq<u8>,
}

/// Whether appending `n` bytes makes the arena grow: it does whenever the
/// new end would reach or exceed the current capacity.
pub open spec fn arena_grows(s: ArenaState, n: int) -> bool {
    s.offset + n >= s.size
}

/// The state after appending `bytes`: the cursor advances, the mirror
/// extends, and on growth the capacity becomes the old capacity plus the
/// byte count.
pub open spec fn arena_state_allocate(s: ArenaState, bytes: Seq<u8>) -> ArenaState {
    ArenaState {
        buffer: s.buffer,
        target: s.target,
        usage: s.usage,
        offset: s.offset + bytes.len(),
        size: if arena_grows(s, bytes.len() as int) {
            s.size + bytes.len()
        } else {
            s.size
        },
        mirror: s.mirror + bytes,
    }
}

/// The commands appending `bytes` issues: a bind, then (only on growth) a
/// fresh allocation of the new capacity and a re-upload of the whole mirror,
/// then the upload of the new bytes at the cursor.
pub open spec fn arena_alloc_cmds(s: ArenaState, bytes: Seq<u8>) -> Seq<Cmd> {
    let bind = Cmd::BindBuffer { target: s.target, buffer: s.buffer };
    let upload = Cmd::BufferSubData { target: s.target, offset: s.offset as usize, data: bytes };
    if arena_grows(s, bytes.len() as int) {
        seq![
            bind,
            Cmd::BufferData {
                target: s.target,
                size: (s.size + bytes.len()) as usize,
                usage: s.usage,
            },
            Cmd::BufferSubData { target: s.target, offset: 0, data: s.mirror },
            upload,
        ]
    } else {
        seq![bind, upload]
    }
}

pub struct BumpAllocatedBuffer {
    buffer: u64,
    target: BufferTarget,
    usage: BufferUsage,
    offset: usize,
    size: usize,
    data: Vec<u8>,
    /// The `(offset, length)` byte ranges handed out since the last `clear`.
    ranges: Ghost<Seq<(int, int)>>,
}

impl BumpAllocatedBuffer {
    pub closed spec fn state(self) -> ArenaState {
        ArenaState {
            buffer: self.buffer,
            target: self.target,
            usage: self.usage,
            offset: self.offset as int,
            size: self.size as int,
            mirror: self.data@,
        }
    }

    pub open spec fn offset_spec(self) -> int {
        self.state().offset
    }

    pub open spec fn size_spec(self) -> int {
        self.state().size
    }

    pub open spec fn buffer_spec(self) -> u64 {
        self.state().buffer
    }

    pub open spec fn target_spec(self) -> BufferTarget {
        self.state().target
    }

    pub open spec fn mirror(self) -> Seq<u8> {
        self.state().mirror
    }

    pub closed spec fn ranges_spec(self) -> Seq<(int, int)> {
        self.ranges@
    }

    /// The arena's invariant: the cursor equals the mirror's length and never
    /// passes the capacity, and the handed-out ranges tile `[0, offset)` in
    /// order without overlaps.
    pub closed spec fn wf(self) -> bool {
        &&& self.offset == self.data@.len()
        &&& self.offset <= self.size
        &&& forall|i: int|
            0 <= i < self.ranges@.len() ==> (#[trigger] self.ranges@[i]).1 >= 0
                && self.ranges@[i].0 >= 0 && self.ranges@[i].0 + self.ranges@[i].1
                <= self.offset_spec()
        &&& forall|i: int, j: int|
            0 <= i < j < self.ranges@.len() ==> (#[trigger] self.ranges@[i]).0
                + self.ranges@[i].1 <= (#[trigger] self.ranges@[j]).0
    }

    pub proof fn lemma_wf_bounds(self)
        requires
            self.wf(),
        ensures
            self.state().offset == self.state().mirror.len(),
            0 <= self.state().offset <= self.state().size,
            self.state().size <= usize::MAX,
    {
    }

    pub fn new(ctx: &mut GlCtx, target: BufferTarget, usage: BufferUsage) -> (r:
        BumpAllocatedBuffer)
        ensures
            r.wf(),
            r.offset_spec() == 0,
            r.size_spec() == 0,
            r.mirror() == Seq::<u8>::empty(),
            r.ranges_spec() == Seq::<(int, int)>::empty(),
            r.target_spec() == target,
            final(ctx).cmds() == old(ctx).cmds().push(
                Cmd::CreateBuffer { buffer: r.buffer_spec() },
            ),
    {
        let buffer = ctx.gen_name();
        ctx.push_cmd(GlCmd::CreateBuffer { buffer });
        BumpAllocatedBuffer {
            buffer,
            target,
            usage,
            offset: 0,
            size: 0,
            data: Vec::new(),
            ranges: Ghost(Seq::empty()),
        }
    }

    /// The arena's current driver-side capacity in bytes.
    pub fn size(&self) -> (r: usize)
        ensures
            r as int == self.size_spec(),
    {
        self.size
    }

    /// The driver buffer object that this arena writes into.
    pub fn get_buffer(&self) -> (r: u64)
        ensures
            r == self.buffer_spec(),
    {
        self.buffer
    }

    /// Writes the given bytes into the arena's driver buffer, and returns the
    /// buffer object and the byte offset where the data has been written.
    pub fn allocate_buffer(&mut self, ctx: &mut GlCtx, bytes: &[u8]) -> (r: (u64, usize))
        requires
            old(self).wf(),
            old(self).size_spec() + bytes@.len() <= usize::MAX,
        ensures
            final(self).wf(),
            r.0 == old(self).buffer_spec(),
            r.1 == old(self).offset_spec(),
            final(self).state() == arena_state_allocate(old(self).state(), bytes@),
            final(self).ranges_spec() == old(self).ranges_spec().push(
                (old(self).offset_spec(), bytes@.len() as int),
            ),
            final(ctx).cmds() == old(ctx).cmds() + arena_alloc_cmds(old(self).state(), bytes@),
            final(ctx).names_spec() == old(ctx).names_spec(),
    {
        let ghost prior = *self;
        let ghost cmds0 = ctx.cmds();
        ctx.push_cmd(GlCmd::BindBuffer { target: self.target, buffer: self.buffer });
        if self.offset + bytes.len() >= self.size {
            self.size = self.size + bytes.len();
            ctx.push_cmd(GlCmd::BufferData {
                target: self.target,
                size: self.size,
                usage: self.usage,
            });
            ctx.push_cmd(GlCmd::BufferSubData {
                target: self.target,
                offset: 0,
                data: clone_bytes(self.data.as_slice()),
            });
        }
        ctx.push_cmd(GlCmd::BufferSubData {
            target: self.target,
            offset: self.offset,
            data: clone_bytes(bytes),
        });
        let start: usize = self.offset;
        append_bytes(&mut self.data, bytes);
        self.offset = self.offset + bytes.len();
        proof {
            self.ranges@ = prior.ranges@.push((prior.offset as int, bytes@.len() as int));
            assert(ctx.cmds() =~= cmds0 + arena_alloc_cmds(prior.state(), bytes@));
        }
        (self.buffer, start)
    }

    /// Rewinds the cursor to the start and empties the mirror; the driver
    /// side keeps its capacity.
    pub fn clear(&mut self)
        ensures
            final(self).wf(),
            final(self).state() == (ArenaState {
                offset: 0,
                mirror: Seq::<u8>::empty(),
                ..old(self).state()
            }),
            final(self).ranges_spec() == Seq::<(int, int)>::empty(),
    {
        self.offset = 0;
        self.data.clear();
        proof {
            self.ranges@ = Seq::empty();
        }
    }

    /// Releases the arena's driver buffer.
    pub fn delete(self, ctx: &mut GlCtx)
        ensures
            final(ctx).cmds() == old(ctx).cmds().push(
                Cmd::DeleteBuffer { buffer: self.buffer_spec() },
            ),
    {
        ctx.push_cmd(GlCmd::DeleteBuffer { buffer: self.buffer });
    }
}

/// No two byte ranges handed out by `allocate_buffer` since the last `clear`
/// overlap: every range ends at or before the next one begins.
pub proof fn lemma_arena_ranges_disjoint(arena: BumpAllocatedBuffer, i: int, j: int)
    requires
        arena.wf(),
        0 <= i < arena.ranges_spec().len(),
        0 <= j < arena.ranges_spec().len(),
        i != j,
    ensures
        arena.ranges_spec()[i].0 + arena.ranges_spec()[i].1 <= arena.ranges_spec()[j].0
            || arena.ranges_spec()[j].0 + arena.ranges_spec()[j].1 <= arena.ranges_spec()[i].0,
{
}

fn clone_bytes(bytes: &[u8]) -> (r: Vec<u8>)
    ensures
        r@ == bytes@,
{
    let mut out: Vec<u8> = Vec::new();
    append_bytes(&mut out, bytes);
    proof {
        assert(out@ =~= bytes@);
    }
    out
}

fn append_bytes(data: &mut Vec<u8>, bytes: &[u8])
    ensures
        final(data)@ == old(data)@ + bytes@,
{
    let mut i: usize = 0;
    while i < bytes.len()
        invariant
            0 <= i <= bytes@.len(),
            data@ == old(data)@ + bytes@.subrange(0, i as int),
        decreases bytes@.len() - i,
    {
        data.push(bytes[i]);
        i = i + 1;
        proof {
            assert(data@ =~= old(data)@ + bytes@.subrange(0, i as int));
        }
    }
    proof {
        assert(data@ =~= old(data)@ + bytes@);
    }
}

} // verus!
