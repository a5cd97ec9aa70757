//! The per-frame bone palette: skinned meshes reserve consecutive runs of
//! bone matrices in one storage buffer per frame in flight.
use vstd::prelude::*;

verus! {

/// Most bone matrices all skinned meshes of one frame may write.
pub const MAX_SKINNED_BONES_PER_FRAME: usize = 4096;

/// Bytes of one bone matrix (a 4x4 matrix of `f32`).
pub const BONE_MATRIX_SIZE: usize = 64;

/// Bytes of the storage buffer of one frame.
pub const BONE_SSBO_SIZE: u64 = 262144;

/// The storage buffer holds exactly the most bones a frame may write.
pub proof fn lemma_ssbo_holds_max_bones()
    ensures
        BONE_SSBO_SIZE == MAX_SKINNED_BONES_PER_FRAME * BONE_MATRIX_SIZE,
{
}

/// The write cursor of the bone palette for the current frame.
pub struct BonePaletteSystem {
    current_offset: usize,
}

/// The byte range `[start, start + len)` of a run of bone matrices.
#[derive(Debug, Clone, Copy, PartialEq, Eq, Structural)]
pub struct ByteRange {
    pub start: usize,
    pub len: usize,
}

impl BonePaletteSystem {
    /// Matrices already written this frame.
    pub closed spec fn spec_offset(&self) -> nat {
        self.current_offset as nat
    }

    pub closed spec fn wf(&self) -> bool {
        self.current_offset <= MAX_SKINNED_BONES_PER_FRAME
    }

    /// A palette with nothing written.
    pub fn new() -> (s: Self)
        ensures
            s.wf(),
            s.spec_offset() == 0,
    {
        BonePaletteSystem { current_offset: 0 }
    }

    /// Matrices written so far this frame.
    pub fn current_offset(&self) -> (o: usize)
        ensures
            o == self.spec_offset(),
    {
        self.current_offset
    }

    /// Resets the write offset for a new frame.
    pub fn begin_frame(&mut self)
        ensures
            final(self).wf(),
            final(self).spec_offset() == 0,
    {
        self.current_offset = 0;
    }

    /// Reserves room for `count` bone matrices of one skinned entity and
    /// returns the index (in matrices) where they go. No matrices need no
    /// room: the answer is then `Some(0)` and nothing is reserved. When the
    /// frame's buffer cannot hold them the answer is `None` and nothing
    /// changes.
    pub fn write_bones(&mut self, count: usize) -> (r: Option<u32>)
        requires
            old(self).wf(),
        ensures
            final(self).wf(),
            count == 0 ==> r == Some(0u32) && final(self).spec_offset() == old(self).spec_offset(),
            count > 0 && old(self).spec_offset() + count > MAX_SKINNED_BONES_PER_FRAME ==> r.is_none()
                && final(self).spec_offset() == old(self).spec_offset(),
            count > 0 && old(self).spec_offset() + count <= MAX_SKINNED_BONES_PER_FRAME ==> r
                == Some(old(self).spec_offset() as u32) && final(self).spec_offset()
                == old(self).spec_offset() + count,
    {
        if count == 0 {
            return Some(0);
        }
        if count > MAX_SKINNED_BONES_PER_FRAME - self.current_offset {
            return None;
        }
        let offset = self.current_offset;
        self.current_offset = self.current_offset + count;
        Some(offset as u32)
    }
}

/// The bytes of the storage buffer that `count` matrices written at matrix
/// index `offset` occupy.
pub fn bone_byte_range(offset: u32, count: usize) -> (r: ByteRange)
    requires
        offset + count <= MAX_SKINNED_BONES_PER_FRAME,
    ensures
        r.start == offset * BONE_MATRIX_SIZE,
        r.len == count * BONE_MATRIX_SIZE,
        r.start + r.len <= BONE_SSBO_SIZE,
{
    let start = (offset as usize) * BONE_MATRIX_SIZE;
    let len = count * BONE_MATRIX_SIZE;
    ByteRange { start, len }
}

} // verus!
