//! The header record of format versions 3.00 and 3.01.
use vstd::prelude::*;

use crate::bytes::{le_u16, le_u32, Cursor, DecodeError};

verus! {

/// Bytes of a version 3 header record.
pub const HEADER3_SIZE: usize = 16;

/// The header of a version 3 mesh.
#[derive(Clone, Copy, Debug, PartialEq, Eq, Structural)]
pub struct MeshHeader3 {
    pub header_size: u16,
    pub vert_size: u8,
    pub face_size: u8,
    pub lod_size: u16,
    pub num_lod: u16,
    pub num_verts: u32,
    pub num_faces: u32,
}

/// The version 3 header stored at `s[i..i + 16]`.
pub open spec fn header3_at(s: Seq<u8>, i: int) -> MeshHeader3 {
    MeshHeader3 {
        header_size: le_u16(s, i),
        vert_size: s[i + 2],
        face_size: s[i + 3],
        lod_size: le_u16(s, i + 4),
        num_lod: le_u16(s, i + 6),
        num_verts: le_u32(s, i + 8),
        num_faces: le_u32(s, i + 12),
    }
}

impl MeshHeader3 {
    /// Reads one version 3 header record and moves past it.
    pub fn from_reader(rdr: &mut Cursor) -> (r: Result<MeshHeader3, DecodeError>)
        requires
            old(rdr).wf(),
        ensures
            final(rdr).wf(),
            final(rdr).data() == old(rdr).data(),
            r is Ok <==> old(rdr).pos() + HEADER3_SIZE <= old(rdr).data().len(),
            r is Ok ==> r->Ok_0 == header3_at(old(rdr).data(), old(rdr).pos()) && final(rdr).pos()
                == old(rdr).pos() + HEADER3_SIZE,
            r is Err ==> r->Err_0 == DecodeError::TruncatedInput && final(rdr).pos()
                == old(rdr).pos(),
    {
        if rdr.position() > rdr.len() || rdr.len() - rdr.position() < HEADER3_SIZE {
            return Err(DecodeError::TruncatedInput);
        }
        let header_size = rdr.read_u16()?;
        let vert_size = rdr.read_u8()?;
        let face_size = rdr.read_u8()?;
        let lod_size = rdr.read_u16()?;
        let num_lod = rdr.read_u16()?;
        let num_verts = rdr.read_u32()?;
        let num_faces = rdr.read_u32()?;
        Ok(MeshHeader3 { header_size, vert_size, face_size, lod_size, num_lod, num_verts, num_faces })
    }
}

} // verus!
