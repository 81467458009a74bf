//! The header record and the skinning envelopes of format versions 4.00 and
//! 4.01.
use vstd::prelude::*;

use crate::bytes::{le_u16, le_u32, Cursor, DecodeError};

verus! {

/// Bytes that a version 4 header declares for itself.
pub const HEADER4_SIZE: usize = 24;

/// Bytes spanned by the fields of [`MeshHeader4`] read one after another from
/// the start of the header. This is wider than [`HEADER4_SIZE`]: the last three
/// bytes read lie past the declared header. Where the geometry starts is
/// therefore a choice, see [`HeaderAdvance`]. Since every field is read, a
/// version 4 file shorter than the version line plus these 27 bytes is
/// truncated, even one that declares no records.
pub const HEADER4_FIELDS_SIZE: usize = 27;

/// Where the geometry of a version 4 file starts, relative to its header.
///
/// The two candidates disagree by three bytes and only one matches a given
/// file; a wrong choice shows as garbage vertex values, not as an error.
#[derive(Clone, Copy, Debug, PartialEq, Eq, Structural)]
pub enum HeaderAdvance {
    /// Right after the declared [`HEADER4_SIZE`] bytes. The fields
    /// `face_size`, `lod_size`, `num_high_quality_lods` and `unused` then
    /// overlap the following bytes and are not checked.
    DeclaredSize,
    /// Right after the [`HEADER4_FIELDS_SIZE`] bytes of the fields. The
    /// fields are then the header's own, and `face_size` and `lod_size` must
    /// match the face and LOD entry records.
    FieldWidths,
}

/// How many bytes the header occupies under `advance`.
pub open spec fn header4_advance(advance: HeaderAdvance) -> int {
    match advance {
        HeaderAdvance::DeclaredSize => HEADER4_SIZE as int,
        HeaderAdvance::FieldWidths => HEADER4_FIELDS_SIZE as int,
    }
}

/// Bytes of one envelope record.
pub const ENVELOPE_SIZE: usize = 8;

/// The skinning data of one vertex: four bone indices and their weights.
#[derive(Clone, Copy, Debug)]
pub struct Envelope {
    pub bones: [u8; 4],
    pub weights: [u8; 4],
}

/// The header of a version 4 mesh.
#[derive(Clone, Copy, Debug, PartialEq, Eq, Structural)]
pub struct MeshHeader4 {
    pub header_size: u16,
    pub lod_type: u16,
    pub num_verts: u32,
    pub num_faces: u32,
    pub num_lod: u16,
    pub num_bones: u16,
    pub bone_names_buffer_size: u32,
    pub num_subsets: u16,
    pub face_size: u8,
    pub lod_size: u16,
    pub num_high_quality_lods: u8,
    pub unused: u8,
}

/// The bone indices of the envelope stored at `s[i..i + 8]`: its first four bytes.
pub open spec fn envelope_bones_at(s: Seq<u8>, i: int) -> Seq<u8> {
    s.subrange(i, i + 4)
}

/// The weights of the envelope stored at `s[i..i + 8]`: its last four bytes.
pub open spec fn envelope_weights_at(s: Seq<u8>, i: int) -> Seq<u8> {
    s.subrange(i + 4, i + 8)
}

/// The version 4 header whose fields start at `s[i]`.
pub open spec fn header4_at(s: Seq<u8>, i: int) -> MeshHeader4 {
    MeshHeader4 {
        header_size: le_u16(s, i),
        lod_type: le_u16(s, i + 2),
        num_verts: le_u32(s, i + 4),
        num_faces: le_u32(s, i + 8),
        num_lod: le_u16(s, i + 12),
        num_bones: le_u16(s, i + 14),
        bone_names_buffer_size: le_u32(s, i + 16),
        num_subsets: le_u16(s, i + 20),
        face_size: s[i + 22],
        lod_size: le_u16(s, i + 23),
        num_high_quality_lods: s[i + 25],
        unused: s[i + 26],
    }
}

impl Envelope {
    /// Reads one envelope record, four bone indices then four weights, and
    /// moves past it.
    pub fn from_reader(rdr: &mut Cursor) -> (r: Result<Envelope, DecodeError>)
        requires
            old(rdr).wf(),
        ensures
            final(rdr).wf(),
            final(rdr).data() == old(rdr).data(),
            r is Ok <==> old(rdr).pos() + ENVELOPE_SIZE <= old(rdr).data().len(),
            r is Ok ==> r->Ok_0.bones@ == envelope_bones_at(old(rdr).data(), old(rdr).pos())
                && r->Ok_0.weights@ == envelope_weights_at(old(rdr).data(), old(rdr).pos())
                && final(rdr).pos() == old(rdr).pos() + ENVELOPE_SIZE,
            r is Err ==> r->Err_0 == DecodeError::TruncatedInput && final(rdr).pos()
                == old(rdr).pos(),
    {
        if rdr.position() > rdr.len() || rdr.len() - rdr.position() < ENVELOPE_SIZE {
            return Err(DecodeError::TruncatedInput);
        }
        let b0 = rdr.read_u8()?;
        let b1 = rdr.read_u8()?;
        let b2 = rdr.read_u8()?;
        let b3 = rdr.read_u8()?;
        let w0 = rdr.read_u8()?;
        let w1 = rdr.read_u8()?;
        let w2 = rdr.read_u8()?;
        let w3 = rdr.read_u8()?;
        let bones: [u8; 4] = [b0, b1, b2, b3];
        let weights: [u8; 4] = [w0, w1, w2, w3];
        assert(bones@ =~= envelope_bones_at(old(rdr).data(), old(rdr).pos()));
        assert(weights@ =~= envelope_weights_at(old(rdr).data(), old(rdr).pos()));
        Ok(Envelope { bones, weights })
    }
}

impl MeshHeader4 {
    /// Reads the fields of a version 4 header one after another. The cursor
    /// ends [`HEADER4_FIELDS_SIZE`] bytes on.
    pub fn from_reader(rdr: &mut Cursor) -> (r: Result<MeshHeader4, DecodeError>)
        requires
            old(rdr).wf(),
        ensures
            final(rdr).wf(),
            final(rdr).data() == old(rdr).data(),
            r is Ok <==> old(rdr).pos() + HEADER4_FIELDS_SIZE <= old(rdr).data().len(),
            r is Ok ==> r->Ok_0 == header4_at(old(rdr).data(), old(rdr).pos()) && final(rdr).pos()
                == old(rdr).pos() + HEADER4_FIELDS_SIZE,
            r is Err ==> r->Err_0 == DecodeError::TruncatedInput && final(rdr).pos()
                == old(rdr).pos(),
    {
        if rdr.position() > rdr.len() || rdr.len() - rdr.position() < HEADER4_FIELDS_SIZE {
            return Err(DecodeError::TruncatedInput);
        }
        let header_size = rdr.read_u16()?;
        let lod_type = rdr.read_u16()?;
        let num_verts = rdr.read_u32()?;
        let num_faces = rdr.read_u32()?;
        let num_lod = rdr.read_u16()?;
        let num_bones = rdr.read_u16()?;
        let bone_names_buffer_size = rdr.read_u32()?;
        let num_subsets = rdr.read_u16()?;
        let face_size = rdr.read_u8()?;
        let lod_size = rdr.read_u16()?;
        let num_high_quality_lods = rdr.read_u8()?;
        let unused = rdr.read_u8()?;
        Ok(MeshHeader4 {
            header_size,
            lod_type,
            num_verts,
            num_faces,
            num_lod,
            num_bones,
            bone_names_buffer_size,
            num_subsets,
            face_size,
            lod_size,
            num_high_quality_lods,
            unused,
        })
    }
}

} // verus!
