//! Version dispatch and the transcoding pipeline: header, vertices,
//! envelopes, faces and LOD table in, canonical bytes out.
use vstd::prelude::*;

use crate::bytes::{le_u16, Cursor, DecodeError};
use crate::mesh::{
    canonical_bytes, constructv2, face_at, header2_at, lemma_canonical_round_trip,
    lemma_lod_reduction, normal_faces, vertex_at, Face, Vertex, FACE_SIZE, HEADER2_SIZE,
    LOD_ENTRY_SIZE, VERSION_LINE_SIZE, VERTEX_SIZE,
};
use crate::v3::{header3_at, MeshHeader3, HEADER3_SIZE};
use crate::v4::{
    envelope_bones_at, envelope_weights_at, header4_advance, header4_at, Envelope, HeaderAdvance,
    MeshHeader4, ENVELOPE_SIZE, HEADER4_FIELDS_SIZE, HEADER4_SIZE,
};

verus! {

/// Offset of the four-byte version tag, after the word `"version "`.
pub const TAG_OFFSET: usize = 8;

/// Bytes of the version tag.
pub const TAG_SIZE: usize = 4;

/// What a version tag asks for.
#[derive(Clone, Copy, Debug, PartialEq, Eq, Structural)]
pub enum MeshVersion {
    /// 1.00, 1.01 or 2.00: already canonical.
    Canonical,
    /// 3.00 or 3.01.
    V3,
    /// 4.00 or 4.01.
    V4,
    /// Any other four bytes.
    Unknown,
}

/// The outcome of one transcode.
#[derive(Debug)]
pub enum TranscodeResult {
    /// The input is already canonical; nothing was decoded.
    PassThrough,
    /// The canonical bytes of the input.
    Transcoded(Vec<u8>),
    /// The version tag is not one this decoder knows; it is handed back.
    Unsupported(Vec<u8>),
    /// The input claims a supported version but could not be decoded.
    Error(DecodeError),
}

/// The mathematical value of a [`TranscodeResult`].
pub enum TranscodeModel {
    PassThrough,
    Transcoded(Seq<u8>),
    Unsupported(Seq<u8>),
    Error(DecodeError),
}

impl View for TranscodeResult {
    type V = TranscodeModel;

    open spec fn view(&self) -> TranscodeModel {
        match self {
            TranscodeResult::PassThrough => TranscodeModel::PassThrough,
            TranscodeResult::Transcoded(b) => TranscodeModel::Transcoded(b@),
            TranscodeResult::Unsupported(t) => TranscodeModel::Unsupported(t@),
            TranscodeResult::Error(e) => TranscodeModel::Error(*e),
        }
    }
}

/// The geometry of a decoded mesh.
pub struct MeshModel {
    pub vertices: Seq<Vertex>,
    pub envelopes: Seq<(Seq<u8>, Seq<u8>)>,
    pub faces: Seq<Face>,
    pub lods: Seq<u16>,
}

/// Whether `t` is the tag `"d0.d1d2"`, digits given as ASCII bytes.
pub open spec fn is_tag(t: Seq<u8>, d0: u8, d1: u8, d2: u8) -> bool {
    t.len() == 4 && t[0] == d0 && t[1] == 46 && t[2] == d1 && t[3] == d2
}

/// The version that the tag `t` names.
pub open spec fn version_of(t: Seq<u8>) -> MeshVersion {
    if is_tag(t, 49, 48, 48) || is_tag(t, 49, 48, 49) || is_tag(t, 50, 48, 48) {
        MeshVersion::Canonical
    } else if is_tag(t, 51, 48, 48) || is_tag(t, 51, 48, 49) {
        MeshVersion::V3
    } else if is_tag(t, 52, 48, 48) || is_tag(t, 52, 48, 49) {
        MeshVersion::V4
    } else {
        MeshVersion::Unknown
    }
}

/// The four tag bytes of `s`.
pub open spec fn tag_of(s: Seq<u8>) -> Seq<u8> {
    s.subrange(TAG_OFFSET as int, TAG_OFFSET + TAG_SIZE)
}

/// `n` consecutive vertex records from `start`.
pub open spec fn vertices_from(s: Seq<u8>, start: int, n: nat) -> Seq<Vertex> {
    Seq::new(n, |k: int| vertex_at(s, start + VERTEX_SIZE * k))
}

/// `n` consecutive envelope records from `start`, as (bones, weights).
pub open spec fn envelopes_from(s: Seq<u8>, start: int, n: nat) -> Seq<(Seq<u8>, Seq<u8>)> {
    Seq::new(
        n,
        |k: int|
            (
                envelope_bones_at(s, start + ENVELOPE_SIZE * k),
                envelope_weights_at(s, start + ENVELOPE_SIZE * k),
            ),
    )
}

/// `n` consecutive face records from `start`.
pub open spec fn faces_from(s: Seq<u8>, start: int, n: nat) -> Seq<Face> {
    Seq::new(n, |k: int| face_at(s, start + FACE_SIZE * k))
}

/// `n` consecutive LOD boundaries from `start`.
pub open spec fn lods_from(s: Seq<u8>, start: int, n: nat) -> Seq<u16> {
    Seq::new(n, |k: int| le_u16(s, start + LOD_ENTRY_SIZE * k))
}

/// Whether a LOD table's base boundary lies within `num_faces`.
pub open spec fn lods_fit(lods: Seq<u16>, num_faces: int) -> bool {
    lods.len() > 1 ==> lods[1] <= num_faces
}

/// Whether a version 3 header declares the record sizes that this decoder reads.
pub open spec fn header3_consistent(h: MeshHeader3) -> bool {
    h.header_size == HEADER3_SIZE && h.vert_size == VERTEX_SIZE && h.face_size == FACE_SIZE
        && h.lod_size == LOD_ENTRY_SIZE
}

/// Offset where a version 3 file's vertex records start.
pub open spec fn v3_vertex_start() -> int {
    VERSION_LINE_SIZE + HEADER3_SIZE
}

/// Offset where a version 4 file's vertex records start, by the declared
/// header size.
pub open spec fn v4_vertex_start() -> int {
    VERSION_LINE_SIZE + HEADER4_SIZE
}

/// Whether a version 4 header declares its own size, and under
/// [`HeaderAdvance::FieldWidths`] also the face and LOD entry sizes, as this
/// decoder reads them.
pub open spec fn header4_consistent(h: MeshHeader4, advance: HeaderAdvance) -> bool {
    h.header_size == HEADER4_SIZE && (advance == HeaderAdvance::FieldWidths ==> h.face_size
        == FACE_SIZE && h.lod_size == LOD_ENTRY_SIZE)
}

/// The geometry read from `vstart` on: `nv` vertices, `ne` envelopes,
/// `nf` faces and `nl` LOD boundaries; truncated if the buffer ends early,
/// structurally wrong if the base boundary passes the face count.
pub open spec fn geometry_model(s: Seq<u8>, vstart: int, nv: nat, ne: nat, nf: nat, nl: nat) -> Result<
    MeshModel,
    DecodeError,
> {
    let estart = vstart + VERTEX_SIZE * nv;
    let fstart = estart + ENVELOPE_SIZE * ne;
    let lstart = fstart + FACE_SIZE * nf;
    let end = lstart + LOD_ENTRY_SIZE * nl;
    if s.len() < end {
        Err(DecodeError::TruncatedInput)
    } else if !lods_fit(lods_from(s, lstart, nl), nf as int) {
        Err(DecodeError::StructuralMismatch)
    } else {
        Ok(
            MeshModel {
                vertices: vertices_from(s, vstart, nv),
                envelopes: envelopes_from(s, estart, ne),
                faces: faces_from(s, fstart, nf),
                lods: lods_from(s, lstart, nl),
            },
        )
    }
}

/// The mesh that a version 3 file holds.
pub open spec fn decode_v3_model(s: Seq<u8>) -> Result<MeshModel, DecodeError> {
    if s.len() < v3_vertex_start() {
        Err(DecodeError::TruncatedInput)
    } else {
        let h = header3_at(s, VERSION_LINE_SIZE as int);
        if !header3_consistent(h) {
            Err(DecodeError::StructuralMismatch)
        } else {
            geometry_model(
                s,
                v3_vertex_start(),
                h.num_verts as nat,
                0,
                h.num_faces as nat,
                h.num_lod as nat,
            )
        }
    }
}

/// The mesh that a version 4 file holds, its geometry placed by `advance`.
/// Envelopes follow the vertices only when the header counts bones.
pub open spec fn decode_v4_model(s: Seq<u8>, advance: HeaderAdvance) -> Result<MeshModel, DecodeError> {
    if s.len() < VERSION_LINE_SIZE + HEADER4_FIELDS_SIZE {
        Err(DecodeError::TruncatedInput)
    } else {
        let h = header4_at(s, VERSION_LINE_SIZE as int);
        if !header4_consistent(h, advance) {
            Err(DecodeError::StructuralMismatch)
        } else {
            geometry_model(
                s,
                VERSION_LINE_SIZE + header4_advance(advance),
                h.num_verts as nat,
                if h.num_bones > 0 {
                    h.num_verts as nat
                } else {
                    0
                },
                h.num_faces as nat,
                h.num_lod as nat,
            )
        }
    }
}

/// The canonical bytes of a decoded mesh, or the decode error.
pub open spec fn encode_model(m: Result<MeshModel, DecodeError>) -> TranscodeModel {
    match m {
        Ok(mesh) => TranscodeModel::Transcoded(
            canonical_bytes(mesh.vertices, normal_faces(mesh.faces, mesh.lods)),
        ),
        Err(e) => TranscodeModel::Error(e),
    }
}

/// What transcoding the buffer `s` gives.
pub open spec fn transcode_model(s: Seq<u8>) -> TranscodeModel {
    if s.len() < TAG_OFFSET + TAG_SIZE {
        TranscodeModel::Error(DecodeError::TruncatedInput)
    } else {
        match version_of(tag_of(s)) {
            MeshVersion::Canonical => TranscodeModel::PassThrough,
            MeshVersion::V3 => encode_model(decode_v3_model(s)),
            MeshVersion::V4 => encode_model(decode_v4_model(s, HeaderAdvance::DeclaredSize)),
            MeshVersion::Unknown => TranscodeModel::Unsupported(tag_of(s)),
        }
    }
}

/// Record `i` of `n`, each `size` bytes, ends within the `n` records.
pub proof fn lemma_record_fits(size: int, i: int, n: int)
    requires
        0 <= size,
        0 <= i < n,
    ensures
        size * i + size <= size * n,
        size * (i + 1) == size * i + size,
        0 <= size * i,
{
    assert(size * i + size <= size * n) by (nonlinear_arith)
        requires
            0 <= size,
            0 <= i < n,
    ;
    assert(size * (i + 1) == size * i + size) by (nonlinear_arith);
    assert(0 <= size * i) by (nonlinear_arith)
        requires
            0 <= size,
            0 <= i,
    ;
}

/// The records decoded from one mesh file.
pub struct DecodedMesh {
    pub vertices: Vec<Vertex>,
    pub envelopes: Vec<Envelope>,
    pub faces: Vec<Face>,
    pub lods: Vec<u16>,
}

impl DecodedMesh {
    /// Each envelope as (bones, weights).
    pub open spec fn envelopes_model(es: Seq<Envelope>) -> Seq<(Seq<u8>, Seq<u8>)> {
        Seq::new(es.len(), |j: int| (es[j].bones@, es[j].weights@))
    }

    /// The geometry held, envelopes as (bones, weights).
    pub open spec fn model(&self) -> MeshModel {
        MeshModel {
            vertices: self.vertices@,
            envelopes: Self::envelopes_model(self.envelopes@),
            faces: self.faces@,
            lods: self.lods@,
        }
    }
}

/// Whether `r` is what the model `m` describes.
pub open spec fn decoded_as(r: Result<DecodedMesh, DecodeError>, m: Result<MeshModel, DecodeError>) -> bool {
    match r {
        Ok(d) => m is Ok && d.model() == m->Ok_0,
        Err(e) => m is Err && e == m->Err_0,
    }
}

/// Reads, from the cursor's position, `nv` vertices, then `nv` envelopes when
/// `with_envelopes` holds, then `nf` faces and `nl` LOD boundaries.
pub fn read_geometry(cur: &mut Cursor, nv: u32, with_envelopes: bool, nf: u32, nl: u16) -> (r: Result<
    DecodedMesh,
    DecodeError,
>)
    requires
        old(cur).wf(),
    ensures
        decoded_as(
            r,
            geometry_model(
                old(cur).data(),
                old(cur).pos(),
                nv as nat,
                if with_envelopes {
                    nv as nat
                } else {
                    0
                },
                nf as nat,
                nl as nat,
            ),
        ),
{
    let ghost s = cur.data();
    let ghost vstart = cur.pos();
    let ghost ne: nat = if with_envelopes {
        nv as nat
    } else {
        0
    };
    let ne_exec: u64 = if with_envelopes {
        nv as u64
    } else {
        0
    };
    let remaining: u64 = (cur.len() - cur.position()) as u64;
    let needed: u64 = VERTEX_SIZE as u64 * nv as u64 + ENVELOPE_SIZE as u64 * ne_exec + FACE_SIZE as u64
        * nf as u64 + LOD_ENTRY_SIZE as u64 * nl as u64;
    if needed > remaining {
        return Err(DecodeError::TruncatedInput);
    }
    let ghost estart = vstart + VERTEX_SIZE * nv;
    let ghost fstart = estart + ENVELOPE_SIZE * ne;
    let ghost lstart = fstart + FACE_SIZE * nf;
    assert(lstart + LOD_ENTRY_SIZE * nl <= s.len());
    proof {
        lemma_record_fits(VERTEX_SIZE as int, 0, nv as int + 1);
        lemma_record_fits(ENVELOPE_SIZE as int, 0, ne as int + 1);
        lemma_record_fits(FACE_SIZE as int, 0, nf as int + 1);
        lemma_record_fits(LOD_ENTRY_SIZE as int, 0, nl as int + 1);
        lemma_record_fits(VERTEX_SIZE as int, nv as int, nv as int + 1);
        lemma_record_fits(ENVELOPE_SIZE as int, ne as int, ne as int + 1);
        lemma_record_fits(FACE_SIZE as int, nf as int, nf as int + 1);
        lemma_record_fits(LOD_ENTRY_SIZE as int, nl as int, nl as int + 1);
    }

    let mut vertices: Vec<Vertex> = Vec::new();
    let mut i: u32 = 0;
    while i < nv
        invariant
            cur.wf(),
            cur.data() == s,
            i <= nv,
            cur.pos() == vstart + VERTEX_SIZE * i,
            lstart + LOD_ENTRY_SIZE * nl <= s.len(),
            estart == vstart + VERTEX_SIZE * nv,
            estart <= lstart,
            vertices@ == vertices_from(s, vstart, i as nat),
        decreases nv - i,
    {
        proof {
            lemma_record_fits(VERTEX_SIZE as int, i as int, nv as int);
        }
        assert(cur.pos() + VERTEX_SIZE <= cur.data().len());
        let v = Vertex::from_reader(cur)?;
        vertices.push(v);
        assert(vertices@ =~= vertices_from(s, vstart, (i + 1) as nat));
        i = i + 1;
    }

    let mut envelopes: Vec<Envelope> = Vec::new();
    if with_envelopes {
        let mut k: u32 = 0;
        while k < nv
            invariant
                cur.wf(),
                cur.data() == s,
                k <= nv,
                ne == nv,
                cur.pos() == estart + ENVELOPE_SIZE * k,
                lstart + LOD_ENTRY_SIZE * nl <= s.len(),
                fstart == estart + ENVELOPE_SIZE * ne,
                lstart == fstart + FACE_SIZE * nf,
                fstart <= lstart,
                envelopes@.len() == k,
                forall|j: int|
                    0 <= j < k ==> (#[trigger] envelopes@[j]).bones@ == envelope_bones_at(
                        s,
                        estart + ENVELOPE_SIZE * j,
                    ) && envelopes@[j].weights@ == envelope_weights_at(s, estart + ENVELOPE_SIZE * j),
            decreases nv - k,
        {
            proof {
                lemma_record_fits(ENVELOPE_SIZE as int, k as int, nv as int);
            }
            assert(cur.pos() + ENVELOPE_SIZE <= cur.data().len());
            let e = Envelope::from_reader(cur)?;
            envelopes.push(e);
            k = k + 1;
        }
    }
    let ghost env_model = DecodedMesh::envelopes_model(envelopes@);
    assert(env_model =~= envelopes_from(s, estart, ne));

    let mut faces: Vec<Face> = Vec::new();
    let mut j: u32 = 0;
    while j < nf
        invariant
            cur.wf(),
            cur.data() == s,
            j <= nf,
            cur.pos() == fstart + FACE_SIZE * j,
            lstart + LOD_ENTRY_SIZE * nl <= s.len(),
            lstart == fstart + FACE_SIZE * nf,
            faces@ == faces_from(s, fstart, j as nat),
        decreases nf - j,
    {
        proof {
            lemma_record_fits(FACE_SIZE as int, j as int, nf as int);
        }
        assert(cur.pos() + FACE_SIZE <= cur.data().len());
        let f = Face::from_reader(cur)?;
        faces.push(f);
        assert(faces@ =~= faces_from(s, fstart, (j + 1) as nat));
        j = j + 1;
    }

    let mut lods: Vec<u16> = Vec::new();
    let mut l: u16 = 0;
    while l < nl
        invariant
            cur.wf(),
            cur.data() == s,
            l <= nl,
            cur.pos() == lstart + LOD_ENTRY_SIZE * l,
            lstart + LOD_ENTRY_SIZE * nl <= s.len(),
            lods@ == lods_from(s, lstart, l as nat),
        decreases nl - l,
    {
        proof {
            lemma_record_fits(LOD_ENTRY_SIZE as int, l as int, nl as int);
        }
        let b = cur.read_u16()?;
        lods.push(b);
        assert(lods@ =~= lods_from(s, lstart, (l + 1) as nat));
        l = l + 1;
    }

    if lods.len() > 1 && lods[1] as u32 > nf {
        return Err(DecodeError::StructuralMismatch);
    }
    let mesh = DecodedMesh { vertices, envelopes, faces, lods };
    assert(mesh.model().envelopes == envelopes_from(s, estart, ne));
    Ok(mesh)
}

/// Whether bytes `d0 . d1 d2` spell the tag given by the ASCII digits.
fn tag_is(t0: u8, t1: u8, t2: u8, t3: u8, d0: u8, d1: u8, d2: u8) -> (r: bool)
    ensures
        r == (t0 == d0 && t1 == 46 && t2 == d1 && t3 == d2),
{
    t0 == d0 && t1 == 46u8 && t2 == d1 && t3 == d2
}

/// The version that the tag at offset 8 names.
pub fn version_tag(raw: &[u8]) -> (r: MeshVersion)
    requires
        raw.len() >= TAG_OFFSET + TAG_SIZE,
    ensures
        r == version_of(tag_of(raw@)),
{
    let t0 = raw[TAG_OFFSET];
    let t1 = raw[TAG_OFFSET + 1];
    let t2 = raw[TAG_OFFSET + 2];
    let t3 = raw[TAG_OFFSET + 3];
    let ghost t = tag_of(raw@);
    assert(t.len() == 4 && t[0] == t0 && t[1] == t1 && t[2] == t2 && t[3] == t3);
    if tag_is(t0, t1, t2, t3, 49, 48, 48) || tag_is(t0, t1, t2, t3, 49, 48, 49) || tag_is(
        t0,
        t1,
        t2,
        t3,
        50,
        48,
        48,
    ) {
        MeshVersion::Canonical
    } else if tag_is(t0, t1, t2, t3, 51, 48, 48) || tag_is(t0, t1, t2, t3, 51, 48, 49) {
        MeshVersion::V3
    } else if tag_is(t0, t1, t2, t3, 52, 48, 48) || tag_is(t0, t1, t2, t3, 52, 48, 49) {
        MeshVersion::V4
    } else {
        MeshVersion::Unknown
    }
}

/// Decodes a version 3 file: header, vertices, faces and LOD table.
pub fn decode_v3(buffer: &[u8]) -> (r: Result<DecodedMesh, DecodeError>)
    ensures
        decoded_as(r, decode_v3_model(buffer@)),
{
    let mut cur = Cursor::new(buffer);
    cur.seek_to(VERSION_LINE_SIZE)?;
    let header = MeshHeader3::from_reader(&mut cur)?;
    if header.header_size as usize != HEADER3_SIZE || header.vert_size as usize != VERTEX_SIZE
        || header.face_size as usize != FACE_SIZE || header.lod_size as usize != LOD_ENTRY_SIZE {
        return Err(DecodeError::StructuralMismatch);
    }
    read_geometry(&mut cur, header.num_verts, false, header.num_faces, header.num_lod)
}

/// Decodes a version 4 file: header, vertices, envelopes when the header
/// counts bones, faces and LOD table. The header's fields are read in order
/// from its start; the vertices start where `advance` places them.
pub fn decode_v4_with(buffer: &[u8], advance: HeaderAdvance) -> (r: Result<DecodedMesh, DecodeError>)
    ensures
        decoded_as(r, decode_v4_model(buffer@, advance)),
{
    let mut cur = Cursor::new(buffer);
    cur.seek_to(VERSION_LINE_SIZE)?;
    let header = MeshHeader4::from_reader(&mut cur)?;
    if header.header_size as usize != HEADER4_SIZE {
        return Err(DecodeError::StructuralMismatch);
    }
    let start = match advance {
        HeaderAdvance::DeclaredSize => VERSION_LINE_SIZE + HEADER4_SIZE,
        HeaderAdvance::FieldWidths => {
            if header.face_size as usize != FACE_SIZE || header.lod_size as usize != LOD_ENTRY_SIZE {
                return Err(DecodeError::StructuralMismatch);
            }
            VERSION_LINE_SIZE + HEADER4_FIELDS_SIZE
        },
    };
    cur.seek_to(start)?;
    read_geometry(&mut cur, header.num_verts, header.num_bones > 0, header.num_faces, header.num_lod)
}

/// Decodes a version 4 file with its geometry right after the declared
/// [`HEADER4_SIZE`] header bytes, the placement that [`try_transcode`] uses.
pub fn decode_v4(buffer: &[u8]) -> (r: Result<DecodedMesh, DecodeError>)
    ensures
        decoded_as(r, decode_v4_model(buffer@, HeaderAdvance::DeclaredSize)),
{
    decode_v4_with(buffer, HeaderAdvance::DeclaredSize)
}

/// The mesh that a file of a binary version holds.
pub open spec fn binary_model(s: Seq<u8>, version: MeshVersion) -> Result<MeshModel, DecodeError> {
    if version == MeshVersion::V3 {
        decode_v3_model(s)
    } else {
        decode_v4_model(s, HeaderAdvance::DeclaredSize)
    }
}

/// Decodes a version 3 or 4 file and encodes its base geometry canonically.
pub fn parse_bin(buffer: &[u8], version: MeshVersion) -> (r: Result<Vec<u8>, DecodeError>)
    requires
        version == MeshVersion::V3 || version == MeshVersion::V4,
    ensures
        encode_model(binary_model(buffer@, version)) == match r {
            Ok(b) => TranscodeModel::Transcoded(b@),
            Err(e) => TranscodeModel::Error(e),
        },
{
    let mesh = if version == MeshVersion::V3 {
        decode_v3(buffer)?
    } else {
        decode_v4(buffer)?
    };
    let ghost m = binary_model(buffer@, version)->Ok_0;
    assert(mesh.faces@.len() == m.faces.len());
    let out = constructv2(mesh.vertices, mesh.faces, mesh.lods);
    Ok(out)
}

/// Transcodes one mesh file: passes canonical versions through, reports an
/// unknown tag, and otherwise decodes and re-encodes canonically.
pub fn try_transcode(raw: &[u8]) -> (r: TranscodeResult)
    ensures
        r@ == transcode_model(raw@),
{
    if raw.len() < TAG_OFFSET + TAG_SIZE {
        return TranscodeResult::Error(DecodeError::TruncatedInput);
    }
    let version = version_tag(raw);
    match version {
        MeshVersion::Canonical => TranscodeResult::PassThrough,
        MeshVersion::Unknown => {
            let mut tag: Vec<u8> = Vec::new();
            tag.push(raw[TAG_OFFSET]);
            tag.push(raw[TAG_OFFSET + 1]);
            tag.push(raw[TAG_OFFSET + 2]);
            tag.push(raw[TAG_OFFSET + 3]);
            assert(tag@ =~= tag_of(raw@));
            TranscodeResult::Unsupported(tag)
        },
        _ => match parse_bin(raw, version) {
            Ok(b) => TranscodeResult::Transcoded(b),
            Err(e) => TranscodeResult::Error(e),
        },
    }
}

/// The canonical bytes of a version 3 or 4 file; `None` for every other
/// outcome of [`try_transcode`].
pub fn parse(buffer: &[u8]) -> (r: Option<Vec<u8>>)
    ensures
        match r {
            Some(b) => transcode_model(buffer@) == TranscodeModel::Transcoded(b@),
            None => !(transcode_model(buffer@) is Transcoded),
        },
{
    match try_transcode(buffer) {
        TranscodeResult::Transcoded(b) => Some(b),
        _ => None,
    }
}

/// Transcoding a version 3 or 4 file writes a canonical file that decodes
/// back to what was read: its header counts the vertices and the LOD-reduced
/// faces (the first `lods[1]` faces when the LOD table has more than one
/// entry, all of them otherwise), and every vertex and face record holds the
/// decoded value bit for bit.
pub proof fn lemma_transcode_round_trip(s: Seq<u8>)
    requires
        transcode_model(s) is Transcoded,
    ensures
        ({
            let out = transcode_model(s)->Transcoded_0;
            let m = binary_model(s, version_of(tag_of(s)))->Ok_0;
            let fs = normal_faces(m.faces, m.lods);
            let body = VERSION_LINE_SIZE + HEADER2_SIZE;
            &&& version_of(tag_of(out)) == MeshVersion::Canonical
            &&& m.lods.len() > 1 ==> fs.len() == m.lods[1]
            &&& m.lods.len() <= 1 ==> fs.len() == m.faces.len()
            &&& header2_at(out, VERSION_LINE_SIZE as int).num_verts == m.vertices.len()
            &&& header2_at(out, VERSION_LINE_SIZE as int).num_faces == fs.len()
            &&& out.len() == body + VERTEX_SIZE * m.vertices.len() + FACE_SIZE * fs.len()
            &&& forall|i: int|
                0 <= i < m.vertices.len() ==> #[trigger] vertex_at(out, body + VERTEX_SIZE * i)
                    == m.vertices[i]
            &&& forall|j: int|
                0 <= j < fs.len() ==> #[trigger] face_at(
                    out,
                    body + VERTEX_SIZE * m.vertices.len() + FACE_SIZE * j,
                ) == fs[j] && fs[j] == m.faces[j]
        }),
{
    let out = transcode_model(s)->Transcoded_0;
    let m = binary_model(s, version_of(tag_of(s)))->Ok_0;
    let fs = normal_faces(m.faces, m.lods);
    lemma_lod_reduction(m.faces, m.lods);
    lemma_canonical_round_trip(m.vertices, fs);
    let t = tag_of(out);
    assert(out.subrange(0, 13)[8] == t[0]);
    assert(out.subrange(0, 13)[9] == t[1]);
    assert(out.subrange(0, 13)[10] == t[2]);
    assert(out.subrange(0, 13)[11] == t[3]);
}

/// A file tagged 1.00, 1.01 or 2.00 passes through; nothing is decoded.
pub proof fn lemma_pass_through(s: Seq<u8>)
    requires
        s.len() >= TAG_OFFSET + TAG_SIZE,
        is_tag(tag_of(s), 49, 48, 48) || is_tag(tag_of(s), 49, 48, 49) || is_tag(tag_of(s), 50, 48, 48),
    ensures
        transcode_model(s) == TranscodeModel::PassThrough,
{
}

/// A tag other than the seven known ones is reported back as unsupported;
/// in particular any tag holding a byte outside ASCII.
pub proof fn lemma_unsupported(s: Seq<u8>)
    requires
        s.len() >= TAG_OFFSET + TAG_SIZE,
        version_of(tag_of(s)) == MeshVersion::Unknown || exists|k: int|
            0 <= k < TAG_SIZE && #[trigger] tag_of(s)[k] >= 128,
    ensures
        transcode_model(s) == TranscodeModel::Unsupported(tag_of(s)),
{
}

/// The number of bytes a version 3 or 4 file must hold for its header and
/// every record that the header declares to be read.
pub open spec fn mesh_extent(s: Seq<u8>) -> int {
    if version_of(tag_of(s)) == MeshVersion::V3 {
        let h = header3_at(s, VERSION_LINE_SIZE as int);
        v3_vertex_start() + VERTEX_SIZE * h.num_verts + FACE_SIZE * h.num_faces + LOD_ENTRY_SIZE
            * h.num_lod
    } else {
        let h = header4_at(s, VERSION_LINE_SIZE as int);
        let ne: int = if h.num_bones > 0 {
            h.num_verts as int
        } else {
            0
        };
        let end = v4_vertex_start() + VERTEX_SIZE * h.num_verts + ENVELOPE_SIZE * ne + FACE_SIZE
            * h.num_faces + LOD_ENTRY_SIZE * h.num_lod;
        if end < VERSION_LINE_SIZE + HEADER4_FIELDS_SIZE {
            VERSION_LINE_SIZE + HEADER4_FIELDS_SIZE
        } else {
            end
        }
    }
}

/// Cutting a transcodable file short anywhere after its version tag and
/// before the end of its last declared record gives a truncation error.
pub proof fn lemma_truncated(s: Seq<u8>, k: int)
    requires
        transcode_model(s) is Transcoded,
        TAG_OFFSET + TAG_SIZE <= k < mesh_extent(s),
    ensures
        transcode_model(s.subrange(0, k)) == TranscodeModel::Error(DecodeError::TruncatedInput),
{
    let t = s.subrange(0, k);
    assert(tag_of(t) =~= tag_of(s));
    assert forall|i: int| 0 <= i < k implies #[trigger] t[i] == s[i] by {}
    if version_of(tag_of(s)) == MeshVersion::V3 {
        if k >= v3_vertex_start() {
            assert(header3_at(t, 13) == header3_at(s, 13));
        }
    } else {
        if k >= VERSION_LINE_SIZE + HEADER4_FIELDS_SIZE {
            assert(header4_at(t, 13) == header4_at(s, 13));
        }
    }
}

} // verus!
