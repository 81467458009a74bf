//! Geometry records shared by every format version, and the canonical
//! "version 2.00" encoder.
use vstd::prelude::*;

use crate::bytes::{
    byte_of_i8, bytes_u16, bytes_u32, bytes_u64, i8_of, le_u16, le_u32, le_u64,
    lemma_i8_round_trip, lemma_u16_round_trip, lemma_u32_round_trip, lemma_u64_round_trip, push_i8,
    push_u16, push_u32, push_u64, Cursor, DecodeError,
};

verus! {

/// Bytes of one vertex record on the wire.
pub const VERTEX_SIZE: usize = 48;

/// Bytes of one face record.
pub const FACE_SIZE: usize = 12;

/// Bytes of one LOD boundary entry.
pub const LOD_ENTRY_SIZE: usize = 2;

/// Bytes of the canonical header.
pub const HEADER2_SIZE: usize = 12;

/// Bytes of the textual line `"version X.XX\n"` that opens every file.
pub const VERSION_LINE_SIZE: usize = 13;

/// One mesh vertex. The eight float components are held as their IEEE-754
/// bit patterns, so that they pass through bit-exact; the record's last eight
/// bytes, which no field names, are kept as one little-endian `u64` so that a
/// record is copied byte for byte.
#[derive(Clone, Copy, Debug, PartialEq, Eq, Structural)]
pub struct Vertex {
    pub px: u32,
    pub py: u32,
    pub pz: u32,
    pub nx: u32,
    pub ny: u32,
    pub nz: u32,
    pub tu: u32,
    pub tv: u32,
    pub tx: i8,
    pub ty: i8,
    pub tz: i8,
    pub ts: i8,
    pub r: u8,
    pub g: u8,
    pub b: u8,
    pub a: u8,
    pub reserved: u64,
}

/// A triangle: three vertex indices, not checked against the vertex count.
#[derive(Clone, Copy, Debug, PartialEq, Eq, Structural)]
pub struct Face {
    pub a: u32,
    pub b: u32,
    pub c: u32,
}

/// The header of the canonical format.
#[derive(Clone, Copy, Debug, PartialEq, Eq, Structural)]
pub struct MeshHeader2 {
    pub header_size: u16,
    pub vert_size: u8,
    pub face_size: u8,
    pub num_verts: u32,
    pub num_faces: u32,
}

/// The vertex whose record starts at `s[i]`.
pub open spec fn vertex_at(s: Seq<u8>, i: int) -> Vertex {
    Vertex {
        px: le_u32(s, i),
        py: le_u32(s, i + 4),
        pz: le_u32(s, i + 8),
        nx: le_u32(s, i + 12),
        ny: le_u32(s, i + 16),
        nz: le_u32(s, i + 20),
        tu: le_u32(s, i + 24),
        tv: le_u32(s, i + 28),
        tx: i8_of(s[i + 32]),
        ty: i8_of(s[i + 33]),
        tz: i8_of(s[i + 34]),
        ts: i8_of(s[i + 35]),
        r: s[i + 36],
        g: s[i + 37],
        b: s[i + 38],
        a: s[i + 39],
        reserved: le_u64(s, i + 40),
    }
}

/// The face whose record starts at `s[i]`.
pub open spec fn face_at(s: Seq<u8>, i: int) -> Face {
    Face { a: le_u32(s, i), b: le_u32(s, i + 4), c: le_u32(s, i + 8) }
}

/// The canonical header stored at `s[i..i + 12]`.
pub open spec fn header2_at(s: Seq<u8>, i: int) -> MeshHeader2 {
    MeshHeader2 {
        header_size: le_u16(s, i),
        vert_size: s[i + 2],
        face_size: s[i + 3],
        num_verts: le_u32(s, i + 4),
        num_faces: le_u32(s, i + 8),
    }
}

/// The 48 bytes of a vertex record.
pub open spec fn vertex_bytes(v: Vertex) -> Seq<u8> {
    bytes_u32(v.px) + bytes_u32(v.py) + bytes_u32(v.pz) + bytes_u32(v.nx) + bytes_u32(v.ny)
        + bytes_u32(v.nz) + bytes_u32(v.tu) + bytes_u32(v.tv) + seq![
        byte_of_i8(v.tx),
        byte_of_i8(v.ty),
        byte_of_i8(v.tz),
        byte_of_i8(v.ts),
        v.r,
        v.g,
        v.b,
        v.a,
    ] + bytes_u64(v.reserved)
}

/// The 12 bytes of a face record.
pub open spec fn face_bytes(f: Face) -> Seq<u8> {
    bytes_u32(f.a) + bytes_u32(f.b) + bytes_u32(f.c)
}

/// The 12 bytes of a canonical header.
pub open spec fn header2_bytes(h: MeshHeader2) -> Seq<u8> {
    bytes_u16(h.header_size) + seq![h.vert_size, h.face_size] + bytes_u32(h.num_verts) + bytes_u32(
        h.num_faces,
    )
}

/// The records of `vs`, one after another.
pub open spec fn vertices_bytes(vs: Seq<Vertex>) -> Seq<u8>
    decreases vs.len(),
{
    if vs.len() == 0 {
        Seq::empty()
    } else {
        vertices_bytes(vs.drop_last()) + vertex_bytes(vs.last())
    }
}

/// The records of `fs`, one after another.
pub open spec fn faces_bytes(fs: Seq<Face>) -> Seq<u8>
    decreases fs.len(),
{
    if fs.len() == 0 {
        Seq::empty()
    } else {
        faces_bytes(fs.drop_last()) + face_bytes(fs.last())
    }
}

/// The ASCII line `"version 2.00\n"`.
pub open spec fn version2_line() -> Seq<u8> {
    seq![118u8, 101u8, 114u8, 115u8, 105u8, 111u8, 110u8, 32u8, 50u8, 46u8, 48u8, 48u8, 10u8]
}

/// The canonical header that describes `nv` vertices and `nf` faces.
pub open spec fn canonical_header(nv: nat, nf: nat) -> MeshHeader2 {
    MeshHeader2 {
        header_size: HEADER2_SIZE as u16,
        vert_size: VERTEX_SIZE as u8,
        face_size: FACE_SIZE as u8,
        num_verts: nv as u32,
        num_faces: nf as u32,
    }
}

/// The canonical file holding `vs` and `fs`.
pub open spec fn canonical_bytes(vs: Seq<Vertex>, fs: Seq<Face>) -> Seq<u8> {
    version2_line() + header2_bytes(canonical_header(vs.len(), fs.len())) + vertices_bytes(vs)
        + faces_bytes(fs)
}

/// The base faces: those before the second LOD boundary when the table has
/// more than one entry, otherwise all of them.
pub open spec fn normal_faces(faces: Seq<Face>, lods: Seq<u16>) -> Seq<Face> {
    if lods.len() > 1 {
        faces.subrange(0, lods[1] as int)
    } else {
        faces
    }
}

/// A window holding `a + b` holds `a` first and then `b`.
pub proof fn lemma_split(s: Seq<u8>, i: int, a: Seq<u8>, b: Seq<u8>)
    requires
        0 <= i,
        i + a.len() + b.len() <= s.len(),
        s.subrange(i, i + a.len() + b.len()) == a + b,
    ensures
        s.subrange(i, i + a.len()) == a,
        s.subrange(i + a.len(), i + a.len() + b.len()) == b,
{
    let n = a.len() + b.len();
    assert forall|k: int| 0 <= k < n implies s[i + k] == (a + b)[k] by {
        assert(s.subrange(i, i + n)[k] == s[i + k]);
    }
    assert forall|k: int| 0 <= k < a.len() implies s.subrange(i, i + a.len())[k] == a[k] by {
        assert(s[i + k] == (a + b)[k]);
    }
    assert forall|k: int| 0 <= k < b.len() implies s.subrange(i + a.len(), i + n)[k] == b[k] by {
        assert(s[i + a.len() + k] == (a + b)[a.len() + k]);
    }
    assert(s.subrange(i, i + a.len()) =~= a);
    assert(s.subrange(i + a.len(), i + n) =~= b);
}

/// Decoding the bytes of a vertex gives the vertex back.
pub proof fn lemma_vertex_round_trip(v: Vertex, s: Seq<u8>, i: int)
    requires
        0 <= i,
        i + VERTEX_SIZE <= s.len(),
        s.subrange(i, i + VERTEX_SIZE) == vertex_bytes(v),
    ensures
        vertex_at(s, i) == v,
{
    let q1 = bytes_u32(v.px);
    let q2 = q1 + bytes_u32(v.py);
    let q3 = q2 + bytes_u32(v.pz);
    let q4 = q3 + bytes_u32(v.nx);
    let q5 = q4 + bytes_u32(v.ny);
    let q6 = q5 + bytes_u32(v.nz);
    let q7 = q6 + bytes_u32(v.tu);
    let q8 = q7 + bytes_u32(v.tv);
    let tail = vertex_bytes(v).subrange(32, 48);
    assert(vertex_bytes(v) =~= q8 + tail);
    lemma_split(s, i, q8, tail);
    lemma_split(s, i, q7, bytes_u32(v.tv));
    lemma_split(s, i, q6, bytes_u32(v.tu));
    lemma_split(s, i, q5, bytes_u32(v.nz));
    lemma_split(s, i, q4, bytes_u32(v.ny));
    lemma_split(s, i, q3, bytes_u32(v.nx));
    lemma_split(s, i, q2, bytes_u32(v.pz));
    lemma_split(s, i, q1, bytes_u32(v.py));
    lemma_u32_round_trip(v.px, s, i);
    lemma_u32_round_trip(v.py, s, i + 4);
    lemma_u32_round_trip(v.pz, s, i + 8);
    lemma_u32_round_trip(v.nx, s, i + 12);
    lemma_u32_round_trip(v.ny, s, i + 16);
    lemma_u32_round_trip(v.nz, s, i + 20);
    lemma_u32_round_trip(v.tu, s, i + 24);
    lemma_u32_round_trip(v.tv, s, i + 28);
    lemma_i8_round_trip(v.tx);
    lemma_i8_round_trip(v.ty);
    lemma_i8_round_trip(v.tz);
    lemma_i8_round_trip(v.ts);
    let small = seq![
        byte_of_i8(v.tx),
        byte_of_i8(v.ty),
        byte_of_i8(v.tz),
        byte_of_i8(v.ts),
        v.r,
        v.g,
        v.b,
        v.a,
    ];
    assert(tail =~= small + bytes_u64(v.reserved));
    lemma_split(s, i + 32, small, bytes_u64(v.reserved));
    lemma_u64_round_trip(v.reserved, s, i + 40);
    assert forall|k: int| 32 <= k < 40 implies #[trigger] s[i + k] == small[k - 32] by {
        assert(s.subrange(i + 32, i + 40)[k - 32] == s[i + k]);
    }
}

/// Decoding the bytes of a face gives the face back.
pub proof fn lemma_face_round_trip(f: Face, s: Seq<u8>, i: int)
    requires
        0 <= i,
        i + FACE_SIZE <= s.len(),
        s.subrange(i, i + FACE_SIZE) == face_bytes(f),
    ensures
        face_at(s, i) == f,
{
    let q1 = bytes_u32(f.a);
    let q2 = q1 + bytes_u32(f.b);
    lemma_split(s, i, q2, bytes_u32(f.c));
    lemma_split(s, i, q1, bytes_u32(f.b));
    lemma_u32_round_trip(f.a, s, i);
    lemma_u32_round_trip(f.b, s, i + 4);
    lemma_u32_round_trip(f.c, s, i + 8);
}

/// The vertex records laid end to end: 48 bytes each, record `k` at `48 * k`.
pub proof fn lemma_vertices_bytes(vs: Seq<Vertex>, k: int)
    requires
        0 <= k < vs.len(),
    ensures
        vertices_bytes(vs).len() == VERTEX_SIZE * vs.len(),
        vertices_bytes(vs).subrange(VERTEX_SIZE * k, VERTEX_SIZE * k + VERTEX_SIZE) == vertex_bytes(
            vs[k],
        ),
    decreases vs.len(),
{
    lemma_vertices_bytes_len(vs);
    let pre = vs.drop_last();
    lemma_vertices_bytes_len(pre);
    let whole = vertices_bytes(vs);
    assert(whole == vertices_bytes(pre) + vertex_bytes(vs.last()));
    if k == vs.len() - 1 {
        assert(whole.subrange(48 * k, 48 * k + 48) =~= vertex_bytes(vs[k]));
    } else {
        lemma_vertices_bytes(pre, k);
        assert(pre[k] == vs[k]);
        assert(whole.subrange(48 * k, 48 * k + 48) =~= vertices_bytes(pre).subrange(48 * k, 48 * k + 48));
    }
}

/// The vertex records of `vs` take 48 bytes each.
pub proof fn lemma_vertices_bytes_len(vs: Seq<Vertex>)
    ensures
        vertices_bytes(vs).len() == VERTEX_SIZE * vs.len(),
    decreases vs.len(),
{
    if vs.len() > 0 {
        lemma_vertices_bytes_len(vs.drop_last());
    }
}

/// The face records laid end to end: 12 bytes each, record `k` at `12 * k`.
pub proof fn lemma_faces_bytes(fs: Seq<Face>, k: int)
    requires
        0 <= k < fs.len(),
    ensures
        faces_bytes(fs).len() == FACE_SIZE * fs.len(),
        faces_bytes(fs).subrange(FACE_SIZE * k, FACE_SIZE * k + FACE_SIZE) == face_bytes(fs[k]),
    decreases fs.len(),
{
    lemma_faces_bytes_len(fs);
    let pre = fs.drop_last();
    lemma_faces_bytes_len(pre);
    let whole = faces_bytes(fs);
    assert(whole == faces_bytes(pre) + face_bytes(fs.last()));
    if k == fs.len() - 1 {
        assert(whole.subrange(12 * k, 12 * k + 12) =~= face_bytes(fs[k]));
    } else {
        lemma_faces_bytes(pre, k);
        assert(pre[k] == fs[k]);
        assert(whole.subrange(12 * k, 12 * k + 12) =~= faces_bytes(pre).subrange(12 * k, 12 * k + 12));
    }
}

/// The face records of `fs` take 12 bytes each.
pub proof fn lemma_faces_bytes_len(fs: Seq<Face>)
    ensures
        faces_bytes(fs).len() == FACE_SIZE * fs.len(),
    decreases fs.len(),
{
    if fs.len() > 0 {
        lemma_faces_bytes_len(fs.drop_last());
    }
}

/// Appends the 48-byte record of `v`.
pub fn write_vertex(out: &mut Vec<u8>, v: &Vertex)
    ensures
        final(out)@ == old(out)@ + vertex_bytes(*v),
{
    push_u32(out, v.px);
    push_u32(out, v.py);
    push_u32(out, v.pz);
    push_u32(out, v.nx);
    push_u32(out, v.ny);
    push_u32(out, v.nz);
    push_u32(out, v.tu);
    push_u32(out, v.tv);
    push_i8(out, v.tx);
    push_i8(out, v.ty);
    push_i8(out, v.tz);
    push_i8(out, v.ts);
    out.push(v.r);
    out.push(v.g);
    out.push(v.b);
    out.push(v.a);
    push_u64(out, v.reserved);
    assert(out@ =~= old(out)@ + vertex_bytes(*v));
}

/// Appends the 12-byte record of `f`.
pub fn write_face(out: &mut Vec<u8>, f: &Face)
    ensures
        final(out)@ == old(out)@ + face_bytes(*f),
{
    push_u32(out, f.a);
    push_u32(out, f.b);
    push_u32(out, f.c);
    assert(out@ =~= old(out)@ + face_bytes(*f));
}

/// Appends the 12-byte record of `h`.
pub fn write_header2(out: &mut Vec<u8>, h: &MeshHeader2)
    ensures
        final(out)@ == old(out)@ + header2_bytes(*h),
{
    push_u16(out, h.header_size);
    out.push(h.vert_size);
    out.push(h.face_size);
    push_u32(out, h.num_verts);
    push_u32(out, h.num_faces);
    assert(out@ =~= old(out)@ + header2_bytes(*h));
}

impl Face {
    /// Reads one face record and moves past it.
    pub fn from_reader(rdr: &mut Cursor) -> (r: Result<Face, DecodeError>)
        requires
            old(rdr).wf(),
        ensures
            final(rdr).wf(),
            final(rdr).data() == old(rdr).data(),
            r is Ok <==> old(rdr).pos() + FACE_SIZE <= old(rdr).data().len(),
            r is Ok ==> r->Ok_0 == face_at(old(rdr).data(), old(rdr).pos()) && final(rdr).pos()
                == old(rdr).pos() + FACE_SIZE,
            r is Err ==> r->Err_0 == DecodeError::TruncatedInput && final(rdr).pos()
                == old(rdr).pos(),
    {
        if rdr.position() > rdr.len() || rdr.len() - rdr.position() < FACE_SIZE {
            return Err(DecodeError::TruncatedInput);
        }
        let a = rdr.read_u32()?;
        let b = rdr.read_u32()?;
        let c = rdr.read_u32()?;
        Ok(Face { a, b, c })
    }

    /// The base faces: when `lods` has more than one entry, the faces before
    /// boundary `lods[1]`; otherwise `faces` unchanged.
    pub fn get_normal_faces(faces: Vec<Face>, lods: Vec<u16>) -> (r: Vec<Face>)
        requires
            lods.len() > 1 ==> lods[1] <= faces.len(),
        ensures
            r@ == normal_faces(faces@, lods@),
    {
        let mut faces = faces;
        if lods.len() > 1 {
            faces.truncate(lods[1] as usize);
        }
        faces
    }
}

impl Vertex {
    /// Reads one 48-byte vertex record, its last eight bytes included, and
    /// moves past it.
    pub fn from_reader(rdr: &mut Cursor) -> (r: Result<Vertex, DecodeError>)
        requires
            old(rdr).wf(),
        ensures
            final(rdr).wf(),
            final(rdr).data() == old(rdr).data(),
            r is Ok <==> old(rdr).pos() + VERTEX_SIZE <= old(rdr).data().len(),
            r is Ok ==> r->Ok_0 == vertex_at(old(rdr).data(), old(rdr).pos()) && final(rdr).pos()
                == old(rdr).pos() + VERTEX_SIZE,
            r is Err ==> r->Err_0 == DecodeError::TruncatedInput && final(rdr).pos()
                == old(rdr).pos(),
    {
        if rdr.position() > rdr.len() || rdr.len() - rdr.position() < VERTEX_SIZE {
            return Err(DecodeError::TruncatedInput);
        }
        let px = rdr.read_u32()?;
        let py = rdr.read_u32()?;
        let pz = rdr.read_u32()?;
        let nx = rdr.read_u32()?;
        let ny = rdr.read_u32()?;
        let nz = rdr.read_u32()?;
        let tu = rdr.read_u32()?;
        let tv = rdr.read_u32()?;
        let tx = rdr.read_i8()?;
        let ty = rdr.read_i8()?;
        let tz = rdr.read_i8()?;
        let ts = rdr.read_i8()?;
        let r = rdr.read_u8()?;
        let g = rdr.read_u8()?;
        let b = rdr.read_u8()?;
        let a = rdr.read_u8()?;
        let reserved = rdr.read_u64()?;
        Ok(Vertex { px, py, pz, nx, ny, nz, tu, tv, tx, ty, tz, ts, r, g, b, a, reserved })
    }
}

/// Encodes `vertices` and the base faces of `faces` (see
/// [`Face::get_normal_faces`]) in the canonical "version 2.00" layout.
pub fn constructv2(vertices: Vec<Vertex>, faces: Vec<Face>, lods: Vec<u16>) -> (r: Vec<u8>)
    requires
        vertices.len() <= u32::MAX,
        faces.len() <= u32::MAX,
        lods.len() > 1 ==> lods[1] <= faces.len(),
    ensures
        r@ == canonical_bytes(vertices@, normal_faces(faces@, lods@)),
        ({
            let fs = normal_faces(faces@, lods@);
            let body = VERSION_LINE_SIZE + HEADER2_SIZE;
            &&& lods.len() > 1 ==> fs.len() == lods[1]
            &&& lods.len() <= 1 ==> fs.len() == faces.len()
            &&& r@.len() == body + VERTEX_SIZE * vertices.len() + FACE_SIZE * fs.len()
            &&& header2_at(r@, VERSION_LINE_SIZE as int) == canonical_header(vertices@.len(), fs.len())
            &&& header2_at(r@, VERSION_LINE_SIZE as int).num_verts == vertices.len()
            &&& header2_at(r@, VERSION_LINE_SIZE as int).num_faces == fs.len()
            &&& forall|i: int|
                0 <= i < vertices.len() ==> #[trigger] vertex_at(r@, body + VERTEX_SIZE * i)
                    == vertices[i]
            &&& forall|j: int|
                0 <= j < fs.len() ==> #[trigger] face_at(
                    r@,
                    body + VERTEX_SIZE * vertices.len() + FACE_SIZE * j,
                ) == fs[j]
        }),
{
    proof {
        lemma_lod_reduction(faces@, lods@);
        lemma_canonical_round_trip(vertices@, normal_faces(faces@, lods@));
    }
    let faces = Face::get_normal_faces(faces, lods);
    let mut out: Vec<u8> = Vec::new();
    // "version 2.00\n"
    out.push(118u8);
    out.push(101u8);
    out.push(114u8);
    out.push(115u8);
    out.push(105u8);
    out.push(111u8);
    out.push(110u8);
    out.push(32u8);
    out.push(50u8);
    out.push(46u8);
    out.push(48u8);
    out.push(48u8);
    out.push(10u8);
    assert(out@ =~= version2_line());
    let header = MeshHeader2 {
        header_size: HEADER2_SIZE as u16,
        vert_size: VERTEX_SIZE as u8,
        face_size: FACE_SIZE as u8,
        num_verts: vertices.len() as u32,
        num_faces: faces.len() as u32,
    };
    write_header2(&mut out, &header);
    let ghost head = out@;
    let mut i: usize = 0;
    while i < vertices.len()
        invariant
            i <= vertices.len(),
            out@ == head + vertices_bytes(vertices@.subrange(0, i as int)),
        decreases vertices.len() - i,
    {
        write_vertex(&mut out, &vertices[i]);
        proof {
            let next = vertices@.subrange(0, i + 1);
            assert(next.drop_last() =~= vertices@.subrange(0, i as int));
            assert(out@ =~= head + vertices_bytes(next));
        }
        i = i + 1;
    }
    assert(vertices@.subrange(0, i as int) =~= vertices@);
    let ghost body = out@;
    let mut j: usize = 0;
    while j < faces.len()
        invariant
            j <= faces.len(),
            out@ == body + faces_bytes(faces@.subrange(0, j as int)),
        decreases faces.len() - j,
    {
        write_face(&mut out, &faces[j]);
        proof {
            let next = faces@.subrange(0, j + 1);
            assert(next.drop_last() =~= faces@.subrange(0, j as int));
            assert(out@ =~= body + faces_bytes(next));
        }
        j = j + 1;
    }
    assert(faces@.subrange(0, j as int) =~= faces@);
    out
}

/// The window `[a + x, a + x + n)` of `p + v`, where `p` has length `a`, is
/// the window `[x, x + n)` of `v`.
pub proof fn lemma_window_after(p: Seq<u8>, v: Seq<u8>, x: int, n: int)
    requires
        0 <= x,
        0 <= n,
        x + n <= v.len(),
    ensures
        (p + v).subrange(p.len() + x, p.len() + x + n) == v.subrange(x, x + n),
{
    assert((p + v).subrange(p.len() + x, p.len() + x + n) =~= v.subrange(x, x + n));
}

/// Decoding a canonical file gives back its header, every vertex and every
/// face, bit for bit: the header counts the records that follow it, vertex
/// `i` starts at `25 + 48 * i`, and face `j` right after the vertices at
/// `12 * j`.
pub proof fn lemma_canonical_round_trip(vs: Seq<Vertex>, fs: Seq<Face>)
    requires
        vs.len() <= u32::MAX,
        fs.len() <= u32::MAX,
    ensures
        ({
            let out = canonical_bytes(vs, fs);
            let body = VERSION_LINE_SIZE + HEADER2_SIZE;
            &&& out.len() == body + VERTEX_SIZE * vs.len() + FACE_SIZE * fs.len()
            &&& out.subrange(0, VERSION_LINE_SIZE as int) == version2_line()
            &&& header2_at(out, VERSION_LINE_SIZE as int) == canonical_header(vs.len(), fs.len())
            &&& header2_at(out, VERSION_LINE_SIZE as int).num_verts == vs.len()
            &&& header2_at(out, VERSION_LINE_SIZE as int).num_faces == fs.len()
            &&& forall|i: int|
                0 <= i < vs.len() ==> #[trigger] vertex_at(out, body + VERTEX_SIZE * i) == vs[i]
            &&& forall|j: int|
                0 <= j < fs.len() ==> #[trigger] face_at(
                    out,
                    body + VERTEX_SIZE * vs.len() + FACE_SIZE * j,
                ) == fs[j]
        }),
{
    let out = canonical_bytes(vs, fs);
    let line = version2_line();
    let h = canonical_header(vs.len(), fs.len());
    let hb = header2_bytes(h);
    let vb = vertices_bytes(vs);
    let fb = faces_bytes(fs);
    lemma_vertices_bytes_len(vs);
    lemma_faces_bytes_len(fs);
    let q1 = line + hb;
    let q2 = q1 + vb;
    assert(out == q2 + fb);
    // the version line and the header
    assert(out.subrange(0, 25) =~= q1);
    lemma_split(out, 0, line, hb);
    let h1 = bytes_u16(h.header_size);
    let h2 = h1 + seq![h.vert_size, h.face_size];
    let h3 = h2 + bytes_u32(h.num_verts);
    lemma_split(out, 13, h3, bytes_u32(h.num_faces));
    lemma_split(out, 13, h2, bytes_u32(h.num_verts));
    lemma_split(out, 13, h1, seq![h.vert_size, h.face_size]);
    lemma_u16_round_trip(h.header_size, out, 13);
    lemma_u32_round_trip(h.num_verts, out, 17);
    lemma_u32_round_trip(h.num_faces, out, 21);
    assert(out[15] == out.subrange(15, 17)[0]);
    assert(out[16] == out.subrange(15, 17)[1]);
    // the vertices
    assert forall|i: int| 0 <= i < vs.len() implies #[trigger] vertex_at(out, 25 + VERTEX_SIZE * i)
        == vs[i] by {
        lemma_vertices_bytes(vs, i);
        assert(0 <= VERTEX_SIZE * i) by (nonlinear_arith)
            requires
                0 <= i,
        ;
        assert(VERTEX_SIZE * i + VERTEX_SIZE <= VERTEX_SIZE * vs.len()) by (nonlinear_arith)
            requires
                i < vs.len(),
        ;
        lemma_window_after(q1, vb, VERTEX_SIZE * i, VERTEX_SIZE as int);
        assert(out.subrange(25 + VERTEX_SIZE * i, 25 + VERTEX_SIZE * i + VERTEX_SIZE)
            =~= q2.subrange(25 + VERTEX_SIZE * i, 25 + VERTEX_SIZE * i + VERTEX_SIZE));
        lemma_vertex_round_trip(vs[i], out, 25 + VERTEX_SIZE * i);
    }
    // the faces
    assert forall|j: int| 0 <= j < fs.len() implies #[trigger] face_at(
        out,
        25 + VERTEX_SIZE * vs.len() + FACE_SIZE * j,
    ) == fs[j] by {
        lemma_faces_bytes(fs, j);
        assert(0 <= FACE_SIZE * j) by (nonlinear_arith)
            requires
                0 <= j,
        ;
        assert(FACE_SIZE * j + FACE_SIZE <= FACE_SIZE * fs.len()) by (nonlinear_arith)
            requires
                j < fs.len(),
        ;
        lemma_window_after(q2, fb, FACE_SIZE * j, FACE_SIZE as int);
        lemma_face_round_trip(fs[j], out, 25 + VERTEX_SIZE * vs.len() + FACE_SIZE * j);
    }
}

/// LOD reduction keeps exactly the first `lods[1]` faces when the table has
/// more than one entry, and every face otherwise.
pub proof fn lemma_lod_reduction(faces: Seq<Face>, lods: Seq<u16>)
    requires
        lods.len() > 1 ==> lods[1] <= faces.len(),
    ensures
        lods.len() > 1 ==> normal_faces(faces, lods).len() == lods[1],
        lods.len() <= 1 ==> normal_faces(faces, lods).len() == faces.len(),
        forall|j: int|
            0 <= j < normal_faces(faces, lods).len() ==> #[trigger] normal_faces(faces, lods)[j]
                == faces[j],
{
}

} // verus!
