use meshconv::bytes::{Cursor, DecodeError};
use meshconv::mesh::{constructv2, Face, MeshHeader2, Vertex};
use meshconv::rbxmesh_parser::{
    decode_v3, decode_v4, decode_v4_with, parse, parse_bin, try_transcode, version_tag, MeshVersion,
    TranscodeResult,
};
use meshconv::service::{is_mesh_asset, reply_for, Params, Reply};
use meshconv::v3::MeshHeader3;
use meshconv::v4::{Envelope, HeaderAdvance, MeshHeader4};

fn vertex(seed: f32, k: u8) -> Vertex {
    Vertex {
        px: seed.to_bits(),
        py: (seed + 1.0).to_bits(),
        pz: (seed + 2.0).to_bits(),
        nx: 0.0f32.to_bits(),
        ny: 1.0f32.to_bits(),
        nz: (-0.5f32).to_bits(),
        tu: 0.25f32.to_bits(),
        tv: 0.75f32.to_bits(),
        tx: -1,
        ty: 127,
        tz: -128,
        ts: k as i8,
        r: 255,
        g: k,
        b: 3,
        a: 200,
        reserved: 0x0807_0605_0403_0201u64 ^ k as u64,
    }
}

fn vertex_record(v: &Vertex) -> Vec<u8> {
    let mut out = Vec::new();
    for w in [v.px, v.py, v.pz, v.nx, v.ny, v.nz, v.tu, v.tv] {
        out.extend_from_slice(&w.to_le_bytes());
    }
    for t in [v.tx, v.ty, v.tz, v.ts] {
        out.push(t as u8);
    }
    out.extend_from_slice(&[v.r, v.g, v.b, v.a]);
    out.extend_from_slice(&v.reserved.to_le_bytes());
    out
}

fn face_record(f: &Face) -> Vec<u8> {
    let mut out = Vec::new();
    for w in [f.a, f.b, f.c] {
        out.extend_from_slice(&w.to_le_bytes());
    }
    out
}

fn v3_file(tag: &str, verts: &[Vertex], faces: &[Face], lods: &[u16]) -> Vec<u8> {
    let mut out = format!("version {}\n", tag).into_bytes();
    out.extend_from_slice(&16u16.to_le_bytes());
    out.push(48);
    out.push(12);
    out.extend_from_slice(&2u16.to_le_bytes());
    out.extend_from_slice(&(lods.len() as u16).to_le_bytes());
    out.extend_from_slice(&(verts.len() as u32).to_le_bytes());
    out.extend_from_slice(&(faces.len() as u32).to_le_bytes());
    for v in verts {
        out.extend(vertex_record(v));
    }
    for f in faces {
        out.extend(face_record(f));
    }
    for l in lods {
        out.extend_from_slice(&l.to_le_bytes());
    }
    out
}

fn v4_file(tag: &str, verts: &[Vertex], bones: u16, faces: &[Face], lods: &[u16]) -> Vec<u8> {
    let mut out = format!("version {}\n", tag).into_bytes();
    out.extend_from_slice(&24u16.to_le_bytes());
    out.extend_from_slice(&0u16.to_le_bytes());
    out.extend_from_slice(&(verts.len() as u32).to_le_bytes());
    out.extend_from_slice(&(faces.len() as u32).to_le_bytes());
    out.extend_from_slice(&(lods.len() as u16).to_le_bytes());
    out.extend_from_slice(&bones.to_le_bytes());
    out.extend_from_slice(&0u32.to_le_bytes());
    out.extend_from_slice(&0u16.to_le_bytes());
    out.push(0);
    out.push(0);
    for v in verts {
        out.extend(vertex_record(v));
    }
    if bones > 0 {
        for (i, _) in verts.iter().enumerate() {
            out.extend_from_slice(&[i as u8, 1, 2, 3, 255, 0, 0, 0]);
        }
    }
    for f in faces {
        out.extend(face_record(f));
    }
    for l in lods {
        out.extend_from_slice(&l.to_le_bytes());
    }
    out
}

fn canonical(verts: &[Vertex], faces: &[Face]) -> Vec<u8> {
    let mut out = b"version 2.00\n".to_vec();
    out.extend_from_slice(&12u16.to_le_bytes());
    out.push(48);
    out.push(12);
    out.extend_from_slice(&(verts.len() as u32).to_le_bytes());
    out.extend_from_slice(&(faces.len() as u32).to_le_bytes());
    for v in verts {
        out.extend(vertex_record(v));
    }
    for f in faces {
        out.extend(face_record(f));
    }
    out
}

fn u32_at(b: &[u8], i: usize) -> u32 {
    u32::from_le_bytes([b[i], b[i + 1], b[i + 2], b[i + 3]])
}

#[test]
fn v3_scenario_three_vertices_one_face() {
    let verts = [vertex(1.5, 1), vertex(-2.25, 2), vertex(1e-3, 3)];
    let faces = [Face { a: 0, b: 1, c: 2 }];
    let file = v3_file("3.00", &verts, &faces, &[1, 1]);
    let out = match try_transcode(&file) {
        TranscodeResult::Transcoded(b) => b,
        other => panic!("unexpected {:?}", other),
    };
    assert_eq!(&out[..13], b"version 2.00\n");
    assert_eq!(u32_at(&out, 17), 3);
    assert_eq!(u32_at(&out, 21), 1);
    for (i, v) in verts.iter().enumerate() {
        assert_eq!(&out[25 + 48 * i..25 + 48 * (i + 1)], &vertex_record(v)[..]);
    }
    assert_eq!(out, canonical(&verts, &faces));
}

#[test]
fn v4_without_bones_reads_no_envelopes() {
    let verts = [vertex(0.5, 9), vertex(4.0, 8)];
    let faces = [Face { a: 1, b: 0, c: 1 }, Face { a: 0, b: 0, c: 1 }];
    let file = v4_file("4.00", &verts, 0, &faces, &[]);
    let mesh = decode_v4(&file).unwrap();
    assert_eq!(mesh.envelopes.len(), 0);
    assert_eq!(mesh.vertices, verts.to_vec());
    assert_eq!(mesh.faces, faces.to_vec());
    assert_eq!(parse(&file), Some(canonical(&verts, &faces)));
}

#[test]
fn v4_with_bones_skips_envelopes() {
    let verts = [vertex(0.5, 9), vertex(4.0, 8), vertex(7.0, 7)];
    let faces = [Face { a: 2, b: 1, c: 0 }];
    let file = v4_file("4.01", &verts, 2, &faces, &[0, 1]);
    let mesh = decode_v4(&file).unwrap();
    assert_eq!(mesh.envelopes.len(), 3);
    assert_eq!(mesh.envelopes[1].bones, [1, 1, 2, 3]);
    assert_eq!(mesh.envelopes[1].weights, [255, 0, 0, 0]);
    assert_eq!(mesh.faces, faces.to_vec());
    assert_eq!(parse(&file), Some(canonical(&verts, &faces)));
}

#[test]
fn lod_table_reduces_faces_to_base_boundary() {
    let verts = [vertex(1.0, 0)];
    let faces = [
        Face { a: 0, b: 0, c: 0 },
        Face { a: 1, b: 1, c: 1 },
        Face { a: 2, b: 2, c: 2 },
    ];
    let file = v3_file("3.01", &verts, &faces, &[0, 2, 3]);
    let out = parse(&file).unwrap();
    assert_eq!(u32_at(&out, 21), 2);
    assert_eq!(out, canonical(&verts, &faces[..2]));
}

#[test]
fn single_lod_entry_keeps_all_faces() {
    let verts = [vertex(1.0, 0)];
    let faces = [Face { a: 0, b: 0, c: 0 }, Face { a: 1, b: 1, c: 1 }];
    let file = v3_file("3.00", &verts, &faces, &[2]);
    let out = parse(&file).unwrap();
    assert_eq!(u32_at(&out, 21), 2);
    assert_eq!(out, canonical(&verts, &faces));
}

#[test]
fn get_normal_faces_cuts_at_second_boundary() {
    let faces = vec![
        Face { a: 0, b: 1, c: 2 },
        Face { a: 3, b: 4, c: 5 },
        Face { a: 6, b: 7, c: 8 },
    ];
    assert_eq!(Face::get_normal_faces(faces.clone(), vec![0, 1]), faces[..1].to_vec());
    assert_eq!(Face::get_normal_faces(faces.clone(), vec![0, 0, 3]), Vec::<Face>::new());
    assert_eq!(Face::get_normal_faces(faces.clone(), vec![5]), faces);
    assert_eq!(Face::get_normal_faces(faces.clone(), vec![]), faces);
}

#[test]
fn lod_boundary_past_faces_is_structural() {
    let file = v3_file("3.00", &[vertex(1.0, 0)], &[Face { a: 0, b: 0, c: 0 }], &[0, 5]);
    assert_eq!(decode_v3(&file).err(), Some(DecodeError::StructuralMismatch));
    assert!(matches!(
        try_transcode(&file),
        TranscodeResult::Error(DecodeError::StructuralMismatch)
    ));
}

#[test]
fn pass_through_versions() {
    for tag in ["1.00", "1.01", "2.00"] {
        let file = format!("version {}\nwhatever", tag).into_bytes();
        assert!(matches!(try_transcode(&file), TranscodeResult::PassThrough));
        assert_eq!(parse(&file), None);
    }
    let bare = b"version 2.00".to_vec();
    assert!(matches!(try_transcode(&bare), TranscodeResult::PassThrough));
}

#[test]
fn unsupported_tags_are_reported() {
    let file = b"version 5.00\n0000000000000000".to_vec();
    match try_transcode(&file) {
        TranscodeResult::Unsupported(t) => assert_eq!(t, b"5.00".to_vec()),
        other => panic!("unexpected {:?}", other),
    }
    let odd = vec![b'v', b'e', b'r', b's', b'i', b'o', b'n', b' ', 0xff, 0xfe, 0x80, 0x90, b'\n'];
    match try_transcode(&odd) {
        TranscodeResult::Unsupported(t) => assert_eq!(t, vec![0xff, 0xfe, 0x80, 0x90]),
        other => panic!("unexpected {:?}", other),
    }
    assert_eq!(parse(&odd), None);
}

#[test]
fn version_tags_dispatch() {
    assert_eq!(version_tag(b"version 1.00\n"), MeshVersion::Canonical);
    assert_eq!(version_tag(b"version 3.01\n"), MeshVersion::V3);
    assert_eq!(version_tag(b"version 4.00\n"), MeshVersion::V4);
    assert_eq!(version_tag(b"version 4.02\n"), MeshVersion::Unknown);
    assert_eq!(version_tag(b"version 3,00\n"), MeshVersion::Unknown);
}

#[test]
fn truncated_vertex_array_is_truncated_input() {
    let verts = [vertex(1.0, 0), vertex(2.0, 1)];
    let file = v3_file("3.00", &verts, &[Face { a: 0, b: 1, c: 0 }], &[]);
    for cut in [12, 13, 20, 29, 29 + 48 + 10, file.len() - 1] {
        assert!(
            matches!(
                try_transcode(&file[..cut]),
                TranscodeResult::Error(DecodeError::TruncatedInput)
            ),
            "cut at {}",
            cut
        );
    }
    let v4 = v4_file("4.00", &verts, 1, &[], &[]);
    assert_eq!(decode_v4(&v4[..v4.len() - 3]).err(), Some(DecodeError::TruncatedInput));
}

#[test]
fn too_short_for_a_tag_is_truncated_input() {
    assert!(matches!(
        try_transcode(b"version"),
        TranscodeResult::Error(DecodeError::TruncatedInput)
    ));
    assert!(matches!(try_transcode(b""), TranscodeResult::Error(DecodeError::TruncatedInput)));
}

#[test]
fn wrong_declared_sizes_are_structural() {
    let mut file = v3_file("3.00", &[vertex(1.0, 0)], &[], &[]);
    file[13] = 17;
    assert_eq!(decode_v3(&file).err(), Some(DecodeError::StructuralMismatch));
    let mut file = v3_file("3.00", &[vertex(1.0, 0)], &[], &[]);
    file[15] = 40;
    assert_eq!(decode_v3(&file).err(), Some(DecodeError::StructuralMismatch));
    let mut file = v4_file("4.00", &[vertex(1.0, 0)], 0, &[], &[]);
    file[13] = 27;
    assert_eq!(decode_v4(&file).err(), Some(DecodeError::StructuralMismatch));
}

#[test]
fn huge_counts_fail_without_reading() {
    let mut file = v3_file("3.00", &[], &[], &[]);
    file[21..25].copy_from_slice(&u32::MAX.to_le_bytes());
    assert_eq!(decode_v3(&file).err(), Some(DecodeError::TruncatedInput));
}

#[test]
fn parse_bin_matches_version() {
    let verts = [vertex(3.0, 4)];
    let faces = [Face { a: 0, b: 0, c: 0 }];
    let v3 = v3_file("3.00", &verts, &faces, &[]);
    assert_eq!(parse_bin(&v3, MeshVersion::V3), Ok(canonical(&verts, &faces)));
    let v4 = v4_file("4.01", &verts, 0, &faces, &[]);
    assert_eq!(parse_bin(&v4, MeshVersion::V4), Ok(canonical(&verts, &faces)));
}

#[test]
fn constructv2_writes_canonical_layout() {
    let verts = vec![vertex(-1.0, 5), vertex(f32::MAX, 6)];
    let faces = vec![Face { a: 1, b: 0, c: 1 }, Face { a: 9, b: 8, c: 7 }];
    let out = constructv2(verts.clone(), faces.clone(), vec![2, 1]);
    assert_eq!(out, canonical(&verts, &faces[..1]));
    assert_eq!(out.len(), 13 + 12 + 2 * 48 + 12);
    let empty = constructv2(vec![], vec![], vec![]);
    assert_eq!(empty, canonical(&[], &[]));
    assert_eq!(&empty[13..25], &[12, 0, 48, 12, 0, 0, 0, 0, 0, 0, 0, 0]);
}

#[test]
fn canonical_output_decodes_back() {
    let verts = [vertex(f32::MIN_POSITIVE, 1), vertex(f32::NAN, 2)];
    let faces = [Face { a: u32::MAX, b: 0, c: 7 }];
    let file = v3_file("3.00", &verts, &faces, &[]);
    let out = parse(&file).unwrap();
    let mut cur = Cursor::new(&out);
    cur.seek_to(13).unwrap();
    let header = MeshHeader2 {
        header_size: cur.read_u16().unwrap(),
        vert_size: cur.read_u8().unwrap(),
        face_size: cur.read_u8().unwrap(),
        num_verts: cur.read_u32().unwrap(),
        num_faces: cur.read_u32().unwrap(),
    };
    assert_eq!(
        header,
        MeshHeader2 { header_size: 12, vert_size: 48, face_size: 12, num_verts: 2, num_faces: 1 }
    );
    for v in &verts {
        assert_eq!(Vertex::from_reader(&mut cur).unwrap(), *v);
    }
    assert_eq!(Face::from_reader(&mut cur).unwrap(), faces[0]);
    assert_eq!(cur.position(), out.len());
}

#[test]
fn cursor_reads_little_endian() {
    let data = [0x01u8, 0x02, 0x03, 0x04, 0xff];
    let mut cur = Cursor::new(&data);
    assert_eq!(cur.read_u16(), Ok(0x0201));
    cur.seek_to(0).unwrap();
    assert_eq!(cur.read_u32(), Ok(0x04030201));
    assert_eq!(cur.read_i8(), Ok(-1));
    assert_eq!(cur.read_u8(), Err(DecodeError::TruncatedInput));
    assert_eq!(cur.seek_to(6), Err(DecodeError::TruncatedInput));
    assert_eq!(cur.position(), 5);
    cur.seek_to(3).unwrap();
    assert_eq!(cur.read_u32(), Err(DecodeError::TruncatedInput));
    assert_eq!(cur.position(), 3);
    assert_eq!(cur.skip(2), Ok(()));
    assert_eq!(cur.skip(1), Err(DecodeError::TruncatedInput));
}

#[test]
fn header_records_decode_field_by_field() {
    let mut data = vec![16, 0, 48, 12, 2, 0, 3, 0, 5, 0, 0, 0, 6, 0, 0, 0];
    let mut cur = Cursor::new(&data);
    let h3 = MeshHeader3::from_reader(&mut cur).unwrap();
    assert_eq!(
        h3,
        MeshHeader3 {
            header_size: 16,
            vert_size: 48,
            face_size: 12,
            lod_size: 2,
            num_lod: 3,
            num_verts: 5,
            num_faces: 6
        }
    );
    data.extend_from_slice(&[1, 2, 3, 4, 5, 6, 7, 8, 9, 10, 11]);
    let mut cur = Cursor::new(&data);
    let h4 = MeshHeader4::from_reader(&mut cur).unwrap();
    assert_eq!(h4.header_size, 16);
    assert_eq!(h4.lod_type, 0x0c30);
    assert_eq!(h4.num_verts, 0x00030002);
    assert_eq!(h4.num_faces, 5);
    assert_eq!(h4.num_lod, 6);
    assert_eq!(h4.num_bones, 0);
    assert_eq!(h4.bone_names_buffer_size, 0x04030201);
    assert_eq!(h4.num_subsets, 0x0605);
    assert_eq!(h4.face_size, 7);
    assert_eq!(h4.lod_size, 0x0908);
    assert_eq!(h4.num_high_quality_lods, 10);
    assert_eq!(h4.unused, 11);
    assert_eq!(cur.position(), 27);
    let short = [0u8; 26];
    let mut cur = Cursor::new(&short);
    assert_eq!(MeshHeader4::from_reader(&mut cur).err(), Some(DecodeError::TruncatedInput));
}

#[test]
fn envelope_reads_bones_then_weights() {
    let data = [1u8, 2, 3, 4, 10, 20, 30, 40];
    let mut cur = Cursor::new(&data);
    let e: Envelope = Envelope::from_reader(&mut cur).unwrap();
    assert_eq!(e.bones, [1, 2, 3, 4]);
    assert_eq!(e.weights, [10, 20, 30, 40]);
    assert_eq!(cur.position(), 8);
    let mut cur = Cursor::new(&data[..7]);
    assert!(Envelope::from_reader(&mut cur).is_err());
}

#[test]
fn service_decisions() {
    assert!(is_mesh_asset(Some(4)));
    assert!(!is_mesh_asset(Some(5)));
    assert!(!is_mesh_asset(None));
    assert!(matches!(reply_for(TranscodeResult::Transcoded(vec![1, 2])), Reply::Octets(b) if b == vec![1, 2]));
    assert!(matches!(reply_for(TranscodeResult::PassThrough), Reply::RedirectToOriginal));
    assert!(matches!(
        reply_for(TranscodeResult::Error(DecodeError::TruncatedInput)),
        Reply::RedirectToOriginal
    ));
    assert_eq!(Params { id: 7 }.id, 7);
}

#[test]
fn v3_scenario_records_copied_byte_for_byte() {
    let mut file = b"version 3.00\n".to_vec();
    file.extend_from_slice(&[16, 0, 48, 12, 2, 0, 2, 0, 3, 0, 0, 0, 1, 0, 0, 0]);
    file.extend_from_slice(&[1u8; 48]);
    file.extend_from_slice(&[2u8; 48]);
    file.extend_from_slice(&[3u8; 48]);
    file.extend_from_slice(&[0, 0, 0, 0, 1, 0, 0, 0, 2, 0, 0, 0]);
    file.extend_from_slice(&[1, 0, 1, 0]);
    let out = parse(&file).unwrap();
    assert_eq!(&out[..13], b"version 2.00\n");
    assert_eq!(u32_at(&out, 17), 3);
    assert_eq!(u32_at(&out, 21), 1);
    assert_eq!(&out[25..25 + 144], &file[29..29 + 144]);
    assert_eq!(&out[169..181], &[0, 0, 0, 0, 1, 0, 0, 0, 2, 0, 0, 0]);
    assert_eq!(out.len(), 181);
}

fn v4_file_wide_header(verts: &[Vertex], face_size: u8, faces: &[Face]) -> Vec<u8> {
    let mut out = b"version 4.00\n".to_vec();
    out.extend_from_slice(&24u16.to_le_bytes());
    out.extend_from_slice(&0u16.to_le_bytes());
    out.extend_from_slice(&(verts.len() as u32).to_le_bytes());
    out.extend_from_slice(&(faces.len() as u32).to_le_bytes());
    out.extend_from_slice(&0u16.to_le_bytes());
    out.extend_from_slice(&0u16.to_le_bytes());
    out.extend_from_slice(&0u32.to_le_bytes());
    out.extend_from_slice(&0u16.to_le_bytes());
    out.push(face_size);
    out.extend_from_slice(&2u16.to_le_bytes());
    out.push(0);
    out.push(0);
    for v in verts {
        out.extend(vertex_record(v));
    }
    for f in faces {
        out.extend(face_record(f));
    }
    out
}

#[test]
fn v4_header_advance_choices() {
    let verts = [vertex(2.5, 1)];
    let faces = [Face { a: 0, b: 0, c: 0 }];
    let wide = v4_file_wide_header(&verts, 12, &faces);
    let mesh = decode_v4_with(&wide, HeaderAdvance::FieldWidths).unwrap();
    assert_eq!(mesh.vertices, verts.to_vec());
    assert_eq!(mesh.faces, faces.to_vec());
    let bad = v4_file_wide_header(&verts, 11, &faces);
    assert_eq!(
        decode_v4_with(&bad, HeaderAdvance::FieldWidths).err(),
        Some(DecodeError::StructuralMismatch)
    );
    let real = v4_file("4.00", &verts, 0, &faces, &[]);
    let mesh = decode_v4_with(&real, HeaderAdvance::DeclaredSize).unwrap();
    assert_eq!(mesh.vertices, verts.to_vec());
    assert_ne!(decode_v4_with(&real, HeaderAdvance::FieldWidths).ok().map(|m| m.vertices), Some(verts.to_vec()));
}
