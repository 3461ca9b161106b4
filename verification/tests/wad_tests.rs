use rqs::errors::FsError;
use rqs::wad::{Compression, LumpType, Wad};

fn push_i32(v: &mut Vec<u8>, x: i32) {
    for b in x.to_le_bytes() {
        v.push(b);
    }
}

fn lump_record(name: &str, file_pos: i32, disk_size: i32, size: i32, ty: u8, comp: u8) -> Vec<u8> {
    let mut v = Vec::new();
    push_i32(&mut v, file_pos);
    push_i32(&mut v, disk_size);
    push_i32(&mut v, size);
    v.push(ty);
    v.push(comp);
    v.push(0);
    v.push(0);
    let mut name_field = vec![0u8; 16];
    for (i, b) in name.as_bytes().iter().enumerate() {
        name_field[i] = *b;
    }
    v.extend_from_slice(&name_field);
    v
}

/// A small wad: a header, some payload bytes, then the lump table.
fn build_wad(magic: &[u8; 4], num_lumps: i32, records: &[Vec<u8>], payload: &[u8]) -> Vec<u8> {
    let mut v = Vec::new();
    v.extend_from_slice(magic);
    push_i32(&mut v, num_lumps);
    let table_offset = 12 + payload.len() as i32;
    push_i32(&mut v, table_offset);
    v.extend_from_slice(payload);
    for r in records {
        v.extend_from_slice(r);
    }
    v
}

#[test]
fn negative_lump_count_is_rejected() {
    let data = build_wad(b"WAD2", -1, &[], &[]);
    assert!(matches!(Wad::from_bytes(data), Err(FsError::MalformedArchive)));
}

#[test]
fn wrong_magic_is_rejected() {
    let data = build_wad(b"WAD3", 0, &[], &[]);
    assert!(matches!(Wad::from_bytes(data), Err(FsError::MalformedArchive)));
}

#[test]
fn table_past_the_end_is_rejected() {
    // Claims one lump, but holds no table at all.
    let mut v = Vec::new();
    v.extend_from_slice(b"WAD2");
    push_i32(&mut v, 1);
    push_i32(&mut v, 12);
    assert!(matches!(Wad::from_bytes(v), Err(FsError::MalformedArchive)));
}

#[test]
fn unknown_type_code_is_rejected() {
    let rec = lump_record("disc", 12, 2, 2, 99, 0);
    let data = build_wad(b"WAD2", 1, &[rec], b"ab");
    assert!(matches!(Wad::from_bytes(data), Err(FsError::MalformedArchive)));
}

#[test]
fn unknown_compression_code_is_rejected() {
    let rec = lump_record("disc", 12, 2, 2, 66, 7);
    let data = build_wad(b"WAD2", 1, &[rec], b"ab");
    assert!(matches!(Wad::from_bytes(data), Err(FsError::MalformedArchive)));
}

#[test]
fn lookup_is_case_insensitive() {
    let rec_a = lump_record("disc", 12, 4, 4, 66, 0);
    let rec_b = lump_record("conchars", 16, 2, 2, 0, 1);
    let data = build_wad(b"WAD2", 2, &[rec_a, rec_b], b"pictex");
    let wad = Wad::from_bytes(data).unwrap();

    let info = wad.lump_info("DISC").unwrap();
    assert_eq!(info.name(), "disc");
    assert_eq!(info.lump_type(), LumpType::Qpic);
    assert_eq!(info.compression(), Compression::Uncompressed);
    assert_eq!(info.disk_size(), 4);
    assert_eq!(info.size(), 4);

    let info = wad.lump_info("ConChars").unwrap();
    assert_eq!(info.compression(), Compression::Lzss);
    assert_eq!(info.lump_type(), LumpType::Untyped);

    assert!(matches!(wad.lump_info("nope"), Err(FsError::NotFound)));
}

#[test]
fn lump_data_comes_from_the_declared_range() {
    let rec_a = lump_record("disc", 12, 4, 4, 66, 0);
    let rec_b = lump_record("tail", 16, 2, 2, 66, 0);
    let data = build_wad(b"WAD2", 2, &[rec_a, rec_b], b"pictex");
    let wad = Wad::from_bytes(data).unwrap();

    assert_eq!(wad.data_for_lump_named("disc").unwrap(), b"pict");
    assert_eq!(wad.data_for_lump_named("TAIL").unwrap(), b"ex");
    assert_eq!(wad.data_for_lump_num(0).unwrap(), b"pict");
    assert_eq!(wad.data_for_lump_num(1).unwrap(), b"ex");
    assert!(matches!(wad.data_for_lump_num(2), Err(FsError::NotFound)));
    assert!(matches!(
        wad.data_for_lump_named("nope"),
        Err(FsError::NotFound)
    ));
}

#[test]
fn lump_range_outside_the_buffer_is_rejected_at_lookup() {
    // The record itself parses, but its data range runs past the buffer.
    let rec = lump_record("huge", 12, 4096, 4096, 66, 0);
    let data = build_wad(b"WAD2", 1, &[rec], b"xy");
    let wad = Wad::from_bytes(data).unwrap();
    assert!(matches!(
        wad.data_for_lump_named("huge"),
        Err(FsError::MalformedArchive)
    ));
    assert!(matches!(
        wad.data_for_lump_num(0),
        Err(FsError::MalformedArchive)
    ));
}

#[test]
fn lump_name_stops_at_first_nul() {
    let mut rec = lump_record("abc", 12, 1, 1, 0, 0);
    // Junk in the name field after the terminator is ignored.
    rec[16 + 4] = b'z';
    rec[16 + 15] = b'q';
    let data = build_wad(b"WAD2", 1, &[rec], b"x");
    let wad = Wad::from_bytes(data).unwrap();
    assert_eq!(wad.lump_info("abc").unwrap().name(), "abc");
}

#[test]
fn wad_asked_for_by_name_must_exist() {
    // A missing wad is an error, unlike the benign miss of a pack probe.
    assert!(matches!(Wad::load_from_resolved(None), Err(FsError::NotFound)));
    // Resolved bytes are parsed as usual.
    let rec = lump_record("disc", 12, 1, 1, 0, 0);
    let data = build_wad(b"WAD2", 1, &[rec], b"x");
    let wad = Wad::load_from_resolved(Some(data)).unwrap();
    assert_eq!(wad.lump_info("disc").unwrap().name(), "disc");
    let bad = build_wad(b"NOPE", 0, &[], &[]);
    assert!(matches!(
        Wad::load_from_resolved(Some(bad)),
        Err(FsError::MalformedArchive)
    ));
}

#[test]
fn lump_name_without_terminator_uses_whole_field() {
    // The name exactly fills the 16-byte field, with no NUL: the full
    // field is the name.
    let rec = lump_record("sixteencharslong", 12, 1, 1, 0, 0);
    let data = build_wad(b"WAD2", 1, &[rec], b"x");
    let wad = Wad::from_bytes(data).unwrap();
    assert_eq!(wad.lump_info("sixteencharslong").unwrap().name(), "sixteencharslong");

    // A NUL-free name field that is not valid text is rejected.
    let mut rec = lump_record("sixteencharslong", 12, 1, 1, 0, 0);
    rec[16 + 3] = 0xee;
    let data = build_wad(b"WAD2", 1, &[rec], b"x");
    assert!(matches!(Wad::from_bytes(data), Err(FsError::MalformedArchive)));
}
