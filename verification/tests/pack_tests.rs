use rqs::errors::FsError;
use rqs::pack::{FileInfo, Pack, PackHeader};

fn push_i32(v: &mut Vec<u8>, x: i32) {
    for b in x.to_le_bytes() {
        v.push(b);
    }
}

fn header_bytes(magic: &[u8; 4], dir_offset: i32, dir_len: i32) -> Vec<u8> {
    let mut v = Vec::new();
    v.extend_from_slice(magic);
    push_i32(&mut v, dir_offset);
    push_i32(&mut v, dir_len);
    v
}

fn record_bytes(name: &str, offset: i32, size: i32) -> Vec<u8> {
    let mut v = vec![0u8; 56];
    for (i, b) in name.as_bytes().iter().enumerate() {
        v[i] = *b;
    }
    push_i32(&mut v, offset);
    push_i32(&mut v, size);
    v
}

#[test]
fn header_parses_little_endian_fields() {
    let h = PackHeader::from_bytes(&header_bytes(b"PACK", 12, 128)).unwrap();
    assert_eq!(h.dir_offset, 12);
    assert_eq!(h.dir_len, 128);

    // Byte order matters: [1, 2, 0, 0] is 0x0201.
    let h = PackHeader::from_bytes(&header_bytes(b"PACK", 513, 0)).unwrap();
    assert_eq!(h.dir_offset, 0x0201);
}

#[test]
fn absent_pack_is_not_an_error() {
    // A probe that found no file is "absent", never an error.
    assert_eq!(Pack::load_begin(None), Ok(None));
    // A file that exists must carry a valid header.
    assert!(matches!(
        Pack::load_begin(Some(&header_bytes(b"JUNK", 0, 0))),
        Err(FsError::MalformedArchive)
    ));
    assert!(matches!(
        Pack::load_begin(Some(&header_bytes(b"PACK", 12, 64))),
        Ok(Some(_))
    ));
}

#[test]
fn header_wrong_magic_is_malformed() {
    let r = PackHeader::from_bytes(&header_bytes(b"JUNK", 12, 128));
    assert_eq!(r, Err(FsError::MalformedArchive));
}

#[test]
fn header_too_short_is_malformed() {
    let r = PackHeader::from_bytes(b"PACK");
    assert_eq!(r, Err(FsError::MalformedArchive));
}

#[test]
fn header_negative_fields_are_malformed() {
    let r = PackHeader::from_bytes(&header_bytes(b"PACK", -1, 128));
    assert_eq!(r, Err(FsError::MalformedArchive));
    let r = PackHeader::from_bytes(&header_bytes(b"PACK", 12, -64));
    assert_eq!(r, Err(FsError::MalformedArchive));
}

#[test]
fn header_over_the_ceiling_is_too_many_entries() {
    // 2049 records of 64 bytes each.
    let r = PackHeader::from_bytes(&header_bytes(b"PACK", 12, 2049 * 64));
    assert_eq!(r, Err(FsError::TooManyEntries));
    // Exactly 2048 is still fine.
    let h = PackHeader::from_bytes(&header_bytes(b"PACK", 12, 2048 * 64)).unwrap();
    assert_eq!(h.dir_len, 2048 * 64);
}

#[test]
fn record_name_stops_at_first_nul() {
    let mut raw = record_bytes("sound/items/r_item1.wav", 12, 6822);
    // Junk after the terminator is ignored.
    raw[30] = b'x';
    raw[31] = b'y';
    let fi = FileInfo::from_bytes(&raw).unwrap();
    assert_eq!(fi.name, "sound/items/r_item1.wav");
    assert_eq!(fi.offset, 12);
    assert_eq!(fi.size, 6822);
}

#[test]
fn record_without_terminator_uses_whole_field() {
    // No NUL anywhere in the 56-byte field: the full field is the name,
    // provided it is valid text.
    let mut raw = record_bytes("x", 7, 9);
    for i in 0..56 {
        raw[i] = b'a';
    }
    let fi = FileInfo::from_bytes(&raw).unwrap();
    assert_eq!(fi.name, "a".repeat(56));
    assert_eq!(fi.offset, 7);
    assert_eq!(fi.size, 9);

    // A NUL-free field that is not valid text is rejected.
    let mut raw = record_bytes("x", 7, 9);
    for i in 0..56 {
        raw[i] = b'a';
    }
    raw[20] = 0xff;
    assert!(matches!(
        FileInfo::from_bytes(&raw),
        Err(FsError::MalformedArchive)
    ));
}

#[test]
fn record_negative_fields_are_malformed() {
    let raw = record_bytes("foo", -5, 10);
    assert!(matches!(
        FileInfo::from_bytes(&raw),
        Err(FsError::MalformedArchive)
    ));
    let raw = record_bytes("foo", 5, -10);
    assert!(matches!(
        FileInfo::from_bytes(&raw),
        Err(FsError::MalformedArchive)
    ));
}

#[test]
fn directory_parse_and_lookup() {
    let mut dir = Vec::new();
    dir.extend_from_slice(&record_bytes("maps/e1m1.bsp", 100, 20));
    dir.extend_from_slice(&record_bytes("gfx/logo.lmp", 120, 30));
    // A duplicate of the first name with different data: the first match
    // in directory order wins.
    dir.extend_from_slice(&record_bytes("maps/e1m1.bsp", 999, 1));

    let pack = Pack::from_directory("id1/pak0.pak".to_string(), &dir).unwrap();
    assert_eq!(pack.path(), "id1/pak0.pak");
    assert_eq!(pack.file_infos.len(), 3);
    assert_eq!(pack.lookup("maps/e1m1.bsp"), Some((100, 20)));
    assert_eq!(pack.lookup("gfx/logo.lmp"), Some((120, 30)));
    assert_eq!(pack.lookup("nope"), None);
    // Pack lookup is case-sensitive.
    assert_eq!(pack.lookup("MAPS/E1M1.BSP"), None);
}

#[test]
fn directory_trailing_remainder_is_ignored() {
    let mut dir = Vec::new();
    dir.extend_from_slice(&record_bytes("one", 0, 1));
    // Ten stray bytes short of a full record.
    dir.extend_from_slice(&[7u8; 10]);
    let pack = Pack::from_directory("p".to_string(), &dir).unwrap();
    assert_eq!(pack.file_infos.len(), 1);
}

#[test]
fn directory_with_bad_record_is_malformed() {
    let mut dir = Vec::new();
    dir.extend_from_slice(&record_bytes("one", 0, 1));
    dir.extend_from_slice(&record_bytes("two", -1, 1));
    assert!(matches!(
        Pack::from_directory("p".to_string(), &dir),
        Err(FsError::MalformedArchive)
    ));
}
