use rqs::errors::FsError;
use rqs::fsys::{
    game_dir_plan, is_pack_path, require_explicit_pack, FileSys, Located, OverrideProbe,
    SearchPath,
};
use rqs::pack::{Pack, PackHeader};
use rqs::parms::Parms;
use rqs::reader::FsReader;

fn push_i32(v: &mut Vec<u8>, x: i32) {
    for b in x.to_le_bytes() {
        v.push(b);
    }
}

fn record_bytes(name: &str, offset: i32, size: i32) -> Vec<u8> {
    let mut v = vec![0u8; 56];
    for (i, b) in name.as_bytes().iter().enumerate() {
        v[i] = *b;
    }
    push_i32(&mut v, offset);
    push_i32(&mut v, size);
    v
}

fn make_pack(path: &str, entries: &[(&str, i32, i32)]) -> Pack {
    let mut dir = Vec::new();
    for (name, offset, size) in entries {
        dir.extend_from_slice(&record_bytes(name, *offset, *size));
    }
    Pack::from_directory(path.to_string(), &dir).unwrap()
}

fn no_parms() -> Parms {
    Parms::new(vec![], "cwd".into())
}

#[test]
fn scan_adds_one_entry_per_archive_found() {
    // The directory holds archives 0 and 1 and no archive 2: the scan
    // pushes exactly two pack entries and stops.
    let mut fs = FileSys::new(&no_parms());
    let mut scan = fs.begin_game_dir("id1".to_string());

    assert_eq!(scan.next_pack_path(), "id1/pak0.pak");
    assert!(scan.feed(&mut fs, Some(make_pack("id1/pak0.pak", &[("a", 0, 1)]))));
    assert_eq!(scan.next_pack_path(), "id1/pak1.pak");
    assert!(scan.feed(&mut fs, Some(make_pack("id1/pak1.pak", &[("b", 0, 1)]))));
    assert_eq!(scan.next_pack_path(), "id1/pak2.pak");
    assert!(!scan.feed(&mut fs, None));

    assert_eq!(fs.search_paths.len(), 3);
    assert_eq!(fs.game_dir, "id1");
    match &fs.search_paths[0] {
        SearchPath::Directory(d) => assert_eq!(d, "id1"),
        x => panic!("expected a directory search path for 'id1', got {:?}", x),
    }
    match &fs.search_paths[1] {
        SearchPath::Pack(p) => assert_eq!(p.path(), "id1/pak0.pak"),
        x => panic!("expected a pack search path for 'pak0.pak', got {:?}", x),
    }
    match &fs.search_paths[2] {
        SearchPath::Pack(p) => assert_eq!(p.path(), "id1/pak1.pak"),
        x => panic!("expected a pack search path for 'pak1.pak', got {:?}", x),
    }
}

#[test]
fn archive_wins_over_containing_directory() {
    // The name sits both in the directory (which the disk would confirm)
    // and in a later-numbered archive: resolution reaches the archive
    // first and never asks the disk.
    let mut fs = FileSys::new(&no_parms());
    let mut scan = fs.begin_game_dir("id1".to_string());
    scan.feed(&mut fs, Some(make_pack("id1/pak0.pak", &[("other", 5, 6)])));
    scan.feed(
        &mut fs,
        Some(make_pack("id1/pak1.pak", &[("maps/e1m1.bsp", 100, 20)])),
    );
    scan.feed(&mut fs, None);

    assert_eq!(
        fs.locate("maps/e1m1.bsp"),
        Located::InPack { pack_idx: 2, offset: 100, size: 20 }
    );

    // A name in no pack falls through to the directory.
    assert_eq!(fs.locate("progs/armor.mdl"), Located::MaybeOnDisk { dir_idx: 0 });

    // An empty stack resolves nothing.
    let empty = FileSys::new(&no_parms());
    assert_eq!(empty.locate("anything"), Located::Absent);
}

#[test]
fn skip_flag_excludes_exactly_the_top_entry() {
    let build = |proghack: bool| -> FileSys {
        let parms = if proghack {
            Parms::new(vec!["-proghack".into()], "cwd".into())
        } else {
            no_parms()
        };
        let mut fs = FileSys::new(&parms);
        let mut scan = fs.begin_game_dir("id1".to_string());
        scan.feed(&mut fs, Some(make_pack("id1/pak0.pak", &[("shared", 1, 2)])));
        scan.feed(
            &mut fs,
            Some(make_pack("id1/pak1.pak", &[("shared", 3, 4), ("top_only", 5, 6)])),
        );
        scan.feed(&mut fs, None);
        fs
    };

    let plain = build(false);
    let skipping = build(true);

    // Without the flag the top archive answers.
    assert_eq!(
        plain.locate("shared"),
        Located::InPack { pack_idx: 2, offset: 3, size: 4 }
    );
    // With the flag the top archive is excluded and the next one answers.
    assert_eq!(
        skipping.locate("shared"),
        Located::InPack { pack_idx: 1, offset: 1, size: 2 }
    );
    // A name only the skipped entry holds falls through to the directory.
    assert_eq!(skipping.locate("top_only"), Located::MaybeOnDisk { dir_idx: 0 });
    // Entries below the top behave as without the flag.
    assert_eq!(plain.locate_from("shared", 2), skipping.locate("shared"));
}

#[test]
fn resolved_pack_file_reads_back_its_declared_bytes() {
    // A synthetic pack whose payload is a RIFF-tagged sound: resolving the
    // name yields the directory-declared range, and a bounded reader over
    // the pack's bytes returns exactly those bytes.
    let payload = b"RIFFwavedata";
    let name = "sound/items/r_item1.wav";

    // Pack layout: 12-byte header, payload, then the directory.
    let mut pack_bytes = Vec::new();
    pack_bytes.extend_from_slice(b"PACK");
    let dir_offset = 12 + payload.len() as i32;
    push_i32(&mut pack_bytes, dir_offset);
    push_i32(&mut pack_bytes, 64);
    pack_bytes.extend_from_slice(payload);
    pack_bytes.extend_from_slice(&record_bytes(name, 12, payload.len() as i32));

    let header = PackHeader::from_bytes(&pack_bytes).unwrap();
    assert_eq!(header.dir_offset, dir_offset as u64);
    assert_eq!(header.dir_len, 64);
    let dir_start = header.dir_offset as usize;
    let dir = &pack_bytes[dir_start..dir_start + header.dir_len];
    let pack = Pack::from_directory("id1/pak0.pak".to_string(), dir).unwrap();

    let mut fs = FileSys::new(&no_parms());
    let mut scan = fs.begin_game_dir("id1".to_string());
    scan.feed(&mut fs, Some(pack));
    scan.feed(&mut fs, None);

    let (offset, size) = match fs.locate(name) {
        Located::InPack { offset, size, .. } => (offset, size),
        x => panic!("expected a pack hit, got {:?}", x),
    };
    assert_eq!(size, payload.len());

    let mut reader = FsReader::for_pack_file(offset, size);
    let bytes = reader.read_bytes(&pack_bytes, 1000);
    assert_eq!(bytes.len(), size);
    assert_eq!(&bytes[0..4], b"RIFF");
    assert_eq!(&bytes[..], payload);
}

#[test]
fn pack_paths_are_told_by_suffix() {
    assert!(is_pack_path("id1/pak0.pak"));
    assert!(is_pack_path(".pak"));
    assert!(!is_pack_path("id1"));
    assert!(!is_pack_path("archive.pak0"));
    assert!(!is_pack_path("pak"));
}

#[test]
fn explicit_pack_must_exist() {
    assert!(matches!(
        require_explicit_pack(None),
        Err(FsError::ExplicitPathMissing)
    ));
    let p = make_pack("x.pak", &[("a", 0, 1)]);
    assert!(matches!(require_explicit_pack(Some(p)), Ok(_)));
}

#[test]
fn path_override_replaces_the_automatic_stack() {
    // Build the automatic stack first, then apply an explicit override:
    // the override replaces everything, in list order.
    let mut fs = FileSys::new(&no_parms());
    let mut scan = fs.begin_game_dir("id1".to_string());
    scan.feed(&mut fs, Some(make_pack("id1/pak0.pak", &[("a", 0, 1)])));
    scan.feed(&mut fs, None);
    assert_eq!(fs.search_paths.len(), 2);

    let probes = vec![
        OverrideProbe::Directory("mymod".to_string()),
        OverrideProbe::Archive(Some(make_pack("extra.pak", &[("b", 2, 3)]))),
        OverrideProbe::Directory("more".to_string()),
    ];
    fs.apply_path_overrides(probes).unwrap();

    assert_eq!(fs.search_paths.len(), 3);
    match &fs.search_paths[0] {
        SearchPath::Directory(d) => assert_eq!(d, "mymod"),
        x => panic!("expected a directory entry, got {:?}", x),
    }
    match &fs.search_paths[1] {
        SearchPath::Pack(p) => assert_eq!(p.path(), "extra.pak"),
        x => panic!("expected a pack entry, got {:?}", x),
    }
    match &fs.search_paths[2] {
        SearchPath::Directory(d) => assert_eq!(d, "more"),
        x => panic!("expected a directory entry, got {:?}", x),
    }
}

#[test]
fn path_override_with_missing_archive_fails_loudly() {
    let mut fs = FileSys::new(&no_parms());
    let probes = vec![
        OverrideProbe::Directory("mymod".to_string()),
        OverrideProbe::Archive(None),
        OverrideProbe::Directory("more".to_string()),
    ];
    let r = fs.apply_path_overrides(probes);
    assert!(matches!(r, Err(FsError::ExplicitPathMissing)));
    // The build stops at the missing archive.
    assert_eq!(fs.search_paths.len(), 1);
    match &fs.search_paths[0] {
        SearchPath::Directory(d) => assert_eq!(d, "mymod"),
        x => panic!("expected a directory entry, got {:?}", x),
    }
}

#[test]
fn game_dir_plan_follows_the_switches() {
    let parms = Parms::new(
        vec![
            "-basedir".into(),
            "/quake".into(),
            "-rogue".into(),
            "-game".into(),
            "mymod".into(),
        ],
        "cwd".into(),
    );
    assert_eq!(
        game_dir_plan(&parms),
        vec!["/quake/id1", "/quake/rogue", "/quake/mymod"]
    );

    let parms = Parms::new(vec!["-hipnotic".into()], "thecwd".into());
    assert_eq!(game_dir_plan(&parms), vec!["thecwd/id1", "thecwd/hipnotic"]);
}
