//! The pack container: a bundle of named files, a bit like a tar archive.
//!
//! On disk a pack starts with a 12-byte header (4-byte magic, then the
//! directory's offset and byte length as little-endian signed 32-bit
//! integers) and holds a directory of fixed 64-byte records, each naming one
//! contained file with its offset and size. Reading the header and the
//! directory bytes is the caller's concern; everything here works on plain
//! bytes.

use crate::codec::{le_i32_of, read_i32_at};
use crate::errors::FsError;
use crate::try_from_temp::TryFromTemp;
use crate::util::{field_name, name_field_to_string};
use vstd::prelude::*;
use vstd::slice::slice_subrange;

verus! {

/// The hard ceiling on the number of files in one pack.
pub const MAX_FILES_IN_PACK: usize = 2048;

/// The size of one directory record on disk.
pub const FILE_INFO_SIZE_ON_DISK: usize = 64;

/// The size of the pack header on disk.
pub const PACK_HEADER_SIZE: usize = 12;

/// Do the bytes start with the pack magic, the ASCII letters `PACK`?
pub open spec fn pack_magic_ok(d: Seq<u8>) -> bool {
    d.len() >= 4 && d[0] == 80u8 && d[1] == 65u8 && d[2] == 67u8 && d[3] == 75u8
}

/// The pack header a 12-byte prefix parses to: magic checked, both fields
/// non-negative. `None` when the bytes are not a valid pack header.
pub open spec fn spec_parse_pack_header(d: Seq<u8>) -> Option<PackHeader> {
    if d.len() < PACK_HEADER_SIZE {
        None
    } else if !pack_magic_ok(d) {
        None
    } else {
        let off = le_i32_of(d.subrange(4, 8));
        let len = le_i32_of(d.subrange(8, 12));
        if off < 0 || len < 0 {
            None
        } else {
            Some(PackHeader { dir_offset: off as u64, dir_len: len as usize })
        }
    }
}

/// The pack header: where the directory sits and how long it is.
#[derive(Clone, Copy, Debug, PartialEq, Eq, Structural)]
pub struct PackHeader {
    /// Offset of the file information table within the pack.
    pub dir_offset: u64,
    /// Size of the file information table, in bytes.
    pub dir_len: usize,
}

impl PackHeader {
    /// How many directory records the table declares; a remainder short of
    /// one record is ignored.
    pub open spec fn spec_num_files(self) -> int {
        self.dir_len as int / FILE_INFO_SIZE_ON_DISK as int
    }

    /// Parse the header from the first bytes of a pack file.
    ///
    /// The magic must match, both fields must be non-negative, and the
    /// declared record count must stay under the ceiling.
    pub fn from_bytes(d: &[u8]) -> (r: Result<PackHeader, FsError>)
        ensures
            match r {
                Ok(h) => spec_parse_pack_header(d@) == Some(h) && h.spec_num_files()
                    <= MAX_FILES_IN_PACK,
                Err(e) => (e == FsError::MalformedArchive && spec_parse_pack_header(d@) is None)
                    || (e == FsError::TooManyEntries && match spec_parse_pack_header(d@) {
                        Some(h) => h.spec_num_files() > MAX_FILES_IN_PACK,
                        None => false,
                    }),
            },
    {
        if d.len() < PACK_HEADER_SIZE {
            return Err(FsError::MalformedArchive);
        }
        if !(d[0] == 80u8 && d[1] == 65u8 && d[2] == 67u8 && d[3] == 75u8) {
            return Err(FsError::MalformedArchive);
        }
        let off_raw = read_i32_at(d, 4);
        let len_raw = read_i32_at(d, 8);
        let dir_offset = match <u64 as TryFromTemp<i32>>::try_from_temp(off_raw) {
            Ok(v) => v,
            Err(_) => {
                return Err(FsError::MalformedArchive);
            },
        };
        let dir_len = match <usize as TryFromTemp<i32>>::try_from_temp(len_raw) {
            Ok(v) => v,
            Err(_) => {
                return Err(FsError::MalformedArchive);
            },
        };
        let h = PackHeader { dir_offset, dir_len };
        if dir_len / FILE_INFO_SIZE_ON_DISK > MAX_FILES_IN_PACK {
            return Err(FsError::TooManyEntries);
        }
        Ok(h)
    }
}

/// What one directory record holds, at the specification level.
pub ghost struct FileInfoV {
    /// The contained file's name.
    pub name: Seq<char>,
    /// Offset of the start of the file within the pack.
    pub offset: u64,
    /// Size of the file, in bytes.
    pub size: usize,
}

/// Information about a file stored within a pack.
#[derive(Debug)]
pub struct FileInfo {
    /// The contained file's name.
    pub name: String,
    /// Offset of the start of the file within the pack.
    pub offset: u64,
    /// Size of the file, in bytes.
    pub size: usize,
}

impl View for FileInfo {
    type V = FileInfoV;

    open spec fn view(&self) -> FileInfoV {
        FileInfoV { name: self.name@, offset: self.offset, size: self.size }
    }
}

impl DeepView for FileInfo {
    type V = FileInfoV;

    open spec fn deep_view(&self) -> FileInfoV {
        self.view()
    }
}

/// The record a 64-byte directory entry parses to: a NUL-padded name (or a
/// name filling the whole field when no NUL byte occurs), then the file's
/// offset and size, both required non-negative. `None` when the record is
/// invalid.
pub open spec fn spec_parse_file_info(d: Seq<u8>) -> Option<FileInfoV> {
    if d.len() != FILE_INFO_SIZE_ON_DISK {
        None
    } else {
        let off = le_i32_of(d.subrange(56, 60));
        let sz = le_i32_of(d.subrange(60, 64));
        if off < 0 || sz < 0 {
            None
        } else {
            match field_name(d.subrange(0, 56)) {
                None => None,
                Some(nm) => Some(FileInfoV { name: nm, offset: off as u64, size: sz as usize }),
            }
        }
    }
}

impl FileInfo {
    /// Parse one 64-byte directory record.
    pub fn from_bytes(d: &[u8]) -> (r: Result<FileInfo, FsError>)
        ensures
            match r {
                Ok(fi) => spec_parse_file_info(d@) == Some(fi@),
                Err(e) => e == FsError::MalformedArchive && spec_parse_file_info(d@) is None,
            },
    {
        if d.len() != FILE_INFO_SIZE_ON_DISK {
            return Err(FsError::MalformedArchive);
        }
        let name = match name_field_to_string(slice_subrange(d, 0, 56)) {
            Ok(s) => s,
            Err(_) => {
                return Err(FsError::MalformedArchive);
            },
        };
        let off_raw = read_i32_at(d, 56);
        let sz_raw = read_i32_at(d, 60);
        let offset = match <u64 as TryFromTemp<i32>>::try_from_temp(off_raw) {
            Ok(v) => v,
            Err(_) => {
                return Err(FsError::MalformedArchive);
            },
        };
        let size = match <usize as TryFromTemp<i32>>::try_from_temp(sz_raw) {
            Ok(v) => v,
            Err(_) => {
                return Err(FsError::MalformedArchive);
            },
        };
        Ok(FileInfo { name, offset, size })
    }
}

/// The 64-byte slice of `d` holding record `i`.
pub open spec fn pack_record(d: Seq<u8>, i: int) -> Seq<u8> {
    d.subrange(FILE_INFO_SIZE_ON_DISK * i, FILE_INFO_SIZE_ON_DISK * i + FILE_INFO_SIZE_ON_DISK)
}

/// The records a directory's bytes parse to: `d.len() / 64` of them, all
/// required valid; a trailing remainder short of one record is ignored.
pub open spec fn spec_parse_pack_dir(d: Seq<u8>) -> Option<Seq<FileInfoV>> {
    let count = d.len() as int / FILE_INFO_SIZE_ON_DISK as int;
    if exists|i: int| 0 <= i < count && spec_parse_file_info(#[trigger] pack_record(d, i)) is None {
        None
    } else {
        Some(Seq::new(count as nat, |i: int| spec_parse_file_info(pack_record(d, i))->Some_0))
    }
}

/// An index of a pack file: its location on disk and the parsed directory.
///
/// The open handle that serves later data reads stays with the caller; a
/// `Pack` holds what the directory says.
#[derive(Debug)]
pub struct Pack {
    /// The location of this pack file.
    pub file_path: String,
    /// Information about each file contained within the pack.
    pub file_infos: Vec<FileInfo>,
}

/// The first index of `entries` at or after `i` whose name reads `name`, or
/// `entries.len()` if none does. Lookup is case-sensitive.
pub open spec fn entry_scan(entries: Seq<FileInfo>, name: Seq<char>, i: int) -> int
    recommends
        0 <= i <= entries.len(),
    decreases entries.len() - i,
{
    if i < 0 || i >= entries.len() {
        entries.len() as int
    } else if entries[i].name@ == name {
        i
    } else {
        entry_scan(entries, name, i + 1)
    }
}

pub proof fn lemma_entry_scan(entries: Seq<FileInfo>, name: Seq<char>, i: int)
    requires
        0 <= i <= entries.len(),
    ensures
        i <= entry_scan(entries, name, i) <= entries.len(),
        forall|j: int| i <= j < entry_scan(entries, name, i) ==> entries[j].name@ != name,
        entry_scan(entries, name, i) < entries.len() ==> entries[entry_scan(
            entries,
            name,
            i,
        )].name@ == name,
    decreases entries.len() - i,
{
    if i < entries.len() && entries[i].name@ != name {
        lemma_entry_scan(entries, name, i + 1);
    }
}

/// What looking a name up in a pack directory yields: the offset and size
/// of the first entry whose name matches exactly, scanning in directory
/// order.
pub open spec fn lookup_spec(entries: Seq<FileInfo>, name: Seq<char>) -> Option<(u64, usize)> {
    let i = entry_scan(entries, name, 0);
    if i < entries.len() {
        Some((entries[i].offset, entries[i].size))
    } else {
        None
    }
}

impl Pack {
    /// The first step of loading a pack from a probed path.
    ///
    /// `header` is the file's first bytes, or `None` when no file exists at
    /// the path. Absence is an expected, benign outcome during automatic
    /// directory scanning, so it comes back as `Ok(None)`, never as an
    /// error; a file that does exist must carry a valid header.
    pub fn load_begin(header: Option<&[u8]>) -> (r: Result<Option<PackHeader>, FsError>)
        ensures
            match header {
                Option::None => r == Ok::<Option<PackHeader>, FsError>(None),
                Option::Some(d) => match r {
                    Ok(Some(h)) => spec_parse_pack_header(d@) == Some(h) && h.spec_num_files()
                        <= MAX_FILES_IN_PACK,
                    Ok(None) => false,
                    Err(e) => (e == FsError::MalformedArchive && spec_parse_pack_header(
                        d@,
                    ) is None) || (e == FsError::TooManyEntries
                        && match spec_parse_pack_header(d@) {
                        Some(h) => h.spec_num_files() > MAX_FILES_IN_PACK,
                        None => false,
                    }),
                },
            },
    {
        match header {
            None => Ok(None),
            Some(d) => match PackHeader::from_bytes(d) {
                Ok(h) => Ok(Some(h)),
                Err(e) => Err(e),
            },
        }
    }

    /// Parse a pack directory.
    ///
    /// `dir` holds the directory's bytes, read from the offset the header
    /// gave; `path` records where the pack lives. Every record must parse;
    /// bytes short of a full trailing record are ignored, and the record
    /// count must stay under the ceiling.
    pub fn from_directory(path: String, dir: &[u8]) -> (r: Result<Pack, FsError>)
        ensures
            match r {
                Ok(p) => {
                    &&& dir@.len() as int / FILE_INFO_SIZE_ON_DISK as int
                        <= MAX_FILES_IN_PACK
                    &&& spec_parse_pack_dir(dir@) == Some(p.file_infos.deep_view())
                    &&& p.file_path@ == path@
                },
                Err(e) => (e == FsError::TooManyEntries && dir@.len() as int
                    / FILE_INFO_SIZE_ON_DISK as int > MAX_FILES_IN_PACK) || (e
                    == FsError::MalformedArchive && dir@.len() as int
                    / FILE_INFO_SIZE_ON_DISK as int <= MAX_FILES_IN_PACK
                    && spec_parse_pack_dir(dir@) is None),
            },
    {
        let num_pack_files = dir.len() / FILE_INFO_SIZE_ON_DISK;
        if num_pack_files > MAX_FILES_IN_PACK {
            return Err(FsError::TooManyEntries);
        }
        let ghost d = dir@;
        let mut file_infos: Vec<FileInfo> = Vec::new();
        let mut i: usize = 0;
        while i < num_pack_files
            invariant
                0 <= i <= num_pack_files,
                num_pack_files == d.len() as int / FILE_INFO_SIZE_ON_DISK as int,
                num_pack_files <= MAX_FILES_IN_PACK,
                d.len() <= usize::MAX,
                d == dir@,
                file_infos@.len() == i,
                forall|j: int|
                    0 <= j < i ==> spec_parse_file_info(#[trigger] pack_record(d, j))
                        == Some(file_infos@[j]@),
            decreases num_pack_files - i,
        {
            let rec = slice_subrange(dir, i * FILE_INFO_SIZE_ON_DISK, (i + 1)
                * FILE_INFO_SIZE_ON_DISK);
            proof {
                assert(rec@ =~= pack_record(d, i as int));
            }
            match FileInfo::from_bytes(rec) {
                Ok(fi) => {
                    file_infos.push(fi);
                },
                Err(e) => {
                    proof {
                        assert(spec_parse_file_info(pack_record(d, i as int)) is None);
                    }
                    return Err(e);
                },
            }
            i += 1;
        }
        let p = Pack { file_path: path, file_infos };
        proof {
            assert(forall|j: int|
                0 <= j < num_pack_files ==> spec_parse_file_info(
                    #[trigger] pack_record(d, j),
                ) is Some);
            assert(spec_parse_pack_dir(d) == Some(p.file_infos.deep_view())) by {
                assert(p.file_infos.deep_view() =~= Seq::new(
                    (d.len() as int / FILE_INFO_SIZE_ON_DISK as int) as nat,
                    |i: int| spec_parse_file_info(pack_record(d, i))->Some_0,
                ));
            }
        }
        Ok(p)
    }

    /// The location of this pack file on disk.
    pub fn path(&self) -> (r: &str)
        ensures
            r@ == self.file_path@,
    {
        self.file_path.as_str()
    }

    /// Look a name up in the directory: the offset and size of the first
    /// entry whose name matches exactly, in directory order.
    pub fn lookup(&self, name: &str) -> (r: Option<(u64, usize)>)
        ensures
            r == lookup_spec(self.file_infos@, name@),
    {
        let ghost entries = self.file_infos@;
        let mut i: usize = 0;
        while i < self.file_infos.len() && !crate::util::str_eq(
            self.file_infos[i].name.as_str(),
            name,
        )
            invariant
                0 <= i <= entries.len(),
                entries == self.file_infos@,
                entry_scan(entries, name@, 0) == entry_scan(entries, name@, i as int),
            decreases entries.len() - i,
        {
            proof {
                assert(entry_scan(entries, name@, i as int) == entry_scan(
                    entries,
                    name@,
                    i + 1,
                ));
            }
            i += 1;
        }
        proof {
            lemma_entry_scan(entries, name@, 0);
        }
        if i < self.file_infos.len() {
            Some((self.file_infos[i].offset, self.file_infos[i].size))
        } else {
            None
        }
    }
}

} // verus!
