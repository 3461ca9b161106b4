//! The lump container ("wad"): typed, optionally compressed, named
//! resource records.
//!
//! A wad is loaded into memory whole. It starts with a 12-byte header
//! (4-byte magic, then the lump count and the lump table's offset as
//! little-endian signed 32-bit integers) and holds a table of fixed 32-byte
//! records, each describing one lump: where its data sits, its sizes, its
//! kind, its compression, and its NUL-padded 16-byte name. Lump names are
//! compared ignoring ASCII case.

use crate::codec::{le_i32_of, read_i32_at};
use crate::errors::FsError;
use crate::try_from_temp::TryFromTemp;
use crate::util::{eq_icase, field_name, name_field_to_string, str_eq_ignore_ascii_case};
use vstd::prelude::*;
use vstd::slice::slice_subrange;

verus! {

/// The size of the wad header on disk.
pub const WAD_HEADER_SIZE: usize = 12;

/// The size of one lump record on disk.
pub const LUMP_INFO_SIZE: usize = 32;

/// The kind of compression that has been applied to a lump.
#[derive(Clone, Copy, Debug, PartialEq, Eq, Structural)]
pub enum Compression {
    /// No compression.
    Uncompressed,
    /// LZSS compression.
    Lzss,
}

/// The compression a code byte stands for, if any.
pub open spec fn spec_compression(n: u8) -> Option<Compression> {
    if n == 0 {
        Some(Compression::Uncompressed)
    } else if n == 1 {
        Some(Compression::Lzss)
    } else {
        None
    }
}

impl Compression {
    /// Decode the compression code byte; any unknown code is rejected.
    pub fn try_from(n: u8) -> (r: Result<Compression, FsError>)
        ensures
            match r {
                Ok(c) => spec_compression(n) == Some(c),
                Err(e) => e == FsError::MalformedArchive && spec_compression(n) is None,
            },
    {
        match n {
            0 => Ok(Compression::Uncompressed),
            1 => Ok(Compression::Lzss),
            _ => Err(FsError::MalformedArchive),
        }
    }
}

/// The kind of data that a lump contains.
#[derive(Clone, Copy, Debug, PartialEq, Eq, Structural)]
pub enum LumpType {
    /// No particular kind.
    Untyped,
    /// A label.
    Label,
    /// A palette.
    Palette,
    /// A texture-coordinate set.
    Qtex,
    /// A picture.
    Qpic,
    /// A sound.
    Sound,
    /// A mip-mapped texture.
    Miptex,
}

/// The lump kind a code byte stands for, if any.
pub open spec fn spec_lump_type(n: u8) -> Option<LumpType> {
    if n == 0 {
        Some(LumpType::Untyped)
    } else if n == 1 {
        Some(LumpType::Label)
    } else if n == 64 {
        Some(LumpType::Palette)
    } else if n == 65 {
        Some(LumpType::Qtex)
    } else if n == 66 {
        Some(LumpType::Qpic)
    } else if n == 67 {
        Some(LumpType::Sound)
    } else if n == 68 {
        Some(LumpType::Miptex)
    } else {
        None
    }
}

impl LumpType {
    /// Decode the lump kind code byte; any unknown code is rejected.
    pub fn try_from(n: u8) -> (r: Result<LumpType, FsError>)
        ensures
            match r {
                Ok(t) => spec_lump_type(n) == Some(t),
                Err(e) => e == FsError::MalformedArchive && spec_lump_type(n) is None,
            },
    {
        match n {
            0 => Ok(LumpType::Untyped),
            1 => Ok(LumpType::Label),
            64 => Ok(LumpType::Palette),
            65 => Ok(LumpType::Qtex),
            66 => Ok(LumpType::Qpic),
            67 => Ok(LumpType::Sound),
            68 => Ok(LumpType::Miptex),
            _ => Err(FsError::MalformedArchive),
        }
    }
}

/// What one lump record holds, at the specification level.
pub ghost struct LumpInfoV {
    /// Offset of the lump's data within the wad.
    pub file_pos: usize,
    /// Size of the data on disk, in bytes.
    pub disk_size: usize,
    /// Size of the data once uncompressed, in bytes.
    pub size: usize,
    /// The kind of data the lump contains.
    pub lump_type: LumpType,
    /// The compression applied to the data.
    pub compression: Compression,
    /// The lump's name.
    pub name: Seq<char>,
}

/// Information about a lump.
#[derive(Debug)]
pub struct LumpInfo {
    /// Offset of the lump's data within the wad.
    pub file_pos: usize,
    /// Size of the data on disk, in bytes.
    pub disk_size: usize,
    /// Size of the data once uncompressed, in bytes.
    pub size: usize,
    /// The kind of data the lump contains.
    pub lump_type: LumpType,
    /// The compression applied to the data.
    pub compression: Compression,
    /// The lump's name.
    pub name: String,
}

impl View for LumpInfo {
    type V = LumpInfoV;

    open spec fn view(&self) -> LumpInfoV {
        LumpInfoV {
            file_pos: self.file_pos,
            disk_size: self.disk_size,
            size: self.size,
            lump_type: self.lump_type,
            compression: self.compression,
            name: self.name@,
        }
    }
}

impl DeepView for LumpInfo {
    type V = LumpInfoV;

    open spec fn deep_view(&self) -> LumpInfoV {
        self.view()
    }
}

/// The record a 32-byte lump entry parses to: position and sizes required
/// non-negative, kind and compression codes required known, and a
/// NUL-padded name (or one filling the whole field when no NUL byte
/// occurs). `None` when the record is invalid.
pub open spec fn spec_parse_lump(d: Seq<u8>) -> Option<LumpInfoV> {
    if d.len() != LUMP_INFO_SIZE {
        None
    } else {
        let pos = le_i32_of(d.subrange(0, 4));
        let dsz = le_i32_of(d.subrange(4, 8));
        let sz = le_i32_of(d.subrange(8, 12));
        if pos < 0 || dsz < 0 || sz < 0 {
            None
        } else {
            match (spec_lump_type(d[12]), spec_compression(d[13])) {
                (Some(t), Some(c)) => match field_name(d.subrange(16, 32)) {
                    None => None,
                    Some(nm) => Some(
                        LumpInfoV {
                            file_pos: pos as usize,
                            disk_size: dsz as usize,
                            size: sz as usize,
                            lump_type: t,
                            compression: c,
                            name: nm,
                        },
                    ),
                },
                _ => None,
            }
        }
    }
}

impl LumpInfo {
    /// Parse one 32-byte lump record.
    pub fn from_bytes(d: &[u8]) -> (r: Result<LumpInfo, FsError>)
        ensures
            match r {
                Ok(li) => spec_parse_lump(d@) == Some(li@),
                Err(e) => e == FsError::MalformedArchive && spec_parse_lump(d@) is None,
            },
    {
        if d.len() != LUMP_INFO_SIZE {
            return Err(FsError::MalformedArchive);
        }
        let pos_raw = read_i32_at(d, 0);
        let dsz_raw = read_i32_at(d, 4);
        let sz_raw = read_i32_at(d, 8);
        let file_pos = match <usize as TryFromTemp<i32>>::try_from_temp(pos_raw) {
            Ok(v) => v,
            Err(_) => {
                return Err(FsError::MalformedArchive);
            },
        };
        let disk_size = match <usize as TryFromTemp<i32>>::try_from_temp(dsz_raw) {
            Ok(v) => v,
            Err(_) => {
                return Err(FsError::MalformedArchive);
            },
        };
        let size = match <usize as TryFromTemp<i32>>::try_from_temp(sz_raw) {
            Ok(v) => v,
            Err(_) => {
                return Err(FsError::MalformedArchive);
            },
        };
        let lump_type = match LumpType::try_from(d[12]) {
            Ok(t) => t,
            Err(e) => {
                return Err(e);
            },
        };
        let compression = match Compression::try_from(d[13]) {
            Ok(c) => c,
            Err(e) => {
                return Err(e);
            },
        };
        let name = match name_field_to_string(slice_subrange(d, 16, 32)) {
            Ok(s) => s,
            Err(e) => {
                return Err(e);
            },
        };
        Ok(LumpInfo { file_pos, disk_size, size, lump_type, compression, name })
    }

    /// The number of bytes that this lump occupies on disk.
    pub fn disk_size(&self) -> (r: usize)
        ensures
            r == self.disk_size,
    {
        self.disk_size
    }

    /// The number of bytes that this lump will occupy in memory once
    /// decompressed. May equal the on-disk size.
    pub fn size(&self) -> (r: usize)
        ensures
            r == self.size,
    {
        self.size
    }

    /// The kind of data that the lump contains.
    pub fn lump_type(&self) -> (r: LumpType)
        ensures
            r == self.lump_type,
    {
        self.lump_type
    }

    /// The kind of compression the lump is using, if any.
    pub fn compression(&self) -> (r: Compression)
        ensures
            r == self.compression,
    {
        self.compression
    }

    /// The name of the lump.
    pub fn name(&self) -> (r: &str)
        ensures
            r@ == self.name@,
    {
        self.name.as_str()
    }
}

/// Does the wad header carry its magic, the ASCII letters `WAD2`?
pub open spec fn wad_magic_ok(d: Seq<u8>) -> bool {
    d.len() >= 4 && d[0] == 87u8 && d[1] == 65u8 && d[2] == 68u8 && d[3] == 50u8
}

/// The 32-byte slice of `d` holding lump record `i` of the table at `off`.
pub open spec fn lump_record(d: Seq<u8>, off: int, i: int) -> Seq<u8> {
    d.subrange(off + LUMP_INFO_SIZE * i, off + LUMP_INFO_SIZE * i + LUMP_INFO_SIZE)
}

/// The lump records a whole wad file parses to: the magic must match, the
/// count and table offset must be non-negative, the table must lie inside
/// the file, and every record must be valid.
pub open spec fn spec_parse_wad(d: Seq<u8>) -> Option<Seq<LumpInfoV>> {
    if d.len() < WAD_HEADER_SIZE {
        None
    } else if !wad_magic_ok(d) {
        None
    } else {
        let n = le_i32_of(d.subrange(4, 8));
        let off = le_i32_of(d.subrange(8, 12));
        if n < 0 || off < 0 {
            None
        } else if off + LUMP_INFO_SIZE * n > d.len() {
            None
        } else if exists|i: int|
            0 <= i < n && spec_parse_lump(#[trigger] lump_record(d, off, i)) is None {
            None
        } else {
            Some(Seq::new(n as nat, |i: int| spec_parse_lump(lump_record(d, off, i))->Some_0))
        }
    }
}

/// The first index of `lumps` at or after `i` whose name equals `name` up
/// to ASCII case, or `lumps.len()` if none does.
pub open spec fn lump_scan(lumps: Seq<LumpInfo>, name: Seq<char>, i: int) -> int
    recommends
        0 <= i <= lumps.len(),
    decreases lumps.len() - i,
{
    if i < 0 || i >= lumps.len() {
        lumps.len() as int
    } else if eq_icase(lumps[i].name@, name) {
        i
    } else {
        lump_scan(lumps, name, i + 1)
    }
}

/// A wad file loaded into memory.
#[derive(Debug)]
pub struct Wad {
    /// The whole file's bytes.
    pub data: Vec<u8>,
    /// The parsed lump table.
    pub lumps: Vec<LumpInfo>,
}

impl Wad {
    /// Parse a whole wad file from its bytes.
    ///
    /// The header and every lump record must be valid, and the lump table
    /// must lie inside the file.
    pub fn from_bytes(data: Vec<u8>) -> (r: Result<Wad, FsError>)
        ensures
            match r {
                Ok(w) => spec_parse_wad(data@) == Some(w.lumps.deep_view()) && w.data@ == data@,
                Err(e) => e == FsError::MalformedArchive && spec_parse_wad(data@) is None,
            },
    {
        let ghost d = data@;
        if data.len() < WAD_HEADER_SIZE {
            return Err(FsError::MalformedArchive);
        }
        if !(data[0] == 87u8 && data[1] == 65u8 && data[2] == 68u8 && data[3] == 50u8) {
            return Err(FsError::MalformedArchive);
        }
        let n_raw = read_i32_at(data.as_slice(), 4);
        let off_raw = read_i32_at(data.as_slice(), 8);
        let num_lumps = match <usize as TryFromTemp<i32>>::try_from_temp(n_raw) {
            Ok(v) => v,
            Err(_) => {
                return Err(FsError::MalformedArchive);
            },
        };
        let table_offset = match <usize as TryFromTemp<i32>>::try_from_temp(off_raw) {
            Ok(v) => v,
            Err(_) => {
                return Err(FsError::MalformedArchive);
            },
        };
        // The table must lie entirely inside the loaded bytes.
        if (table_offset as u64) + (LUMP_INFO_SIZE as u64) * (num_lumps as u64) > (data.len()
            as u64) {
            return Err(FsError::MalformedArchive);
        }
        let mut lumps: Vec<LumpInfo> = Vec::new();
        let mut i: usize = 0;
        while i < num_lumps
            invariant
                0 <= i <= num_lumps,
                d == data@,
                d.len() <= usize::MAX,
                d.len() >= WAD_HEADER_SIZE,
                wad_magic_ok(d),
                le_i32_of(d.subrange(4, 8)) == num_lumps as int,
                le_i32_of(d.subrange(8, 12)) == table_offset as int,
                table_offset as int + LUMP_INFO_SIZE as int * num_lumps as int <= d.len(),
                lumps@.len() == i,
                forall|j: int|
                    0 <= j < i ==> spec_parse_lump(
                        #[trigger] lump_record(d, table_offset as int, j),
                    ) == Some(lumps@[j]@),
            decreases num_lumps - i,
        {
            let rec = slice_subrange(
                data.as_slice(),
                table_offset + i * LUMP_INFO_SIZE,
                table_offset + i * LUMP_INFO_SIZE + LUMP_INFO_SIZE,
            );
            proof {
                assert(rec@ =~= lump_record(d, table_offset as int, i as int));
            }
            match LumpInfo::from_bytes(rec) {
                Ok(li) => {
                    lumps.push(li);
                },
                Err(e) => {
                    proof {
                        assert(spec_parse_lump(
                            lump_record(d, table_offset as int, i as int),
                        ) is None);
                    }
                    return Err(e);
                },
            }
            i += 1;
        }
        let w = Wad { data, lumps };
        proof {
            assert(forall|j: int|
                0 <= j < num_lumps ==> spec_parse_lump(
                    #[trigger] lump_record(d, table_offset as int, j),
                ) is Some);
            assert(spec_parse_wad(d) == Some(w.lumps.deep_view())) by {
                assert(w.lumps.deep_view() =~= Seq::new(
                    num_lumps as nat,
                    |i: int| spec_parse_lump(lump_record(d, table_offset as int, i))->Some_0,
                ));
            }
        }
        Ok(w)
    }

    /// Load a wad from what the search path resolved its name to.
    ///
    /// A wad is asked for by name, so absence is an error here — `NotFound`,
    /// distinct from a malformed file; resolved bytes are parsed as
    /// [`Self::from_bytes`] parses them.
    pub fn load_from_resolved(found: Option<Vec<u8>>) -> (r: Result<Wad, FsError>)
        ensures
            match found {
                Option::None => r is Err && r->Err_0 == FsError::NotFound,
                Option::Some(data) => match r {
                    Ok(w) => spec_parse_wad(data@) == Some(w.lumps.deep_view()) && w.data@
                        == data@,
                    Err(e) => e == FsError::MalformedArchive && spec_parse_wad(data@) is None,
                },
            },
    {
        match found {
            None => Err(FsError::NotFound),
            Some(data) => Wad::from_bytes(data),
        }
    }

    /// Try to get information about the lump with the given name. The
    /// comparison ignores ASCII case; the first match in table order wins.
    pub fn lump_info(&self, name: &str) -> (r: Result<&LumpInfo, FsError>)
        ensures
            match r {
                Ok(li) => ({
                    let i = lump_scan(self.lumps@, name@, 0);
                    i < self.lumps@.len() && *li == self.lumps@[i]
                }),
                Err(e) => e == FsError::NotFound && lump_scan(self.lumps@, name@, 0)
                    == self.lumps@.len(),
            },
    {
        let ghost lumps = self.lumps@;
        let mut i: usize = 0;
        while i < self.lumps.len() && !str_eq_ignore_ascii_case(
            self.lumps[i].name.as_str(),
            name,
        )
            invariant
                0 <= i <= lumps.len(),
                lumps == self.lumps@,
                lump_scan(lumps, name@, 0) == lump_scan(lumps, name@, i as int),
            decreases lumps.len() - i,
        {
            proof {
                assert(lump_scan(lumps, name@, i as int) == lump_scan(lumps, name@, i + 1));
            }
            i += 1;
        }
        if i < self.lumps.len() {
            Ok(&self.lumps[i])
        } else {
            Err(FsError::NotFound)
        }
    }

    /// Try to get the data of the lump with the given name: the raw bytes
    /// in `[file_pos, file_pos + disk_size)` of the loaded buffer, still
    /// compressed if the lump is compressed. A record whose range falls
    /// outside the buffer is rejected.
    pub fn data_for_lump_named(&self, name: &str) -> (r: Result<&[u8], FsError>)
        ensures
            ({
                let i = lump_scan(self.lumps@, name@, 0);
                match r {
                    Ok(bytes) => i < self.lumps@.len() && ({
                        let li = self.lumps@[i];
                        li.file_pos + li.disk_size <= self.data@.len() && bytes@
                            == self.data@.subrange(
                            li.file_pos as int,
                            li.file_pos + li.disk_size,
                        )
                    }),
                    Err(e) => (e == FsError::NotFound && i == self.lumps@.len()) || (e
                        == FsError::MalformedArchive && i < self.lumps@.len()
                        && self.lumps@[i].file_pos + self.lumps@[i].disk_size
                        > self.data@.len()),
                }
            }),
    {
        let li = match self.lump_info(name) {
            Ok(li) => li,
            Err(e) => {
                return Err(e);
            },
        };
        if li.disk_size <= self.data.len() && li.file_pos <= self.data.len() - li.disk_size {
            Ok(
                slice_subrange(
                    self.data.as_slice(),
                    li.file_pos,
                    li.file_pos + li.disk_size,
                ),
            )
        } else {
            Err(FsError::MalformedArchive)
        }
    }

    /// Try to get the data of the lump with the given number, under the
    /// same bounds check as [`Self::data_for_lump_named`].
    pub fn data_for_lump_num(&self, n: usize) -> (r: Result<&[u8], FsError>)
        ensures
            match r {
                Ok(bytes) => n < self.lumps@.len() && ({
                    let li = self.lumps@[n as int];
                    li.file_pos + li.disk_size <= self.data@.len() && bytes@
                        == self.data@.subrange(li.file_pos as int, li.file_pos + li.disk_size)
                }),
                Err(e) => (e == FsError::NotFound && n >= self.lumps@.len()) || (e
                    == FsError::MalformedArchive && n < self.lumps@.len()
                    && self.lumps@[n as int].file_pos + self.lumps@[n as int].disk_size
                    > self.data@.len()),
            },
    {
        if n >= self.lumps.len() {
            return Err(FsError::NotFound);
        }
        let li = &self.lumps[n];
        if li.disk_size <= self.data.len() && li.file_pos <= self.data.len() - li.disk_size {
            Ok(
                slice_subrange(
                    self.data.as_slice(),
                    li.file_pos,
                    li.file_pos + li.disk_size,
                ),
            )
        } else {
            Err(FsError::MalformedArchive)
        }
    }
}

} // verus!
