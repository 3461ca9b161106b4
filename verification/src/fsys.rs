//! The layered search path: an ordered stack of directories and pack
//! archives that asset names are resolved against.
//!
//! Entries are stored lowest-priority first and consulted in reverse, so
//! later, more specific additions shadow earlier, more generic ones. Pack
//! lookups are answered here from the parsed directories; whether a plain
//! file exists in a directory is the caller's question to the disk, so
//! resolution hands back either a pack hit, a directory to probe, or a
//! definite miss.

use crate::pack::{lookup_spec, Pack};
use crate::parms::{value_after, Parms};
use crate::util::{push_char, str_ends_with};
use vstd::prelude::*;
use vstd::string::StringExecFns;

verus! {

/// A place to look for resources.
#[derive(Debug)]
pub enum SearchPath {
    /// Files in a directory.
    Directory(String),
    /// Files in a pack archive.
    Pack(Pack),
}

/// Could this entry serve `name`? A pack serves the names in its
/// directory; whether a directory on disk holds the name is not decided
/// here, so a directory counts as a candidate for every name.
pub open spec fn entry_hits(e: SearchPath, name: Seq<char>) -> bool {
    match e {
        SearchPath::Directory(_) => true,
        SearchPath::Pack(p) => lookup_spec(p.file_infos@, name) is Some,
    }
}

/// The offset and size a pack entry would serve `name` with; `None` for
/// directories and for packs that do not hold the name.
pub open spec fn pack_hit(e: SearchPath, name: Seq<char>) -> Option<(u64, usize)> {
    match e {
        SearchPath::Directory(_) => None,
        SearchPath::Pack(p) => lookup_spec(p.file_infos@, name),
    }
}

/// Where resolution of a name stands after consulting the stack.
#[derive(Clone, Copy, Debug, PartialEq, Eq, Structural)]
pub enum Located {
    /// The name was found in the pack at this stack index, at the given
    /// offset and size.
    InPack {
        /// Index of the pack entry in the stack.
        pack_idx: usize,
        /// Offset of the file within the pack.
        offset: u64,
        /// Size of the file, in bytes.
        size: usize,
    },
    /// The topmost remaining candidate is the directory at this stack
    /// index; the caller must ask the disk whether it holds the name, and
    /// on a miss resume with `dir_idx` as the new bound.
    MaybeOnDisk {
        /// Index of the directory entry in the stack.
        dir_idx: usize,
    },
    /// No remaining entry can serve the name.
    Absent,
}

/// What consulting entries `[0, upto)` from the top down yields: the first
/// pack that holds the name, unless a directory is reached first, in which
/// case the disk must be asked.
pub open spec fn locate_from_spec(entries: Seq<SearchPath>, name: Seq<char>, upto: int) -> Located
    decreases upto,
{
    if upto <= 0 || upto > entries.len() {
        Located::Absent
    } else {
        let j = upto - 1;
        match entries[j] {
            SearchPath::Directory(_) => Located::MaybeOnDisk { dir_idx: j as usize },
            SearchPath::Pack(p) => match lookup_spec(p.file_infos@, name) {
                Some((off, sz)) => Located::InPack {
                    pack_idx: j as usize,
                    offset: off,
                    size: sz,
                },
                None => locate_from_spec(entries, name, j),
            },
        }
    }
}

/// One step of the automatic numbered-archive scan: an archive that was
/// found and parsed goes on top of the stack and the scan goes on; a
/// missing archive ends the scan.
pub open spec fn scan_step(entries: Seq<SearchPath>, found: Option<Pack>) -> (
    Seq<SearchPath>,
    bool,
) {
    match found {
        Option::None => (entries, false),
        Option::Some(p) => (entries.push(SearchPath::Pack(p)), true),
    }
}

/// The stack after a whole probe sequence: each found archive is pushed,
/// and the first missing one ends the scan.
pub open spec fn scan_fold(entries: Seq<SearchPath>, probes: Seq<Option<Pack>>) -> Seq<SearchPath>
    decreases probes.len(),
{
    if probes.len() == 0 {
        entries
    } else {
        match probes[0] {
            Option::None => entries,
            Option::Some(p) => scan_fold(
                entries.push(SearchPath::Pack(p)),
                probes.drop_first(),
            ),
        }
    }
}

/// Represents the Quake filesystem: the search path and what was chosen as
/// the main game directory.
pub struct FileSys {
    /// The main game directory: the last one handed to
    /// [`FileSys::begin_game_dir`].
    pub game_dir: String,
    /// Skip the single highest-priority search entry during resolution, to
    /// mix asset sets from two engine generations.
    pub use_proghack: bool,
    /// The search entries, stored in reverse priority order.
    pub search_paths: Vec<SearchPath>,
}

/// The state of one directory's numbered-archive scan: which directory,
/// and which archive index to probe next.
pub struct DirScan {
    /// The directory being scanned.
    pub dir: String,
    /// The next archive index to probe.
    pub next_index: usize,
}

impl FileSys {
    /// How many of the lowest-priority entries resolution consults: all of
    /// them, or all but the top one under the compatibility skip flag.
    pub open spec fn resolve_upto(self) -> int {
        if self.use_proghack && self.search_paths@.len() > 0 {
            self.search_paths@.len() - 1
        } else {
            self.search_paths@.len() as int
        }
    }

    /// An empty filesystem. The skip flag comes from the `-proghack`
    /// command line parameter.
    pub fn new(parms: &Parms) -> (r: FileSys)
        ensures
            r.game_dir@ == Seq::<char>::empty(),
            r.use_proghack == crate::parms::contains_arg(parms.args(), "-proghack"@),
            r.search_paths@ == Seq::<SearchPath>::empty(),
    {
        let use_proghack = parms.has("-proghack");
        FileSys { game_dir: String::new(), use_proghack, search_paths: Vec::new() }
    }

    /// Push a directory entry, make it the main game directory, and start
    /// its numbered-archive scan.
    ///
    /// The caller drives the scan: it probes the path that
    /// [`DirScan::next_pack_path`] names and feeds the outcome to
    /// [`DirScan::feed`] until the scan ends.
    pub fn begin_game_dir(&mut self, path: String) -> (s: DirScan)
        ensures
            final(self).search_paths@ == old(self).search_paths@.push(
                SearchPath::Directory(path),
            ),
            final(self).game_dir@ == path@,
            final(self).use_proghack == old(self).use_proghack,
            s.dir@ == path@,
            s.next_index == 0,
    {
        let entry_path = path.clone();
        let scan_dir = path.clone();
        self.game_dir = path;
        self.search_paths.push(SearchPath::Directory(entry_path));
        DirScan { dir: scan_dir, next_index: 0 }
    }

    /// Push a directory entry without touching the game directory, as an
    /// explicit search-path override does.
    pub fn push_directory(&mut self, path: String)
        ensures
            final(self).search_paths@ == old(self).search_paths@.push(
                SearchPath::Directory(path),
            ),
            final(self).game_dir == old(self).game_dir,
            final(self).use_proghack == old(self).use_proghack,
    {
        self.search_paths.push(SearchPath::Directory(path));
    }

    /// Push a pack entry on top of the stack.
    pub fn push_pack(&mut self, pack: Pack)
        ensures
            final(self).search_paths@ == old(self).search_paths@.push(SearchPath::Pack(pack)),
            final(self).game_dir == old(self).game_dir,
            final(self).use_proghack == old(self).use_proghack,
    {
        self.search_paths.push(SearchPath::Pack(pack));
    }

    /// Drop every search entry: an explicit search-path override replaces
    /// the automatically built stack rather than augmenting it.
    pub fn clear_search_paths(&mut self)
        ensures
            final(self).search_paths@ == Seq::<SearchPath>::empty(),
            final(self).game_dir == old(self).game_dir,
            final(self).use_proghack == old(self).use_proghack,
    {
        self.search_paths.clear();
    }

    /// Apply an explicit search-path override: the probed entries replace
    /// the automatically built stack, in list order. An archive probe that
    /// found no file fails loudly — unlike the silent stop of automatic
    /// scanning — and ends the build at that point.
    pub fn apply_path_overrides(&mut self, probes: Vec<OverrideProbe>) -> (r: Result<
        (),
        crate::errors::FsError,
    >)
        ensures
            final(self).search_paths@ == override_entries(probes@),
            final(self).game_dir == old(self).game_dir,
            final(self).use_proghack == old(self).use_proghack,
            match r {
                Ok(()) => forall|j: int|
                    0 <= j < probes@.len() ==> !(#[trigger] probes@[j]
                        matches OverrideProbe::Archive(Option::None)),
                Err(e) => e == crate::errors::FsError::ExplicitPathMissing && exists|j: int|
                    0 <= j < probes@.len() && (#[trigger] probes@[j]
                        matches OverrideProbe::Archive(Option::None)),
            },
    {
        let ghost all = probes@;
        self.clear_search_paths();
        let mut probes = probes;
        #[verifier::loop_isolation(false)]
        while probes.len() > 0
            invariant
                self.game_dir == old(self).game_dir,
                self.use_proghack == old(self).use_proghack,
                all.len() >= probes@.len(),
                probes@ == all.skip(all.len() - probes@.len()),
                forall|j: int|
                    0 <= j < all.len() - probes@.len() ==> !(#[trigger] all[j]
                        matches OverrideProbe::Archive(Option::None)),
                self.search_paths@ == override_entries(
                    all.take(all.len() - probes@.len()),
                ),
            decreases probes@.len(),
        {
            let ghost k = all.len() - probes@.len();
            let p = probes.remove(0);
            proof {
                assert(probes@ =~= all.skip(k + 1));
                assert(p == all[k]);
                assert(all.take(k + 1) =~= all.take(k).push(all[k]));
                lemma_override_entries_extend(all.take(k), p);
            }
            match p {
                OverrideProbe::Directory(d) => {
                    self.push_directory(d);
                    proof {
                        assert(self.search_paths@ =~= override_entries(all.take(k + 1)));
                    }
                },
                OverrideProbe::Archive(found) => {
                    match require_explicit_pack(found) {
                        Ok(pk) => {
                            self.push_pack(pk);
                            proof {
                                assert(self.search_paths@ =~= override_entries(
                                    all.take(k + 1),
                                ));
                            }
                        },
                        Err(e) => {
                            proof {
                                assert(found is None);
                                assert(all[k] matches OverrideProbe::Archive(
                                    Option::None,
                                ));
                                lemma_override_entries_cut(all, k);
                                assert(self.search_paths@ == override_entries(
                                    all.take(k),
                                ));
                                assert(self.search_paths@ == override_entries(all));
                            }
                            return Err(e);
                        },
                    }
                },
            }
        }
        proof {
            assert(all.take(all.len() as int) =~= all);
        }
        Ok(())
    }

    /// Consult entries `[0, upto)` from the top down for `name`.
    pub fn locate_from(&self, name: &str, upto: usize) -> (r: Located)
        requires
            upto <= self.search_paths@.len(),
        ensures
            r == locate_from_spec(self.search_paths@, name@, upto as int),
    {
        let ghost entries = self.search_paths@;
        let mut j = upto;
        while j > 0
            invariant
                0 <= j <= entries.len(),
                entries == self.search_paths@,
                locate_from_spec(entries, name@, upto as int) == locate_from_spec(
                    entries,
                    name@,
                    j as int,
                ),
            decreases j,
        {
            j = j - 1;
            match &self.search_paths[j] {
                SearchPath::Directory(_) => {
                    return Located::MaybeOnDisk { dir_idx: j };
                },
                SearchPath::Pack(p) => {
                    match p.lookup(name) {
                        Some((offset, size)) => {
                            return Located::InPack { pack_idx: j, offset, size };
                        },
                        None => {
                            proof {
                                assert(locate_from_spec(entries, name@, j + 1)
                                    == locate_from_spec(entries, name@, j as int));
                            }
                        },
                    }
                },
            }
        }
        Located::Absent
    }

    /// Consult the whole stack for `name`, from highest priority down,
    /// skipping the single top entry when the compatibility flag is set.
    pub fn locate(&self, name: &str) -> (r: Located)
        ensures
            r == locate_from_spec(self.search_paths@, name@, self.resolve_upto()),
    {
        let n = self.search_paths.len();
        let upto = if self.use_proghack && n > 0 {
            n - 1
        } else {
            n
        };
        self.locate_from(name, upto)
    }
}

impl DirScan {
    /// The path of the next numbered archive to probe: `pak0.pak`,
    /// `pak1.pak`, and so on inside the scanned directory.
    pub fn next_pack_path(&self) -> (r: String)
        ensures
            r@ == self.dir@ + "/pak"@ + decimal_chars(self.next_index as int) + ".pak"@,
    {
        let mut s = self.dir.clone();
        s.append("/pak");
        push_decimal(&mut s, self.next_index);
        s.append(".pak");
        s
    }

    /// Record the probe's outcome.
    ///
    /// A parsed archive goes on top of the stack, above the directory and
    /// every archive found before it, and the scan moves to the next
    /// index; a missing archive ends the scan and changes nothing. The
    /// result says whether to keep scanning.
    pub fn feed(&mut self, fs: &mut FileSys, found: Option<Pack>) -> (more: bool)
        requires
            old(self).next_index < usize::MAX,
        ensures
            ({
                let (entries, go_on) = scan_step(old(fs).search_paths@, found);
                &&& final(fs).search_paths@ == entries
                &&& more == go_on
            }),
            final(fs).game_dir == old(fs).game_dir,
            final(fs).use_proghack == old(fs).use_proghack,
            final(self).dir == old(self).dir,
            more ==> final(self).next_index == old(self).next_index + 1,
            !more ==> final(self).next_index == old(self).next_index,
    {
        match found {
            None => false,
            Some(pack) => {
                fs.push_pack(pack);
                self.next_index = self.next_index + 1;
                true
            },
        }
    }
}

/// The decimal digits of `n`, most significant first; negative values have
/// no digits.
pub open spec fn decimal_chars(n: int) -> Seq<char>
    decreases n,
{
    if n < 0 {
        Seq::empty()
    } else if n < 10 {
        seq![((48 + n) as u32) as char]
    } else {
        decimal_chars(n / 10) + seq![((48 + n % 10) as u32) as char]
    }
}

/// Append the decimal digits of `n`.
fn push_decimal(s: &mut String, n: usize)
    ensures
        final(s)@ == old(s)@ + decimal_chars(n as int),
    decreases n,
{
    if n >= 10 {
        push_decimal(s, n / 10);
    }
    let d = ((n % 10) as u8) + 48;
    push_char(s, d as char);
    proof {
        assert(final(s)@ =~= old(s)@ + decimal_chars(n as int));
    }
}

/// Does the path name a pack archive? Explicit search-path overrides use
/// the suffix to tell archives from directories.
pub fn is_pack_path(path: &str) -> (r: bool)
    ensures
        r == (".pak"@.len() <= path@.len() && ".pak"@ == path@.subrange(
            path@.len() - ".pak"@.len(),
            path@.len() as int,
        )),
{
    str_ends_with(path, ".pak")
}

/// `base` with `sub` appended as one more path component.
pub open spec fn subdir(base: Seq<char>, sub: Seq<char>) -> Seq<char> {
    base + "/"@ + sub
}

/// The game directories the automatic search path is built from, in the
/// order they are to be added: the base directory's `id1`, then each
/// selected mission pack's directory, then the `-game` override if one was
/// given. The base directory is the `-basedir` value, or the working
/// directory.
pub open spec fn spec_game_dir_plan(p: Parms) -> Seq<Seq<char>> {
    let base = match value_after(p.args(), "-basedir"@) {
        Some(v) => v,
        None => p.cwd_chars(),
    };
    let d0 = seq![subdir(base, "id1"@)];
    let d1 = if p.rogue() {
        d0.push(subdir(base, "rogue"@))
    } else {
        d0
    };
    let d2 = if p.hipnotic() {
        d1.push(subdir(base, "hipnotic"@))
    } else {
        d1
    };
    match value_after(p.args(), "-game"@) {
        Some(g) => d2.push(subdir(base, g)),
        None => d2,
    }
}

/// The game directories to add, per [`spec_game_dir_plan`].
pub fn game_dir_plan(parms: &Parms) -> (r: Vec<String>)
    ensures
        r.deep_view() == spec_game_dir_plan(*parms),
{
    let base: String = match parms.value("-basedir") {
        Some(dir) => String::from_str(dir),
        None => String::from_str(parms.cwd()),
    };
    let mut r: Vec<String> = Vec::new();
    r.push(join_subdir(&base, "id1"));
    if parms.is_rogue() {
        r.push(join_subdir(&base, "rogue"));
    }
    if parms.is_hipnotic() {
        r.push(join_subdir(&base, "hipnotic"));
    }
    match parms.value("-game") {
        Some(gamedir) => {
            let d = join_subdir(&base, gamedir);
            r.push(d);
        },
        None => {},
    }
    proof {
        assert(r.deep_view() =~= spec_game_dir_plan(*parms));
    }
    r
}

/// Build `base` plus one more path component.
fn join_subdir(base: &String, sub: &str) -> (r: String)
    ensures
        r@ == subdir(base@, sub@),
{
    let mut s = base.clone();
    s.append("/");
    s.append(sub);
    s
}

/// One probed entry of an explicit `-path` override, in list order.
#[derive(Debug)]
pub enum OverrideProbe {
    /// A directory path from the override list.
    Directory(String),
    /// An archive path from the override list, together with what probing
    /// it found: the parsed pack, or nothing when no file exists there.
    Archive(Option<Pack>),
}

/// The search entry one override probe contributes: a missing archive
/// contributes nothing, because it aborts the override instead.
pub open spec fn override_entry(p: OverrideProbe) -> Seq<SearchPath> {
    match p {
        OverrideProbe::Directory(d) => seq![SearchPath::Directory(d)],
        OverrideProbe::Archive(Option::Some(pk)) => seq![SearchPath::Pack(pk)],
        OverrideProbe::Archive(Option::None) => Seq::empty(),
    }
}

/// The stack an override list builds: each probe's entry in list order, up
/// to the first missing archive, which ends the build.
pub open spec fn override_entries(probes: Seq<OverrideProbe>) -> Seq<SearchPath>
    decreases probes.len(),
{
    if probes.len() == 0 {
        Seq::empty()
    } else {
        match probes[0] {
            OverrideProbe::Archive(Option::None) => Seq::empty(),
            _ => override_entry(probes[0]) + override_entries(probes.drop_first()),
        }
    }
}

/// Appending one probe to a list with no missing archive appends exactly
/// that probe's entry.
proof fn lemma_override_entries_extend(probes: Seq<OverrideProbe>, p: OverrideProbe)
    requires
        forall|j: int|
            0 <= j < probes.len() ==> !(#[trigger] probes[j] matches OverrideProbe::Archive(
                Option::None,
            )),
    ensures
        override_entries(probes.push(p)) == override_entries(probes) + override_entry(p),
    decreases probes.len(),
{
    if probes.len() == 0 {
        assert(probes.push(p)[0] == p);
        assert(probes.push(p).drop_first() =~= Seq::<OverrideProbe>::empty());
        assert(override_entries(Seq::<OverrideProbe>::empty())
            == Seq::<SearchPath>::empty());
        assert(override_entries(probes.push(p)) =~= override_entries(probes)
            + override_entry(p));
    } else {
        assert(probes.push(p)[0] == probes[0]);
        assert(probes.push(p).drop_first() =~= probes.drop_first().push(p));
        lemma_override_entries_extend(probes.drop_first(), p);
        assert(override_entries(probes.push(p)) =~= override_entries(probes)
            + override_entry(p));
    }
}

/// The build stops at the first missing archive: probes after it play no
/// part.
proof fn lemma_override_entries_cut(probes: Seq<OverrideProbe>, k: int)
    requires
        0 <= k < probes.len(),
        probes[k] matches OverrideProbe::Archive(Option::None),
        forall|j: int|
            0 <= j < k ==> !(#[trigger] probes[j] matches OverrideProbe::Archive(
                Option::None,
            )),
    ensures
        override_entries(probes) == override_entries(probes.take(k)),
    decreases k,
{
    if k == 0 {
        assert(override_entries(probes.take(0)) =~= Seq::<SearchPath>::empty());
    } else {
        assert(probes.take(k)[0] == probes[0]);
        assert(probes.take(k).drop_first() =~= probes.drop_first().take(k - 1));
        lemma_override_entries_cut(probes.drop_first(), k - 1);
        assert(override_entries(probes) =~= override_entries(probes.take(k)));
    }
}

/// Judge the outcome of loading an archive that an explicit search-path
/// override names: absence is a loud error here, unlike the silent stop at
/// the end of an automatic numbered-archive scan.
pub fn require_explicit_pack(loaded: Option<Pack>) -> (r: Result<Pack, crate::errors::FsError>)
    ensures
        match loaded {
            Option::None => r is Err && r->Err_0 == crate::errors::FsError::ExplicitPathMissing,
            Option::Some(p) => r is Ok && r->Ok_0 == p,
        },
{
    match loaded {
        None => Err(crate::errors::FsError::ExplicitPathMissing),
        Some(p) => Ok(p),
    }
}

/// Automatic archive scanning adds exactly one entry per archive found:
/// for a directory holding numbered archives `0 .. k - 1` and no archive
/// `k`, the probes find `k` archives and then a missing one, and the scan
/// pushes exactly `k` pack entries, in probe order, above what the stack
/// already held.
pub proof fn lemma_scan_adds_exactly_found(
    entries: Seq<SearchPath>,
    probes: Seq<Option<Pack>>,
    k: int,
)
    requires
        0 <= k < probes.len(),
        forall|i: int| 0 <= i < k ==> probes[i] is Some,
        probes[k] is None,
    ensures
        scan_fold(entries, probes).len() == entries.len() + k,
        forall|i: int|
            0 <= i < entries.len() ==> scan_fold(entries, probes)[i] == entries[i],
        forall|i: int|
            0 <= i < k ==> scan_fold(entries, probes)[entries.len() + i] == SearchPath::Pack(
                probes[i]->Some_0,
            ),
    decreases k,
{
    if k == 0 {
    } else {
        let p0 = probes[0]->Some_0;
        let entries2 = entries.push(SearchPath::Pack(p0));
        let probes2 = probes.drop_first();
        assert(forall|i: int| 0 <= i < k - 1 ==> probes2[i] is Some);
        lemma_scan_adds_exactly_found(entries2, probes2, k - 1);
        assert(scan_fold(entries, probes) == scan_fold(entries2, probes2));
        assert(forall|i: int| 0 <= i < entries.len() ==> entries2[i] == entries[i]);
        assert(forall|i: int|
            0 <= i < entries.len() ==> scan_fold(entries, probes)[i] == entries[i]) by {
            assert(forall|i: int|
                0 <= i < entries2.len() ==> scan_fold(entries2, probes2)[i] == entries2[i]);
        }
        assert(forall|i: int|
            0 <= i < k ==> scan_fold(entries, probes)[entries.len() + i] == SearchPath::Pack(
                probes[i]->Some_0,
            )) by {
            assert(entries2[entries.len() as int] == SearchPath::Pack(p0));
            assert(forall|i: int| 1 <= i < k ==> probes2[i - 1] == probes[i]);
        }
    }
}

/// The archive's copy wins: when the topmost consulted entry that can
/// serve `name` is a pack, resolution returns that pack's data. In
/// particular, a name present both in a later-numbered archive and in the
/// directory that contains it resolves to the archive's copy, because the
/// scan pushed the archive above its directory.
pub proof fn lemma_archive_wins(entries: Seq<SearchPath>, name: Seq<char>, upto: int, p: int)
    requires
        0 <= p < upto <= entries.len(),
        pack_hit(entries[p], name) is Some,
        forall|j: int| p < j < upto ==> !entry_hits(#[trigger] entries[j], name),
    ensures
        locate_from_spec(entries, name, upto) == (Located::InPack {
            pack_idx: p as usize,
            offset: pack_hit(entries[p], name)->Some_0.0,
            size: pack_hit(entries[p], name)->Some_0.1,
        }),
    decreases upto,
{
    if upto - 1 > p {
        assert(!entry_hits(entries[upto - 1], name));
        lemma_archive_wins(entries, name, upto - 1, p);
    }
}

/// Entries above the consulted bound play no part: resolution over the
/// first `upto` entries gives the same answer whether or not a top entry
/// exists beyond them.
pub proof fn lemma_locate_ignores_top(entries: Seq<SearchPath>, name: Seq<char>, upto: int)
    requires
        0 <= upto < entries.len(),
    ensures
        locate_from_spec(entries, name, upto) == locate_from_spec(
            entries.drop_last(),
            name,
            upto,
        ),
    decreases upto,
{
    if upto > 0 {
        assert(entries.drop_last()[upto - 1] == entries[upto - 1]);
        if upto - 1 >= 0 {
            match entries[upto - 1] {
                SearchPath::Directory(_) => {},
                SearchPath::Pack(pk) => {
                    if lookup_spec(pk.file_infos@, name) is None {
                        lemma_locate_ignores_top(entries, name, upto - 1);
                    }
                },
            }
        }
    }
}

/// The compatibility skip flag excludes exactly the single
/// highest-priority entry: with the flag set, resolution over the stack
/// equals resolution over the same stack with its top entry removed, and
/// the remaining entries behave as they do without the flag.
pub proof fn lemma_skip_flag_drops_top(fs: FileSys, name: Seq<char>)
    requires
        fs.use_proghack,
        fs.search_paths@.len() > 0,
    ensures
        locate_from_spec(fs.search_paths@, name, fs.resolve_upto()) == locate_from_spec(
            fs.search_paths@.drop_last(),
            name,
            fs.search_paths@.drop_last().len() as int,
        ),
{
    lemma_locate_ignores_top(fs.search_paths@, name, fs.search_paths@.len() - 1);
}

} // verus!
