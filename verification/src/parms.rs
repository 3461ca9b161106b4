//! The command line parameters the game was started with.
//!
//! The convention: commands start with `+`, parameters start with `-`, and a
//! parameter may be followed by values, which themselves never start with
//! `+` or `-`.

use crate::util::str_eq;
use vstd::prelude::*;
use vstd::string::StringExecFns;

verus! {

/// The most command line arguments that will be accepted.
pub const MAX_NUM_ARGVS: usize = 50;

/// The reconstituted command line is reported up to this many characters.
pub const CMDLINE_LENGTH: usize = 256;

/// The first index of `args` at or after `i` whose entry reads `parm`, or
/// `args.len()` if no entry from `i` on does.
pub open spec fn arg_scan(args: Seq<Seq<char>>, parm: Seq<char>, i: int) -> int
    recommends
        0 <= i <= args.len(),
    decreases args.len() - i,
{
    if i < 0 || i >= args.len() {
        args.len() as int
    } else if args[i] == parm {
        i
    } else {
        arg_scan(args, parm, i + 1)
    }
}

pub proof fn lemma_arg_scan(args: Seq<Seq<char>>, parm: Seq<char>, i: int)
    requires
        0 <= i <= args.len(),
    ensures
        i <= arg_scan(args, parm, i) <= args.len(),
        forall|j: int| i <= j < arg_scan(args, parm, i) ==> args[j] != parm,
        arg_scan(args, parm, i) < args.len() ==> args[arg_scan(args, parm, i)] == parm,
    decreases args.len() - i,
{
    if i < args.len() && args[i] != parm {
        lemma_arg_scan(args, parm, i + 1);
    }
}

/// Does some entry of `args` read `parm`?
pub open spec fn contains_arg(args: Seq<Seq<char>>, parm: Seq<char>) -> bool {
    arg_scan(args, parm, 0) < args.len()
}

/// The first index of `args` at or after `i` that ends a run of parameter
/// values: an empty entry or one starting with `+` or `-`, or `args.len()`.
pub open spec fn value_run_end(args: Seq<Seq<char>>, i: int) -> int
    recommends
        0 <= i <= args.len(),
    decreases args.len() - i,
{
    if i < 0 || i >= args.len() {
        args.len() as int
    } else if args[i].len() > 0 && args[i][0] != '+' && args[i][0] != '-' {
        value_run_end(args, i + 1)
    } else {
        i
    }
}

/// The value after the first occurrence of `parm`: the next entry, if the
/// parameter occurs and anything follows it.
pub open spec fn value_after(args: Seq<Seq<char>>, parm: Seq<char>) -> Option<Seq<char>> {
    let i = arg_scan(args, parm, 0);
    if i < args.len() && i + 1 < args.len() {
        Some(args[i + 1])
    } else {
        None
    }
}

/// Is `c` a decimal digit?
pub open spec fn is_digit_char(c: char) -> bool {
    48 <= c as u32 <= 57
}

/// Is every character of `s` a decimal digit?
pub open spec fn all_digits(s: Seq<char>) -> bool {
    forall|j: int| 0 <= j < s.len() ==> is_digit_char(s[j])
}

/// The value of a sequence of decimal digits, most significant first.
pub open spec fn dec_val(s: Seq<char>) -> int
    decreases s.len(),
{
    if s.len() <= 0 {
        0
    } else {
        dec_val(s.drop_last()) * 10 + (s.last() as u32 - 48)
    }
}

/// The signed 32-bit integer a string parses to: an optional sign, then one
/// or more decimal digits and nothing else, with the value in range.
pub open spec fn spec_parse_i32(s: Seq<char>) -> Option<int> {
    let neg = s.len() > 0 && s[0] == '-';
    let body = if s.len() > 0 && (s[0] == '-' || s[0] == '+') {
        s.drop_first()
    } else {
        s
    };
    if body.len() == 0 || !all_digits(body) {
        None
    } else {
        let v = if neg {
            -dec_val(body)
        } else {
            dec_val(body)
        };
        if -0x8000_0000 <= v <= 0x7fff_ffff {
            Some(v)
        } else {
            None
        }
    }
}

/// Represents the command line parameters that the game was started with.
///
/// Provides an interface for querying whether parameters exist and their
/// associated values, if any, plus shortcuts for some common queries.
pub struct Parms {
    argv: Vec<String>,
    cwd: String,
    cmdline: String,
    is_dedicated: bool,
    is_standard_quake: bool,
    is_rogue: bool,
    is_hipnotic: bool,
}

impl Parms {
    /// The accepted arguments, after truncation and safe-mode extension.
    pub closed spec fn args(self) -> Seq<Seq<char>> {
        self.argv.deep_view()
    }

    /// The working directory handed in at startup.
    pub closed spec fn cwd_chars(self) -> Seq<char> {
        self.cwd@
    }

    /// The reconstituted command line.
    pub closed spec fn cmdline_chars(self) -> Seq<char> {
        self.cmdline@
    }

    pub closed spec fn dedicated(self) -> bool {
        self.is_dedicated
    }

    pub closed spec fn standard_quake(self) -> bool {
        self.is_standard_quake
    }

    pub closed spec fn rogue(self) -> bool {
        self.is_rogue
    }

    pub closed spec fn hipnotic(self) -> bool {
        self.is_hipnotic
    }

    /// What the accepted argument list looks like for a given command line:
    /// at most [`MAX_NUM_ARGVS`] arguments, extended by the safe-mode
    /// switches when `-safe` is among them.
    pub open spec fn spec_accepted_args(argv: Seq<Seq<char>>) -> Seq<Seq<char>> {
        let t = if argv.len() <= MAX_NUM_ARGVS {
            argv
        } else {
            argv.take(MAX_NUM_ARGVS as int)
        };
        if contains_arg(t, "-safe"@) {
            t + seq![
                "-stdvid"@,
                "-nolan"@,
                "-nosound"@,
                "-nocdaudio"@,
                "-nojoy"@,
                "-nomouse"@,
                "-dibonly"@,
            ]
        } else {
            t
        }
    }

    /// Accept a command line.
    ///
    /// At most [`MAX_NUM_ARGVS`] arguments are kept, and the command line is
    /// reconstituted from them, up to [`CMDLINE_LENGTH`] characters. If
    /// `-safe` is among the arguments, the switches that disable optional
    /// subsystems are appended. Mission-pack and dedicated-server switches
    /// are detected once, here.
    pub fn new(argv: Vec<String>, cwd: String) -> (r: Parms)
        ensures
            r.args() == Self::spec_accepted_args(argv.deep_view()),
            r.cwd_chars() == cwd@,
            ({
                let t = if argv.deep_view().len() <= MAX_NUM_ARGVS {
                    argv.deep_view()
                } else {
                    argv.deep_view().take(MAX_NUM_ARGVS as int)
                };
                let line = join_spaced(t, t.len() as int);
                r.cmdline_chars() == if line.len() <= CMDLINE_LENGTH {
                    line
                } else {
                    line.take(CMDLINE_LENGTH as int)
                }
            }),
            r.rogue() == contains_arg(r.args(), "-rogue"@),
            r.hipnotic() == contains_arg(r.args(), "-hipnotic"@),
            r.dedicated() == contains_arg(r.args(), "-dedicated"@),
            r.standard_quake() == !(r.rogue() || r.hipnotic()),
    {
        let ghost dv0 = argv.deep_view();
        let mut argv = argv;
        argv.truncate(MAX_NUM_ARGVS);
        proof {
            if dv0.len() > MAX_NUM_ARGVS {
                assert(argv.deep_view() =~= dv0.take(MAX_NUM_ARGVS as int));
            } else {
                assert(argv.deep_view() =~= dv0);
            }
        }

        // Reconstitute the command line for external visibility.
        let mut cmdline = join_args(&argv);
        if cmdline.unicode_len() > CMDLINE_LENGTH {
            cmdline = String::from_str(cmdline.as_str().substring_char(0, CMDLINE_LENGTH));
        }

        // Force the safe-mode switches if asked to.
        if has_arg(&argv, "-safe") {
            argv.push(String::from_str("-stdvid"));
            argv.push(String::from_str("-nolan"));
            argv.push(String::from_str("-nosound"));
            argv.push(String::from_str("-nocdaudio"));
            argv.push(String::from_str("-nojoy"));
            argv.push(String::from_str("-nomouse"));
            argv.push(String::from_str("-dibonly"));
        }

        let is_rogue = has_arg(&argv, "-rogue");
        let is_hipnotic = has_arg(&argv, "-hipnotic");
        let is_dedicated = has_arg(&argv, "-dedicated");
        let is_standard_quake = !(is_rogue || is_hipnotic);
        Parms { argv, cwd, cmdline, is_dedicated, is_standard_quake, is_rogue, is_hipnotic }
    }

    /// Is the game running as a dedicated server?
    pub fn is_dedicated(&self) -> (r: bool)
        ensures
            r == self.dedicated(),
    {
        self.is_dedicated
    }

    /// Is this standard Quake, not using any mission pack?
    pub fn is_standard_quake(&self) -> (r: bool)
        ensures
            r == self.standard_quake(),
    {
        self.is_standard_quake
    }

    /// Is the Dissolution of Eternity mission pack in use?
    pub fn is_rogue(&self) -> (r: bool)
        ensures
            r == self.rogue(),
    {
        self.is_rogue
    }

    /// Is the Scourge of Armagon mission pack in use?
    pub fn is_hipnotic(&self) -> (r: bool)
        ensures
            r == self.hipnotic(),
    {
        self.is_hipnotic
    }

    /// The working directory handed in at startup.
    pub fn cwd(&self) -> (r: &str)
        ensures
            r@ == self.cwd_chars(),
    {
        self.cwd.as_str()
    }

    /// Is this command line parameter present?
    pub fn has(&self, parm: &str) -> (r: bool)
        ensures
            r == contains_arg(self.args(), parm@),
    {
        has_arg(&self.argv, parm)
    }

    /// The index of the command line parameter, if present.
    pub fn index(&self, parm: &str) -> (r: Option<usize>)
        ensures
            match r {
                Some(i) => i == arg_scan(self.args(), parm@, 0) && i < self.args().len(),
                None => !contains_arg(self.args(), parm@),
            },
    {
        let ghost args = self.argv.deep_view();
        let mut i: usize = 0;
        while i < self.argv.len() && !str_eq(self.argv[i].as_str(), parm)
            invariant
                0 <= i <= args.len(),
                args == self.argv.deep_view(),
                arg_scan(args, parm@, 0) == arg_scan(args, parm@, i as int),
            decreases args.len() - i,
        {
            proof {
                assert(arg_scan(args, parm@, i as int) == arg_scan(args, parm@, i + 1));
            }
            i += 1;
        }
        if i < self.argv.len() {
            Some(i)
        } else {
            None
        }
    }

    /// Parse the integer value following the command line parameter, if the
    /// parameter is present and a value follows it.
    pub fn parse_value(&self, parm: &str) -> (r: Option<i32>)
        ensures
            match value_after(self.args(), parm@) {
                Some(v) => match r {
                    Some(n) => spec_parse_i32(v) == Some(n as int),
                    None => spec_parse_i32(v) is None,
                },
                None => r is None,
            },
    {
        proof {
            assert(self.args().len() == self.argv@.len());
        }
        match self.index(parm) {
            None => None,
            Some(parm_idx) => {
                if parm_idx < self.argv.len() && parm_idx + 1 < self.argv.len() {
                    parse_i32(self.argv[parm_idx + 1].as_str())
                } else {
                    None
                }
            },
        }
    }

    /// The single value following the command line parameter, if the
    /// parameter is present and a value follows it.
    pub fn value(&self, parm: &str) -> (r: Option<&str>)
        ensures
            match r {
                Some(v) => value_after(self.args(), parm@) == Some(v@),
                None => value_after(self.args(), parm@) is None,
            },
    {
        proof {
            assert(self.args().len() == self.argv@.len());
        }
        match self.index(parm) {
            None => None,
            Some(parm_idx) => {
                if parm_idx < self.argv.len() && parm_idx + 1 < self.argv.len() {
                    Some(self.argv[parm_idx + 1].as_str())
                } else {
                    None
                }
            },
        }
    }

    /// The values following the command line parameter: the entries after
    /// it, up to the next entry that is empty or starts with `+` or `-`.
    /// `None` when the parameter is absent or no value follows it.
    pub fn values(&self, parm: &str) -> (r: Option<&[String]>)
        ensures
            ({
                let i = arg_scan(self.args(), parm@, 0);
                let e = value_run_end(self.args(), i + 1);
                match r {
                    Some(vs) => i < self.args().len() && i + 1 < e && vs.deep_view()
                        == self.args().subrange(i + 1, e),
                    None => i >= self.args().len() || e == i + 1,
                }
            }),
    {
        let ghost args = self.argv.deep_view();
        proof {
            assert(args.len() == self.argv@.len());
        }
        match self.index(parm) {
            None => None,
            Some(parm_idx) => {
                let n = self.argv.len();
                proof {
                    assert(parm_idx < n);
                }
                let start = parm_idx + 1;
                let mut end = start;
                while end < self.argv.len() && is_value_arg(self.argv[end].as_str())
                    invariant
                        start <= end <= args.len(),
                        start == parm_idx + 1 <= args.len(),
                        args == self.argv.deep_view(),
                        value_run_end(args, start as int) == value_run_end(args, end as int),
                    decreases args.len() - end,
                {
                    proof {
                        assert(args[end as int] == self.argv[end as int]@);
                        assert(value_run_end(args, end as int) == value_run_end(args, end + 1));
                    }
                    end += 1;
                }
                proof {
                    if end < args.len() {
                        assert(args[end as int] == self.argv[end as int]@);
                    }
                    assert(value_run_end(args, end as int) == end as int);
                }
                if start == end {
                    None
                } else {
                    let sl = vstd::slice::slice_subrange(self.argv.as_slice(), start, end);
                    proof {
                        assert(sl.deep_view() =~= args.subrange(start as int, end as int));
                    }
                    Some(sl)
                }
            },
        }
    }
}

/// Can this entry be a parameter value? It must be non-empty and must not
/// start a new parameter or command.
fn is_value_arg(s: &str) -> (r: bool)
    ensures
        r == (s@.len() > 0 && s@[0] != '+' && s@[0] != '-'),
{
    if s.unicode_len() == 0 {
        return false;
    }
    let c = s.get_char(0);
    c != '+' && c != '-'
}

/// The entries of `args` up to `n`, joined with single spaces.
pub open spec fn join_spaced(args: Seq<Seq<char>>, n: int) -> Seq<char>
    recommends
        0 <= n <= args.len(),
    decreases n,
{
    if n <= 0 {
        Seq::empty()
    } else if n == 1 {
        args[0]
    } else {
        join_spaced(args, n - 1) + seq![' '] + args[n - 1]
    }
}

/// Join the arguments into one line, separated by single spaces.
fn join_args(argv: &Vec<String>) -> (r: String)
    ensures
        r@ == join_spaced(argv.deep_view(), argv.deep_view().len() as int),
{
    let ghost args = argv.deep_view();
    let mut s = String::new();
    let mut i: usize = 0;
    while i < argv.len()
        invariant
            0 <= i <= args.len(),
            args == argv.deep_view(),
            s@ == join_spaced(args, i as int),
        decreases args.len() - i,
    {
        if i > 0 {
            s.append(" ");
        }
        s.append(argv[i].as_str());
        proof {
            reveal_strlit(" ");
            assert(" "@ =~= seq![' ']);
            assert(args[i as int] == argv[i as int]@);
            assert(s@ =~= join_spaced(args, i + 1));
        }
        i += 1;
    }
    s
}

/// Does some entry of `argv` read `parm`?
fn has_arg(argv: &Vec<String>, parm: &str) -> (r: bool)
    ensures
        r == contains_arg(argv.deep_view(), parm@),
{
    let ghost args = argv.deep_view();
    let mut i: usize = 0;
    while i < argv.len() && !str_eq(argv[i].as_str(), parm)
        invariant
            0 <= i <= args.len(),
            args == argv.deep_view(),
            arg_scan(args, parm@, 0) == arg_scan(args, parm@, i as int),
        decreases args.len() - i,
    {
        proof {
            assert(arg_scan(args, parm@, i as int) == arg_scan(args, parm@, i + 1));
        }
        i += 1;
    }
    proof {
        lemma_arg_scan(args, parm@, 0);
    }
    i < argv.len()
}

/// Parse a string as a signed 32-bit decimal integer, exactly as the
/// standard library does: an optional sign, then one or more digits.
fn parse_i32(s: &str) -> (r: Option<i32>)
    ensures
        match r {
            Some(n) => spec_parse_i32(s@) == Some(n as int),
            None => spec_parse_i32(s@) is None,
        },
{
    let len = s.unicode_len();
    if len == 0 {
        return None;
    }
    let first = s.get_char(0);
    let neg = first == '-';
    let start: usize = if first == '-' || first == '+' {
        1
    } else {
        0
    };
    let ghost body = if s@[0] == '-' || s@[0] == '+' {
        s@.drop_first()
    } else {
        s@
    };
    proof {
        assert(body.len() == len - start);
        assert(forall|j: int| 0 <= j < body.len() ==> body[j] == s@[j + start]);
    }
    if len == start {
        return None;
    }

    // Accumulate the digits, clamping once the value can no longer be a
    // 32-bit integer.
    let mut acc: u64 = 0;
    let mut k: usize = start;
    while k < len
        invariant
            start <= k <= len,
            len == s@.len(),
            start == 0 || start == 1,
            body.len() == len - start,
            forall|j: int| 0 <= j < body.len() ==> body[j] == s@[j + start],
            s@.len() > 0,
            body == (if s@[0] == '-' || s@[0] == '+' {
                s@.drop_first()
            } else {
                s@
            }),
            forall|j: int| 0 <= j < k - start ==> is_digit_char(body[j]),
            dec_val(body.take(k - start)) <= 0xffff_ffff ==> acc == dec_val(
                body.take(k - start),
            ),
            dec_val(body.take(k - start)) > 0xffff_ffff ==> acc == 0x1_0000_0000u64,
            acc <= 0x1_0000_0000u64,
        decreases len - k,
    {
        let c = s.get_char(k);
        let cu = c as u32;
        if cu < 48 || cu > 57 {
            proof {
                assert(0 <= k - start < body.len() && !is_digit_char(body[k - start]));
                assert(!all_digits(body));
            }
            return None;
        }
        let d = (cu - 48) as u64;
        proof {
            assert(body.take(k + 1 - start).drop_last() =~= body.take(k - start));
            assert(body.take(k + 1 - start).last() == body[k - start]);
            assert(dec_val(body.take(k + 1 - start)) == dec_val(body.take(k - start)) * 10 + d);
        }
        if acc > 0xffff_ffff {
            acc = 0x1_0000_0000u64;
        } else {
            acc = acc * 10 + d;
            if acc > 0xffff_ffff {
                acc = 0x1_0000_0000u64;
            }
        }
        k += 1;
    }
    proof {
        assert(body.take(k - start) =~= body);
    }

    if neg {
        if acc <= 0x8000_0000u64 {
            let v: i64 = 0i64 - (acc as i64);
            Some(v as i32)
        } else {
            None
        }
    } else {
        if acc <= 0x7fff_ffffu64 {
            Some(acc as i32)
        } else {
            None
        }
    }
}

} // verus!
