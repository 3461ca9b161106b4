//! String utilities: NUL-padded name fields, plain text comparisons, and the
//! cursor-based string processor used to tokenise command text.

use crate::errors::FsError;
use vstd::prelude::*;
use vstd::string::StringExecFns;

verus! {

/// The index of the first NUL byte of `b` at or after `i`, or `b.len()` if
/// no NUL byte follows.
pub open spec fn nul_scan(b: Seq<u8>, i: int) -> int
    recommends
        0 <= i <= b.len(),
    decreases b.len() - i,
{
    if i < 0 || i >= b.len() {
        b.len() as int
    } else if b[i] == 0u8 {
        i
    } else {
        nul_scan(b, i + 1)
    }
}

/// The bytes of `b` read as characters, one character per byte.
pub open spec fn chars_of_bytes(b: Seq<u8>) -> Seq<char> {
    Seq::new(b.len(), |i: int| b[i] as char)
}

/// The name stored in a fixed-width NUL-padded field: the text before the
/// first NUL byte. A field with no NUL byte at all, or with a non-ASCII byte
/// before the first NUL, holds no valid name.
pub open spec fn cstr_name(b: Seq<u8>) -> Option<Seq<char>> {
    let p = nul_scan(b, 0);
    if p == b.len() {
        None
    } else if forall|j: int| 0 <= j < p ==> b[j] < 128u8 {
        Some(chars_of_bytes(b.take(p)))
    } else {
        None
    }
}

/// The name stored in a fixed-width name field of an archive record: the
/// text before the first NUL byte, or, when the field holds no NUL byte at
/// all, the full field. Either way the text must be ASCII to be a valid
/// name.
pub open spec fn field_name(b: Seq<u8>) -> Option<Seq<char>> {
    let p = nul_scan(b, 0);
    if forall|j: int| 0 <= j < p ==> b[j] < 128u8 {
        Some(chars_of_bytes(b.take(p)))
    } else {
        None
    }
}

/// Relies on `String::push`: appends one character at the end.
#[verifier::external_body]
pub(crate) fn push_char(s: &mut String, c: char)
    ensures
        final(s)@ == old(s)@.push(c),
{
    s.push(c);
}

proof fn lemma_nul_scan_bounds(b: Seq<u8>, i: int)
    requires
        0 <= i <= b.len(),
    ensures
        i <= nul_scan(b, i) <= b.len(),
        nul_scan(b, i) < b.len() ==> b[nul_scan(b, i)] == 0u8,
        forall|j: int| i <= j < nul_scan(b, i) ==> b[j] != 0u8,
    decreases b.len() - i,
{
    if i < b.len() && b[i] != 0u8 {
        lemma_nul_scan_bounds(b, i + 1);
    }
}

/// The first NUL's position depends only on the bytes up to it: two
/// buffers that agree on `[i, p]`, where `p` is where the first scan stops,
/// stop at the same place.
proof fn lemma_nul_scan_prefix(b1: Seq<u8>, b2: Seq<u8>, i: int)
    requires
        0 <= i <= nul_scan(b1, 0),
        nul_scan(b1, 0) < b1.len(),
        nul_scan(b1, 0) < b2.len(),
        forall|j: int| i <= j <= nul_scan(b1, 0) ==> b1[j] == b2[j],
    ensures
        nul_scan(b2, i) == nul_scan(b1, 0),
    decreases b1.len() - i,
{
    lemma_nul_scan_bounds(b1, 0);
    let p = nul_scan(b1, 0);
    if i == p {
        assert(b2[i] == 0u8);
    } else {
        assert(b1[i] != 0u8);
        assert(b2[i] != 0u8);
        lemma_nul_scan_prefix(b1, b2, i + 1);
    }
}

/// Name parsing reads exactly the text before the first NUL byte: two
/// fixed-width fields that agree up to and including the first NUL parse to
/// the same name, whatever bytes follow it.
pub proof fn lemma_field_name_ignores_tail(b1: Seq<u8>, b2: Seq<u8>)
    requires
        nul_scan(b1, 0) < b1.len(),
        nul_scan(b1, 0) < b2.len(),
        forall|j: int| 0 <= j <= nul_scan(b1, 0) ==> b1[j] == b2[j],
    ensures
        field_name(b2) == field_name(b1),
{
    let p = nul_scan(b1, 0);
    lemma_nul_scan_bounds(b1, 0);
    lemma_nul_scan_prefix(b1, b2, 0);
    assert(b1.take(p) =~= b2.take(p));
}

/// Read the name out of a fixed-width archive name field.
///
/// The text before the first NUL byte is the name, and everything after
/// that byte is ignored; a field with no NUL byte at all holds the name in
/// full width. Non-ASCII text is rejected.
pub fn name_field_to_string(buf: &[u8]) -> (r: Result<String, FsError>)
    ensures
        match r {
            Ok(s) => field_name(buf@) == Some(s@),
            Err(e) => field_name(buf@) is None && e == FsError::MalformedArchive,
        },
{
    proof {
        lemma_nul_scan_bounds(buf@, 0);
    }
    let ghost p = nul_scan(buf@, 0);

    // Find the first NUL byte; without one, the name fills the field.
    let mut i: usize = 0;
    while i < buf.len() && buf[i] != 0u8
        invariant
            0 <= i <= buf@.len(),
            forall|j: int| 0 <= j < i ==> buf@[j] != 0u8,
            p == nul_scan(buf@, 0),
            i <= p,
        decreases buf@.len() - i,
    {
        proof {
            lemma_nul_scan_bounds(buf@, 0);
        }
        i += 1;
    }
    proof {
        lemma_nul_scan_bounds(buf@, 0);
        assert(i == p);
    }

    // Collect the text, one ASCII byte at a time.
    let mut s = String::new();
    let mut k: usize = 0;
    while k < i
        invariant
            0 <= k <= i <= buf@.len(),
            p == i,
            p == nul_scan(buf@, 0),
            forall|j: int| 0 <= j < k ==> buf@[j] < 128u8,
            s@ == chars_of_bytes(buf@.take(k as int)),
        decreases i - k,
    {
        let b = buf[k];
        if b >= 128u8 {
            return Err(FsError::MalformedArchive);
        }
        push_char(&mut s, b as char);
        proof {
            assert(s@ =~= chars_of_bytes(buf@.take(k + 1)));
        }
        k += 1;
    }
    proof {
        assert(field_name(buf@) == Some(s@));
    }
    Ok(s)
}

/// Read a `String` from a byte buffer that holds a C-style string.
///
/// The buffer is typically a fixed-width field whose tail is NUL padding or
/// junk: the text before the first NUL byte is the value, and everything
/// after that byte is ignored. A buffer with no NUL byte, or with a
/// non-ASCII byte before the first NUL, is rejected.
pub fn cstr_buf_to_string(buf: &[u8]) -> (r: Result<String, FsError>)
    ensures
        match r {
            Ok(s) => cstr_name(buf@) == Some(s@),
            Err(e) => cstr_name(buf@) is None && e == FsError::MalformedArchive,
        },
{
    proof {
        lemma_nul_scan_bounds(buf@, 0);
    }
    let ghost p = nul_scan(buf@, 0);

    // Find the first NUL byte.
    let mut i: usize = 0;
    while i < buf.len() && buf[i] != 0u8
        invariant
            0 <= i <= buf@.len(),
            forall|j: int| 0 <= j < i ==> buf@[j] != 0u8,
            p == nul_scan(buf@, 0),
            i <= p,
        decreases buf@.len() - i,
    {
        proof {
            lemma_nul_scan_bounds(buf@, 0);
        }
        i += 1;
    }
    proof {
        lemma_nul_scan_bounds(buf@, 0);
        assert(i == p);
    }
    if i == buf.len() {
        // No terminator anywhere in the field.
        return Err(FsError::MalformedArchive);
    }

    // Collect the text before the terminator, one ASCII byte at a time.
    let mut s = String::new();
    let mut k: usize = 0;
    while k < i
        invariant
            0 <= k <= i < buf@.len(),
            p == i,
            p == nul_scan(buf@, 0),
            forall|j: int| 0 <= j < k ==> buf@[j] < 128u8,
            s@ == chars_of_bytes(buf@.take(k as int)),
        decreases i - k,
    {
        let b = buf[k];
        if b >= 128u8 {
            return Err(FsError::MalformedArchive);
        }
        push_char(&mut s, b as char);
        proof {
            assert(s@ =~= chars_of_bytes(buf@.take(k + 1)));
        }
        k += 1;
    }
    proof {
        assert(cstr_name(buf@) == Some(s@));
    }
    Ok(s)
}

/// Do two strings hold the same characters?
pub fn str_eq(a: &str, b: &str) -> (r: bool)
    ensures
        r == (a@ == b@),
{
    let la = a.unicode_len();
    let lb = b.unicode_len();
    if la != lb {
        return false;
    }
    let mut i: usize = 0;
    while i < la
        invariant
            0 <= i <= la,
            la == a@.len(),
            la == b@.len(),
            forall|j: int| 0 <= j < i ==> a@[j] == b@[j],
        decreases la - i,
    {
        if a.get_char(i) != b.get_char(i) {
            return false;
        }
        i += 1;
    }
    proof {
        assert(a@ =~= b@);
    }
    true
}

/// Does `s` start with `prefix`?
pub fn str_starts_with(s: &str, prefix: &str) -> (r: bool)
    ensures
        r == (prefix@.len() <= s@.len() && prefix@ == s@.subrange(
            0,
            prefix@.len() as int,
        )),
{
    let lp = prefix.unicode_len();
    let ls = s.unicode_len();
    if lp > ls {
        return false;
    }
    let mut i: usize = 0;
    while i < lp
        invariant
            0 <= i <= lp <= ls,
            lp == prefix@.len(),
            ls == s@.len(),
            forall|j: int| 0 <= j < i ==> prefix@[j] == s@[j],
        decreases lp - i,
    {
        if s.get_char(i) != prefix.get_char(i) {
            return false;
        }
        i += 1;
    }
    proof {
        assert(prefix@ =~= s@.subrange(0, prefix@.len() as int));
    }
    true
}

/// Does `s` end with `suffix`?
pub fn str_ends_with(s: &str, suffix: &str) -> (r: bool)
    ensures
        r == (suffix@.len() <= s@.len() && suffix@ == s@.subrange(
            s@.len() - suffix@.len(),
            s@.len() as int,
        )),
{
    let lt = suffix.unicode_len();
    let ls = s.unicode_len();
    if lt > ls {
        return false;
    }
    let base = ls - lt;
    let mut i: usize = 0;
    while i < lt
        invariant
            0 <= i <= lt <= ls,
            base == ls - lt,
            lt == suffix@.len(),
            ls == s@.len(),
            forall|j: int| 0 <= j < i ==> suffix@[j] == s@[base + j],
        decreases lt - i,
    {
        if s.get_char(base + i) != suffix.get_char(i) {
            return false;
        }
        i += 1;
    }
    proof {
        assert(suffix@ =~= s@.subrange(s@.len() - suffix@.len(), s@.len() as int));
    }
    true
}

/// The character's code with an ASCII capital letter folded to lower case.
pub open spec fn lower_code(c: char) -> u32 {
    let u = c as u32;
    if 65 <= u <= 90 {
        (u + 32) as u32
    } else {
        u
    }
}

/// Are the two texts equal up to ASCII case?
pub open spec fn eq_icase(a: Seq<char>, b: Seq<char>) -> bool {
    a.len() == b.len() && forall|j: int| 0 <= j < a.len() ==> lower_code(a[j]) == lower_code(b[j])
}

/// Do two strings hold the same characters, ignoring ASCII case?
pub fn str_eq_ignore_ascii_case(a: &str, b: &str) -> (r: bool)
    ensures
        r == eq_icase(a@, b@),
{
    let la = a.unicode_len();
    let lb = b.unicode_len();
    if la != lb {
        return false;
    }
    let mut i: usize = 0;
    while i < la
        invariant
            0 <= i <= la,
            la == a@.len(),
            la == b@.len(),
            forall|j: int| 0 <= j < i ==> lower_code(a@[j]) == lower_code(b@[j]),
        decreases la - i,
    {
        let ca = a.get_char(i) as u32;
        let cb = b.get_char(i) as u32;
        let fa = if 65 <= ca && ca <= 90 {
            ca + 32
        } else {
            ca
        };
        let fb = if 65 <= cb && cb <= 90 {
            cb + 32
        } else {
            cb
        };
        if fa != fb {
            return false;
        }
        i += 1;
    }
    true
}

/// Is `c` whitespace in the command syntax? Anything at or below the ASCII
/// space character counts.
pub open spec fn is_space_char(c: char) -> bool {
    c as u32 <= 32
}

/// Is `c` one of the characters the command syntax treats as a token of its
/// own?
pub open spec fn is_special_char(c: char) -> bool {
    c == '{' || c == '}' || c == '(' || c == ')' || c == '\'' || c == ':'
}

/// The first index of `s` at or after `i` whose character is not whitespace,
/// or `s.len()` if only whitespace follows.
pub open spec fn scan_space(s: Seq<char>, i: int) -> int
    recommends
        0 <= i <= s.len(),
    decreases s.len() - i,
{
    if i < 0 || i >= s.len() {
        s.len() as int
    } else if is_space_char(s[i]) {
        scan_space(s, i + 1)
    } else {
        i
    }
}

/// Like [`scan_space`], but a newline also stops the scan.
pub open spec fn scan_space_before_newline(s: Seq<char>, i: int) -> int
    recommends
        0 <= i <= s.len(),
    decreases s.len() - i,
{
    if i < 0 || i >= s.len() {
        s.len() as int
    } else if is_space_char(s[i]) && s[i] != '\n' {
        scan_space_before_newline(s, i + 1)
    } else {
        i
    }
}

pub proof fn lemma_scan_space_before_newline(s: Seq<char>, i: int)
    requires
        0 <= i <= s.len(),
    ensures
        i <= scan_space_before_newline(s, i) <= s.len(),
        forall|j: int|
            i <= j < scan_space_before_newline(s, i) ==> is_space_char(s[j]) && s[j] != '\n',
        scan_space_before_newline(s, i) < s.len() ==> !(is_space_char(
            s[scan_space_before_newline(s, i)],
        ) && s[scan_space_before_newline(s, i)] != '\n'),
    decreases s.len() - i,
{
    if i < s.len() && is_space_char(s[i]) && s[i] != '\n' {
        lemma_scan_space_before_newline(s, i + 1);
    }
}

/// The first index of `s` at or after `i` holding the character `t`, or
/// `s.len()` if `t` never occurs there.
pub open spec fn scan_to_char(s: Seq<char>, i: int, t: char) -> int
    recommends
        0 <= i <= s.len(),
    decreases s.len() - i,
{
    if i < 0 || i >= s.len() {
        s.len() as int
    } else if s[i] != t {
        scan_to_char(s, i + 1, t)
    } else {
        i
    }
}

pub proof fn lemma_scan_to_char(s: Seq<char>, i: int, t: char)
    requires
        0 <= i <= s.len(),
    ensures
        i <= scan_to_char(s, i, t) <= s.len(),
        forall|j: int| i <= j < scan_to_char(s, i, t) ==> s[j] != t,
        scan_to_char(s, i, t) < s.len() ==> s[scan_to_char(s, i, t)] == t,
    decreases s.len() - i,
{
    if i < s.len() && s[i] != t {
        lemma_scan_to_char(s, i + 1, t);
    }
}

/// The first index of `s` at or after `i` where a "normal" token ends: the
/// next whitespace or special character, or `s.len()`.
pub open spec fn scan_plain(s: Seq<char>, i: int) -> int
    recommends
        0 <= i <= s.len(),
    decreases s.len() - i,
{
    if i < 0 || i >= s.len() {
        s.len() as int
    } else if !is_space_char(s[i]) && !is_special_char(s[i]) {
        scan_plain(s, i + 1)
    } else {
        i
    }
}

pub proof fn lemma_scan_plain(s: Seq<char>, i: int)
    requires
        0 <= i <= s.len(),
    ensures
        i <= scan_plain(s, i) <= s.len(),
        forall|j: int|
            i <= j < scan_plain(s, i) ==> !is_space_char(s[j]) && !is_special_char(s[j]),
        scan_plain(s, i) < s.len() ==> (is_space_char(s[scan_plain(s, i)]) || is_special_char(
            s[scan_plain(s, i)],
        )),
    decreases s.len() - i,
{
    if i < s.len() && !is_space_char(s[i]) && !is_special_char(s[i]) {
        lemma_scan_plain(s, i + 1);
    }
}

/// What `consume_quoted` finds at position `i` of `s`: the range of the
/// quote's contents and the position after it, or nothing when no quote
/// starts at `i`.
pub open spec fn spec_consume_quoted(s: Seq<char>, i: int) -> Option<((int, int), int)> {
    if i < 0 || i >= s.len() {
        None
    } else if s[i] != '"' {
        None
    } else {
        let j = i + 1;
        if j >= s.len() {
            Some(((0, 0), j))
        } else {
            let q = scan_to_char(s, j, '"');
            if q == j {
                Some(((0, 0), j + 1))
            } else if q < s.len() {
                Some(((j, q), q + 1))
            } else {
                Some(((j, s.len() as int), s.len() as int))
            }
        }
    }
}

/// What `consume_special` finds at position `i` of `s`.
pub open spec fn spec_consume_special(s: Seq<char>, i: int) -> Option<((int, int), int)> {
    if 0 <= i < s.len() && is_special_char(s[i]) {
        Some(((i, i + 1), i + 1))
    } else {
        None
    }
}

/// What `consume_normal` finds at position `i` of `s`: the characters up to
/// the next whitespace or special character.
pub open spec fn spec_consume_normal(s: Seq<char>, i: int) -> Option<((int, int), int)> {
    if i < 0 || i >= s.len() {
        None
    } else {
        let e = scan_plain(s, i);
        Some(((i, e), e))
    }
}

/// What `consume_token` finds at position `i` of `s`: a quoted string, a
/// special character, or a normal token, whichever starts there.
pub open spec fn spec_consume_token(s: Seq<char>, i: int) -> Option<((int, int), int)> {
    if i < 0 || i >= s.len() {
        None
    } else if s[i] == '"' {
        spec_consume_quoted(s, i)
    } else if is_special_char(s[i]) {
        spec_consume_special(s, i)
    } else {
        spec_consume_normal(s, i)
    }
}

/// A token consumed where the text holds a non-whitespace character always
/// moves the cursor forward, and its range lies inside the text.
pub proof fn lemma_consume_token_progress(s: Seq<char>, i: int)
    requires
        0 <= i < s.len(),
        !is_space_char(s[i]),
    ensures
        spec_consume_token(s, i) is Some,
        ({
            let ((a, b), ni) = spec_consume_token(s, i)->Some_0;
            0 <= a <= b <= s.len() && i < ni <= s.len()
        }),
{
    if s[i] == '"' {
        let j = i + 1;
        if j < s.len() {
            lemma_scan_to_char(s, j, '"');
        }
    } else if is_special_char(s[i]) {
    } else {
        lemma_scan_plain(s, i);
    }
}

/// Performs stateful parsing-related operations on a string.
///
/// The processor holds a reference to a string and a cursor, which starts at
/// the front. Positions and the returned ranges count characters, so for
/// ASCII text they can index the original string directly.
///
/// The `consume_*` methods try to parse one kind of substring at the cursor;
/// on success they move the cursor past it and return the substring's range
/// within the original string.
pub struct StrProcessor<'a> {
    text: &'a str,
    i: usize,
    max_i: usize,
}

impl<'a> StrProcessor<'a> {
    /// The cursor sits inside the string and the recorded length is the
    /// string's.
    pub closed spec fn wf(self) -> bool {
        self.i <= self.max_i && self.max_i == self.text@.len()
    }

    /// The characters of the string under the cursor.
    pub closed spec fn chars(self) -> Seq<char> {
        self.text@
    }

    /// The cursor position, in characters.
    pub closed spec fn pos(self) -> int {
        self.i as int
    }

    /// Create a new `StrProcessor` over the given string, with the cursor at
    /// the front.
    pub fn new(text: &'a str) -> (r: Self)
        ensures
            r.wf(),
            r.chars() == text@,
            r.pos() == 0,
    {
        let max_i = text.unicode_len();
        Self { text, i: 0, max_i }
    }

    /// Move past any whitespace at and immediately beyond the cursor.
    ///
    /// A whitespace character is anything at or below the ASCII space
    /// character.
    pub fn skip_whitespace(&mut self)
        requires
            old(self).wf(),
        ensures
            final(self).wf(),
            final(self).chars() == old(self).chars(),
            final(self).pos() == scan_space(old(self).chars(), old(self).pos()),
    {
        let ghost s = self.text@;
        let ghost i0 = self.i as int;
        while self.i < self.max_i && (self.text.get_char(self.i) as u32) <= 32
            invariant
                self.wf(),
                s == self.text@,
                self.text == old(self).text,
                self.max_i == old(self).max_i,
                i0 <= self.i as int,
                scan_space(s, i0) == scan_space(s, self.i as int),
            decreases self.max_i - self.i,
        {
            proof {
                assert(scan_space(s, self.i as int) == scan_space(s, self.i + 1));
            }
            self.i = self.i + 1;
        }
    }

    /// Move past whitespace at the cursor, but never past a newline.
    ///
    /// Used by the command tokeniser, for which a newline separates commands
    /// and must be seen by the caller.
    pub fn skip_whitespace_until_newline(&mut self)
        requires
            old(self).wf(),
        ensures
            final(self).wf(),
            final(self).chars() == old(self).chars(),
            final(self).pos() == scan_space_before_newline(old(self).chars(), old(self).pos()),
    {
        let ghost s = self.text@;
        let ghost i0 = self.i as int;
        while self.i < self.max_i && (self.text.get_char(self.i) as u32) <= 32
            && self.text.get_char(self.i) != '\n'
            invariant
                self.wf(),
                s == self.text@,
                self.text == old(self).text,
                self.max_i == old(self).max_i,
                i0 <= self.i as int,
                scan_space_before_newline(s, i0) == scan_space_before_newline(s, self.i as int),
            decreases self.max_i - self.i,
        {
            proof {
                assert(scan_space_before_newline(s, self.i as int)
                    == scan_space_before_newline(s, self.i + 1));
            }
            self.i = self.i + 1;
        }
    }

    /// Move past a `//` comment, if one starts at the cursor.
    ///
    /// A comment ends at the first newline, which is consumed too, or at the
    /// end of the string. Returns `true` if a comment was skipped.
    pub fn skip_comment(&mut self) -> (r: bool)
        requires
            old(self).wf(),
        ensures
            final(self).wf(),
            final(self).chars() == old(self).chars(),
            r == (old(self).pos() + 2 <= old(self).chars().len() && old(self).chars()[old(
                self,
            ).pos()] == '/' && old(self).chars()[old(self).pos() + 1] == '/'),
            r ==> final(self).pos() == ({
                let nl = scan_to_char(old(self).chars(), old(self).pos(), '\n');
                if nl < old(self).chars().len() {
                    nl + 1
                } else {
                    nl
                }
            }),
            !r ==> final(self).pos() == old(self).pos(),
    {
        let ghost s = self.text@;
        let ghost i0 = self.i as int;
        let starts = self.i < self.max_i && self.i + 1 < self.max_i && self.text.get_char(self.i)
            == '/' && self.text.get_char(self.i + 1) == '/';
        if !starts {
            return false;
        }
        while self.i < self.max_i && self.text.get_char(self.i) != '\n'
            invariant
                self.wf(),
                s == self.text@,
                self.text == old(self).text,
                self.max_i == old(self).max_i,
                i0 <= self.i as int,
                scan_to_char(s, i0, '\n') == scan_to_char(s, self.i as int, '\n'),
            decreases self.max_i - self.i,
        {
            proof {
                assert(scan_to_char(s, self.i as int, '\n') == scan_to_char(s, self.i + 1, '\n'));
            }
            self.i = self.i + 1;
        }
        if self.i < self.max_i {
            // Consume the newline that ends the comment.
            self.i = self.i + 1;
        }
        true
    }

    /// Has the cursor reached the end of the string?
    pub fn reached_end(&self) -> (r: bool)
        requires
            self.wf(),
        ensures
            r == (self.pos() == self.chars().len()),
    {
        self.i == self.max_i
    }

    /// The rest of the string, from the cursor on, as a range within the
    /// original string; `None` once the cursor sits at the end.
    pub fn remainder(&self) -> (r: Option<core::ops::Range<usize>>)
        requires
            self.wf(),
        ensures
            match r {
                Option::None => self.pos() == self.chars().len(),
                Option::Some(rg) => self.pos() < self.chars().len() && rg.start == self.pos()
                    && rg.end == self.chars().len(),
            },
    {
        if self.i == self.max_i {
            None
        } else {
            Some(self.i..self.max_i)
        }
    }

    /// Try to move past and return a quoted string at the cursor.
    ///
    /// Quote marks cannot be escaped. An unterminated quote runs to the end
    /// of the string; an empty quote comes back as the empty range.
    pub fn consume_quoted(&mut self) -> (r: Option<core::ops::Range<usize>>)
        requires
            old(self).wf(),
        ensures
            final(self).wf(),
            final(self).chars() == old(self).chars(),
            match r {
                Option::None => spec_consume_quoted(old(self).chars(), old(self).pos()) is None
                    && final(self).pos() == old(self).pos(),
                Option::Some(rg) => spec_consume_quoted(old(self).chars(), old(self).pos())
                    == Some(((rg.start as int, rg.end as int), final(self).pos())),
            },
    {
        let ghost s = self.text@;
        if self.i == self.max_i {
            return None;
        }
        if self.text.get_char(self.i) != '"' {
            return None;
        }
        self.i = self.i + 1;
        if self.i == self.max_i {
            return Some(0..0);
        }
        // Scan for the closing quote.
        let start = self.i;
        let ghost j = self.i as int;
        while self.i < self.max_i && self.text.get_char(self.i) != '"'
            invariant
                self.wf(),
                s == self.text@,
                self.text == old(self).text,
                self.max_i == old(self).max_i,
                j <= self.i as int,
                start as int == j,
                j < s.len(),
                scan_to_char(s, j, '"') == scan_to_char(s, self.i as int, '"'),
            decreases self.max_i - self.i,
        {
            proof {
                assert(scan_to_char(s, self.i as int, '"') == scan_to_char(s, self.i + 1, '"'));
            }
            self.i = self.i + 1;
        }
        proof {
            lemma_scan_to_char(s, j, '"');
        }
        if self.i == self.max_i {
            // The quote never closes: treat it as ending at the end of the
            // string.
            return Some(start..self.max_i);
        }
        if self.i == start {
            // An immediately closed quote is the empty string.
            self.i = self.i + 1;
            return Some(0..0);
        }
        let end = self.i;
        self.i = self.i + 1;
        Some(start..end)
    }

    /// Try to move past and return a special character at the cursor.
    ///
    /// A special character is one of `{}()':`.
    pub fn consume_special(&mut self) -> (r: Option<core::ops::Range<usize>>)
        requires
            old(self).wf(),
        ensures
            final(self).wf(),
            final(self).chars() == old(self).chars(),
            match r {
                Option::None => spec_consume_special(old(self).chars(), old(self).pos()) is None
                    && final(self).pos() == old(self).pos(),
                Option::Some(rg) => spec_consume_special(old(self).chars(), old(self).pos())
                    == Some(((rg.start as int, rg.end as int), final(self).pos())),
            },
    {
        if self.i == self.max_i {
            return None;
        }
        let c = self.text.get_char(self.i);
        if Self::is_special(c) {
            let start = self.i;
            self.i = self.i + 1;
            Some(start..start + 1)
        } else {
            None
        }
    }

    /// Try to move past and return a "normal" token at the cursor: a run of
    /// characters free of whitespace and of special characters.
    ///
    /// Quotes are not treated specially here; use `consume_quoted` where
    /// they matter.
    pub fn consume_normal(&mut self) -> (r: Option<core::ops::Range<usize>>)
        requires
            old(self).wf(),
        ensures
            final(self).wf(),
            final(self).chars() == old(self).chars(),
            match r {
                Option::None => spec_consume_normal(old(self).chars(), old(self).pos()) is None
                    && final(self).pos() == old(self).pos(),
                Option::Some(rg) => spec_consume_normal(old(self).chars(), old(self).pos())
                    == Some(((rg.start as int, rg.end as int), final(self).pos())),
            },
    {
        let ghost s = self.text@;
        if self.i == self.max_i {
            return None;
        }
        let start = self.i;
        let ghost j = self.i as int;
        while self.i < self.max_i && Self::is_plain(self.text.get_char(self.i))
            invariant
                self.wf(),
                s == self.text@,
                self.text == old(self).text,
                self.max_i == old(self).max_i,
                j <= self.i as int,
                start as int == j,
                scan_plain(s, j) == scan_plain(s, self.i as int),
            decreases self.max_i - self.i,
        {
            proof {
                assert(scan_plain(s, self.i as int) == scan_plain(s, self.i + 1));
            }
            self.i = self.i + 1;
        }
        Some(start..self.i)
    }

    /// Try to move past and return one token of command syntax at the
    /// cursor: a quoted string, a single special character, or a normal
    /// token, whichever starts there.
    pub fn consume_token(&mut self) -> (r: Option<core::ops::Range<usize>>)
        requires
            old(self).wf(),
        ensures
            final(self).wf(),
            final(self).chars() == old(self).chars(),
            match r {
                Option::None => spec_consume_token(old(self).chars(), old(self).pos()) is None
                    && final(self).pos() == old(self).pos(),
                Option::Some(rg) => spec_consume_token(old(self).chars(), old(self).pos()) == Some(
                    ((rg.start as int, rg.end as int), final(self).pos()),
                ),
            },
    {
        if self.i == self.max_i {
            return None;
        }
        let c = self.text.get_char(self.i);
        if c == '"' {
            self.consume_quoted()
        } else if Self::is_special(c) {
            self.consume_special()
        } else {
            self.consume_normal()
        }
    }

    /// Can the given character stand inside a "normal" token?
    fn is_plain(c: char) -> (r: bool)
        ensures
            r == (!is_space_char(c) && !is_special_char(c)),
    {
        (c as u32) > 32 && !Self::is_special(c)
    }

    /// Is the given character one of the special single-character tokens?
    fn is_special(c: char) -> (r: bool)
        ensures
            r == is_special_char(c),
    {
        c == '{' || c == '}' || c == '(' || c == ')' || c == '\'' || c == ':'
    }
}

} // verus!
