//! The command text buffer.
//!
//! Incoming command text from scripts, key bindings or remote clients is
//! collected in one buffer and executed a line at a time. A line ends at a
//! newline, or at a semicolon that stands outside double quotes.

use vstd::prelude::*;
use vstd::string::StringExecFns;

verus! {

/// The index of `s` at or after `i` where the current line ends: the first
/// newline, or the first semicolon with an even number of double quotes
/// before it, or `s.len()`. `quotes` counts the double quotes already seen.
pub open spec fn line_end(s: Seq<char>, i: int, quotes: int) -> int
    recommends
        0 <= i <= s.len(),
    decreases s.len() - i,
{
    if i < 0 || i >= s.len() {
        s.len() as int
    } else if s[i] == '"' {
        line_end(s, i + 1, quotes + 1)
    } else if s[i] == ';' && quotes % 2 == 0 {
        i
    } else if s[i] == '\n' {
        i
    } else {
        line_end(s, i + 1, quotes)
    }
}

pub proof fn lemma_line_end(s: Seq<char>, i: int, quotes: int)
    requires
        0 <= i <= s.len(),
    ensures
        i <= line_end(s, i, quotes) <= s.len(),
    decreases s.len() - i,
{
    if i < s.len() {
        if s[i] == '"' {
            lemma_line_end(s, i + 1, quotes + 1);
        } else if s[i] == ';' && quotes % 2 == 0 {
        } else if s[i] == '\n' {
        } else {
            lemma_line_end(s, i + 1, quotes);
        }
    }
}

/// What one run of the buffer does: the lines executed, the text left over,
/// and the state of the wait flag afterwards.
///
/// Each step takes one line off the front of `text`, dropping its
/// terminator. A set wait flag stops the run after one line, and is cleared.
pub open spec fn buf_run(text: Seq<char>, wait: bool) -> (Seq<Seq<char>>, Seq<char>, bool)
    decreases text.len(),
{
    if text.len() == 0 {
        (Seq::<Seq<char>>::empty(), text, wait)
    } else {
        let e0 = line_end(text, 0, 0);
        let e = if e0 < 0 {
            0
        } else if e0 > text.len() {
            text.len() as int
        } else {
            e0
        };
        let line = text.take(e);
        let rest = if e == text.len() {
            Seq::<char>::empty()
        } else {
            text.skip(e + 1)
        };
        if wait {
            (seq![line], rest, false)
        } else {
            let t = buf_run(rest, false);
            (seq![line] + t.0, t.1, t.2)
        }
    }
}

/// A named console command.
pub struct CmdFunction {
    /// The name under which the command was registered.
    pub name: &'static str,
}

/// The command buffer together with the names of the registered commands.
pub struct Cmd {
    /// Buffered command text that has not been executed yet.
    pub cmd_text: String,
    /// The registered commands.
    pub cmd_functions: Vec<CmdFunction>,
    /// When set, execution of the rest of the buffer is delayed until the
    /// next frame.
    pub wait: bool,
}

impl Cmd {
    /// The names of the registered commands, in registration order.
    pub open spec fn command_names(self) -> Seq<Seq<char>> {
        Seq::new(self.cmd_functions@.len(), |i: int| self.cmd_functions@[i].name@)
    }

    /// A fresh command center: empty buffer, no commands, wait flag clear.
    pub fn new() -> (r: Cmd)
        ensures
            r.cmd_text@ == Seq::<char>::empty(),
            r.command_names() == Seq::<Seq<char>>::empty(),
            r.wait == false,
    {
        let r = Cmd { cmd_text: String::new(), cmd_functions: Vec::new(), wait: false };
        proof {
            assert(r.command_names() =~= Seq::<Seq<char>>::empty());
        }
        r
    }

    /// Add text to the end of the buffer.
    pub fn buf_add_text(&mut self, text: &str)
        ensures
            final(self).cmd_text@ == old(self).cmd_text@ + text@,
            final(self).cmd_functions == old(self).cmd_functions,
            final(self).wait == old(self).wait,
    {
        self.cmd_text.append(text);
    }

    /// Insert text at the front of the buffer, before any unexecuted
    /// commands. Useful when a command wants to issue other commands and
    /// have them processed immediately.
    pub fn buf_insert_text(&mut self, text: &str)
        ensures
            final(self).cmd_text@ == text@ + old(self).cmd_text@,
            final(self).cmd_functions == old(self).cmd_functions,
            final(self).wait == old(self).wait,
    {
        let mut s = String::from_str(text);
        s.append(self.cmd_text.as_str());
        self.cmd_text = s;
    }

    /// Take lines off the front of the buffer until it is empty, and return
    /// them for the caller to execute, in order.
    ///
    /// A line ends at a newline, or at a semicolon outside double quotes;
    /// the terminator is dropped. If the wait flag is set, exactly one line
    /// is taken and the flag is cleared, leaving the rest for the next
    /// frame.
    pub fn buf_execute(&mut self) -> (executed: Vec<String>)
        ensures
            executed.deep_view() == buf_run(old(self).cmd_text@, old(self).wait).0,
            final(self).cmd_text@ == buf_run(old(self).cmd_text@, old(self).wait).1,
            final(self).wait == buf_run(old(self).cmd_text@, old(self).wait).2,
            final(self).cmd_functions == old(self).cmd_functions,
    {
        let ghost text0 = self.cmd_text@;
        let ghost wait0 = self.wait;
        let mut out: Vec<String> = Vec::new();
        proof {
            assert(out.deep_view() =~= Seq::<Seq<char>>::empty());
        }
        while !self.cmd_text.as_str().is_empty()
            invariant_except_break
                self.cmd_functions == old(self).cmd_functions,
                buf_run(text0, wait0).0 == out.deep_view() + buf_run(
                    self.cmd_text@,
                    self.wait,
                ).0,
                buf_run(text0, wait0).1 == buf_run(self.cmd_text@, self.wait).1,
                buf_run(text0, wait0).2 == buf_run(self.cmd_text@, self.wait).2,
            ensures
                self.cmd_functions == old(self).cmd_functions,
                buf_run(text0, wait0).0 == out.deep_view(),
                buf_run(text0, wait0).1 == self.cmd_text@,
                buf_run(text0, wait0).2 == self.wait,
            decreases self.cmd_text@.len(),
        {
            let ghost cur = self.cmd_text@;
            let ghost curw = self.wait;
            let len = self.cmd_text.as_str().unicode_len();
            let e = find_line_end(self.cmd_text.as_str());
            proof {
                lemma_line_end(cur, 0, 0);
            }
            let line = String::from_str(self.cmd_text.as_str().substring_char(0, e));
            if e == len {
                // Hit the end of the text with no terminating character.
                self.cmd_text = String::new();
            } else {
                // Drop the line plus its terminating character.
                let rest = String::from_str(
                    self.cmd_text.as_str().substring_char(e + 1, len),
                );
                self.cmd_text = rest;
            }
            out.push(line);
            proof {
                assert(out.deep_view() =~= out.deep_view().drop_last() + seq![line@]);
                assert(buf_run(cur, curw).0 == seq![line@] + buf_run(self.cmd_text@, false).0
                    || (curw && buf_run(cur, curw).0 =~= seq![line@]));
            }
            if self.wait {
                // Process the rest of the buffer in the next frame.
                self.wait = false;
                break;
            }
            proof {
                assert(out.deep_view() + buf_run(self.cmd_text@, self.wait).0 =~= (
                out.deep_view().drop_last() + (seq![line@] + buf_run(
                    self.cmd_text@,
                    self.wait,
                ).0)));
            }
        }
        out
    }

    /// Register a command name.
    ///
    /// The name must not be registered already.
    pub fn add_command(&mut self, name: &'static str)
        requires
            !old(self).command_names().contains(name@),
        ensures
            final(self).command_names() == old(self).command_names().push(name@),
            final(self).cmd_text == old(self).cmd_text,
            final(self).wait == old(self).wait,
    {
        self.cmd_functions.push(CmdFunction { name });
        proof {
            assert(final(self).command_names() =~= old(self).command_names().push(name@));
        }
    }

    /// Is there a registered command with this name?
    pub fn command_exists(&self, name: &'static str) -> (r: bool)
        ensures
            r == self.command_names().contains(name@),
    {
        let ghost names = self.command_names();
        let mut i: usize = 0;
        while i < self.cmd_functions.len()
            invariant
                0 <= i <= self.cmd_functions@.len(),
                names == self.command_names(),
                names.len() == self.cmd_functions@.len(),
                forall|j: int| 0 <= j < i ==> names[j] != name@,
            decreases self.cmd_functions@.len() - i,
        {
            if crate::util::str_eq(self.cmd_functions[i].name, name) {
                proof {
                    assert(names[i as int] == name@);
                }
                return true;
            }
            i += 1;
        }
        proof {
            assert(forall|j: int|
                0 <= j < names.len() ==> names[j] != name@);
        }
        false
    }

    /// The name of the first registered command that the given partial
    /// string is a prefix of, if any.
    pub fn complete_command(&self, partial: &String) -> (r: Option<String>)
        ensures
            match r {
                Some(full) => exists|j: int|
                    {
                        &&& 0 <= j < self.command_names().len()
                        &&& self.command_names()[j] == full@
                        &&& partial@.is_prefix_of(full@)
                        &&& forall|k: int|
                            0 <= k < j ==> !partial@.is_prefix_of(
                                #[trigger] self.command_names()[k],
                            )
                    },
                None => forall|j: int|
                    0 <= j < self.command_names().len() ==> !partial@.is_prefix_of(
                        #[trigger] self.command_names()[j],
                    ),
            },
    {
        let ghost names = self.command_names();
        let mut i: usize = 0;
        while i < self.cmd_functions.len()
            invariant
                0 <= i <= self.cmd_functions@.len(),
                names == self.command_names(),
                names.len() == self.cmd_functions@.len(),
                forall|k: int| 0 <= k < i ==> !partial@.is_prefix_of(#[trigger] names[k]),
            decreases self.cmd_functions@.len() - i,
        {
            if crate::util::str_starts_with(self.cmd_functions[i].name, partial.as_str()) {
                proof {
                    assert(partial@ =~= names[i as int].subrange(0, partial@.len() as int));
                    assert(partial@.is_prefix_of(names[i as int]));
                }
                return Some(String::from_str(self.cmd_functions[i].name));
            }
            proof {
                if partial@.is_prefix_of(names[i as int]) {
                    assert(partial@ =~= names[i as int].subrange(0, partial@.len() as int));
                    assert(false);
                }
            }
            i += 1;
        }
        None
    }
}

/// Find where the first line of `text` ends: at the first newline or
/// unquoted semicolon, or at the end of the text.
fn find_line_end(text: &str) -> (e: usize)
    ensures
        e as int == line_end(text@, 0, 0),
        e <= text@.len(),
{
    let ghost s = text@;
    let len = text.unicode_len();
    let mut i: usize = 0;
    let mut quotes: usize = 0;
    while i < len
        invariant
            0 <= i <= len,
            len == s.len(),
            s == text@,
            quotes <= i,
            line_end(s, 0, 0) == line_end(s, i as int, quotes as int),
        decreases len - i,
    {
        let c = text.get_char(i);
        if c == '"' {
            proof {
                assert(line_end(s, i as int, quotes as int) == line_end(
                    s,
                    i + 1,
                    quotes + 1,
                ));
            }
            quotes += 1;
            i += 1;
        } else if c == ';' && quotes % 2 == 0 {
            proof {
                assert(line_end(s, i as int, quotes as int) == i);
            }
            return i;
        } else if c == '\n' {
            proof {
                assert(line_end(s, i as int, quotes as int) == i);
            }
            return i;
        } else {
            proof {
                assert(line_end(s, i as int, quotes as int) == line_end(
                    s,
                    i + 1,
                    quotes as int,
                ));
            }
            i += 1;
        }
    }
    len
}

} // verus!
