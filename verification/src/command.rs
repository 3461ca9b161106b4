//! A received command, tokenised from one line of text.

use crate::util::{
    lemma_consume_token_progress, lemma_scan_space_before_newline, scan_space_before_newline,
    spec_consume_token, StrProcessor,
};
use vstd::prelude::*;
use vstd::slice::slice_subrange;
use vstd::string::StringExecFns;

verus! {

/// Where a command came from.
#[derive(Debug, PartialEq)]
pub enum CmdSource {
    /// From a client.
    Client,
    /// From the command buffer.
    CmdBuffer,
}

/// The most tokens kept from one command line; further tokens are consumed
/// but dropped.
pub const MAX_ARGS: usize = 80;

/// The tokens of one command line of `s`, starting at position `i` with
/// `argc` tokens already taken. Whitespace short of a newline is skipped
/// before each token; a newline or the end of the text ends the line. A
/// quoted string, a special character, or a run of plain characters makes
/// one token. Only the first [`MAX_ARGS`] tokens are kept.
pub open spec fn tokens_from(s: Seq<char>, i: int, argc: int) -> Seq<Seq<char>>
    decreases s.len() - i,
{
    if i < 0 || i > s.len() {
        Seq::empty()
    } else {
        let j0 = scan_space_before_newline(s, i);
        let j = if j0 < i {
            i
        } else if j0 > s.len() {
            s.len() as int
        } else {
            j0
        };
        if j >= s.len() {
            Seq::empty()
        } else if s[j] == '\n' {
            Seq::empty()
        } else {
            match spec_consume_token(s, j) {
                None => Seq::empty(),
                Some(((a, b), ni)) => {
                    if ni <= j || ni > s.len() {
                        Seq::empty()
                    } else {
                        let tok = s.subrange(a, b);
                        if argc < MAX_ARGS {
                            seq![tok] + tokens_from(s, ni, argc + 1)
                        } else {
                            tokens_from(s, ni, argc)
                        }
                    }
                },
            }
        }
    }
}

/// Represents some received command input, tokenised from a string: the
/// command's name first, then its arguments.
pub struct Command {
    /// Each individual token: the command, then its arguments.
    pub tokens: Vec<String>,
}

impl Command {
    /// A command always holds at least one token.
    pub open spec fn wf(self) -> bool {
        self.tokens@.len() > 0
    }

    /// The name of the command that was given.
    pub fn name(&self) -> (r: &str)
        requires
            self.wf(),
        ensures
            r@ == self.tokens@[0]@,
    {
        self.tokens[0].as_str()
    }

    /// The command's arguments, if any were given.
    pub fn args(&self) -> (r: Option<&[String]>)
        requires
            self.wf(),
        ensures
            match r {
                None => self.tokens@.len() == 1,
                Some(sl) => self.tokens@.len() > 1 && sl@ == self.tokens@.subrange(
                    1,
                    self.tokens@.len() as int,
                ),
            },
    {
        if self.tokens.len() == 1 {
            None
        } else {
            Some(slice_subrange(self.tokens.as_slice(), 1, self.tokens.len()))
        }
    }

    /// Try to form a `Command` from the given text.
    ///
    /// Returns `None` when the line holds no token at all; otherwise the
    /// command holds the line's tokens, in order.
    pub fn tokenise(text: String) -> (r: Option<Command>)
        ensures
            match r {
                None => tokens_from(text@, 0, 0).len() == 0,
                Some(cmd) => cmd.wf() && cmd.tokens.deep_view() == tokens_from(text@, 0, 0)
                    && tokens_from(text@, 0, 0).len() > 0,
            },
    {
        let ghost s = text@;
        let mut tokens: Vec<String> = Vec::new();
        let mut argc: usize = 0;
        let mut sp = StrProcessor::new(text.as_str());
        proof {
            assert(tokens.deep_view() =~= Seq::<Seq<char>>::empty());
            assert(tokens_from(s, 0, 0) =~= tokens.deep_view() + tokens_from(s, 0, 0));
        }
        loop
            invariant_except_break
                sp.wf(),
                sp.chars() == s,
                s == text@,
                0 <= sp.pos() <= s.len(),
                argc == tokens@.len(),
                argc <= MAX_ARGS,
                tokens_from(s, 0, 0) == tokens.deep_view() + tokens_from(
                    s,
                    sp.pos(),
                    argc as int,
                ),
            ensures
                tokens_from(s, 0, 0) == tokens.deep_view(),
            decreases s.len() - sp.pos(),
        {
            let ghost p0 = sp.pos();
            sp.skip_whitespace_until_newline();
            proof {
                lemma_scan_space_before_newline(s, p0);
                lemma_scan_space_before_newline(s, sp.pos());
                // Skipping again from the stop point changes nothing, so the
                // pending tokens are unchanged.
                assert(tokens_from(s, p0, argc as int) == tokens_from(
                    s,
                    sp.pos(),
                    argc as int,
                ));
            }
            match sp.remainder() {
                None => {
                    break;
                },
                Some(rg) => {
                    // A newline separates commands in the buffer.
                    if text.as_str().get_char(rg.start) == '\n' {
                        break;
                    }
                },
            }
            let ghost j = sp.pos();
            proof {
                lemma_consume_token_progress(s, j);
            }
            let token_range = sp.consume_token();
            match token_range {
                None => {
                    proof {
                        assert(false);
                    }
                },
                Some(rg) => {
                    if argc < MAX_ARGS {
                        let tok = String::from_str(
                            text.as_str().substring_char(rg.start, rg.end),
                        );
                        tokens.push(tok);
                        argc += 1;
                        proof {
                            assert(tokens.deep_view() =~= tokens.deep_view().drop_last()
                                + seq![s.subrange(rg.start as int, rg.end as int)]);
                            assert(tokens.deep_view().drop_last() + (seq![
                                s.subrange(rg.start as int, rg.end as int),
                            ] + tokens_from(s, sp.pos(), argc as int)) =~= tokens.deep_view()
                                + tokens_from(s, sp.pos(), argc as int));
                        }
                    }
                },
            }
        }
        if tokens.len() == 0 {
            proof {
                assert(tokens_from(s, 0, 0) =~= Seq::<Seq<char>>::empty());
            }
            None
        } else {
            let cmd = Command { tokens };
            Some(cmd)
        }
    }
}

} // verus!
