//! Session decisions around the engine: the exit sentinels, the
//! previous-line recall token, and the command history the line-reading
//! front end owns.

use vstd::prelude::*;

use crate::text::trim_spec;
use crate::text::trimmed;

verus! {

/// Whether the line, once trimmed, is one of the exit sentinels `quit`
/// or `exit`, compared case-insensitively.  Such a line ends the
/// session and is never handed to the parser.
pub open spec fn is_exit(s: Seq<char>) -> bool {
    let t = trim_spec(s);
    ||| (t.len() == 4 && (t[0] == 'q' || t[0] == 'Q') && (t[1] == 'u' || t[1] == 'U') && (t[2]
        == 'i' || t[2] == 'I') && (t[3] == 't' || t[3] == 'T'))
    ||| (t.len() == 4 && (t[0] == 'e' || t[0] == 'E') && (t[1] == 'x' || t[1] == 'X') && (t[2]
        == 'i' || t[2] == 'I') && (t[3] == 't' || t[3] == 'T'))
}

/// Executable counterpart of [`is_exit`]: trim, then compare
/// case-insensitively against the two sentinels.
pub fn is_exit_command(line: &str) -> (b: bool)
    ensures
        b == is_exit(line@),
{
    let t = trimmed(line);
    let ts = t.as_str();
    if ts.unicode_len() != 4 {
        return false;
    }
    let c0 = ts.get_char(0);
    let c1 = ts.get_char(1);
    let c2 = ts.get_char(2);
    let c3 = ts.get_char(3);
    let quit = (c0 == 'q' || c0 == 'Q') && (c1 == 'u' || c1 == 'U') && (c2 == 'i' || c2 == 'I')
        && (c3 == 't' || c3 == 'T');
    let exit = (c0 == 'e' || c0 == 'E') && (c1 == 'x' || c1 == 'X') && (c2 == 'i' || c2 == 'I')
        && (c3 == 't' || c3 == 'T');
    quit || exit
}

/// Whether the line, once trimmed, is exactly the recall token `!!`,
/// which stands for the previous successfully-submitted line.
pub open spec fn is_recall(s: Seq<char>) -> bool {
    trim_spec(s) == seq!['!', '!']
}

/// What the recall token expands to.
#[derive(Debug)]
pub enum Expanded {
    /// The line to run: the recalled previous line, or the line as
    /// given when it was no recall token.
    Command(String),
    /// The line was the recall token and no previous line exists; the
    /// engine must not be invoked.
    NoHistory,
}

/// Expands the recall token: a line that trims to `!!` becomes the
/// previous line if there is one, and a diagnostic otherwise; any other
/// line passes through unchanged.
pub fn expand_recall(line: &str, previous: Option<&String>) -> (r: Expanded)
    ensures
        match r {
            Expanded::Command(c) => {
                if is_recall(line@) {
                    previous is Some && c@ == previous->0@
                } else {
                    c@ == line@
                }
            },
            Expanded::NoHistory => is_recall(line@) && previous is None,
        },
{
    let t = trimmed(line);
    let ts = t.as_str();
    let recall = ts.unicode_len() == 2 && ts.get_char(0) == '!' && ts.get_char(1) == '!';
    proof {
        assert(recall == is_recall(line@)) by {
            if t@.len() == 2 && t@[0] == '!' && t@[1] == '!' {
                assert(t@ =~= seq!['!', '!']);
            }
            if t@ == seq!['!', '!'] {
                assert(t@.len() == 2);
            }
        }
    }
    if recall {
        match previous {
            Some(prev) => Expanded::Command(prev.clone()),
            None => Expanded::NoHistory,
        }
    } else {
        Expanded::Command(line.to_owned())
    }
}

/// The command history the line-reading front end owns: created empty
/// at session start, appended on each accepted line, queried only for
/// the most recent line.  The engine never sees it.
#[derive(Debug)]
pub struct History {
    pub entries: Vec<String>,
}

impl History {
    /// An empty history, for the start of a session.
    pub fn new() -> (h: Self)
        ensures
            h.entries@.len() == 0,
    {
        History { entries: Vec::new() }
    }

    /// Appends an accepted line.
    pub fn record(&mut self, line: String)
        ensures
            final(self).entries@ == old(self).entries@.push(line),
    {
        self.entries.push(line);
    }

    /// The most recently recorded line, if any line was recorded.
    pub fn last(&self) -> (r: Option<&String>)
        ensures
            match r {
                Some(l) => self.entries@.len() > 0 && l == self.entries@.last(),
                None => self.entries@.len() == 0,
            },
    {
        if self.entries.len() == 0 {
            None
        } else {
            Some(&self.entries[self.entries.len() - 1])
        }
    }
}

} // verus!
