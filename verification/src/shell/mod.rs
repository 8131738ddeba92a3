//! The shell: command lines, and the history of what was entered.

use vstd::prelude::*;

pub mod builtins;
pub mod command;
pub mod complete;

use crate::fs::memfs::MemFs;
use crate::fs::path::{canonical, canonicalize, SLASH};
use crate::shell::builtins::{session, Screen};
use crate::net::wire::copy_range;
use crate::shell::command::{command_of, Command};

verus! {

/// The state of the shell.
pub struct Shell {
    pub current_dir: Vec<u8>,
    pub command_history: Vec<Vec<u8>>,
    /// The place in the history that the user has gone back to.
    pub history_position: Option<usize>,
    pub tab_completions: Vec<Vec<u8>>,
    pub tab_index: usize,
}

/// The place of the last slash in `s`, if it holds one.
pub open spec fn last_slash(s: Seq<u8>) -> Option<int>
    decreases s.len(),
{
    if s.len() == 0 {
        None
    } else if s.last() == SLASH {
        Some(s.len() - 1)
    } else {
        last_slash(s.drop_last())
    }
}

/// Whether `line` holds nothing but blanks.
pub open spec fn is_blank(line: Seq<u8>) -> bool {
    forall|i: int| 0 <= i < line.len() ==> is_space(#[trigger] line[i])
}

/// Whether `byte` is white space: a blank, a tab, a line feed, a vertical
/// tab, a form feed or a carriage return.
pub open spec fn is_space(byte: u8) -> bool {
    byte == 0x20 || (0x09 <= byte <= 0x0D)
}

impl Shell {
    /// The place in the history is a place of an entry.
    pub open spec fn wf(&self) -> bool {
        self.history_position matches Some(at) ==> at < self.command_history@.len()
    }

    /// A shell in the root directory with an empty history.
    pub fn new() -> (r: Self)
        ensures
            r.wf(),
            r.current_dir@ == seq![SLASH],
            r.command_history@.len() == 0,
            r.history_position is None,
            r.tab_completions@.len() == 0,
            r.tab_index == 0,
    {
        let mut current_dir: Vec<u8> = Vec::new();
        current_dir.push(SLASH);
        Shell {
            current_dir,
            command_history: Vec::new(),
            history_position: None,
            tab_completions: Vec::new(),
            tab_index: 0,
        }
    }

    /// Forgets the completions that the last tab key made.
    pub fn reset_tab_completion(&mut self)
        ensures
            final(self).tab_completions@.len() == 0,
            final(self).tab_index == 0,
            final(self).current_dir == old(self).current_dir,
            final(self).command_history == old(self).command_history,
            final(self).history_position == old(self).history_position,
    {
        self.tab_completions.clear();
        self.tab_index = 0;
    }

    /// Splits `path` at its last slash into the directory before it and
    /// the name behind it; a path without a slash is all name.
    pub fn split_path(&self, path: &[u8]) -> (r: (Vec<u8>, Vec<u8>))
        ensures
            match last_slash(path@) {
                Some(at) => r.0@ == path@.take(at) && r.1@ == path@.skip(at + 1),
                None => r.0@.len() == 0 && r.1@ == path@,
            },
    {
        let mut i: usize = path.len();
        assert(path@.take(i as int) =~= path@);
        while i > 0
            invariant
                i <= path@.len(),
                last_slash(path@) == last_slash(path@.take(i as int)),
            decreases i,
        {
            let ghost prefix = path@.take(i as int);
            assert(prefix.last() == path@[i - 1]);
            assert(prefix.drop_last() =~= path@.take(i - 1));
            if path[i - 1] == SLASH {
                let dir = copy_range(path, 0, i - 1);
                let name = copy_range(path, i, path.len());
                assert(path@.subrange(0, i - 1) =~= path@.take(i - 1));
                assert(path@.subrange(i as int, path@.len() as int) =~= path@.skip(i as int));
                return (dir, name);
            }
            i = i - 1;
        }
        let name = copy_range(path, 0, path.len());
        assert(path@.subrange(0, path@.len() as int) =~= path@);
        (Vec::new(), name)
    }

    /// The canonical form of `path` seen from the current directory.
    pub fn resolve_path(&self, path: &[u8]) -> (r: Vec<u8>)
        ensures
            r@ == canonical(self.current_dir@, path@),
    {
        canonicalize(self.current_dir.as_slice(), path)
    }

    /// Goes one entry back in the history and gives it: the last entry
    /// first. At the oldest entry, and with an empty history, there is
    /// none, and the place stays.
    pub fn previous_command(&mut self) -> (r: Option<&[u8]>)
        requires
            old(self).wf(),
        ensures
            final(self).wf(),
            final(self).command_history == old(self).command_history,
            final(self).current_dir == old(self).current_dir,
            final(self).tab_completions == old(self).tab_completions,
            final(self).tab_index == old(self).tab_index,
            ({
                let n = old(self).command_history@.len();
                match old(self).history_position {
                    None => if n == 0 {
                        r is None && final(self).history_position is None
                    } else {
                        final(self).history_position == Some((n - 1) as usize) && (r matches Some(
                            line,
                        ) && line@ == old(self).command_history@[n - 1]@)
                    },
                    Some(at) => if at > 0 {
                        final(self).history_position == Some((at - 1) as usize) && (r matches Some(
                            line,
                        ) && line@ == old(self).command_history@[at - 1]@)
                    } else {
                        r is None && final(self).history_position == Some(0usize)
                    },
                }
            }),
    {
        if self.command_history.len() == 0 {
            return None;
        }
        let at = match self.history_position {
            None => self.command_history.len() - 1,
            Some(at) => {
                if at == 0 {
                    return None;
                }
                at - 1
            },
        };
        self.history_position = Some(at);
        Some(self.command_history[at].as_slice())
    }

    /// Goes one entry forward in the history and gives it. Behind the
    /// newest entry the history is left, and the answer is the empty line.
    pub fn next_command(&mut self) -> (r: Option<&[u8]>)
        requires
            old(self).wf(),
        ensures
            final(self).wf(),
            final(self).command_history == old(self).command_history,
            final(self).current_dir == old(self).current_dir,
            final(self).tab_completions == old(self).tab_completions,
            final(self).tab_index == old(self).tab_index,
            r is Some,
            ({
                let n = old(self).command_history@.len();
                match old(self).history_position {
                    Some(at) => if at + 1 < n {
                        final(self).history_position == Some((at + 1) as usize)
                            && r->0@ == old(self).command_history@[at + 1]@
                    } else {
                        final(self).history_position is None && r->0@.len() == 0
                    },
                    None => final(self).history_position is None && r->0@.len() == 0,
                }
            }),
    {
        match self.history_position {
            Some(at) => {
                if at < self.command_history.len() - 1 {
                    self.history_position = Some(at + 1);
                    return Some(self.command_history[at + 1].as_slice());
                }
            },
            None => {},
        }
        self.history_position = None;
        let nothing: &[u8] = &[];
        Some(nothing)
    }

    /// Takes a line that the user entered. A blank line is passed over.
    /// Any other line goes to the end of the history, the place in the
    /// history is forgotten, and the answer is the command that the line
    /// holds.
    pub fn enter(&mut self, input: &[u8]) -> (r: Option<Command>)
        ensures
            final(self).current_dir == old(self).current_dir,
            final(self).tab_completions == old(self).tab_completions,
            final(self).tab_index == old(self).tab_index,
            is_blank(input@) ==> r is None
                && final(self).command_history == old(self).command_history
                && final(self).history_position == old(self).history_position,
            !is_blank(input@) ==> {
                &&& final(self).wf()
                &&& final(self).history_position is None
                &&& final(self).command_history@.len() == old(self).command_history@.len() + 1
                &&& final(self).command_history@.last()@ == input@
                &&& final(self).command_history@.drop_last() == old(self).command_history@
                &&& match command_of(input@) {
                    Some(c) => r matches Some(command) && command@ == c,
                    None => r is None,
                }
            },
    {
        let mut i: usize = 0;
        while i < input.len() && (input[i] == 0x20 || (0x09 <= input[i] && input[i] <= 0x0D))
            invariant
                i <= input@.len(),
                forall|j: int| 0 <= j < i ==> is_space(#[trigger] input@[j]),
            decreases input@.len() - i,
        {
            i = i + 1;
        }
        if i == input.len() {
            return None;
        }
        assert(!is_space(input@[i as int]));
        let line = copy_range(input, 0, input.len());
        assert(input@.subrange(0, input@.len() as int) =~= input@);
        self.command_history.push(line);
        self.history_position = None;
        assert(self.command_history@.drop_last() =~= old(self).command_history@);
        Command::parse(input)
    }

    /// Takes a line that the user entered and runs the command that it
    /// holds. A blank line is passed over. Any other line goes to the end
    /// of the history, and the place in the history is forgotten; if the
    /// line holds a command, the command runs on the filesystem and the
    /// screen: see `Session::executed`.
    pub fn execute(&mut self, fs: &mut MemFs, screen: &mut Screen, input: &[u8])
        requires
            old(fs).wf(),
        ensures
            final(fs).wf(),
            final(self).tab_completions == old(self).tab_completions,
            final(self).tab_index == old(self).tab_index,
            is_blank(input@) ==> *final(self) == *old(self),
            is_blank(input@) ==> *final(fs) == *old(fs),
            is_blank(input@) ==> *final(screen) == *old(screen),
            !is_blank(input@) ==> {
                &&& final(self).wf()
                &&& final(self).history_position is None
                &&& final(self).command_history@.len() == old(self).command_history@.len() + 1
                &&& final(self).command_history@.last()@ == input@
                &&& final(self).command_history@.drop_last() == old(self).command_history@
                &&& session(final(fs), final(self), final(screen)) == (match command_of(input@) {
                    Some(command) => session(old(fs), old(self), old(screen)).executed(command),
                    None => session(old(fs), old(self), old(screen)),
                })
            },
    {
        let ghost before = session(fs, self, screen);
        match self.enter(input) {
            Some(command) => {
                assert(session(fs, self, screen) == before);
                self.run(fs, screen, &command);
            },
            None => {},
        }
    }
}

/// A shell, ready for the first line.
pub fn init() -> (r: Shell)
    ensures
        r.wf(),
        r.current_dir@ == seq![SLASH],
        r.command_history@.len() == 0,
        r.history_position is None,
        r.tab_completions@.len() == 0,
        r.tab_index == 0,
{
    Shell::new()
}

} // verus!
