//! The commands of the shell, run on the filesystem. What a command has to
//! say goes to the screen; what it hands on goes to the next command of a
//! pipeline or to a file.

use vstd::prelude::*;
use vstd::string::StringSliceAdditionalSpecFns;
use crate::fs::memfs::{
    creation, directory_at, entries, entry_views, file_at, removal, MemFs, NodeView,
};
use crate::fs::path::{canonical, components};
use crate::fs::{FileType, FsError};
use crate::net::wire::push_all;
use crate::shell::command::{words_view, Command, CommandView, Redirection, RedirectionView};
use crate::shell::complete::spaced;
use crate::shell::Shell;

verus! {

/// The byte that ends a line.
pub const NEWLINE: u8 = 0x0A;

/// What the console is to show: if `cleared`, an empty screen first, and
/// then `text`.
#[derive(Debug)]
pub struct Screen {
    pub text: Vec<u8>,
    pub cleared: bool,
}

impl Screen {
    /// Nothing to show.
    pub fn new() -> (r: Self)
        ensures
            r.text@.len() == 0,
            !r.cleared,
    {
        Screen { text: Vec::new(), cleared: false }
    }
}

/// The name of an error, as the shell reports it.
pub open spec fn reason(error: FsError) -> Seq<u8> {
    match error {
        FsError::NotFound => "NotFound".spec_bytes(),
        FsError::AlreadyExists => "AlreadyExists".spec_bytes(),
        FsError::NotADirectory => "NotADirectory".spec_bytes(),
        FsError::NotAFile => "NotAFile".spec_bytes(),
        FsError::InvalidPath => "InvalidPath".spec_bytes(),
        FsError::PermissionDenied => "PermissionDenied".spec_bytes(),
    }
}

/// The name of an error, as the shell reports it.
pub fn reason_text(error: FsError) -> (r: &'static str)
    ensures
        r.spec_bytes() == reason(error),
{
    match error {
        FsError::NotFound => "NotFound",
        FsError::AlreadyExists => "AlreadyExists",
        FsError::NotADirectory => "NotADirectory",
        FsError::NotAFile => "NotAFile",
        FsError::InvalidPath => "InvalidPath",
        FsError::PermissionDenied => "PermissionDenied",
    }
}

/// What a command says when `subject` failed with `error`: the words
/// before the subject, the subject, a colon and the name of the error.
pub open spec fn complaint(before: Seq<u8>, subject: Seq<u8>, error: FsError) -> Seq<u8> {
    before + subject + ": ".spec_bytes() + reason(error)
}

/// The bytes that a char with the number `byte` is written as: the byte
/// itself below 128, and two bytes from there on.
pub open spec fn char_bytes(byte: u8) -> Seq<u8> {
    if byte < 0x80 {
        seq![byte]
    } else {
        seq![(0xC0 + byte / 64) as u8, (0x80 + byte % 64) as u8]
    }
}

/// The bytes `s`, each written as the char with its number.
pub open spec fn as_chars(s: Seq<u8>) -> Seq<u8>
    decreases s.len(),
{
    if s.len() == 0 {
        Seq::empty()
    } else {
        as_chars(s.drop_last()) + char_bytes(s.last())
    }
}

/// Appends the bytes `bytes` to `out`, each written as the char with its number.
pub fn push_chars(out: &mut Vec<u8>, bytes: &[u8])
    ensures
        final(out)@ == old(out)@ + as_chars(bytes@),
{
    let mut i: usize = 0;
    assert(bytes@.take(0) =~= Seq::<u8>::empty());
    assert(out@ =~= old(out)@ + as_chars(bytes@.take(0)));
    while i < bytes.len()
        invariant
            i <= bytes@.len(),
            out@ == old(out)@ + as_chars(bytes@.take(i as int)),
        decreases bytes@.len() - i,
    {
        let byte = bytes[i];
        let ghost before = out@;
        if byte < 0x80 {
            out.push(byte);
        } else {
            out.push(0xC0 + byte / 64);
            out.push(0x80 + byte % 64);
        }
        proof {
            assert(bytes@.take(i + 1).drop_last() =~= bytes@.take(i as int));
            assert(bytes@.take(i + 1).last() == byte);
            assert(out@ =~= before + char_bytes(byte));
            assert(out@ =~= old(out)@ + as_chars(bytes@.take(i + 1)));
        }
        i = i + 1;
    }
    assert(bytes@.take(bytes@.len() as int) =~= bytes@);
}

/// Whether `name` is the word `word`.
pub fn is_named(name: &[u8], word: &str) -> (r: bool)
    ensures
        r == (name@ == word.spec_bytes()),
{
    let bytes = word.as_bytes();
    if name.len() != bytes.len() {
        return false;
    }
    let mut i: usize = 0;
    while i < name.len()
        invariant
            i <= name@.len(),
            name@.len() == bytes@.len(),
            bytes@ == word.spec_bytes(),
            forall|j: int| 0 <= j < i ==> name@[j] == bytes@[j],
        decreases name@.len() - i,
    {
        if name[i] != bytes[i] {
            return false;
        }
        i = i + 1;
    }
    assert(name@ =~= bytes@);
    true
}

/// The state that the commands of the shell work on, as mathematics: the
/// tree of the filesystem, the current directory, and the screen.
pub struct Session {
    pub files: Map<Seq<Seq<u8>>, NodeView>,
    pub cwd: Seq<u8>,
    pub text: Seq<u8>,
    pub cleared: bool,
}

/// The state that the commands find.
pub open spec fn session(fs: &MemFs, shell: &Shell, screen: &Screen) -> Session {
    Session { files: fs@, cwd: shell.current_dir@, text: screen.text@, cleared: screen.cleared }
}

impl Session {
    /// The line `line` written to the screen.
    pub open spec fn said(self, line: Seq<u8>) -> Session {
        Session { text: self.text + line + seq![NEWLINE], ..self }
    }
}

/// The text `text` of a screen with the help of the shell behind it.
pub open spec fn with_help(text: Seq<u8>) -> Seq<u8> {
    (Session { files: Map::empty(), cwd: Seq::empty(), text, cleared: false }).help().text
}

impl Screen {
    /// Writes the line `line` to the screen.
    pub fn say(&mut self, line: &[u8])
        ensures
            final(self).text@ == old(self).text@ + line@ + seq![NEWLINE],
            final(self).cleared == old(self).cleared,
    {
        push_all(&mut self.text, line);
        self.text.push(NEWLINE);
    }

    /// Writes the complaint about `subject` to the screen.
    pub fn complain(&mut self, before: &[u8], subject: &[u8], error: FsError)
        ensures
            final(self).text@ == old(self).text@ + complaint(before@, subject@, error) + seq![
                NEWLINE,
            ],
            final(self).cleared == old(self).cleared,
    {
        let mut line: Vec<u8> = Vec::new();
        push_all(&mut line, before);
        push_all(&mut line, subject);
        push_all(&mut line, ": ".as_bytes());
        push_all(&mut line, reason_text(error).as_bytes());
        assert(line@ =~= complaint(before@, subject@, error));
        self.say(line.as_slice());
    }

    /// Writes the help of the shell to the screen.
    pub fn help(&mut self)
        ensures
            final(self).cleared == old(self).cleared,
            final(self).text@ == with_help(old(self).text@),
    {
        self.say("Available commands:".as_bytes());
        self.say("  ls [path]     - List directory contents".as_bytes());
        self.say("  cd [path]     - Change current directory".as_bytes());
        self.say("  pwd           - Print current directory".as_bytes());
        self.say("  cat <file>    - Display file contents".as_bytes());
        self.say("  mkdir <dir>   - Create a directory".as_bytes());
        self.say("  touch <file>  - Create an empty file".as_bytes());
        self.say("  rm <file>     - Remove a file".as_bytes());
        self.say("  echo [text]   - Display a line of text".as_bytes());
        self.say("  cp <src> <dst> - Copy a file".as_bytes());
        self.say("  mv <src> <dst> - Move a file".as_bytes());
        self.say("  clear         - Clear the screen".as_bytes());
        self.say("  help          - Show this help message".as_bytes());
        self.say("\nRedirection and Pipes:".as_bytes());
        self.say("  command < file   - Input redirection".as_bytes());
        self.say("  command > file   - Output redirection (overwrite)".as_bytes());
        self.say("  command >> file  - Output redirection (append)".as_bytes());
        self.say("  cmd1 | cmd2      - Pipe output of cmd1 to input of cmd2".as_bytes());
        self.say("\nUse Tab for command/path completion".as_bytes());
    }
}

/// The names of the first `k` entries of `list`, a line each.
pub open spec fn names_shown(list: Seq<(Seq<u8>, FileType)>, k: nat) -> Seq<u8>
    decreases k,
{
    if k == 0 {
        Seq::empty()
    } else {
        names_shown(list, (k - 1) as nat) + list[k - 1].0 + seq![NEWLINE]
    }
}

/// A command that changes the tree at each of its operands.
#[derive(Debug, Clone, Copy, PartialEq, Eq, Structural)]
pub enum Change {
    /// `mkdir`: makes a directory.
    MakeDirectory,
    /// `touch`: makes an empty file.
    Touch,
    /// `rm`: removes what is there.
    Remove,
}

impl Change {
    /// The tree after the change at `path`, or why there is none.
    pub open spec fn at(self, files: Map<Seq<Seq<u8>>, NodeView>, path: Seq<u8>) -> Result<
        Map<Seq<Seq<u8>>, NodeView>,
        FsError,
    > {
        match self {
            Change::MakeDirectory => creation(files, path, NodeView::Directory),
            Change::Touch => creation(files, path, NodeView::File(Seq::empty())),
            Change::Remove => removal(files, path),
        }
    }

    /// The words with which the command starts a complaint.
    pub open spec fn label(self) -> Seq<u8> {
        match self {
            Change::MakeDirectory => "mkdir: ".spec_bytes(),
            Change::Touch => "touch: ".spec_bytes(),
            Change::Remove => "rm: ".spec_bytes(),
        }
    }

    /// What the command says when it has no operand.
    pub open spec fn missing(self) -> Seq<u8> {
        match self {
            Change::MakeDirectory => "mkdir: missing operand".spec_bytes(),
            Change::Touch => "touch: missing file operand".spec_bytes(),
            Change::Remove => "rm: missing operand".spec_bytes(),
        }
    }
}

impl Session {
    /// `ls`: the names in the directory `args[0]`, or in the current
    /// directory, a line each; or the complaint.
    pub open spec fn ls(self, args: Seq<Seq<u8>>) -> Session {
        let path = if args.len() == 0 {
            self.cwd
        } else {
            args[0]
        };
        match directory_at(self.files, path) {
            Ok(()) => {
                let list = entries(self.files, components(path));
                Session { text: self.text + names_shown(list, list.len()), ..self }
            },
            Err(error) => self.said(complaint("ls: ".spec_bytes(), path, error)),
        }
    }

    /// `cd`: the current directory becomes `args[0]`, or the root, if
    /// that is a directory.
    pub open spec fn cd(self, args: Seq<Seq<u8>>) -> Session {
        let path = if args.len() == 0 {
            "/".spec_bytes()
        } else {
            args[0]
        };
        let target = canonical(self.cwd, path);
        if directory_at(self.files, target) is Ok {
            Session { cwd: target, ..self }
        } else {
            self.said("cd: ".spec_bytes() + path + ": Not a directory".spec_bytes())
        }
    }

    /// `pwd`: the current directory.
    pub open spec fn pwd(self) -> Session {
        self.said(self.cwd)
    }

    /// `help`: the commands and what they do, a line each.
    pub open spec fn help(self) -> Session {
        self.said(
            "Available commands:".spec_bytes(),
        ).said(
            "  ls [path]     - List directory contents".spec_bytes(),
        ).said(
            "  cd [path]     - Change current directory".spec_bytes(),
        ).said(
            "  pwd           - Print current directory".spec_bytes(),
        ).said(
            "  cat <file>    - Display file contents".spec_bytes(),
        ).said(
            "  mkdir <dir>   - Create a directory".spec_bytes(),
        ).said(
            "  touch <file>  - Create an empty file".spec_bytes(),
        ).said(
            "  rm <file>     - Remove a file".spec_bytes(),
        ).said(
            "  echo [text]   - Display a line of text".spec_bytes(),
        ).said(
            "  cp <src> <dst> - Copy a file".spec_bytes(),
        ).said(
            "  mv <src> <dst> - Move a file".spec_bytes(),
        ).said(
            "  clear         - Clear the screen".spec_bytes(),
        ).said(
            "  help          - Show this help message".spec_bytes(),
        ).said(
            "\nRedirection and Pipes:".spec_bytes(),
        ).said(
            "  command < file   - Input redirection".spec_bytes(),
        ).said(
            "  command > file   - Output redirection (overwrite)".spec_bytes(),
        ).said(
            "  command >> file  - Output redirection (append)".spec_bytes(),
        ).said(
            "  cmd1 | cmd2      - Pipe output of cmd1 to input of cmd2".spec_bytes(),
        ).said(
            "\nUse Tab for command/path completion".spec_bytes(),
        )
    }

    /// `clear`: an empty screen.
    pub open spec fn clear(self) -> Session {
        Session { text: Seq::empty(), cleared: true, ..self }
    }

    /// `cat` on the first `k` operands: the bytes of each file as chars
    /// and a line end, or the complaint about it.
    pub open spec fn cat_upto(self, args: Seq<Seq<u8>>, k: nat) -> Session
        decreases k,
    {
        if k == 0 {
            self
        } else {
            let s = self.cat_upto(args, (k - 1) as nat);
            let path = args[k - 1];
            match file_at(s.files, canonical(s.cwd, path)) {
                Ok(data) => Session { text: s.text + as_chars(data) + seq![NEWLINE], ..s },
                Err(error) => s.said(complaint("cat: ".spec_bytes(), path, error)),
            }
        }
    }

    /// `cat` on files.
    pub open spec fn cat(self, args: Seq<Seq<u8>>) -> Session {
        if args.len() == 0 {
            self.said("cat: missing file operand".spec_bytes())
        } else {
            self.cat_upto(args, args.len())
        }
    }

    /// `mkdir`, `touch` or `rm` on the first `k` operands: the change at
    /// each, seen from the current directory, or the complaint about it.
    pub open spec fn changed_upto(self, change: Change, args: Seq<Seq<u8>>, k: nat) -> Session
        decreases k,
    {
        if k == 0 {
            self
        } else {
            let s = self.changed_upto(change, args, (k - 1) as nat);
            let path = args[k - 1];
            match change.at(s.files, canonical(s.cwd, path)) {
                Ok(files) => Session { files, ..s },
                Err(error) => s.said(complaint(change.label(), path, error)),
            }
        }
    }

    /// `mkdir`, `touch` or `rm`.
    pub open spec fn changed(self, change: Change, args: Seq<Seq<u8>>) -> Session {
        if args.len() == 0 {
            self.said(change.missing())
        } else {
            self.changed_upto(change, args, args.len())
        }
    }

    /// `echo`: the operands with a blank between each two.
    pub open spec fn echo(self, args: Seq<Seq<u8>>) -> Session {
        self.said(spaced(args))
    }

    /// `cp`, and `mv` if `moving`: the file `args[0]` is read and made
    /// anew as `args[1]`; `mv` then removes the first. Whatever fails is
    /// complained about, and what was done before stays.
    pub open spec fn copied(self, args: Seq<Seq<u8>>, moving: bool) -> Session {
        let name = if moving {
            "mv".spec_bytes()
        } else {
            "cp".spec_bytes()
        };
        if args.len() != 2 {
            self.said(name + ": missing file operand".spec_bytes()).said(
                "Usage: ".spec_bytes() + name + " <source> <destination>".spec_bytes(),
            )
        } else {
            let source = canonical(self.cwd, args[0]);
            let destination = canonical(self.cwd, args[1]);
            match file_at(self.files, source) {
                Ok(data) => match creation(self.files, destination, NodeView::File(data)) {
                    Ok(files) => if moving {
                        match removal(files, source) {
                            Ok(left) => Session { files: left, ..self },
                            Err(error) => Session { files, ..self }.said(
                                complaint(
                                    name + ": error removing source file ".spec_bytes(),
                                    args[0],
                                    error,
                                ),
                            ),
                        }
                    } else {
                        Session { files, ..self }
                    },
                    Err(error) => self.said(
                        complaint(name + ": error writing to ".spec_bytes(), args[1], error),
                    ),
                },
                Err(error) => self.said(
                    complaint(name + ": error reading ".spec_bytes(), args[0], error),
                ),
            }
        }
    }
}

impl Change {
    /// The words with which the command starts a complaint.
    pub fn label_text(self) -> (r: &'static str)
        ensures
            r.spec_bytes() == self.label(),
    {
        match self {
            Change::MakeDirectory => "mkdir: ",
            Change::Touch => "touch: ",
            Change::Remove => "rm: ",
        }
    }

    /// What the command says when it has no operand.
    pub fn missing_text(self) -> (r: &'static str)
        ensures
            r.spec_bytes() == self.missing(),
    {
        match self {
            Change::MakeDirectory => "mkdir: missing operand",
            Change::Touch => "touch: missing file operand",
            Change::Remove => "rm: missing operand",
        }
    }

    /// Makes the change at `path`.
    pub fn apply(self, fs: &mut MemFs, path: &[u8]) -> (r: Result<(), FsError>)
        requires
            old(fs).wf(),
        ensures
            final(fs).wf(),
            match self.at(old(fs)@, path@) {
                Ok(files) => r is Ok && final(fs)@ == files,
                Err(error) => r == Err::<(), FsError>(error) && final(fs)@ == old(fs)@,
            },
    {
        match self {
            Change::MakeDirectory => MemFs::create_dir(fs, path),
            Change::Touch => MemFs::create_file(fs, path, Vec::new()),
            Change::Remove => MemFs::remove(fs, path),
        }
    }
}

/// The words `args` with a blank between each two.
pub fn join_words(args: &Vec<Vec<u8>>) -> (r: Vec<u8>)
    ensures
        r@ == spaced(words_view(args@)),
{
    let ghost words = words_view(args@);
    let mut line: Vec<u8> = Vec::new();
    let mut k: usize = 0;
    assert(words.take(0) =~= Seq::<Seq<u8>>::empty());
    while k < args.len()
        invariant
            k <= args@.len(),
            words == words_view(args@),
            line@ == spaced(words.take(k as int)),
        decreases args@.len() - k,
    {
        let ghost before = line@;
        if k > 0 {
            line.push(0x20);
        }
        push_all(&mut line, args[k].as_slice());
        proof {
            assert(words.take(k + 1).drop_last() =~= words.take(k as int));
            assert(words.take(k + 1).last() == args@[k as int]@);
            if k == 0 {
                assert(line@ =~= args@[0]@);
            } else {
                assert(line@ =~= before + seq![0x20u8] + args@[k as int]@);
            }
        }
        k = k + 1;
    }
    assert(words.take(words.len() as int) =~= words);
    line
}

impl Shell {
    /// Whether the shell is as `before` but for its current directory.
    pub open spec fn elsewhere(&self, before: &Shell) -> bool {
        &&& self.command_history == before.command_history
        &&& self.history_position == before.history_position
        &&& self.tab_completions == before.tab_completions
        &&& self.tab_index == before.tab_index
    }

    /// `ls`: see `Session::ls`.
    pub fn cmd_ls(&self, fs: &MemFs, screen: &mut Screen, args: &Vec<Vec<u8>>)
        requires
            fs.wf(),
        ensures
            session(fs, self, final(screen)) == session(fs, self, old(screen)).ls(
                words_view(args@),
            ),
    {
        let path: &[u8] = if args.len() == 0 {
            self.current_dir.as_slice()
        } else {
            args[0].as_slice()
        };
        match MemFs::read_dir(fs, path) {
            Ok(list) => {
                let ghost shown = entry_views(list@);
                let mut k: usize = 0;
                assert(screen.text@ =~= old(screen).text@ + names_shown(shown, 0));
                while k < list.len()
                    invariant
                        k <= list@.len(),
                        shown == entry_views(list@),
                        screen.cleared == old(screen).cleared,
                        screen.text@ == old(screen).text@ + names_shown(shown, k as nat),
                    decreases list@.len() - k,
                {
                    let ghost before = screen.text@;
                    screen.say(list[k].0.as_slice());
                    assert(screen.text@ =~= old(screen).text@ + names_shown(
                        shown,
                        (k + 1) as nat,
                    ));
                    k = k + 1;
                }
            },
            Err(error) => {
                screen.complain("ls: ".as_bytes(), path, error);
            },
        }
    }

    /// `cd`: see `Session::cd`.
    pub fn cmd_cd(&mut self, fs: &MemFs, screen: &mut Screen, args: &Vec<Vec<u8>>)
        requires
            fs.wf(),
        ensures
            session(fs, final(self), final(screen)) == session(fs, old(self), old(screen)).cd(
                words_view(args@),
            ),
            final(self).elsewhere(old(self)),
    {
        let path: &[u8] = if args.len() == 0 {
            "/".as_bytes()
        } else {
            args[0].as_slice()
        };
        let target = self.resolve_path(path);
        if MemFs::is_dir(fs, target.as_slice()) {
            self.current_dir = target;
        } else {
            let mut line: Vec<u8> = Vec::new();
            push_all(&mut line, "cd: ".as_bytes());
            push_all(&mut line, path);
            push_all(&mut line, ": Not a directory".as_bytes());
            assert(line@ =~= "cd: ".spec_bytes() + path@ + ": Not a directory".spec_bytes());
            screen.say(line.as_slice());
        }
    }

    /// `cat` on files: see `Session::cat`.
    pub fn cmd_cat(&self, fs: &MemFs, screen: &mut Screen, args: &Vec<Vec<u8>>)
        requires
            fs.wf(),
        ensures
            session(fs, self, final(screen)) == session(fs, self, old(screen)).cat(
                words_view(args@),
            ),
    {
        if args.len() == 0 {
            screen.say("cat: missing file operand".as_bytes());
            return ;
        }
        let ghost start = session(fs, self, screen);
        let ghost words = words_view(args@);
        let mut k: usize = 0;
        while k < args.len()
            invariant
                k <= args@.len(),
                fs.wf(),
                words == words_view(args@),
                session(fs, self, screen) == start.cat_upto(words, k as nat),
            decreases args@.len() - k,
        {
            let path = args[k].as_slice();
            let full = self.resolve_path(path);
            let ghost s = session(fs, self, screen);
            match MemFs::read_file(fs, full.as_slice()) {
                Ok(data) => {
                    push_chars(&mut screen.text, data.as_slice());
                    screen.text.push(NEWLINE);
                    assert(screen.text@ =~= s.text + as_chars(data@) + seq![NEWLINE]);
                },
                Err(error) => {
                    screen.complain("cat: ".as_bytes(), path, error);
                },
            }
            k = k + 1;
        }
    }

    /// `mkdir`, `touch` or `rm`: see `Session::changed`.
    pub fn cmd_change(
        &self,
        fs: &mut MemFs,
        screen: &mut Screen,
        change: Change,
        args: &Vec<Vec<u8>>,
    )
        requires
            old(fs).wf(),
        ensures
            final(fs).wf(),
            session(final(fs), self, final(screen)) == session(
                old(fs),
                self,
                old(screen),
            ).changed(change, words_view(args@)),
    {
        if args.len() == 0 {
            screen.say(change.missing_text().as_bytes());
            return ;
        }
        let ghost start = session(fs, self, screen);
        let ghost words = words_view(args@);
        let mut k: usize = 0;
        while k < args.len()
            invariant
                k <= args@.len(),
                fs.wf(),
                words == words_view(args@),
                session(fs, self, screen) == start.changed_upto(change, words, k as nat),
            decreases args@.len() - k,
        {
            let path = args[k].as_slice();
            let full = self.resolve_path(path);
            match change.apply(fs, full.as_slice()) {
                Ok(()) => {},
                Err(error) => {
                    screen.complain(change.label_text().as_bytes(), path, error);
                },
            }
            k = k + 1;
        }
    }

    /// `mkdir`: makes a directory at each operand.
    pub fn cmd_mkdir(&self, fs: &mut MemFs, screen: &mut Screen, args: &Vec<Vec<u8>>)
        requires
            old(fs).wf(),
        ensures
            final(fs).wf(),
            session(final(fs), self, final(screen)) == session(
                old(fs),
                self,
                old(screen),
            ).changed(Change::MakeDirectory, words_view(args@)),
    {
        self.cmd_change(fs, screen, Change::MakeDirectory, args);
    }

    /// `touch`: makes an empty file at each operand.
    pub fn cmd_touch(&self, fs: &mut MemFs, screen: &mut Screen, args: &Vec<Vec<u8>>)
        requires
            old(fs).wf(),
        ensures
            final(fs).wf(),
            session(final(fs), self, final(screen)) == session(
                old(fs),
                self,
                old(screen),
            ).changed(Change::Touch, words_view(args@)),
    {
        self.cmd_change(fs, screen, Change::Touch, args);
    }

    /// `rm`: removes what stands at each operand.
    pub fn cmd_rm(&self, fs: &mut MemFs, screen: &mut Screen, args: &Vec<Vec<u8>>)
        requires
            old(fs).wf(),
        ensures
            final(fs).wf(),
            session(final(fs), self, final(screen)) == session(
                old(fs),
                self,
                old(screen),
            ).changed(Change::Remove, words_view(args@)),
    {
        self.cmd_change(fs, screen, Change::Remove, args);
    }

    /// `pwd`: see `Session::pwd`.
    pub fn cmd_pwd(&self, screen: &mut Screen)
        ensures
            final(screen).cleared == old(screen).cleared,
            final(screen).text@ == old(screen).text@ + self.current_dir@ + seq![NEWLINE],
    {
        screen.say(self.current_dir.as_slice());
    }

    /// `help`: see `Session::help`.
    pub fn cmd_help(&self, screen: &mut Screen)
        ensures
            final(screen).cleared == old(screen).cleared,
            final(screen).text@ == with_help(old(screen).text@),
    {
        screen.help();
    }

    /// `clear`: see `Session::clear`.
    pub fn cmd_clear(&self, screen: &mut Screen)
        ensures
            final(screen).cleared,
            final(screen).text@ == Seq::<u8>::empty(),
    {
        screen.text = Vec::new();
        screen.cleared = true;
    }

    /// `echo`: see `Session::echo`.
    pub fn cmd_echo(&self, screen: &mut Screen, args: &Vec<Vec<u8>>)
        ensures
            final(screen).cleared == old(screen).cleared,
            final(screen).text@ == old(screen).text@ + spaced(words_view(args@)) + seq![NEWLINE],
    {
        let line = join_words(args);
        screen.say(line.as_slice());
    }

    /// `cp`: copies the file `args[0]` to `args[1]`.
    pub fn cmd_cp(&self, fs: &mut MemFs, screen: &mut Screen, args: &Vec<Vec<u8>>)
        requires
            old(fs).wf(),
        ensures
            final(fs).wf(),
            session(final(fs), self, final(screen)) == session(
                old(fs),
                self,
                old(screen),
            ).copied(words_view(args@), false),
    {
        self.cmd_copy(fs, screen, args, false);
    }

    /// `mv`: copies the file `args[0]` to `args[1]` and removes the first.
    pub fn cmd_mv(&self, fs: &mut MemFs, screen: &mut Screen, args: &Vec<Vec<u8>>)
        requires
            old(fs).wf(),
        ensures
            final(fs).wf(),
            session(final(fs), self, final(screen)) == session(
                old(fs),
                self,
                old(screen),
            ).copied(words_view(args@), true),
    {
        self.cmd_copy(fs, screen, args, true);
    }

    /// `cp`, and `mv` if `moving`: see `Session::copied`.
    pub fn cmd_copy(
        &self,
        fs: &mut MemFs,
        screen: &mut Screen,
        args: &Vec<Vec<u8>>,
        moving: bool,
    )
        requires
            old(fs).wf(),
        ensures
            final(fs).wf(),
            session(final(fs), self, final(screen)) == session(
                old(fs),
                self,
                old(screen),
            ).copied(words_view(args@), moving),
    {
        let name = if moving {
            "mv".as_bytes()
        } else {
            "cp".as_bytes()
        };
        if args.len() != 2 {
            let mut first: Vec<u8> = Vec::new();
            push_all(&mut first, name);
            push_all(&mut first, ": missing file operand".as_bytes());
            screen.say(first.as_slice());
            let mut second: Vec<u8> = Vec::new();
            push_all(&mut second, "Usage: ".as_bytes());
            push_all(&mut second, name);
            push_all(&mut second, " <source> <destination>".as_bytes());
            screen.say(second.as_slice());
            return ;
        }
        let source = self.resolve_path(args[0].as_slice());
        let destination = self.resolve_path(args[1].as_slice());
        let mut before: Vec<u8> = Vec::new();
        push_all(&mut before, name);
        match MemFs::read_file(fs, source.as_slice()) {
            Ok(data) => {
                match MemFs::create_file(fs, destination.as_slice(), data) {
                    Ok(()) => {
                        if moving {
                            match MemFs::remove(fs, source.as_slice()) {
                                Ok(()) => {},
                                Err(error) => {
                                    push_all(
                                        &mut before,
                                        ": error removing source file ".as_bytes(),
                                    );
                                    screen.complain(
                                        before.as_slice(),
                                        args[0].as_slice(),
                                        error,
                                    );
                                },
                            }
                        }
                    },
                    Err(error) => {
                        push_all(&mut before, ": error writing to ".as_bytes());
                        screen.complain(before.as_slice(), args[1].as_slice(), error);
                    },
                }
            },
            Err(error) => {
                push_all(&mut before, ": error reading ".as_bytes());
                screen.complain(before.as_slice(), args[0].as_slice(), error);
            },
        }
    }
}

/// The bytes that a command got, as mathematics.
pub open spec fn input_view(input: Option<Vec<u8>>) -> Option<Seq<u8>> {
    match input {
        Some(data) => Some(data@),
        None => None,
    }
}

impl Session {
    /// The command `name` run on `args`, with `input` if a file or a pipe
    /// feeds it: the state that it leaves, and what it hands on. Of the
    /// commands only `cat` reads its input, and hands it on as chars; a
    /// word that is no command is handed on in a complaint.
    pub open spec fn run(self, name: Seq<u8>, args: Seq<Seq<u8>>, input: Option<Seq<u8>>) -> (
        Session,
        Seq<u8>,
    ) {
        if name == "ls".spec_bytes() {
            (self.ls(args), Seq::empty())
        } else if name == "cd".spec_bytes() {
            (self.cd(args), Seq::empty())
        } else if name == "pwd".spec_bytes() {
            (self.pwd(), Seq::empty())
        } else if name == "help".spec_bytes() {
            (self.help(), Seq::empty())
        } else if name == "clear".spec_bytes() {
            (self.clear(), Seq::empty())
        } else if name == "cat".spec_bytes() {
            match input {
                Some(data) => (self, as_chars(data)),
                None => (self.cat(args), Seq::empty()),
            }
        } else if name == "mkdir".spec_bytes() {
            (self.changed(Change::MakeDirectory, args), Seq::empty())
        } else if name == "touch".spec_bytes() {
            (self.changed(Change::Touch, args), Seq::empty())
        } else if name == "rm".spec_bytes() {
            (self.changed(Change::Remove, args), Seq::empty())
        } else if name == "echo".spec_bytes() {
            (self.echo(args), Seq::empty())
        } else if name == "cp".spec_bytes() {
            (self.copied(args, false), Seq::empty())
        } else if name == "mv".spec_bytes() {
            (self.copied(args, true), Seq::empty())
        } else {
            (self, "Unknown command: ".spec_bytes() + name + seq![NEWLINE])
        }
    }

    /// One command of a pipeline, with what the command before it handed
    /// on. A command that reads from a file gets the bytes of the file; if
    /// the file cannot be read, the command does not run.
    pub open spec fn commanded(self, command: CommandView, input: Option<Seq<u8>>) -> (
        Session,
        Seq<u8>,
    ) {
        match command.input_redirect {
            RedirectionView::Input(file) => match file_at(self.files, canonical(self.cwd, file)) {
                Ok(data) => self.run(command.name, command.args, Some(data)),
                Err(error) => (
                    self.said(complaint("Error reading ".spec_bytes(), file, error)),
                    Seq::empty(),
                ),
            },
            RedirectionView::Pipe(_) => self.run(command.name, command.args, input),
            _ => self.run(command.name, command.args, None),
        }
    }

    /// A pipeline: the command from which `command` takes its input runs
    /// first, and before that the one from which that command takes its
    /// own, and so on; each is fed with what the one that ran before it
    /// handed on.
    pub open spec fn piped(self, command: CommandView) -> (Session, Seq<u8>)
        decreases command,
    {
        match command.input_redirect {
            RedirectionView::Pipe(previous) => {
                let before = self.piped(*previous);
                before.0.commanded(command, Some(before.1))
            },
            _ => self.commanded(command, None),
        }
    }

    /// A command line: the pipeline, and then what it handed on goes to
    /// the screen, as chars, or to the file that the line names, which is
    /// made anew.
    pub open spec fn executed(self, command: CommandView) -> Session {
        let ran = self.piped(command);
        let s = ran.0;
        match command.output_redirect {
            RedirectionView::Output(file) => match creation(
                s.files,
                canonical(s.cwd, file),
                NodeView::File(ran.1),
            ) {
                Ok(files) => Session { files, ..s },
                Err(error) => s.said(complaint("Error writing to ".spec_bytes(), file, error)),
            },
            RedirectionView::Append(file) => {
                let path = canonical(s.cwd, file);
                let held = match file_at(s.files, path) {
                    Ok(data) => data,
                    Err(_) => Seq::empty(),
                };
                match creation(s.files, path, NodeView::File(held + ran.1)) {
                    Ok(files) => Session { files, ..s },
                    Err(error) => s.said(
                        complaint("Error appending to ".spec_bytes(), file, error),
                    ),
                }
            },
            RedirectionView::NoRedirect => Session { text: s.text + as_chars(ran.1), ..s },
            _ => s,
        }
    }
}

impl Shell {
    /// Runs the command `name` on `args`: see `Session::run`.
    pub fn dispatch(
        &mut self,
        fs: &mut MemFs,
        screen: &mut Screen,
        name: &[u8],
        args: &Vec<Vec<u8>>,
        input: Option<Vec<u8>>,
    ) -> (output: Vec<u8>)
        requires
            old(fs).wf(),
        ensures
            final(fs).wf(),
            final(self).elsewhere(old(self)),
            (session(final(fs), final(self), final(screen)), output@) == session(
                old(fs),
                old(self),
                old(screen),
            ).run(name@, words_view(args@), input_view(input)),
    {
        let mut output: Vec<u8> = Vec::new();
        if is_named(name, "ls") {
            self.cmd_ls(fs, screen, args);
        } else if is_named(name, "cd") {
            self.cmd_cd(fs, screen, args);
        } else if is_named(name, "pwd") {
            self.cmd_pwd(screen);
        } else if is_named(name, "help") {
            self.cmd_help(screen);
        } else if is_named(name, "clear") {
            self.cmd_clear(screen);
        } else if is_named(name, "cat") {
            match input {
                Some(data) => {
                    push_chars(&mut output, data.as_slice());
                    assert(output@ =~= as_chars(data@));
                },
                None => {
                    self.cmd_cat(fs, screen, args);
                },
            }
        } else if is_named(name, "mkdir") {
            self.cmd_mkdir(fs, screen, args);
        } else if is_named(name, "touch") {
            self.cmd_touch(fs, screen, args);
        } else if is_named(name, "rm") {
            self.cmd_rm(fs, screen, args);
        } else if is_named(name, "echo") {
            self.cmd_echo(screen, args);
        } else if is_named(name, "cp") {
            self.cmd_cp(fs, screen, args);
        } else if is_named(name, "mv") {
            self.cmd_mv(fs, screen, args);
        } else {
            push_all(&mut output, "Unknown command: ".as_bytes());
            push_all(&mut output, name);
            output.push(NEWLINE);
            assert(output@ =~= "Unknown command: ".spec_bytes() + name@ + seq![NEWLINE]);
        }
        output
    }

    /// Runs one command of a pipeline: see `Session::commanded`.
    pub fn execute_command(
        &mut self,
        fs: &mut MemFs,
        screen: &mut Screen,
        command: &Command,
        input: Option<Vec<u8>>,
    ) -> (output: Vec<u8>)
        requires
            old(fs).wf(),
        ensures
            final(fs).wf(),
            final(self).elsewhere(old(self)),
            (session(final(fs), final(self), final(screen)), output@) == session(
                old(fs),
                old(self),
                old(screen),
            ).commanded(command@, input_view(input)),
    {
        let given = match &command.input_redirect {
            Redirection::Input(file) => {
                let path = self.resolve_path(file.as_slice());
                match MemFs::read_file(fs, path.as_slice()) {
                    Ok(data) => Some(data),
                    Err(error) => {
                        screen.complain("Error reading ".as_bytes(), file.as_slice(), error);
                        return Vec::new();
                    },
                }
            },
            Redirection::Pipe(_) => input,
            _ => None,
        };
        self.dispatch(fs, screen, command.name.as_slice(), &command.args, given)
    }

    /// Runs a pipeline: see `Session::piped`.
    pub fn execute_pipeline(&mut self, fs: &mut MemFs, screen: &mut Screen, command: &Command) -> (
        output: Vec<u8>
    )
        requires
            old(fs).wf(),
        ensures
            final(fs).wf(),
            final(self).elsewhere(old(self)),
            (session(final(fs), final(self), final(screen)), output@) == session(
                old(fs),
                old(self),
                old(screen),
            ).piped(command@),
        decreases command,
    {
        match &command.input_redirect {
            Redirection::Pipe(previous) => {
                let handed = self.execute_pipeline(fs, screen, previous);
                self.execute_command(fs, screen, command, Some(handed))
            },
            _ => self.execute_command(fs, screen, command, None),
        }
    }

    /// Runs a command line: see `Session::executed`.
    pub fn run(&mut self, fs: &mut MemFs, screen: &mut Screen, command: &Command)
        requires
            old(fs).wf(),
        ensures
            final(fs).wf(),
            final(self).elsewhere(old(self)),
            session(final(fs), final(self), final(screen)) == session(
                old(fs),
                old(self),
                old(screen),
            ).executed(command@),
    {
        let output = self.execute_pipeline(fs, screen, command);
        match &command.output_redirect {
            Redirection::Output(file) => {
                let path = self.resolve_path(file.as_slice());
                match MemFs::create_file(fs, path.as_slice(), output) {
                    Ok(()) => {},
                    Err(error) => {
                        screen.complain("Error writing to ".as_bytes(), file.as_slice(), error);
                    },
                }
            },
            Redirection::Append(file) => {
                let path = self.resolve_path(file.as_slice());
                let mut contents = match MemFs::read_file(fs, path.as_slice()) {
                    Ok(data) => data,
                    Err(_) => Vec::new(),
                };
                push_all(&mut contents, output.as_slice());
                match MemFs::create_file(fs, path.as_slice(), contents) {
                    Ok(()) => {},
                    Err(error) => {
                        screen.complain("Error appending to ".as_bytes(), file.as_slice(), error);
                    },
                }
            },
            Redirection::NoRedirect => {
                push_chars(&mut screen.text, output.as_slice());
            },
            _ => {},
        }
    }
}

} // verus!
