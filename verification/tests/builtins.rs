use kernel_core::fs::memfs::MemFs;
use kernel_core::fs::FsError;
use kernel_core::shell::builtins::{
    is_named, join_words, push_chars, reason_text, Change, Screen,
};
use kernel_core::shell::command::Command;
use kernel_core::shell::Shell;

struct Machine {
    shell: Shell,
    fs: MemFs,
}

impl Machine {
    fn new() -> Self {
        let mut fs = MemFs::new();
        MemFs::create_dir(&mut fs, b"/home").unwrap();
        MemFs::create_dir(&mut fs, b"/tmp").unwrap();
        MemFs::create_file(&mut fs, b"/home/a.txt", b"alpha".to_vec()).unwrap();
        Machine { shell: Shell::new(), fs }
    }

    /// Runs a line and gives the text for the screen.
    fn run(&mut self, line: &str) -> String {
        let mut screen = Screen::new();
        self.shell.execute(&mut self.fs, &mut screen, line.as_bytes());
        assert!(!screen.cleared);
        String::from_utf8(screen.text).unwrap()
    }

    fn file(&self, path: &str) -> Result<Vec<u8>, FsError> {
        MemFs::read_file(&self.fs, path.as_bytes())
    }
}

#[test]
fn errors_are_reported_by_name() {
    assert_eq!(reason_text(FsError::NotFound), "NotFound");
    assert_eq!(reason_text(FsError::AlreadyExists), "AlreadyExists");
    assert_eq!(reason_text(FsError::NotADirectory), "NotADirectory");
    assert_eq!(reason_text(FsError::NotAFile), "NotAFile");
    assert_eq!(reason_text(FsError::InvalidPath), "InvalidPath");
    assert_eq!(reason_text(FsError::PermissionDenied), "PermissionDenied");
}

#[test]
fn bytes_are_written_as_chars() {
    let mut out = b"x".to_vec();
    push_chars(&mut out, &[0x41, 0x7F, 0x80, 0xE9, 0xFF]);
    assert_eq!(out, vec![b'x', 0x41, 0x7F, 0xC2, 0x80, 0xC3, 0xA9, 0xC3, 0xBF]);
    assert_eq!(String::from_utf8(out).unwrap(), "xA\u{7f}\u{80}\u{e9}\u{ff}");
}

#[test]
fn names_are_compared_with_words() {
    assert!(is_named(b"ls", "ls"));
    assert!(!is_named(b"l", "ls"));
    assert!(!is_named(b"lsx", "ls"));
    assert!(!is_named(b"lt", "ls"));
    assert!(is_named(b"", ""));
}

#[test]
fn words_are_joined_with_blanks() {
    assert_eq!(join_words(&vec![]), b"".to_vec());
    assert_eq!(join_words(&vec![b"one".to_vec()]), b"one".to_vec());
    assert_eq!(
        join_words(&vec![b"one".to_vec(), b"".to_vec(), b"three".to_vec()]),
        b"one  three".to_vec()
    );
}

#[test]
fn ls_lists_names_in_order() {
    let mut m = Machine::new();
    assert_eq!(m.run("ls"), "home\ntmp\n");
    assert_eq!(m.run("ls /home"), "a.txt\n");
    assert_eq!(m.run("ls /tmp"), "");
    assert_eq!(m.run("ls /nowhere"), "ls: /nowhere: NotFound\n");
    assert_eq!(m.run("ls /home/a.txt"), "ls: /home/a.txt: NotADirectory\n");
    // the operand is taken as it stands
    assert_eq!(m.run("ls home"), "ls: home: InvalidPath\n");
}

#[test]
fn cd_and_pwd_follow_the_current_directory() {
    let mut m = Machine::new();
    assert_eq!(m.run("pwd"), "/\n");
    assert_eq!(m.run("cd home"), "");
    assert_eq!(m.run("pwd"), "/home\n");
    assert_eq!(m.run("ls"), "a.txt\n");
    assert_eq!(m.run("cd a.txt"), "cd: a.txt: Not a directory\n");
    assert_eq!(m.run("cd ../nowhere"), "cd: ../nowhere: Not a directory\n");
    assert_eq!(m.shell.current_dir, b"/home".to_vec());
    assert_eq!(m.run("cd ../tmp"), "");
    assert_eq!(m.shell.current_dir, b"/tmp".to_vec());
    assert_eq!(m.run("cd"), "");
    assert_eq!(m.shell.current_dir, b"/".to_vec());
}

#[test]
fn cat_shows_files_and_complains() {
    let mut m = Machine::new();
    assert_eq!(m.run("cat"), "cat: missing file operand\n");
    assert_eq!(m.run("cat /home/a.txt"), "alpha\n");
    assert_eq!(
        m.run("cat home/a.txt nothing /home"),
        "alpha\ncat: nothing: NotFound\ncat: /home: NotAFile\n"
    );
}

#[test]
fn mkdir_touch_and_rm_change_the_tree() {
    let mut m = Machine::new();
    assert_eq!(m.run("mkdir"), "mkdir: missing operand\n");
    assert_eq!(m.run("touch"), "touch: missing file operand\n");
    assert_eq!(m.run("rm"), "rm: missing operand\n");
    assert_eq!(m.run("mkdir /a /a /a/b x/y"), "mkdir: /a: AlreadyExists\nmkdir: x/y: NotFound\n");
    assert!(MemFs::is_dir(&m.fs, b"/a/b"));
    assert_eq!(m.run("cd /a"), "");
    assert_eq!(m.run("touch f b"), "touch: b: AlreadyExists\n");
    assert_eq!(m.file("/a/f"), Ok(vec![]));
    assert_eq!(m.run("rm f g"), "rm: g: NotFound\n");
    assert_eq!(m.file("/a/f"), Err(FsError::NotFound));
    assert_eq!(m.run("rm /a"), "");
    assert!(!MemFs::is_dir(&m.fs, b"/a"));
    assert!(!MemFs::is_dir(&m.fs, b"/a/b"));
}

#[test]
fn echo_repeats_its_operands() {
    let mut m = Machine::new();
    assert_eq!(m.run("echo"), "\n");
    assert_eq!(m.run("echo hello   big \"wide  world\""), "hello big wide  world\n");
}

#[test]
fn cp_and_mv_copy_and_move_files() {
    let mut m = Machine::new();
    assert_eq!(m.run("cp /home/a.txt"), "cp: missing file operand\nUsage: cp <source> <destination>\n");
    assert_eq!(m.run("mv"), "mv: missing file operand\nUsage: mv <source> <destination>\n");
    assert_eq!(m.run("cp /home/a.txt /tmp/b.txt"), "");
    assert_eq!(m.file("/tmp/b.txt"), Ok(b"alpha".to_vec()));
    assert_eq!(m.file("/home/a.txt"), Ok(b"alpha".to_vec()));
    assert_eq!(m.run("cp /home/a.txt /tmp/b.txt"), "cp: error writing to /tmp/b.txt: AlreadyExists\n");
    assert_eq!(m.run("cp /home/none /tmp/c"), "cp: error reading /home/none: NotFound\n");
    assert_eq!(m.run("mv /tmp/b.txt /home/c.txt"), "");
    assert_eq!(m.file("/tmp/b.txt"), Err(FsError::NotFound));
    assert_eq!(m.file("/home/c.txt"), Ok(b"alpha".to_vec()));
    assert_eq!(m.run("mv /home /tmp/x"), "mv: error reading /home: NotAFile\n");
    assert_eq!(m.run("mv /home/c.txt /nowhere/x"), "mv: error writing to /nowhere/x: NotFound\n");
    assert_eq!(m.file("/home/c.txt"), Ok(b"alpha".to_vec()));
}

#[test]
fn help_lists_the_commands() {
    let mut m = Machine::new();
    let text = m.run("help");
    assert!(text.starts_with("Available commands:\n  ls [path]     - List directory contents\n"));
    assert!(text.contains("\n\nRedirection and Pipes:\n  command < file   - Input redirection\n"));
    assert!(text.ends_with("\n\nUse Tab for command/path completion\n"));
    assert_eq!(text.lines().count(), 21);
}

#[test]
fn clear_empties_the_screen() {
    let mut m = Machine::new();
    let mut screen = Screen::new();
    screen.say(b"old text");
    assert_eq!(screen.text, b"old text\n".to_vec());
    m.shell.execute(&mut m.fs, &mut screen, b"clear");
    assert!(screen.cleared);
    assert!(screen.text.is_empty());
    m.shell.execute(&mut m.fs, &mut screen, b"pwd");
    assert!(screen.cleared);
    assert_eq!(screen.text, b"/\n".to_vec());
}

#[test]
fn unknown_commands_are_handed_on() {
    let mut m = Machine::new();
    assert_eq!(m.run("frobnicate now"), "Unknown command: frobnicate\n");
    assert_eq!(m.run("frobnicate > /tmp/out"), "");
    assert_eq!(m.file("/tmp/out"), Ok(b"Unknown command: frobnicate\n".to_vec()));
}

#[test]
fn input_comes_from_a_file_or_a_pipe() {
    let mut m = Machine::new();
    assert_eq!(m.run("cat < /home/a.txt"), "alpha");
    assert_eq!(m.run("cat < /home/none"), "Error reading /home/none: NotFound\n");
    // the command at the end of a line runs first and feeds the one before it
    assert_eq!(m.run("cat | frobnicate"), "Unknown command: frobnicate\n");
    assert_eq!(m.run("frobnicate | cat"), "cat: missing file operand\nUnknown command: frobnicate\n");
    assert_eq!(m.run("cat > /tmp/twice | cat | frobnicate"), "");
    assert_eq!(m.file("/tmp/twice"), Ok(b"Unknown command: frobnicate\n".to_vec()));
    // what a command says goes to the screen, not down the pipe
    assert_eq!(m.run("cat | echo hello"), "hello\n");
    assert_eq!(m.run("pwd > /tmp/where"), "/\n");
    assert_eq!(m.file("/tmp/where"), Ok(vec![]));
}

#[test]
fn output_goes_to_a_new_file() {
    let mut m = Machine::new();
    assert_eq!(m.run("cat < /home/a.txt > /tmp/copy"), "");
    assert_eq!(m.file("/tmp/copy"), Ok(b"alpha".to_vec()));
    assert_eq!(m.run("cat < /home/a.txt > /tmp/copy"), "Error writing to /tmp/copy: AlreadyExists\n");
    assert_eq!(m.run("cat < /home/a.txt >> /tmp/more"), "");
    assert_eq!(m.file("/tmp/more"), Ok(b"alpha".to_vec()));
    assert_eq!(m.run("cat < /home/a.txt >> /tmp/more"), "Error appending to /tmp/more: AlreadyExists\n");
    assert_eq!(m.file("/tmp/more"), Ok(b"alpha".to_vec()));
}

#[test]
fn blank_lines_and_broken_lines_run_nothing() {
    let mut m = Machine::new();
    assert_eq!(m.run("   "), "");
    assert!(m.shell.command_history.is_empty());
    assert_eq!(m.run("cat <"), "");
    assert_eq!(m.shell.command_history, vec![b"cat <".to_vec()]);
}

#[test]
fn changes_apply_to_one_path() {
    let mut fs = MemFs::new();
    assert_eq!(Change::MakeDirectory.apply(&mut fs, b"/d"), Ok(()));
    assert_eq!(Change::Touch.apply(&mut fs, b"/d/f"), Ok(()));
    assert_eq!(Change::Touch.apply(&mut fs, b"/d/f"), Err(FsError::AlreadyExists));
    assert_eq!(Change::Remove.apply(&mut fs, b"/d/f"), Ok(()));
    assert_eq!(Change::Remove.apply(&mut fs, b"/d/f"), Err(FsError::NotFound));
    assert_eq!(Change::MakeDirectory.label_text(), "mkdir: ");
    assert_eq!(Change::Touch.missing_text(), "touch: missing file operand");
}

#[test]
fn commands_run_one_by_one() {
    let mut m = Machine::new();
    let mut screen = Screen::new();
    let command = Command::new("cat | more").unwrap();
    let output =
        m.shell.execute_command(&mut m.fs, &mut screen, &command, Some(vec![0x68, 0x69, 0xE9]));
    assert_eq!(output, vec![0x68, 0x69, 0xC3, 0xA9]);
    assert!(screen.text.is_empty());
    // without a pipe before it a command gets no input
    let command = Command::new("cat").unwrap();
    let output = m.shell.execute_command(&mut m.fs, &mut screen, &command, Some(vec![0x68]));
    assert!(output.is_empty());
    assert_eq!(screen.text, b"cat: missing file operand\n".to_vec());
    let mut screen = Screen::new();
    let command = Command::new("cat | cat | frobnicate").unwrap();
    let output = m.shell.execute_pipeline(&mut m.fs, &mut screen, &command);
    assert_eq!(output, b"Unknown command: frobnicate\n".to_vec());
    assert!(screen.text.is_empty());
}
