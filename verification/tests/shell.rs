use kernel_core::fs::memfs::MemFs;
use kernel_core::shell::command::{Command, Redirection};
use kernel_core::fs::names::before_or_same;
use kernel_core::shell::complete::{insert_sorted, split_fields, starts_with};
use kernel_core::shell::{init, Shell};

fn words(list: &[&str]) -> Vec<Vec<u8>> {
    list.iter().map(|w| w.as_bytes().to_vec()).collect()
}

fn file_of(redirection: &Redirection) -> (&'static str, Vec<u8>) {
    match redirection {
        Redirection::NoRedirect => ("none", vec![]),
        Redirection::Input(f) => ("input", f.clone()),
        Redirection::Output(f) => ("output", f.clone()),
        Redirection::Append(f) => ("append", f.clone()),
        Redirection::Pipe(_) => ("pipe", vec![]),
    }
}

#[test]
fn line_is_cut_into_words() {
    assert_eq!(Command::lex(b"ls -l  /tmp"), words(&["ls", "-l", "/tmp"]));
    assert_eq!(Command::lex(b"  echo \"a b\"c  "), words(&["echo", "a bc"]));
    assert_eq!(Command::lex(b"a>b>>c<d|e"), words(&["a", ">", "b", ">>", "c", "<", "d", "|", "e"]));
    assert_eq!(Command::lex(b"a >>> b"), words(&["a", ">>", ">", "b"]));
    assert_eq!(Command::lex(b"echo \"x > y\""), words(&["echo", "x ", ">", " y"]));
    assert_eq!(Command::lex(b"echo \"\""), words(&["echo"]));
    assert_eq!(Command::lex(b"a\tb"), words(&["a\tb"]));
    assert_eq!(Command::lex(b"   "), words(&[]));
    assert_eq!(Command::lex(b""), words(&[]));
}

#[test]
fn words_are_parted_at_pipes() {
    assert_eq!(
        Command::stages(&words(&["a", "b", "|", "c", "|", "|", "d"])),
        vec![words(&["a", "b"]), words(&["c"]), words(&["d"])]
    );
    assert_eq!(Command::stages(&words(&["|", "|"])), Vec::<Vec<Vec<u8>>>::new());
}

#[test]
fn simple_command() {
    let command = Command::new("ls -l /tmp").unwrap();
    assert_eq!(command.name, b"ls".to_vec());
    assert_eq!(command.args, words(&["-l", "/tmp"]));
    assert!(matches!(command.input_redirect, Redirection::NoRedirect));
    assert!(matches!(command.output_redirect, Redirection::NoRedirect));
}

#[test]
fn redirections() {
    let command = Command::new("sort < in.txt > out.txt -r").unwrap();
    assert_eq!(command.name, b"sort".to_vec());
    assert_eq!(command.args, words(&["-r"]));
    assert_eq!(file_of(&command.input_redirect), ("input", b"in.txt".to_vec()));
    assert_eq!(file_of(&command.output_redirect), ("output", b"out.txt".to_vec()));
    let command = Command::new("echo hi >> log > other").unwrap();
    assert_eq!(file_of(&command.output_redirect), ("output", b"other".to_vec()));
    let command = Command::new("echo hi>>log").unwrap();
    assert_eq!(file_of(&command.output_redirect), ("append", b"log".to_vec()));
    assert_eq!(command.args, words(&["hi"]));
}

#[test]
fn lines_without_a_command() {
    assert!(Command::new("").is_none());
    assert!(Command::new("    ").is_none());
    assert!(Command::new("|").is_none());
    assert!(Command::new("cat <").is_none());
    assert!(Command::new("cat >").is_none());
    assert!(Command::new("cat >>").is_none());
    assert!(Command::new("ls | cat >").is_none());
    assert!(Command::new("cat > | ls").is_none());
    assert!(Command::new("\"\"").is_none());
}

#[test]
fn redirection_sign_as_the_first_word_is_the_name() {
    let command = Command::new("> file").unwrap();
    assert_eq!(command.name, b">".to_vec());
    assert_eq!(command.args, words(&["file"]));
}

#[test]
fn pipeline_hangs_the_later_stages_on_the_input() {
    let command = Command::new("a 1 | b 2 | c 3").unwrap();
    assert_eq!(command.name, b"a".to_vec());
    assert_eq!(command.args, words(&["1"]));
    let second = match &command.input_redirect {
        Redirection::Pipe(next) => next,
        other => panic!("unexpected {:?}", other),
    };
    assert_eq!(second.name, b"b".to_vec());
    assert_eq!(second.args, words(&["2"]));
    let third = match &second.input_redirect {
        Redirection::Pipe(next) => next,
        other => panic!("unexpected {:?}", other),
    };
    assert_eq!(third.name, b"c".to_vec());
    assert!(matches!(third.input_redirect, Redirection::NoRedirect));
    // an input file takes the place of the pipe
    let command = Command::new("a < f | b").unwrap();
    assert_eq!(file_of(&command.input_redirect), ("input", b"f".to_vec()));
}

#[test]
fn new_shell_is_at_the_root() {
    let shell = init();
    assert_eq!(shell.current_dir, b"/".to_vec());
    assert!(shell.command_history.is_empty());
    assert_eq!(shell.history_position, None);
    assert!(shell.tab_completions.is_empty());
    assert_eq!(shell.tab_index, 0);
}

#[test]
fn history_is_walked_back_and_forth() {
    let mut shell = Shell::new();
    assert_eq!(shell.previous_command(), None);
    assert_eq!(shell.next_command(), Some(&b""[..]));
    assert!(shell.enter(b"first").is_some());
    assert!(shell.enter(b"  ").is_none());
    assert!(shell.enter(b"").is_none());
    assert!(shell.enter(b"cat <").is_none());
    assert!(shell.enter(b"third x").is_some());
    assert_eq!(shell.command_history, words(&["first", "cat <", "third x"]));
    assert_eq!(shell.previous_command(), Some(&b"third x"[..]));
    assert_eq!(shell.previous_command(), Some(&b"cat <"[..]));
    assert_eq!(shell.previous_command(), Some(&b"first"[..]));
    assert_eq!(shell.previous_command(), None);
    assert_eq!(shell.history_position, Some(0));
    assert_eq!(shell.next_command(), Some(&b"cat <"[..]));
    assert_eq!(shell.next_command(), Some(&b"third x"[..]));
    assert_eq!(shell.next_command(), Some(&b""[..]));
    assert_eq!(shell.history_position, None);
    assert_eq!(shell.previous_command(), Some(&b"third x"[..]));
    shell.enter(b"fourth");
    assert_eq!(shell.history_position, None);
    assert_eq!(shell.previous_command(), Some(&b"fourth"[..]));
}

#[test]
fn executed_line_gives_its_command() {
    let mut shell = Shell::new();
    let command = shell.enter(b" mkdir  /a").unwrap();
    assert_eq!(command.name, b"mkdir".to_vec());
    assert_eq!(command.args, words(&["/a"]));
    assert_eq!(shell.command_history, vec![b" mkdir  /a".to_vec()]);
}

#[test]
fn paths_are_split_at_the_last_slash() {
    let shell = Shell::new();
    assert_eq!(shell.split_path(b"/usr/lo"), (b"/usr".to_vec(), b"lo".to_vec()));
    assert_eq!(shell.split_path(b"/lo"), (b"".to_vec(), b"lo".to_vec()));
    assert_eq!(shell.split_path(b"lo"), (b"".to_vec(), b"lo".to_vec()));
    assert_eq!(shell.split_path(b"a/b/"), (b"a/b".to_vec(), b"".to_vec()));
    assert_eq!(shell.split_path(b""), (b"".to_vec(), b"".to_vec()));
}

#[test]
fn paths_resolve_from_the_current_directory() {
    let mut shell = Shell::new();
    shell.current_dir = b"/home/user".to_vec();
    assert_eq!(shell.resolve_path(b"docs"), b"/home/user/docs".to_vec());
    assert_eq!(shell.resolve_path(b"../x"), b"/home/x".to_vec());
    assert_eq!(shell.resolve_path(b"/etc"), b"/etc".to_vec());
    let once = shell.resolve_path(b"/a/./b/../c");
    assert_eq!(shell.resolve_path(&once), once);
}

#[test]
fn dictionary_order() {
    assert!(before_or_same(b"", b""));
    assert!(before_or_same(b"", b"a"));
    assert!(!before_or_same(b"a", b""));
    assert!(before_or_same(b"cat", b"cd"));
    assert!(!before_or_same(b"cd", b"cat"));
    assert!(before_or_same(b"cp", b"cp"));
    assert!(before_or_same(b"c", b"cp"));
    assert!(!before_or_same(b"cp", b"c"));
    assert!(starts_with(b"clear", b"cl"));
    assert!(starts_with(b"clear", b""));
    assert!(starts_with(b"clear", b"clear"));
    assert!(!starts_with(b"cl", b"clear"));
    assert!(!starts_with(b"clear", b"cx"));
    let mut list = words(&["b", "d"]);
    insert_sorted(&mut list, b"c".to_vec());
    insert_sorted(&mut list, b"a".to_vec());
    insert_sorted(&mut list, b"e".to_vec());
    insert_sorted(&mut list, b"c".to_vec());
    assert_eq!(list, words(&["a", "b", "c", "c", "d", "e"]));
    assert_eq!(split_fields(b"  a \t b\nc "), words(&["a", "b", "c"]));
    assert_eq!(split_fields(b""), words(&[]));
}

#[test]
fn tab_completes_commands_in_turn() {
    let fs = MemFs::new();
    let mut shell = Shell::new();
    assert_eq!(shell.tab_complete(b"c", &fs), Some(b"cat".to_vec()));
    assert_eq!(shell.tab_completions, words(&["cat", "cd", "clear", "cp"]));
    assert_eq!(shell.tab_complete(b"c", &fs), Some(b"cd".to_vec()));
    assert_eq!(shell.tab_complete(b"c", &fs), Some(b"clear".to_vec()));
    assert_eq!(shell.tab_complete(b"c", &fs), Some(b"cp".to_vec()));
    assert_eq!(shell.tab_complete(b"c", &fs), Some(b"cat".to_vec()));
    shell.reset_tab_completion();
    assert!(shell.tab_completions.is_empty());
    assert_eq!(shell.tab_index, 0);
    assert_eq!(shell.tab_complete(b"x", &fs), None);
    assert_eq!(shell.tab_complete(b"", &fs), Some(b"cat".to_vec()));
    assert_eq!(shell.tab_completions.len(), 12);
    assert_eq!(
        shell.tab_completions,
        words(&["cat", "cd", "clear", "cp", "echo", "help", "ls", "mkdir", "mv", "pwd", "rm", "touch"])
    );
    shell.reset_tab_completion();
    assert_eq!(shell.tab_complete(b"  mk ", &fs), Some(b"mkdir".to_vec()));
}

#[test]
fn tab_completes_paths() {
    let mut fs = MemFs::new();
    fs.create_dir(b"/home").unwrap();
    fs.create_dir(b"/home/docs").unwrap();
    fs.create_file(b"/home/data.txt", vec![]).unwrap();
    fs.create_file(b"/home/other", vec![]).unwrap();
    fs.create_file(b"/home/docs/deep", vec![]).unwrap();
    let mut shell = Shell::new();
    assert_eq!(shell.tab_complete(b"cat  /home/d", &fs), Some(b"cat /home/data.txt".to_vec()));
    assert_eq!(shell.tab_completions, words(&["/home/data.txt", "/home/docs"]));
    assert_eq!(shell.tab_complete(b"cat  /home/d", &fs), Some(b"cat /home/docs".to_vec()));
    assert_eq!(shell.tab_complete(b"cat  /home/d", &fs), Some(b"cat /home/data.txt".to_vec()));
    shell.reset_tab_completion();
    shell.current_dir = b"/home".to_vec();
    assert_eq!(shell.tab_complete(b"cp a o", &fs), Some(b"cp a other".to_vec()));
    shell.reset_tab_completion();
    assert_eq!(shell.tab_complete(b"ls docs/", &fs), Some(b"ls docs/deep".to_vec()));
    shell.reset_tab_completion();
    assert_eq!(shell.tab_complete(b"ls ../home/do", &fs), Some(b"ls ../home/docs".to_vec()));
    shell.reset_tab_completion();
    assert_eq!(shell.tab_complete(b"ls nothing/x", &fs), None);
    assert_eq!(shell.tab_complete(b"ls zz", &fs), None);
    // a path whose only slash is the first is looked for in the current directory
    shell.generate_completions(b"", b"/ot", &fs);
    assert_eq!(shell.tab_completions, words(&["other"]));
    shell.current_dir = b"/".to_vec();
    shell.generate_completions(b"", b"/ho", &fs);
    assert_eq!(shell.tab_completions, words(&["home"]));
}
