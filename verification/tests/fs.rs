use kernel_core::fs::memfs::{MemFile, MemFs};
use kernel_core::fs::path::{canonicalize, render, split, walk};
use kernel_core::fs::{Directory, File, FileStats, FileType, Filesystem, FsError};

fn names(list: &[&str]) -> Vec<Vec<u8>> {
    list.iter().map(|n| n.as_bytes().to_vec()).collect()
}

#[test]
fn paths_split_into_their_components() {
    assert_eq!(split(b"/usr/local/bin"), names(&["usr", "local", "bin"]));
    assert_eq!(split(b"//usr///local/"), names(&["usr", "local"]));
    assert_eq!(split(b"a/b"), names(&["a", "b"]));
    assert_eq!(split(b"/"), names(&[]));
    assert_eq!(split(b""), names(&[]));
    assert_eq!(split(b"/./../x"), names(&[".", "..", "x"]));
}

#[test]
fn walking_follows_dot_and_dot_dot() {
    assert_eq!(walk(names(&["a", "b"]), names(&["c"])), names(&["a", "b", "c"]));
    assert_eq!(walk(names(&["a", "b"]), names(&[".."])), names(&["a"]));
    assert_eq!(walk(names(&["a", "b"]), names(&[".", "."])), names(&["a", "b"]));
    assert_eq!(walk(names(&["a"]), names(&["..", "..", "x"])), names(&["x"]));
    assert_eq!(walk(names(&[]), names(&["...", ".x", "x."])), names(&["...", ".x", "x."]));
    assert_eq!(render(&names(&["a", "b"])), b"/a/b".to_vec());
    assert_eq!(render(&names(&[])), b"/".to_vec());
}

#[test]
fn canonical_paths() {
    assert_eq!(canonicalize(b"/home", b"docs/a.txt"), b"/home/docs/a.txt".to_vec());
    assert_eq!(canonicalize(b"/home", b"/etc//passwd/"), b"/etc/passwd".to_vec());
    assert_eq!(canonicalize(b"/home/user", b"../other/./x"), b"/home/other/x".to_vec());
    assert_eq!(canonicalize(b"/home", b"../../.."), b"/".to_vec());
    assert_eq!(canonicalize(b"/", b""), b"/".to_vec());
    assert_eq!(canonicalize(b"/a/../b", b"."), b"/b".to_vec());
    assert_eq!(canonicalize(b"relative/cwd", b"x"), b"/relative/cwd/x".to_vec());
    assert_eq!(canonicalize(b"/home", b"/"), b"/".to_vec());
    assert_eq!(canonicalize(b"/home", b"/.."), b"/".to_vec());
}

#[test]
fn canonical_form_is_a_fixed_point() {
    let cwds: [&[u8]; 3] = [b"/", b"/home/user", b"/a/../b"];
    let paths: [&[u8]; 9] = [
        b"/",
        b"/a/b/c",
        b"/a//b/./c/..",
        b"/../..",
        b"/a/b/../../../c/",
        b"",
        b"x/../y",
        b"../..",
        b"/.../..x/x..",
    ];
    for cwd in cwds {
        for path in paths {
            let once = canonicalize(cwd, path);
            assert_eq!(once[0], b'/');
            assert_eq!(canonicalize(cwd, &once), once);
            assert_eq!(canonicalize(b"/elsewhere", &once), once);
        }
    }
}

#[test]
fn files_are_created_and_read() {
    let mut fs = MemFs::new();
    assert_eq!(fs.create_dir(b"/bin"), Ok(()));
    assert_eq!(fs.create_file(b"/bin/ls", vec![1, 2, 3]), Ok(()));
    assert_eq!(fs.create_file(b"/top", vec![]), Ok(()));
    assert_eq!(fs.read_file(b"/bin/ls"), Ok(vec![1, 2, 3]));
    assert_eq!(fs.read_file(b"//bin//ls/"), Ok(vec![1, 2, 3]));
    assert_eq!(fs.read_file(b"/top"), Ok(vec![]));
    assert!(fs.is_dir(b"/"));
    assert!(fs.is_dir(b"/bin"));
    assert!(!fs.is_dir(b"/bin/ls"));
    assert!(!fs.is_dir(b"/nothing"));
    assert!(!fs.is_dir(b"bin"));
}

#[test]
fn every_error_has_its_cause() {
    let mut fs = MemFs::new();
    fs.create_dir(b"/d").unwrap();
    fs.create_file(b"/d/f", vec![7]).unwrap();
    assert_eq!(fs.create_file(b"d/g", vec![]), Err(FsError::InvalidPath));
    assert_eq!(fs.create_file(b"", vec![]), Err(FsError::InvalidPath));
    assert_eq!(fs.create_dir(b"/"), Err(FsError::AlreadyExists));
    assert_eq!(fs.create_dir(b"/d"), Err(FsError::AlreadyExists));
    assert_eq!(fs.create_file(b"/d/f", vec![]), Err(FsError::AlreadyExists));
    assert_eq!(fs.create_dir(b"/d/f"), Err(FsError::AlreadyExists));
    assert_eq!(fs.create_file(b"/x/y", vec![]), Err(FsError::NotFound));
    assert_eq!(fs.create_file(b"/d/x/y", vec![]), Err(FsError::NotFound));
    assert_eq!(fs.create_file(b"/d/f/g", vec![]), Err(FsError::NotADirectory));
    assert_eq!(fs.create_dir(b"/d/f/g/h"), Err(FsError::NotADirectory));
    assert_eq!(fs.read_file(b"/d"), Err(FsError::NotAFile));
    assert_eq!(fs.read_file(b"/"), Err(FsError::NotAFile));
    assert_eq!(fs.read_file(b"/d/g"), Err(FsError::NotFound));
    assert_eq!(fs.read_file(b"/d/f/g"), Err(FsError::NotADirectory));
    assert_eq!(fs.read_file(b"d/f"), Err(FsError::InvalidPath));
    assert_eq!(fs.read_dir(b"/d/f"), Err(FsError::NotADirectory));
    assert_eq!(fs.read_dir(b"/e"), Err(FsError::NotFound));
    assert_eq!(fs.read_dir(b"d"), Err(FsError::InvalidPath));
    assert_eq!(fs.remove(b"/"), Err(FsError::PermissionDenied));
    assert_eq!(fs.remove(b"/e"), Err(FsError::NotFound));
    assert_eq!(fs.remove(b"/d/f/g"), Err(FsError::NotADirectory));
    assert_eq!(fs.remove(b"d"), Err(FsError::InvalidPath));
    assert_eq!(fs.stats_at(b"d"), Err(FsError::InvalidPath));
    assert_eq!(fs.stats_at(b"/e"), Err(FsError::NotFound));
    // nothing was changed by the failures
    assert_eq!(fs.read_file(b"/d/f"), Ok(vec![7]));
    assert_eq!(fs.read_dir(b"/").unwrap().len(), 1);
}

#[test]
fn directories_list_their_entries() {
    let mut fs = MemFs::new();
    assert_eq!(fs.read_dir(b"/"), Ok(vec![]));
    fs.create_dir(b"/a").unwrap();
    fs.create_file(b"/f", vec![]).unwrap();
    fs.create_dir(b"/a/b").unwrap();
    fs.create_file(b"/a/b/deep", vec![1]).unwrap();
    fs.create_file(b"/a/g", vec![2]).unwrap();
    let mut root = fs.read_dir(b"/").unwrap();
    root.sort_by_key(|entry| entry.0.clone());
    assert_eq!(root, vec![(b"a".to_vec(), FileType::Directory), (b"f".to_vec(), FileType::File)]);
    let mut a = fs.read_dir(b"/a").unwrap();
    a.sort_by_key(|entry| entry.0.clone());
    assert_eq!(a, vec![(b"b".to_vec(), FileType::Directory), (b"g".to_vec(), FileType::File)]);
    assert_eq!(fs.read_dir(b"/a/b"), Ok(vec![(b"deep".to_vec(), FileType::File)]));
}

#[test]
fn removal_takes_the_subtree() {
    let mut fs = MemFs::new();
    fs.create_dir(b"/a").unwrap();
    fs.create_dir(b"/a/b").unwrap();
    fs.create_file(b"/a/b/c", vec![1]).unwrap();
    fs.create_dir(b"/ab").unwrap();
    fs.create_file(b"/ab/c", vec![2]).unwrap();
    assert_eq!(fs.remove(b"/a"), Ok(()));
    assert!(!fs.is_dir(b"/a"));
    assert_eq!(fs.read_file(b"/a/b/c"), Err(FsError::NotFound));
    assert_eq!(fs.read_file(b"/ab/c"), Ok(vec![2]));
    // what was below does not come back with a new directory
    fs.create_dir(b"/a").unwrap();
    assert_eq!(fs.read_dir(b"/a"), Ok(vec![]));
    assert!(!fs.is_dir(b"/a/b"));
    assert_eq!(fs.remove(b"/ab/c"), Ok(()));
    assert_eq!(fs.read_dir(b"/ab"), Ok(vec![]));
    assert!(fs.is_dir(b"/ab"));
}

#[test]
fn statistics_of_files_and_directories() {
    let mut fs = MemFs::new();
    fs.create_dir(b"/a").unwrap();
    fs.create_file(b"/a/f", vec![1, 2, 3, 4]).unwrap();
    fs.create_file(b"/a/g", vec![]).unwrap();
    assert_eq!(
        fs.stats_at(b"/a/f"),
        Ok(FileStats { file_type: FileType::File, size: 4, permissions: 0o644 })
    );
    assert_eq!(
        fs.stats_at(b"/a"),
        Ok(FileStats { file_type: FileType::Directory, size: 2, permissions: 0o755 })
    );
    assert_eq!(
        fs.stats_at(b"/"),
        Ok(FileStats { file_type: FileType::Directory, size: 1, permissions: 0o755 })
    );
}

#[test]
fn listings_come_in_the_order_of_the_names() {
    let mut fs = MemFs::new();
    MemFs::create_dir(&mut fs, b"/d").unwrap();
    for name in ["/d/pear", "/d/apple", "/d/zebra", "/d/app", "/d/Pear", "/d/apple2"] {
        MemFs::create_file(&mut fs, name.as_bytes(), vec![1]).unwrap();
    }
    MemFs::create_dir(&mut fs, b"/d/mango").unwrap();
    let listed: Vec<(Vec<u8>, FileType)> = MemFs::read_dir(&fs, b"/d").unwrap();
    let expected: Vec<(Vec<u8>, FileType)> = vec![
        (b"Pear".to_vec(), FileType::File),
        (b"app".to_vec(), FileType::File),
        (b"apple".to_vec(), FileType::File),
        (b"apple2".to_vec(), FileType::File),
        (b"mango".to_vec(), FileType::Directory),
        (b"pear".to_vec(), FileType::File),
        (b"zebra".to_vec(), FileType::File),
    ];
    assert_eq!(listed, expected);
}

fn through_the_interface<F: Filesystem>(fs: &mut F) {
    assert_eq!(fs.create_dir(b"/etc"), Ok(()));
    assert_eq!(fs.create_file(b"/etc/motd", b"hello".to_vec()), Ok(()));
    assert_eq!(fs.create_file(b"/etc/motd", b"again".to_vec()), Err(FsError::AlreadyExists));
    assert_eq!(fs.read_file(b"/etc/motd"), Ok(b"hello".to_vec()));
    assert_eq!(fs.read_dir(b"/etc"), Ok(vec![(b"motd".to_vec(), FileType::File)]));
    assert!(fs.is_dir(b"/etc"));
    assert!(!fs.is_dir(b"/etc/motd"));
    assert_eq!(fs.remove(b"/etc"), Ok(()));
    assert_eq!(fs.read_file(b"/etc/motd"), Err(FsError::NotFound));
}

#[test]
fn the_memory_filesystem_serves_the_interface() {
    let mut fs = MemFs::new();
    through_the_interface(&mut fs);
}

#[test]
fn a_file_in_memory_is_read_written_and_truncated() {
    let mut file = MemFile::new(b"abc".to_vec());
    assert_eq!(file.read(), Ok(b"abc".to_vec()));
    assert_eq!(
        file.stats(),
        Ok(FileStats { file_type: FileType::File, size: 3, permissions: 0o644 })
    );
    assert_eq!(file.append(b"de"), Ok(()));
    assert_eq!(file.read(), Ok(b"abcde".to_vec()));
    assert_eq!(file.write(b"xy"), Ok(()));
    assert_eq!(file.read(), Ok(b"xy".to_vec()));
    assert_eq!(file.truncate(), Ok(()));
    assert_eq!(file.read(), Ok(Vec::new()));
    assert_eq!(file.stats().unwrap().size, 0);
}

fn in_a_directory<D: Directory>(dir: &mut D) {
    assert_eq!(dir.list(), Ok(vec![]));
    assert_eq!(dir.create_dir(b"usr"), Ok(()));
    assert_eq!(dir.create_file(b"notes", b"text".to_vec()), Ok(()));
    assert_eq!(dir.create_file(b"notes", vec![]), Err(FsError::AlreadyExists));
    assert_eq!(dir.create_file(b"usr/share", vec![1]), Ok(()));
    assert_eq!(dir.create_file(b"none/x", vec![1]), Err(FsError::NotFound));
    assert_eq!(
        dir.list(),
        Ok(vec![(b"notes".to_vec(), FileType::File), (b"usr".to_vec(), FileType::Directory)])
    );
    assert_eq!(
        dir.stats(),
        Ok(FileStats { file_type: FileType::Directory, size: 2, permissions: 0o755 })
    );
    assert_eq!(dir.remove(b"usr"), Ok(()));
    assert_eq!(dir.remove(b"usr"), Err(FsError::NotFound));
    assert_eq!(dir.remove(b""), Err(FsError::PermissionDenied));
    assert_eq!(dir.list(), Ok(vec![(b"notes".to_vec(), FileType::File)]));
}

#[test]
fn the_filesystem_serves_as_its_root_directory() {
    let mut fs = MemFs::new();
    in_a_directory(&mut fs);
    assert_eq!(MemFs::read_file(&fs, b"/notes"), Ok(b"text".to_vec()));
}
