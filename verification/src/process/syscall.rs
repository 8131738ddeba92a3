//! The system calls: their numbers, and what each one answers.

use vstd::prelude::*;
use crate::fs::memfs::{creation, removal, MemFs, NodeView};
use crate::net::wire::copy_range;
use crate::process::ProcessManager;

verus! {

/// The interrupt vector of a system call.
pub const SYSCALL_INTERRUPT: u8 = 0x80;

/// What a system call answers when it fails.
pub const SYSCALL_ERROR: usize = usize::MAX;

/// The longest path that a system call reads.
pub const MAX_PATH: usize = 1024;

#[derive(Debug, Clone, Copy, PartialEq, Eq, Structural)]
pub enum SyscallNumber {
    Exit,
    Write,
    Read,
    Open,
    Close,
    CreateFile,
    CreateDir,
    Remove,
    Spawn,
    GetPid,
}

impl SyscallNumber {
    /// The number of the call.
    pub open spec fn number(self) -> usize {
        match self {
            SyscallNumber::Exit => 0,
            SyscallNumber::Write => 1,
            SyscallNumber::Read => 2,
            SyscallNumber::Open => 3,
            SyscallNumber::Close => 4,
            SyscallNumber::CreateFile => 5,
            SyscallNumber::CreateDir => 6,
            SyscallNumber::Remove => 7,
            SyscallNumber::Spawn => 8,
            SyscallNumber::GetPid => 9,
        }
    }

    /// The call that the number `value` names; a number that names none
    /// reads as exit.
    pub open spec fn of(value: usize) -> SyscallNumber {
        if value == 1 {
            SyscallNumber::Write
        } else if value == 2 {
            SyscallNumber::Read
        } else if value == 3 {
            SyscallNumber::Open
        } else if value == 4 {
            SyscallNumber::Close
        } else if value == 5 {
            SyscallNumber::CreateFile
        } else if value == 6 {
            SyscallNumber::CreateDir
        } else if value == 7 {
            SyscallNumber::Remove
        } else if value == 8 {
            SyscallNumber::Spawn
        } else if value == 9 {
            SyscallNumber::GetPid
        } else {
            SyscallNumber::Exit
        }
    }

    pub fn from_usize(value: usize) -> (r: SyscallNumber)
        ensures
            r == SyscallNumber::of(value),
    {
        match value {
            1 => SyscallNumber::Write,
            2 => SyscallNumber::Read,
            3 => SyscallNumber::Open,
            4 => SyscallNumber::Close,
            5 => SyscallNumber::CreateFile,
            6 => SyscallNumber::CreateDir,
            7 => SyscallNumber::Remove,
            8 => SyscallNumber::Spawn,
            9 => SyscallNumber::GetPid,
            _ => SyscallNumber::Exit,
        }
    }

    pub fn to_usize(self) -> (r: usize)
        ensures
            r == self.number(),
    {
        match self {
            SyscallNumber::Exit => 0,
            SyscallNumber::Write => 1,
            SyscallNumber::Read => 2,
            SyscallNumber::Open => 3,
            SyscallNumber::Close => 4,
            SyscallNumber::CreateFile => 5,
            SyscallNumber::CreateDir => 6,
            SyscallNumber::Remove => 7,
            SyscallNumber::Spawn => 8,
            SyscallNumber::GetPid => 9,
        }
    }
}

/// A number read as a call gives the number back, for the numbers of calls.
pub proof fn lemma_number_round_trip(call: SyscallNumber)
    ensures
        SyscallNumber::of(call.number()) == call,
{
}

/// Sets up what a new process needs for its system calls: nothing, so far.
pub fn init_process_context() {
}

/// Ends the calling process with `status`. The answer is 0.
pub fn sys_exit(status: i32) -> (r: usize)
    ensures
        r == 0,
{
    0
}

/// Whether writes to the descriptor `fd` go to the console: standard
/// output and standard error do.
pub open spec fn to_console(fd: usize) -> bool {
    fd == 1 || fd == 2
}

/// Whether writes to the descriptor `fd` go to the console.
pub fn to_console_descriptor(fd: usize) -> (r: bool)
    ensures
        r == to_console(fd),
{
    fd == 1 || fd == 2
}

/// Writes `buf` to the descriptor `fd`. The answer is the number of bytes
/// written: all of them for the console, none for any other descriptor.
pub fn sys_write(fd: usize, buf: &[u8]) -> (r: usize)
    ensures
        r == (if to_console(fd) {
            buf@.len()
        } else {
            0
        }),
{
    match fd {
        1 => buf.len(),
        2 => buf.len(),
        _ => 0,
    }
}

/// Reads from the descriptor `fd`: nothing, so far.
pub fn sys_read(fd: usize, count: usize) -> (r: usize)
    ensures
        r == 0,
{
    0
}

/// Opens the file at `path`: the answer is always descriptor 0, so far.
pub fn sys_open(path: &[u8], flags: usize) -> (r: usize)
    ensures
        r == 0,
{
    0
}

/// Closes the descriptor `fd`: the answer is 0.
pub fn sys_close(fd: usize) -> (r: usize)
    ensures
        r == 0,
{
    0
}

/// The id of the process that runs, or 0 if none does.
pub fn sys_getpid(manager: &ProcessManager) -> (r: usize)
    ensures
        r == (match manager.current {
            Some(p) => p.id,
            None => 0,
        }),
{
    match manager.current_process() {
        Some(id) => id,
        None => 0,
    }
}

/// The place of the first zero byte among the first 1024 bytes of
/// `buffer`, or the end of those bytes if none is zero.
pub open spec fn path_end(buffer: Seq<u8>, i: nat) -> nat
    decreases buffer.len() - i,
{
    if i >= buffer.len() || i >= MAX_PATH || buffer[i as int] == 0 {
        i
    } else {
        path_end(buffer, i + 1)
    }
}

/// The path that a call names: the bytes of `buffer` up to the first zero
/// byte, 1024 at most.
pub open spec fn path_of(buffer: Seq<u8>) -> Seq<u8> {
    buffer.take(path_end(buffer, 0) as int)
}

/// The path that a call names.
pub fn read_path(buffer: &[u8]) -> (r: Vec<u8>)
    ensures
        r@ == path_of(buffer@),
{
    let mut i: usize = 0;
    while i < buffer.len() && i < MAX_PATH && buffer[i] != 0
        invariant
            i <= buffer@.len(),
            i <= MAX_PATH,
            path_end(buffer@, 0) == path_end(buffer@, i as nat),
        decreases buffer@.len() - i,
    {
        i = i + 1;
    }
    let r = copy_range(buffer, 0, i);
    assert(buffer@.subrange(0, i as int) =~= buffer@.take(i as int));
    r
}

/// Creates an empty file at the path that `buffer` names. The answer is 0,
/// or the error value if the filesystem refuses.
pub fn sys_create_file(fs: &mut MemFs, buffer: &[u8]) -> (r: usize)
    requires
        old(fs).wf(),
    ensures
        final(fs).wf(),
        match creation(old(fs)@, path_of(buffer@), NodeView::File(Seq::empty())) {
            Ok(m) => r == 0 && final(fs)@ == m,
            Err(_) => r == SYSCALL_ERROR && final(fs)@ == old(fs)@,
        },
{
    let path = read_path(buffer);
    match fs.create_file(path.as_slice(), Vec::new()) {
        Ok(()) => 0,
        Err(_) => SYSCALL_ERROR,
    }
}

/// Creates a directory at the path that `buffer` names. The answer is 0,
/// or the error value if the filesystem refuses.
pub fn sys_create_dir(fs: &mut MemFs, buffer: &[u8]) -> (r: usize)
    requires
        old(fs).wf(),
    ensures
        final(fs).wf(),
        match creation(old(fs)@, path_of(buffer@), NodeView::Directory) {
            Ok(m) => r == 0 && final(fs)@ == m,
            Err(_) => r == SYSCALL_ERROR && final(fs)@ == old(fs)@,
        },
{
    let path = read_path(buffer);
    match fs.create_dir(path.as_slice()) {
        Ok(()) => 0,
        Err(_) => SYSCALL_ERROR,
    }
}

/// Removes what stands at the path that `buffer` names. The answer is 0,
/// or the error value if the filesystem refuses.
pub fn sys_remove(fs: &mut MemFs, buffer: &[u8]) -> (r: usize)
    requires
        old(fs).wf(),
    ensures
        final(fs).wf(),
        match removal(old(fs)@, path_of(buffer@)) {
            Ok(m) => r == 0 && final(fs)@ == m,
            Err(_) => r == SYSCALL_ERROR && final(fs)@ == old(fs)@,
        },
{
    let path = read_path(buffer);
    match fs.remove(path.as_slice()) {
        Ok(()) => 0,
        Err(_) => SYSCALL_ERROR,
    }
}

/// Starts the program at the path that `buffer` names: the answer is 0, so far.
pub fn sys_spawn(buffer: &[u8]) -> (r: usize)
    ensures
        r == 0,
{
    0
}

} // verus!
