//! A filesystem in memory: a table from the paths of files and
//! directories to what they hold.

use vstd::prelude::*;
use crate::fs::{
    Directory, File, FileStats, FileType, Filesystem, FsError, DIRECTORY_PERMISSIONS,
    FILE_PERMISSIONS,
};
use crate::net::wire::push_all;
use crate::fs::names::{
    ascending, before_or_same, lemma_ascending_unique, lemma_lex_reflexive, lemma_lex_total,
    lemma_lex_transitive, lex_le,
};
use crate::fs::path::{components, is_absolute, names_of, split, SLASH};
use crate::net::wire::copy_range;

verus! {

/// What stands at a path.
#[derive(Debug)]
pub enum Node {
    File(Vec<u8>),
    Directory,
}

/// What stands at a path, as mathematics.
pub enum NodeView {
    File(Seq<u8>),
    Directory,
}

impl Node {
    pub open spec fn view(&self) -> NodeView {
        match self {
            Node::File(data) => NodeView::File(data@),
            Node::Directory => NodeView::Directory,
        }
    }
}

/// A file or directory with the components of its path.
#[derive(Debug)]
pub struct Entry {
    pub path: Vec<Vec<u8>>,
    pub node: Node,
}

impl Entry {
    /// The components of the path of the entry.
    pub open spec fn key(&self) -> Seq<Seq<u8>> {
        names_of(self.path@)
    }
}

/// The first reason why the directories above `path` do not lead to it,
/// looked for from the `k`-th ancestor down: an ancestor that is missing,
/// or one that is a file.
pub open spec fn blocked(m: Map<Seq<Seq<u8>>, NodeView>, path: Seq<Seq<u8>>, k: nat) -> Option<
    FsError,
>
    decreases path.len() - k,
{
    if k >= path.len() {
        None
    } else if !m.contains_key(path.take(k as int)) {
        Some(FsError::NotFound)
    } else if m[path.take(k as int)] is File {
        Some(FsError::NotADirectory)
    } else {
        blocked(m, path, k + 1)
    }
}

/// What stands at `path`: the root is a directory; anything else must be
/// led to by directories and be in the table.
pub open spec fn found(m: Map<Seq<Seq<u8>>, NodeView>, path: Seq<Seq<u8>>) -> Result<
    NodeView,
    FsError,
> {
    if path.len() == 0 {
        Ok(NodeView::Directory)
    } else {
        match blocked(m, path, 1) {
            Some(e) => Err(e),
            None => if m.contains_key(path) {
                Ok(m[path])
            } else {
                Err(FsError::NotFound)
            },
        }
    }
}

/// Whether `path` lies at or below `top`.
pub open spec fn below(top: Seq<Seq<u8>>, path: Seq<Seq<u8>>) -> bool {
    path.len() >= top.len() && path.take(top.len() as int) == top
}

/// The table `m` without `top` and everything below it.
pub open spec fn pruned(m: Map<Seq<Seq<u8>>, NodeView>, top: Seq<Seq<u8>>) -> Map<
    Seq<Seq<u8>>,
    NodeView,
> {
    Map::new(|p: Seq<Seq<u8>>| m.contains_key(p) && !below(top, p), |p: Seq<Seq<u8>>| m[p])
}

/// What creating `node` at the path `path` gives.
pub open spec fn creation(
    m: Map<Seq<Seq<u8>>, NodeView>,
    path: Seq<u8>,
    node: NodeView,
) -> Result<Map<Seq<Seq<u8>>, NodeView>, FsError> {
    let p = components(path);
    if !is_absolute(path) {
        Err(FsError::InvalidPath)
    } else if p.len() == 0 {
        Err(FsError::AlreadyExists)
    } else if blocked(m, p, 1) is Some {
        Err(blocked(m, p, 1)->0)
    } else if m.contains_key(p) {
        Err(FsError::AlreadyExists)
    } else {
        Ok(m.insert(p, node))
    }
}

/// What removing the path `path` gives: the table without it and what
/// lies below it. The root cannot be removed.
pub open spec fn removal(m: Map<Seq<Seq<u8>>, NodeView>, path: Seq<u8>) -> Result<
    Map<Seq<Seq<u8>>, NodeView>,
    FsError,
> {
    let p = components(path);
    if !is_absolute(path) {
        Err(FsError::InvalidPath)
    } else if p.len() == 0 {
        Err(FsError::PermissionDenied)
    } else {
        match found(m, p) {
            Ok(_) => Ok(pruned(m, p)),
            Err(e) => Err(e),
        }
    }
}

/// What reading the file at `path` gives.
pub open spec fn file_at(m: Map<Seq<Seq<u8>>, NodeView>, path: Seq<u8>) -> Result<Seq<u8>, FsError> {
    if !is_absolute(path) {
        Err(FsError::InvalidPath)
    } else {
        match found(m, components(path)) {
            Ok(NodeView::File(data)) => Ok(data),
            Ok(NodeView::Directory) => Err(FsError::NotAFile),
            Err(e) => Err(e),
        }
    }
}

/// Whether a directory stands at `path`.
pub open spec fn directory_at(m: Map<Seq<Seq<u8>>, NodeView>, path: Seq<u8>) -> Result<(), FsError> {
    if !is_absolute(path) {
        Err(FsError::InvalidPath)
    } else {
        match found(m, components(path)) {
            Ok(NodeView::File(_)) => Err(FsError::NotADirectory),
            Ok(NodeView::Directory) => Ok(()),
            Err(e) => Err(e),
        }
    }
}

/// The type of what `node` is.
pub open spec fn type_of(node: NodeView) -> FileType {
    match node {
        NodeView::File(_) => FileType::File,
        NodeView::Directory => FileType::Directory,
    }
}

/// The filesystem.
pub struct MemFs {
    entries: Vec<Entry>,
}

impl View for MemFs {
    type V = Map<Seq<Seq<u8>>, NodeView>;

    closed spec fn view(&self) -> Map<Seq<Seq<u8>>, NodeView> {
        table(self.entries@)
    }
}

/// The table that `entries` stand for.
pub open spec fn table(entries: Seq<Entry>) -> Map<Seq<Seq<u8>>, NodeView> {
    Map::new(
        |p: Seq<Seq<u8>>| exists|i: int| 0 <= i < entries.len()
            && (#[trigger] entries[i]).key() == p,
        |p: Seq<Seq<u8>>|
            entries[choose|i: int| 0 <= i < entries.len()
                && (#[trigger] entries[i]).key() == p].node.view(),
    )
}

/// No two of `entries` have the same path, and none stands for the root.
pub open spec fn distinct(entries: Seq<Entry>) -> bool {
    &&& forall|i: int, j: int|
        0 <= i < entries.len() && 0 <= j < entries.len() && i != j ==> (#[trigger] entries[i]).key()
            != (#[trigger] entries[j]).key()
    &&& forall|i: int| 0 <= i < entries.len() ==> (#[trigger] entries[i]).key().len() > 0
}

/// With distinct paths, the table holds each entry under its path.
pub proof fn lemma_table_at(entries: Seq<Entry>, i: int)
    requires
        distinct(entries),
        0 <= i < entries.len(),
    ensures
        table(entries).contains_key(entries[i].key()),
        table(entries)[entries[i].key()] == entries[i].node.view(),
{
    let p = entries[i].key();
    let pick = choose|k: int| 0 <= k < entries.len() && (#[trigger] entries[k]).key() == p;
    assert(pick == i);
}

/// The table of the entries and one more is the table with one more path.
pub proof fn lemma_table_push(entries: Seq<Entry>, entry: Entry)
    requires
        distinct(entries.push(entry)),
    ensures
        distinct(entries),
        table(entries.push(entry)) == table(entries).insert(entry.key(), entry.node.view()),
{
    let after = entries.push(entry);
    assert forall|i: int, j: int|
        0 <= i < entries.len() && 0 <= j < entries.len() && i != j implies (
    #[trigger] entries[i]).key() != (#[trigger] entries[j]).key() by {
        assert(after[i] == entries[i] && after[j] == entries[j]);
    }
    assert forall|i: int| 0 <= i < entries.len() implies (#[trigger] entries[i]).key().len()
        > 0 by {
        assert(after[i] == entries[i]);
    }
    let m = table(entries).insert(entry.key(), entry.node.view());
    assert forall|p: Seq<Seq<u8>>| table(after).contains_key(p) <==> m.contains_key(p) by {
        if table(after).contains_key(p) {
            let i = choose|i: int| 0 <= i < after.len() && (#[trigger] after[i]).key() == p;
            if i < entries.len() {
                assert(entries[i].key() == p);
            }
        }
        if table(entries).contains_key(p) {
            let i = choose|i: int| 0 <= i < entries.len() && (#[trigger] entries[i]).key() == p;
            assert(after[i].key() == p);
        }
        if p == entry.key() {
            assert(after[entries.len() as int].key() == p);
        }
    }
    assert forall|p: Seq<Seq<u8>>| table(after).contains_key(p) implies table(after)[p]
        == m[p] by {
        let i = choose|i: int| 0 <= i < after.len() && (#[trigger] after[i]).key() == p;
        lemma_table_at(after, i);
        if i < entries.len() {
            assert(entries[i] == after[i]);
            lemma_table_at(entries, i);
            assert(after[i].key() != after[entries.len() as int].key());
        } else {
            assert(after[i] == entry);
        }
    }
    assert(table(after) =~= m);
}

/// The table of the entries without one is the table without its path.
pub proof fn lemma_table_remove(entries: Seq<Entry>, i: int)
    requires
        distinct(entries),
        0 <= i < entries.len(),
    ensures
        distinct(entries.remove(i)),
        table(entries.remove(i)) == table(entries).remove(entries[i].key()),
{
    let after = entries.remove(i);
    assert forall|a: int| 0 <= a < after.len() implies #[trigger] after[a] == entries[if a < i {
        a
    } else {
        a + 1
    }] by {}
    assert forall|a: int, b: int|
        0 <= a < after.len() && 0 <= b < after.len() && a != b implies (#[trigger] after[a]).key()
        != (#[trigger] after[b]).key() by {
        let a2 = if a < i { a } else { a + 1 };
        let b2 = if b < i { b } else { b + 1 };
        assert(after[a] == entries[a2] && after[b] == entries[b2]);
    }
    assert forall|a: int| 0 <= a < after.len() implies (#[trigger] after[a]).key().len() > 0 by {
        let a2 = if a < i { a } else { a + 1 };
        assert(after[a] == entries[a2]);
    }
    let m = table(entries).remove(entries[i].key());
    assert forall|p: Seq<Seq<u8>>| table(after).contains_key(p) <==> m.contains_key(p) by {
        if table(after).contains_key(p) {
            let a = choose|a: int| 0 <= a < after.len() && (#[trigger] after[a]).key() == p;
            let a2 = if a < i { a } else { a + 1 };
            assert(entries[a2].key() == p);
        }
        if m.contains_key(p) {
            let a2 = choose|a: int| 0 <= a < entries.len() && (#[trigger] entries[a]).key() == p;
            let a = if a2 < i { a2 } else { a2 - 1 };
            assert(after[a].key() == p);
        }
    }
    assert forall|p: Seq<Seq<u8>>| table(after).contains_key(p) implies table(after)[p]
        == m[p] by {
        let a = choose|a: int| 0 <= a < after.len() && (#[trigger] after[a]).key() == p;
        let a2 = if a < i { a } else { a + 1 };
        lemma_table_at(after, a);
        assert(after[a] == entries[a2]);
        lemma_table_at(entries, a2);
        assert(entries[a2].key() != entries[i].key());
    }
    assert(table(after) =~= m);
}

/// Whether two names are the same bytes.
pub fn same_name(a: &Vec<u8>, b: &Vec<u8>) -> (r: bool)
    ensures
        r == (a@ == b@),
{
    if a.len() != b.len() {
        return false;
    }
    let mut i: usize = 0;
    while i < a.len()
        invariant
            i <= a@.len(),
            a@.len() == b@.len(),
            forall|j: int| 0 <= j < i ==> a@[j] == b@[j],
        decreases a@.len() - i,
    {
        if a[i] != b[i] {
            return false;
        }
        i = i + 1;
    }
    assert(a@ =~= b@);
    true
}

/// Whether the first `len` names of `full` are the names of `short`.
pub fn starts_with(full: &Vec<Vec<u8>>, short: &Vec<Vec<u8>>, len: usize) -> (r: bool)
    requires
        len <= short@.len(),
    ensures
        r == (full@.len() >= len && names_of(full@).take(len as int) == names_of(short@).take(
            len as int,
        )),
{
    if full.len() < len {
        return false;
    }
    let mut i: usize = 0;
    while i < len
        invariant
            i <= len,
            len <= full@.len(),
            len <= short@.len(),
            forall|j: int| 0 <= j < i ==> full@[j]@ == short@[j]@,
        decreases len - i,
    {
        if !same_name(&full[i], &short[i]) {
            assert(names_of(full@).take(len as int)[i as int] == full@[i as int]@);
            assert(names_of(short@).take(len as int)[i as int] == short@[i as int]@);
            return false;
        }
        i = i + 1;
    }
    assert(names_of(full@).take(len as int) =~= names_of(short@).take(len as int));
    true
}

impl MemFs {
    /// No path stands twice in the table, and the root does not stand in it.
    pub closed spec fn wf(&self) -> bool {
        distinct(self.entries@)
    }

    /// An empty filesystem: nothing but the root.
    pub fn new() -> (r: Self)
        ensures
            r.wf(),
            r@ == Map::<Seq<Seq<u8>>, NodeView>::empty(),
    {
        let r = MemFs { entries: Vec::new() };
        assert(r@ =~= Map::<Seq<Seq<u8>>, NodeView>::empty());
        r
    }

    fn position(&self, path: &Vec<Vec<u8>>, len: usize) -> (r: Option<usize>)
        requires
            self.wf(),
            len <= path@.len(),
        ensures
            r is Some <==> self@.contains_key(names_of(path@).take(len as int)),
            r matches Some(i) ==> i < self.entries@.len() && self.entries@[i as int].key()
                == names_of(path@).take(len as int) && self@[names_of(path@).take(len as int)]
                == self.entries@[i as int].node.view(),
    {
        let ghost target = names_of(path@).take(len as int);
        let mut i: usize = 0;
        while i < self.entries.len()
            invariant
                i <= self.entries@.len(),
                self.wf(),
                len <= path@.len(),
                target == names_of(path@).take(len as int),
                forall|j: int| 0 <= j < i ==> (#[trigger] self.entries@[j]).key() != target,
            decreases self.entries@.len() - i,
        {
            let entry = &self.entries[i];
            if entry.path.len() == len && starts_with(&entry.path, path, len) {
                assert(entry.key().take(len as int) =~= entry.key());
                proof {
                    lemma_table_at(self.entries@, i as int);
                }
                return Some(i);
            }
            assert(entry.key() != target) by {
                if entry.path@.len() == len {
                    assert(entry.key().take(len as int) =~= entry.key());
                }
            }
            i = i + 1;
        }
        None
    }

    fn ancestors(&self, path: &Vec<Vec<u8>>) -> (r: Option<FsError>)
        requires
            self.wf(),
            path@.len() > 0,
        ensures
            r == blocked(self@, names_of(path@), 1),
    {
        let n = path.len();
        let ghost p = names_of(path@);
        let mut k: usize = 1;
        while k < n
            invariant
                1 <= k <= n,
                n == path@.len(),
                self.wf(),
                p == names_of(path@),
                blocked(self@, p, 1) == blocked(self@, p, k as nat),
            decreases n - k,
        {
            match self.position(path, k) {
                Some(i) => {
                    match &self.entries[i].node {
                        Node::File(_) => {
                            return Some(FsError::NotADirectory);
                        },
                        Node::Directory => {},
                    }
                },
                None => {
                    return Some(FsError::NotFound);
                },
            }
            k = k + 1;
        }
        None
    }

    fn locate(&self, path: &Vec<Vec<u8>>) -> (r: Result<Option<usize>, FsError>)
        requires
            self.wf(),
        ensures
            match found(self@, names_of(path@)) {
                Ok(node) => {
                    &&& r is Ok
                    &&& path@.len() == 0 ==> r->Ok_0 is None
                    &&& path@.len() > 0 ==> (r->Ok_0 matches Some(i) && i < self.entries@.len()
                        && self.entries@[i as int].key() == names_of(path@)
                        && self.entries@[i as int].node.view() == node)
                },
                Err(e) => r == Err::<Option<usize>, FsError>(e),
            },
    {
        let n = path.len();
        if n == 0 {
            return Ok(None);
        }
        match self.ancestors(path) {
            Some(e) => {
                return Err(e);
            },
            None => {},
        }
        assert(names_of(path@).take(n as int) =~= names_of(path@));
        match self.position(path, n) {
            Some(i) => Ok(Some(i)),
            None => Err(FsError::NotFound),
        }
    }

    fn create(&mut self, path: &[u8], node: Node) -> (r: Result<(), FsError>)
        requires
            old(self).wf(),
        ensures
            final(self).wf(),
            match creation(old(self)@, path@, node.view()) {
                Ok(m) => r is Ok && final(self)@ == m,
                Err(e) => r == Err::<(), FsError>(e) && final(self)@ == old(self)@,
            },
    {
        if path.len() == 0 || path[0] != SLASH {
            return Err(FsError::InvalidPath);
        }
        let names = split(path);
        let n = names.len();
        if n == 0 {
            return Err(FsError::AlreadyExists);
        }
        match self.ancestors(&names) {
            Some(e) => {
                return Err(e);
            },
            None => {},
        }
        let ghost p = names_of(names@);
        assert(p.take(n as int) =~= p);
        if self.position(&names, n).is_some() {
            return Err(FsError::AlreadyExists);
        }
        let ghost before = self.entries@;
        self.entries.push(Entry { path: names, node });
        proof {
            let after = self.entries@;
            assert(after.last().key() == p);
            assert forall|i: int, j: int|
                0 <= i < after.len() && 0 <= j < after.len() && i != j implies (
            #[trigger] after[i]).key() != (#[trigger] after[j]).key() by {
                if i < before.len() {
                    assert(after[i] == before[i]);
                }
                if j < before.len() {
                    assert(after[j] == before[j]);
                }
            }
            assert forall|i: int| 0 <= i < after.len() implies (#[trigger] after[i]).key().len()
                > 0 by {
                if i < before.len() {
                    assert(after[i] == before[i]);
                }
            }
            assert(after =~= before.push(after.last()));
            lemma_table_push(before, after.last());
        }
        Ok(())
    }

    /// Creates the file at `path` with the contents `data`. The path must
    /// be absolute, directories must lead to it, and nothing may stand
    /// there: see `creation`.
    pub fn create_file(&mut self, path: &[u8], data: Vec<u8>) -> (r: Result<(), FsError>)
        requires
            old(self).wf(),
        ensures
            final(self).wf(),
            match creation(old(self)@, path@, NodeView::File(data@)) {
                Ok(m) => r is Ok && final(self)@ == m,
                Err(e) => r == Err::<(), FsError>(e) && final(self)@ == old(self)@,
            },
    {
        self.create(path, Node::File(data))
    }

    /// Creates the directory at `path`: see `creation`.
    pub fn create_dir(&mut self, path: &[u8]) -> (r: Result<(), FsError>)
        requires
            old(self).wf(),
        ensures
            final(self).wf(),
            match creation(old(self)@, path@, NodeView::Directory) {
                Ok(m) => r is Ok && final(self)@ == m,
                Err(e) => r == Err::<(), FsError>(e) && final(self)@ == old(self)@,
            },
    {
        self.create(path, Node::Directory)
    }

    /// The contents of the file at `path`: see `file_at`.
    pub fn read_file(&self, path: &[u8]) -> (r: Result<Vec<u8>, FsError>)
        requires
            self.wf(),
        ensures
            match file_at(self@, path@) {
                Ok(data) => r matches Ok(d) && d@ == data,
                Err(e) => r == Err::<Vec<u8>, FsError>(e),
            },
    {
        if path.len() == 0 || path[0] != SLASH {
            return Err(FsError::InvalidPath);
        }
        let names = split(path);
        match self.locate(&names) {
            Ok(Some(i)) => {
                match &self.entries[i].node {
                    Node::File(data) => {
                        let copy = copy_range(data.as_slice(), 0, data.len());
                        assert(data@.subrange(0, data@.len() as int) == data@);
                        Ok(copy)
                    },
                    Node::Directory => Err(FsError::NotAFile),
                }
            },
            Ok(None) => Err(FsError::NotAFile),
            Err(e) => Err(e),
        }
    }

    /// Whether a directory stands at `path`.
    pub fn is_dir(&self, path: &[u8]) -> (r: bool)
        requires
            self.wf(),
        ensures
            r == (directory_at(self@, path@) is Ok),
    {
        if path.len() == 0 || path[0] != SLASH {
            return false;
        }
        let names = split(path);
        match self.locate(&names) {
            Ok(Some(i)) => {
                match &self.entries[i].node {
                    Node::File(_) => false,
                    Node::Directory => true,
                }
            },
            Ok(None) => true,
            Err(_) => false,
        }
    }

    /// The entries of the directory at `path`, each with its name and
    /// type: every child of the directory once, and nothing else.
    pub fn read_dir(&self, path: &[u8]) -> (r: Result<Vec<(Vec<u8>, FileType)>, FsError>)
        requires
            self.wf(),
        ensures
            match directory_at(self@, path@) {
                Ok(()) => r matches Ok(list) && listing(self@, components(path@), list@)
                    && in_order(list@) && entry_views(list@) == entries(
                    self@,
                    components(path@),
                ),
                Err(e) => r == Err::<Vec<(Vec<u8>, FileType)>, FsError>(e),
            },
    {
        if path.len() == 0 || path[0] != SLASH {
            return Err(FsError::InvalidPath);
        }
        let names = split(path);
        match self.locate(&names) {
            Ok(Some(i)) => {
                match &self.entries[i].node {
                    Node::File(_) => {
                        return Err(FsError::NotADirectory);
                    },
                    Node::Directory => {},
                }
            },
            Ok(None) => {},
            Err(e) => {
                return Err(e);
            },
        }
        let ghost p = names_of(names@);
        let depth = names.len();
        let mut list: Vec<(Vec<u8>, FileType)> = Vec::new();
        let ghost mut origin: Seq<int> = Seq::empty();
        let mut i: usize = 0;
        while i < self.entries.len()
            invariant
                i <= self.entries@.len(),
                self.wf(),
                p == names_of(names@),
                depth == names@.len(),
                origin.len() == list@.len(),
                forall|k: int| 0 <= k < origin.len() ==> 0 <= #[trigger] origin[k] < i,
                forall|k: int|
                    0 <= k < list@.len() ==> 0 <= origin[k] < i && is_child(
                        p,
                        self.entries@[origin[k]].key(),
                    ) && (#[trigger] list@[k]).0@ == self.entries@[origin[k]].key().last()
                        && list@[k].1 == type_of(self.entries@[origin[k]].node.view()),
                forall|a: int, b: int|
                    0 <= a < origin.len() && 0 <= b < origin.len() && a != b ==> origin[a]
                        != origin[b],
                in_order(list@),
                forall|j: int|
                    0 <= j < i && is_child(p, (#[trigger] self.entries@[j]).key()) ==>
                        exists|k: int|
                        0 <= k < origin.len() && origin[k] == j,
            decreases self.entries@.len() - i,
        {
            let entry = &self.entries[i];
            let length = entry.path.len();
            if depth < usize::MAX && length == depth + 1 && starts_with(
                &entry.path,
                &names,
                depth,
            ) {
                assert(p.take(depth as int) =~= p);
                let name = &entry.path[depth];
                let copy = copy_range(name.as_slice(), 0, name.len());
                assert(name@.subrange(0, name@.len() as int) == name@);
                let kind = match &entry.node {
                    Node::File(_) => FileType::File,
                    Node::Directory => FileType::Directory,
                };
                let mut at: usize = 0;
                while at < list.len() && before_or_same(list[at].0.as_slice(), copy.as_slice())
                    invariant
                        at <= list@.len(),
                        forall|j: int| 0 <= j < at ==> lex_le((#[trigger] list@[j]).0@, copy@),
                    decreases list@.len() - at,
                {
                    at = at + 1;
                }
                let ghost before = origin;
                let ghost listed = list@;
                let item = (copy, kind);
                list.insert(at, item);
                proof {
                    origin = origin.insert(at as int, i as int);
                    assert forall|k: int| 0 <= k < list@.len() implies 0 <= origin[k] < i + 1
                        && is_child(p, self.entries@[origin[k]].key()) && (#[trigger] list@[k]).0@
                        == self.entries@[origin[k]].key().last() && list@[k].1 == type_of(
                        self.entries@[origin[k]].node.view(),
                    ) by {
                        if k < at {
                            assert(list@[k] == listed[k] && origin[k] == before[k]);
                        } else if k > at {
                            assert(list@[k] == listed[k - 1] && origin[k] == before[k - 1]);
                        }
                    }
                    assert forall|a: int, b: int|
                        0 <= a < origin.len() && 0 <= b < origin.len() && a != b implies origin[a]
                        != origin[b] by {
                        let a0 = if a < at {
                            a
                        } else {
                            a - 1
                        };
                        let b0 = if b < at {
                            b
                        } else {
                            b - 1
                        };
                        if a != at && b != at {
                            assert(origin[a] == before[a0] && origin[b] == before[b0]);
                        } else if a == at {
                            assert(origin[b] == before[b0]);
                        } else {
                            assert(origin[a] == before[a0]);
                        }
                    }
                    assert forall|a: int, b: int| 0 <= a < b < list@.len() implies lex_le(
                        list@[a].0@,
                        list@[b].0@,
                    ) by {
                        if b < at {
                            assert(list@[a] == listed[a] && list@[b] == listed[b]);
                        } else if b == at {
                            assert(list@[a] == listed[a]);
                        } else if a == at {
                            assert(list@[b] == listed[b - 1]);
                            lemma_lex_total(listed[at as int].0@, item.0@);
                            lemma_lex_reflexive(listed[at as int].0@);
                            lemma_lex_transitive(item.0@, listed[at as int].0@, listed[b - 1].0@);
                        } else if a < at {
                            assert(list@[a] == listed[a] && list@[b] == listed[b - 1]);
                        } else {
                            assert(list@[a] == listed[a - 1] && list@[b] == listed[b - 1]);
                        }
                    }
                    assert forall|j: int|
                        0 <= j < i + 1 && is_child(
                            p,
                            (#[trigger] self.entries@[j]).key(),
                        ) implies exists|k: int| 0 <= k < origin.len() && origin[k] == j by {
                        if j < i {
                            let k = choose|k: int| 0 <= k < before.len() && before[k] == j;
                            if k < at {
                                assert(origin[k] == j);
                            } else {
                                assert(origin[k + 1] == j);
                            }
                        } else {
                            assert(origin[at as int] == j);
                        }
                    }
                }
            } else {
                assert(!is_child(p, entry.key())) by {
                    assert(entry.path@.len() <= usize::MAX);
                    assert(entry.key().len() == entry.path@.len());
                    assert(p.len() == depth);
                    if entry.path@.len() == depth + 1 {
                        assert(p.take(depth as int) =~= p);
                    }
                }
            }
            i = i + 1;
        }
        proof {
            let entries = self.entries@;
            let m = self@;
            assert forall|k: int| 0 <= k < list@.len() implies m.contains_key(
                p.push((#[trigger] list@[k]).0@),
            ) && list@[k].1 == type_of(m[p.push(list@[k].0@)]) by {
                let e = entries[origin[k]];
                lemma_child(p, e.key());
                lemma_table_at(entries, origin[k]);
            }
            assert forall|a: int, b: int|
                0 <= a < list@.len() && 0 <= b < list@.len() && a != b implies (
            #[trigger] list@[a]).0@ != (#[trigger] list@[b]).0@ by {
                let la = list@[a];
                let lb = list@[b];
                assert(is_child(p, entries[origin[a]].key()));
                assert(is_child(p, entries[origin[b]].key()));
                let ea = entries[origin[a]];
                let eb = entries[origin[b]];
                lemma_child(p, ea.key());
                lemma_child(p, eb.key());
                assert(origin[a] != origin[b]);
            }
            assert forall|name: Seq<u8>| m.contains_key(#[trigger] p.push(name)) implies exists|
                k: int,
            | 0 <= k < list@.len() && (#[trigger] list@[k]).0@ == name by {
                let key = p.push(name);
                let j = choose|j: int| 0 <= j < entries.len()
                    && (#[trigger] entries[j]).key() == key;
                assert(key.take(p.len() as int) =~= p);
                assert(is_child(p, entries[j].key()));
                let k = choose|k: int| 0 <= k < origin.len() && origin[k] == j;
                assert(list@[k].0@ == name);
            }
            lemma_listed(m, p, list@);
        }
        Ok(list)
    }

    /// Removes what stands at `path`, and with a directory everything
    /// below it: see `removal`.
    pub fn remove(&mut self, path: &[u8]) -> (r: Result<(), FsError>)
        requires
            old(self).wf(),
        ensures
            final(self).wf(),
            match removal(old(self)@, path@) {
                Ok(m) => r is Ok && final(self)@ == m,
                Err(e) => r == Err::<(), FsError>(e) && final(self)@ == old(self)@,
            },
    {
        if path.len() == 0 || path[0] != SLASH {
            return Err(FsError::InvalidPath);
        }
        let names = split(path);
        if names.len() == 0 {
            return Err(FsError::PermissionDenied);
        }
        match self.locate(&names) {
            Ok(_) => {},
            Err(e) => {
                return Err(e);
            },
        }
        let ghost p = names_of(names@);
        let ghost all = self@;
        let depth = names.len();
        assert(p.take(depth as int) =~= p);
        let mut i: usize = 0;
        while i < self.entries.len()
            invariant
                i <= self.entries@.len(),
                self.wf(),
                p == names_of(names@),
                depth == names@.len(),
                p.take(depth as int) == p,
                forall|j: int| 0 <= j < i ==> !below(p, (#[trigger] self.entries@[j]).key()),
                forall|k: Seq<Seq<u8>>|
                    #![trigger self@.contains_key(k)]
                    self@.contains_key(k) ==> all.contains_key(k) && self@[k] == all[k],
                forall|k: Seq<Seq<u8>>|
                    #![trigger all.contains_key(k)]
                    all.contains_key(k) && !below(p, k) ==> self@.contains_key(k),
            decreases self.entries@.len() - i,
        {
            let ghost before = self.entries@;
            let ghost cur = self@;
            if starts_with(&self.entries[i].path, &names, depth) {
                proof {
                    lemma_table_remove(before, i as int);
                    assert(below(p, before[i as int].key()));
                }
                let _ = self.entries.remove(i);
                proof {
                    assert(self.entries@ == before.remove(i as int));
                    let removed = before[i as int].key();
                    assert(self@ == cur.remove(removed));
                    assert forall|k: Seq<Seq<u8>>| #[trigger]
                        self@.contains_key(k) implies all.contains_key(k) && self@[k] == all[k] by {
                        assert(cur.contains_key(k));
                        assert(self@[k] == cur[k]);
                    }
                    assert forall|j: int| 0 <= j < i implies !below(
                        p,
                        (#[trigger] self.entries@[j]).key(),
                    ) by {
                        assert(self.entries@[j] == before[j]);
                    }
                }
            } else {
                assert(!below(p, before[i as int].key()));
                i = i + 1;
            }
        }
        proof {
            assert forall|k: Seq<Seq<u8>>| #[trigger] self@.contains_key(k) implies !below(
                p,
                k,
            ) by {
                let j = choose|j: int|
                    0 <= j < self.entries@.len() && (#[trigger] self.entries@[j]).key() == k;
                assert(!below(p, self.entries@[j].key()));
            }
            let pr = pruned(all, p);
            assert forall|k: Seq<Seq<u8>>| self@.contains_key(k) <==> pr.contains_key(k) by {
                if pr.contains_key(k) {
                    assert(all.contains_key(k));
                }
            }
            assert(self@ =~= pr);
        }
        Ok(())
    }

    /// What the statistics say of what stands at `path`: for a file its
    /// size, for a directory the number of its entries.
    pub fn stats_at(&self, path: &[u8]) -> (r: Result<FileStats, FsError>)
        requires
            self.wf(),
        ensures
            !is_absolute(path@) ==> r == Err::<FileStats, FsError>(FsError::InvalidPath),
            is_absolute(path@) ==> match found(self@, components(path@)) {
                Ok(NodeView::File(data)) => r == Ok::<FileStats, FsError>(
                    FileStats {
                        file_type: FileType::File,
                        size: data.len() as usize,
                        permissions: FILE_PERMISSIONS,
                    },
                ),
                Ok(NodeView::Directory) => r == Ok::<FileStats, FsError>(
                    FileStats {
                        file_type: FileType::Directory,
                        size: entries(self@, components(path@)).len() as usize,
                        permissions: DIRECTORY_PERMISSIONS,
                    },
                ),
                Err(e) => r == Err::<FileStats, FsError>(e),
            },
    {
        if path.len() == 0 || path[0] != SLASH {
            return Err(FsError::InvalidPath);
        }
        let names = split(path);
        match self.locate(&names) {
            Ok(Some(i)) => {
                match &self.entries[i].node {
                    Node::File(data) => {
                        return Ok(
                            FileStats {
                                file_type: FileType::File,
                                size: data.len(),
                                permissions: FILE_PERMISSIONS,
                            },
                        );
                    },
                    Node::Directory => {},
                }
            },
            Ok(None) => {},
            Err(e) => {
                return Err(e);
            },
        }
        let size = match self.read_dir(path) {
            Ok(list) => {
                assert(entry_views(list@).len() == list@.len());
                list.len()
            },
            Err(_) => 0,
        };
        Ok(FileStats { file_type: FileType::Directory, size, permissions: DIRECTORY_PERMISSIONS })
    }
}

/// An entry of a directory has the path of the directory and its own name.
pub proof fn lemma_child(dir: Seq<Seq<u8>>, path: Seq<Seq<u8>>)
    requires
        is_child(dir, path),
    ensures
        path == dir.push(path.last()),
{
    assert forall|j: int| 0 <= j < dir.len() implies path[j] == dir[j] by {
        assert(path.take(dir.len() as int)[j] == path[j]);
    }
    assert(path =~= dir.push(path.last()));
}

/// Whether `path` is an entry of the directory `dir`.
pub open spec fn is_child(dir: Seq<Seq<u8>>, path: Seq<Seq<u8>>) -> bool {
    path.len() == dir.len() + 1 && path.take(dir.len() as int) == dir
}

impl Filesystem for MemFs {
    open spec fn valid(&self) -> bool {
        self.wf()
    }

    fn create_file(&mut self, path: &[u8], data: Vec<u8>) -> (r: Result<(), FsError>)
        ensures
            match creation(old(self)@, path@, NodeView::File(data@)) {
                Ok(m) => r is Ok && final(self)@ == m,
                Err(e) => r == Err::<(), FsError>(e) && final(self)@ == old(self)@,
            },
    {
        MemFs::create_file(self, path, data)
    }

    fn create_dir(&mut self, path: &[u8]) -> (r: Result<(), FsError>)
        ensures
            match creation(old(self)@, path@, NodeView::Directory) {
                Ok(m) => r is Ok && final(self)@ == m,
                Err(e) => r == Err::<(), FsError>(e) && final(self)@ == old(self)@,
            },
    {
        MemFs::create_dir(self, path)
    }

    fn remove(&mut self, path: &[u8]) -> (r: Result<(), FsError>)
        ensures
            match removal(old(self)@, path@) {
                Ok(m) => r is Ok && final(self)@ == m,
                Err(e) => r == Err::<(), FsError>(e) && final(self)@ == old(self)@,
            },
    {
        MemFs::remove(self, path)
    }

    fn read_file(&self, path: &[u8]) -> (r: Result<Vec<u8>, FsError>)
        ensures
            match file_at(self@, path@) {
                Ok(data) => r matches Ok(d) && d@ == data,
                Err(e) => r == Err::<Vec<u8>, FsError>(e),
            },
    {
        MemFs::read_file(self, path)
    }

    fn read_dir(&self, path: &[u8]) -> (r: Result<Vec<(Vec<u8>, FileType)>, FsError>)
        ensures
            match directory_at(self@, path@) {
                Ok(()) => r matches Ok(list) && listing(self@, components(path@), list@)
                    && in_order(list@) && entry_views(list@) == entries(
                    self@,
                    components(path@),
                ),
                Err(e) => r == Err::<Vec<(Vec<u8>, FileType)>, FsError>(e),
            },
    {
        MemFs::read_dir(self, path)
    }

    fn is_dir(&self, path: &[u8]) -> (r: bool)
        ensures
            r == (directory_at(self@, path@) is Ok),
    {
        MemFs::is_dir(self, path)
    }
}

/// The path of the entry `name` of the root directory.
pub open spec fn root_path(name: Seq<u8>) -> Seq<u8> {
    seq![SLASH] + name
}

fn from_root(name: &[u8]) -> (r: Vec<u8>)
    ensures
        r@ == root_path(name@),
{
    let mut path: Vec<u8> = Vec::new();
    path.push(SLASH);
    push_all(&mut path, name);
    path
}

/// The filesystem as its root directory: a name is taken as a path from
/// the root.
impl Directory for MemFs {
    open spec fn intact(&self) -> bool {
        self.wf()
    }

    /// The entries of the root directory, by name in the order of the dictionary.
    fn list(&self) -> (r: Result<Vec<(Vec<u8>, FileType)>, FsError>)
        ensures
            r matches Ok(list) && entry_views(list@) == entries(self@, Seq::empty()),
    {
        let root = from_root(&[]);
        assert(root@ =~= seq![SLASH]);
        assert(components(root@) =~= Seq::<Seq<u8>>::empty()) by {
            reveal_with_fuel(components, 3);
            assert(root@.skip(1) =~= Seq::<u8>::empty());
        }
        MemFs::read_dir(self, root.as_slice())
    }

    fn create_file(&mut self, name: &[u8], data: Vec<u8>) -> (r: Result<(), FsError>)
        ensures
            match creation(old(self)@, root_path(name@), NodeView::File(data@)) {
                Ok(m) => r is Ok && final(self)@ == m,
                Err(e) => r == Err::<(), FsError>(e) && final(self)@ == old(self)@,
            },
    {
        let path = from_root(name);
        MemFs::create_file(self, path.as_slice(), data)
    }

    fn create_dir(&mut self, name: &[u8]) -> (r: Result<(), FsError>)
        ensures
            match creation(old(self)@, root_path(name@), NodeView::Directory) {
                Ok(m) => r is Ok && final(self)@ == m,
                Err(e) => r == Err::<(), FsError>(e) && final(self)@ == old(self)@,
            },
    {
        let path = from_root(name);
        MemFs::create_dir(self, path.as_slice())
    }

    fn remove(&mut self, name: &[u8]) -> (r: Result<(), FsError>)
        ensures
            match removal(old(self)@, root_path(name@)) {
                Ok(m) => r is Ok && final(self)@ == m,
                Err(e) => r == Err::<(), FsError>(e) && final(self)@ == old(self)@,
            },
    {
        let path = from_root(name);
        MemFs::remove(self, path.as_slice())
    }

    /// The root is a directory of as many entries as it lists.
    fn stats(&self) -> (r: Result<FileStats, FsError>)
        ensures
            r == Ok::<FileStats, FsError>(
                FileStats {
                    file_type: FileType::Directory,
                    size: entries(self@, Seq::empty()).len() as usize,
                    permissions: DIRECTORY_PERMISSIONS,
                },
            ),
    {
        let root = from_root(&[]);
        assert(root@ =~= seq![SLASH]);
        assert(components(root@) =~= Seq::<Seq<u8>>::empty()) by {
            reveal_with_fuel(components, 3);
            assert(root@.skip(1) =~= Seq::<u8>::empty());
        }
        self.stats_at(root.as_slice())
    }
}

/// A file in memory, by itself.
#[derive(Debug)]
pub struct MemFile {
    pub data: Vec<u8>,
}

impl MemFile {
    /// A file that holds `data`.
    pub fn new(data: Vec<u8>) -> (r: Self)
        ensures
            r.data == data,
    {
        MemFile { data }
    }
}

impl File for MemFile {
    open spec fn contents(&self) -> Seq<u8> {
        self.data@
    }

    /// A copy of the bytes.
    fn read(&self) -> (r: Result<Vec<u8>, FsError>)
        ensures
            r matches Ok(data) && data@ == self.data@,
    {
        Ok(copy_range(self.data.as_slice(), 0, self.data.len()))
    }

    /// Replaces the bytes by `data`.
    fn write(&mut self, data: &[u8]) -> (r: Result<(), FsError>)
        ensures
            r is Ok,
    {
        self.data = copy_range(data, 0, data.len());
        Ok(())
    }

    /// Adds `data` behind the bytes.
    fn append(&mut self, data: &[u8]) -> (r: Result<(), FsError>)
        ensures
            r is Ok,
    {
        push_all(&mut self.data, data);
        Ok(())
    }

    /// Drops the bytes.
    fn truncate(&mut self) -> (r: Result<(), FsError>)
        ensures
            r is Ok,
    {
        self.data = Vec::new();
        Ok(())
    }

    /// A file of as many bytes as it holds, with the permissions of a file.
    fn stats(&self) -> (r: Result<FileStats, FsError>)
        ensures
            r == Ok::<FileStats, FsError>(
                FileStats {
                    file_type: FileType::File,
                    size: self.data@.len() as usize,
                    permissions: FILE_PERMISSIONS,
                },
            ),
    {
        Ok(FileStats { file_type: FileType::File, size: self.data.len(), permissions: FILE_PERMISSIONS })
    }
}

/// Whether the names of `list` stand in the order of the dictionary.
pub open spec fn in_order(list: Seq<(Vec<u8>, FileType)>) -> bool {
    forall|a: int, b: int|
        0 <= a < b < list.len() ==> lex_le((#[trigger] list[a]).0@, (#[trigger] list[b]).0@)
}

/// Whether `list` lists the directory `dir`: every entry of the directory
/// stands in it once, with its type, and nothing else does.
pub open spec fn listing(
    m: Map<Seq<Seq<u8>>, NodeView>,
    dir: Seq<Seq<u8>>,
    list: Seq<(Vec<u8>, FileType)>,
) -> bool {
    &&& forall|k: int|
        0 <= k < list.len() ==> m.contains_key(dir.push((#[trigger] list[k]).0@)) && list[k].1
            == type_of(m[dir.push(list[k].0@)])
    &&& forall|a: int, b: int|
        0 <= a < list.len() && 0 <= b < list.len() && a != b ==> (#[trigger] list[a]).0@ != (
        #[trigger] list[b]).0@
    &&& forall|name: Seq<u8>|
        m.contains_key(#[trigger] dir.push(name)) ==> exists|k: int|
            0 <= k < list.len() && (#[trigger] list[k]).0@ == name
}

/// A new entry at `p` blocks no way that was free before, from place `k` on.
pub proof fn lemma_still_free(
    m: Map<Seq<Seq<u8>>, NodeView>,
    p: Seq<Seq<u8>>,
    node: NodeView,
    k: nat,
)
    requires
        1 <= k,
        blocked(m, p, k) is None,
    ensures
        blocked(m.insert(p, node), p, k) is None,
    decreases p.len() - k,
{
    if k < p.len() {
        assert(p.take(k as int).len() != p.len());
        lemma_still_free(m, p, node, k + 1);
    }
}

/// What was created is there: after a file or a directory was created at
/// a path, it is what is found at that path.
pub proof fn lemma_created_is_found(m: Map<Seq<Seq<u8>>, NodeView>, path: Seq<u8>, node: NodeView)
    requires
        creation(m, path, node) is Ok,
    ensures
        found(creation(m, path, node)->Ok_0, components(path)) == Ok::<NodeView, FsError>(node),
{
    lemma_still_free(m, components(path), node, 1);
}

/// What was removed is gone: after a removal nothing is found at the path.
pub proof fn lemma_removed_is_gone(m: Map<Seq<Seq<u8>>, NodeView>, path: Seq<u8>)
    requires
        removal(m, path) is Ok,
    ensures
        found(removal(m, path)->Ok_0, components(path)) is Err,
{
    let p = components(path);
    let after = pruned(m, p);
    assert(below(p, p)) by {
        assert(p.take(p.len() as int) =~= p);
    }
    assert(!after.contains_key(p));
}

/// The entries of `list` as mathematics.
pub open spec fn entry_views(list: Seq<(Vec<u8>, FileType)>) -> Seq<(Seq<u8>, FileType)> {
    Seq::new(list.len(), |i: int| (list[i].0@, list[i].1))
}

/// The names of the entries `s`.
pub open spec fn entry_names(s: Seq<(Seq<u8>, FileType)>) -> Seq<Seq<u8>> {
    Seq::new(s.len(), |i: int| s[i].0)
}

/// Whether `s` is the list of the directory `dir`: its entries with
/// their types, each once, by name in the order of the dictionary.
pub open spec fn lists(
    m: Map<Seq<Seq<u8>>, NodeView>,
    dir: Seq<Seq<u8>>,
    s: Seq<(Seq<u8>, FileType)>,
) -> bool {
    &&& ascending(entry_names(s))
    &&& forall|k: int|
        0 <= k < s.len() ==> m.contains_key(dir.push((#[trigger] s[k]).0)) && s[k].1 == type_of(
            m[dir.push(s[k].0)],
        )
    &&& forall|name: Seq<u8>|
        m.contains_key(#[trigger] dir.push(name)) ==> entry_names(s).contains(name)
}

/// The list of the directory `dir`.
pub open spec fn entries(m: Map<Seq<Seq<u8>>, NodeView>, dir: Seq<Seq<u8>>) -> Seq<
    (Seq<u8>, FileType),
> {
    choose|s: Seq<(Seq<u8>, FileType)>| lists(m, dir, s)
}

/// A directory has one list.
pub proof fn lemma_listing_unique(
    m: Map<Seq<Seq<u8>>, NodeView>,
    dir: Seq<Seq<u8>>,
    a: Seq<(Seq<u8>, FileType)>,
    b: Seq<(Seq<u8>, FileType)>,
)
    requires
        lists(m, dir, a),
        lists(m, dir, b),
    ensures
        a == b,
{
    let x = entry_names(a);
    let y = entry_names(b);
    assert forall|w: Seq<u8>| x.contains(w) <==> y.contains(w) by {
        if x.contains(w) {
            let k = choose|k: int| 0 <= k < x.len() && x[k] == w;
            assert(a[k].0 == w);
            assert(m.contains_key(dir.push(w)));
        }
        if y.contains(w) {
            let k = choose|k: int| 0 <= k < y.len() && y[k] == w;
            assert(b[k].0 == w);
            assert(m.contains_key(dir.push(w)));
        }
    }
    lemma_ascending_unique(x, y);
    assert(a.len() == b.len());
    assert forall|k: int| 0 <= k < a.len() implies a[k] == b[k] by {
        assert(a[k].0 == x[k] && b[k].0 == y[k]);
    }
    assert(a =~= b);
}

/// A list whose names are apart and in order, as a list of names.
pub proof fn lemma_listed(
    m: Map<Seq<Seq<u8>>, NodeView>,
    dir: Seq<Seq<u8>>,
    list: Seq<(Vec<u8>, FileType)>,
)
    requires
        listing(m, dir, list),
        in_order(list),
    ensures
        entry_views(list) == entries(m, dir),
{
    let s = entry_views(list);
    let x = entry_names(s);
    assert forall|i: int, j: int| 0 <= i < j < x.len() implies lex_le(
        #[trigger] x[i],
        #[trigger] x[j],
    ) && x[i] != x[j] by {
        assert(x[i] == list[i].0@ && x[j] == list[j].0@);
    }
    assert forall|k: int| 0 <= k < s.len() implies m.contains_key(dir.push((#[trigger] s[k]).0))
        && s[k].1 == type_of(m[dir.push(s[k].0)]) by {
        assert(s[k].0 == list[k].0@ && s[k].1 == list[k].1);
    }
    assert forall|name: Seq<u8>| m.contains_key(#[trigger] dir.push(name)) implies entry_names(
        s,
    ).contains(name) by {
        let k = choose|k: int| 0 <= k < list.len() && (#[trigger] list[k]).0@ == name;
        assert(x[k] == name);
    }
    assert(lists(m, dir, s));
    lemma_listing_unique(m, dir, s, entries(m, dir));
}

} // verus!
