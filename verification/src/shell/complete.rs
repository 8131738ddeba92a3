//! Tab completion: the commands and paths that a word in the line can grow into.

use vstd::prelude::*;
use crate::fs::memfs::{directory_at, MemFs};
use crate::fs::names::{
    ascending, before_or_same, lemma_ascending_unique, lemma_lex_reflexive, lemma_lex_total,
    lemma_lex_transitive, lex_le,
};
use crate::fs::path::{canonical, components, SLASH};
use crate::net::wire::{copy_range, push_all};
use crate::shell::{is_space, last_slash, Shell};

verus! {

/// Whether `list` is in the order of the dictionary.
pub open spec fn sorted(list: Seq<Vec<u8>>) -> bool {
    forall|i: int, j: int| 0 <= i < j < list.len() ==> lex_le(list[i]@, list[j]@)
}

/// Whether no word stands twice in `list`.
pub open spec fn apart(list: Seq<Vec<u8>>) -> bool {
    forall|i: int, j: int| 0 <= i < j < list.len() ==> (#[trigger] list[i])@ != (#[trigger] list[j])@
}

/// Whether `word` starts with `prefix`.
pub open spec fn has_prefix(word: Seq<u8>, prefix: Seq<u8>) -> bool {
    word.len() >= prefix.len() && word.take(prefix.len() as int) == prefix
}

/// Whether `word` starts with `prefix`.
pub fn starts_with(word: &[u8], prefix: &[u8]) -> (r: bool)
    ensures
        r == has_prefix(word@, prefix@),
{
    if word.len() < prefix.len() {
        return false;
    }
    let mut i: usize = 0;
    while i < prefix.len()
        invariant
            i <= prefix@.len(),
            prefix@.len() <= word@.len(),
            forall|j: int| 0 <= j < i ==> word@[j] == prefix@[j],
        decreases prefix@.len() - i,
    {
        if word[i] != prefix[i] {
            assert(word@.take(prefix@.len() as int)[i as int] != prefix@[i as int]);
            return false;
        }
        i = i + 1;
    }
    assert(word@.take(prefix@.len() as int) =~= prefix@);
    true
}

/// Puts `word` into the sorted list `list` at its place: behind the
/// words that come before it or are the same.
pub fn insert_sorted(list: &mut Vec<Vec<u8>>, word: Vec<u8>)
    requires
        sorted(old(list)@),
    ensures
        sorted(final(list)@),
        final(list)@.len() == old(list)@.len() + 1,
        exists|at: int|
            0 <= at <= old(list)@.len() && final(list)@ == old(list)@.insert(at, word),
        apart(old(list)@) && !among(old(list)@, word@) ==> apart(final(list)@),
{
    let mut at: usize = 0;
    while at < list.len() && before_or_same(list[at].as_slice(), word.as_slice())
        invariant
            at <= list@.len(),
            *list == *old(list),
            forall|j: int| 0 <= j < at ==> lex_le(list@[j]@, word@),
        decreases list@.len() - at,
    {
        at = at + 1;
    }
    proof {
        let before = list@;
        let after = before.insert(at as int, word);
        assert forall|i: int, j: int| 0 <= i < j < after.len() implies lex_le(
            after[i]@,
            after[j]@,
        ) by {
            if j < at {
            } else if j == at {
            } else if i == at {
                lemma_lex_total(before[at as int]@, word@);
                lemma_lex_reflexive(before[at as int]@);
                lemma_lex_transitive(word@, before[at as int]@, before[j - 1]@);
            } else if i < at {
                assert(after[i] == before[i] && after[j] == before[j - 1]);
            } else {
                assert(after[i] == before[i - 1] && after[j] == before[j - 1]);
            }
        }
    }
    proof {
        lemma_apart_insert(list@, at as int, word);
    }
    list.insert(at, word);
}

/// The commands that the shell knows.
pub open spec fn builtin(k: int) -> Seq<u8> {
    if k == 0 {
        seq![0x6Cu8, 0x73u8]
    } else if k == 1 {
        seq![0x63u8, 0x64u8]
    } else if k == 2 {
        seq![0x70u8, 0x77u8, 0x64u8]
    } else if k == 3 {
        seq![0x68u8, 0x65u8, 0x6Cu8, 0x70u8]
    } else if k == 4 {
        seq![0x63u8, 0x6Cu8, 0x65u8, 0x61u8, 0x72u8]
    } else if k == 5 {
        seq![0x63u8, 0x61u8, 0x74u8]
    } else if k == 6 {
        seq![0x6Du8, 0x6Bu8, 0x64u8, 0x69u8, 0x72u8]
    } else if k == 7 {
        seq![0x74u8, 0x6Fu8, 0x75u8, 0x63u8, 0x68u8]
    } else if k == 8 {
        seq![0x72u8, 0x6Du8]
    } else if k == 9 {
        seq![0x65u8, 0x63u8, 0x68u8, 0x6Fu8]
    } else if k == 10 {
        seq![0x63u8, 0x70u8]
    } else {
        seq![0x6Du8, 0x76u8]
    }
}

/// The number of commands that the shell knows.
pub const BUILTINS: usize = 12;

/// The `k`-th command that the shell knows.
pub fn builtin_name(k: usize) -> (r: Vec<u8>)
    requires
        k < BUILTINS,
    ensures
        r@ == builtin(k as int),
{
    let name: &[u8] = match k {
        0 => &[0x6C, 0x73],
        1 => &[0x63, 0x64],
        2 => &[0x70, 0x77, 0x64],
        3 => &[0x68, 0x65, 0x6C, 0x70],
        4 => &[0x63, 0x6C, 0x65, 0x61, 0x72],
        5 => &[0x63, 0x61, 0x74],
        6 => &[0x6D, 0x6B, 0x64, 0x69, 0x72],
        7 => &[0x74, 0x6F, 0x75, 0x63, 0x68],
        8 => &[0x72, 0x6D],
        9 => &[0x65, 0x63, 0x68, 0x6F],
        10 => &[0x63, 0x70],
        _ => &[0x6D, 0x76],
    };
    let r = copy_range(name, 0, name.len());
    assert(name@.subrange(0, name@.len() as int) =~= name@);
    assert(r@ =~= builtin(k as int));
    r
}

/// Whether `word` is one of the first `k` commands that the shell knows.
pub open spec fn known_below(word: Seq<u8>, k: nat) -> bool
    decreases k,
{
    k > 0 && (builtin(k - 1) == word || known_below(word, (k - 1) as nat))
}

/// Whether `word` is one of `list`.
pub open spec fn among(list: Seq<Vec<u8>>, word: Seq<u8>) -> bool {
    exists|i: int| 0 <= i < list.len() && (#[trigger] list[i])@ == word
}

/// A list in which no word stands twice stays so when a word that it
/// does not hold is put into it.
pub proof fn lemma_apart_insert(before: Seq<Vec<u8>>, at: int, word: Vec<u8>)
    requires
        0 <= at <= before.len(),
    ensures
        apart(before) && !among(before, word@) ==> apart(before.insert(at, word)),
{
    let after = before.insert(at, word);
    if apart(before) && !among(before, word@) {
        assert forall|i: int, j: int| 0 <= i < j < after.len() implies (#[trigger] after[i])@ != (
        #[trigger] after[j])@ by {
            let i0 = if i < at {
                i
            } else {
                i - 1
            };
            let j0 = if j < at {
                j
            } else {
                j - 1
            };
            if i == at {
                assert(after[j] == before[j0]);
                assert(before[j0]@ != word@);
            } else if j == at {
                assert(after[i] == before[i0]);
                assert(before[i0]@ != word@);
            } else {
                assert(after[i] == before[i0] && after[j] == before[j0]);
            }
        }
    }
}

/// The commands that the shell knows are twelve different words.
pub proof fn lemma_builtins_apart(j: int, k: int)
    requires
        0 <= j < k < BUILTINS,
    ensures
        builtin(j) != builtin(k),
{
    let a = builtin(j);
    let b = builtin(k);
    assert(a.len() >= 2 && b.len() >= 2);
    assert(a.len() != b.len() || a[0] != b[0] || a[1] != b[1]);
}

/// A word that is none of the first `k` commands is not known below `k`.
pub proof fn lemma_not_known_below(k: nat)
    requires
        k < BUILTINS,
    ensures
        !known_below(builtin(k as int), k),
    decreases k,
{
    let word = builtin(k as int);
    assert forall|n: nat| n <= k implies !known_below(word, n) by {
        lemma_known_below_is_one(word, n);
        if known_below(word, n) {
            let j = choose|j: int| 0 <= j < n && builtin(j) == word;
            lemma_builtins_apart(j, k as int);
        }
    }
}

/// What is known below a count is one of the commands below it.
pub proof fn lemma_known_below_is_one(word: Seq<u8>, n: nat)
    ensures
        known_below(word, n) ==> exists|j: int| 0 <= j < n && builtin(j) == word,
    decreases n,
{
    if n > 0 {
        lemma_known_below_is_one(word, (n - 1) as nat);
        if known_below(word, n) {
            if builtin(n - 1) == word {
                assert(0 <= n - 1 < n && builtin(n - 1) == word);
            } else {
                let j = choose|j: int| 0 <= j < n - 1 && builtin(j) == word;
                assert(0 <= j < n && builtin(j) == word);
            }
        }
    }
}

/// Different names have different paths in one directory.
pub proof fn lemma_entry_paths_apart(dir: Seq<u8>, a: Seq<u8>, b: Seq<u8>)
    requires
        a != b,
    ensures
        entry_path(dir, a) != entry_path(dir, b),
{
    if dir.len() > 0 {
        let n = dir.len() + 1;
        assert(entry_path(dir, a).skip(n as int) =~= a);
        assert(entry_path(dir, b).skip(n as int) =~= b);
    }
}

/// What `list` holds after `word` was put into `before` at place `at`.
pub proof fn lemma_among_insert(before: Seq<Vec<u8>>, at: int, word: Vec<u8>, other: Seq<u8>)
    requires
        0 <= at <= before.len(),
    ensures
        among(before.insert(at, word), other) <==> (among(before, other) || other == word@),
{
    let after = before.insert(at, word);
    if among(after, other) {
        let i = choose|i: int| 0 <= i < after.len() && (#[trigger] after[i])@ == other;
        if i < at {
            assert(before[i]@ == other);
        } else if i > at {
            assert(before[i - 1]@ == other);
        }
    }
    if among(before, other) {
        let i = choose|i: int| 0 <= i < before.len() && (#[trigger] before[i])@ == other;
        if i < at {
            assert(after[i]@ == other);
        } else {
            assert(after[i + 1]@ == other);
        }
    }
    if other == word@ {
        assert(after[at]@ == other);
    }
}

impl Shell {
    /// The commands that start with `prefix`, in the order of the
    /// dictionary, as the completions of the shell.
    pub fn complete_commands(&mut self, prefix: &[u8])
        ensures
            sorted(final(self).tab_completions@),
            apart(final(self).tab_completions@),
            forall|word: Seq<u8>|
                #![trigger among(final(self).tab_completions@, word)]
                among(final(self).tab_completions@, word) <==> (has_prefix(word, prefix@)
                    && known_below(word, BUILTINS as nat)),
            final(self).tab_index == old(self).tab_index,
            final(self).current_dir == old(self).current_dir,
            final(self).command_history == old(self).command_history,
            final(self).history_position == old(self).history_position,
    {
        self.tab_completions.clear();
        let mut k: usize = 0;
        while k < BUILTINS
            invariant
                k <= BUILTINS,
                sorted(self.tab_completions@),
                apart(self.tab_completions@),
                self.tab_index == old(self).tab_index,
                self.current_dir == old(self).current_dir,
                self.command_history == old(self).command_history,
                self.history_position == old(self).history_position,
                forall|word: Seq<u8>|
                    #![trigger among(self.tab_completions@, word)]
                    among(self.tab_completions@, word) <==> (has_prefix(word, prefix@)
                        && known_below(word, k as nat)),
            decreases BUILTINS - k,
        {
            let name = builtin_name(k);
            let ghost before = self.tab_completions@;
            if starts_with(name.as_slice(), prefix) {
                proof {
                    lemma_not_known_below(k as nat);
                    assert(!among(before, name@));
                }
                insert_sorted(&mut self.tab_completions, name);
                proof {
                    let at = choose|at: int|
                        0 <= at <= before.len() && self.tab_completions@ == before.insert(at, name);
                    assert forall|word: Seq<u8>|
                        #![trigger among(self.tab_completions@, word)]
                        among(self.tab_completions@, word) <==> (has_prefix(word, prefix@)
                            && known_below(word, (k + 1) as nat)) by {
                        lemma_among_insert(before, at, name, word);
                        assert(among(before, word) <==> (has_prefix(word, prefix@) && known_below(
                            word,
                            k as nat,
                        )));
                    }
                }
            } else {
                proof {
                    assert forall|word: Seq<u8>|
                        #![trigger among(self.tab_completions@, word)]
                        among(self.tab_completions@, word) <==> (has_prefix(word, prefix@)
                            && known_below(word, (k + 1) as nat)) by {
                        assert(among(before, word) <==> (has_prefix(word, prefix@) && known_below(
                            word,
                            k as nat,
                        )));
                    }
                }
            }
            k = k + 1;
        }
    }
}

/// The place of the first white space in `s`, or its length if it holds none.
pub open spec fn first_space(s: Seq<u8>) -> nat
    decreases s.len(),
{
    if s.len() == 0 {
        0
    } else if is_space(s[0]) {
        0
    } else {
        1 + first_space(s.skip(1))
    }
}

/// The words of a line: the parts between its white space.
pub open spec fn fields(s: Seq<u8>) -> Seq<Seq<u8>>
    decreases s.len(),
{
    if s.len() == 0 {
        Seq::empty()
    } else if is_space(s[0]) {
        fields(s.skip(1))
    } else {
        let n = first_space(s);
        if 0 < n <= s.len() {
            seq![s.take(n as int)] + fields(s.skip(n as int))
        } else {
            Seq::empty()
        }
    }
}

/// Where no white space stands before place `m`, and white space or the
/// end at `m`, the first white space is at `m`.
pub proof fn lemma_first_space(s: Seq<u8>, m: nat)
    requires
        m <= s.len(),
        forall|j: int| 0 <= j < m ==> !is_space(s[j]),
        m == s.len() || is_space(s[m as int]),
    ensures
        first_space(s) == m,
    decreases m,
{
    if m > 0 {
        lemma_first_space(s.skip(1), (m - 1) as nat);
    }
}

/// The words of `v`, each as its bytes.
pub open spec fn texts(v: Seq<Vec<u8>>) -> Seq<Seq<u8>> {
    Seq::new(v.len(), |i: int| v[i]@)
}

/// The words of the line `line`.
pub fn split_fields(line: &[u8]) -> (r: Vec<Vec<u8>>)
    ensures
        texts(r@) == fields(line@),
{
    let mut out: Vec<Vec<u8>> = Vec::new();
    let n = line.len();
    let mut i: usize = 0;
    assert(line@.skip(0) =~= line@);
    assert(texts(out@) =~= Seq::<Seq<u8>>::empty());
    while i < n
        invariant
            n == line@.len(),
            i <= n,
            fields(line@) == texts(out@) + fields(line@.skip(i as int)),
        decreases n - i,
    {
        let ghost rest = line@.skip(i as int);
        if line[i] == 0x20 || (0x09 <= line[i] && line[i] <= 0x0D) {
            assert(rest.skip(1) =~= line@.skip(i + 1));
            i = i + 1;
        } else {
            let mut j: usize = i;
            while j < n && !(line[j] == 0x20 || (0x09 <= line[j] && line[j] <= 0x0D))
                invariant
                    n == line@.len(),
                    i <= j <= n,
                    forall|k: int| i <= k < j ==> !is_space(line@[k]),
                decreases n - j,
            {
                j = j + 1;
            }
            proof {
                lemma_first_space(rest, (j - i) as nat);
                assert(rest.take(j - i) =~= line@.subrange(i as int, j as int));
                assert(rest.skip(j - i) =~= line@.skip(j as int));
            }
            let ghost before = texts(out@);
            out.push(copy_range(line, i, j));
            assert(texts(out@) =~= before + seq![line@.subrange(i as int, j as int)]);
            i = j;
        }
    }
    assert(texts(out@) + Seq::<Seq<u8>>::empty() =~= texts(out@));
    out
}

/// The completions are one list: two lists in the order of the dictionary
/// that hold the same words, none twice, are the same words in the same
/// places. So what is among the completions says which is offered first,
/// which next, and so on.
pub proof fn lemma_completions_unique(a: Seq<Vec<u8>>, b: Seq<Vec<u8>>)
    requires
        sorted(a),
        apart(a),
        sorted(b),
        apart(b),
        forall|word: Seq<u8>| among(a, word) <==> among(b, word),
    ensures
        texts(a) == texts(b),
{
    let x = texts(a);
    let y = texts(b);
    assert(ascending(x)) by {
        assert forall|i: int, j: int| 0 <= i < j < x.len() implies lex_le(
            #[trigger] x[i],
            #[trigger] x[j],
        ) && x[i] != x[j] by {
            assert(x[i] == a[i]@ && x[j] == a[j]@);
        }
    }
    assert(ascending(y)) by {
        assert forall|i: int, j: int| 0 <= i < j < y.len() implies lex_le(
            #[trigger] y[i],
            #[trigger] y[j],
        ) && y[i] != y[j] by {
            assert(y[i] == b[i]@ && y[j] == b[j]@);
        }
    }
    assert forall|w: Seq<u8>| x.contains(w) <==> y.contains(w) by {
        if x.contains(w) {
            let i = choose|i: int| 0 <= i < x.len() && x[i] == w;
            assert(a[i]@ == w);
            assert(among(a, w));
            assert(among(b, w));
            let j = choose|j: int| 0 <= j < b.len() && (#[trigger] b[j])@ == w;
            assert(y[j] == w);
        }
        if y.contains(w) {
            let i = choose|i: int| 0 <= i < y.len() && y[i] == w;
            assert(b[i]@ == w);
            assert(among(b, w));
            assert(among(a, w));
            let j = choose|j: int| 0 <= j < a.len() && (#[trigger] a[j])@ == w;
            assert(x[j] == w);
        }
    }
    lemma_ascending_unique(x, y);
}

/// The words with a blank between each two.
pub open spec fn spaced(words: Seq<Seq<u8>>) -> Seq<u8>
    decreases words.len(),
{
    if words.len() == 0 {
        Seq::empty()
    } else if words.len() == 1 {
        words[0]
    } else {
        spaced(words.drop_last()) + seq![0x20u8] + words.last()
    }
}

/// The path of the entry `name` of the directory that was written as
/// `dir`: the name alone if the directory was not written, else the
/// directory, a slash and the name.
pub open spec fn entry_path(dir: Seq<u8>, name: Seq<u8>) -> Seq<u8> {
    if dir.len() == 0 {
        name
    } else {
        dir + seq![SLASH] + name
    }
}

/// Whether `word` completes the path whose directory was written as `dir`
/// and whose name starts with `start`, by one of the first `k` entries of `list`.
pub open spec fn completes_below(
    list: Seq<(Vec<u8>, crate::fs::FileType)>,
    dir: Seq<u8>,
    start: Seq<u8>,
    word: Seq<u8>,
    k: nat,
) -> bool
    decreases k,
{
    k > 0 && ((has_prefix(list[k - 1].0@, start) && word == entry_path(dir, list[k - 1].0@))
        || completes_below(list, dir, start, word, (k - 1) as nat))
}

/// What completes below a count is what one of the entries below it completes.
pub proof fn lemma_completes_below(
    list: Seq<(Vec<u8>, crate::fs::FileType)>,
    dir: Seq<u8>,
    start: Seq<u8>,
    word: Seq<u8>,
    k: nat,
)
    requires
        k <= list.len(),
    ensures
        completes_below(list, dir, start, word, k) <==> exists|j: int|
            0 <= j < k && has_prefix((#[trigger] list[j]).0@, start) && word == entry_path(
                dir,
                list[j].0@,
            ),
    decreases k,
{
    if k > 0 {
        lemma_completes_below(list, dir, start, word, (k - 1) as nat);
        if has_prefix(list[k - 1].0@, start) && word == entry_path(dir, list[k - 1].0@) {
            assert(0 <= k - 1 < k && has_prefix(list[k - 1].0@, start));
        }
        if exists|j: int|
            0 <= j < k && has_prefix((#[trigger] list[j]).0@, start) && word == entry_path(
                dir,
                list[j].0@,
            ) {
            let j = choose|j: int|
                0 <= j < k && has_prefix((#[trigger] list[j]).0@, start) && word == entry_path(
                    dir,
                    list[j].0@,
                );
            if j < k - 1 {
                assert(0 <= j < k - 1 && has_prefix(list[j].0@, start));
            }
        }
    }
}

/// The last slash lies within the path.
pub proof fn lemma_last_slash_bounds(s: Seq<u8>)
    ensures
        last_slash(s) matches Some(at) ==> 0 <= at < s.len() && s[at] == SLASH,
    decreases s.len(),
{
    if s.len() > 0 && s.last() != SLASH {
        lemma_last_slash_bounds(s.drop_last());
    }
}

/// The directory in which the completions of the path `path` are looked
/// for, seen from `cwd`: `cwd` itself if the path names no directory, else
/// the canonical form of the directory that it names.
pub open spec fn search_directory(cwd: Seq<u8>, path: Seq<u8>) -> Seq<u8> {
    match last_slash(path) {
        Some(at) => if at == 0 {
            cwd
        } else {
            canonical(cwd, path.take(at))
        },
        None => cwd,
    }
}

/// The directory part of `path` as it was written.
pub open spec fn written_directory(path: Seq<u8>) -> Seq<u8> {
    match last_slash(path) {
        Some(at) => path.take(at),
        None => Seq::empty(),
    }
}

/// The start of the name that `path` ends with.
pub open spec fn written_name(path: Seq<u8>) -> Seq<u8> {
    match last_slash(path) {
        Some(at) => path.skip(at + 1),
        None => path,
    }
}

/// Whether `word` completes the path `path`: it is the path of an entry,
/// in the directory where completions are looked for, whose name starts
/// with the name that `path` ends with.
pub open spec fn completes_path(shell: &Shell, fs: &MemFs, path: Seq<u8>, word: Seq<u8>) -> bool {
    let dir = search_directory(shell.current_dir@, path);
    directory_at(fs@, dir) is Ok && exists|name: Seq<u8>|
        fs@.contains_key(#[trigger] components(dir).push(name)) && has_prefix(
            name,
            written_name(path),
        ) && word == entry_path(written_directory(path), name)
}

impl Shell {
    /// The paths that complete `path`, in the order of the dictionary,
    /// as the completions of the shell.
    pub fn complete_paths(&mut self, path: &[u8], fs: &MemFs)
        requires
            fs.wf(),
        ensures
            sorted(final(self).tab_completions@),
            apart(final(self).tab_completions@),
            forall|word: Seq<u8>|
                #![trigger among(final(self).tab_completions@, word)]
                among(final(self).tab_completions@, word) <==> completes_path(
                    old(self),
                    fs,
                    path@,
                    word,
                ),
            final(self).tab_index == old(self).tab_index,
            final(self).current_dir == old(self).current_dir,
            final(self).command_history == old(self).command_history,
            final(self).history_position == old(self).history_position,
    {
        self.tab_completions.clear();
        let (dir, start) = self.split_path(path);
        let search = if dir.len() == 0 {
            let copy = copy_range(self.current_dir.as_slice(), 0, self.current_dir.len());
            assert(self.current_dir@.subrange(0, self.current_dir@.len() as int)
                =~= self.current_dir@);
            copy
        } else {
            self.resolve_path(dir.as_slice())
        };
        proof {
            lemma_last_slash_bounds(path@);
        }
        assert(search@ == search_directory(self.current_dir@, path@));
        assert(dir@ == written_directory(path@));
        assert(start@ == written_name(path@));
        let list = match fs.read_dir(search.as_slice()) {
            Ok(list) => list,
            Err(_) => {
                return ;
            },
        };
        let ghost p = components(search@);
        let mut k: usize = 0;
        while k < list.len()
            invariant
                k <= list@.len(),
                sorted(self.tab_completions@),
                apart(self.tab_completions@),
                forall|a: int, b: int|
                    0 <= a < list@.len() && 0 <= b < list@.len() && a != b ==> (
                    #[trigger] list@[a]).0@ != (#[trigger] list@[b]).0@,
                self.tab_index == old(self).tab_index,
                self.current_dir == old(self).current_dir,
                self.command_history == old(self).command_history,
                self.history_position == old(self).history_position,
                forall|word: Seq<u8>|
                    #![trigger among(self.tab_completions@, word)]
                    among(self.tab_completions@, word) <==> completes_below(
                        list@,
                        dir@,
                        start@,
                        word,
                        k as nat,
                    ),
            decreases list@.len() - k,
        {
            let name = &list[k].0;
            let ghost before = self.tab_completions@;
            if starts_with(name.as_slice(), start.as_slice()) {
                let mut full: Vec<u8> = Vec::new();
                if dir.len() > 0 {
                    push_all(&mut full, dir.as_slice());
                    full.push(SLASH);
                }
                push_all(&mut full, name.as_slice());
                assert(full@ =~= entry_path(dir@, name@));
                proof {
                    lemma_completes_below(list@, dir@, start@, full@, k as nat);
                    if among(before, full@) {
                        let j = choose|j: int|
                            0 <= j < k && has_prefix((#[trigger] list@[j]).0@, start@) && full@
                                == entry_path(dir@, list@[j].0@);
                        assert(list@[j].0@ != list@[k as int].0@);
                        lemma_entry_paths_apart(dir@, list@[j].0@, name@);
                    }
                }
                insert_sorted(&mut self.tab_completions, full);
                proof {
                    let at = choose|at: int|
                        0 <= at <= before.len() && self.tab_completions@ == before.insert(at, full);
                    assert forall|word: Seq<u8>|
                        #![trigger among(self.tab_completions@, word)]
                        among(self.tab_completions@, word) <==> completes_below(
                            list@,
                            dir@,
                            start@,
                            word,
                            (k + 1) as nat,
                        ) by {
                        lemma_among_insert(before, at, full, word);
                        assert(among(before, word) <==> completes_below(
                            list@,
                            dir@,
                            start@,
                            word,
                            k as nat,
                        ));
                    }
                }
            } else {
                proof {
                    assert forall|word: Seq<u8>|
                        #![trigger among(self.tab_completions@, word)]
                        among(self.tab_completions@, word) <==> completes_below(
                            list@,
                            dir@,
                            start@,
                            word,
                            (k + 1) as nat,
                        ) by {
                        assert(among(before, word) <==> completes_below(
                            list@,
                            dir@,
                            start@,
                            word,
                            k as nat,
                        ));
                    }
                }
            }
            k = k + 1;
        }
        proof {
            assert forall|word: Seq<u8>|
                #![trigger among(self.tab_completions@, word)]
                among(self.tab_completions@, word) <==> completes_path(
                    old(self),
                    fs,
                    path@,
                    word,
                ) by {
                lemma_completes_below(list@, dir@, start@, word, list@.len());
                if completes_path(old(self), fs, path@, word) {
                    let name = choose|name: Seq<u8>|
                        fs@.contains_key(#[trigger] p.push(name)) && has_prefix(name, start@)
                            && word == entry_path(dir@, name);
                    let j = choose|j: int| 0 <= j < list@.len() && (#[trigger] list@[j]).0@ == name;
                    assert(has_prefix(list@[j].0@, start@));
                }
                if completes_below(list@, dir@, start@, word, list@.len()) {
                    let j = choose|j: int|
                        0 <= j < list@.len() && has_prefix((#[trigger] list@[j]).0@, start@)
                            && word == entry_path(dir@, list@[j].0@);
                    assert(fs@.contains_key(p.push(list@[j].0@)));
                }
            }
        }
    }

    /// Makes the completions anew: the commands that start with `prefix`
    /// if `path_to_complete` is empty, else the paths that complete it.
    pub fn generate_completions(&mut self, prefix: &[u8], path_to_complete: &[u8], fs: &MemFs)
        requires
            fs.wf(),
        ensures
            sorted(final(self).tab_completions@),
            apart(final(self).tab_completions@),
            forall|word: Seq<u8>|
                #![trigger among(final(self).tab_completions@, word)]
                among(final(self).tab_completions@, word) <==> (if path_to_complete@.len() == 0 {
                    has_prefix(word, prefix@) && known_below(word, BUILTINS as nat)
                } else {
                    completes_path(old(self), fs, path_to_complete@, word)
                }),
            final(self).tab_index == old(self).tab_index,
            final(self).current_dir == old(self).current_dir,
            final(self).command_history == old(self).command_history,
            final(self).history_position == old(self).history_position,
    {
        if path_to_complete.len() == 0 {
            self.complete_commands(prefix);
        } else {
            self.complete_paths(path_to_complete, fs);
        }
    }

    /// The line `input` with its last word grown into the completion
    /// `completion`, when the line has more than one word; else the
    /// completion alone.
    pub open spec fn completed_line(input: Seq<u8>, completion: Seq<u8>) -> Seq<u8> {
        let parts = fields(input);
        if parts.len() > 1 {
            spaced(parts.drop_last().push(completion))
        } else {
            completion
        }
    }

    /// The tab key. With no completions at hand they are made: for a line
    /// of one word the commands that start with it, for a longer line the
    /// paths that complete its last word, for an empty line all commands;
    /// the first of them is offered. With completions at hand the next
    /// one is offered, and behind the last the first again. The answer is
    /// the line with the offered completion, if there is one.
    pub fn tab_complete(&mut self, input: &[u8], fs: &MemFs) -> (r: Option<Vec<u8>>)
        requires
            fs.wf(),
        ensures
            final(self).current_dir == old(self).current_dir,
            final(self).command_history == old(self).command_history,
            final(self).history_position == old(self).history_position,
            old(self).tab_completions@.len() > 0 ==>
                final(self).tab_completions == old(self).tab_completions
                && final(self).tab_index == (if old(self).tab_index
                < usize::MAX {
                (old(self).tab_index + 1) % (old(self).tab_completions@.len() as int)
            } else {
                0
            }),
            old(self).tab_completions@.len() == 0 ==> final(self).tab_index == 0 && sorted(
                final(self).tab_completions@,
            ) && apart(final(self).tab_completions@) && forall|word: Seq<u8>|
                #![trigger among(final(self).tab_completions@, word)]
                among(final(self).tab_completions@, word) <==> (if fields(input@).len() <= 1 {
                    has_prefix(
                        word,
                        if fields(input@).len() == 1 {
                            fields(input@)[0]
                        } else {
                            Seq::empty()
                        },
                    ) && known_below(word, BUILTINS as nat)
                } else if fields(input@).last().len() == 0 {
                    has_prefix(word, fields(input@).last()) && known_below(word, BUILTINS as nat)
                } else {
                    completes_path(old(self), fs, fields(input@).last(), word)
                }),
            r is Some <==> final(self).tab_index < final(self).tab_completions@.len(),
            r matches Some(line) ==> line@ == Self::completed_line(
                input@,
                final(self).tab_completions@[final(self).tab_index as int]@,
            ),
    {
        let parts = split_fields(input);
        let n = parts.len();
        if self.tab_completions.len() == 0 {
            let nothing: Vec<u8> = Vec::new();
            if n == 0 {
                self.generate_completions(nothing.as_slice(), nothing.as_slice(), fs);
            } else if n == 1 {
                self.generate_completions(parts[0].as_slice(), nothing.as_slice(), fs);
            } else {
                self.generate_completions(parts[n - 1].as_slice(), parts[n - 1].as_slice(), fs);
            }
            self.tab_index = 0;
        } else {
            self.tab_index = if self.tab_index < usize::MAX {
                (self.tab_index + 1) % self.tab_completions.len()
            } else {
                0
            };
        }
        if self.tab_index >= self.tab_completions.len() {
            return None;
        }
        let completion = &self.tab_completions[self.tab_index];
        let mut line: Vec<u8> = Vec::new();
        if n > 1 {
            let ghost words = texts(parts@).drop_last().push(completion@);
            let mut k: usize = 0;
            while k < n - 1
                invariant
                    n == parts@.len(),
                    n > 1,
                    k <= n - 1,
                    words == texts(parts@).drop_last().push(completion@),
                    k == 0 ==> line@.len() == 0,
                    k > 0 ==> line@ == spaced(words.take(k as int)),
                decreases n - 1 - k,
            {
                let ghost before = line@;
                if k > 0 {
                    line.push(0x20);
                }
                push_all(&mut line, parts[k].as_slice());
                proof {
                    assert(words.take(k + 1).drop_last() =~= words.take(k as int));
                    assert(words.take(k + 1).last() == parts@[k as int]@);
                    if k == 0 {
                        assert(line@ =~= words.take(1)[0]);
                    }
                }
                k = k + 1;
            }
            line.push(0x20);
            push_all(&mut line, completion.as_slice());
            proof {
                assert(words.drop_last() =~= words.take(n - 1));
                assert(words.last() == completion@);
                assert(line@ =~= spaced(words));
            }
        } else {
            push_all(&mut line, completion.as_slice());
            assert(line@ =~= completion@);
        }
        Some(line)
    }
}

} // verus!
