//! Paths: their components, and the canonical form of a path.

use vstd::prelude::*;
use crate::net::wire::{copy_range, push_all};

verus! {

/// The byte that parts the components of a path.
pub const SLASH: u8 = 0x2F;

/// The byte of which the names `.` and `..` are made.
pub const PERIOD: u8 = 0x2E;

/// The place of the first slash in `s`, or its length if it holds none.
pub open spec fn first_slash(s: Seq<u8>) -> nat
    decreases s.len(),
{
    if s.len() == 0 {
        0
    } else if s[0] == SLASH {
        0
    } else {
        1 + first_slash(s.skip(1))
    }
}

/// The components of a path: the non-empty parts between its slashes.
pub open spec fn components(s: Seq<u8>) -> Seq<Seq<u8>>
    decreases s.len(),
{
    if s.len() == 0 {
        Seq::empty()
    } else if s[0] == SLASH {
        components(s.skip(1))
    } else {
        let n = first_slash(s);
        if 0 < n <= s.len() {
            seq![s.take(n as int)] + components(s.skip(n as int))
        } else {
            Seq::empty()
        }
    }
}

/// Whether `c` is the name `.`, which stands for the directory itself.
pub open spec fn is_dot(c: Seq<u8>) -> bool {
    c.len() == 1 && c[0] == PERIOD
}

/// Whether `c` is the name `..`, which stands for the parent directory.
pub open spec fn is_dot_dot(c: Seq<u8>) -> bool {
    c.len() == 2 && c[0] == PERIOD && c[1] == PERIOD
}

/// Where `names` lead from the directory `stack`: `.` stays, `..` goes up
/// one level and stays at the root, any other name goes down.
pub open spec fn walked(stack: Seq<Seq<u8>>, names: Seq<Seq<u8>>) -> Seq<Seq<u8>>
    decreases names.len(),
{
    if names.len() == 0 {
        stack
    } else if is_dot(names[0]) {
        walked(stack, names.skip(1))
    } else if is_dot_dot(names[0]) {
        walked(
            if stack.len() > 0 {
                stack.drop_last()
            } else {
                stack
            },
            names.skip(1),
        )
    } else {
        walked(stack.push(names[0]), names.skip(1))
    }
}

/// Whether `s` is an absolute path: it starts with a slash.
pub open spec fn is_absolute(s: Seq<u8>) -> bool {
    s.len() > 0 && s[0] == SLASH
}

/// The components of the canonical form of `path` seen from the directory
/// `cwd`: an absolute path is walked from the root, a relative one from `cwd`.
pub open spec fn canonical_components(cwd: Seq<u8>, path: Seq<u8>) -> Seq<Seq<u8>> {
    if is_absolute(path) {
        walked(Seq::empty(), components(path))
    } else {
        walked(walked(Seq::empty(), components(cwd)), components(path))
    }
}

/// The components, each behind a slash.
pub open spec fn joined(names: Seq<Seq<u8>>) -> Seq<u8>
    decreases names.len(),
{
    if names.len() == 0 {
        Seq::empty()
    } else {
        seq![SLASH] + names[0] + joined(names.skip(1))
    }
}

/// The path with the components `names`: a slash alone for the root.
pub open spec fn rendered(names: Seq<Seq<u8>>) -> Seq<u8> {
    if names.len() == 0 {
        seq![SLASH]
    } else {
        joined(names)
    }
}

/// The canonical form of `path` seen from `cwd`: absolute, without empty
/// components, `.` and `..`.
pub open spec fn canonical(cwd: Seq<u8>, path: Seq<u8>) -> Seq<u8> {
    rendered(canonical_components(cwd, path))
}

/// Whether `c` can be a component: it is not empty and holds no slash.
pub open spec fn is_name(c: Seq<u8>) -> bool {
    c.len() > 0 && forall|i: int| 0 <= i < c.len() ==> c[i] != SLASH
}

/// Whether every one of `names` is a name other than `.` and `..`.
pub open spec fn plain(names: Seq<Seq<u8>>) -> bool {
    forall|i: int|
        0 <= i < names.len() ==> is_name(#[trigger] names[i]) && !is_dot(names[i]) && !is_dot_dot(
            names[i],
        )
}

/// Where no slash stands before place `m`, and a slash or the end at `m`,
/// the first slash is at `m`.
pub proof fn lemma_first_slash(s: Seq<u8>, m: nat)
    requires
        m <= s.len(),
        forall|j: int| 0 <= j < m ==> s[j] != SLASH,
        m == s.len() || s[m as int] == SLASH,
    ensures
        first_slash(s) == m,
    decreases m,
{
    if m > 0 {
        lemma_first_slash(s.skip(1), (m - 1) as nat);
    }
}

/// The first slash lies within the path, behind bytes that are no slash.
pub proof fn lemma_first_slash_bounds(s: Seq<u8>)
    ensures
        first_slash(s) <= s.len(),
        forall|j: int| 0 <= j < first_slash(s) ==> s[j] != SLASH,
        first_slash(s) < s.len() ==> s[first_slash(s) as int] == SLASH,
    decreases s.len(),
{
    if s.len() > 0 && s[0] != SLASH {
        lemma_first_slash_bounds(s.skip(1));
        assert forall|j: int| 0 <= j < first_slash(s) implies s[j] != SLASH by {
            if j > 0 {
                assert(s.skip(1)[j - 1] == s[j]);
            }
        }
    }
}

/// The components of a path are names.
pub proof fn lemma_components_are_names(s: Seq<u8>)
    ensures
        forall|i: int| 0 <= i < components(s).len() ==> is_name(#[trigger] components(s)[i]),
    decreases s.len(),
{
    if s.len() == 0 {
        assert(components(s).len() == 0);
    } else {
        if s[0] == SLASH {
            lemma_components_are_names(s.skip(1));
            assert(components(s) == components(s.skip(1)));
        } else {
            let n = first_slash(s);
            lemma_first_slash_bounds(s);
            assert(0 < n <= s.len());
            let head = s.take(n as int);
            let rest = components(s.skip(n as int));
            lemma_components_are_names(s.skip(n as int));
            assert(is_name(head)) by {
                assert forall|i: int| 0 <= i < head.len() implies head[i] != SLASH by {
                    assert(head[i] == s[i]);
                }
            }
            assert(components(s) == seq![head] + rest);
            assert forall|i: int| 0 <= i < components(s).len() implies is_name(
                #[trigger] components(s)[i],
            ) by {
                if i > 0 {
                    assert(components(s)[i] == rest[i - 1]);
                }
            }
        }
    }
}

/// A walk along names ends at a directory whose components are plain, if
/// it started at one.
pub proof fn lemma_walked_plain(stack: Seq<Seq<u8>>, names: Seq<Seq<u8>>)
    requires
        plain(stack),
        forall|i: int| 0 <= i < names.len() ==> is_name(#[trigger] names[i]),
    ensures
        plain(walked(stack, names)),
    decreases names.len(),
{
    if names.len() > 0 {
        let rest = names.skip(1);
        assert forall|i: int| 0 <= i < rest.len() implies is_name(#[trigger] rest[i]) by {
            assert(rest[i] == names[i + 1]);
        }
        if is_dot(names[0]) {
            lemma_walked_plain(stack, rest);
        } else if is_dot_dot(names[0]) {
            if stack.len() > 0 {
                let up = stack.drop_last();
                assert forall|i: int| 0 <= i < up.len() implies is_name(#[trigger] up[i])
                    && !is_dot(up[i]) && !is_dot_dot(up[i]) by {
                    assert(up[i] == stack[i]);
                }
                lemma_walked_plain(up, rest);
            } else {
                lemma_walked_plain(stack, rest);
            }
        } else {
            let down = stack.push(names[0]);
            assert forall|i: int| 0 <= i < down.len() implies is_name(#[trigger] down[i])
                && !is_dot(down[i]) && !is_dot_dot(down[i]) by {
                if i < stack.len() {
                    assert(down[i] == stack[i]);
                }
            }
            lemma_walked_plain(down, rest);
        }
    }
}

/// A walk along plain names goes down at every step.
pub proof fn lemma_walked_down(stack: Seq<Seq<u8>>, names: Seq<Seq<u8>>)
    requires
        plain(names),
    ensures
        walked(stack, names) == stack + names,
    decreases names.len(),
{
    if names.len() == 0 {
        assert(stack + names =~= stack);
    } else {
        let rest = names.skip(1);
        assert forall|i: int| 0 <= i < rest.len() implies is_name(#[trigger] rest[i]) && !is_dot(
            rest[i],
        ) && !is_dot_dot(rest[i]) by {
            assert(rest[i] == names[i + 1]);
        }
        lemma_walked_down(stack.push(names[0]), rest);
        assert(stack.push(names[0]) + rest =~= stack + names);
    }
}

/// The components of joined names are the names.
pub proof fn lemma_components_of_joined(names: Seq<Seq<u8>>)
    requires
        forall|i: int| 0 <= i < names.len() ==> is_name(#[trigger] names[i]),
    ensures
        components(joined(names)) == names,
        joined(names).len() == 0 || joined(names)[0] == SLASH,
    decreases names.len(),
{
    if names.len() > 0 {
        let rest = names.skip(1);
        assert forall|i: int| 0 <= i < rest.len() implies is_name(#[trigger] rest[i]) by {
            assert(rest[i] == names[i + 1]);
        }
        lemma_components_of_joined(rest);
        let c = names[0];
        let j = joined(names);
        let tail = c + joined(rest);
        assert(is_name(c));
        assert(j.skip(1) =~= tail);
        assert(tail[0] == c[0]);
        lemma_first_slash(tail, c.len());
        assert(tail.take(c.len() as int) =~= c);
        assert(tail.skip(c.len() as int) =~= joined(rest));
        assert(components(j) == components(tail));
        assert(components(tail) =~= seq![c] + rest);
        assert(seq![c] + rest =~= names);
    }
}

/// The canonical form of an absolute path is its own canonical form: to
/// make a path canonical twice is to make it canonical once.
pub proof fn lemma_canonical_idempotent(cwd: Seq<u8>, path: Seq<u8>)
    requires
        is_absolute(path),
    ensures
        is_absolute(canonical(cwd, path)),
        canonical(cwd, canonical(cwd, path)) == canonical(cwd, path),
{
    let names = canonical_components(cwd, path);
    lemma_components_are_names(path);
    assert(plain(Seq::<Seq<u8>>::empty()));
    lemma_walked_plain(Seq::empty(), components(path));
    lemma_components_of_joined(names);
    let once = canonical(cwd, path);
    if names.len() == 0 {
        assert(once.skip(1) =~= Seq::<u8>::empty());
        assert(components(once) =~= Seq::<Seq<u8>>::empty());
    } else {
        assert(components(once) == names);
    }
    lemma_walked_down(Seq::empty(), names);
    assert(Seq::<Seq<u8>>::empty() + names =~= names);
}

/// The canonical form of any path is an absolute path that is its own
/// canonical form.
pub proof fn lemma_canonical_is_fixed(cwd: Seq<u8>, other: Seq<u8>, path: Seq<u8>)
    ensures
        is_absolute(canonical(cwd, path)),
        canonical(other, canonical(cwd, path)) == canonical(cwd, path),
{
    let names = canonical_components(cwd, path);
    lemma_components_are_names(path);
    lemma_components_are_names(cwd);
    assert(plain(Seq::<Seq<u8>>::empty()));
    lemma_walked_plain(Seq::empty(), components(cwd));
    lemma_walked_plain(walked(Seq::empty(), components(cwd)), components(path));
    lemma_walked_plain(Seq::empty(), components(path));
    lemma_components_of_joined(names);
    let once = canonical(cwd, path);
    if names.len() == 0 {
        assert(once.skip(1) =~= Seq::<u8>::empty());
        assert(components(once) =~= Seq::<Seq<u8>>::empty());
    } else {
        assert(components(once) == names);
    }
    lemma_walked_down(Seq::empty(), names);
    assert(Seq::<Seq<u8>>::empty() + names =~= names);
}

/// The names of `v`, each as its bytes.
pub open spec fn names_of(v: Seq<Vec<u8>>) -> Seq<Seq<u8>> {
    Seq::new(v.len(), |i: int| v[i]@)
}

/// The components of `path`.
pub fn split(path: &[u8]) -> (r: Vec<Vec<u8>>)
    ensures
        names_of(r@) == components(path@),
{
    let mut out: Vec<Vec<u8>> = Vec::new();
    let n = path.len();
    let mut i: usize = 0;
    assert(path@.skip(0) =~= path@);
    assert(names_of(out@) =~= Seq::<Seq<u8>>::empty());
    while i < n
        invariant
            n == path@.len(),
            i <= n,
            components(path@) == names_of(out@) + components(path@.skip(i as int)),
        decreases n - i,
    {
        let ghost rest = path@.skip(i as int);
        if path[i] == SLASH {
            assert(rest.skip(1) =~= path@.skip(i + 1));
            i = i + 1;
        } else {
            let mut j: usize = i;
            while j < n && path[j] != SLASH
                invariant
                    n == path@.len(),
                    i <= j <= n,
                    forall|k: int| i <= k < j ==> path@[k] != SLASH,
                decreases n - j,
            {
                j = j + 1;
            }
            proof {
                lemma_first_slash(rest, (j - i) as nat);
                assert(rest.take(j - i) =~= path@.subrange(i as int, j as int));
                assert(rest.skip(j - i) =~= path@.skip(j as int));
            }
            let ghost before = names_of(out@);
            out.push(copy_range(path, i, j));
            assert(names_of(out@) =~= before + seq![path@.subrange(i as int, j as int)]);
            i = j;
        }
    }
    assert(names_of(out@) + Seq::<Seq<u8>>::empty() =~= names_of(out@));
    out
}

/// Whether `name` is `.`.
pub fn names_self(name: &Vec<u8>) -> (r: bool)
    ensures
        r == is_dot(name@),
{
    name.len() == 1 && name[0] == PERIOD
}

/// Whether `name` is `..`.
pub fn names_parent(name: &Vec<u8>) -> (r: bool)
    ensures
        r == is_dot_dot(name@),
{
    name.len() == 2 && name[0] == PERIOD && name[1] == PERIOD
}

/// Walks from the directory `stack` along `names`.
pub fn walk(stack: Vec<Vec<u8>>, names: Vec<Vec<u8>>) -> (r: Vec<Vec<u8>>)
    ensures
        names_of(r@) == walked(names_of(stack@), names_of(names@)),
{
    let mut at: Vec<Vec<u8>> = stack;
    let mut names = names;
    let ghost all = names_of(names@);
    let n = names.len();
    let mut i: usize = 0;
    assert(all.skip(0) =~= all);
    while i < n
        invariant
            n == names@.len(),
            i <= n,
            all.len() == n,
            forall|k: int| i <= k < n ==> names@[k]@ == all[k],
            walked(names_of(stack@), all) == walked(names_of(at@), all.skip(i as int)),
        decreases n - i,
    {
        let ghost before = names_of(at@);
        assert(all.skip(i as int)[0] == all[i as int]);
        assert(all.skip(i as int).skip(1) =~= all.skip(i + 1));
        if names_self(&names[i]) {
        } else if names_parent(&names[i]) {
            if at.len() > 0 {
                let _ = at.pop();
                assert(names_of(at@) =~= before.drop_last());
            }
        } else {
            let mut name: Vec<u8> = Vec::new();
            std::mem::swap(&mut name, &mut names[i]);
            at.push(name);
            assert(names_of(at@) =~= before.push(all[i as int]));
        }
        i = i + 1;
    }
    at
}

/// The path with the components `names`.
pub fn render(names: &Vec<Vec<u8>>) -> (r: Vec<u8>)
    ensures
        r@ == rendered(names_of(names@)),
{
    let mut out: Vec<u8> = Vec::new();
    if names.len() == 0 {
        out.push(SLASH);
        return out;
    }
    let ghost all = names_of(names@);
    assert(all.skip(0) =~= all);
    let mut parts: Vec<u8> = Vec::new();
    let mut k: usize = 0;
    while k < names.len()
        invariant
            k <= names@.len(),
            all == names_of(names@),
            joined(all) == parts@ + joined(all.skip(k as int)),
        decreases names@.len() - k,
    {
        assert(all.skip(k as int)[0] == all[k as int]);
        assert(all.skip(k as int).skip(1) =~= all.skip(k + 1));
        let ghost before = parts@;
        parts.push(SLASH);
        push_all(&mut parts, names[k].as_slice());
        assert(parts@ + joined(all.skip(k + 1)) =~= before + joined(all.skip(k as int)));
        k = k + 1;
    }
    assert(all.skip(all.len() as int) =~= Seq::<Seq<u8>>::empty());
    assert(parts@ + Seq::<u8>::empty() =~= parts@);
    parts
}

/// The canonical form of `path` seen from the directory `cwd`: an
/// absolute path without empty components, `.` and `..`. A relative path
/// starts at `cwd`; `..` at the root stays at the root.
pub fn canonicalize(cwd: &[u8], path: &[u8]) -> (r: Vec<u8>)
    ensures
        r@ == canonical(cwd@, path@),
{
    let root: Vec<Vec<u8>> = Vec::new();
    assert(names_of(root@) =~= Seq::<Seq<u8>>::empty());
    let start = if path.len() > 0 && path[0] == SLASH {
        root
    } else {
        walk(root, split(cwd))
    };
    let names = walk(start, split(path));
    render(&names)
}

} // verus!
