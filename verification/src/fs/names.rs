//! The order of names: that of the dictionary, byte by byte.

use vstd::prelude::*;

verus! {

/// Whether `a` comes before `b` in the order of the dictionary, or is `b`.
pub open spec fn lex_le(a: Seq<u8>, b: Seq<u8>) -> bool
    decreases a.len(),
{
    if a.len() == 0 {
        true
    } else if b.len() == 0 {
        false
    } else if a[0] != b[0] {
        a[0] < b[0]
    } else {
        lex_le(a.skip(1), b.skip(1))
    }
}

/// Of two words, one comes before the other or they are the same.
pub proof fn lemma_lex_total(a: Seq<u8>, b: Seq<u8>)
    ensures
        lex_le(a, b) || lex_le(b, a),
    decreases a.len(),
{
    if a.len() > 0 && b.len() > 0 && a[0] == b[0] {
        lemma_lex_total(a.skip(1), b.skip(1));
    }
}

/// Every word comes before itself or is itself.
pub proof fn lemma_lex_reflexive(a: Seq<u8>)
    ensures
        lex_le(a, a),
    decreases a.len(),
{
    if a.len() > 0 {
        lemma_lex_reflexive(a.skip(1));
    }
}

/// The order of the dictionary is transitive.
pub proof fn lemma_lex_transitive(a: Seq<u8>, b: Seq<u8>, c: Seq<u8>)
    requires
        lex_le(a, b),
        lex_le(b, c),
    ensures
        lex_le(a, c),
    decreases a.len(),
{
    if a.len() > 0 && b.len() > 0 && c.len() > 0 && a[0] == b[0] && b[0] == c[0] {
        lemma_lex_transitive(a.skip(1), b.skip(1), c.skip(1));
    }
}

/// Whether `a` comes before `b` in the order of the dictionary, or is `b`.
pub fn before_or_same(a: &[u8], b: &[u8]) -> (r: bool)
    ensures
        r == lex_le(a@, b@),
{
    let mut i: usize = 0;
    assert(a@.skip(0) =~= a@ && b@.skip(0) =~= b@);
    while i < a.len()
        invariant
            i <= a@.len(),
            i <= b@.len(),
            lex_le(a@, b@) == lex_le(a@.skip(i as int), b@.skip(i as int)),
        decreases a@.len() - i,
    {
        if i >= b.len() {
            return false;
        }
        if a[i] != b[i] {
            return a[i] < b[i];
        }
        assert(a@.skip(i as int).skip(1) =~= a@.skip(i + 1));
        assert(b@.skip(i as int).skip(1) =~= b@.skip(i + 1));
        i = i + 1;
    }
    true
}

/// Two words that each come before the other or are the same are the same.
pub proof fn lemma_lex_antisymmetric(a: Seq<u8>, b: Seq<u8>)
    requires
        lex_le(a, b),
        lex_le(b, a),
    ensures
        a == b,
    decreases a.len(),
{
    if a.len() > 0 && b.len() > 0 {
        lemma_lex_antisymmetric(a.skip(1), b.skip(1));
        assert(a =~= seq![a[0]] + a.skip(1));
        assert(b =~= seq![b[0]] + b.skip(1));
    } else {
        assert(a =~= b);
    }
}

/// Whether the words of `x` stand in the order of the dictionary, none twice.
pub open spec fn ascending(x: Seq<Seq<u8>>) -> bool {
    forall|i: int, j: int|
        0 <= i < j < x.len() ==> lex_le(#[trigger] x[i], #[trigger] x[j]) && x[i] != x[j]
}

/// The order of the dictionary leaves no choice: two ascending lists of
/// the same words are the same list.
pub proof fn lemma_ascending_unique(x: Seq<Seq<u8>>, y: Seq<Seq<u8>>)
    requires
        ascending(x),
        ascending(y),
        forall|w: Seq<u8>| x.contains(w) <==> y.contains(w),
    ensures
        x == y,
    decreases x.len(),
{
    if x.len() == 0 {
        if y.len() > 0 {
            assert(y.contains(y[0]));
            assert(x.contains(y[0]));
        }
        assert(x =~= y);
    } else {
        assert(x.contains(x[0]));
        assert(y.contains(x[0]));
        let j = choose|j: int| 0 <= j < y.len() && y[j] == x[0];
        assert(y.contains(y[0]));
        assert(x.contains(y[0]));
        let i = choose|i: int| 0 <= i < x.len() && x[i] == y[0];
        lemma_lex_reflexive(x[0]);
        lemma_lex_reflexive(y[0]);
        assert(lex_le(x[0], x[i]));
        assert(lex_le(y[0], y[j]));
        lemma_lex_antisymmetric(x[0], y[0]);
        let xs = x.skip(1);
        let ys = y.skip(1);
        assert forall|w: Seq<u8>| xs.contains(w) <==> ys.contains(w) by {
            if xs.contains(w) {
                let k = choose|k: int| 0 <= k < xs.len() && xs[k] == w;
                assert(x[k + 1] == w);
                assert(x.contains(w));
                assert(x[0] != x[k + 1]);
                let l = choose|l: int| 0 <= l < y.len() && y[l] == w;
                assert(l > 0);
                assert(ys[l - 1] == w);
            }
            if ys.contains(w) {
                let k = choose|k: int| 0 <= k < ys.len() && ys[k] == w;
                assert(y[k + 1] == w);
                assert(y.contains(w));
                assert(y[0] != y[k + 1]);
                let l = choose|l: int| 0 <= l < x.len() && x[l] == w;
                assert(l > 0);
                assert(xs[l - 1] == w);
            }
        }
        assert forall|a: int, b: int| 0 <= a < b < xs.len() implies lex_le(
            #[trigger] xs[a],
            #[trigger] xs[b],
        ) && xs[a] != xs[b] by {
            assert(xs[a] == x[a + 1] && xs[b] == x[b + 1]);
        }
        assert forall|a: int, b: int| 0 <= a < b < ys.len() implies lex_le(
            #[trigger] ys[a],
            #[trigger] ys[b],
        ) && ys[a] != ys[b] by {
            assert(ys[a] == y[a + 1] && ys[b] == y[b + 1]);
        }
        lemma_ascending_unique(xs, ys);
        assert(x =~= seq![x[0]] + xs);
        assert(y =~= seq![y[0]] + ys);
    }
}

} // verus!
