//! Lexicographic order on sequences of numbers, by which addresses are
//! ordered.

use vstd::prelude::*;

verus! {

/// Whether `a` and `b` hold the same numbers at every index below `n`.
pub open spec fn same_up_to(a: Seq<int>, b: Seq<int>, n: int) -> bool {
    forall|j: int| 0 <= j < n ==> a[j] == b[j]
}

/// Whether `a` comes before `b` in lexicographic order: at the first index
/// where the two differ, `a` holds the smaller number.
pub open spec fn lex_less(a: Seq<int>, b: Seq<int>) -> bool
    recommends
        a.len() == b.len(),
{
    exists|i: int| 0 <= i < a.len() && #[trigger] a[i] < b[i] && same_up_to(a, b, i)
}

/// Of two sequences of one length, exactly one of three holds: the first
/// comes before the second, the two are equal, or the second comes before
/// the first.
pub proof fn lemma_lex_trichotomy(a: Seq<int>, b: Seq<int>)
    requires
        a.len() == b.len(),
    ensures
        lex_less(a, b) || a == b || lex_less(b, a),
        !(lex_less(a, b) && a == b),
        !(lex_less(b, a) && a == b),
        !(lex_less(a, b) && lex_less(b, a)),
{
    if lex_less(a, b) && lex_less(b, a) {
        let i = choose|i: int| 0 <= i < a.len() && #[trigger] a[i] < b[i] && same_up_to(a, b, i);
        let k = choose|k: int| 0 <= k < b.len() && #[trigger] b[k] < a[k] && same_up_to(b, a, k);
        if i < k {
            assert(b[i] == a[i]);
        } else if k < i {
            assert(a[k] == b[k]);
        }
    }
    if !lex_less(a, b) && !lex_less(b, a) {
        lemma_no_difference(a, b, a.len() as int);
        assert(a =~= b);
    }
}

/// Two sequences of which neither comes before the other agree everywhere.
proof fn lemma_no_difference(a: Seq<int>, b: Seq<int>, n: int)
    requires
        a.len() == b.len(),
        0 <= n <= a.len(),
        !lex_less(a, b),
        !lex_less(b, a),
    ensures
        same_up_to(a, b, n),
    decreases n,
{
    if n > 0 {
        lemma_no_difference(a, b, n - 1);
        let i = n - 1;
        assert(same_up_to(b, a, i));
        if a[i] < b[i] {
            assert(0 <= i < a.len() && a[i] < b[i] && same_up_to(a, b, i));
        }
        if b[i] < a[i] {
            assert(0 <= i < b.len() && b[i] < a[i] && same_up_to(b, a, i));
        }
    }
}

/// The lexicographic order is transitive.
pub proof fn lemma_lex_transitive(a: Seq<int>, b: Seq<int>, c: Seq<int>)
    requires
        a.len() == b.len(),
        b.len() == c.len(),
        lex_less(a, b),
        lex_less(b, c),
    ensures
        lex_less(a, c),
{
    let i = choose|i: int| 0 <= i < a.len() && #[trigger] a[i] < b[i] && same_up_to(a, b, i);
    let k = choose|k: int| 0 <= k < b.len() && #[trigger] b[k] < c[k] && same_up_to(b, c, k);
    let m = if i <= k {
        i
    } else {
        k
    };
    assert(same_up_to(a, c, m));
    assert(0 <= m < a.len() && a[m] < c[m] && same_up_to(a, c, m));
}

} // verus!
