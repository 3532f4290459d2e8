//! Lexicographic order on sequences of code units and on sequences of such
//! sequences, with its laws.

use vstd::prelude::*;

verus! {

/// Strict lexicographic order on sequences of `u32`: a proper prefix comes first.
pub open spec fn lex_lt(a: Seq<u32>, b: Seq<u32>) -> bool
    decreases a.len(),
{
    if a.len() == 0 {
        b.len() > 0
    } else if b.len() == 0 {
        false
    } else if a[0] != b[0] {
        a[0] < b[0]
    } else {
        lex_lt(a.drop_first(), b.drop_first())
    }
}

/// Strict lexicographic order on sequences of sequences, the elements being
/// ordered by `lex_lt`.
pub open spec fn key_lt(a: Seq<Seq<u32>>, b: Seq<Seq<u32>>) -> bool
    decreases a.len(),
{
    if a.len() == 0 {
        b.len() > 0
    } else if b.len() == 0 {
        false
    } else if a[0] != b[0] {
        lex_lt(a[0], b[0])
    } else {
        key_lt(a.drop_first(), b.drop_first())
    }
}

/// `lex_lt` is a strict total order: exactly one of `a < b`, `a == b`, `b < a`.
pub proof fn lemma_lex_trichotomy(a: Seq<u32>, b: Seq<u32>)
    ensures
        lex_lt(a, b) || a == b || lex_lt(b, a),
        !(lex_lt(a, b) && lex_lt(b, a)),
        !lex_lt(a, a),
    decreases a.len(),
{
    if a.len() > 0 && b.len() > 0 && a[0] == b[0] {
        lemma_lex_trichotomy(a.drop_first(), b.drop_first());
        if a.drop_first() == b.drop_first() {
            assert(a =~= seq![a[0]] + a.drop_first());
            assert(b =~= seq![b[0]] + b.drop_first());
        }
    }
    if a.len() > 0 {
        lemma_lex_trichotomy(a.drop_first(), a.drop_first());
    }
    if a.len() == 0 && b.len() == 0 {
        assert(a =~= b);
    }
}

/// `lex_lt` is transitive.
pub proof fn lemma_lex_transitive(a: Seq<u32>, b: Seq<u32>, c: Seq<u32>)
    requires
        lex_lt(a, b),
        lex_lt(b, c),
    ensures
        lex_lt(a, c),
    decreases a.len(),
{
    if a.len() > 0 && a[0] == b[0] && b[0] == c[0] {
        lemma_lex_transitive(a.drop_first(), b.drop_first(), c.drop_first());
    }
}

/// `key_lt` is a strict total order.
pub proof fn lemma_key_trichotomy(a: Seq<Seq<u32>>, b: Seq<Seq<u32>>)
    ensures
        key_lt(a, b) || a == b || key_lt(b, a),
        !(key_lt(a, b) && key_lt(b, a)),
        !key_lt(a, a),
    decreases a.len(),
{
    if a.len() > 0 && b.len() > 0 {
        lemma_lex_trichotomy(a[0], b[0]);
        if a[0] == b[0] {
            lemma_key_trichotomy(a.drop_first(), b.drop_first());
            if a.drop_first() == b.drop_first() {
                assert(a =~= seq![a[0]] + a.drop_first());
                assert(b =~= seq![b[0]] + b.drop_first());
            }
        }
    }
    if a.len() > 0 {
        lemma_key_trichotomy(a.drop_first(), a.drop_first());
    }
    if a.len() == 0 && b.len() == 0 {
        assert(a =~= b);
    }
}

/// `key_lt` is transitive.
pub proof fn lemma_key_transitive(a: Seq<Seq<u32>>, b: Seq<Seq<u32>>, c: Seq<Seq<u32>>)
    requires
        key_lt(a, b),
        key_lt(b, c),
    ensures
        key_lt(a, c),
    decreases a.len(),
{
    if a.len() > 0 && b.len() > 0 && c.len() > 0 {
        if a[0] == b[0] && b[0] == c[0] {
            lemma_key_transitive(a.drop_first(), b.drop_first(), c.drop_first());
        } else if a[0] == b[0] {
        } else if b[0] == c[0] {
        } else {
            lemma_lex_transitive(a[0], b[0], c[0]);
            lemma_lex_trichotomy(a[0], c[0]);
            if a[0] == c[0] {
                lemma_lex_trichotomy(a[0], b[0]);
            }
        }
    }
}

/// Exact comparison of two `u32` sequences: `Less`, equal, or greater as -1, 0, 1.
pub fn lex_compare(a: &[u32], b: &[u32]) -> (r: i8)
    ensures
        r == -1 <==> lex_lt(a@, b@),
        r == 0 <==> a@ == b@,
        r == 1 <==> lex_lt(b@, a@),
        -1 <= r <= 1,
{
    proof {
        lemma_lex_trichotomy(a@, b@);
        assert(a@.skip(0) =~= a@);
        assert(b@.skip(0) =~= b@);
    }
    let mut i: usize = 0;
    while i < a.len() && i < b.len()
        invariant
            i <= a.len(),
            i <= b.len(),
            a@.take(i as int) == b@.take(i as int),
            lex_lt(a@, b@) == lex_lt(a@.skip(i as int), b@.skip(i as int)),
            lex_lt(b@, a@) == lex_lt(b@.skip(i as int), a@.skip(i as int)),
        decreases a.len() - i,
    {
        assert(a@.skip(i as int).drop_first() =~= a@.skip(i + 1));
        assert(b@.skip(i as int).drop_first() =~= b@.skip(i + 1));
        if a[i] < b[i] {
            return -1;
        }
        if a[i] > b[i] {
            return 1;
        }
        assert(a@.take(i + 1) =~= a@.take(i as int).push(a@[i as int]));
        assert(b@.take(i + 1) =~= b@.take(i as int).push(b@[i as int]));
        i = i + 1;
    }
    if a.len() == b.len() {
        assert(a@ =~= a@.take(i as int));
        assert(b@ =~= b@.take(i as int));
        0
    } else if a.len() < b.len() {
        assert(a@ =~= a@.take(i as int));
        assert(a@ != b@);
        -1
    } else {
        assert(b@ =~= b@.take(i as int));
        assert(a@ != b@);
        1
    }
}

/// Exact comparison of two sequences of `u32` sequences, as -1, 0, 1.
pub fn key_compare(a: &Vec<Vec<u32>>, b: &Vec<Vec<u32>>) -> (r: i8)
    ensures
        r == -1 <==> key_lt(a.deep_view(), b.deep_view()),
        r == 0 <==> a.deep_view() == b.deep_view(),
        r == 1 <==> key_lt(b.deep_view(), a.deep_view()),
        -1 <= r <= 1,
{
    let ghost da = a.deep_view();
    let ghost db = b.deep_view();
    proof {
        lemma_key_trichotomy(da, db);
        assert(da.skip(0) =~= da);
        assert(db.skip(0) =~= db);
    }
    let mut i: usize = 0;
    while i < a.len() && i < b.len()
        invariant
            i <= a.len(),
            i <= b.len(),
            da == a.deep_view(),
            db == b.deep_view(),
            da.len() == a.len(),
            db.len() == b.len(),
            da.take(i as int) == db.take(i as int),
            key_lt(da, db) == key_lt(da.skip(i as int), db.skip(i as int)),
            key_lt(db, da) == key_lt(db.skip(i as int), da.skip(i as int)),
        decreases a.len() - i,
    {
        assert(da.skip(i as int).drop_first() =~= da.skip(i + 1));
        assert(db.skip(i as int).drop_first() =~= db.skip(i + 1));
        assert(da[i as int] == a[i as int]@);
        assert(db[i as int] == b[i as int]@);
        let c = lex_compare(a[i].as_slice(), b[i].as_slice());
        if c != 0 {
            return c;
        }
        assert(da.take(i + 1) =~= da.take(i as int).push(da[i as int]));
        assert(db.take(i + 1) =~= db.take(i as int).push(db[i as int]));
        i = i + 1;
    }
    if a.len() == b.len() {
        assert(da =~= da.take(i as int));
        assert(db =~= db.take(i as int));
        0
    } else if a.len() < b.len() {
        assert(da =~= da.take(i as int));
        assert(da != db);
        -1
    } else {
        assert(db =~= db.take(i as int));
        assert(da != db);
        1
    }
}

} // verus!
