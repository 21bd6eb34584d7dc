//! Lists of identifiers used as ordered sets, and the facts about them that
//! the state machines rely on.

use vstd::prelude::*;

verus! {

/// Adds an identifier to a list unless it is already there.
pub open spec fn seq_insert_unique(s: Seq<u128>, x: u128) -> Seq<u128> {
    if s.contains(x) { s } else { s.push(x) }
}

/// The list with every occurrence of an identifier taken out.
pub open spec fn seq_without(s: Seq<u128>, x: u128) -> Seq<u128>
    decreases s.len(),
{
    if s.len() == 0 {
        s
    } else if s.last() == x {
        seq_without(s.drop_last(), x)
    } else {
        seq_without(s.drop_last(), x).push(s.last())
    }
}

/// Adds an identifier to a list unless it is already there.
pub fn vec_insert_unique(v: &mut Vec<u128>, x: u128)
    ensures
        final(v)@ == seq_insert_unique(old(v)@, x),
{
    let mut i: usize = 0;
    while i < v.len()
        invariant
            v@ == old(v)@,
            i <= v@.len(),
            forall|j: int| 0 <= j < i ==> v@[j] != x,
        decreases v@.len() - i,
    {
        if v[i] == x {
            assert(v@.contains(x));
            return;
        }
        i = i + 1;
    }
    v.push(x);
}

/// The list with every occurrence of an identifier taken out.
pub fn vec_without(v: &Vec<u128>, x: u128) -> (r: Vec<u128>)
    ensures
        r@ == seq_without(v@, x),
{
    let mut r: Vec<u128> = Vec::new();
    let mut i: usize = 0;
    while i < v.len()
        invariant
            i <= v@.len(),
            r@ == seq_without(v@.subrange(0, i as int), x),
        decreases v@.len() - i,
    {
        assert(v@.subrange(0, i + 1).drop_last() =~= v@.subrange(0, i as int));
        if v[i] != x {
            r.push(v[i]);
        }
        i = i + 1;
    }
    assert(v@.subrange(0, v@.len() as int) =~= v@);
    r
}

/// Membership in a sequence with one more element.
pub proof fn lemma_push_contains(s: Seq<u128>, x: u128, k: u128)
    ensures
        s.push(x).contains(k) <==> (s.contains(k) || k == x),
{
    if s.push(x).contains(k) {
        let w = choose|w: int| 0 <= w < s.push(x).len() && #[trigger] s.push(x)[w] == k;
        if w < s.len() {
            assert(s[w] == k);
        }
    }
    if s.contains(k) {
        let w = choose|w: int| 0 <= w < s.len() && #[trigger] s[w] == k;
        assert(s.push(x)[w] == k);
    }
    if k == x {
        assert(s.push(x)[s.len() as int] == k);
    }
}


/// A copy of a list of identifiers.
pub fn vec_clone_u128(v: &Vec<u128>) -> (r: Vec<u128>)
    ensures
        r@ == v@,
{
    let mut r: Vec<u128> = Vec::new();
    let mut i: usize = 0;
    while i < v.len()
        invariant
            i <= v@.len(),
            r@ == v@.subrange(0, i as int),
        decreases v@.len() - i,
    {
        r.push(v[i]);
        i = i + 1;
        assert(r@ =~= v@.subrange(0, i as int));
    }
    assert(v@.subrange(0, v@.len() as int) =~= v@);
    r
}


/// `i` is the first position of `x` in `s`.
pub open spec fn is_first_index(s: Seq<u128>, x: u128, i: int) -> bool {
    &&& 0 <= i < s.len()
    &&& s[i] == x
    &&& forall|j: int| 0 <= j < i ==> #[trigger] s[j] != x
}

/// The first position of `x` in `s` (meaningful when `s` contains `x`).
pub open spec fn first_index(s: Seq<u128>, x: u128) -> int {
    choose|i: int| is_first_index(s, x, i)
}

/// There is only one first position.
pub proof fn lemma_first_index_unique(s: Seq<u128>, x: u128, i: int)
    requires
        is_first_index(s, x, i),
    ensures
        first_index(s, x) == i,
{
    let k = first_index(s, x);
    assert(is_first_index(s, x, k));
    if k < i {
        assert(s[k] != x);
    } else if k > i {
        assert(s[i] != x);
    }
}

/// A list that contains `x` has a first position for it.
pub proof fn lemma_first_index_exists(s: Seq<u128>, x: u128)
    requires
        s.contains(x),
    ensures
        is_first_index(s, x, first_index(s, x)),
    decreases s.len(),
{
    if s[0] == x {
        assert(is_first_index(s, x, 0));
    } else {
        let t = s.drop_first();
        let w = choose|w: int| 0 <= w < s.len() && s[w] == x;
        assert(t[w - 1] == x);
        lemma_first_index_exists(t, x);
        let k = first_index(t, x);
        assert forall|j: int| 0 <= j < k + 1 implies #[trigger] s[j] != x by {
            if j > 0 {
                assert(s[j] == t[j - 1]);
            }
        }
        assert(is_first_index(s, x, k + 1));
    }
}

/// The first position of an identifier in a list.
pub fn vec_position(v: &Vec<u128>, x: u128) -> (r: Option<usize>)
    ensures
        match r {
            Some(i) => is_first_index(v@, x, i as int) && first_index(v@, x) == i,
            None => !v@.contains(x),
        },
{
    let mut i: usize = 0;
    while i < v.len()
        invariant
            i <= v@.len(),
            forall|j: int| 0 <= j < i ==> #[trigger] v@[j] != x,
        decreases v@.len() - i,
    {
        if v[i] == x {
            proof {
                lemma_first_index_unique(v@, x, i as int);
            }
            return Some(i);
        }
        i = i + 1;
    }
    None
}

/// The list with later repeats taken out (each identifier kept at its first position).
pub open spec fn seq_dedup(s: Seq<u128>) -> Seq<u128>
    decreases s.len(),
{
    if s.len() == 0 {
        s
    } else {
        seq_insert_unique(seq_dedup(s.drop_last()), s.last())
    }
}

/// The list with later repeats taken out.
pub fn vec_dedup(v: &Vec<u128>) -> (r: Vec<u128>)
    ensures
        r@ == seq_dedup(v@),
{
    let mut r: Vec<u128> = Vec::new();
    let mut i: usize = 0;
    while i < v.len()
        invariant
            i <= v@.len(),
            r@ == seq_dedup(v@.subrange(0, i as int)),
        decreases v@.len() - i,
    {
        assert(v@.subrange(0, i + 1).drop_last() =~= v@.subrange(0, i as int));
        vec_insert_unique(&mut r, v[i]);
        i = i + 1;
    }
    assert(v@.subrange(0, v@.len() as int) =~= v@);
    r
}

/// The list with an identifier inserted at a position.
pub fn vec_insert_at(v: &mut Vec<u128>, i: usize, x: u128)
    requires
        i <= old(v)@.len(),
    ensures
        final(v)@ == old(v)@.insert(i as int, x),
{
    v.insert(i, x);
}


/// What is left after taking out an identifier: everything else the list held.
pub proof fn lemma_without_contains(s: Seq<u128>, x: u128, y: u128)
    ensures
        seq_without(s, x).contains(y) <==> (s.contains(y) && y != x),
    decreases s.len(),
{
    if s.len() > 0 {
        let pre = s.drop_last();
        lemma_without_contains(pre, x, y);
        lemma_push_contains(pre, s.last(), y);
        assert(pre.push(s.last()) =~= s);
        if s.last() != x {
            lemma_push_contains(seq_without(pre, x), s.last(), y);
        }
    }
}

/// Taking out an identifier keeps a list free of repeats.
pub proof fn lemma_without_no_dup(s: Seq<u128>, x: u128)
    requires
        s.no_duplicates(),
    ensures
        seq_without(s, x).no_duplicates(),
    decreases s.len(),
{
    if s.len() > 0 {
        let pre = s.drop_last();
        assert(pre.no_duplicates()) by {
            assert forall|i: int, j: int| 0 <= i < pre.len() && 0 <= j < pre.len() && i != j implies pre[i] != pre[j] by {
                assert(pre[i] == s[i] && pre[j] == s[j]);
            }
        }
        lemma_without_no_dup(pre, x);
        if s.last() != x {
            let w = seq_without(pre, x);
            lemma_without_contains(pre, x, s.last());
            assert(!pre.contains(s.last())) by {
                if pre.contains(s.last()) {
                    let i = choose|i: int| 0 <= i < pre.len() && pre[i] == s.last();
                    assert(s[i] == s[s.len() - 1]);
                }
            }
            let r = w.push(s.last());
            assert forall|i: int, j: int| 0 <= i < r.len() && 0 <= j < r.len() && i != j implies r[i] != r[j] by {
                if i == w.len() as int {
                    assert(r[j] == w[j]);
                    assert(w.contains(w[j]));
                } else if j == w.len() as int {
                    assert(r[i] == w[i]);
                    assert(w.contains(w[i]));
                } else {
                    assert(r[i] == w[i] && r[j] == w[j]);
                }
            }
        }
    }
}
/// Taking out an identifier that a list does not hold leaves the list as it is.
pub proof fn lemma_without_absent(s: Seq<u128>, x: u128)
    requires
        !s.contains(x),
    ensures
        seq_without(s, x) == s,
    decreases s.len(),
{
    if s.len() > 0 {
        let pre = s.drop_last();
        assert(!pre.contains(x)) by {
            if pre.contains(x) {
                let i = choose|i: int| 0 <= i < pre.len() && pre[i] == x;
                assert(s[i] == x);
            }
        }
        lemma_without_absent(pre, x);
        assert(s[s.len() - 1] != x);
        assert(pre.push(s.last()) =~= s);
    }
}

/// Taking an identifier out of a list it was inserted into gives what taking it out of the
/// list before the insertion gives.
pub proof fn lemma_without_insert(s: Seq<u128>, i: int, x: u128)
    requires
        0 <= i <= s.len(),
    ensures
        seq_without(s.insert(i, x), x) == seq_without(s, x),
    decreases s.len(),
{
    let r = s.insert(i, x);
    if i == s.len() {
        assert(r.drop_last() =~= s);
        assert(r.last() == x);
    } else {
        let pre = s.drop_last();
        lemma_without_insert(pre, i, x);
        assert(r.drop_last() =~= pre.insert(i, x));
        assert(r.last() == s.last());
    }
}

/// Taking an identifier out of a list with one appended.
pub proof fn lemma_without_push(s: Seq<u128>, y: u128, x: u128)
    ensures
        seq_without(s.push(y), x) == if y == x { seq_without(s, x) } else { seq_without(s, x).push(y) },
{
    assert(s.push(y).drop_last() =~= s);
}

} // verus!
