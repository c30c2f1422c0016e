use vstd::prelude::*;
use crate::file_manager::{Entry, Sorting};

verus! {

/// Lexicographic "strictly less" on names, character by character.
pub open spec fn text_lt(a: Seq<char>, b: Seq<char>) -> bool
    decreases a.len(),
{
    if a.len() == 0 {
        b.len() > 0
    } else if b.len() == 0 {
        false
    } else if a[0] != b[0] {
        (a[0] as int) < (b[0] as int)
    } else {
        text_lt(a.drop_first(), b.drop_first())
    }
}

/// `a` must be placed strictly before `b` under `mode`.
pub open spec fn precedes_spec(mode: Sorting, a: Entry, b: Entry) -> bool {
    match mode {
        Sorting::Unsorted => false,
        Sorting::SortedBySizeDescending => a.size > b.size,
        Sorting::SortedBySizeAscending => a.size < b.size,
        Sorting::SortedByNameDescending => text_lt(b.name@, a.name@),
        Sorting::SortedByNameAscending => text_lt(a.name@, b.name@),
    }
}

/// Stable insertion of `x` into `t`: `x` goes after every element it does
/// not strictly precede.
pub open spec fn insert_sorted(mode: Sorting, t: Seq<Entry>, x: Entry) -> Seq<Entry>
    decreases t.len(),
{
    if t.len() == 0 {
        seq![x]
    } else if precedes_spec(mode, x, t.last()) {
        insert_sorted(mode, t.drop_last(), x).push(t.last())
    } else {
        t.push(x)
    }
}

/// The stable sort of `s` under `mode`.
pub open spec fn sorted_by(mode: Sorting, s: Seq<Entry>) -> Seq<Entry>
    decreases s.len(),
{
    if s.len() == 0 {
        s
    } else {
        insert_sorted(mode, sorted_by(mode, s.drop_last()), s.last())
    }
}

/// No element of `s` strictly precedes an element before it.
pub open spec fn is_sorted(mode: Sorting, s: Seq<Entry>) -> bool {
    forall|i: int, j: int| 0 <= i < j < s.len() ==> !precedes_spec(mode, #[trigger] s[j], #[trigger] s[i])
}

/// Entries that no order of `mode` tells apart.
pub open spec fn tied(mode: Sorting, a: Entry, b: Entry) -> bool {
    !precedes_spec(mode, a, b) && !precedes_spec(mode, b, a)
}

/// Lexicographic comparison of two names.
pub fn text_less(a: &Vec<char>, b: &Vec<char>) -> (r: bool)
    ensures
        r == text_lt(a@, b@),
{
    let mut i: usize = 0;
    assert(a@.skip(0) =~= a@);
    assert(b@.skip(0) =~= b@);
    while i < a.len() && i < b.len() && a[i] == b[i]
        invariant
            i <= a@.len(),
            i <= b@.len(),
            text_lt(a@, b@) == text_lt(a@.skip(i as int), b@.skip(i as int)),
        decreases a@.len() - i,
    {
        proof {
            let sa = a@.skip(i as int);
            let sb = b@.skip(i as int);
            assert(sa.drop_first() =~= a@.skip(i + 1));
            assert(sb.drop_first() =~= b@.skip(i + 1));
        }
        i = i + 1;
    }
    if i == a.len() {
        i < b.len()
    } else if i == b.len() {
        false
    } else {
        proof {
            assert(a@.skip(i as int)[0] == a@[i as int]);
            assert(b@.skip(i as int)[0] == b@[i as int]);
        }
        a[i] < b[i]
    }
}

/// Whether `a` must be placed strictly before `b` under `mode`.
pub fn precedes(mode: Sorting, a: &Entry, b: &Entry) -> (r: bool)
    ensures
        r == precedes_spec(mode, *a, *b),
{
    match mode {
        Sorting::Unsorted => false,
        Sorting::SortedBySizeDescending => a.size > b.size,
        Sorting::SortedBySizeAscending => a.size < b.size,
        Sorting::SortedByNameDescending => text_less(&b.name, &a.name),
        Sorting::SortedByNameAscending => text_less(&a.name, &b.name),
    }
}

proof fn lemma_insert_split(mode: Sorting, t: Seq<Entry>, x: Entry, j: int)
    requires
        0 <= j < t.len(),
        precedes_spec(mode, x, t[j]),
    ensures
        insert_sorted(mode, t.subrange(0, j + 1), x) == insert_sorted(mode, t.subrange(0, j), x).push(t[j]),
{
    let p = t.subrange(0, j + 1);
    assert(p.drop_last() =~= t.subrange(0, j));
}

/// Sorts `v` stably under `mode`.
pub fn sort_entries(mode: Sorting, v: &mut Vec<Entry>)
    ensures
        final(v)@ == sorted_by(mode, old(v)@),
{
    let ghost s = v@;
    let n = v.len();
    let mut i: usize = 0;
    while i < n
        invariant
            n == s.len(),
            v@.len() == n,
            i <= n,
            v@.subrange(0, i as int) == sorted_by(mode, s.subrange(0, i as int)),
            v@.subrange(i as int, n as int) == s.subrange(i as int, n as int),
        decreases n - i,
    {
        let ghost t = v@.subrange(0, i as int);
        assert(v@[i as int] == s[i as int]) by {
            assert(v@.subrange(i as int, n as int)[0] == s.subrange(i as int, n as int)[0]);
        }
        let x = v.remove(i);
        assert(v@.subrange(0, i as int) =~= t);
        assert(v@.subrange(i as int, n - 1) =~= s.subrange(i + 1, n as int)) by {
            assert(s.subrange(i + 1, n as int) =~= s.subrange(i as int, n as int).drop_first());
        }
        let mut j: usize = i;
        assert(t.subrange(0, i as int) =~= t);
        assert(insert_sorted(mode, t, x) =~= insert_sorted(mode, t, x) + t.subrange(i as int, i as int));
        while j > 0 && precedes(mode, &x, &v[j - 1])
            invariant
                0 <= j <= i,
                i < n,
                v@.len() == n - 1,
                v@.subrange(0, i as int) == t,
                insert_sorted(mode, t, x) == insert_sorted(mode, t.subrange(0, j as int), x) + t.subrange(j as int, i as int),
            decreases j,
        {
            proof {
                lemma_insert_split(mode, t, x, j - 1);
                assert(t.subrange(j - 1, i as int) =~= seq![t[j - 1]] + t.subrange(j as int, i as int));
                assert(insert_sorted(mode, t.subrange(0, j - 1), x).push(t[j - 1]) + t.subrange(j as int, i as int)
                    =~= insert_sorted(mode, t.subrange(0, j - 1), x) + t.subrange(j - 1, i as int));
            }
            j = j - 1;
        }
        proof {
            let p = t.subrange(0, j as int);
            if j > 0 {
                assert(p.drop_last() =~= t.subrange(0, j - 1));
                assert(p.last() == t[j - 1]);
            } else {
                assert(p =~= Seq::<Entry>::empty());
            }
            assert(insert_sorted(mode, p, x) == p.push(x));
        }
        let ghost before = v@;
        v.insert(j, x);
        proof {
            let q = s.subrange(0, i + 1);
            assert(q.drop_last() =~= s.subrange(0, i as int));
            assert(q.last() == x);
            assert(v@.subrange(0, i + 1) =~= t.subrange(0, j as int).push(x) + t.subrange(j as int, i as int));
            assert(v@.subrange(i + 1, n as int) =~= before.subrange(i as int, n - 1));
        }
        i = i + 1;
    }
    assert(v@.subrange(0, n as int) =~= v@);
    assert(s.subrange(0, n as int) =~= s);
}


/// The elements of `s` that satisfy `f`, in their order in `s`.
pub open spec fn keep(s: Seq<Entry>, f: spec_fn(Entry) -> bool) -> Seq<Entry>
    decreases s.len(),
{
    if s.len() == 0 {
        s
    } else if f(s.last()) {
        keep(s.drop_last(), f).push(s.last())
    } else {
        keep(s.drop_last(), f)
    }
}

proof fn lemma_text_asym(a: Seq<char>, b: Seq<char>)
    ensures
        !(text_lt(a, b) && text_lt(b, a)),
    decreases a.len(),
{
    if a.len() > 0 && b.len() > 0 && a[0] == b[0] {
        lemma_text_asym(a.drop_first(), b.drop_first());
    }
}

proof fn lemma_text_trans(a: Seq<char>, b: Seq<char>, c: Seq<char>)
    requires
        text_lt(a, b),
        text_lt(b, c),
    ensures
        text_lt(a, c),
    decreases a.len(),
{
    if a.len() > 0 && b.len() > 0 && c.len() > 0 && a[0] == b[0] && b[0] == c[0] {
        lemma_text_trans(a.drop_first(), b.drop_first(), c.drop_first());
    }
}

proof fn lemma_text_total(a: Seq<char>, b: Seq<char>)
    requires
        !text_lt(a, b),
        !text_lt(b, a),
    ensures
        a == b,
    decreases a.len(),
{
    if a.len() > 0 && b.len() > 0 {
        lemma_text_total(a.drop_first(), b.drop_first());
        assert(a =~= seq![a[0]] + a.drop_first());
        assert(b =~= seq![b[0]] + b.drop_first());
    } else {
        assert(a =~= b);
    }
}

proof fn lemma_text_neg_trans(a: Seq<char>, b: Seq<char>, c: Seq<char>)
    requires
        !text_lt(a, b),
        !text_lt(b, c),
    ensures
        !text_lt(a, c),
{
    if text_lt(a, c) {
        if text_lt(b, a) {
            lemma_text_trans(b, a, c);
        } else {
            lemma_text_total(a, b);
        }
    }
}

/// Strict precedence is asymmetric under every mode.
pub proof fn lemma_precedes_asym(mode: Sorting, a: Entry, b: Entry)
    ensures
        !(precedes_spec(mode, a, b) && precedes_spec(mode, b, a)),
{
    lemma_text_asym(a.name@, b.name@);
}

/// "Not strictly before" is transitive under every mode.
pub proof fn lemma_precedes_neg_trans(mode: Sorting, a: Entry, b: Entry, c: Entry)
    requires
        !precedes_spec(mode, a, b),
        !precedes_spec(mode, b, c),
    ensures
        !precedes_spec(mode, a, c),
{
    match mode {
        Sorting::SortedByNameDescending => lemma_text_neg_trans(c.name@, b.name@, a.name@),
        Sorting::SortedByNameAscending => lemma_text_neg_trans(a.name@, b.name@, c.name@),
        _ => {},
    }
}

proof fn lemma_insert_members(mode: Sorting, t: Seq<Entry>, x: Entry)
    ensures
        insert_sorted(mode, t, x).len() == t.len() + 1,
        forall|k: int| 0 <= k < t.len() + 1 ==> (#[trigger] insert_sorted(mode, t, x)[k] == x
            || t.contains(insert_sorted(mode, t, x)[k])),
    decreases t.len(),
{
    if t.len() > 0 {
        let t2 = t.drop_last();
        lemma_insert_members(mode, t2, x);
        assert forall|k: int| 0 <= k < t.len() + 1 implies (#[trigger] insert_sorted(mode, t, x)[k] == x
            || t.contains(insert_sorted(mode, t, x)[k])) by {
            let r = insert_sorted(mode, t, x);
            if precedes_spec(mode, x, t.last()) {
                if k < t.len() {
                    let e = insert_sorted(mode, t2, x)[k];
                    if e != x {
                        let m = choose|m: int| 0 <= m < t2.len() && t2[m] == e;
                        assert(t[m] == e);
                    }
                } else {
                    assert(t[t.len() - 1] == r[k]);
                }
            } else if k < t.len() {
                assert(t[k] == r[k]);
            }
        }
    }
}

proof fn lemma_insert_sorted_keeps_order(mode: Sorting, t: Seq<Entry>, x: Entry)
    requires
        is_sorted(mode, t),
    ensures
        is_sorted(mode, insert_sorted(mode, t, x)),
    decreases t.len(),
{
    if t.len() > 0 {
        let t2 = t.drop_last();
        let l = t.last();
        if precedes_spec(mode, x, l) {
            lemma_insert_sorted_keeps_order(mode, t2, x);
            lemma_insert_members(mode, t2, x);
            lemma_precedes_asym(mode, x, l);
            let r = insert_sorted(mode, t, x);
            assert forall|i: int, j: int| 0 <= i < j < r.len() implies !precedes_spec(mode, #[trigger] r[j], #[trigger] r[i]) by {
                if j == r.len() - 1 {
                    let e = insert_sorted(mode, t2, x)[i];
                    if e != x {
                        let m = choose|m: int| 0 <= m < t2.len() && t2[m] == e;
                        assert(t[m] == e);
                        assert(!precedes_spec(mode, t[t.len() - 1], t[m]));
                    }
                } else {
                    assert(r[i] == insert_sorted(mode, t2, x)[i]);
                    assert(r[j] == insert_sorted(mode, t2, x)[j]);
                }
            }
        } else {
            let r = t.push(x);
            assert forall|i: int, j: int| 0 <= i < j < r.len() implies !precedes_spec(mode, #[trigger] r[j], #[trigger] r[i]) by {
                if j == r.len() - 1 {
                    if i < t.len() - 1 {
                        assert(!precedes_spec(mode, t[t.len() - 1], t[i]));
                        lemma_precedes_neg_trans(mode, x, l, t[i]);
                    }
                } else {
                    assert(r[i] == t[i] && r[j] == t[j]);
                }
            }
        }
    }
}

/// The stable sort yields a sequence in which no element strictly precedes
/// an earlier one.
pub proof fn lemma_sorted_by_is_sorted(mode: Sorting, s: Seq<Entry>)
    ensures
        is_sorted(mode, sorted_by(mode, s)),
        sorted_by(mode, s).len() == s.len(),
    decreases s.len(),
{
    if s.len() > 0 {
        lemma_sorted_by_is_sorted(mode, s.drop_last());
        lemma_insert_sorted_keeps_order(mode, sorted_by(mode, s.drop_last()), s.last());
        lemma_insert_members(mode, sorted_by(mode, s.drop_last()), s.last());
    }
}


/// Every element kept satisfies `f` and comes from `s`.
pub proof fn lemma_keep_members(s: Seq<Entry>, f: spec_fn(Entry) -> bool)
    ensures
        keep(s, f).len() <= s.len(),
        forall|k: int| 0 <= k < keep(s, f).len() ==> f(#[trigger] keep(s, f)[k])
            && s.contains(keep(s, f)[k]),
    decreases s.len(),
{
    if s.len() > 0 {
        let s2 = s.drop_last();
        lemma_keep_members(s2, f);
        assert forall|k: int| 0 <= k < keep(s, f).len() implies f(#[trigger] keep(s, f)[k]) && s.contains(keep(s, f)[k]) by {
            if k < keep(s2, f).len() {
                let e = keep(s2, f)[k];
                assert(keep(s, f)[k] == e);
                let m = choose|m: int| 0 <= m < s2.len() && s2[m] == e;
                assert(s[m] == e);
            } else {
                assert(s[s.len() - 1] == keep(s, f)[k]);
            }
        }
    }
}

pub proof fn lemma_keep_concat(a: Seq<Entry>, b: Seq<Entry>, f: spec_fn(Entry) -> bool)
    ensures
        keep(a + b, f) == keep(a, f) + keep(b, f),
    decreases b.len(),
{
    if b.len() == 0 {
        assert(a + b =~= a);
        assert(keep(a, f) + keep(b, f) =~= keep(a, f));
    } else {
        lemma_keep_concat(a, b.drop_last(), f);
        assert((a + b).drop_last() =~= a + b.drop_last());
        assert((a + b).last() == b.last());
        assert(keep(a, f) + keep(b.drop_last(), f).push(b.last()) =~= (keep(a, f) + keep(b.drop_last(), f)).push(b.last()));
    }
}

pub proof fn lemma_keep_all(s: Seq<Entry>, f: spec_fn(Entry) -> bool)
    requires
        forall|k: int| 0 <= k < s.len() ==> f(#[trigger] s[k]),
    ensures
        keep(s, f) == s,
    decreases s.len(),
{
    if s.len() > 0 {
        lemma_keep_all(s.drop_last(), f);
        assert(s.drop_last().push(s.last()) =~= s);
    }
}

pub proof fn lemma_keep_none(s: Seq<Entry>, f: spec_fn(Entry) -> bool)
    requires
        forall|k: int| 0 <= k < s.len() ==> !f(#[trigger] s[k]),
    ensures
        keep(s, f) == Seq::<Entry>::empty(),
    decreases s.len(),
{
    if s.len() > 0 {
        lemma_keep_none(s.drop_last(), f);
    } else {
        assert(s =~= Seq::<Entry>::empty());
    }
}

/// A subsequence of a sorted sequence is sorted.
pub proof fn lemma_keep_of_sorted(mode: Sorting, s: Seq<Entry>, f: spec_fn(Entry) -> bool)
    requires
        is_sorted(mode, s),
    ensures
        is_sorted(mode, keep(s, f)),
    decreases s.len(),
{
    if s.len() > 0 {
        let s2 = s.drop_last();
        assert(is_sorted(mode, s2)) by {
            assert forall|i: int, j: int| 0 <= i < j < s2.len() implies !precedes_spec(mode, #[trigger] s2[j], #[trigger] s2[i]) by {
                assert(s2[i] == s[i] && s2[j] == s[j]);
            }
        }
        lemma_keep_of_sorted(mode, s2, f);
        lemma_keep_members(s2, f);
        if f(s.last()) {
            let r = keep(s, f);
            let k2 = keep(s2, f);
            assert forall|i: int, j: int| 0 <= i < j < r.len() implies !precedes_spec(mode, #[trigger] r[j], #[trigger] r[i]) by {
                if j == r.len() - 1 {
                    let m = choose|m: int| 0 <= m < s2.len() && s2[m] == k2[i];
                    assert(s[m] == r[i]);
                } else {
                    assert(r[i] == k2[i] && r[j] == k2[j]);
                }
            }
        }
    }
}

proof fn lemma_keep_insert(mode: Sorting, t: Seq<Entry>, x: Entry, f: spec_fn(Entry) -> bool)
    requires
        is_sorted(mode, t),
        f(x) ==> forall|k: int| 0 <= k < keep(t, f).len() ==> !precedes_spec(mode, x, #[trigger] keep(t, f)[k]),
    ensures
        keep(insert_sorted(mode, t, x), f) == (if f(x) { keep(t, f).push(x) } else { keep(t, f) }),
    decreases t.len(),
{
    if t.len() == 0 {
        assert(seq![x].drop_last() =~= t);
    } else {
        let t2 = t.drop_last();
        let l = t.last();
        if precedes_spec(mode, x, l) {
            assert(is_sorted(mode, t2)) by {
                assert forall|i: int, j: int| 0 <= i < j < t2.len() implies !precedes_spec(mode, #[trigger] t2[j], #[trigger] t2[i]) by {
                    assert(t2[i] == t[i] && t2[j] == t[j]);
                }
            }
            if f(x) {
                if f(l) {
                    assert(keep(t, f)[keep(t, f).len() - 1] == l);
                }
                assert forall|k: int| 0 <= k < keep(t2, f).len() implies !precedes_spec(mode, x, #[trigger] keep(t2, f)[k]) by {
                    assert(keep(t, f)[k] == keep(t2, f)[k]);
                }
            }
            lemma_keep_insert(mode, t2, x, f);
            assert(insert_sorted(mode, t, x).drop_last() =~= insert_sorted(mode, t2, x));
        } else {
            assert(t.push(x).drop_last() =~= t);
        }
    }
}

/// The stable sort keeps the order of any subsequence that is already sorted.
pub proof fn lemma_sorted_by_keeps_sorted_part(mode: Sorting, s: Seq<Entry>, f: spec_fn(Entry) -> bool)
    requires
        is_sorted(mode, keep(s, f)),
    ensures
        keep(sorted_by(mode, s), f) == keep(s, f),
    decreases s.len(),
{
    if s.len() > 0 {
        let s2 = s.drop_last();
        let x = s.last();
        let k = keep(s, f);
        let k2 = keep(s2, f);
        assert(is_sorted(mode, k2)) by {
            if f(x) {
                assert forall|i: int, j: int| 0 <= i < j < k2.len() implies !precedes_spec(mode, #[trigger] k2[j], #[trigger] k2[i]) by {
                    assert(k[i] == k2[i] && k[j] == k2[j]);
                }
            }
        }
        lemma_sorted_by_keeps_sorted_part(mode, s2, f);
        lemma_sorted_by_is_sorted(mode, s2);
        if f(x) {
            assert forall|m: int| 0 <= m < k2.len() implies !precedes_spec(mode, x, #[trigger] k2[m]) by {
                assert(k[m] == k2[m]);
                assert(k[k.len() - 1] == x);
            }
        }
        lemma_keep_insert(mode, sorted_by(mode, s2), x, f);
    }
}

/// Sorting an already sorted sequence changes nothing.
pub proof fn lemma_sorted_fixed(mode: Sorting, s: Seq<Entry>)
    requires
        is_sorted(mode, s),
    ensures
        sorted_by(mode, s) == s,
    decreases s.len(),
{
    if s.len() > 0 {
        let s2 = s.drop_last();
        assert(is_sorted(mode, s2)) by {
            assert forall|i: int, j: int| 0 <= i < j < s2.len() implies !precedes_spec(mode, #[trigger] s2[j], #[trigger] s2[i]) by {
                assert(s2[i] == s[i] && s2[j] == s[j]);
            }
        }
        lemma_sorted_fixed(mode, s2);
        if s2.len() > 0 {
            assert(!precedes_spec(mode, s[s.len() - 1], s[s.len() - 2]));
        }
        assert(s2.push(s.last()) =~= s);
    }
}

/// The entries of `s` that no order of `mode` tells apart from `y`.
pub open spec fn ties(mode: Sorting, s: Seq<Entry>, y: Entry) -> Seq<Entry> {
    keep(s, |e: Entry| tied(mode, e, y))
}

/// Sorting is stable: entries with an equal key keep their relative order.
pub proof fn lemma_sort_stable(mode: Sorting, s: Seq<Entry>, y: Entry)
    ensures
        ties(mode, sorted_by(mode, s), y) == ties(mode, s, y),
{
    let f = |e: Entry| tied(mode, e, y);
    let k = keep(s, f);
    lemma_keep_members(s, f);
    assert forall|i: int, j: int| 0 <= i < j < k.len() implies !precedes_spec(mode, #[trigger] k[j], #[trigger] k[i]) by {
        assert(f(k[i]) && f(k[j]));
        lemma_precedes_neg_trans(mode, k[j], y, k[i]);
    }
    lemma_sorted_by_keeps_sorted_part(mode, s, f);
}

/// Sorting twice with the same mode gives the order of sorting once.
pub proof fn lemma_sort_idempotent(mode: Sorting, s: Seq<Entry>)
    ensures
        sorted_by(mode, sorted_by(mode, s)) == sorted_by(mode, s),
{
    lemma_sorted_by_is_sorted(mode, s);
    lemma_sorted_fixed(mode, sorted_by(mode, s));
}

proof fn lemma_insert_contains(mode: Sorting, t: Seq<Entry>, x: Entry, e: Entry)
    ensures
        insert_sorted(mode, t, x).contains(e) <==> (t.contains(e) || e == x),
    decreases t.len(),
{
    lemma_insert_members(mode, t, x);
    let r = insert_sorted(mode, t, x);
    if t.len() > 0 {
        let t2 = t.drop_last();
        lemma_insert_contains(mode, t2, x, e);
        if t.contains(e) {
            let m = choose|m: int| 0 <= m < t.len() && t[m] == e;
            if precedes_spec(mode, x, t.last()) {
                if m < t.len() - 1 {
                    assert(t2[m] == e);
                    let k = choose|k: int| 0 <= k < insert_sorted(mode, t2, x).len() && insert_sorted(mode, t2, x)[k] == e;
                    assert(r[k] == e);
                } else {
                    assert(r[r.len() - 1] == e);
                }
            } else {
                assert(r[m] == e);
            }
        }
        if e == x {
            if precedes_spec(mode, x, t.last()) {
                let k = choose|k: int| 0 <= k < insert_sorted(mode, t2, x).len() && insert_sorted(mode, t2, x)[k] == e;
                assert(r[k] == e);
            } else {
                assert(r[r.len() - 1] == e);
            }
        }
    } else {
        if e == x {
            assert(r[0] == e);
        }
    }
}

/// Sorting keeps exactly the entries it was given.
pub proof fn lemma_sorted_by_contains(mode: Sorting, s: Seq<Entry>, e: Entry)
    ensures
        sorted_by(mode, s).contains(e) <==> s.contains(e),
    decreases s.len(),
{
    if s.len() > 0 {
        let s2 = s.drop_last();
        lemma_sorted_by_contains(mode, s2, e);
        lemma_insert_contains(mode, sorted_by(mode, s2), s.last(), e);
        if s.contains(e) && e != s.last() {
            let m = choose|m: int| 0 <= m < s.len() && s[m] == e;
            assert(s2[m] == e);
        }
        if s2.contains(e) {
            let m = choose|m: int| 0 <= m < s2.len() && s2[m] == e;
            assert(s[m] == e);
        }
    }
}

/// An entry is kept exactly when `s` holds it and it satisfies `f`.
pub proof fn lemma_keep_contains(s: Seq<Entry>, f: spec_fn(Entry) -> bool, e: Entry)
    ensures
        keep(s, f).contains(e) <==> (s.contains(e) && f(e)),
    decreases s.len(),
{
    lemma_keep_members(s, f);
    if s.len() > 0 {
        let s2 = s.drop_last();
        lemma_keep_contains(s2, f, e);
        let k = keep(s, f);
        if s.contains(e) && f(e) {
            let m = choose|m: int| 0 <= m < s.len() && s[m] == e;
            if m < s.len() - 1 {
                assert(s2[m] == e);
                let j = choose|j: int| 0 <= j < keep(s2, f).len() && keep(s2, f)[j] == e;
                assert(k[j] == e);
            } else {
                assert(k[k.len() - 1] == e);
            }
        }
    }
}

} // verus!
