use vstd::prelude::*;
use vstd::std_specs::iter::IteratorSpec;

verus! {

/// A path that starts at the root.
pub open spec fn is_absolute(p: Seq<char>) -> bool {
    p.len() > 0 && p[0] == '/'
}

/// A name that the listing hides unless hidden entries are shown.
pub open spec fn is_hidden(name: Seq<char>) -> bool {
    name.len() > 0 && name[0] == '.'
}

/// `name` resolved against the directory `dir`.
pub open spec fn join_spec(dir: Seq<char>, name: Seq<char>) -> Seq<char> {
    if is_absolute(name) {
        name
    } else if dir.len() > 0 && dir.last() == '/' {
        dir + name
    } else {
        dir.push('/') + name
    }
}

/// Index of the first separator of `p`, or its length where it has none.
pub open spec fn first_slash(p: Seq<char>) -> int
    decreases p.len(),
{
    if p.len() == 0 {
        0
    } else if p[0] == '/' {
        0
    } else {
        1 + first_slash(p.drop_first())
    }
}

proof fn lemma_first_slash_bounds(p: Seq<char>)
    ensures
        0 <= first_slash(p) <= p.len(),
        first_slash(p) < p.len() ==> p[first_slash(p)] == '/',
    decreases p.len(),
{
    if p.len() > 0 && p[0] != '/' {
        lemma_first_slash_bounds(p.drop_first());
    }
}

/// Two parts of a relative path joined by one separator.
pub open spec fn glue(a: Seq<char>, b: Seq<char>) -> Seq<char> {
    if a.len() == 0 {
        b
    } else if b.len() == 0 {
        a
    } else {
        a.push('/') + b
    }
}

/// `p` without its empty and `.` components, the others joined by single
/// separators.
pub open spec fn clean(p: Seq<char>) -> Seq<char>
    decreases p.len()
    via clean_decreases
{
    if p.len() == 0 {
        p
    } else {
        let k = first_slash(p);
        let c = p.take(k);
        let tail = if k < p.len() { clean(p.skip(k + 1)) } else { Seq::empty() };
        if c.len() == 0 || c =~= seq!['.'] {
            tail
        } else {
            glue(c, tail)
        }
    }
}

#[via_fn]
proof fn clean_decreases(p: Seq<char>) {
    lemma_first_slash_bounds(p);
}

/// `p` resolved against the directory `dir`, with its empty and `.`
/// components dropped.
pub open spec fn resolve_spec(dir: Seq<char>, p: Seq<char>) -> Seq<char> {
    let q = clean(p);
    if is_absolute(p) {
        seq!['/'] + q
    } else if q.len() == 0 {
        dir
    } else {
        join_spec(dir, q)
    }
}

/// Index of the last separator of `p`, or -1 where it has none.
pub open spec fn last_slash(p: Seq<char>) -> int
    decreases p.len(),
{
    if p.len() == 0 {
        -1
    } else if p.last() == '/' {
        p.len() - 1
    } else {
        last_slash(p.drop_last())
    }
}

/// The directory that holds `p`; the root is its own parent.
pub open spec fn parent_spec(p: Seq<char>) -> Seq<char> {
    let k = last_slash(p);
    if k < 0 {
        p
    } else if k == 0 {
        seq!['/']
    } else {
        p.subrange(0, k)
    }
}

/// The last component of `p`.
pub open spec fn base_name_spec(p: Seq<char>) -> Seq<char> {
    p.subrange(last_slash(p) + 1, p.len() as int)
}

proof fn lemma_last_slash_bounds(p: Seq<char>)
    ensures
        -1 <= last_slash(p) < p.len(),
        last_slash(p) >= 0 ==> p[last_slash(p)] == '/',
        forall|i: int| last_slash(p) < i < p.len() ==> p[i] != '/',
    decreases p.len(),
{
    if p.len() > 0 && p.last() != '/' {
        let q = p.drop_last();
        lemma_last_slash_bounds(q);
        assert forall|i: int| last_slash(p) < i < p.len() implies p[i] != '/' by {
            if i < q.len() {
                assert(q[i] == p[i]);
            }
        }
    }
}

/// Whether `name` is hidden.
pub fn hidden(name: &Vec<char>) -> (r: bool)
    ensures
        r == is_hidden(name@),
{
    name.len() > 0 && name[0] == '.'
}

/// Resolves `name` against the directory `dir`.
pub fn join(dir: &Vec<char>, name: &Vec<char>) -> (r: Vec<char>)
    requires
        dir@.len() + name@.len() + 1 <= usize::MAX,
    ensures
        r@ == join_spec(dir@, name@),
{
    let mut r: Vec<char> = Vec::new();
    if !(name.len() > 0 && name[0] == '/') {
        let mut i: usize = 0;
        while i < dir.len()
            invariant
                i <= dir@.len(),
                r@ == dir@.subrange(0, i as int),
            decreases dir@.len() - i,
        {
            r.push(dir[i]);
            i = i + 1;
        }
        if !(dir.len() > 0 && dir[dir.len() - 1] == '/') {
            r.push('/');
        }
    }
    let ghost head = r@;
    let mut j: usize = 0;
    while j < name.len()
        invariant
            j <= name@.len(),
            r@ == head + name@.subrange(0, j as int),
        decreases name@.len() - j,
    {
        r.push(name[j]);
        j = j + 1;
    }
    proof {
        assert(name@.subrange(0, name@.len() as int) =~= name@);
        assert(dir@.subrange(0, dir@.len() as int) =~= dir@);
        if is_absolute(name@) {
            assert(head =~= Seq::<char>::empty());
            assert(r@ =~= name@);
        }
    }
    r
}

fn find_last_slash(p: &Vec<char>) -> (r: Option<usize>)
    ensures
        match r {
            Some(k) => last_slash(p@) == k as int && k < p@.len(),
            None => last_slash(p@) == -1,
        },
{
    let mut i: usize = p.len();
    assert(p@.subrange(0, i as int) =~= p@);
    while i > 0
        invariant
            i <= p@.len(),
            last_slash(p@) == last_slash(p@.subrange(0, i as int)),
        decreases i,
    {
        proof {
            let q = p@.subrange(0, i as int);
            assert(q.drop_last() =~= p@.subrange(0, i - 1));
        }
        if p[i - 1] == '/' {
            return Some(i - 1);
        }
        i = i - 1;
    }
    proof {
        assert(p@.subrange(0, 0) =~= Seq::<char>::empty());
    }
    None
}

/// The directory that holds `p`.
pub fn parent(p: &Vec<char>) -> (r: Vec<char>)
    ensures
        r@ == parent_spec(p@),
{
    proof {
        lemma_last_slash_bounds(p@);
    }
    match find_last_slash(p) {
        None => copy_chars(p, 0, p.len()),
        Some(k) => {
            if k == 0 {
                let mut r: Vec<char> = Vec::new();
                r.push('/');
                assert(r@ =~= seq!['/']);
                r
            } else {
                copy_chars(p, 0, k)
            }
        },
    }
}

/// The last component of `p`.
pub fn base_name(p: &Vec<char>) -> (r: Vec<char>)
    ensures
        r@ == base_name_spec(p@),
{
    proof {
        lemma_last_slash_bounds(p@);
    }
    let n = p.len();
    match find_last_slash(p) {
        None => copy_chars(p, 0, n),
        Some(k) => copy_chars(p, k + 1, n),
    }
}

/// The characters of `p` from `lo` up to `hi`.
pub fn copy_chars(p: &Vec<char>, lo: usize, hi: usize) -> (r: Vec<char>)
    requires
        lo <= hi <= p@.len(),
    ensures
        r@ == p@.subrange(lo as int, hi as int),
{
    let mut r: Vec<char> = Vec::new();
    let mut i: usize = lo;
    while i < hi
        invariant
            lo <= i <= hi,
            hi <= p@.len(),
            r@ == p@.subrange(lo as int, i as int),
        decreases hi - i,
    {
        r.push(p[i]);
        i = i + 1;
    }
    r
}

/// Resolving against an absolute directory gives an absolute path.
pub proof fn lemma_join_absolute(dir: Seq<char>, name: Seq<char>)
    requires
        is_absolute(dir),
    ensures
        is_absolute(join_spec(dir, name)),
{
}

/// The parent of an absolute path is absolute and no longer than it.
pub proof fn lemma_parent_absolute(p: Seq<char>)
    requires
        is_absolute(p),
    ensures
        is_absolute(parent_spec(p)),
        parent_spec(p).len() <= p.len(),
{
    lemma_last_slash_bounds(p);
}


/// The characters of `s`.
pub fn chars_of(s: &str) -> (r: Vec<char>)
    ensures
        r@ == s@,
{
    broadcast use vstd::string::axiom_spec_iter, vstd::string::next_postcondition;

    let mut r: Vec<char> = Vec::new();
    let mut it = s.chars();
    loop
        invariant
            it.obeys_prophetic_iter_laws(),
            r@ + it.remaining() == s@,
            it.decrease() is Some,
        decreases it.decrease()->0,
    {
        let ghost before = it.remaining();
        match it.next() {
            Some(c) => {
                r.push(c);
                assert(r@ + it.remaining() =~= s@) by {
                    assert(before =~= seq![c] + before.drop_first());
                }
            },
            None => {
                assert(r@ =~= s@);
                return r;
            },
        }
    }
}

proof fn lemma_glue_assoc(a: Seq<char>, c: Seq<char>, t: Seq<char>)
    requires
        c.len() > 0,
    ensures
        glue(a, glue(c, t)) == glue(glue(a, c), t),
{
    if a.len() > 0 && t.len() > 0 {
        assert(a.push('/') + (c.push('/') + t) =~= (a.push('/') + c).push('/') + t);
    }
}

proof fn lemma_clean_no_lead(p: Seq<char>)
    ensures
        clean(p).len() > 0 ==> clean(p)[0] != '/',
        clean(p).len() <= p.len(),
    decreases p.len(),
{
    if p.len() > 0 {
        let k = first_slash(p);
        lemma_first_slash_bounds(p);
        if k < p.len() {
            lemma_clean_no_lead(p.skip(k + 1));
        }
        let c = p.take(k);
        if c.len() > 0 {
            assert(c[0] == p[0]);
            if p[0] == '/' {
                assert(first_slash(p) == 0);
            }
        }
    }
}

/// `p` with its empty and `.` components dropped.
fn clean_path(p: &Vec<char>) -> (r: Vec<char>)
    ensures
        r@ == clean(p@),
{
    let n = p.len();
    let mut out: Vec<char> = Vec::new();
    let mut i: usize = 0;
    assert(p@.skip(0) =~= p@);
    while i < n
        invariant
            n == p@.len(),
            i <= n,
            clean(p@) == glue(out@, clean(p@.skip(i as int))),
        decreases n - i,
    {
        let mut j: usize = i;
        proof {
            lemma_first_slash_bounds(p@.skip(i as int));
        }
        while j < n && p[j] != '/'
            invariant
                n == p@.len(),
                i <= j <= n,
                first_slash(p@.skip(i as int)) == (j - i) + first_slash(p@.skip(j as int)),
            decreases n - j,
        {
            assert(p@.skip(j as int).drop_first() =~= p@.skip(j + 1));
            assert(p@.skip(j as int)[0] == p@[j as int]);
            j = j + 1;
        }
        proof {
            if j < n {
                assert(p@.skip(j as int)[0] == p@[j as int]);
            }
            let q = p@.skip(i as int);
            let k = first_slash(q);
            assert(k == j - i);
            assert(q.take(k) =~= p@.subrange(i as int, j as int));
            if j < n {
                assert(q.skip(k + 1) =~= p@.skip(j + 1));
            }
        }
        let c = copy_chars(p, i, j);
        let keep_c = !(c.len() == 0 || (c.len() == 1 && c[0] == '.'));
        proof {
            if c@.len() == 1 && c@[0] == '.' {
                assert(c@ =~= seq!['.']);
            }
        }
        let ghost tail = if j < n { clean(p@.skip(j + 1)) } else { Seq::<char>::empty() };
        if keep_c {
            proof {
                lemma_glue_assoc(out@, c@, tail);
            }
            if out.len() > 0 {
                out.push('/');
            }
            let ghost before = out@;
            let mut t: usize = 0;
            while t < c.len()
                invariant
                    t <= c@.len(),
                    out@ == before + c@.subrange(0, t as int),
                decreases c@.len() - t,
            {
                out.push(c[t]);
                t = t + 1;
            }
            assert(c@.subrange(0, c@.len() as int) =~= c@);
            proof {
                if before.len() == 0 {
                    assert(out@ =~= c@);
                }
            }
        }
        if j < n {
            i = j + 1;
        } else {
            i = n;
            proof {
                assert(p@.skip(n as int) =~= Seq::<char>::empty());
                assert(glue(out@, Seq::<char>::empty()) == out@);
            }
        }
    }
    proof {
        assert(p@.skip(n as int) =~= Seq::<char>::empty());
    }
    out
}

/// Resolves `p` against the directory `dir`, dropping its empty and `.`
/// components.
pub fn resolve(dir: &Vec<char>, p: &Vec<char>) -> (r: Vec<char>)
    requires
        dir@.len() + p@.len() + 1 <= usize::MAX,
    ensures
        r@ == resolve_spec(dir@, p@),
{
    let q = clean_path(p);
    proof {
        lemma_clean_no_lead(p@);
    }
    if p.len() > 0 && p[0] == '/' {
        let mut r: Vec<char> = Vec::new();
        r.push('/');
        let mut t: usize = 0;
        while t < q.len()
            invariant
                t <= q@.len(),
                r@ == seq!['/'] + q@.subrange(0, t as int),
            decreases q@.len() - t,
        {
            r.push(q[t]);
            t = t + 1;
        }
        assert(q@.subrange(0, q@.len() as int) =~= q@);
        r
    } else if q.len() == 0 {
        let r = copy_chars(dir, 0, dir.len());
        assert(dir@.subrange(0, dir@.len() as int) =~= dir@);
        r
    } else {
        join(dir, &q)
    }
}

/// Resolving against an absolute directory gives an absolute path.
pub proof fn lemma_resolve_absolute(dir: Seq<char>, p: Seq<char>)
    requires
        is_absolute(dir),
    ensures
        is_absolute(resolve_spec(dir, p)),
{
    lemma_clean_no_lead(p);
}

} // verus!
