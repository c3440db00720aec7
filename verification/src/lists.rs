//! Operations on vectors.
use vstd::prelude::*;

verus! {

/// Keeps the elements that `keep` accepts, in order. `wanted` is what `keep`
/// computes.
pub fn retain<T, F: Fn(&T) -> bool>(v: &mut Vec<T>, keep: F, wanted: Ghost<spec_fn(T) -> bool>)
    requires
        forall|x: &T| #[trigger] keep.requires((x,)),
        forall|x: &T, b: bool| #[trigger] keep.ensures((x,), b) ==> b == (wanted@)(*x),
    ensures
        final(v)@ == old(v)@.filter(wanted@),
{
    let ghost all = v@;
    let ghost mut done: int = 0;
    let mut i: usize = 0;
    proof {
        assert(all.take(0).filter(wanted@) =~= Seq::<T>::empty());
        assert(all.skip(0) =~= all);
        assert(v@ =~= all.take(0).filter(wanted@) + all.skip(0));
    }
    while i < v.len()
        invariant
            0 <= done <= all.len(),
            i == all.take(done).filter(wanted@).len(),
            v@ == all.take(done).filter(wanted@) + all.skip(done),
            forall|x: &T| #[trigger] keep.requires((x,)),
            forall|x: &T, b: bool| #[trigger] keep.ensures((x,), b) ==> b == (wanted@)(*x),
        decreases all.len() - done,
    {
        let ghost kept = all.take(done).filter(wanted@);
        proof {
            assert(v@[i as int] == all[done]);
            assert(all.take(done + 1) =~= all.take(done).push(all[done]));
            all.take(done).lemma_filter_push(all[done], wanted@);
        }
        if keep(&v[i]) {
            proof {
                assert(v@ =~= kept.push(all[done]) + all.skip(done + 1));
            }
            i = i + 1;
        } else {
            let ghost here = v@;
            let _ = v.remove(i);
            proof {
                assert(v@ =~= kept + all.skip(done + 1));
            }
        }
        proof {
            done = done + 1;
        }
    }
    proof {
        assert(all.skip(done).len() == 0);
        assert(all.take(done) =~= all);
        assert(v@ =~= all.filter(wanted@));
    }
}


/// The elements in the opposite order.
pub fn reverse<T>(v: Vec<T>) -> (r: Vec<T>)
    ensures
        r@ == v@.reverse(),
{
    let ghost all = v@;
    let mut rest = v;
    let mut r: Vec<T> = Vec::new();
    while rest.len() > 0
        invariant
            rest@.len() + r@.len() == all.len(),
            forall|i: int| 0 <= i < rest@.len() ==> rest@[i] == all[i],
            forall|i: int| 0 <= i < r@.len() ==> r@[i] == all[all.len() - 1 - i],
        decreases rest@.len(),
    {
        match rest.pop() {
            Some(x) => {
                r.push(x);
            },
            None => {
                assert(false);
            },
        }
    }
    assert(r@ =~= all.reverse());
    r
}

/// Where in `s` the `i`th element that `p` accepts stands.
pub open spec fn filter_index<T>(s: Seq<T>, p: spec_fn(T) -> bool, i: int) -> int
    decreases s.len(),
{
    if s.len() == 0 {
        0
    } else if p(s.last()) && i == s.drop_last().filter(p).len() {
        s.len() - 1
    } else {
        filter_index(s.drop_last(), p, i)
    }
}

pub proof fn filter_index_bounds<T>(s: Seq<T>, p: spec_fn(T) -> bool, i: int)
    requires
        0 <= i < s.filter(p).len(),
    ensures
        0 <= filter_index(s, p, i) < s.len(),
        s[filter_index(s, p, i)] == s.filter(p)[i],
        p(s.filter(p)[i]),
    decreases s.len(),
{
    reveal(Seq::filter);
    if s.len() > 0 {
        let rest = s.drop_last();
        assert(s =~= rest.push(s.last()));
        rest.lemma_filter_push(s.last(), p);
        if !(p(s.last()) && i == rest.filter(p).len()) {
            filter_index_bounds(rest, p, i);
        }
    }
}

pub proof fn filter_index_increases<T>(s: Seq<T>, p: spec_fn(T) -> bool, i: int, j: int)
    requires
        0 <= i < j < s.filter(p).len(),
    ensures
        filter_index(s, p, i) < filter_index(s, p, j),
    decreases s.len(),
{
    reveal(Seq::filter);
    if s.len() > 0 {
        let rest = s.drop_last();
        assert(s =~= rest.push(s.last()));
        rest.lemma_filter_push(s.last(), p);
        if p(s.last()) && j == rest.filter(p).len() {
            filter_index_bounds(rest, p, i);
        } else {
            filter_index_increases(rest, p, i, j);
        }
    }
}

/// Where every element is accepted, nothing is left out.
pub proof fn filter_all<T>(s: Seq<T>, p: spec_fn(T) -> bool)
    requires
        forall|i: int| 0 <= i < s.len() ==> p(#[trigger] s[i]),
    ensures
        s.filter(p) == s,
    decreases s.len(),
{
    reveal(Seq::filter);
    if s.len() > 0 {
        filter_all(s.drop_last(), p);
        assert(s.drop_last().push(s.last()) =~= s);
    }
}

/// Where two predicates agree on every element, they leave the same.
pub proof fn filter_same<T>(s: Seq<T>, p: spec_fn(T) -> bool, q: spec_fn(T) -> bool)
    requires
        forall|i: int| 0 <= i < s.len() ==> p(#[trigger] s[i]) == q(s[i]),
    ensures
        s.filter(p) == s.filter(q),
    decreases s.len(),
{
    reveal(Seq::filter);
    if s.len() > 0 {
        let rest = s.drop_last();
        assert forall|i: int| 0 <= i < rest.len() implies p(#[trigger] rest[i]) == q(rest[i]) by {
            assert(rest[i] == s[i]);
        }
        filter_same(rest, p, q);
        assert(p(s[s.len() - 1]) == q(s[s.len() - 1]));
    }
}

/// Where some element is refused, the result is shorter.
pub proof fn filter_shorter<T>(s: Seq<T>, p: spec_fn(T) -> bool)
    requires
        exists|i: int| 0 <= i < s.len() && !p(#[trigger] s[i]),
    ensures
        s.filter(p).len() < s.len(),
    decreases s.len(),
{
    reveal(Seq::filter);
    let rest = s.drop_last();
    rest.lemma_filter_len(p);
    if p(s.last()) {
        let i = choose|i: int| 0 <= i < s.len() && !p(#[trigger] s[i]);
        assert(!p(rest[i]));
        filter_shorter(rest, p);
    }
}

/// `after` is `before` with some elements left out.
pub open spec fn thinned<T>(before: Seq<T>, after: Seq<T>) -> bool {
    after == before || exists|p: spec_fn(T) -> bool| after == #[trigger] before.filter(p)
}

/// Where in `before` the `i`th element of `after` stands.
pub open spec fn thinned_index<T>(before: Seq<T>, after: Seq<T>, i: int) -> int {
    if after == before {
        i
    } else {
        filter_index(
            before,
            choose|p: spec_fn(T) -> bool| after == #[trigger] before.filter(p),
            i,
        )
    }
}

pub proof fn thinned_index_bounds<T>(before: Seq<T>, after: Seq<T>, i: int)
    requires
        thinned(before, after),
        0 <= i < after.len(),
    ensures
        0 <= thinned_index(before, after, i) < before.len(),
        before[thinned_index(before, after, i)] == after[i],
{
    if after != before {
        let p = choose|p: spec_fn(T) -> bool| after == #[trigger] before.filter(p);
        filter_index_bounds(before, p, i);
    }
}

pub proof fn thinned_index_increases<T>(before: Seq<T>, after: Seq<T>, i: int, j: int)
    requires
        thinned(before, after),
        0 <= i < j < after.len(),
    ensures
        thinned_index(before, after, i) < thinned_index(before, after, j),
{
    if after != before {
        let p = choose|p: spec_fn(T) -> bool| after == #[trigger] before.filter(p);
        filter_index_increases(before, p, i, j);
    }
}

} // verus!
