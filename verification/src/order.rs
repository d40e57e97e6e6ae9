//! The order of texts, and stable sorting by rank.

use vstd::prelude::*;
use crate::text::chars_of;

verus! {

/// Whether a text comes no later than another, character by character.
pub open spec fn text_le(a: Seq<char>, b: Seq<char>) -> bool
    decreases a.len(),
{
    if a.len() == 0 {
        true
    } else if b.len() == 0 {
        false
    } else if a[0] == b[0] {
        text_le(a.skip(1), b.skip(1))
    } else {
        a[0] < b[0]
    }
}

/// The order of texts is total.
pub proof fn lemma_text_total(a: Seq<char>, b: Seq<char>)
    ensures
        text_le(a, b) || text_le(b, a),
    decreases a.len(),
{
    if a.len() > 0 && b.len() > 0 && a[0] == b[0] {
        lemma_text_total(a.skip(1), b.skip(1));
    }
}

/// Texts that come no later than each other are the same.
pub proof fn lemma_text_antisymmetric(a: Seq<char>, b: Seq<char>)
    requires
        text_le(a, b),
        text_le(b, a),
    ensures
        a == b,
    decreases a.len(),
{
    if a.len() == 0 || b.len() == 0 {
        assert(a =~= b);
    } else {
        lemma_text_antisymmetric(a.skip(1), b.skip(1));
        assert(a =~= seq![a[0]] + a.skip(1));
        assert(b =~= seq![b[0]] + b.skip(1));
    }
}

/// The order of texts is transitive.
pub proof fn lemma_text_transitive(a: Seq<char>, b: Seq<char>, c: Seq<char>)
    requires
        text_le(a, b),
        text_le(b, c),
    ensures
        text_le(a, c),
    decreases a.len(),
{
    if a.len() > 0 && b.len() > 0 && c.len() > 0 && a[0] == b[0] && b[0] == c[0] {
        lemma_text_transitive(a.skip(1), b.skip(1), c.skip(1));
    }
}

pub proof fn lemma_text_reflexive(a: Seq<char>)
    ensures
        text_le(a, a),
    decreases a.len(),
{
    if a.len() > 0 {
        lemma_text_reflexive(a.skip(1));
    }
}

/// Whether a text comes no later than another.
pub fn text_not_after(a: &str, b: &str) -> (r: bool)
    ensures
        r == text_le(a@, b@),
{
    let x = chars_of(a);
    let y = chars_of(b);
    let mut i: usize = 0;
    proof {
        assert(a@.skip(0) =~= a@);
        assert(b@.skip(0) =~= b@);
    }
    loop
        invariant
            x@ == a@,
            y@ == b@,
            i <= x.len(),
            i <= y.len(),
            text_le(a@, b@) == text_le(a@.skip(i as int), b@.skip(i as int)),
        decreases x.len() - i,
    {
        if i == x.len() {
            return true;
        }
        if i == y.len() {
            return false;
        }
        if x[i] != y[i] {
            return x[i] < y[i];
        }
        proof {
            assert(a@.skip(i as int).skip(1) =~= a@.skip(i + 1));
            assert(b@.skip(i as int).skip(1) =~= b@.skip(i + 1));
        }
        i = i + 1;
    }
}

/// A thing with a rank among its like.
pub trait Ranked: Sized {
    /// Whether one comes no later than another.
    spec fn le(self, other: Self) -> bool;

    /// Ranks are total and transitive.
    proof fn rank_laws(a: Self, b: Self, c: Self)
        ensures
            a.le(b) || b.le(a),
            a.le(b) && b.le(c) ==> a.le(c),
    ;

    /// Whether one comes no later than another.
    fn not_after(&self, other: &Self) -> (r: bool)
        ensures
            r == self.le(*other),
    ;
}

/// A thing put into a list behind everything that comes no later.
pub open spec fn inserted<T: Ranked>(list: Seq<T>, x: T) -> Seq<T>
    decreases list.len(),
{
    if list.len() == 0 || list.last().le(x) {
        list.push(x)
    } else {
        inserted(list.drop_last(), x).push(list.last())
    }
}

/// A list in the order of ranks; things of the same rank keep their order.
pub open spec fn ranked<T: Ranked>(list: Seq<T>) -> Seq<T>
    decreases list.len(),
{
    if list.len() == 0 {
        Seq::empty()
    } else {
        inserted(ranked(list.drop_last()), list.last())
    }
}

/// Whether nothing in a list comes after what follows it.
pub open spec fn in_order<T: Ranked>(list: Seq<T>) -> bool {
    forall|i: int, j: int| 0 <= i < j < list.len() ==> (#[trigger] list[i]).le(#[trigger] list[j])
}

proof fn lemma_inserted_at<T: Ranked>(list: Seq<T>, x: T, p: int)
    requires
        0 <= p <= list.len(),
        p > 0 ==> list[p - 1].le(x),
        forall|j: int| p <= j < list.len() ==> !(#[trigger] list[j]).le(x),
    ensures
        inserted(list, x) == list.insert(p, x),
    decreases list.len(),
{
    if p == list.len() {
        assert(list.insert(p, x) =~= list.push(x));
    } else {
        let front = list.drop_last();
        assert(!list[list.len() - 1].le(x));
        assert forall|j: int| p <= j < front.len() implies !(#[trigger] front[j]).le(x) by {
            assert(front[j] == list[j]);
        }
        lemma_inserted_at(front, x, p);
        assert(list.insert(p, x) =~= front.insert(p, x).push(list.last()));
    }
}

/// Inserting keeps a list in order and adds nothing but the thing.
pub proof fn lemma_inserted<T: Ranked>(list: Seq<T>, x: T)
    requires
        in_order(list),
    ensures
        in_order(inserted(list, x)),
        inserted(list, x).to_multiset() == list.push(x).to_multiset(),
        inserted(list, x).len() == list.len() + 1,
    decreases list.len(),
{
    broadcast use vstd::seq_lib::group_to_multiset_ensures;

    if list.len() == 0 || list.last().le(x) {
        let r = list.push(x);
        assert forall|i: int, j: int| 0 <= i < j < r.len() implies (#[trigger] r[i]).le(
            #[trigger] r[j],
        ) by {
            if j == list.len() {
                T::rank_laws(list[i], list.last(), x);
                if i < list.len() - 1 {
                    assert(list[i].le(list[list.len() - 1]));
                }
            } else {
                assert(list[i].le(list[j]));
            }
        }
    } else {
        let front = list.drop_last();
        assert forall|i: int, j: int| 0 <= i < j < front.len() implies (#[trigger] front[i]).le(
            #[trigger] front[j],
        ) by {
            assert(list[i].le(list[j]));
        }
        lemma_inserted(front, x);
        let w = inserted(front, x);
        let r = w.push(list.last());
        T::rank_laws(x, list.last(), x);
        assert forall|i: int| 0 <= i < w.len() implies (#[trigger] w[i]).le(list.last()) by {
            assert(w.to_multiset().count(w[i]) > 0);
            assert(front.push(x).to_multiset().count(w[i]) > 0);
            assert(front.push(x).contains(w[i]));
            let k = choose|k: int| 0 <= k < front.push(x).len() && front.push(x)[k] == w[i];
            if k < front.len() {
                assert(list[k].le(list[list.len() - 1]));
            }
        }
        assert forall|i: int, j: int| 0 <= i < j < r.len() implies (#[trigger] r[i]).le(
            #[trigger] r[j],
        ) by {
            if j == w.len() {
                assert(r[i] == w[i]);
            } else {
                assert(w[i].le(w[j]));
            }
        }
        assert(list =~= front.push(list.last()));
        assert(r.to_multiset() =~= list.push(x).to_multiset());
    }
}

/// A ranked list is in order and holds what the list held.
pub proof fn ranking_orders<T: Ranked>(list: Seq<T>)
    ensures
        in_order(ranked(list)),
        ranked(list).to_multiset() == list.to_multiset(),
        ranked(list).len() == list.len(),
    decreases list.len(),
{
    broadcast use vstd::seq_lib::group_to_multiset_ensures;

    if list.len() > 0 {
        ranking_orders(list.drop_last());
        lemma_inserted(ranked(list.drop_last()), list.last());
        assert(list =~= list.drop_last().push(list.last()));
        assert(ranked(list).to_multiset() =~= list.to_multiset());
    } else {
        assert(ranked(list) =~= list);
    }
}

/// Sorts a list by rank; things of the same rank keep their order.
pub fn sort_by_rank<T: Ranked>(list: Vec<T>) -> (r: Vec<T>)
    ensures
        r@ == ranked(list@),
{
    let ghost all = list@;
    let mut rest = list;
    let mut out: Vec<T> = Vec::new();
    let ghost mut done: int = 0;
    proof {
        assert(all.take(0) =~= Seq::<T>::empty());
        assert(all.skip(0) =~= all);
    }
    while rest.len() > 0
        invariant
            0 <= done <= all.len(),
            rest@ == all.skip(done),
            out@ == ranked(all.take(done)),
        decreases rest.len(),
    {
        let x = rest.remove(0);
        let mut p: usize = out.len();
        while p > 0 && !out[p - 1].not_after(&x)
            invariant
                p <= out.len(),
                forall|j: int| p <= j < out@.len() ==> !(#[trigger] out@[j]).le(x),
            decreases p,
        {
            p = p - 1;
        }
        proof {
            lemma_inserted_at(out@, x, p as int);
            assert(all.take(done + 1).drop_last() =~= all.take(done));
            assert(all.take(done + 1).last() == x);
            assert(rest@ =~= all.skip(done + 1));
        }
        out.insert(p, x);
        proof {
            done = done + 1;
        }
    }
    proof {
        assert(all.take(done) =~= all);
    }
    out
}

/// Texts are ordered by the first character in which they differ; one that goes on where the other
/// ends comes behind it.
pub proof fn texts_are_ordered_by_their_first_difference(
    common: Seq<char>,
    a: Seq<char>,
    b: Seq<char>,
)
    ensures
        text_le(common, common + b),
        b.len() > 0 ==> !text_le(common + b, common),
        a.len() > 0 && b.len() > 0 && a[0] != b[0] ==> (text_le(common + a, common + b) <==> (
        a[0] as int) < b[0] as int),
    decreases common.len(),
{
    if common.len() == 0 {
        assert(common + a =~= a);
        assert(common + b =~= b);
    } else {
        let rest = common.skip(1);
        texts_are_ordered_by_their_first_difference(rest, a, b);
        assert((common + a).skip(1) =~= rest + a);
        assert((common + b).skip(1) =~= rest + b);
        assert((common + a)[0] == common[0]);
        assert((common + b)[0] == common[0]);
    }
}

} // verus!
