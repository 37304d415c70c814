//! Laws of the queue over its contents `q@`. They rest on what the contracts
//! of `RTQ` state: `push` appends to `q@`, `pop` drops its first element and
//! `front` reads that element. A loop that drains a queue by `front` and
//! `pop` is not itself verified here; `drain` is what such a loop hands out
//! by those contracts.
use crate::queue::RTQ;
use vstd::prelude::*;

verus! {

/// The contents of a queue holding `s` after `push` of each element of `vs`,
/// in order.
pub open spec fn push_all<T>(s: Seq<T>, vs: Seq<T>) -> Seq<T>
    decreases vs.len(),
{
    if vs.len() == 0 {
        s
    } else {
        push_all(s.push(vs[0]), vs.drop_first())
    }
}

/// What `front` followed by `pop`, repeated until the queue is empty, hands
/// out of a queue holding `s`.
pub open spec fn drain<T>(s: Seq<T>) -> Seq<T>
    decreases s.len(),
{
    if s.len() == 0 {
        Seq::empty()
    } else {
        seq![s[0]] + drain(s.drop_first())
    }
}

proof fn lemma_push_all_appends<T>(s: Seq<T>, vs: Seq<T>)
    ensures
        push_all(s, vs) == s + vs,
    decreases vs.len(),
{
    if vs.len() == 0 {
        assert(s + vs =~= s);
    } else {
        lemma_push_all_appends(s.push(vs[0]), vs.drop_first());
        assert(s.push(vs[0]) + vs.drop_first() =~= s + vs);
    }
}

proof fn lemma_drain_in_order<T>(s: Seq<T>)
    ensures
        drain(s) == s,
    decreases s.len(),
{
    if s.len() == 0 {
        assert(drain(s) =~= s);
    } else {
        lemma_drain_in_order(s.drop_first());
        assert(seq![s[0]] + s.drop_first() =~= s);
    }
}

/// First in, first out: a queue whose contents are those of the empty queue
/// after `push` of each element of `vs` in order drains to exactly `vs`, in
/// the same order.
pub proof fn lemma_fifo<T>(q: RTQ<T>, vs: Seq<T>)
    requires
        q@ == push_all(Seq::empty(), vs),
    ensures
        drain(q@) == vs,
{
    lemma_push_all_appends(Seq::empty(), vs);
    assert(Seq::<T>::empty() + vs =~= vs);
    lemma_drain_in_order(vs);
}

/// Versions branch independently: from a queue `q` filled by pushing `vs`
/// onto the empty queue, `qa` made by `pop` and `qb` made by `push` of `x`
/// drain to their own contents, while `q` itself still drains to `vs`.
pub proof fn lemma_branches<T>(q: RTQ<T>, qa: RTQ<T>, qb: RTQ<T>, vs: Seq<T>, x: T)
    requires
        vs.len() > 0,
        q@ == push_all(Seq::empty(), vs),
        qa@ == q@.drop_first(),
        qb@ == q@.push(x),
    ensures
        drain(qa@) == vs.drop_first(),
        drain(qb@) == vs.push(x),
        drain(q@) == vs,
{
    lemma_fifo(q, vs);
    lemma_push_all_appends(Seq::empty(), vs);
    assert(Seq::<T>::empty() + vs =~= vs);
    lemma_drain_in_order(vs.drop_first());
    lemma_drain_in_order(vs.push(x));
}

} // verus!
