//! The rotation schedule: a state machine that rebuilds a queue's front list
//! (old front followed by the reversed rear) one bounded step at a time.
use crate::list::{cons_, Ptr};
use vstd::prelude::*;

verus! {

/// Where a rotation stands.
///
/// `Reverse(n, x, fp, y, rp)` moves one node of `x` onto `fp` and one node of
/// `y` onto `rp` per step; `Concat(n, fp, acc)` moves nodes of `fp` onto
/// `acc`; `Done(acc)` holds the finished front. In both running phases `n`
/// counts the nodes of `fp` that still belong to the queue.
pub enum State<T> {
    Empty,
    Reverse(usize, Ptr<T>, Ptr<T>, Ptr<T>, Ptr<T>),
    Concat(usize, Ptr<T>, Ptr<T>),
    Done(Ptr<T>),
}

/// Reversing a sequence with a new first element puts it last.
pub proof fn lemma_reverse_cons<A>(a: A, s: Seq<A>)
    ensures
        (seq![a] + s).reverse() == s.reverse().push(a),
{
    assert((seq![a] + s).reverse() =~= s.reverse().push(a));
}

/// Taking `n + 1` elements of a sequence with a new first element.
pub proof fn lemma_take_cons<A>(a: A, s: Seq<A>, n: int)
    requires
        0 <= n <= s.len(),
    ensures
        (seq![a] + s).take(n + 1) == seq![a] + s.take(n),
{
    assert((seq![a] + s).take(n + 1) =~= seq![a] + s.take(n));
}

impl<T> State<T> {
    /// The front list that the rotation produces once it is finished.
    pub open spec fn result(&self) -> Seq<T> {
        match self {
            State::Empty => Seq::empty(),
            State::Reverse(n, x, fp, y, rp) => fp.to_seq().take(*n as int).reverse() + x.to_seq()
                + y.to_seq().reverse() + rp.to_seq(),
            State::Concat(n, fp, acc) => fp.to_seq().take(*n as int).reverse() + acc.to_seq(),
            State::Done(acc) => acc.to_seq(),
        }
    }

    /// The number of steps left before the schedule reaches `Done`.
    pub open spec fn work(&self) -> nat {
        match self {
            State::Empty => 0,
            State::Reverse(n, x, _, _, _) => 2 * x.to_seq().len() + *n as nat + 2,
            State::Concat(n, _, _) => *n as nat + 1,
            State::Done(_) => 0,
        }
    }

    /// The shape that lets every step go through.
    pub open spec fn ok(&self) -> bool {
        match self {
            State::Reverse(n, x, fp, y, _) => y.to_seq().len() == x.to_seq().len() + 1 && *n
                <= fp.to_seq().len() && *n + x.to_seq().len() <= usize::MAX,
            State::Concat(n, fp, acc) => *n <= fp.to_seq().len() && acc.to_seq().len() > 0,
            _ => true,
        }
    }

    /// How the schedule stands against a visible front of `k` elements:
    /// every node that it still has to move out of the old front is among them.
    pub open spec fn fits(&self, k: nat) -> bool {
        match self {
            State::Reverse(n, x, _, _, _) => k == *n + x.to_seq().len(),
            State::Concat(n, _, _) => *n <= k,
            _ => true,
        }
    }

    /// A running phase has moved at least one node of the old front.
    pub open spec fn started(&self) -> bool {
        match self {
            State::Reverse(n, _, _, _, _) => *n >= 1,
            _ => true,
        }
    }

    /// `r` is the state that one unit of work leads to from `self`.
    ///
    /// Reversing with nodes left in `x` moves the head of `x` onto `fp` and
    /// the head of `y` onto `rp`, and counts one more node. Reversing with `x`
    /// used up and one node left in `y` hands over to concatenating, with
    /// `fp` as the source and that node in front of `rp` as the accumulator.
    /// Concatenating with nothing left to move is done; otherwise it moves
    /// the head of the source onto the accumulator and counts one less.
    /// Any other state stays as it is.
    pub open spec fn steps_to(&self, r: Self) -> bool {
        match self {
            State::Reverse(n, x, fp, y, rp) => if x.to_seq().len() > 0 {
                &&& r matches State::Reverse(n2, x2, fp2, y2, rp2)
                &&& n2 == *n + 1
                &&& x2.to_seq() == x.to_seq().drop_first()
                &&& fp2.to_seq() == seq![x.to_seq()[0]] + fp.to_seq()
                &&& y2.to_seq() == y.to_seq().drop_first()
                &&& rp2.to_seq() == seq![y.to_seq()[0]] + rp.to_seq()
            } else if y.to_seq().len() == 1 {
                &&& r matches State::Concat(n2, src, acc)
                &&& n2 == *n
                &&& src == *fp
                &&& acc.to_seq() == seq![y.to_seq()[0]] + rp.to_seq()
            } else {
                r == *self
            },
            State::Concat(n, src, acc) => if *n == 0 {
                r == State::Done(*acc)
            } else {
                &&& r matches State::Concat(n2, src2, acc2)
                &&& n2 == *n - 1
                &&& src2.to_seq() == src.to_seq().drop_first()
                &&& acc2.to_seq() == seq![src.to_seq()[0]] + acc.to_seq()
            },
            _ => r == *self,
        }
    }

    /// `r` is what taking back one handed-out node of the old front makes of
    /// `self`.
    ///
    /// Concatenating with nothing left to move is done with the
    /// accumulator's first node dropped; any other running phase counts one
    /// node less and keeps its lists. `Empty` and `Done` stay as they are.
    pub open spec fn retracts_to(&self, r: Self) -> bool {
        match self {
            State::Reverse(n, x, fp, y, rp) => *n > 0 && r == State::Reverse(
                (*n - 1) as usize,
                *x,
                *fp,
                *y,
                *rp,
            ),
            State::Concat(n, src, acc) => if *n == 0 {
                &&& r matches State::Done(l)
                &&& l.to_seq() == acc.to_seq().drop_first()
            } else {
                r == State::Concat((*n - 1) as usize, *src, *acc)
            },
            _ => r == *self,
        }
    }

    /// A copy that shares every list with `self`.
    pub fn clone(&self) -> (r: Self)
        ensures
            r == *self,
    {
        match self {
            State::Empty => State::Empty,
            State::Reverse(n, a, b, c, d) => State::Reverse(
                *n,
                a.clone(),
                b.clone(),
                c.clone(),
                d.clone(),
            ),
            State::Concat(n, a, b) => State::Concat(*n, a.clone(), b.clone()),
            State::Done(t) => State::Done(t.clone()),
        }
    }

    /// Advances the schedule by one unit of work. `Empty` and `Done` stay as
    /// they are.
    pub fn next(&self) -> (r: Self)
        requires
            self.ok(),
        ensures
            self.steps_to(r),
            r.ok(),
            r.started(),
            forall|k: nat| self.fits(k) ==> r.fits(k),
            self.work() > 0 ==> r.work() + 1 == self.work() && r.result() == self.result(),
            self.work() == 0 ==> r == *self,
            (r is Empty) == (self is Empty),
    {
        match self {
            State::Reverse(n, x_ptr, fp, y_ptr, rp) if !x_ptr.is_empty() => {
                proof {
                    let xs = x_ptr.to_seq();
                    let ys = y_ptr.to_seq();
                    let fs = fp.to_seq();
                    lemma_take_cons(xs[0], fs, *n as int);
                    lemma_reverse_cons(xs[0], fs.take(*n as int));
                    lemma_reverse_cons(ys[0], ys.drop_first());
                    assert(xs =~= seq![xs[0]] + xs.drop_first());
                    assert(ys =~= seq![ys[0]] + ys.drop_first());
                }
                let r = State::Reverse(
                    n + 1,
                    x_ptr.tail(),
                    cons_(x_ptr.head(), fp.clone()),
                    y_ptr.tail(),
                    cons_(y_ptr.head(), rp.clone()),
                );
                proof {
                    assert(r.result() =~= self.result());
                }
                r
            },
            State::Reverse(n, _, fp, y_ptr, rp) if !y_ptr.is_empty() && y_ptr.tail().is_empty() => {
                proof {
                    let ys = y_ptr.to_seq();
                    assert(ys =~= seq![ys[0]]);
                    assert(ys.reverse() =~= seq![ys[0]]);
                }
                let r = State::Concat(*n, fp.clone(), cons_(y_ptr.head(), rp.clone()));
                proof {
                    assert(r.result() =~= self.result());
                }
                r
            },
            State::Concat(0, _, acc) => {
                proof {
                    assert(self.result() =~= acc.to_seq());
                }
                State::Done(acc.clone())
            },
            State::Concat(n, x_ptr, acc) => {
                proof {
                    let xs = x_ptr.to_seq();
                    let m = (*n - 1) as int;
                    assert(xs =~= seq![xs[0]] + xs.drop_first());
                    lemma_take_cons(xs[0], xs.drop_first(), m);
                    lemma_reverse_cons(xs[0], xs.drop_first().take(m));
                }
                let r = State::Concat(n - 1, x_ptr.tail(), cons_(x_ptr.head(), acc.clone()));
                proof {
                    assert(r.result() =~= self.result());
                }
                r
            },
            s => s.clone(),
        }
    }

    /// Takes back one node of the old front that the queue has just handed
    /// out, so that the rotation's result loses its first element.
    pub fn abort(&self) -> (r: Self)
        requires
            self.ok(),
            self.started(),
        ensures
            self.retracts_to(r),
            r.ok(),
            forall|k: nat| self.fits(k + 1) ==> r.fits(k),
            !(self is Empty) ==> !(r is Empty),
            (self is Reverse || self is Concat) ==> r.work() + 1 == self.work() && r.result()
                == self.result().drop_first(),
            (self is Empty || self is Done) ==> r == *self,
    {
        match self {
            State::Concat(0, _, tail) if !tail.is_empty() => {
                let r = State::Done(tail.tail());
                proof {
                    assert(self.result() =~= tail.to_seq());
                }
                r
            },
            State::Concat(n, fp, acc) => {
                proof {
                    let fs = fp.to_seq();
                    let m = (*n - 1) as int;
                    assert(fs.take(*n as int) =~= fs.take(m).push(fs[m]));
                    assert(fs.take(*n as int).reverse() =~= seq![fs[m]] + fs.take(m).reverse());
                }
                let r = State::Concat(n - 1, fp.clone(), acc.clone());
                proof {
                    assert(r.result() =~= self.result().drop_first());
                }
                r
            },
            State::Reverse(n, f, fp, r, rp) => {
                proof {
                    let fs = fp.to_seq();
                    let m = (*n - 1) as int;
                    assert(fs.take(*n as int) =~= fs.take(m).push(fs[m]));
                    assert(fs.take(*n as int).reverse() =~= seq![fs[m]] + fs.take(m).reverse());
                }
                let s = State::Reverse(n - 1, f.clone(), fp.clone(), r.clone(), rp.clone());
                proof {
                    assert(s.result() =~= self.result().drop_first());
                }
                s
            },
            s => s.clone(),
        }
    }
}

} // verus!
