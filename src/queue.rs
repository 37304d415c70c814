//! The real-time persistent queue.
use crate::list::{List, Ptr};
use crate::schedule::{lemma_reverse_cons, State};
use std::rc::Rc;
use vstd::prelude::*;

verus! {

/// A persistent FIFO queue: the visible front list and its logical length,
/// the rotation schedule, and the rear list (newest first) with its length.
pub struct RTQ<T>(Ptr<T>, usize, State<T>, Ptr<T>, usize);

/// The logical front of a queue: the visible front list while no rotation
/// runs, else what the running rotation will produce.
pub open spec fn front_of<T>(f: Seq<T>, s: State<T>) -> Seq<T> {
    if s is Empty {
        f
    } else {
        s.result()
    }
}

/// What holds of the parts of a queue, where the schedule may still owe
/// `slack` more steps than the lengths allow.
pub open spec fn parts_wf<T>(f: Seq<T>, len_f: nat, s: State<T>, r: Seq<T>, len_r: nat, slack: nat) -> bool {
    &&& s.ok()
    &&& len_r == r.len()
    &&& len_f + len_r <= usize::MAX
    &&& len_f == front_of(f, s).len()
    &&& f.len() <= len_f
    &&& f == front_of(f, s).take(f.len() as int)
    &&& s.fits(f.len())
    &&& s.work() + len_r <= len_f + slack
}

/// Once the visible front is empty, the schedule is at most two steps from
/// its end.
proof fn lemma_empty_front_work<T>(s: State<T>)
    requires
        s.fits(0),
    ensures
        s.work() <= 2,
{
}

/// `s2` is where `s` stands after one unit of work, or after two when the
/// visible front holds `k == 0` nodes.
pub open spec fn advanced<T>(s: State<T>, s2: State<T>, k: nat) -> bool {
    if k == 0 {
        exists|s1: State<T>| s.steps_to(s1) && s1.steps_to(s2)
    } else {
        s.steps_to(s2)
    }
}

/// The steps left after `k` units of work on a schedule that owes `w`.
pub open spec fn work_after(w: nat, k: nat) -> nat {
    if w > k {
        (w - k) as nat
    } else {
        0
    }
}

/// Advances the schedule once, or twice when the visible front is empty, and
/// installs a finished rotation as the new front.
fn step<T>(f: Ptr<T>, len_f: usize, s: State<T>, r: Ptr<T>, len_r: usize) -> (q: RTQ<T>)
    requires
        parts_wf(f.to_seq(), len_f as nat, s, r.to_seq(), len_r as nat, 1),
        len_r <= len_f,
    ensures
        q.wf(),
        q@ == front_of(f.to_seq(), s) + r.to_seq().reverse(),
        q.1 == len_f,
        q.3 == r,
        q.4 == len_r,
        q.2.work() == work_after(s.work(), if f.to_seq().len() == 0 { 2 } else { 1 }),
        exists|s2: State<T>|
            {
                &&& #[trigger] advanced(s, s2, f.to_seq().len())
                &&& s2 matches State::Done(l) ==> q.0 == l && q.2 is Empty
                &&& !(s2 is Done) ==> q.0 == f && q.2 == s2
            },
{
    proof {
        if f.to_seq().len() == 0 {
            lemma_empty_front_work(s);
        }
    }
    let s1 = s.next();
    let s_ = if f.is_empty() {
        s1.next()
    } else {
        s1
    };
    proof {
        assert(s_ is Empty ==> s is Empty);
        assert(!(s is Empty) ==> s_.result() == s.result());
        assert(s_.work() + 1 <= s.work() || s_.work() == 0);
        assert(f.to_seq().len() == 0 ==> s_.work() == 0);
        assert(advanced(s, s_, f.to_seq().len()));
    }
    match s_ {
        State::Done(f) => {
            proof {
                assert(f.to_seq() =~= f.to_seq().take(f.to_seq().len() as int));
            }
            RTQ(f, len_f, State::Empty, r, len_r)
        },
        m => RTQ(f, len_f, m, r, len_r),
    }
}

/// Starts a rotation once the rear has grown longer than the front, then
/// advances the schedule.
fn balance<T>(f: Ptr<T>, len_f: usize, s: State<T>, r: Ptr<T>, len_r: usize) -> (q: RTQ<T>)
    requires
        parts_wf(f.to_seq(), len_f as nat, s, r.to_seq(), len_r as nat, 1),
        len_r <= len_f + 1,
        len_r > len_f ==> s is Empty,
    ensures
        q.wf(),
        q@ == front_of(f.to_seq(), s) + r.to_seq().reverse(),
        len_r <= len_f ==> q.1 == len_f && q.3 == r && q.4 == len_r,
        len_r > len_f ==> q.1 == len_f + len_r && q.4 == 0 && q.3.to_seq().len() == 0,
{
    if len_r <= len_f {
        step(f, len_f, s, r, len_r)
    } else {
        let empty = Rc::new(List::Nil);
        let s0 = State::Reverse(0, f.clone(), empty.clone(), r, empty.clone());
        proof {
            assert(s0.result() =~= front_of(f.to_seq(), s) + r.to_seq().reverse());
            assert(f.to_seq() =~= s0.result().take(f.to_seq().len() as int));
        }
        step(f, len_f + len_r, s0, empty, 0)
    }
}

impl<T> View for RTQ<T> {
    type V = Seq<T>;

    /// The queue's elements, oldest first.
    closed spec fn view(&self) -> Seq<T> {
        front_of(self.0.to_seq(), self.2) + self.3.to_seq().reverse()
    }
}

impl<T> RTQ<T> {
    /// The queue's internal invariant.
    pub closed spec fn wf(&self) -> bool {
        &&& !(self.2 is Done)
        &&& self.2.started()
        &&& parts_wf(self.0.to_seq(), self.1 as nat, self.2, self.3.to_seq(), self.4 as nat, 0)
        &&& self.4 <= self.1
        &&& (self.1 > 0 ==> self.0.to_seq().len() > 0)
    }

    /// The logical length of the front.
    pub closed spec fn front_len(&self) -> nat {
        self.1 as nat
    }

    /// The length of the rear.
    pub closed spec fn rear_len(&self) -> nat {
        self.4 as nat
    }

    /// The steps that the running rotation still has to take.
    pub closed spec fn pending_work(&self) -> nat {
        self.2.work()
    }

    proof fn lemma_len(&self)
        requires
            self.wf(),
        ensures
            self@.len() == self.front_len() + self.rear_len(),
    {
    }

    /// The empty queue.
    pub fn new() -> (q: Self)
        ensures
            q.wf(),
            q@ == Seq::<T>::empty(),
            q.front_len() == 0,
            q.rear_len() == 0,
    {
        let empty = Rc::new(List::Nil);
        let q = RTQ(empty.clone(), 0, State::Empty, empty.clone(), 0);
        proof {
            assert(q@ =~= Seq::<T>::empty());
            assert(q.0.to_seq() =~= q.0.to_seq().take(0));
        }
        q
    }

    /// Whether the queue holds no element.
    pub fn is_empty(&self) -> (b: bool)
        requires
            self.wf(),
        ensures
            b == (self@.len() == 0),
            b == (self.front_len() == 0),
    {
        proof {
            self.lemma_len();
        }
        self.1 == 0
    }

    /// The queue with `x` added at the back; `self` stays as it was.
    pub fn push(&self, x: T) -> (q: Self)
        requires
            self.wf(),
            self@.len() < usize::MAX,
        ensures
            q.wf(),
            q@ == self@.push(x),
            q.rear_len() <= q.front_len(),
            q.pending_work() + q.rear_len() <= q.front_len(),
    {
        proof {
            self.lemma_len();
        }
        let r = Rc::new(List::cons(x, self.3.clone()));
        proof {
            lemma_reverse_cons(x, self.3.to_seq());
        }
        let q = balance(self.0.clone(), self.1, self.2.clone(), r, self.4 + 1);
        proof {
            assert(q@ =~= self@.push(x));
        }
        q
    }

    /// The oldest element of a non-empty queue.
    pub fn front(&self) -> (x: &T)
        requires
            self.wf(),
            self@.len() > 0,
        ensures
            *x == self@[0],
    {
        proof {
            self.lemma_len();
            assert(self.0.to_seq()[0] == self@[0]);
        }
        match &*self.0 {
            List::Nil => unreached(),
            List::Cons(x, _) => &**x,
        }
    }

    /// The queue without its oldest element; `self` stays as it was.
    pub fn pop(&self) -> (q: Self)
        requires
            self.wf(),
            self@.len() > 0,
        ensures
            q.wf(),
            q@ == self@.drop_first(),
            q.rear_len() <= q.front_len(),
            q.pending_work() + q.rear_len() <= q.front_len(),
    {
        proof {
            self.lemma_len();
        }
        let RTQ(f, len_f, s, r, len_r) = self;
        let s1 = s.abort();
        let f1 = f.tail();
        proof {
            let fs = f.to_seq();
            assert(s1.fits((fs.len() - 1) as nat));
            assert(f1.to_seq() =~= front_of(f1.to_seq(), s1).take(f1.to_seq().len() as int));
            assert(front_of(f1.to_seq(), s1) =~= front_of(fs, *s).drop_first());
        }
        let q = balance(f1, len_f - 1, s1, r.clone(), *len_r);
        proof {
            assert(q@ =~= self@.drop_first());
        }
        q
    }
}

impl<T> Clone for RTQ<T> {
    fn clone(&self) -> (q: Self)
        ensures
            q == *self,
    {
        RTQ(self.0.clone(), self.1, self.2.clone(), self.3.clone(), self.4)
    }
}

} // verus!
