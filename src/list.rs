//! Immutable singly-linked lists whose tails are shared between versions.
use std::rc::Rc;
use vstd::prelude::*;

verus! {

/// A persistent list: a node holds a shared value and a shared tail.
pub enum List<T> {
    Nil,
    Cons(Rc<T>, Rc<List<T>>),
}

/// A shared pointer to a list.
pub type Ptr<T> = Rc<List<T>>;

impl<T> List<T> {
    /// The elements of the list, from the head on.
    pub open spec fn to_seq(&self) -> Seq<T>
        decreases self,
    {
        match self {
            List::Nil => Seq::empty(),
            List::Cons(h, t) => seq![**h].add((**t).to_seq()),
        }
    }

    /// A new node with `x` in front of the shared list `tail`.
    pub fn cons(x: T, tail: Ptr<T>) -> (r: Self)
        ensures
            r.to_seq() == seq![x].add(tail.to_seq()),
    {
        List::Cons(Rc::new(x), tail)
    }

    /// Whether the list has no node.
    pub fn is_empty(&self) -> (r: bool)
        ensures
            r == (self.to_seq().len() == 0),
    {
        match self {
            List::Nil => true,
            List::Cons(_, _) => false,
        }
    }

    /// The shared suffix after the first node.
    pub fn tail(&self) -> (r: Ptr<T>)
        requires
            self.to_seq().len() > 0,
        ensures
            r.to_seq() == self.to_seq().drop_first(),
    {
        match self {
            List::Nil => unreached(),
            List::Cons(_, t) => t.clone(),
        }
    }

    /// The shared value of the first node.
    pub fn head(&self) -> (r: Rc<T>)
        requires
            self.to_seq().len() > 0,
        ensures
            *r == self.to_seq()[0],
    {
        match self {
            List::Nil => unreached(),
            List::Cons(h, _) => h.clone(),
        }
    }
}

/// A new shared node with the shared value `x` in front of `tail`.
pub fn cons_<T>(x: Rc<T>, tail: Ptr<T>) -> (r: Ptr<T>)
    ensures
        r.to_seq() == seq![*x].add(tail.to_seq()),
{
    Rc::new(List::Cons(x, tail))
}

} // verus!
