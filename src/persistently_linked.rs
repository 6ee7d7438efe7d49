//! An immutable singly linked list whose versions share their tails through
//! reference counting.
use std::rc::Rc;
use vstd::prelude::*;

verus! {

/// Relies on `Rc::clone`: the new handle points at the same value as `this`.
#[verifier::external_body]
fn rc_clone<T>(this: &Rc<T>) -> (r: Rc<T>)
    ensures
        r == *this,
{
    Rc::clone(this)
}

/// One cell of a list: a value and a shared handle on the cells after it.
struct Node<T> {
    elem: T,
    next: Option<Rc<Node<T>>>,
}

/// An immutable singly linked list whose versions share their tails.
pub struct List<T> {
    head: Option<Rc<Node<T>>>,
}

/// The values of a chain of shared cells, from its first cell to its last.
closed spec fn chain<T>(link: Option<Rc<Node<T>>>) -> Seq<T>
    decreases link,
{
    match link {
        None => Seq::empty(),
        Some(node) => seq![node.elem] + chain(node.next),
    }
}

impl<T> View for List<T> {
    type V = Seq<T>;

    /// The values from the head on.
    closed spec fn view(&self) -> Seq<T> {
        chain(self.head)
    }
}

/// The first of `s`, if any.
pub open spec fn first_of<T>(s: Seq<T>) -> Option<T> {
    if s.len() == 0 {
        None
    } else {
        Some(s[0])
    }
}

/// `s` without its first value; an empty `s` stays empty.
pub open spec fn after_first<T>(s: Seq<T>) -> Seq<T> {
    if s.len() == 0 {
        s
    } else {
        s.drop_first()
    }
}

/// The values from the head on after putting each of `vs`, in order, in front of `s`.
pub open spec fn prepended_all<T>(s: Seq<T>, vs: Seq<T>) -> Seq<T>
    decreases vs.len(),
{
    if vs.len() == 0 {
        s
    } else {
        seq![vs.last()] + prepended_all(s, vs.drop_last())
    }
}

/// Putting `v1, ..., vn` in turn in front of the empty list gives the list
/// `vn, ..., v1`.
pub proof fn lemma_prepends_reverse<T>(vs: Seq<T>)
    ensures
        prepended_all(Seq::empty(), vs) == vs.reverse(),
    decreases vs.len(),
{
    if vs.len() > 0 {
        lemma_prepends_reverse(vs.drop_last());
        assert(prepended_all(Seq::empty(), vs) =~= vs.reverse());
    } else {
        assert(vs.reverse() =~= Seq::<T>::empty());
    }
}

/// Dropping the head of the empty list gives the empty list; dropping the head
/// of any other list leaves its second value, if it has one, at the head.
pub proof fn lemma_head_after_tail<T>(s: Seq<T>)
    ensures
        s.len() == 0 ==> after_first(s).len() == 0,
        first_of(after_first(s)) == (if s.len() >= 2 {
            Some(s[1])
        } else {
            None
        }),
{
}

fn share<T>(link: &Option<Rc<Node<T>>>) -> (r: Option<Rc<Node<T>>>)
    ensures
        r == *link,
{
    match link {
        None => None,
        Some(node) => Some(rc_clone(node)),
    }
}

impl<T> List<T> {
    /// The empty list.
    pub fn new() -> (r: Self)
        ensures
            r@ == Seq::<T>::empty(),
    {
        List { head: None }
    }

    /// A new list with `elem` in front of this one's values; this list stays
    /// as it was and shares its cells with the new one.
    pub fn append(&self, elem: T) -> (r: List<T>)
        ensures
            r@ == seq![elem] + self@,
    {
        List { head: Some(Rc::new(Node { elem, next: share(&self.head) })) }
    }

    /// The list after the head, sharing its cells; the empty list stays empty.
    pub fn tail(&self) -> (r: List<T>)
        ensures
            r@ == after_first(self@),
    {
        match &self.head {
            None => List { head: None },
            Some(node) => List { head: share(&node.next) },
        }
    }

    /// The first value, if any.
    pub fn head(&self) -> (r: Option<&T>)
        ensures
            r is None <==> first_of(self@) is None,
            r is Some ==> Some(*r->0) == first_of(self@),
    {
        match &self.head {
            None => None,
            Some(node) => Some(&node.elem),
        }
    }

    /// Lends the values from the head on.
    pub fn iter(&self) -> (r: Iter<'_, T>)
        ensures
            r@ == self@,
    {
        match &self.head {
            None => Iter { next: None },
            Some(node) => Iter { next: Some(&**node) },
        }
    }
}

/// Borrows of a list's values, from the head on.
pub struct Iter<'a, T> {
    next: Option<&'a Node<T>>,
}

impl<'a, T> View for Iter<'a, T> {
    type V = Seq<T>;

    /// The values not yet lent, next first.
    closed spec fn view(&self) -> Seq<T> {
        match self.next {
            None => Seq::empty(),
            Some(node) => seq![node.elem] + chain(node.next),
        }
    }
}

impl<'a, T> Iter<'a, T> {
    /// The next value, or `None` once all have been lent.
    pub fn next(&mut self) -> (r: Option<&'a T>)
        ensures
            r is None <==> old(self)@.len() == 0,
            r is Some ==> *r->0 == old(self)@[0],
            final(self)@ == after_first(old(self)@),
    {
        match self.next {
            None => None,
            Some(node) => {
                self.next = match &node.next {
                    None => None,
                    Some(after) => Some(&**after),
                };
                Some(&node.elem)
            },
        }
    }
}

} // verus!
