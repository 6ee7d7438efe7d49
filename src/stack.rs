//! A mutable last-in, first-out stack over a chain of owned cells, with
//! iteration by value, by shared borrow and by exclusive borrow.
use vstd::prelude::*;

verus! {

/// One cell of the chain: a value and the cell below it.
pub struct Node<T> {
    value: T,
    next: Option<Box<Node<T>>>,
}

/// A last-in, first-out stack over a singly linked chain of owned cells.
pub struct Stack<T> {
    head: Option<Box<Node<T>>>,
}

/// The values of a chain, from its first cell to its last.
pub closed spec fn chain<T>(link: Option<Box<Node<T>>>) -> Seq<T>
    decreases link,
{
    match link {
        None => Seq::empty(),
        Some(node) => seq![node.value] + chain(node.next),
    }
}

impl<T> View for Stack<T> {
    type V = Seq<T>;

    /// The values from the top down.
    closed spec fn view(&self) -> Seq<T> {
        chain(self.head)
    }
}

/// The value on top of a stack whose values from the top down are `s`, if any.
pub open spec fn top<T>(s: Seq<T>) -> Option<T> {
    if s.len() == 0 {
        None
    } else {
        Some(s[0])
    }
}

/// What is left of `s` once its top is taken off; an empty `s` stays empty.
pub open spec fn rest<T>(s: Seq<T>) -> Seq<T> {
    if s.len() == 0 {
        s
    } else {
        s.drop_first()
    }
}

/// The values from the top down after pushing each of `vs`, in order, onto `s`.
pub open spec fn pushed_all<T>(s: Seq<T>, vs: Seq<T>) -> Seq<T>
    decreases vs.len(),
{
    if vs.len() == 0 {
        s
    } else {
        seq![vs.last()] + pushed_all(s, vs.drop_last())
    }
}

/// What `n` successive pops return from a stack holding `s`, first pop first.
pub open spec fn popped<T>(s: Seq<T>, n: nat) -> Seq<Option<T>>
    decreases n,
{
    if n == 0 {
        Seq::empty()
    } else {
        seq![top(s)] + popped(rest(s), (n - 1) as nat)
    }
}

/// Pushing `v1, ..., vn` onto an empty stack leaves them from the top down as
/// `vn, ..., v1`.
pub proof fn lemma_pushed_all_reverses<T>(vs: Seq<T>)
    ensures
        pushed_all(Seq::empty(), vs) == vs.reverse(),
    decreases vs.len(),
{
    if vs.len() > 0 {
        lemma_pushed_all_reverses(vs.drop_last());
        assert(pushed_all(Seq::empty(), vs) =~= vs.reverse());
    } else {
        assert(vs.reverse() =~= Seq::<T>::empty());
    }
}

/// Popping a stack one more time than it has values returns each value from the
/// top down, then `None`.
pub proof fn lemma_popped_all<T>(s: Seq<T>)
    ensures
        popped(s, s.len() + 1) == s.map_values(|v: T| Some(v)) + seq![None::<T>],
    decreases s.len(),
{
    if s.len() > 0 {
        lemma_popped_all(s.drop_first());
        assert((s.len() + 1 - 1) as nat == s.drop_first().len() + 1);
        assert(popped(s, s.len() + 1) =~= s.map_values(|v: T| Some(v)) + seq![None::<T>]);
    } else {
        assert(popped(rest(s), 0) == Seq::<Option<T>>::empty());
        assert(s.map_values(|v: T| Some(v)) =~= Seq::<Option<T>>::empty());
        assert(popped(s, 1) =~= s.map_values(|v: T| Some(v)) + seq![None::<T>]);
    }
}

/// After pushing `v1, ..., vn` onto an empty stack, `n` pops return
/// `vn, ..., v1` and one more pop returns `None`.
pub proof fn lemma_pops_reverse_pushes<T>(vs: Seq<T>)
    ensures
        popped(pushed_all(Seq::empty(), vs), vs.len() + 1) == vs.reverse().map_values(
            |v: T| Some(v),
        ) + seq![None::<T>],
{
    lemma_pushed_all_reverses(vs);
    lemma_popped_all(vs.reverse());
}

impl<T> Stack<T> {
    /// An empty stack.
    pub fn new() -> (r: Self)
        ensures
            r@ == Seq::<T>::empty(),
    {
        Stack { head: None }
    }

    /// Puts `value` on top.
    pub fn push(&mut self, value: T)
        ensures
            final(self)@ == seq![value] + old(self)@,
    {
        let mut below: Option<Box<Node<T>>> = None;
        std::mem::swap(&mut below, &mut self.head);
        self.head = Some(Box::new(Node { value, next: below }));
    }

    /// Takes the value on top off the stack; `None` when it is empty.
    pub fn pop(&mut self) -> (r: Option<T>)
        ensures
            r == top(old(self)@),
            final(self)@ == rest(old(self)@),
    {
        let mut link: Option<Box<Node<T>>> = None;
        std::mem::swap(&mut link, &mut self.head);
        match link {
            None => None,
            Some(node) => {
                let node = *node;
                self.head = node.next;
                Some(node.value)
            },
        }
    }

    /// The value on top, left in place; `None` when the stack is empty.
    pub fn peek(&self) -> (r: Option<&T>)
        ensures
            r is None <==> self@.len() == 0,
            r is Some ==> Some(*r->0) == top(self@),
    {
        match &self.head {
            None => None,
            Some(node) => Some(&node.value),
        }
    }

    /// Hands the values out by value from the top down, emptying the stack.
    pub fn into_iter(self) -> (r: IntoIter<T>)
        ensures
            r@ == self@,
    {
        IntoIter(self)
    }

    /// Lends the values from the top down.
    pub fn iter(&self) -> (r: Iter<'_, T>)
        ensures
            r@ == self@,
    {
        match &self.head {
            None => Iter { next: None },
            Some(node) => Iter { next: Some(&**node) },
        }
    }
}

/// The values of a stack by value, from the top down.
pub struct IntoIter<T>(Stack<T>);

impl<T> View for IntoIter<T> {
    type V = Seq<T>;

    /// The values not yet handed out, next first.
    closed spec fn view(&self) -> Seq<T> {
        self.0@
    }
}

impl<T> IntoIter<T> {
    /// The next value, or `None` once all are out.
    pub fn next(&mut self) -> (r: Option<T>)
        ensures
            r == top(old(self)@),
            final(self)@ == rest(old(self)@),
    {
        self.0.pop()
    }
}

/// Borrows of a stack's values, from the top down.
pub struct Iter<'a, T> {
    next: Option<&'a Node<T>>,
}

impl<'a, T> View for Iter<'a, T> {
    type V = Seq<T>;

    /// The values not yet lent, next first.
    closed spec fn view(&self) -> Seq<T> {
        match self.next {
            None => Seq::empty(),
            Some(node) => seq![node.value] + chain(node.next),
        }
    }
}

impl<'a, T> Iter<'a, T> {
    /// The next value, or `None` once all have been lent.
    pub fn next(&mut self) -> (r: Option<&'a T>)
        ensures
            r is None <==> old(self)@.len() == 0,
            r is Some ==> Some(*r->0) == top(old(self)@),
            final(self)@ == rest(old(self)@),
    {
        match self.next {
            None => None,
            Some(node) => {
                self.next = match &node.next {
                    None => None,
                    Some(below) => Some(&**below),
                };
                Some(&node.value)
            },
        }
    }
}

/// Exclusive borrows of a stack's values, from the top down.
pub struct IterMut<'a, T> {
    next: Option<&'a mut Node<T>>,
}

impl<'a, T> View for IterMut<'a, T> {
    type V = Seq<T>;

    /// The values not yet lent, next first, as they stand now.
    closed spec fn view(&self) -> Seq<T> {
        match self.next {
            None => Seq::empty(),
            Some(node) => seq![node.value] + chain(node.next),
        }
    }
}

impl<'a, T> IterMut<'a, T> {
    /// The next value, or `None` once all have been lent.
    pub fn next(&mut self) -> (r: Option<&'a mut T>)
        ensures
            r is None <==> old(self)@.len() == 0,
            r is Some ==> Some(*r->0) == top(old(self)@),
            final(self)@ == rest(old(self)@),
    {
        let mut current: Option<&'a mut Node<T>> = None;
        std::mem::swap(&mut current, &mut self.next);
        match current {
            None => None,
            Some(node) => {
                self.next = match &mut node.next {
                    None => None,
                    Some(below) => Some(&mut **below),
                };
                Some(&mut node.value)
            },
        }
    }
}

impl<T> Stack<T> {
    /// Lends the values from the top down, each for change in place.
    pub fn iter_mut(&mut self) -> (r: IterMut<'_, T>)
        ensures
            r@ == old(self)@,
    {
        match &mut self.head {
            None => IterMut { next: None },
            Some(node) => IterMut { next: Some(&mut **node) },
        }
    }
}

impl<T> Drop for Stack<T> {
    fn drop(&mut self)
        ensures
            final(self)@ == Seq::<T>::empty(),
        opens_invariants none
        no_unwind
    {
        let mut current_link: Option<Box<Node<T>>> = None;
        std::mem::swap(&mut current_link, &mut self.head);
        loop
            decreases current_link,
        {
            match current_link {
                None => break,
                Some(mut node) => {
                    let mut rest: Option<Box<Node<T>>> = None;
                    std::mem::swap(&mut rest, &mut node.next);
                    current_link = rest;
                },
            }
        }

    }
}

} // verus!
