//! A first-in, first-out queue.
use std::collections::VecDeque;
use vstd::prelude::*;

verus! {

/// The queue after `value` has been appended at its tail.
pub open spec fn after_push<T>(q: Seq<T>, value: T) -> Seq<T> {
    q.push(value)
}

/// The queue after a pop: the head removed, an empty queue left as it is.
pub open spec fn after_pop<T>(q: Seq<T>) -> Seq<T> {
    if q.len() > 0 {
        q.drop_first()
    } else {
        q
    }
}

/// The element at the head, if any: what a pop hands out.
pub open spec fn head_of<T>(q: Seq<T>) -> Option<T> {
    if q.len() > 0 {
        Some(q[0])
    } else {
        None
    }
}

/// The element at the tail, if any.
pub open spec fn tail_of<T>(q: Seq<T>) -> Option<T> {
    if q.len() > 0 {
        Some(q.last())
    } else {
        None
    }
}

/// The queue after every element of `values` was pushed, in order.
pub open spec fn push_all<T>(q: Seq<T>, values: Seq<T>) -> Seq<T>
    decreases values.len(),
{
    if values.len() == 0 {
        q
    } else {
        after_push(push_all(q, values.drop_last()), values.last())
    }
}

/// The values handed out by `n` pops in a row, in the order they came out.
pub open spec fn pop_n<T>(q: Seq<T>, n: nat) -> Seq<Option<T>>
    decreases n,
{
    if n == 0 {
        Seq::empty()
    } else {
        seq![head_of(q)] + pop_n(after_pop(q), (n - 1) as nat)
    }
}

/// The queue left after `n` pops in a row.
pub open spec fn after_pops<T>(q: Seq<T>, n: nat) -> Seq<T>
    decreases n,
{
    if n == 0 {
        q
    } else {
        after_pops(after_pop(q), (n - 1) as nat)
    }
}

/// A FIFO queue: `push` appends at the tail, `pop` removes the head.
pub struct Queue<T> {
    items: VecDeque<T>,
}

impl<T> View for Queue<T> {
    type V = Seq<T>;

    /// The elements from head to tail.
    closed spec fn view(&self) -> Seq<T> {
        self.items@
    }
}

impl<T> Default for Queue<T> {
    fn default() -> (r: Self)
        ensures
            r@ == Seq::<T>::empty(),
    {
        Queue::new()
    }
}

impl<T> Queue<T> {
    /// An empty queue.
    pub fn new() -> (r: Self)
        ensures
            r@ == Seq::<T>::empty(),
    {
        Queue { items: VecDeque::new() }
    }

    /// Appends `value` at the tail.
    pub fn push(&mut self, value: T)
        ensures
            final(self)@ == after_push(old(self)@, value),
    {
        self.items.push_back(value);
    }

    /// Removes and returns the head; `None`, and no change, on an empty queue.
    pub fn pop(&mut self) -> (r: Option<T>)
        ensures
            r == head_of(old(self)@),
            final(self)@ == after_pop(old(self)@),
    {
        self.items.pop_front()
    }

    /// True exactly when no element remains.
    pub fn is_empty(&self) -> (r: bool)
        ensures
            r == (self@.len() == 0),
    {
        self.items.len() == 0
    }

    /// The number of elements.
    pub fn len(&self) -> (r: usize)
        ensures
            r == self@.len(),
    {
        self.items.len()
    }

    /// The element at the head, which the next `pop` returns.
    pub fn head(&self) -> (r: Option<&T>)
        ensures
            r is None <==> head_of(self@) is None,
            r matches Some(x) ==> head_of(self@) == Some(*x),
    {
        if self.items.len() > 0 {
            Some(&self.items[0])
        } else {
            None
        }
    }

    /// The element at the tail, the one pushed last.
    pub fn tail(&self) -> (r: Option<&T>)
        ensures
            r is None <==> tail_of(self@) is None,
            r matches Some(x) ==> tail_of(self@) == Some(*x),
    {
        let n = self.items.len();
        if n > 0 {
            Some(&self.items[n - 1])
        } else {
            None
        }
    }
}

/// Pushing the values one by one appends them, in order, at the tail.
pub proof fn lemma_push_all_appends<T>(q: Seq<T>, values: Seq<T>)
    ensures
        push_all(q, values) == q + values,
    decreases values.len(),
{
    if values.len() > 0 {
        lemma_push_all_appends(q, values.drop_last());
        assert(q + values == (q + values.drop_last()).push(values.last()));
    }
}

/// Popping `n` times from a queue of at least `n` elements hands out its first
/// `n` elements in order and leaves the rest.
pub proof fn lemma_pop_n_takes_prefix<T>(q: Seq<T>, n: nat)
    requires
        n <= q.len(),
    ensures
        pop_n(q, n) == q.take(n as int).map_values(|x: T| Some(x)),
    decreases n,
{
    if n > 0 {
        lemma_pop_n_takes_prefix(after_pop(q), (n - 1) as nat);
        assert(pop_n(q, n) =~= q.take(n as int).map_values(|x: T| Some(x)));
    }
}

/// Popping `n` times from a queue of at least `n` elements leaves all but its
/// first `n` elements.
pub proof fn lemma_after_pops_skips<T>(q: Seq<T>, n: nat)
    requires
        n <= q.len(),
    ensures
        after_pops(q, n) == q.skip(n as int),
    decreases n,
{
    if n > 0 {
        lemma_after_pops_skips(after_pop(q), (n - 1) as nat);
        assert(after_pop(q).skip(n - 1) =~= q.skip(n as int));
    }
}

/// First in, first out: after the values are pushed onto an empty queue, as
/// many pops hand them back in the order they were pushed and leave the queue
/// empty, so that one more pop hands out nothing.
pub proof fn lemma_fifo<T>(values: Seq<T>)
    ensures
        pop_n(push_all(Seq::<T>::empty(), values), values.len()) == values.map_values(
            |x: T| Some(x),
        ),
        after_pops(push_all(Seq::<T>::empty(), values), values.len()).len() == 0,
        head_of(after_pops(push_all(Seq::<T>::empty(), values), values.len())) is None,
{
    lemma_push_all_appends(Seq::<T>::empty(), values);
    assert(Seq::<T>::empty() + values =~= values);
    lemma_after_pops_skips(values, values.len());
    lemma_pop_n_takes_prefix(values, values.len());
    assert(values.take(values.len() as int) =~= values);
}

/// Popping the last element leaves a queue with neither head nor tail.
pub proof fn lemma_pop_last_empties<T>(q: Seq<T>)
    requires
        q.len() == 1,
    ensures
        head_of(q) == Some(q[0]),
        after_pop(q).len() == 0,
        head_of(after_pop(q)) is None,
        tail_of(after_pop(q)) is None,
{
}

} // verus!
