//! The chain of nodes and the operations on it.

use vstd::prelude::*;

verus! {

/// One link of the chain: a borrowed item and exclusive ownership of the
/// rest of the chain, if any.
pub struct Node<'a, T> {
    pub item: &'a T,
    pub next: Option<Box<Node<'a, T>>>,
}

/// A singly-linked list that borrows its items from the caller.
pub struct List<'a, T> {
    pub head: Option<Box<Node<'a, T>>>,
}

impl<'a, T> Node<'a, T> {
    /// The items held by this node and everything after it, front first.
    pub open spec fn seq_of(self) -> Seq<T>
        decreases self,
    {
        match self.next {
            None => seq![*self.item],
            Some(n) => seq![*self.item] + (*n).seq_of(),
        }
    }
}

impl<'a, T> View for Node<'a, T> {
    type V = Seq<T>;

    open spec fn view(&self) -> Seq<T> {
        self.seq_of()
    }
}

impl<'a, T> View for List<'a, T> {
    type V = Seq<T>;

    /// The items of the list, front first.
    open spec fn view(&self) -> Seq<T> {
        match self.head {
            None => Seq::empty(),
            Some(n) => (*n).seq_of(),
        }
    }
}

impl<'a, T> Node<'a, T> {
    /// A node holding `item` with nothing after it.
    fn new(item: &'a T) -> (r: Self)
        ensures
            r@ == seq![*item],
    {
        Node { item, next: None }
    }

    /// Appends a node holding `item` after the last node of the chain.
    fn push_back(&mut self, item: &'a T)
        ensures
            final(self)@ == old(self)@.push(*item),
        decreases *old(self),
    {
        match &mut self.next {
            None => {
                self.next = Some(Box::new(Node::new(item)));
            },
            Some(rest) => {
                rest.push_back(item);
            },
        }
    }

    /// Detaches the last node of the chain after this one.
    fn pop_back(&mut self)
        requires
            old(self).next is Some,
        ensures
            final(self)@ == old(self)@.drop_last(),
        decreases *old(self),
    {
        let next_is_last = match &self.next {
            Some(rest) => rest.next.is_none(),
            None => false,
        };
        if next_is_last {
            self.next = None;
            proof {
                let rest = *old(self).next.unwrap();
                assert(rest.seq_of() == seq![*rest.item]);
                assert(self@ =~= old(self)@.drop_last());
            }
        } else {
            match &mut self.next {
                Some(rest) => rest.pop_back(),
                None => {},
            }
            proof {
                assert(self@ =~= old(self)@.drop_last());
            }
        }
    }

    /// Counts this node and everything after it.
    fn count(&self) -> (n: usize)
        requires
            self@.len() <= usize::MAX,
        ensures
            n == self@.len(),
        decreases *self,
    {
        match &self.next {
            None => 1,
            Some(rest) => 1 + rest.count(),
        }
    }
}

impl<'a, T> List<'a, T> {
    /// Returns an empty list.
    pub fn new() -> (r: Self)
        ensures
            r@ == Seq::<T>::empty(),
    {
        List { head: None }
    }

    /// Counts the nodes of the chain.
    pub fn length(&self) -> (n: usize)
        requires
            self@.len() <= usize::MAX,
        ensures
            n == self@.len(),
    {
        match &self.head {
            None => 0,
            Some(node) => node.count(),
        }
    }

    /// Appends a new node holding `item` at the end of the chain.
    pub fn push(&mut self, item: &'a T)
        ensures
            final(self)@ == old(self)@.push(*item),
            final(self)@.len() == old(self)@.len() + 1,
    {
        match &mut self.head {
            None => {
                self.head = Some(Box::new(Node::new(item)));
            },
            Some(node) => {
                node.push_back(item);
            },
        }
    }

    /// Removes the last node of the chain; on an empty list this is a no-op.
    pub fn pop(&mut self)
        ensures
            old(self)@.len() == 0 ==> final(self)@ == old(self)@,
            old(self)@.len() > 0 ==> final(self)@ == old(self)@.drop_last(),
            final(self)@.len() == if old(self)@.len() == 0 {
                0nat
            } else {
                (old(self)@.len() - 1) as nat
            },
    {
        let head_is_last = match &self.head {
            Some(node) => node.next.is_none(),
            None => false,
        };
        if head_is_last {
            self.head = None;
        } else {
            match &mut self.head {
                Some(node) => node.pop_back(),
                None => {},
            }
        }
    }
}

/// The length of a list after running `ops` from empty, where `true` stands
/// for a push and `false` for a pop; a pop of an empty list has no effect.
pub open spec fn length_after(ops: Seq<bool>) -> nat
    decreases ops.len(),
{
    if ops.len() == 0 {
        0
    } else {
        let prev: nat = length_after(ops.drop_last());
        if ops.last() {
            prev + 1
        } else if prev == 0 {
            0
        } else {
            (prev - 1) as nat
        }
    }
}

/// How many of `ops` are pushes.
pub open spec fn count_pushes(ops: Seq<bool>) -> nat
    decreases ops.len(),
{
    if ops.len() == 0 {
        0
    } else {
        count_pushes(ops.drop_last()) + if ops.last() {
            1nat
        } else {
            0nat
        }
    }
}

/// How many of `ops` are pops.
pub open spec fn count_pops(ops: Seq<bool>) -> nat
    decreases ops.len(),
{
    if ops.len() == 0 {
        0
    } else {
        count_pops(ops.drop_last()) + if ops.last() {
            0nat
        } else {
            1nat
        }
    }
}

/// One step of the run: a push takes the length from `n` to `n + 1`; a pop
/// takes it to `n - 1`, except that popping at length 0 leaves it at 0.
/// Together with the contracts of `push` and `pop` this ties the length of a
/// live list to `length_after` of the operations performed on it so far.
pub proof fn lemma_length_after_step(ops: Seq<bool>, op: bool)
    ensures
        length_after(ops.push(op)) == if op {
            length_after(ops) + 1
        } else if length_after(ops) == 0 {
            0
        } else {
            (length_after(ops) - 1) as nat
        },
{
    assert(ops.push(op).drop_last() =~= ops);
}

/// After any sequence of pushes and pops, the length is never more than the
/// number of pushes, and never less than pushes minus pops: each pop lowers
/// the length by at most one, and a pop of an empty list is a no-op.
pub proof fn lemma_length_after_bounds(ops: Seq<bool>)
    ensures
        length_after(ops) <= count_pushes(ops),
        length_after(ops) + count_pops(ops) >= count_pushes(ops),
    decreases ops.len(),
{
    if ops.len() > 0 {
        lemma_length_after_bounds(ops.drop_last());
    }
}

/// Where no prefix of `ops` has more pops than pushes, no pop ever meets an
/// empty list, and the final length is exactly pushes minus pops.
pub proof fn lemma_length_after_no_underflow(ops: Seq<bool>)
    requires
        forall|i: int|
            0 <= i <= ops.len() ==> count_pops(#[trigger] ops.take(i)) <= count_pushes(
                ops.take(i),
            ),
    ensures
        length_after(ops) == count_pushes(ops) - count_pops(ops),
    decreases ops.len(),
{
    if ops.len() > 0 {
        let prefix = ops.drop_last();
        assert forall|i: int|
            0 <= i <= prefix.len() implies count_pops(#[trigger] prefix.take(i))
            <= count_pushes(prefix.take(i)) by {
            assert(prefix.take(i) =~= ops.take(i));
        }
        lemma_length_after_no_underflow(prefix);
        assert(ops.take(ops.len() as int) =~= ops);
    }
}

} // verus!
