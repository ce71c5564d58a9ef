//! A verified generic singly linked list.
//!
//! A `LinkedList<T>` owns an optional head node; each `Node<T>` owns an
//! optional successor, so the structure is a strict forward chain with no
//! cycles. Every operation is specified against the list's view, the
//! sequence of stored values from head to tail. Position-based mutators
//! silently do nothing on an out-of-range index, while `get` reports an
//! out-of-range index with `None`.
use vstd::prelude::*;

verus! {

/// One chain element: a stored value and the ownership link to its successor
/// (`None` for the last element).
pub struct Node<T> {
    pub data: T,
    pub next: Option<Box<Node<T>>>,
}

/// A singly linked list: the sole owner of its chain, through the optional
/// head node (`None` when the list is empty).
pub struct LinkedList<T> {
    pub head: Option<Box<Node<T>>>,
}

impl<T> Node<T> {
    /// The values stored in an optional chain, head first.
    pub open spec fn opt_elems(node_opt: Option<Box<Node<T>>>) -> Seq<T>
        decreases node_opt,
    {
        match node_opt {
            None => Seq::empty(),
            Some(node) => node.elems(),
        }
    }

    /// The values stored in the chain starting at this node, head first.
    pub open spec fn elems(self) -> Seq<T>
        decreases self,
    {
        seq![self.data] + Node::<T>::opt_elems(self.next)
    }

    fn new(data: T) -> (node: Node<T>)
        ensures
            node.elems() == seq![data],
    {
        let node = Node { data, next: None };
        proof {
            assert(node.elems() =~= seq![data]);
        }
        node
    }

    /// Attaches a new node holding `data` at the end of the chain.
    fn push_tail(node: &mut Option<Box<Node<T>>>, data: T)
        ensures
            Node::<T>::opt_elems(*final(node)) == Node::<T>::opt_elems(*old(node)).push(data),
        decreases *old(node),
    {
        match node.take() {
            None => {
                *node = Some(Box::new(Node::new(data)));
                proof {
                    assert(Node::<T>::opt_elems(*node)
                        =~= Node::<T>::opt_elems(*old(node)).push(data));
                }
            }
            Some(mut boxed) => {
                Self::push_tail(&mut boxed.next, data);
                *node = Some(boxed);
                proof {
                    assert(Node::<T>::opt_elems(*node)
                        =~= Node::<T>::opt_elems(*old(node)).push(data));
                }
            }
        }
    }

    /// Splices a new node holding `data` in at position `index` of the chain,
    /// or leaves the chain unchanged when `index` lies past its end.
    fn insert_opt_at(node: &mut Option<Box<Node<T>>>, index: usize, data: T)
        ensures
            index <= Node::<T>::opt_elems(*old(node)).len() ==> Node::<T>::opt_elems(
                *final(node),
            ) == Node::<T>::opt_elems(*old(node)).insert(index as int, data),
            index > Node::<T>::opt_elems(*old(node)).len() ==> *final(node) == *old(node),
        decreases index,
    {
        if index == 0 {
            let rest = node.take();
            *node = Some(Box::new(Node { data, next: rest }));
            proof {
                assert(Node::<T>::opt_elems(*node)
                    =~= Node::<T>::opt_elems(*old(node)).insert(0, data));
            }
        } else {
            match node.take() {
                None => {
                }
                Some(mut boxed) => {
                    Self::insert_opt_at(&mut boxed.next, index - 1, data);
                    *node = Some(boxed);
                    proof {
                        if index <= Node::<T>::opt_elems(*old(node)).len() {
                            assert(Node::<T>::opt_elems(*node)
                                =~= Node::<T>::opt_elems(*old(node)).insert(index as int, data));
                        }
                    }
                }
            }
        }
    }

    /// Unlinks the node at position `index` of the chain, or leaves the chain
    /// unchanged when `index` lies past its end.
    fn delete_opt_at(node: &mut Option<Box<Node<T>>>, index: usize)
        ensures
            index < Node::<T>::opt_elems(*old(node)).len() ==> Node::<T>::opt_elems(
                *final(node),
            ) == Node::<T>::opt_elems(*old(node)).remove(index as int),
            index >= Node::<T>::opt_elems(*old(node)).len() ==> *final(node) == *old(node),
        decreases index,
    {
        if index == 0 {
            match node.take() {
                None => {
                }
                Some(boxed) => {
                    *node = boxed.next;
                    proof {
                        assert(Node::<T>::opt_elems(*node)
                            =~= Node::<T>::opt_elems(*old(node)).remove(0));
                    }
                }
            }
        } else {
            match node.take() {
                None => {
                }
                Some(mut boxed) => {
                    Self::delete_opt_at(&mut boxed.next, index - 1);
                    *node = Some(boxed);
                    proof {
                        if index < Node::<T>::opt_elems(*old(node)).len() {
                            assert(Node::<T>::opt_elems(*node)
                                =~= Node::<T>::opt_elems(*old(node)).remove(index as int));
                        }
                    }
                }
            }
        }
    }

    /// Replaces the value stored at position `index` of the chain, or leaves
    /// the chain unchanged when `index` lies past its end.
    fn update_opt_at(node: &mut Option<Box<Node<T>>>, index: usize, data: T)
        ensures
            index < Node::<T>::opt_elems(*old(node)).len() ==> Node::<T>::opt_elems(
                *final(node),
            ) == Node::<T>::opt_elems(*old(node)).update(index as int, data),
            index >= Node::<T>::opt_elems(*old(node)).len() ==> *final(node) == *old(node),
        decreases index,
    {
        match node.take() {
            None => {
            }
            Some(mut boxed) => {
                if index == 0 {
                    boxed.data = data;
                    *node = Some(boxed);
                    proof {
                        assert(Node::<T>::opt_elems(*node)
                            =~= Node::<T>::opt_elems(*old(node)).update(0, data));
                    }
                } else {
                    Self::update_opt_at(&mut boxed.next, index - 1, data);
                    *node = Some(boxed);
                    proof {
                        if index < Node::<T>::opt_elems(*old(node)).len() {
                            assert(Node::<T>::opt_elems(*node)
                                =~= Node::<T>::opt_elems(*old(node)).update(index as int, data));
                        }
                    }
                }
            }
        }
    }

    /// Borrows the value stored at position `index` of the chain, or reports
    /// with `None` that `index` lies past its end.
    fn get_opt_at(node: &Option<Box<Node<T>>>, index: usize) -> (r: Option<&T>)
        ensures
            match r {
                Some(v) => index < Node::<T>::opt_elems(*node).len() && *v == Node::<T>::opt_elems(
                    *node,
                )[index as int],
                None => index >= Node::<T>::opt_elems(*node).len(),
            },
        decreases node,
    {
        match node {
            None => None,
            Some(boxed) => {
                if index == 0 {
                    Some(&boxed.data)
                } else {
                    Self::get_opt_at(&boxed.next, index - 1)
                }
            }
        }
    }
}

impl<T> View for LinkedList<T> {
    type V = Seq<T>;

    open spec fn view(&self) -> Seq<T> {
        Node::<T>::opt_elems(self.head)
    }
}

impl<T> LinkedList<T> {
    /// Constructs the empty list.
    pub fn new() -> (list: LinkedList<T>)
        ensures
            list@ == Seq::<T>::empty(),
    {
        LinkedList { head: None }
    }

    /// Inserts `data` at the head: the new value becomes position 0 and every
    /// value already present moves one position later.
    pub fn insert(&mut self, data: T)
        ensures
            final(self)@ == seq![data] + old(self)@,
    {
        let rest = self.head.take();
        self.head = Some(Box::new(Node { data, next: rest }));
        proof {
            assert(self@ =~= seq![data] + old(self)@);
        }
    }

    /// Inserts `data` at the tail: the new value takes the last position and
    /// every value already present keeps its position.
    pub fn insert_at_tail(&mut self, data: T)
        ensures
            final(self)@ == old(self)@.push(data),
    {
        Node::<T>::push_tail(&mut self.head, data);
    }

    /// Inserts `data` at position `index`, pushing the former occupant of that
    /// position and everything after it one position later; `index` equal to
    /// the length appends at the tail. An `index` past the length leaves the
    /// list unchanged.
    pub fn insert_at_index(&mut self, index: usize, data: T)
        ensures
            index <= old(self)@.len() ==> final(self)@ == old(self)@.insert(index as int, data),
            index > old(self)@.len() ==> *final(self) == *old(self),
    {
        Node::<T>::insert_opt_at(&mut self.head, index, data);
    }

    /// Removes the value at position `index`, pulling everything after it one
    /// position earlier. An `index` at or past the length leaves the list
    /// unchanged.
    pub fn delete(&mut self, index: usize)
        ensures
            index < old(self)@.len() ==> final(self)@ == old(self)@.remove(index as int),
            index >= old(self)@.len() ==> *final(self) == *old(self),
    {
        Node::<T>::delete_opt_at(&mut self.head, index);
    }

    /// Replaces the value at position `index` with `data`; no other position
    /// changes. An `index` at or past the length leaves the list unchanged.
    pub fn update(&mut self, index: usize, data: T)
        ensures
            index < old(self)@.len() ==> final(self)@ == old(self)@.update(index as int, data),
            index >= old(self)@.len() ==> *final(self) == *old(self),
    {
        Node::<T>::update_opt_at(&mut self.head, index, data);
    }

    /// Borrows the value at position `index`, or returns `None` exactly when
    /// `index` is at or past the length; it never fails otherwise.
    pub fn get(&self, index: usize) -> (r: Option<&T>)
        ensures
            match r {
                Some(v) => index < self@.len() && *v == self@[index as int],
                None => index >= self@.len(),
            },
    {
        Node::<T>::get_opt_at(&self.head, index)
    }
}

/// The view of a list built from the empty list by a sequence of head
/// inserts: inserting the values of `values` with `LinkedList::insert`, in
/// order, yields a list whose view this is, by the `ensures` of `insert`.
pub open spec fn after_head_inserts<T>(values: Seq<T>) -> Seq<T>
    decreases values.len(),
{
    if values.len() == 0 {
        Seq::empty()
    } else {
        seq![values.last()] + after_head_inserts(values.drop_last())
    }
}

/// The view of a list built from the empty list by a sequence of tail
/// inserts: inserting the values of `values` with `insert_at_tail`, in
/// order, yields a list whose view this is, by the `ensures` of
/// `insert_at_tail`.
pub open spec fn after_tail_inserts<T>(values: Seq<T>) -> Seq<T>
    decreases values.len(),
{
    if values.len() == 0 {
        Seq::empty()
    } else {
        after_tail_inserts(values.drop_last()).push(values.last())
    }
}

/// A list built by head inserts holds the inserted values in reverse
/// insertion order.
pub proof fn lemma_head_inserts_reverse<T>(values: Seq<T>)
    ensures
        after_head_inserts(values) == values.reverse(),
    decreases values.len(),
{
    if values.len() == 0 {
        assert(after_head_inserts(values) =~= values.reverse());
    } else {
        lemma_head_inserts_reverse(values.drop_last());
        assert(after_head_inserts(values) =~= values.reverse());
    }
}

/// Law: after any sequence of head inserts, position 0 holds the most
/// recently inserted value and position n - 1 holds the first.
pub proof fn lemma_head_insert_order<T>(values: Seq<T>)
    requires
        values.len() > 0,
    ensures
        after_head_inserts(values).len() == values.len(),
        after_head_inserts(values)[0] == values[values.len() - 1],
        after_head_inserts(values)[values.len() - 1] == values[0],
{
    lemma_head_inserts_reverse(values);
}

/// Law: after any sequence of tail inserts, each position holds the value
/// inserted at that point of the sequence: the list reads in insertion
/// order.
pub proof fn lemma_tail_insert_order<T>(values: Seq<T>)
    ensures
        after_tail_inserts(values) == values,
    decreases values.len(),
{
    if values.len() == 0 {
        assert(after_tail_inserts(values) =~= values);
    } else {
        lemma_tail_insert_order(values.drop_last());
        assert(after_tail_inserts(values) =~= values);
    }
}

/// Law: inserting `x` at an in-range position `i` of a list with view `s`
/// puts `x` at position `i` and moves the former occupant of `i`, if any,
/// to position `i + 1`.
pub proof fn lemma_insert_then_get<T>(s: Seq<T>, i: int, x: T)
    requires
        0 <= i <= s.len(),
    ensures
        s.insert(i, x).len() == s.len() + 1,
        s.insert(i, x)[i] == x,
        i < s.len() ==> s.insert(i, x)[i + 1] == s[i],
{
    s.insert_ensures(i, x);
}

/// Law: deleting an in-range position `i` of a list with view `s` removes
/// exactly one element, keeps every position before `i` as it was, and
/// shifts every position after `i` left by one.
pub proof fn lemma_delete_shifts<T>(s: Seq<T>, i: int)
    requires
        0 <= i < s.len(),
    ensures
        s.remove(i).len() == s.len() - 1,
        forall|j: int| 0 <= j < i ==> #[trigger] s.remove(i)[j] == s[j],
        forall|j: int| i <= j < s.len() - 1 ==> #[trigger] s.remove(i)[j] == s[j + 1],
{
    s.remove_ensures(i);
}

/// Law: updating an in-range position `i` of a list with view `s` changes
/// that position's value to `x` and no other position.
pub proof fn lemma_update_changes_one<T>(s: Seq<T>, i: int, x: T)
    requires
        0 <= i < s.len(),
    ensures
        s.update(i, x).len() == s.len(),
        s.update(i, x)[i] == x,
        forall|j: int| 0 <= j < s.len() && j != i ==> #[trigger] s.update(i, x)[j] == s[j],
{
}

} // verus!
