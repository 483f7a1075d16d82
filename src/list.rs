use vstd::prelude::*;

verus! {

/// One link of the chain: an element and the rest of the chain, if any.
pub struct Node<T> {
    elem: T,
    next: Option<Box<Node<T>>>,
}

impl<T> Node<T> {
    /// The elements reachable from `link`, nearest first.
    pub closed spec fn chain(link: Option<Box<Node<T>>>) -> Seq<T>
        decreases link,
    {
        match link {
            None => Seq::empty(),
            Some(node) => seq![node.elem] + Node::chain(node.next),
        }
    }
}

/// A stack of elements held in a chain of nodes, with its length kept
/// alongside.
pub struct SimpleLinkedList<T> {
    length: usize,
    head: Option<Box<Node<T>>>,
}

impl<T> View for SimpleLinkedList<T> {
    type V = Seq<T>;

    /// The elements in the order in which `pop` hands them out: the head first.
    closed spec fn view(&self) -> Seq<T> {
        Node::chain(self.head)
    }
}

impl<T> SimpleLinkedList<T> {
    #[verifier::type_invariant]
    closed spec fn length_matches(self) -> bool {
        self.length == Node::chain(self.head).len()
    }

    /// An empty list.
    pub fn new() -> (r: Self)
        ensures
            r@ == Seq::<T>::empty(),
    {
        SimpleLinkedList { length: 0, head: None }
    }

    /// Whether the list holds no element.
    pub fn is_empty(&self) -> (r: bool)
        ensures
            r == (self@.len() == 0),
    {
        proof {
            use_type_invariant(self);
        }
        self.length == 0
    }

    /// The number of elements, kept up to date by each change rather than
    /// counted.
    pub fn len(&self) -> (r: usize)
        ensures
            r == self@.len(),
    {
        proof {
            use_type_invariant(self);
        }
        self.length
    }

    /// Puts `element` at the head.
    pub fn push(&mut self, element: T)
        requires
            old(self)@.len() < usize::MAX,
        ensures
            final(self)@ == seq![element] + old(self)@,
    {
        proof {
            use_type_invariant(&*self);
        }
        let mut prev = SimpleLinkedList::new();
        std::mem::swap(self, &mut prev);
        proof {
            use_type_invariant(&prev);
        }
        let node = Node { elem: element, next: prev.head };
        *self = SimpleLinkedList { length: prev.length + 1, head: Some(Box::new(node)) };
    }

    /// Takes the head element out, or returns `None` on an empty list.
    pub fn pop(&mut self) -> (r: Option<T>)
        ensures
            old(self)@.len() == 0 ==> r is None && final(self)@ == old(self)@,
            old(self)@.len() > 0 ==> r == Some(old(self)@[0]) && final(self)@ == old(self)@.drop_first(),
    {
        let mut prev = SimpleLinkedList::new();
        std::mem::swap(self, &mut prev);
        proof {
            use_type_invariant(&prev);
        }
        match prev.head {
            None => {
                assert(final(self)@ =~= old(self)@);
                None
            },
            Some(node) => {
                let node = *node;
                assert(Node::chain(node.next) =~= old(self)@.drop_first());
                *self = SimpleLinkedList { length: prev.length - 1, head: node.next };
                Some(node.elem)
            },
        }
    }

    /// The head element, left in place, or `None` on an empty list.
    pub fn peek(&self) -> (r: Option<&T>)
        ensures
            self@.len() == 0 ==> r is None,
            self@.len() > 0 ==> r == Some(&self@[0]),
    {
        match &self.head {
            None => None,
            Some(node) => Some(&node.elem),
        }
    }

    /// A list with the same elements in the opposite order: what was the
    /// last to come out of `pop` comes out first.
    pub fn rev(self) -> (r: SimpleLinkedList<T>)
        ensures
            r@ == self@.reverse(),
    {
        let v = self.into_vec();
        SimpleLinkedList::from_vec(v)
    }

    /// Pushes the elements of `source` in their order, so that the last of
    /// them ends up at the head.
    pub fn from_vec(source: Vec<T>) -> (r: SimpleLinkedList<T>)
        ensures
            r@ == source@.reverse(),
    {
        let ghost elems = source@;
        let count: usize = source.len();
        let mut list = SimpleLinkedList::new();
        for x in it: source.into_iter()
            invariant
                it.seq() == elems,
                elems.len() == count,
                list@ == elems.take(it.index()).reverse(),
        {
            assert(elems.take(it.index() + 1) =~= elems.take(it.index()).push(x));
            list.push(x);
            assert(list@ =~= elems.take(it.index() + 1).reverse());
        }
        assert(elems.take(elems.len() as int) =~= elems);
        list
    }

    /// Pops every element into a `Vec`, head first.
    pub fn into_vec(self) -> (r: Vec<T>)
        ensures
            r@ == self@,
    {
        let ghost elems = self@;
        let mut list = self;
        let mut out: Vec<T> = Vec::new();
        while list.len() > 0
            invariant
                out@ + list@ == elems,
            decreases list@.len(),
        {
            let ghost before = list@;
            if let Some(x) = list.pop() {
                assert(out@.push(x) + list@ =~= out@ + before);
                out.push(x);
            }
        }
        assert(out@ =~= elems);
        out
    }
}

} // verus!
