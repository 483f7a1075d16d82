use vstd::prelude::*;
use crate::list::SimpleLinkedList;

verus! {

/// The contents of a list made by `new` and then a `push` of each of `vs`,
/// in the order of `vs`.
pub open spec fn pushed_in_order<T>(vs: Seq<T>) -> Seq<T>
    decreases vs.len(),
{
    if vs.len() == 0 {
        Seq::empty()
    } else {
        seq![vs.last()] + pushed_in_order(vs.drop_last())
    }
}

/// The contents after `k` calls of `pop` on a list holding `s`: each call
/// takes off the head, and leaves an empty list as it is.
pub open spec fn popped_times<T>(s: Seq<T>, k: nat) -> Seq<T>
    decreases k,
{
    if k == 0 || s.len() == 0 {
        s
    } else {
        popped_times(s.drop_first(), (k - 1) as nat)
    }
}

/// The contents after one step on a list holding `s`: `Some(v)` stands for a
/// `push` of `v`, `None` for a `pop`.
pub open spec fn step<T>(s: Seq<T>, op: Option<T>) -> Seq<T> {
    match op {
        Some(v) => seq![v] + s,
        None => if s.len() == 0 {
            s
        } else {
            s.drop_first()
        },
    }
}

/// The contents after the steps `ops`, in order, on a list holding `s`.
pub open spec fn run<T>(s: Seq<T>, ops: Seq<Option<T>>) -> Seq<T>
    decreases ops.len(),
{
    if ops.len() == 0 {
        s
    } else {
        step(run(s, ops.drop_last()), ops.last())
    }
}

/// How many of `ops` are pushes.
pub open spec fn push_count<T>(ops: Seq<Option<T>>) -> nat
    decreases ops.len(),
{
    if ops.len() == 0 {
        0
    } else {
        push_count(ops.drop_last()) + if ops.last() is Some {
            1nat
        } else {
            0nat
        }
    }
}

/// How many of `ops` are pops.
pub open spec fn pop_count<T>(ops: Seq<Option<T>>) -> nat
    decreases ops.len(),
{
    if ops.len() == 0 {
        0
    } else {
        pop_count(ops.drop_last()) + if ops.last() is None {
            1nat
        } else {
            0nat
        }
    }
}

/// Pushing `vs` in order leaves them at the head in the opposite order.
pub proof fn lemma_pushed_in_order_reverses<T>(vs: Seq<T>)
    ensures
        pushed_in_order(vs) == vs.reverse(),
    decreases vs.len(),
{
    if vs.len() > 0 {
        lemma_pushed_in_order_reverses(vs.drop_last());
        assert(pushed_in_order(vs) =~= vs.reverse());
    } else {
        assert(pushed_in_order(vs) =~= vs.reverse());
    }
}

/// Popping `k` times from `s` drops its first `k` elements, as far as there
/// are any.
pub proof fn lemma_popped_times_skips<T>(s: Seq<T>, k: nat)
    ensures
        k <= s.len() ==> popped_times(s, k) == s.skip(k as int),
        k >= s.len() ==> popped_times(s, k).len() == 0,
    decreases k,
{
    if k == 0 {
        assert(s.skip(0) =~= s);
    } else if s.len() > 0 {
        lemma_popped_times_skips(s.drop_first(), (k - 1) as nat);
        if k <= s.len() {
            assert(s.drop_first().skip(k - 1) =~= s.skip(k as int));
        }
    }
}

/// After pushes of `vs` in order on a new list, `pop` hands them back last
/// first: before the `k`-th pop (counting from 0) the head is the element
/// pushed `k`-th from the end, and once all are out the list stays empty, so
/// every later `pop` returns `None`.
pub proof fn lemma_pops_reverse_pushes<T>(vs: Seq<T>)
    ensures
        forall|k: nat|
            k < vs.len() ==> {
                let s = #[trigger] popped_times(pushed_in_order(vs), k);
                s.len() > 0 && s[0] == vs[vs.len() - 1 - k]
            },
        forall|k: nat| k >= vs.len() ==> (#[trigger] popped_times(pushed_in_order(vs), k)).len() == 0,
{
    lemma_pushed_in_order_reverses(vs);
    assert forall|k: nat| k < vs.len() implies {
        let s = #[trigger] popped_times(pushed_in_order(vs), k);
        s.len() > 0 && s[0] == vs[vs.len() - 1 - k]
    } by {
        lemma_popped_times_skips(vs.reverse(), k);
    }
    assert forall|k: nat| k >= vs.len() implies (#[trigger] popped_times(
        pushed_in_order(vs),
        k,
    )).len() == 0 by {
        lemma_popped_times_skips(vs.reverse(), k);
    }
}

/// On a list that starts empty, where no `pop` meets an empty list (every
/// prefix of `ops` holds at most as many pops as pushes), the length at the
/// end is the number of pushes less the number of pops.
pub proof fn lemma_length_counts_steps<T>(ops: Seq<Option<T>>)
    requires
        forall|i: int| 0 <= i <= ops.len() ==> pop_count(#[trigger] ops.take(i)) <= push_count(ops.take(i)),
    ensures
        run(Seq::<T>::empty(), ops).len() == push_count(ops) - pop_count(ops),
    decreases ops.len(),
{
    if ops.len() > 0 {
        let prefix = ops.drop_last();
        assert forall|i: int| 0 <= i <= prefix.len() implies pop_count(#[trigger] prefix.take(i))
            <= push_count(prefix.take(i)) by {
            assert(prefix.take(i) =~= ops.take(i));
        }
        lemma_length_counts_steps(prefix);
        assert(ops.take(ops.len() as int) =~= ops);
    }
}

/// `is_empty` answers true exactly when `len` answers 0.
pub proof fn lemma_is_empty_iff_len_zero<T>(l: &SimpleLinkedList<T>, empty: bool, n: usize)
    requires
        call_ensures(SimpleLinkedList::<T>::is_empty, (l,), empty),
        call_ensures(SimpleLinkedList::<T>::len, (l,), n),
    ensures
        empty <==> n == 0,
{
}

/// Two calls of `peek` on the same list give equal answers.
pub proof fn lemma_peek_repeatable<T>(l: &SimpleLinkedList<T>, first: Option<&T>, second: Option<&T>)
    requires
        call_ensures(SimpleLinkedList::<T>::peek, (l,), first),
        call_ensures(SimpleLinkedList::<T>::peek, (l,), second),
    ensures
        first == second,
{
}

/// A list made by pushing `vs` in order turns into a `Vec` holding `vs`
/// reversed: the last pushed comes first.
pub proof fn lemma_into_vec_of_pushed<T>(vs: Seq<T>, l: SimpleLinkedList<T>, v: Vec<T>)
    requires
        l@ == pushed_in_order(vs),
        call_ensures(SimpleLinkedList::<T>::into_vec, (l,), v),
    ensures
        v@ == vs.reverse(),
{
    lemma_pushed_in_order_reverses(vs);
}

/// `rev` reverses the pop order, and reversing twice gives back the pop
/// order of the original.
pub proof fn lemma_rev_twice<T>(l: SimpleLinkedList<T>, once: SimpleLinkedList<T>, twice: SimpleLinkedList<T>)
    requires
        call_ensures(SimpleLinkedList::<T>::rev, (l,), once),
        call_ensures(SimpleLinkedList::<T>::rev, (once,), twice),
    ensures
        once@ == l@.reverse(),
        twice@ == l@,
{
    assert(l@.reverse().reverse() =~= l@);
}

} // verus!
