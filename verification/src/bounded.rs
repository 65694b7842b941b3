//! The mathematical model shared by the bounded containers of this crate: a
//! container's contents are a sequence, new elements join at the back, and the
//! front and the back are where elements leave. The contracts of the queues,
//! the deque and the stack are stated with these functions, and the laws below
//! relate them.

use crate::{Error, Result};
use vstd::prelude::*;

verus! {

/// The contents after pushing `v` into a container of capacity `cap`: a full
/// container is left unchanged.
pub open spec fn bounded_push<T>(s: Seq<T>, cap: nat, v: T) -> Seq<T> {
    if s.len() < cap {
        s.push(v)
    } else {
        s
    }
}

/// What a push into a container of capacity `cap` holding `s` returns.
pub open spec fn bounded_push_result<T>(s: Seq<T>, cap: nat) -> Result<()> {
    if s.len() < cap {
        Ok(())
    } else {
        Err(Error::WouldBlock)
    }
}

/// The element at the front (the oldest), if any.
pub open spec fn front<T>(s: Seq<T>) -> Option<T> {
    if s.len() == 0 {
        None
    } else {
        Some(s[0])
    }
}

/// The contents after the front element leaves.
pub open spec fn without_front<T>(s: Seq<T>) -> Seq<T> {
    if s.len() == 0 {
        s
    } else {
        s.drop_first()
    }
}

/// The element at the back (the newest), if any.
pub open spec fn back<T>(s: Seq<T>) -> Option<T> {
    if s.len() == 0 {
        None
    } else {
        Some(s.last())
    }
}

/// The contents after the back element leaves.
pub open spec fn without_back<T>(s: Seq<T>) -> Seq<T> {
    if s.len() == 0 {
        s
    } else {
        s.drop_last()
    }
}

/// The contents after pushing each element of `xs` in turn.
pub open spec fn push_all<T>(s: Seq<T>, cap: nat, xs: Seq<T>) -> Seq<T>
    decreases xs.len(),
{
    if xs.len() == 0 {
        s
    } else {
        push_all(bounded_push(s, cap, xs[0]), cap, xs.drop_first())
    }
}

/// The elements that leave, in order, when the front is taken until the
/// container is empty.
pub open spec fn drain_front<T>(s: Seq<T>) -> Seq<T>
    decreases s.len(),
{
    if s.len() == 0 {
        Seq::empty()
    } else {
        seq![s[0]] + drain_front(s.drop_first())
    }
}

/// The elements that leave, in order, when the back is taken until the
/// container is empty.
pub open spec fn drain_back<T>(s: Seq<T>) -> Seq<T>
    decreases s.len(),
{
    if s.len() == 0 {
        Seq::empty()
    } else {
        seq![s.last()] + drain_back(s.drop_last())
    }
}

/// A push never makes the contents longer than the capacity.
pub proof fn law_push_respects_capacity<T>(s: Seq<T>, cap: nat, v: T)
    requires
        s.len() <= cap,
    ensures
        bounded_push(s, cap, v).len() <= cap,
        bounded_push_result(s, cap) is Ok <==> bounded_push(s, cap, v).len() == s.len() + 1,
{
}

/// Taking the back right after a successful push gives back the pushed
/// element and restores the contents (last in, first out).
pub proof fn law_back_undoes_push<T>(s: Seq<T>, cap: nat, v: T)
    requires
        s.len() < cap,
    ensures
        back(bounded_push(s, cap, v)) == Some(v),
        without_back(bounded_push(s, cap, v)) == s,
{
    assert(s.push(v).drop_last() =~= s);
}

/// A push does not change which element leaves at the front of a non-empty
/// container, and commutes with taking the front.
pub proof fn law_push_keeps_front<T>(s: Seq<T>, cap: nat, v: T)
    requires
        s.len() > 0,
    ensures
        front(bounded_push(s, cap, v)) == front(s),
        s.len() < cap ==> without_front(bounded_push(s, cap, v)) == bounded_push(
            without_front(s),
            cap,
            v,
        ),
{
    if s.len() < cap {
        assert(s.push(v).drop_first() =~= s.drop_first().push(v));
    }
}

/// Pushing elements that fit into an empty container leaves exactly those
/// elements, in push order.
pub proof fn law_push_all_into_empty<T>(cap: nat, xs: Seq<T>)
    requires
        xs.len() <= cap,
    ensures
        push_all(Seq::<T>::empty(), cap, xs) == xs,
{
    lemma_push_all_fits(Seq::<T>::empty(), cap, xs);
    assert(Seq::<T>::empty() + xs =~= xs);
}

/// Pushing elements that fit appends them.
pub proof fn lemma_push_all_fits<T>(s: Seq<T>, cap: nat, xs: Seq<T>)
    requires
        s.len() + xs.len() <= cap,
    ensures
        push_all(s, cap, xs) == s + xs,
    decreases xs.len(),
{
    if xs.len() > 0 {
        lemma_push_all_fits(s.push(xs[0]), cap, xs.drop_first());
        assert(s.push(xs[0]) + xs.drop_first() =~= s + xs);
    }
}

/// How many of `k` offered elements fit into a container of capacity `cap`
/// holding `s`.
pub open spec fn fitting<T>(s: Seq<T>, cap: nat, k: nat) -> nat {
    if k <= cap - s.len() {
        k
    } else {
        (cap - s.len()) as nat
    }
}

/// Pushing elements one by one keeps exactly those that fit, in order: the
/// same contents that a batch push leaves.
pub proof fn law_push_all_keeps_fitting_prefix<T>(s: Seq<T>, cap: nat, xs: Seq<T>)
    requires
        s.len() <= cap,
    ensures
        push_all(s, cap, xs) == s + xs.take(fitting(s, cap, xs.len()) as int),
    decreases xs.len(),
{
    if xs.len() > 0 {
        law_push_all_keeps_fitting_prefix(bounded_push(s, cap, xs[0]), cap, xs.drop_first());
        if s.len() < cap {
            assert(s.push(xs[0]) + xs.drop_first().take(
                fitting(s.push(xs[0]), cap, (xs.len() - 1) as nat) as int,
            ) =~= s + xs.take(fitting(s, cap, xs.len()) as int));
        } else {
            assert(xs.drop_first().take(0) =~= xs.take(0));
        }
    } else {
        assert(s + xs.take(0) =~= s);
    }
}

/// Taking the front until empty yields the contents in order (first in,
/// first out).
pub proof fn law_drain_front_is_contents<T>(s: Seq<T>)
    ensures
        drain_front(s) == s,
    decreases s.len(),
{
    if s.len() > 0 {
        law_drain_front_is_contents(s.drop_first());
        assert(seq![s[0]] + s.drop_first() =~= s);
    }
}

/// Taking the back until empty yields the contents in reverse order (last
/// in, first out).
pub proof fn law_drain_back_is_reverse<T>(s: Seq<T>)
    ensures
        drain_back(s) == s.reverse(),
    decreases s.len(),
{
    if s.len() > 0 {
        law_drain_back_is_reverse(s.drop_last());
        assert(seq![s.last()] + s.drop_last().reverse() =~= s.reverse());
    }
}

/// An operation on a bounded container, as one caller issues it: a push of
/// a value, or a take at the front (a queue's pop, a deque's steal) or at the
/// back (a deque's or a stack's pop).
pub enum Op<T> {
    Push(T),
    TakeFront,
    TakeBack,
}

/// The contents after one operation.
pub open spec fn apply<T>(s: Seq<T>, cap: nat, op: Op<T>) -> Seq<T> {
    match op {
        Op::Push(v) => bounded_push(s, cap, v),
        Op::TakeFront => without_front(s),
        Op::TakeBack => without_back(s),
    }
}

/// The value that one operation hands back, if any.
pub open spec fn taken_by<T>(s: Seq<T>, op: Op<T>) -> Option<T> {
    match op {
        Op::Push(_) => None,
        Op::TakeFront => front(s),
        Op::TakeBack => back(s),
    }
}

/// The value that one operation puts in, if its push succeeds.
pub open spec fn stored_by<T>(s: Seq<T>, cap: nat, op: Op<T>) -> Option<T> {
    match op {
        Op::Push(v) => if s.len() < cap {
            Some(v)
        } else {
            None
        },
        _ => None,
    }
}

/// `xs` with `o`'s value appended, if there is one.
pub open spec fn append_some<T>(xs: Seq<T>, o: Option<T>) -> Seq<T> {
    match o {
        Some(v) => xs.push(v),
        None => xs,
    }
}

/// The contents after the operations `ops`, one after another (the history
/// of a container whose callers take turns, as under a lock).
pub open spec fn run<T>(s: Seq<T>, cap: nat, ops: Seq<Op<T>>) -> Seq<T>
    decreases ops.len(),
{
    if ops.len() == 0 {
        s
    } else {
        apply(run(s, cap, ops.drop_last()), cap, ops.last())
    }
}

/// The values that the successful pushes of `ops` put in, in order.
pub open spec fn stored_values<T>(s: Seq<T>, cap: nat, ops: Seq<Op<T>>) -> Seq<T>
    decreases ops.len(),
{
    if ops.len() == 0 {
        Seq::empty()
    } else {
        append_some(
            stored_values(s, cap, ops.drop_last()),
            stored_by(run(s, cap, ops.drop_last()), cap, ops.last()),
        )
    }
}

/// The values that the takes of `ops` handed back, in order.
pub open spec fn taken_values<T>(s: Seq<T>, cap: nat, ops: Seq<Op<T>>) -> Seq<T>
    decreases ops.len(),
{
    if ops.len() == 0 {
        Seq::empty()
    } else {
        append_some(
            taken_values(s, cap, ops.drop_last()),
            taken_by(run(s, cap, ops.drop_last()), ops.last()),
        )
    }
}

/// Over any history of pushes and takes: the contents never exceed the
/// capacity; their length is the starting length plus the successful pushes
/// minus the successful takes; and no value is lost or handed back twice:
/// what was there and what was pushed is, counted with multiplicity, exactly
/// what is left and what was handed back.
pub proof fn law_history_conserves_elements<T>(s: Seq<T>, cap: nat, ops: Seq<Op<T>>)
    requires
        s.len() <= cap,
    ensures
        run(s, cap, ops).len() <= cap,
        run(s, cap, ops).len() + taken_values(s, cap, ops).len() == s.len() + stored_values(
            s,
            cap,
            ops,
        ).len(),
        s.to_multiset().add(stored_values(s, cap, ops).to_multiset()) == run(
            s,
            cap,
            ops,
        ).to_multiset().add(taken_values(s, cap, ops).to_multiset()),
    decreases ops.len(),
{
    broadcast use vstd::seq_lib::group_to_multiset_ensures;

    if ops.len() == 0 {
        assert(Seq::<T>::empty().to_multiset() =~= vstd::multiset::Multiset::empty());
        assert(s.to_multiset().add(vstd::multiset::Multiset::empty()) =~= s.to_multiset());
    } else {
        let prev = ops.drop_last();
        law_history_conserves_elements(s, cap, prev);
        let r = run(s, cap, prev);
        let st = stored_values(s, cap, prev);
        let tk = taken_values(s, cap, prev);
        match ops.last() {
            Op::Push(v) => {
                if r.len() < cap {
                    st.to_multiset_ensures();
                    r.to_multiset_ensures();
                    assert(st.push(v).to_multiset() =~= st.to_multiset().insert(v));
                    assert(r.push(v).to_multiset() =~= r.to_multiset().insert(v));
                    assert(s.to_multiset().add(st.to_multiset().insert(v)) =~= s.to_multiset().add(
                        st.to_multiset(),
                    ).insert(v));
                    assert(r.to_multiset().insert(v).add(tk.to_multiset()) =~= r.to_multiset().add(
                        tk.to_multiset(),
                    ).insert(v));
                    assert(s.to_multiset().add(st.push(v).to_multiset()) =~= r.push(
                        v,
                    ).to_multiset().add(tk.to_multiset()));
                }
            },
            Op::TakeFront => {
                if r.len() > 0 {
                    r.to_multiset_ensures();
                    assert(r.remove(0) =~= r.drop_first());
                    assert(s.to_multiset().add(st.to_multiset()) =~= r.drop_first().to_multiset().add(
                        tk.push(r[0]).to_multiset(),
                    ));
                }
            },
            Op::TakeBack => {
                if r.len() > 0 {
                    r.to_multiset_ensures();
                    assert(r.remove(r.len() - 1) =~= r.drop_last());
                    assert(s.to_multiset().add(st.to_multiset()) =~= r.drop_last().to_multiset().add(
                        tk.push(r.last()).to_multiset(),
                    ));
                }
            },
        }
    }
}

/// The elements of `v` in reverse order.
pub fn reverse_vec<T>(v: Vec<T>) -> (r: Vec<T>)
    ensures
        r@ == v@.reverse(),
{
    let mut v = v;
    let ghost orig = v@;
    let mut r: Vec<T> = Vec::new();
    while v.len() > 0
        invariant
            orig == v@ + r@.reverse(),
        decreases v.len(),
    {
        let x = v.pop().unwrap();
        proof {
            assert(orig =~= v@ + (r@.reverse().insert(0, x)));
        }
        r.push(x);
        assert(r@.reverse() =~= r@.drop_last().reverse().insert(0, x));
    }
    assert(orig =~= r@.reverse());
    assert(r@ =~= orig.reverse());
    r
}

} // verus!
