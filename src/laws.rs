use crate::adapter::{after_first, after_last, first_of, last_of};
use vstd::prelude::*;

verus! {

/// The elements that forward requests yield, one after another, from the
/// elements `s` still to come, up to the first request that yields none.
pub open spec fn forward_run<T>(s: Seq<T>) -> Seq<T>
    decreases s.len(),
{
    if s.len() == 0 {
        Seq::empty()
    } else {
        match first_of(s) {
            Some(x) => seq![x] + forward_run(after_first(s)),
            None => Seq::empty(),
        }
    }
}

/// The elements that backward requests yield, one after another, from the
/// elements `s` still to come, up to the first request that yields none.
pub open spec fn backward_run<T>(s: Seq<T>) -> Seq<T>
    decreases s.len(),
{
    if s.len() == 0 {
        Seq::empty()
    } else {
        match last_of(s) {
            Some(x) => seq![x] + backward_run(after_last(s)),
            None => Seq::empty(),
        }
    }
}

proof fn lemma_forward_run_is_identity<T>(s: Seq<T>)
    ensures
        forward_run(s) == s,
    decreases s.len(),
{
    if s.len() > 0 {
        lemma_forward_run_is_identity(after_first(s));
        assert(forward_run(s) =~= s);
    }
}

proof fn lemma_backward_run_is_reverse<T>(s: Seq<T>)
    ensures
        backward_run(s) == s.reverse(),
    decreases s.len(),
{
    if s.len() == 0 {
        assert(backward_run(s) =~= s.reverse());
    } else {
        lemma_backward_run_is_reverse(after_last(s));
        assert(backward_run(s) =~= s.reverse());
    }
}

/// Once a request in either direction has yielded nothing, no request in
/// either direction changes the adapter or yields anything again.
pub proof fn lemma_exhausted_stays_exhausted<T>(s: Seq<T>)
    requires
        first_of(s) is None || last_of(s) is None,
    ensures
        first_of(s) is None,
        last_of(s) is None,
        after_first(s) == s,
        after_last(s) == s,
{
}

/// Flattening a finite sequence of finite groups and then requesting from the
/// front until nothing comes yields the concatenation of the groups in order;
/// requesting from the back instead yields that concatenation reversed. Both
/// runs yield the same elements, each as often.
pub proof fn lemma_traversal_order<T>(groups: Seq<Seq<T>>)
    ensures
        forward_run(groups.flatten()) == groups.flatten(),
        backward_run(groups.flatten()) == groups.flatten().reverse(),
        forward_run(groups.flatten()).to_multiset() == backward_run(
            groups.flatten(),
        ).to_multiset(),
{
    let s = groups.flatten();
    lemma_forward_run_is_identity(s);
    lemma_backward_run_is_reverse(s);
    s.lemma_reverse_to_multiset();
}

} // verus!
