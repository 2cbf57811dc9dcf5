use std::collections::VecDeque;
use vstd::prelude::*;

verus! {

/// The elements of an optional cursor that are still to come.
spec fn cursor_seq<T>(c: Option<VecDeque<T>>) -> Seq<T> {
    match c {
        Some(d) => d@,
        None => Seq::empty(),
    }
}

/// The groups of an outer producer, each as the sequence of its elements.
pub open spec fn groups_of<T>(outer: Seq<Vec<T>>) -> Seq<Seq<T>> {
    outer.map_values(|g: Vec<T>| g@)
}

/// The element that a forward request yields from the elements `s` still to come.
pub open spec fn first_of<T>(s: Seq<T>) -> Option<T> {
    if s.len() == 0 {
        None
    } else {
        Some(s[0])
    }
}

/// The elements still to come after a forward request on `s`.
pub open spec fn after_first<T>(s: Seq<T>) -> Seq<T> {
    if s.len() == 0 {
        s
    } else {
        s.drop_first()
    }
}

/// The element that a backward request yields from the elements `s` still to come.
pub open spec fn last_of<T>(s: Seq<T>) -> Option<T> {
    if s.len() == 0 {
        None
    } else {
        Some(s.last())
    }
}

/// The elements still to come after a backward request on `s`.
pub open spec fn after_last<T>(s: Seq<T>) -> Seq<T> {
    if s.len() == 0 {
        s
    } else {
        s.drop_last()
    }
}

/// Moves the elements of a vector into a double-ended queue, keeping their order.
fn into_deque<U>(items: Vec<U>) -> (r: VecDeque<U>)
    ensures
        r@ == items@,
{
    let mut v = items;
    let mut r: VecDeque<U> = VecDeque::new();
    while v.len() > 0
        invariant
            v@ + r@ == items@,
        decreases v.len(),
    {
        let x = v.pop().unwrap();
        r.push_front(x);
    }
    assert(r@ =~= items@);
    r
}

/// Flattens a sequence of groups.
///
/// Forward requests yield the elements of the first group from its front,
/// then of the next group, and so on; backward requests yield the elements of
/// the last group from its back, then of the group before it, and so on. The
/// two directions meet in the middle and never yield an element twice.
pub struct Flatten<T> {
    outer: VecDeque<Vec<T>>,
    front_iter: Option<VecDeque<T>>,
    back_iter: Option<VecDeque<T>>,
}

impl<T> View for Flatten<T> {
    type V = Seq<T>;

    /// The elements still to come, in forward order.
    closed spec fn view(&self) -> Seq<T> {
        cursor_seq(self.front_iter) + groups_of(self.outer@).flatten() + cursor_seq(self.back_iter)
    }
}

/// Builds the adapter over the given groups, taken in order.
pub fn flatten<T>(groups: Vec<Vec<T>>) -> (r: Flatten<T>)
    ensures
        r@ == groups_of(groups@).flatten(),
{
    Flatten::new(into_deque(groups))
}

impl<T> Flatten<T> {
    /// Builds the adapter over an outer producer of groups, with no cursor
    /// open in either direction.
    pub fn new(iter: VecDeque<Vec<T>>) -> (r: Self)
        ensures
            r@ == groups_of(iter@).flatten(),
    {
        let r = Flatten { outer: iter, front_iter: None, back_iter: None };
        assert(r@ =~= groups_of(iter@).flatten());
        r
    }

    /// Yields the next element in forward order, or `None` once every
    /// element has been yielded from one end or the other.
    pub fn next(&mut self) -> (r: Option<T>)
        ensures
            r == first_of(old(self)@),
            final(self)@ == after_first(old(self)@),
    {
        loop
            invariant
                self@ == old(self)@,
            decreases self.outer@.len(),
        {
            let ghost before = self@;
            let ghost outer_before = self.outer@;
            if let Some(mut front_iter) = self.front_iter.take() {
                if let Some(i) = front_iter.pop_front() {
                    self.front_iter = Some(front_iter);
                    assert(self@ =~= before.drop_first());
                    return Some(i);
                }
                assert(self@ =~= before);
            }
            match self.outer.pop_front() {
                Some(group) => {
                    self.front_iter = Some(into_deque(group));
                    proof {
                        assert(groups_of(outer_before).drop_first() =~= groups_of(self.outer@));
                        assert(self@ =~= before);
                    }
                },
                None => {
                    assert(before =~= cursor_seq(self.back_iter));
                    if let Some(mut back_iter) = self.back_iter.take() {
                        let r = back_iter.pop_front();
                        self.back_iter = Some(back_iter);
                        assert(self@ =~= after_first(before));
                        return r;
                    }
                    return None;
                },
            }
        }
    }

    /// Yields the next element in backward order, or `None` once every
    /// element has been yielded from one end or the other.
    pub fn next_back(&mut self) -> (r: Option<T>)
        ensures
            r == last_of(old(self)@),
            final(self)@ == after_last(old(self)@),
    {
        loop
            invariant
                self@ == old(self)@,
            decreases self.outer@.len(),
        {
            let ghost before = self@;
            let ghost outer_before = self.outer@;
            if let Some(mut back_iter) = self.back_iter.take() {
                if let Some(i) = back_iter.pop_back() {
                    self.back_iter = Some(back_iter);
                    assert(self@ =~= before.drop_last());
                    return Some(i);
                }
                assert(self@ =~= before);
            }
            match self.outer.pop_back() {
                Some(group) => {
                    self.back_iter = Some(into_deque(group));
                    proof {
                        let gb = groups_of(outer_before);
                        let ga = groups_of(self.outer@);
                        assert(gb.drop_last() =~= ga);
                        gb.lemma_flatten_and_flatten_alt_are_equivalent();
                        ga.lemma_flatten_and_flatten_alt_are_equivalent();
                        assert(self@ =~= before);
                    }
                },
                None => {
                    assert(before =~= cursor_seq(self.front_iter));
                    if let Some(mut front_iter) = self.front_iter.take() {
                        let r = front_iter.pop_back();
                        self.front_iter = Some(front_iter);
                        assert(self@ =~= after_last(before));
                        return r;
                    }
                    return None;
                },
            }
        }
    }

    /// Counts the elements still to come, consuming the adapter.
    pub fn count(self) -> (r: usize)
        requires
            self@.len() <= usize::MAX,
        ensures
            r == self@.len(),
    {
        let mut it = self;
        let mut n: usize = 0;
        loop
            invariant
                n + it@.len() == self@.len(),
                self@.len() <= usize::MAX,
            decreases it@.len(),
        {
            match it.next() {
                Some(_) => n = n + 1,
                None => return n,
            }
        }
    }

    /// Collects the elements still to come, in forward order.
    pub fn collect_vec(self) -> (r: Vec<T>)
        ensures
            r@ == self@,
    {
        let mut it = self;
        let mut r: Vec<T> = Vec::new();
        loop
            invariant
                r@ + it@ == self@,
            decreases it@.len(),
        {
            match it.next() {
                Some(x) => r.push(x),
                None => {
                    assert(r@ =~= self@);
                    return r;
                },
            }
        }
    }

    /// Collects the elements still to come, in backward order.
    pub fn collect_rev(self) -> (r: Vec<T>)
        ensures
            r@ == self@.reverse(),
    {
        let mut it = self;
        let mut r: Vec<T> = Vec::new();
        loop
            invariant
                it@ + r@.reverse() == self@,
            decreases it@.len(),
        {
            let ghost before = it@;
            let ghost r_before = r@;
            match it.next_back() {
                Some(x) => {
                    r.push(x);
                    assert(r@.reverse() =~= seq![x] + r_before.reverse());
                    assert(before =~= it@.push(x));
                    assert(it@ + r@.reverse() =~= before + r_before.reverse());
                },
                None => {
                    assert(r@.reverse().reverse() =~= r@);
                    assert(r@.reverse() =~= self@);
                    return r;
                },
            }
        }
    }
}

} // verus!
