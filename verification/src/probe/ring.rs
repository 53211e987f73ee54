//! A bounded history: newest entry first, oldest entry evicted first.

use std::collections::VecDeque;
use vstd::prelude::*;

verus! {

/// A sequence with `x` put in front, and its last entry dropped if that
/// exceeds `cap` entries.
pub open spec fn push_bounded<T>(s: Seq<T>, x: T, cap: nat) -> Seq<T> {
    let t = seq![x] + s;
    if t.len() > cap {
        t.drop_last()
    } else {
        t
    }
}

/// The sequence after putting the entries of `xs` in front one after the
/// other, first entry first, each time within `cap` entries.
pub open spec fn pushed_all<T>(s: Seq<T>, xs: Seq<T>, cap: nat) -> Seq<T>
    decreases xs.len(),
{
    if xs.len() == 0 {
        s
    } else {
        push_bounded(pushed_all(s, xs.drop_last(), cap), xs.last(), cap)
    }
}

/// The `n` most recent of the entries `xs`, which arrived first entry
/// first, most recent first.
pub open spec fn most_recent<T>(xs: Seq<T>, n: nat) -> Seq<T>
    recommends
        n <= xs.len(),
{
    Seq::new(n, |i: int| xs[xs.len() - 1 - i])
}

/// Putting an entry in front of a history within its capacity keeps it
/// within its capacity, adds at most one entry, and leaves the new entry in
/// front wherever the capacity is not zero.
pub proof fn lemma_push_bounded<T>(s: Seq<T>, x: T, cap: nat)
    requires
        s.len() <= cap,
    ensures
        push_bounded(s, x, cap).len() == if s.len() < cap {
            s.len() + 1
        } else {
            cap
        },
        cap > 0 ==> push_bounded(s, x, cap)[0] == x,
        forall|i: int|
            1 <= i < push_bounded(s, x, cap).len() ==> #[trigger] push_bounded(s, x, cap)[i] == s[i
                - 1],
{
}

/// Eviction is first in, first out: after the entries `xs` went into an
/// empty history of capacity `cap`, the history holds the most recent `cap`
/// of them, or all of them if they are fewer, most recent first.
pub proof fn lemma_pushed_all_keeps_most_recent<T>(xs: Seq<T>, cap: nat)
    ensures
        pushed_all(Seq::<T>::empty(), xs, cap) == most_recent(
            xs,
            if xs.len() <= cap {
                xs.len()
            } else {
                cap
            },
        ),
    decreases xs.len(),
{
    let n = if xs.len() <= cap {
        xs.len()
    } else {
        cap
    };
    if xs.len() == 0 {
        assert(pushed_all(Seq::<T>::empty(), xs, cap) =~= most_recent(xs, n));
    } else {
        let init = xs.drop_last();
        lemma_pushed_all_keeps_most_recent(init, cap);
        let before = pushed_all(Seq::<T>::empty(), init, cap);
        lemma_push_bounded(before, xs.last(), cap);
        let after = push_bounded(before, xs.last(), cap);
        assert(after.len() == n);
        assert forall|i: int| 0 <= i < n implies after[i] == most_recent(xs, n)[i] by {
            if i >= 1 {
                assert(after[i] == before[i - 1]);
                assert(before[i - 1] == init[init.len() - 1 - (i - 1)]);
            }
        }
        assert(after =~= most_recent(xs, n));
    }
}

/// At most `N` entries, most recent first.
#[derive(Debug)]
pub struct Ring<T, const N: usize> {
    items: VecDeque<T>,
}

impl<T, const N: usize> View for Ring<T, N> {
    type V = Seq<T>;

    closed spec fn view(&self) -> Seq<T> {
        if self.items@.len() <= N {
            self.items@
        } else {
            self.items@.take(N as int)
        }
    }
}

impl<T, const N: usize> Ring<T, N> {
    #[verifier::type_invariant]
    spec fn within_capacity(self) -> bool {
        self.items@.len() <= N
    }

    /// A history never holds more entries than its capacity.
    pub proof fn lemma_within_capacity(&self)
        ensures
            self@.len() <= N,
    {
    }

    /// An empty history.
    pub fn new() -> (ring: Self)
        ensures
            ring@ == Seq::<T>::empty(),
    {
        Ring { items: VecDeque::new() }
    }

    /// Number of entries held; never more than the capacity.
    pub fn len(&self) -> (n: usize)
        ensures
            n == self@.len(),
            n <= N,
    {
        proof {
            use_type_invariant(self);
        }
        self.items.len()
    }

    /// Puts `x` in front and evicts the oldest entry if the capacity would
    /// be exceeded.
    pub fn push(&mut self, x: T)
        ensures
            final(self)@ == push_bounded(old(self)@, x, N as nat),
            final(self)@.len() <= N,
    {
        proof {
            use_type_invariant(&*self);
        }
        let mut items: VecDeque<T> = VecDeque::new();
        std::mem::swap(&mut self.items, &mut items);
        items.push_front(x);
        if items.len() > N {
            items.pop_back();
        }
        self.items = items;
    }

    /// The entry at position `i`, counted from the most recent.
    pub fn get(&self, i: usize) -> (x: &T)
        requires
            i < self@.len(),
        ensures
            *x == self@[i as int],
    {
        proof {
            use_type_invariant(self);
        }
        &self.items[i]
    }

    /// The most recent entry.
    pub fn front(&self) -> (x: Option<&T>)
        ensures
            self@.len() == 0 ==> x is None,
            self@.len() > 0 ==> x == Some(&self@[0]),
    {
        proof {
            use_type_invariant(self);
        }
        if self.items.len() == 0 {
            None
        } else {
            Some(&self.items[0])
        }
    }

    /// The oldest entry.
    pub fn back(&self) -> (x: Option<&T>)
        ensures
            self@.len() == 0 ==> x is None,
            self@.len() > 0 ==> x == Some(&self@[self@.len() - 1]),
    {
        proof {
            use_type_invariant(self);
        }
        let n: usize = self.items.len();
        if n == 0 {
            None
        } else {
            Some(&self.items[n - 1])
        }
    }
}

impl<T: Clone, const N: usize> Clone for Ring<T, N> {
    /// A history with a clone of each entry, in the same order.
    fn clone(&self) -> (res: Self)
        ensures
            res@.len() == self@.len(),
            forall|i: int| 0 <= i < self@.len() ==> cloned(#[trigger] self@[i], res@[i]),
    {
        proof {
            use_type_invariant(self);
        }
        Ring { items: self.items.clone() }
    }
}

} // verus!
