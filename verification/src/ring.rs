//! Bounded in-memory logs: the newest entries are kept, the oldest drop
//! off once a fixed capacity is reached.

use std::collections::VecDeque;

use vstd::prelude::*;

verus! {

/// Values that can hand out an identical copy of themselves.
pub trait Duplicate: Sized {
    fn duplicate(&self) -> (r: Self)
        ensures
            r == *self,
    ;
}

/// What a bounded log holds after appending `x` to `s` at capacity `cap`:
/// once full, the oldest entry is dropped.
pub open spec fn pushed<T>(s: Seq<T>, x: T, cap: nat) -> Seq<T> {
    if s.len() >= cap {
        s.drop_first().push(x)
    } else {
        s.push(x)
    }
}

/// A log of capacity `cap` holding `s` after `xs` is appended entry by entry.
pub open spec fn pushed_all<T>(s: Seq<T>, xs: Seq<T>, cap: nat) -> Seq<T>
    decreases xs.len(),
{
    if xs.len() == 0 {
        s
    } else {
        pushed(pushed_all(s, xs.drop_last(), cap), xs.last(), cap)
    }
}

/// The smaller of two naturals.
pub open spec fn min_nat(a: nat, b: nat) -> nat {
    if a <= b {
        a
    } else {
        b
    }
}

/// The newest `limit` entries of `s`, newest first.
pub open spec fn newest_first<T>(s: Seq<T>, limit: nat) -> Seq<T> {
    s.reverse().take(min_nat(limit, s.len()) as int)
}

/// The newest `limit` entries of `s`, oldest first.
pub open spec fn newest_in_order<T>(s: Seq<T>, limit: nat) -> Seq<T> {
    s.skip(s.len() - min_nat(limit, s.len()))
}

/// The newest `cap` entries of `s` (all of them when it holds no more).
pub open spec fn newest<T>(s: Seq<T>, cap: nat) -> Seq<T> {
    s.skip(s.len() - min_nat(s.len(), cap))
}

/// A log holding at most `CAP` entries, oldest first.
#[verifier::reject_recursive_types(T)]
pub struct Ring<T, const CAP: usize> {
    items: VecDeque<T>,
}

impl<T, const CAP: usize> Ring<T, CAP> {
    /// The entries, oldest first: never more than the capacity.
    pub closed spec fn entries(&self) -> Seq<T> {
        newest(self.items@, CAP as nat)
    }

    /// The capacity.
    pub open spec fn capacity(&self) -> nat {
        CAP as nat
    }

    /// Never holds more than its capacity, which is positive.
    #[verifier::type_invariant]
    closed spec fn wf(&self) -> bool {
        0 < CAP && self.items@.len() <= CAP
    }

    /// Every log holds at most its capacity.
    pub proof fn lemma_bounded(&self)
        ensures
            self.entries().len() <= self.capacity(),
    {
    }

    /// Within the capacity, the entries are exactly the items held.
    proof fn lemma_exact(&self)
        requires
            self.items@.len() <= CAP,
        ensures
            self.entries() == self.items@,
    {
        assert(self.items@.skip(0) =~= self.items@);
    }
}

impl<T: Duplicate, const CAP: usize> Ring<T, CAP> {
    /// An empty log.
    pub fn new() -> (r: Self)
        requires
            CAP > 0,
        ensures
            r.entries() == Seq::<T>::empty(),
    {
        let r = Ring { items: VecDeque::new() };
        proof {
            r.lemma_exact();
        }
        r
    }

    /// Append `x`, dropping the oldest entry when full.
    pub fn push(&mut self, x: T)
        ensures
            final(self).entries().len() <= final(self).capacity(),
            final(self).entries() == pushed(old(self).entries(), x, old(self).capacity()),
    {
        proof {
            use_type_invariant(&*self);
            self.lemma_exact();
        }
        let mut items: VecDeque<T> = VecDeque::new();
        std::mem::swap(&mut items, &mut self.items);
        if items.len() >= CAP {
            let _ = items.pop_front();
        }
        items.push_back(x);
        self.items = items;
        proof {
            self.lemma_exact();
        }
    }

    /// Number of entries.
    pub fn len(&self) -> (n: usize)
        ensures
            n == self.entries().len(),
    {
        proof {
            use_type_invariant(self);
            self.lemma_exact();
        }
        self.items.len()
    }

    /// Drop every entry.
    pub fn clear(&mut self)
        ensures
            final(self).entries() == Seq::<T>::empty(),
    {
        proof {
            use_type_invariant(&*self);
        }
        self.items = VecDeque::new();
        proof {
            self.lemma_exact();
        }
    }

    /// Copies of the newest `limit` entries, newest first.
    pub fn recent_newest_first(&self, limit: usize) -> (r: Vec<T>)
        ensures
            r@ == newest_first(self.entries(), limit as nat),
    {
        proof {
            use_type_invariant(self);
            self.lemma_exact();
        }
        let n = self.items.len();
        let take = if limit < n {
            limit
        } else {
            n
        };
        let mut out: Vec<T> = Vec::new();
        let mut k: usize = 0;
        while k < take
            invariant
                n == self.items@.len(),
                take <= n,
                take == min_nat(limit as nat, n as nat),
                0 <= k <= take,
                out@ == self.items@.reverse().take(k as int),
            decreases take - k,
        {
            let x = self.items[n - 1 - k].duplicate();
            out.push(x);
            assert(self.items@.reverse().take(k + 1) =~= self.items@.reverse().take(k as int).push(
                self.items@[n - 1 - k],
            ));
            k += 1;
        }
        out
    }

    /// Copies of the newest `limit` entries, oldest first.
    pub fn recent_in_order(&self, limit: usize) -> (r: Vec<T>)
        ensures
            r@ == newest_in_order(self.entries(), limit as nat),
    {
        proof {
            use_type_invariant(self);
            self.lemma_exact();
        }
        let n = self.items.len();
        let take = if limit < n {
            limit
        } else {
            n
        };
        let start = n - take;
        let mut out: Vec<T> = Vec::new();
        let mut k: usize = start;
        while k < n
            invariant
                n == self.items@.len(),
                start == n - min_nat(limit as nat, n as nat),
                start <= k <= n,
                out@ == self.items@.subrange(start as int, k as int),
            decreases n - k,
        {
            let x = self.items[k].duplicate();
            out.push(x);
            assert(self.items@.subrange(start as int, k + 1) =~= self.items@.subrange(
                start as int,
                k as int,
            ).push(self.items@[k as int]));
            k += 1;
        }
        assert(self.items@.subrange(start as int, n as int) =~= self.items@.skip(start as int));
        out
    }
}

/// A bounded log never exceeds its capacity, and each push keeps the
/// newest entry last.
pub proof fn lemma_pushed_bounded<T>(s: Seq<T>, x: T, cap: nat)
    requires
        cap > 0,
        s.len() <= cap,
    ensures
        pushed(s, x, cap).len() <= cap,
        pushed(s, x, cap).last() == x,
        s.len() < cap ==> pushed(s, x, cap).len() == s.len() + 1,
        s.len() == cap ==> pushed(s, x, cap).len() == cap,
{
}

/// Appending keeps the old entries in order behind the new one, dropping
/// from the oldest end just enough to stay within the capacity.
pub proof fn lemma_pushed_window<T>(s: Seq<T>, x: T, cap: nat)
    requires
        cap > 0,
        s.len() <= cap,
    ensures
        pushed(s, x, cap) == s.push(x).skip(s.len() + 1 - min_nat(cap, s.len() + 1)),
{
    if s.len() >= cap {
        assert(s.drop_first().push(x) =~= s.push(x).skip(1));
    } else {
        assert(s.push(x).skip(0) =~= s.push(x));
    }
}

/// Listing the newest entries of a log with room for all of them gives
/// them all, newest first.
pub proof fn lemma_newest_first_all<T>(s: Seq<T>, limit: nat)
    requires
        s.len() <= limit,
    ensures
        newest_first(s, limit) == s.reverse(),
{
    assert(s.reverse().take(s.len() as int) =~= s.reverse());
}

/// After an append, the newest-first listing starts with the new entry,
/// followed by everything listed before, cut to the capacity and the limit.
pub proof fn lemma_pushed_newest_first<T>(s: Seq<T>, x: T, cap: nat, limit: nat)
    requires
        cap > 0,
        s.len() <= cap,
    ensures
        newest_first(pushed(s, x, cap), limit) == (seq![x] + s.reverse()).take(
            min_nat(limit, min_nat(cap, s.len() + 1)) as int,
        ),
{
    let p = pushed(s, x, cap);
    let n = min_nat(limit, min_nat(cap, s.len() + 1));
    let q = seq![x] + s.reverse();
    assert(p.len() == min_nat(cap, s.len() + 1));
    assert forall|i: int| 0 <= i < n implies #[trigger] p.reverse()[i] == q[i] by {
        if i > 0 {
            assert(q[i] == s.reverse()[i - 1]);
            assert(s.reverse()[i - 1] == s[s.len() - i]);
            if s.len() >= cap {
                assert(p[p.len() - 1 - i] == s.drop_first()[cap - 1 - i]);
            }
        }
    }
    assert(newest_first(p, limit) =~= q.take(n as int));
}

/// Appending a run of entries to an empty log leaves the newest of them,
/// as many as the capacity holds, oldest first.
pub proof fn lemma_pushed_all_window<T>(xs: Seq<T>, cap: nat)
    requires
        cap > 0,
    ensures
        pushed_all(Seq::<T>::empty(), xs, cap) == xs.skip(xs.len() - min_nat(xs.len(), cap)),
    decreases xs.len(),
{
    if xs.len() > 0 {
        let ys = xs.drop_last();
        lemma_pushed_all_window(ys, cap);
        let w = pushed_all(Seq::<T>::empty(), ys, cap);
        lemma_pushed_window(w, xs.last(), cap);
        let k = min_nat(xs.len(), cap);
        let target = xs.skip(xs.len() - k);
        let got = w.push(xs.last()).skip(w.len() + 1 - min_nat(cap, w.len() + 1));
        assert(got.len() == target.len());
        assert forall|i: int| 0 <= i < target.len() implies #[trigger] got[i] == target[i] by {
            if i < target.len() - 1 {
                assert(got[i] == w[i + w.len() + 1 - min_nat(cap, w.len() + 1)]);
            }
        }
        assert(got =~= target);
    } else {
        assert(xs.skip(0) =~= xs);
    }
}

/// Appending a run of entries to an empty log and listing newest first
/// gives the run backwards, cut to the capacity and the limit.
pub proof fn lemma_pushed_all_newest_first<T>(xs: Seq<T>, cap: nat, limit: nat)
    requires
        cap > 0,
    ensures
        newest_first(pushed_all(Seq::<T>::empty(), xs, cap), limit) == xs.reverse().take(
            min_nat(limit, min_nat(xs.len(), cap)) as int,
        ),
{
    lemma_pushed_all_window(xs, cap);
    let w = pushed_all(Seq::<T>::empty(), xs, cap);
    let n = min_nat(limit, min_nat(xs.len(), cap));
    assert forall|i: int| 0 <= i < n implies #[trigger] w.reverse()[i] == xs.reverse()[i] by {
        assert(w[w.len() - 1 - i] == xs[xs.len() - 1 - i]);
    }
    assert(newest_first(w, limit) =~= xs.reverse().take(n as int));
}

} // verus!
