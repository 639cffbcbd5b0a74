//! The reorder buffer: results arrive by position in any order and leave in
//! ascending position order, as soon as every earlier position has left.
use vstd::prelude::*;
use vstd::set_lib::{lemma_int_range, lemma_len_subset, set_int_range};

verus! {

/// The first position at or after `from` (and below `n`) that is not in `filled`,
/// or `n` when there is none.
pub open spec fn advance(filled: Set<int>, from: int, n: int) -> int
    decreases n - from,
{
    if from < n && filled.contains(from) {
        advance(filled, from + 1, n)
    } else {
        from
    }
}

pub proof fn lemma_advance(filled: Set<int>, from: int, n: int)
    requires
        from <= n,
    ensures
        from <= advance(filled, from, n) <= n,
        forall|j: int| from <= j < advance(filled, from, n) ==> filled.contains(j),
        advance(filled, from, n) == n || !filled.contains(advance(filled, from, n)),
    decreases n - from,
{
    if from < n && filled.contains(from) {
        lemma_advance(filled, from + 1, n);
    }
}

/// The positions `from..to`, ascending.
pub open spec fn positions(from: int, to: int) -> Seq<int> {
    Seq::new((to - from) as nat, |j: int| from + j)
}

/// The state of a buffer of `n` slots after some arrivals, as the positions that
/// arrived, the cursor, and the positions emitted so far, in emission order.
pub open spec fn run_arrivals(arrivals: Seq<int>, n: int) -> (Set<int>, int, Seq<int>)
    decreases arrivals.len(),
{
    if arrivals.len() == 0 {
        (Set::empty(), 0, Seq::empty())
    } else {
        let (filled, next, emitted) = run_arrivals(arrivals.drop_last(), n);
        let filled = filled.insert(arrivals.last());
        let cursor = advance(filled, next, n);
        (filled, cursor, emitted + positions(next, cursor))
    }
}

proof fn lemma_run_arrivals(arrivals: Seq<int>, n: int)
    requires
        n >= 0,
    ensures
        ({
            let (filled, next, emitted) = run_arrivals(arrivals, n);
            &&& filled == arrivals.to_set()
            &&& 0 <= next <= n
            &&& forall|j: int| 0 <= j < next ==> filled.contains(j)
            &&& next == n || !filled.contains(next)
            &&& emitted == positions(0, next)
        }),
    decreases arrivals.len(),
{
    if arrivals.len() == 0 {
        assert(arrivals.to_set() =~= Set::empty());
        assert(positions(0, 0) =~= Seq::empty());
    } else {
        let init = arrivals.drop_last();
        lemma_run_arrivals(init, n);
        let (filled0, next0, emitted0) = run_arrivals(init, n);
        let filled = filled0.insert(arrivals.last());
        lemma_advance(filled, next0, n);
        let cursor = advance(filled, next0, n);
        assert(arrivals.to_set() =~= init.to_set().insert(arrivals.last())) by {
            assert(arrivals =~= init.push(arrivals.last()));
            init.lemma_push_to_set_commute(arrivals.last());
        }
        assert(emitted0 + positions(next0, cursor) =~= positions(0, cursor));
    }
}

/// Whatever order the `n` positions of a batch arrive in (each exactly once), the
/// buffer emits every position once, in strictly ascending order.
pub proof fn lemma_emitted_in_order(arrivals: Seq<int>, n: int)
    requires
        n >= 0,
        arrivals.len() == n,
        arrivals.no_duplicates(),
        forall|i: int| 0 <= i < arrivals.len() ==> 0 <= #[trigger] arrivals[i] < n,
    ensures
        run_arrivals(arrivals, n).2 == positions(0, n),
{
    lemma_run_arrivals(arrivals, n);
    let (filled, next, emitted) = run_arrivals(arrivals, n);
    if next < n {
        arrivals.unique_seq_to_set();
        let others = set_int_range(0, n).remove(next);
        assert(filled.subset_of(others)) by {
            assert forall|x: int| filled.contains(x) implies others.contains(x) by {
                let i = choose|i: int| 0 <= i < arrivals.len() && arrivals[i] == x;
                assert(0 <= arrivals[i] < n);
            }
        }
        lemma_int_range(0, n);
        lemma_len_subset(filled, others);
        assert(false);
    }
}

/// A slot array of fixed size with an emission cursor. A slot is pending until its
/// result arrives, holds the result until every earlier slot has been emitted, and
/// is empty again once its result has been handed out.
pub struct ReorderBuffer<T> {
    slots: Vec<Option<T>>,
    next: usize,
    arrivals: Ghost<Seq<int>>,
}

impl<T> ReorderBuffer<T> {
    pub closed spec fn slots(&self) -> Seq<Option<T>> {
        self.slots@
    }

    /// The positions accepted so far, in the order they arrived.
    pub closed spec fn arrivals(&self) -> Seq<int> {
        self.arrivals@
    }

    /// The position of the next result to emit.
    pub closed spec fn cursor(&self) -> nat {
        self.next as nat
    }

    pub open spec fn len(&self) -> nat {
        self.slots().len()
    }

    /// The positions whose result has arrived: those emitted and those waiting.
    pub open spec fn filled(&self) -> Set<int> {
        Set::new(
            |i: int|
                0 <= i < self.cursor() || (self.cursor() <= i < self.len() && self.slots()[i] is Some),
        )
    }

    pub open spec fn wf(&self) -> bool {
        &&& self.cursor() <= self.len()
        &&& self.arrivals().no_duplicates()
        &&& forall|i: int|
            0 <= i < self.arrivals().len() ==> 0 <= #[trigger] self.arrivals()[i] < self.len()
        &&& run_arrivals(self.arrivals(), self.len() as int).0 == self.filled()
        &&& run_arrivals(self.arrivals(), self.len() as int).1 == self.cursor()
        &&& forall|i: int| 0 <= i < self.cursor() ==> #[trigger] self.slots()[i] is None
        &&& self.cursor() == self.len() || self.slots()[self.cursor() as int] is None
    }

    pub open spec fn pending(&self, pos: int) -> bool {
        self.cursor() <= pos < self.len() && self.slots()[pos] is None
    }

    /// A buffer of `n` pending slots.
    pub fn new(n: usize) -> (r: Self)
        ensures
            r.wf(),
            r.len() == n,
            r.cursor() == 0,
            r.arrivals() == Seq::<int>::empty(),
            forall|i: int| 0 <= i < n ==> r.pending(i),
    {
        let mut slots: Vec<Option<T>> = Vec::new();
        let mut i: usize = 0;
        while i < n
            invariant
                i <= n,
                slots@.len() == i,
                forall|j: int| 0 <= j < i ==> #[trigger] slots@[j] is None,
            decreases n - i,
        {
            slots.push(None);
            i = i + 1;
        }
        let r = ReorderBuffer { slots, next: 0, arrivals: Ghost(Seq::empty()) };
        assert(r.filled() =~= Set::empty());
        r
    }

    /// Whether the result for `pos` is still awaited.
    pub fn is_pending(&self, pos: usize) -> (r: bool)
        requires
            self.wf(),
        ensures
            r == self.pending(pos as int),
    {
        pos >= self.next && pos < self.slots.len() && self.slots[pos].is_none()
    }

    /// Whether every result has been emitted.
    pub fn is_done(&self) -> (r: bool)
        requires
            self.wf(),
        ensures
            r == (self.cursor() == self.len()),
    {
        self.next == self.slots.len()
    }

    /// Stores the result for `pos`, then hands out, in position order, every result
    /// from the cursor on up to the first slot still pending.
    pub fn accept(&mut self, pos: usize, item: T) -> (r: Vec<T>)
        requires
            old(self).wf(),
            old(self).pending(pos as int),
        ensures
            final(self).wf(),
            final(self).len() == old(self).len(),
            final(self).arrivals() == old(self).arrivals().push(pos as int),
            final(self).filled() == old(self).filled().insert(pos as int),
            final(self).cursor() == advance(
                final(self).filled(),
                old(self).cursor() as int,
                old(self).len() as int,
            ),
            ({
                let placed = old(self).slots().update(pos as int, Some(item));
                &&& r@.len() == final(self).cursor() - old(self).cursor()
                &&& forall|j: int|
                    0 <= j < r@.len() ==> placed[old(self).cursor() + j] == Some(#[trigger] r@[j])
                &&& forall|i: int|
                    final(self).cursor() <= i < final(self).len() ==> #[trigger] final(self).slots()[i]
                        == placed[i]
            }),
    {
        let ghost placed = self.slots@.update(pos as int, Some(item));
        let ghost start = self.next as int;
        let ghost filled = self.filled().insert(pos as int);
        let ghost arr = self.arrivals@.push(pos as int);
        proof {
            lemma_run_arrivals(self.arrivals@, self.slots@.len() as int);
            assert(!self.arrivals@.contains(pos as int)) by {
                if self.arrivals@.contains(pos as int) {
                    assert(self.arrivals@.to_set().contains(pos as int));
                }
            }
            assert(arr.drop_last() =~= self.arrivals@);
            assert forall|a: int, b: int| 0 <= a < b < arr.len() implies arr[a] != arr[b] by {
                if b == arr.len() - 1 {
                    assert(self.arrivals@[a] == arr[a]);
                }
            }
            assert(arr.no_duplicates());
        }
        self.arrivals = Ghost(arr);
        self.slots.set(pos, Some(item));
        let mut out: Vec<T> = Vec::new();
        let n = self.slots.len();
        proof {
            assert(self.filled() =~= filled);
            lemma_advance(filled, start, n as int);
        }
        while self.next < n && self.slots[self.next].is_some()
            invariant
                n == self.slots@.len(),
                n == placed.len(),
                self.arrivals@ == arr,
                start <= self.next <= n,
                self.filled() == filled,
                advance(filled, start, n as int) == advance(filled, self.next as int, n as int),
                forall|i: int| 0 <= i < self.next ==> #[trigger] self.slots@[i] is None,
                forall|i: int| self.next <= i < n ==> #[trigger] self.slots@[i] == placed[i],
                out@.len() == self.next - start,
                forall|j: int| 0 <= j < out@.len() ==> placed[start + j] == Some(#[trigger] out@[j]),
            decreases n - self.next,
        {
            let k = self.next;
            let ghost before = self.filled();
            let taken = self.slots[k].take();
            match taken {
                Some(v) => {
                    out.push(v);
                },
                None => {},
            }
            self.next = k + 1;
            assert(self.filled() =~= before);
        }
        proof {
            lemma_advance(filled, self.next as int, n as int);
        }
        out
    }
}

/// Once every position of a buffer has arrived, each exactly once and in any order,
/// everything has been emitted, and the positions handed out by its successive
/// `accept` calls, taken together, are `0..n` in strictly ascending order.
pub proof fn lemma_buffer_emits_in_order<T>(b: &ReorderBuffer<T>)
    requires
        b.wf(),
        b.arrivals().len() == b.len(),
    ensures
        b.cursor() == b.len(),
        run_arrivals(b.arrivals(), b.len() as int).2 == positions(0, b.len() as int),
{
    lemma_emitted_in_order(b.arrivals(), b.len() as int);
    lemma_run_arrivals(b.arrivals(), b.len() as int);
    let next = run_arrivals(b.arrivals(), b.len() as int).1;
    assert(positions(0, next).len() == next);
}

} // verus!
