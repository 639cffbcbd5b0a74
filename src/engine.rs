//! The aggregator of an evaluating run: it receives results in completion order,
//! reports them in case order, and keeps the running total.
use vstd::prelude::*;
use crate::reorder::{advance, ReorderBuffer};
use crate::score::{comments_of, report_text, CaseResult};

verus! {

/// The sum of the scores of `rs`.
pub open spec fn score_sum(rs: Seq<CaseResult>) -> nat
    decreases rs.len(),
{
    if rs.len() == 0 {
        0
    } else {
        score_sum(rs.drop_last()) + rs.last().score as nat
    }
}

/// `a`, held at the largest `u64`.
pub open spec fn capped(a: nat) -> u64 {
    if a > u64::MAX as nat {
        u64::MAX
    } else {
        a as u64
    }
}

/// The report line of a result.
pub open spec fn line_of(r: CaseResult) -> Seq<char> {
    report_text(r.case, r.score, r.elapsed_ms, comments_of(r.comment_pattern(), r.stderr@))
}

/// Collects the results of a batch: a reorder buffer over the resolved sequence, the
/// running total of the scores reported, and the last result reported.
pub struct Aggregator {
    buffer: ReorderBuffer<CaseResult>,
    total: u64,
    last: Option<CaseResult>,
}

impl Aggregator {
    pub closed spec fn buffer(&self) -> ReorderBuffer<CaseResult> {
        self.buffer
    }

    pub closed spec fn total_spec(&self) -> u64 {
        self.total
    }

    pub closed spec fn last_spec(&self) -> Option<CaseResult> {
        self.last
    }

    pub open spec fn wf(&self) -> bool {
        self.buffer().wf()
    }

    /// An aggregator for a batch of `n` cases, nothing reported yet.
    pub fn new(n: usize) -> (r: Self)
        ensures
            r.wf(),
            r.buffer().len() == n,
            r.buffer().cursor() == 0,
            r.buffer().arrivals() == Seq::<int>::empty(),
            forall|i: int| 0 <= i < n ==> r.buffer().pending(i),
            r.total_spec() == 0,
            r.last_spec() is None,
    {
        Aggregator { buffer: ReorderBuffer::new(n), total: 0, last: None }
    }

    /// Whether the result at position `pos` is still awaited.
    pub fn is_pending(&self, pos: usize) -> (r: bool)
        requires
            self.wf(),
        ensures
            r == self.buffer().pending(pos as int),
    {
        self.buffer.is_pending(pos)
    }

    /// Whether every result has been reported.
    pub fn is_done(&self) -> (r: bool)
        requires
            self.wf(),
        ensures
            r == (self.buffer().cursor() == self.buffer().len()),
    {
        self.buffer.is_done()
    }

    /// Takes in the result at position `pos` and returns, in position order, the
    /// report lines of every result that can now be reported; their scores are added
    /// to the total, and the last of them becomes the last result reported.
    pub fn receive(&mut self, pos: usize, result: CaseResult) -> (r: Vec<String>)
        requires
            old(self).wf(),
            old(self).buffer().pending(pos as int),
        ensures
            final(self).wf(),
            final(self).buffer().len() == old(self).buffer().len(),
            final(self).buffer().arrivals() == old(self).buffer().arrivals().push(pos as int),
            final(self).buffer().filled() == old(self).buffer().filled().insert(pos as int),
            final(self).buffer().cursor() == advance(
                final(self).buffer().filled(),
                old(self).buffer().cursor() as int,
                old(self).buffer().len() as int,
            ),
            ({
                let placed = old(self).buffer().slots().update(pos as int, Some(result));
                let from = old(self).buffer().cursor() as int;
                let k = final(self).buffer().cursor() - from;
                let emitted = Seq::new(k as nat, |j: int| placed[from + j]->Some_0);
                &&& r@.len() == k
                &&& forall|j: int| 0 <= j < k ==> (#[trigger] placed[from + j]) is Some
                &&& forall|j: int| 0 <= j < k ==> (#[trigger] r@[j])@ == line_of(emitted[j])
                &&& final(self).total_spec() == capped(
                    old(self).total_spec() as nat + score_sum(emitted),
                )
                &&& final(self).last_spec() == if k > 0 {
                    Some(emitted.last())
                } else {
                    old(self).last_spec()
                }
            }),
    {
        let ghost placed = self.buffer.slots().update(pos as int, Some(result));
        let ghost from = self.buffer.cursor() as int;
        let ghost total0 = self.total;
        let ready = self.buffer.accept(pos, result);
        let ghost k = ready@.len() as int;
        let ghost emitted = Seq::new(k as nat, |j: int| placed[from + j]->Some_0);
        assert forall|j: int| 0 <= j < k implies (#[trigger] placed[from + j]) is Some by {
            assert(placed[from + j] == Some(ready@[j]));
        }
        assert(ready@ =~= emitted);
        let mut lines: Vec<String> = Vec::new();
        let mut ready = ready;
        let mut i: usize = 0;
        let ready_len: usize = ready.len();
        assert(ready@.len() == ready_len);
        let ghost items = ready@;
        let ghost buf = self.buffer;
        // Reports from the back, so that each result can be moved out.
        let mut rev: Vec<CaseResult> = Vec::new();
        assert(items.subrange(0, items.len() as int) =~= items);
        while ready.len() > 0
            invariant
                ready@ == items.subrange(0, ready@.len() as int),
                rev@.len() + ready@.len() == items.len(),
                forall|j: int| 0 <= j < rev@.len() ==> #[trigger] rev@[j] == items[items.len() - 1 - j],
                self.buffer == buf,
                items.len() <= usize::MAX,
                self.total == total0,
                self.last == old(self).last_spec(),
                i == 0,
            decreases ready@.len(),
        {
            let x = ready.pop().unwrap();
            rev.push(x);
        }
        while rev.len() > 0
            invariant
                i + rev@.len() == items.len(),
                forall|j: int| 0 <= j < rev@.len() ==> #[trigger] rev@[j] == items[items.len() - 1 - j],
                lines@.len() == i,
                forall|j: int| 0 <= j < i ==> (#[trigger] lines@[j])@ == line_of(items[j]),
                self.total as nat == capped(total0 as nat + score_sum(items.subrange(0, i as int))),
                i > 0 ==> self.last == Some(items[i - 1]),
                i == 0 ==> self.last == old(self).last_spec(),
                self.buffer == buf,
                items.len() <= usize::MAX,
            decreases rev@.len(),
        {
            let x = rev.pop().unwrap();
            assert(x == items[i as int]);
            lines.push(x.report_line());
            proof {
                assert(items.subrange(0, i + 1).drop_last() =~= items.subrange(0, i as int));
            }
            self.total = self.total.saturating_add(x.score);
            self.last = Some(x);
            i = i + 1;
        }
        assert(items.subrange(0, i as int) =~= items);
        lines
    }

    /// The sum of the scores reported so far, held at the largest `u64`.
    pub fn total(&self) -> (r: u64)
        ensures
            r == self.total_spec(),
    {
        self.total
    }

    /// The last result reported, if any.
    pub fn last(&self) -> (r: Option<&CaseResult>)
        ensures
            r == match self.last_spec() {
                Some(x) => Some(&x),
                None => None::<&CaseResult>,
            },
    {
        match &self.last {
            Some(x) => Some(x),
            None => None,
        }
    }
}

} // verus!
