//! Point batches: how a grid of query points is cut into requests, how many
//! requests may be in flight, and how the answers are put back in order.

use crate::error::FetchError;
use crate::fixed::{ceil_div, lemma_ceil_div_covers};
use crate::providers::Punkt;
use vstd::prelude::*;

verus! {

/// Points per request: the service answers no more in one call.
pub const API_CALL_NUM_POINTS: usize = 50;

/// Requests that may be in flight at one time.
pub const API_MAX_CONCURRENT_REQUESTS: usize = 150;

/// Number of batches that `point_count` points make.
pub open spec fn batch_total(point_count: int, batch_size: int) -> int {
    ceil_div(point_count, batch_size)
}

/// Index of the first point of batch `index`.
pub open spec fn batch_start(batch_size: int, index: int) -> int {
    index * batch_size
}

/// Number of points in batch `index`: every batch is full but, possibly, the last.
pub open spec fn batch_len(point_count: int, batch_size: int, index: int) -> int {
    if (index + 1) * batch_size <= point_count {
        batch_size
    } else {
        point_count - index * batch_size
    }
}

/// The points of batch `index`.
pub open spec fn batch_points(points: Seq<Punkt>, batch_size: int, index: int) -> Seq<Punkt> {
    points.subrange(
        batch_start(batch_size, index),
        batch_start(batch_size, index) + batch_len(points.len() as int, batch_size, index),
    )
}

/// Every batch lies inside the points and is not empty.
pub proof fn lemma_batch_bounds(point_count: int, batch_size: int, index: int)
    requires
        point_count >= 0,
        batch_size > 0,
        0 <= index < batch_total(point_count, batch_size),
    ensures
        0 <= batch_start(batch_size, index) < point_count,
        0 < batch_len(point_count, batch_size, index) <= batch_size,
        batch_start(batch_size, index) + batch_len(point_count, batch_size, index) <= point_count,
        index + 1 < batch_total(point_count, batch_size) ==> batch_len(
            point_count,
            batch_size,
            index,
        ) == batch_size,
        batch_start(batch_size, index) + batch_len(point_count, batch_size, index)
            == if index + 1 < batch_total(point_count, batch_size) {
            batch_start(batch_size, index + 1)
        } else {
            point_count
        },
{
    lemma_ceil_div_covers(point_count, batch_size);
    let total = batch_total(point_count, batch_size);
    assert(index * batch_size <= (total - 1) * batch_size) by (nonlinear_arith)
        requires
            index <= total - 1,
            batch_size > 0,
    ;
    assert(index * batch_size >= 0) by (nonlinear_arith)
        requires
            index >= 0,
            batch_size > 0,
    ;
    assert((index + 1) * batch_size == index * batch_size + batch_size) by (nonlinear_arith);
    if index + 1 < total {
        assert((index + 1) * batch_size <= (total - 1) * batch_size) by (nonlinear_arith)
            requires
                index + 1 <= total - 1,
                batch_size > 0,
        ;
    } else {
        assert(index + 1 == total);
    }
}

/// Number of batches.
pub fn batch_count(point_count: usize, batch_size: usize) -> (n: usize)
    requires
        batch_size > 0,
    ensures
        n == batch_total(point_count as int, batch_size as int),
{
    proof {
        lemma_ceil_div_covers(point_count as int, batch_size as int);
        let a = point_count as int;
        let b = batch_size as int;
        assert(a == b * (a / b) + a % b && 0 <= a % b < b) by (nonlinear_arith)
            requires
                b > 0,
        ;
        let w = a / b;
        let q = ceil_div(a, b);
        if a % b == 0 {
            assert(q == w) by (nonlinear_arith)
                requires
                    q * b >= a,
                    (q - 1) * b < a,
                    a == b * w,
                    b > 0,
            ;
        } else {
            assert(q == w + 1) by (nonlinear_arith)
                requires
                    q * b >= a,
                    (q - 1) * b < a,
                    a == b * w + a % b,
                    0 < a % b < b,
                    b > 0,
            ;
        }
    }
    if point_count % batch_size == 0 {
        point_count / batch_size
    } else {
        point_count / batch_size + 1
    }
}

/// Copies out the points of batch `index`.
pub fn batch_of(points: &Vec<Punkt>, batch_size: usize, index: usize) -> (batch: Vec<Punkt>)
    requires
        batch_size > 0,
        index < batch_total(points.len() as int, batch_size as int),
    ensures
        batch@ == batch_points(points@, batch_size as int, index as int),
{
    proof {
        lemma_batch_bounds(points.len() as int, batch_size as int, index as int);
    }
    let start: usize = index * batch_size;
    let end: usize = if points.len() - start < batch_size {
        points.len()
    } else {
        start + batch_size
    };
    assert(end == start + batch_len(points.len() as int, batch_size as int, index as int)) by {
        assert((index + 1) * batch_size == index * batch_size + batch_size) by (nonlinear_arith);
    }
    let mut batch: Vec<Punkt> = Vec::new();
    let mut i: usize = start;
    while i < end
        invariant
            start <= i <= end <= points.len(),
            batch@ == points@.subrange(start as int, i as int),
        decreases end - i,
    {
        batch.push(points[i]);
        i = i + 1;
        assert(batch@ =~= points@.subrange(start as int, i as int));
    }
    batch
}


/// Where one batch stands.
#[derive(Debug)]
pub enum Slot {
    /// Not yet handed out.
    Pending,
    /// Handed out, and not yet answered.
    InFlight,
    /// Answered with as many points as were asked for.
    Done(Vec<Punkt>),
    /// Not answered, or answered with another number of points.
    Failed,
}

/// What the caller is to do next.
#[derive(Clone, Copy, Debug, PartialEq, Eq)]
pub enum Action {
    /// Send the request of this batch, and report its outcome with `complete`.
    Submit { batch: usize },
    /// Wait for one of the requests in flight.
    Wait,
    /// A batch has failed, or every batch has gone out and come back:
    /// call `finish`.
    Finished,
}

/// Number of batches in flight.
pub open spec fn count_in_flight(slots: Seq<Slot>) -> nat
    decreases slots.len(),
{
    if slots.len() == 0 {
        0
    } else {
        count_in_flight(slots.drop_last()) + if slots.last() is InFlight {
            1nat
        } else {
            0nat
        }
    }
}

/// Whether some batch has failed.
pub open spec fn any_failed(slots: Seq<Slot>) -> bool {
    exists|i: int| 0 <= i < slots.len() && #[trigger] slots[i] is Failed
}

/// Whether batch `index` is the first that failed.
pub open spec fn is_first_failed(slots: Seq<Slot>, index: int) -> bool {
    &&& 0 <= index < slots.len()
    &&& slots[index] is Failed
    &&& forall|j: int| 0 <= j < index ==> !(#[trigger] slots[j] is Failed)
}

/// Whether batch `i` has its answer.
pub open spec fn is_done(slots: Seq<Slot>, i: int) -> bool {
    slots[i] is Done
}

/// Whether every batch has its answer.
pub open spec fn all_done(slots: Seq<Slot>) -> bool {
    forall|i: int| 0 <= i < slots.len() ==> is_done(slots, i)
}

/// The answers, batch after batch in the order in which the batches were
/// handed out; a batch without an answer adds nothing.
pub open spec fn assembled(slots: Seq<Slot>) -> Seq<Punkt>
    decreases slots.len(),
{
    if slots.len() == 0 {
        Seq::<Punkt>::empty()
    } else {
        assembled(slots.drop_last()) + match slots.last() {
            Slot::Done(points) => points@,
            _ => Seq::<Punkt>::empty(),
        }
    }
}

/// What an outcome makes of a batch in flight: an answer of the expected
/// length is kept, anything else is a failure.
pub open spec fn settled_slot(expected: int, outcome: Option<Vec<Punkt>>) -> Slot {
    match outcome {
        Some(points) => if points@.len() == expected {
            Slot::Done(points)
        } else {
            Slot::Failed
        },
        None => Slot::Failed,
    }
}

/// The state of a fetch as contracts see it.
pub struct FetchView {
    pub point_count: nat,
    pub batch_size: nat,
    pub limit: nat,
    pub next: nat,
    pub slots: Seq<Slot>,
}

impl FetchView {
    /// The invariant of every state that the operations reach.
    pub open spec fn valid(self) -> bool {
        &&& self.batch_size > 0
        &&& self.limit > 0
        &&& self.slots.len() == batch_total(self.point_count as int, self.batch_size as int)
        &&& self.next <= self.slots.len()
        &&& forall|i: int| 0 <= i < self.next ==> !(#[trigger] self.slots[i] is Pending)
        &&& forall|i: int| self.next <= i < self.slots.len() ==> #[trigger] self.slots[i] is Pending
        &&& count_in_flight(self.slots) <= self.limit
        &&& forall|i: int|
            0 <= i < self.slots.len() ==> (#[trigger] self.slots[i] matches Slot::Done(points)
                ==> points@.len() == batch_len(
                self.point_count as int,
                self.batch_size as int,
                i,
            ))
    }

    /// Whether the admission gate lets the next batch out.
    pub open spec fn can_submit(self) -> bool {
        &&& !any_failed(self.slots)
        &&& self.next < self.slots.len()
        &&& count_in_flight(self.slots) < self.limit
    }

    /// Whether the fetch is over: a batch has failed, or nothing is left to
    /// send or to wait for.
    pub open spec fn settled(self) -> bool {
        !self.can_submit() && (any_failed(self.slots) || count_in_flight(self.slots) == 0)
    }

    /// The state after the next batch went out.
    pub open spec fn submit(self) -> FetchView {
        FetchView {
            next: self.next + 1,
            slots: self.slots.update(self.next as int, Slot::InFlight),
            ..self
        }
    }

    /// The state after batch `batch` came back with `outcome`.
    pub open spec fn complete(self, batch: int, outcome: Option<Vec<Punkt>>) -> FetchView {
        FetchView {
            slots: self.slots.update(
                batch,
                settled_slot(
                    batch_len(self.point_count as int, self.batch_size as int, batch),
                    outcome,
                ),
            ),
            ..self
        }
    }
}

/// Replacing one slot changes the number in flight by what that slot adds.
pub proof fn lemma_count_update(slots: Seq<Slot>, i: int, slot: Slot)
    requires
        0 <= i < slots.len(),
    ensures
        count_in_flight(slots.update(i, slot)) + (if slots[i] is InFlight {
            1nat
        } else {
            0nat
        }) == count_in_flight(slots) + (if slot is InFlight {
            1nat
        } else {
            0nat
        }),
    decreases slots.len(),
{
    let updated = slots.update(i, slot);
    if i == slots.len() - 1 {
        assert(updated.drop_last() =~= slots.drop_last());
    } else {
        assert(updated.drop_last() =~= slots.drop_last().update(i, slot));
        lemma_count_update(slots.drop_last(), i, slot);
    }
}

/// No more batches are in flight than there are batches.
pub proof fn lemma_count_bound(slots: Seq<Slot>)
    ensures
        count_in_flight(slots) <= slots.len(),
        count_in_flight(slots) == 0 <==> forall|i: int|
            0 <= i < slots.len() ==> !(#[trigger] slots[i] is InFlight),
    decreases slots.len(),
{
    if slots.len() > 0 {
        lemma_count_bound(slots.drop_last());
        if count_in_flight(slots) == 0 {
            assert forall|i: int| 0 <= i < slots.len() implies !(#[trigger] slots[i]
                is InFlight) by {
                if i < slots.len() - 1 {
                    assert(slots.drop_last()[i] == slots[i]);
                }
            }
        } else {
            if forall|i: int| 0 <= i < slots.len() ==> !(#[trigger] slots[i] is InFlight) {
                assert forall|i: int| 0 <= i < slots.drop_last().len() implies !(
                #[trigger] slots.drop_last()[i] is InFlight) by {
                    assert(slots.drop_last()[i] == slots[i]);
                }
                assert(!(slots[slots.len() - 1] is InFlight));
            }
        }
    }
}


/// A point fetch in progress: which batches went out, which came back, and
/// what they answered.
///
/// The caller drives it: `next_action` says what to do, `complete` takes the
/// outcome of a request, and once `next_action` says `Finished`, `finish`
/// hands out the points or names the batch that failed.
#[derive(Debug)]
pub struct BatchFetch {
    point_count: usize,
    batch_size: usize,
    limit: usize,
    next: usize,
    in_flight: usize,
    failed: bool,
    slots: Vec<Slot>,
}

impl View for BatchFetch {
    type V = FetchView;

    closed spec fn view(&self) -> FetchView {
        FetchView {
            point_count: self.point_count as nat,
            batch_size: self.batch_size as nat,
            limit: self.limit as nat,
            next: self.next as nat,
            slots: self.slots@,
        }
    }
}

fn append_points(dst: &mut Vec<Punkt>, src: &Vec<Punkt>)
    ensures
        final(dst)@ == old(dst)@ + src@,
{
    let mut i: usize = 0;
    while i < src.len()
        invariant
            i <= src.len(),
            dst@ == old(dst)@ + src@.take(i as int),
        decreases src.len() - i,
    {
        dst.push(src[i]);
        i = i + 1;
        assert(dst@ =~= old(dst)@ + src@.take(i as int));
    }
    assert(src@.take(src.len() as int) =~= src@);
}

impl BatchFetch {
    /// The counters agree with the slots.
    pub closed spec fn wf(&self) -> bool {
        &&& self@.valid()
        &&& self.in_flight == count_in_flight(self.slots@)
        &&& self.failed == any_failed(self.slots@)
    }

    /// A fetch of `point_count` points in batches of `batch_size`, with at
    /// most `limit` requests in flight. Nothing has gone out yet.
    pub fn new(point_count: usize, batch_size: usize, limit: usize) -> (fetch: BatchFetch)
        requires
            batch_size > 0,
            limit > 0,
        ensures
            fetch.wf(),
            fetch@.valid(),
            fetch@ == (FetchView {
                point_count: point_count as nat,
                batch_size: batch_size as nat,
                limit: limit as nat,
                next: 0,
                slots: Seq::new(
                    batch_total(point_count as int, batch_size as int) as nat,
                    |i: int| Slot::Pending,
                ),
            }),
    {
        let total: usize = batch_count(point_count, batch_size);
        let mut slots: Vec<Slot> = Vec::new();
        let mut i: usize = 0;
        while i < total
            invariant
                i <= total,
                slots@ =~= Seq::new(i as nat, |k: int| Slot::Pending),
                count_in_flight(slots@) == 0,
            decreases total - i,
        {
            let ghost before = slots@;
            slots.push(Slot::Pending);
            i = i + 1;
            assert(slots@.drop_last() =~= before);
        }
        BatchFetch { point_count, batch_size, limit, next: 0, in_flight: 0, failed: false, slots }
    }

    /// Number of batches.
    pub fn batches(&self) -> (n: usize)
        requires
            self.wf(),
        ensures
            n == self@.slots.len(),
    {
        self.slots.len()
    }

    /// Number of requests in flight.
    pub fn in_flight(&self) -> (n: usize)
        requires
            self.wf(),
        ensures
            n == count_in_flight(self@.slots),
            n <= self@.limit,
    {
        self.in_flight
    }

    /// Says what to do next, and counts the batch as in flight where the
    /// answer is `Submit`.
    ///
    /// A batch goes out only while no batch has failed and fewer than the
    /// limit are in flight, and the batches go out in index order.
    pub fn next_action(&mut self) -> (action: Action)
        requires
            old(self).wf(),
        ensures
            final(self).wf(),
            final(self)@.valid(),
            match action {
                Action::Submit { batch } => {
                    &&& old(self)@.can_submit()
                    &&& batch == old(self)@.next
                    &&& final(self)@ == old(self)@.submit()
                },
                Action::Wait => {
                    &&& !old(self)@.can_submit()
                    &&& !old(self)@.settled()
                    &&& final(self)@ == old(self)@
                },
                Action::Finished => old(self)@.settled() && final(self)@ == old(self)@,
            },
    {
        if !self.failed && self.next < self.slots.len() && self.in_flight < self.limit {
            let batch: usize = self.next;
            proof {
                lemma_count_update(self.slots@, batch as int, Slot::InFlight);
                let updated = self.slots@.update(batch as int, Slot::InFlight);
                assert(!any_failed(updated)) by {
                    if any_failed(updated) {
                        let i = choose|i: int| 0 <= i < updated.len() && #[trigger] updated[i] is Failed;
                        assert(self.slots@[i] is Failed);
                    }
                }
            }
            self.slots.set(batch, Slot::InFlight);
            self.next = batch + 1;
            self.in_flight = self.in_flight + 1;
            Action::Submit { batch }
        } else if !self.failed && self.in_flight > 0 {
            Action::Wait
        } else {
            Action::Finished
        }
    }

    /// Takes the outcome of the request of `batch`: its points, or `None`
    /// where the request failed. An answer with another number of points
    /// than the batch has counts as a failure.
    ///
    /// Returns whether `batch` was in flight; if not, nothing changes.
    pub fn complete(&mut self, batch: usize, outcome: Option<Vec<Punkt>>) -> (accepted: bool)
        requires
            old(self).wf(),
        ensures
            final(self).wf(),
            final(self)@.valid(),
            accepted == (batch < old(self)@.slots.len() && old(self)@.slots[batch as int]
                is InFlight),
            accepted ==> final(self)@ == old(self)@.complete(batch as int, outcome),
            !accepted ==> final(self)@ == old(self)@,
    {
        if batch >= self.slots.len() {
            return false;
        }
        let in_flight = match &self.slots[batch] {
            Slot::InFlight => true,
            _ => false,
        };
        if !in_flight {
            return false;
        }
        proof {
            lemma_batch_bounds(self.point_count as int, self.batch_size as int, batch as int);
            assert((batch + 1) * self.batch_size == batch * self.batch_size + self.batch_size)
                by (nonlinear_arith);
        }
        let expected: usize = if self.point_count - batch * self.batch_size < self.batch_size {
            self.point_count - batch * self.batch_size
        } else {
            self.batch_size
        };
        assert(expected == batch_len(self.point_count as int, self.batch_size as int, batch as int));
        let slot = match outcome {
            Some(points) => if points.len() == expected {
                Slot::Done(points)
            } else {
                Slot::Failed
            },
            None => Slot::Failed,
        };
        assert(slot == settled_slot(expected as int, outcome));
        let ghost before = self.slots@;
        proof {
            lemma_count_update(before, batch as int, slot);
            lemma_count_bound(before);
            let updated = before.update(batch as int, slot);
            if slot is Failed {
                assert(updated[batch as int] is Failed);
            } else {
                assert(any_failed(updated) == any_failed(before)) by {
                    if any_failed(updated) {
                        let i = choose|i: int| 0 <= i < updated.len() && #[trigger] updated[i] is Failed;
                        assert(before[i] is Failed);
                    }
                    if any_failed(before) {
                        let i = choose|i: int| 0 <= i < before.len() && #[trigger] before[i] is Failed;
                        assert(updated[i] is Failed);
                    }
                }
            }
        }
        let failed = match &slot {
            Slot::Failed => true,
            _ => false,
        };
        self.slots.set(batch, slot);
        self.in_flight = self.in_flight - 1;
        if failed {
            self.failed = true;
        }
        true
    }

    /// Whether nothing is left to send or to wait for, so that `finish` may
    /// be called: a batch has failed, or every batch has gone out and come back.
    pub fn is_settled(&self) -> (settled: bool)
        requires
            self.wf(),
        ensures
            settled == self@.settled(),
    {
        let can_submit = !self.failed && self.next < self.slots.len() && self.in_flight
            < self.limit;
        !can_submit && (self.failed || self.in_flight == 0)
    }

    /// The first batch that failed, if one did.
    pub fn first_failed(&self) -> (failed: Option<usize>)
        requires
            self.wf(),
        ensures
            failed is Some <==> any_failed(self@.slots),
            failed matches Some(index) ==> is_first_failed(self@.slots, index as int),
    {
        let mut i: usize = 0;
        while i < self.slots.len()
            invariant
                i <= self.slots@.len(),
                forall|j: int| 0 <= j < i ==> !(#[trigger] self.slots@[j] is Failed),
            decreases self.slots.len() - i,
        {
            let failed = match &self.slots[i] {
                Slot::Failed => true,
                _ => false,
            };
            if failed {
                return Some(i);
            }
            i = i + 1;
        }
        None
    }

    /// Hands out the points of a settled fetch, batch after batch in the
    /// order in which the batches went out.
    ///
    /// Succeeds if and only if no batch has failed; otherwise the error
    /// names the first batch that failed, and no point is handed out.
    pub fn finish(self) -> (result: Result<Vec<Punkt>, FetchError>)
        requires
            self.wf(),
            self@.settled(),
        ensures
            result is Ok <==> !any_failed(self@.slots),
            result matches Ok(points) ==> all_done(self@.slots) && points@ == assembled(
                self@.slots,
            ) && points@.len() == self@.point_count,
            result matches Err(e) ==> (e matches FetchError::Batch { index } && is_first_failed(
                self@.slots,
                index as int,
            )),
    {
        match self.first_failed() {
            Some(index) => {
                return Err(FetchError::Batch { index });
            },
            None => {},
        }
        proof {
            lemma_settled_without_failure(self@);
        }
        let mut points: Vec<Punkt> = Vec::new();
        let mut i: usize = 0;
        let total: usize = self.slots.len();
        proof {
            assert(batch_start(self.batch_size as int, 0) == 0) by (nonlinear_arith);
            if total == 0 {
                lemma_ceil_div_covers(self.point_count as int, self.batch_size as int);
                assert(self.point_count == 0) by (nonlinear_arith)
                    requires
                        0 * self.batch_size >= self.point_count,
                ;
            }
        }
        while i < total
            invariant
                self.wf(),
                all_done(self.slots@),
                total == self.slots.len(),
                i <= total,
                points@ == assembled(self.slots@.take(i as int)),
                points@.len() == if i < total {
                    batch_start(self.batch_size as int, i as int)
                } else {
                    self.point_count as int
                },
            decreases total - i,
        {
            proof {
                lemma_batch_bounds(self.point_count as int, self.batch_size as int, i as int);
                assert(self.slots@.take(i + 1).drop_last() =~= self.slots@.take(i as int));
                assert(is_done(self.slots@, i as int));
            }
            match &self.slots[i] {
                Slot::Done(answer) => {
                    append_points(&mut points, answer);
                },
                _ => {},
            }
            i = i + 1;
        }
        proof {
            assert(self.slots@.take(total as int) =~= self.slots@);
        }
        Ok(points)
    }
}

/// A settled fetch in which no batch has failed has every answer.
pub proof fn lemma_settled_without_failure(view: FetchView)
    requires
        view.valid(),
        view.settled(),
        !any_failed(view.slots),
    ensures
        all_done(view.slots),
{
    lemma_count_bound(view.slots);
    assert forall|i: int| 0 <= i < view.slots.len() implies is_done(view.slots, i) by {
        assert(!(view.slots[i] is Pending));
        assert(!(view.slots[i] is InFlight));
        assert(!(view.slots[i] is Failed));
    }
}

/// The answers joined in batch order.
pub open spec fn joined(answers: Seq<Vec<Punkt>>) -> Seq<Punkt>
    decreases answers.len(),
{
    if answers.len() == 0 {
        Seq::<Punkt>::empty()
    } else {
        joined(answers.drop_last()) + answers.last()@
    }
}

/// The state after the batches named in `order` came back one after the
/// other, batch `b` with `answers[b]`.
pub open spec fn after_completions(
    view: FetchView,
    order: Seq<int>,
    answers: Seq<Vec<Punkt>>,
) -> FetchView
    decreases order.len(),
{
    if order.len() == 0 {
        view
    } else {
        after_completions(view, order.drop_last(), answers).complete(
            order.last(),
            Some(answers[order.last()]),
        )
    }
}

proof fn lemma_after_completions_slots(
    view: FetchView,
    order: Seq<int>,
    answers: Seq<Vec<Punkt>>,
)
    requires
        answers.len() == view.slots.len(),
        forall|i: int|
            0 <= i < answers.len() ==> (#[trigger] answers[i])@.len() == batch_len(
                view.point_count as int,
                view.batch_size as int,
                i,
            ),
        forall|k: int| 0 <= k < order.len() ==> 0 <= #[trigger] order[k] < view.slots.len(),
    ensures
        after_completions(view, order, answers).slots.len() == view.slots.len(),
        after_completions(view, order, answers).point_count == view.point_count,
        after_completions(view, order, answers).batch_size == view.batch_size,
        forall|b: int|
            0 <= b < view.slots.len() ==> #[trigger] after_completions(
                view,
                order,
                answers,
            ).slots[b] == if order.contains(b) {
                Slot::Done(answers[b])
            } else {
                view.slots[b]
            },
    decreases order.len(),
{
    if order.len() > 0 {
        let front = order.drop_last();
        lemma_after_completions_slots(view, front, answers);
        let mid = after_completions(view, front, answers);
        let end = after_completions(view, order, answers);
        assert forall|b: int| 0 <= b < view.slots.len() implies #[trigger] end.slots[b]
            == if order.contains(b) {
            Slot::Done(answers[b])
        } else {
            view.slots[b]
        } by {
            if b == order.last() {
                assert(order[order.len() - 1] == b);
            } else if front.contains(b) {
                let k = choose|k: int| 0 <= k < front.len() && front[k] == b;
                assert(order[k] == b);
            } else {
                if order.contains(b) {
                    let k = choose|k: int| 0 <= k < order.len() && order[k] == b;
                    assert(front[k] == b);
                }
            }
        }
    }
}

proof fn lemma_assembled_joined(slots: Seq<Slot>, answers: Seq<Vec<Punkt>>)
    requires
        slots.len() == answers.len(),
        forall|i: int| 0 <= i < slots.len() ==> #[trigger] slots[i] == Slot::Done(answers[i]),
    ensures
        assembled(slots) == joined(answers),
    decreases slots.len(),
{
    if slots.len() > 0 {
        lemma_assembled_joined(slots.drop_last(), answers.drop_last());
        assert(slots.last() == Slot::Done(answers.last()));
    }
}

/// The order in which answers arrive does not show in the result: once
/// every batch has come back, in whatever order and however often, slot `b`
/// holds the answer to batch `b`, and the points handed out are the answers
/// joined in the order in which the batches went out.
pub proof fn lemma_assembly_ignores_completion_order(
    view: FetchView,
    order: Seq<int>,
    answers: Seq<Vec<Punkt>>,
)
    requires
        answers.len() == view.slots.len(),
        forall|i: int|
            0 <= i < answers.len() ==> (#[trigger] answers[i])@.len() == batch_len(
                view.point_count as int,
                view.batch_size as int,
                i,
            ),
        forall|k: int| 0 <= k < order.len() ==> 0 <= #[trigger] order[k] < view.slots.len(),
        forall|b: int| 0 <= b < view.slots.len() ==> order.contains(b),
    ensures
        after_completions(view, order, answers).slots =~= Seq::new(
            answers.len(),
            |b: int| Slot::Done(answers[b]),
        ),
        all_done(after_completions(view, order, answers).slots),
        assembled(after_completions(view, order, answers).slots) == joined(answers),
{
    lemma_after_completions_slots(view, order, answers);
    let end = after_completions(view, order, answers);
    assert forall|b: int| 0 <= b < end.slots.len() implies #[trigger] end.slots[b] == Slot::Done(
        answers[b],
    ) by {
        assert(order.contains(b));
    }
    assert forall|b: int| 0 <= b < end.slots.len() implies is_done(end.slots, b) by {
        assert(end.slots[b] == Slot::Done(answers[b]));
    }
    lemma_assembled_joined(end.slots, answers);
}

proof fn lemma_assembled_prefix(view: FetchView, m: int, k: int)
    requires
        view.valid(),
        all_done(view.slots),
        0 <= m <= view.slots.len(),
    ensures
        assembled(view.slots.take(m)).len() == if m < view.slots.len() {
            batch_start(view.batch_size as int, m)
        } else {
            view.point_count as int
        },
        0 <= k < assembled(view.slots.take(m)).len() ==> {
            &&& 0 <= k / (view.batch_size as int) < m
            &&& view.slots[k / (view.batch_size as int)] matches Slot::Done(points)
            &&& 0 <= k % (view.batch_size as int) < points@.len()
            &&& assembled(view.slots.take(m))[k] == points@[k % (view.batch_size as int)]
        },
    decreases m,
{
    let size = view.batch_size as int;
    let count = view.point_count as int;
    if m == 0 {
        assert(batch_start(size, 0) == 0) by (nonlinear_arith);
        assert(view.slots.take(0).len() == 0);
        assert(assembled(view.slots.take(0)).len() == 0);
        if view.slots.len() == 0 {
            lemma_ceil_div_covers(count, size);
            assert(count == 0) by (nonlinear_arith)
                requires
                    0 * size >= count,
                    count >= 0,
            ;
        }
    } else {
        lemma_assembled_prefix(view, m - 1, k);
        lemma_batch_bounds(count, size, m - 1);
        let front = view.slots.take(m - 1);
        let upto = view.slots.take(m);
        assert(upto.drop_last() =~= front);
        assert(upto.last() == view.slots[m - 1]);
        assert(is_done(view.slots, m - 1));
        let start = batch_start(size, m - 1);
        assert(assembled(front).len() == start);
        let last = view.slots[m - 1]->Done_0@;
        assert(last.len() == batch_len(count, size, m - 1));
        assert(assembled(upto) == assembled(front) + last);
        if start <= k < assembled(upto).len() {
            let offset = k - start;
            assert(k == (m - 1) * size + offset);
            vstd::arithmetic::div_mod::lemma_fundamental_div_mod_converse(k, size, m - 1, offset);
            assert(assembled(upto)[k] == last[offset]);
        }
    }
}

/// Where each point ends up: with every batch answered, point `k` of the
/// result is point `k % batch_size` of the answer to batch `k / batch_size`,
/// which is the place that the grid gave to query point `k`.
pub proof fn lemma_assembled_layout(view: FetchView, k: int)
    requires
        view.valid(),
        all_done(view.slots),
        0 <= k < view.point_count,
    ensures
        assembled(view.slots).len() == view.point_count,
        0 <= k / (view.batch_size as int) < view.slots.len(),
        view.slots[k / (view.batch_size as int)] matches Slot::Done(points) && 0 <= k % (
        view.batch_size as int) < points@.len() && assembled(view.slots)[k] == points@[k % (
        view.batch_size as int)],
{
    lemma_assembled_prefix(view, view.slots.len() as int, k);
    assert(view.slots.take(view.slots.len() as int) =~= view.slots);
}

/// Cutting into batches loses and moves nothing: point `k` is point
/// `k % batch_size` of batch `k / batch_size`.
pub proof fn lemma_batches_cover(points: Seq<Punkt>, batch_size: int, k: int)
    requires
        batch_size > 0,
        0 <= k < points.len(),
    ensures
        0 <= k / batch_size < batch_total(points.len() as int, batch_size),
        0 <= k % batch_size < batch_points(points, batch_size, k / batch_size).len(),
        batch_points(points, batch_size, k / batch_size)[k % batch_size] == points[k],
{
    let count = points.len() as int;
    let index = k / batch_size;
    let offset = k % batch_size;
    assert(k == batch_size * index + offset && 0 <= offset < batch_size) by (nonlinear_arith)
        requires
            batch_size > 0,
            index == k / batch_size,
            offset == k % batch_size,
    ;
    assert(index >= 0) by (nonlinear_arith)
        requires
            k == batch_size * index + offset,
            0 <= offset < batch_size,
            k >= 0,
    ;
    lemma_ceil_div_covers(count, batch_size);
    let total = batch_total(count, batch_size);
    assert(index < total) by (nonlinear_arith)
        requires
            k == batch_size * index + offset,
            0 <= offset,
            k < count,
            total * batch_size >= count,
            batch_size > 0,
    ;
    lemma_batch_bounds(count, batch_size, index);
    assert(index * batch_size == batch_size * index) by (nonlinear_arith);
    assert((index + 1) * batch_size == batch_size * index + batch_size) by (nonlinear_arith);
}

} // verus!
