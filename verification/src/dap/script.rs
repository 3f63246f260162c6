//! Procedures made of SWD transfers.
//!
//! Such a procedure is a function of the replies that its transfers have had so far. It
//! looks at them from the first on and says either which transfer comes next, or, where
//! it needs no other, what the result is and how many replies it took. Whoever runs it
//! makes the transfer, adds the reply to the log and asks again.
use vstd::prelude::*;

use crate::dap::swd::{SwdReply, SwdRequest, Transfer};

verus! {

/// Where a procedure stands after the replies it was shown.
pub enum Step<T> {
    /// The next transfer to make.
    Need(SwdRequest),
    /// The result, and the position in the log after the last reply that led to it.
    Done(T, usize),
}

/// The value of a [`Step`].
pub enum StepView<T> {
    Need(Transfer),
    Done(T, int),
}

impl<T> Step<T> {
    pub open spec fn view(&self) -> StepView<T> {
        match *self {
            Step::Need(req) => StepView::Need(req@),
            Step::Done(t, n) => StepView::Done(t, n as int),
        }
    }
}

/// One procedure after another: the second starts with the result of the first, where the
/// first left off.
pub open spec fn chain<A, B>(
    first: StepView<A>,
    second: spec_fn(A, int) -> StepView<B>,
) -> StepView<B> {
    match first {
        StepView::Need(t) => StepView::Need(t),
        StepView::Done(a, p) => second(a, p),
    }
}

/// How many replies from `at` on, of those there are and at most `n`, come before the
/// first that stops the count.
pub open spec fn until(
    log: Seq<SwdReply>,
    at: int,
    n: int,
    stop: spec_fn(SwdReply) -> bool,
) -> int
    decreases n,
{
    if n <= 0 || at < 0 || at >= log.len() || stop(log[at]) {
        0
    } else {
        1 + until(log, at + 1, n - 1, stop)
    }
}

/// Counting `k` replies that do not stop, and then reaching the limit, the end of the log
/// or one that does, is what [`until`] counts.
pub proof fn until_is(
    log: Seq<SwdReply>,
    at: int,
    n: int,
    stop: spec_fn(SwdReply) -> bool,
    k: int,
)
    requires
        0 <= at,
        0 <= k <= n,
        at + k <= log.len(),
        forall|j: int| at <= j < at + k ==> !stop(#[trigger] log[j]),
        k == n || at + k == log.len() || stop(log[at + k]),
    ensures
        until(log, at, n, stop) == k,
    decreases k,
{
    if k > 0 {
        until_is(log, at + 1, n - 1, stop, k - 1);
    }
}

/// What [`until`] counts does not stop, and it counts no further than it may.
pub proof fn until_counts(log: Seq<SwdReply>, at: int, n: int, stop: spec_fn(SwdReply) -> bool)
    requires
        0 <= at <= log.len(),
        0 <= n,
    ensures
        0 <= until(log, at, n, stop) <= n,
        at + until(log, at, n, stop) <= log.len(),
        forall|j: int|
            at <= j < at + until(log, at, n, stop) ==> !stop(#[trigger] log[j]),
        until(log, at, n, stop) < n && at + until(log, at, n, stop) < log.len() ==> stop(
            log[at + until(log, at, n, stop)],
        ),
    decreases n,
{
    if n > 0 && at < log.len() && !stop(log[at]) {
        until_counts(log, at + 1, n - 1, stop);
    }
}

/// The transfer did not succeed.
pub open spec fn failed() -> spec_fn(SwdReply) -> bool {
    |r: SwdReply| !(r.ack is Okay)
}

/// How many replies from `at` on, at most `n`, are successes without a gap.
pub open spec fn successes(log: Seq<SwdReply>, at: int, n: int) -> int {
    until(log, at, n, failed())
}

} // verus!
