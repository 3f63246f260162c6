//! DAP_Transfer and DAP_TransferBlock: what the host asked for becomes a plan of SWD
//! transfers, the plan is carried out up to the first transfer that fails, and the answer
//! reports how far it came.
//!
//! An AP read is posted: its value arrives with the next transfer. The plan therefore says
//! of each transfer whether the value it brings belongs into the answer, and adds a read of
//! RDBUFF wherever a posted value would otherwise be lost.
use vstd::prelude::*;

use crate::dap::script::{failed, successes, until_is};
use crate::dap::swd::{
    is_ap, is_read, reads_register, retried, targets_ap, transfer_retry, SwdReply, SwdRequest,
    Transfer,
};
use crate::dap::types::{
    le_bytes, le_round_trip, le_value, low_bytes_come_first, u32_le, Ack, DP_RDBUFF_RD,
};

verus! {

/// One transfer of a plan.
#[derive(Clone, Copy, PartialEq, Eq, Structural, Debug)]
pub struct Planned {
    pub request: u8,
    pub wdata: u32,
    /// The value it brings goes into the answer.
    pub capture: bool,
    /// Its success completes one of the host's requests.
    pub completes: bool,
}

/// The read of RDBUFF that brings a posted value.
pub open spec fn fetch() -> Planned {
    Planned { request: DP_RDBUFF_RD, wdata: 0, capture: true, completes: false }
}

/// [`fetch`], where a read is posted.
pub open spec fn fetch_if(posted: bool) -> Seq<Planned> {
    if posted {
        seq![fetch()]
    } else {
        Seq::empty()
    }
}

/// The data word that follows the request byte at `qi`.
pub open spec fn word_at(req: Seq<u8>, qi: int) -> u32 {
    le_value(req.subrange(qi, qi + 4)) as u32
}

/// The plan for the `n` requests from `qi` on, while an AP read is `posted` or none is. It
/// goes as far as the packet has the bytes for it.
pub open spec fn transfer_plan(req: Seq<u8>, qi: int, n: nat, posted: bool) -> Seq<Planned>
    decreases n,
{
    if n == 0 {
        fetch_if(posted)
    } else if qi >= req.len() {
        Seq::empty()
    } else {
        let request = req[qi];
        let rest = (n - 1) as nat;
        if is_read(request) && is_ap(request) {
            seq![Planned { request, wdata: 0, capture: posted, completes: true }] + transfer_plan(
                req,
                qi + 1,
                rest,
                true,
            )
        } else if is_read(request) {
            fetch_if(posted) + seq![
                Planned { request, wdata: 0, capture: true, completes: true },
            ] + transfer_plan(req, qi + 1, rest, false)
        } else if qi + 5 > req.len() {
            fetch_if(posted)
        } else {
            fetch_if(posted) + seq![
                Planned {
                    request,
                    wdata: word_at(req, qi + 1),
                    capture: false,
                    completes: true,
                },
            ] + transfer_plan(req, qi + 5, rest, false)
        }
    }
}

/// The packet has the bytes of the `n` requests from `qi` on.
pub open spec fn requests_present(req: Seq<u8>, qi: int, n: nat) -> bool
    decreases n,
{
    n == 0 || {
        &&& qi < req.len()
        &&& if is_read(req[qi]) {
            requests_present(req, qi + 1, (n - 1) as nat)
        } else {
            qi + 5 <= req.len() && requests_present(req, qi + 5, (n - 1) as nat)
        }
    }
}

/// How many of `count` data words a DAP_TransferBlock packet has.
pub open spec fn block_words(req: Seq<u8>, count: nat) -> nat {
    if 5 + 4 * count <= req.len() {
        count
    } else if req.len() < 5 {
        0
    } else {
        ((req.len() - 5) / 4) as nat
    }
}

/// The plan for `count` accesses to one register. Writes go as far as the packet has the
/// data for them.
pub open spec fn block_plan(req: Seq<u8>, request: u8, count: nat) -> Seq<Planned> {
    if is_read(request) && is_ap(request) {
        seq![Planned { request, wdata: 0, capture: false, completes: false }] + Seq::new(
            count,
            |i: int|
                Planned {
                    request: if i == count - 1 {
                        DP_RDBUFF_RD
                    } else {
                        request
                    },
                    wdata: 0,
                    capture: true,
                    completes: true,
                },
        )
    } else if is_read(request) {
        Seq::new(count, |i: int| Planned { request, wdata: 0, capture: true, completes: true })
    } else {
        Seq::new(
            block_words(req, count),
            |i: int|
                Planned {
                    request,
                    wdata: word_at(req, 5 + 4 * i),
                    capture: false,
                    completes: true,
                },
        )
    }
}

/// The packet has the data for `count` accesses to one register.
pub open spec fn block_present(req: Seq<u8>, request: u8, count: nat) -> bool {
    is_read(request) || 5 + 4 * count <= req.len()
}

/// How many of the first `k` transfers of a plan bring a value for the answer.
pub open spec fn captures(plan: Seq<Planned>, k: int) -> int
    decreases k,
{
    if k <= 0 {
        0
    } else {
        captures(plan, k - 1) + if plan[k - 1].capture {
            1int
        } else {
            0
        }
    }
}

/// How many of the host's requests the first `k` transfers of a plan complete.
pub open spec fn completions(plan: Seq<Planned>, k: int) -> int
    decreases k,
{
    if k <= 0 {
        0
    } else {
        completions(plan, k - 1) + if plan[k - 1].completes {
            1int
        } else {
            0
        }
    }
}

/// The values that the first `k` transfers of a plan bring for the answer.
pub open spec fn captured(plan: Seq<Planned>, log: Seq<SwdReply>, k: int) -> Seq<u32>
    decreases k,
{
    if k <= 0 {
        Seq::empty()
    } else if plan[k - 1].capture {
        captured(plan, log, k - 1).push(log[k - 1].val)
    } else {
        captured(plan, log, k - 1)
    }
}

/// How far a plan came.
pub struct Report {
    /// The host's requests that were completed.
    pub processed: int,
    /// How the last transfer was answered.
    pub ack: Ack,
    /// The values for the answer.
    pub data: Seq<u32>,
}

/// The replies to a plan, once it is over: it ends at its last transfer, or at the first
/// that fails.
pub open spec fn plan_report(plan: Seq<Planned>, log: Seq<SwdReply>) -> Report {
    let k = successes(log, 0, plan.len() as int);
    Report {
        processed: completions(plan, k),
        ack: if k < plan.len() {
            log[k].ack
        } else {
            Ack::Okay
        },
        data: captured(plan, log, k),
    }
}

/// The transfer that a plan needs next, or none where it is over.
pub open spec fn plan_next(plan: Seq<Planned>, log: Seq<SwdReply>) -> Option<Transfer> {
    let k = successes(log, 0, plan.len() as int);
    if k < plan.len() && k == log.len() {
        Some(retried(plan[k].request, plan[k].wdata))
    } else {
        None
    }
}

/// What carrying out a plan leads to.
pub enum PlanStep {
    /// The next transfer to make.
    Need(SwdRequest),
    /// The plan is over.
    Over { processed: usize, ack: Ack, data: Vec<u32> },
}

fn fetch_planned() -> (r: Planned)
    ensures
        r == fetch(),
{
    Planned { request: DP_RDBUFF_RD, wdata: 0, capture: true, completes: false }
}

/// The plan of a DAP_Transfer packet, and whether the packet has every byte it needs.
pub fn plan_transfer(req: &[u8]) -> (r: (Vec<Planned>, bool))
    requires
        req@.len() >= 3,
    ensures
        r.0@ == transfer_plan(req@, 3, req@[2] as nat, false),
        r.1 == requests_present(req@, 3, req@[2] as nat),
{
    let mut plan: Vec<Planned> = Vec::new();
    let mut qi: usize = 3;
    let mut left: u8 = req[2];
    let mut posted: bool = false;
    let ghost all = transfer_plan(req@, 3, req@[2] as nat, false);
    let ghost present = requests_present(req@, 3, req@[2] as nat);
    assert(plan@ + all =~= all);
    while left > 0
        invariant
            3 <= qi <= req@.len(),
            requests_present(req@, qi as int, left as nat) == present,
            plan@ + transfer_plan(req@, qi as int, left as nat, posted) == all,
            all == transfer_plan(req@, 3, req@[2] as nat, false),
            present == requests_present(req@, 3, req@[2] as nat),
        decreases left,
    {
        let ghost before = plan@;
        let ghost rest = transfer_plan(req@, qi as int, left as nat, posted);
        if qi == req.len() {
            assert(plan@ =~= all);
            return (plan, false);
        }
        let request: u8 = req[qi];
        if reads_register(request) {
            if targets_ap(request) {
                plan.push(Planned { request, wdata: 0, capture: posted, completes: true });
                posted = true;
            } else {
                if posted {
                    plan.push(fetch_planned());
                    posted = false;
                }
                plan.push(Planned { request, wdata: 0, capture: true, completes: true });
            }
            qi = qi + 1;
        } else {
            if posted {
                plan.push(fetch_planned());
                posted = false;
            }
            if req.len() - qi < 5 {
                assert(plan@ =~= all);
                return (plan, false);
            }
            let wdata: u32 = u32_le(req, qi + 1);
            plan.push(Planned { request, wdata, capture: false, completes: true });
            qi = qi + 5;
        }
        left = left - 1;
        assert(plan@ + transfer_plan(req@, qi as int, left as nat, posted) =~= before + rest);
    }
    if posted {
        plan.push(fetch_planned());
    }
    assert(plan@ =~= all);
    (plan, true)
}

/// The plan of a DAP_TransferBlock packet for `count` accesses, and whether the packet has
/// every byte it needs.
pub fn plan_block(req: &[u8], request: u8, count: u16) -> (r: (Vec<Planned>, bool))
    requires
        req@.len() >= 5,
    ensures
        r.0@ == block_plan(req@, request, count as nat),
        r.1 == block_present(req@, request, count as nat),
{
    let mut plan: Vec<Planned> = Vec::new();
    let read: bool = reads_register(request);
    let ap: bool = targets_ap(request);
    if read && ap {
        plan.push(Planned { request, wdata: 0, capture: false, completes: false });
    }
    let room: usize = (req.len() - 5) / 4;
    let present: bool = read || count as usize <= room;
    let n: u16 = if present {
        count
    } else {
        room as u16
    };
    let ghost offset: int = if read && ap {
        1
    } else {
        0
    };
    let ghost all = block_plan(req@, request, count as nat);
    let mut i: u16 = 0;
    while i < n
        invariant
            i <= n <= count,
            read ==> n == count,
            read == is_read(request),
            ap == is_ap(request),
            offset == if read && ap {
                1int
            } else {
                0
            },
            !read ==> 5 + 4 * n <= req@.len(),
            !read ==> n == block_words(req@, count as nat),
            all == block_plan(req@, request, count as nat),
            plan@.len() == offset + i,
            plan@ =~= all.subrange(0, offset + i),
        decreases n - i,
    {
        if read {
            let last: bool = ap && i == count - 1;
            let r: u8 = if last {
                DP_RDBUFF_RD
            } else {
                request
            };
            plan.push(Planned { request: r, wdata: 0, capture: true, completes: true });
        } else {
            let at: usize = 5 + 4 * (i as usize);
            let wdata: u32 = u32_le(req, at);
            plan.push(Planned { request, wdata, capture: false, completes: true });
        }
        i = i + 1;
    }
    assert(plan@ =~= all);
    (plan, present)
}

/// Carries a plan as far as the replies reach.
pub fn run_plan(plan: &Vec<Planned>, log: &[SwdReply]) -> (r: PlanStep)
    ensures
        r matches PlanStep::Need(req) ==> plan_next(plan@, log@) == Some(req@),
        r matches PlanStep::Over { processed, ack, data } ==> {
            let report = plan_report(plan@, log@);
            &&& plan_next(plan@, log@) is None
            &&& processed == report.processed
            &&& ack == report.ack
            &&& data@ == report.data
        },
{
    let mut k: usize = 0;
    let mut processed: usize = 0;
    let mut data: Vec<u32> = Vec::new();
    while k < plan.len()
        invariant
            k <= plan@.len(),
            k <= log@.len(),
            processed <= k,
            processed == completions(plan@, k as int),
            data@ == captured(plan@, log@, k as int),
            forall|j: int| 0 <= j < k ==> !failed()(#[trigger] log@[j]),
        decreases plan.len() - k,
    {
        let p = plan[k];
        if k == log.len() {
            proof {
                until_is(log@, 0, plan@.len() as int, failed(), k as int);
            }
            return PlanStep::Need(transfer_retry(p.request, p.wdata));
        }
        let reply = log[k];
        if reply.ack != Ack::Okay {
            proof {
                assert(failed()(log@[k as int]));
                until_is(log@, 0, plan@.len() as int, failed(), k as int);
            }
            return PlanStep::Over { processed, ack: reply.ack, data };
        }
        if p.capture {
            data.push(reply.val);
        }
        if p.completes {
            processed = processed + 1;
        }
        k = k + 1;
    }
    proof {
        until_is(log@, 0, plan@.len() as int, failed(), k as int);
    }
    PlanStep::Over { processed, ack: Ack::Okay, data }
}

/// How many of the `n` requests from `qi` on read a register.
pub open spec fn reads_asked(req: Seq<u8>, qi: int, n: nat) -> int
    decreases n,
{
    if n == 0 {
        0
    } else if is_read(req[qi]) {
        1 + reads_asked(req, qi + 1, (n - 1) as nat)
    } else {
        reads_asked(req, qi + 5, (n - 1) as nat)
    }
}

proof fn prefix_counts(a: Seq<Planned>, b: Seq<Planned>, la: Seq<SwdReply>, lb: Seq<SwdReply>, k: int)
    requires
        0 <= k <= a.len(),
        la.len() == a.len(),
    ensures
        captures(a + b, k) == captures(a, k),
        completions(a + b, k) == completions(a, k),
        captured(a + b, la + lb, k) == captured(a, la, k),
    decreases k,
{
    if k > 0 {
        prefix_counts(a, b, la, lb, k - 1);
    }
}

proof fn counts_add(a: Seq<Planned>, b: Seq<Planned>, la: Seq<SwdReply>, lb: Seq<SwdReply>, k: int)
    requires
        0 <= k <= b.len(),
        la.len() == a.len(),
        lb.len() == b.len(),
    ensures
        captures(a + b, a.len() + k) == captures(a, a.len() as int) + captures(b, k),
        completions(a + b, a.len() + k) == completions(a, a.len() as int) + completions(b, k),
        captured(a + b, la + lb, a.len() + k) == captured(a, la, a.len() as int) + captured(
            b,
            lb,
            k,
        ),
    decreases k,
{
    if k == 0 {
        prefix_counts(a, b, la, lb, a.len() as int);
        assert(captured(a, la, a.len() as int) + captured(b, lb, 0) =~= captured(
            a,
            la,
            a.len() as int,
        ));
    } else {
        counts_add(a, b, la, lb, k - 1);
        assert((a + b)[a.len() + k - 1] == b[k - 1]);
        assert((la + lb)[a.len() + k - 1] == lb[k - 1]);
        assert(captured(a + b, la + lb, a.len() + k) =~= captured(a, la, a.len() as int)
            + captured(b, lb, k));
    }
}

/// What a debug port answers to the plan of the `n` requests from `qi` on, when nothing
/// fails: an AP read is answered with the value posted before and posts its own, RDBUFF
/// gives the posted value, a DP read gives its own. `truth` holds the value of each register
/// that is read, in the order of the requests.
pub open spec fn port_replies(
    req: Seq<u8>,
    qi: int,
    n: nat,
    posted: Option<u32>,
    truth: Seq<u32>,
) -> Seq<SwdReply>
    decreases n,
{
    let fetched = match posted {
        Some(v) => seq![SwdReply { ack: Ack::Okay, val: v }],
        None => Seq::empty(),
    };
    if n == 0 {
        fetched
    } else if is_read(req[qi]) && is_ap(req[qi]) {
        seq![
            SwdReply {
                ack: Ack::Okay,
                val: match posted {
                    Some(v) => v,
                    None => 0,
                },
            },
        ] + port_replies(req, qi + 1, (n - 1) as nat, Some(truth[0]), truth.drop_first())
    } else if is_read(req[qi]) {
        fetched + seq![SwdReply { ack: Ack::Okay, val: truth[0] }] + port_replies(
            req,
            qi + 1,
            (n - 1) as nat,
            None,
            truth.drop_first(),
        )
    } else {
        fetched + seq![SwdReply { ack: Ack::Okay, val: 0 }] + port_replies(
            req,
            qi + 5,
            (n - 1) as nat,
            None,
            truth,
        )
    }
}

proof fn one_planned(p: Planned, r: SwdReply)
    ensures
        captures(seq![p], 1) == if p.capture {
            1int
        } else {
            0
        },
        completions(seq![p], 1) == if p.completes {
            1int
        } else {
            0
        },
        captured(seq![p], seq![r], 1) == if p.capture {
            seq![r.val]
        } else {
            Seq::empty()
        },
{
    reveal_with_fuel(captures, 2);
    reveal_with_fuel(completions, 2);
    reveal_with_fuel(captured, 2);
    assert(captured(seq![p], seq![r], 0) =~= Seq::empty());
    if p.capture {
        assert(Seq::<u32>::empty().push(r.val) =~= seq![r.val]);
    }
}

proof fn posted_values(req: Seq<u8>, qi: int, n: nat, posted: Option<u32>, truth: Seq<u32>)
    requires
        requests_present(req, qi, n),
        truth.len() == reads_asked(req, qi, n),
    ensures
        ({
            let plan = transfer_plan(req, qi, n, posted is Some);
            let log = port_replies(req, qi, n, posted, truth);
            let before = match posted {
                Some(v) => seq![v],
                None => Seq::empty(),
            };
            &&& log.len() == plan.len()
            &&& forall|j: int| 0 <= j < log.len() ==> !failed()(#[trigger] log[j])
            &&& captured(plan, log, plan.len() as int) == before + truth
            &&& captures(plan, plan.len() as int) == before.len() + truth.len()
            &&& completions(plan, plan.len() as int) == n
        }),
    decreases n,
{
    let plan = transfer_plan(req, qi, n, posted is Some);
    let log = port_replies(req, qi, n, posted, truth);
    let before: Seq<u32> = match posted {
        Some(v) => seq![v],
        None => Seq::empty(),
    };
    let fetch_plan = fetch_if(posted is Some);
    let fetch_log: Seq<SwdReply> = match posted {
        Some(v) => seq![SwdReply { ack: Ack::Okay, val: v }],
        None => Seq::empty(),
    };
    if posted is Some {
        one_planned(fetch(), fetch_log[0]);
    }
    assert(captured(fetch_plan, fetch_log, fetch_plan.len() as int) =~= before);
    assert(captures(fetch_plan, fetch_plan.len() as int) == before.len());
    assert(completions(fetch_plan, fetch_plan.len() as int) == 0);
    if n == 0 {
        assert(before + truth =~= before);
    } else {
        let rest = (n - 1) as nat;
        reads_asked_nonnegative(req, qi + 1, rest);
        if is_read(req[qi]) && is_ap(req[qi]) {
            posted_values(req, qi + 1, rest, Some(truth[0]), truth.drop_first());
            let p = Planned {
                request: req[qi],
                wdata: 0,
                capture: posted is Some,
                completes: true,
            };
            one_planned(p, log[0]);
            let b = transfer_plan(req, qi + 1, rest, true);
            let lb = port_replies(req, qi + 1, rest, Some(truth[0]), truth.drop_first());
            counts_add(seq![p], b, seq![log[0]], lb, b.len() as int);
            assert(plan =~= seq![p] + b);
            assert(log =~= seq![log[0]] + lb);
            assert(captured(plan, log, plan.len() as int) =~= before + truth);
        } else {
            let read = is_read(req[qi]);
            let next = if read {
                qi + 1
            } else {
                qi + 5
            };
            let left = if read {
                truth.drop_first()
            } else {
                truth
            };
            posted_values(req, next, rest, None, left);
            let p = Planned {
                request: req[qi],
                wdata: if read {
                    0
                } else {
                    word_at(req, qi + 1)
                },
                capture: read,
                completes: true,
            };
            let r = SwdReply {
                ack: Ack::Okay,
                val: if read {
                    truth[0]
                } else {
                    0
                },
            };
            one_planned(p, r);
            let b = transfer_plan(req, next, rest, false);
            let lb = port_replies(req, next, rest, None, left);
            counts_add(seq![p], b, seq![r], lb, b.len() as int);
            counts_add(
                fetch_plan,
                seq![p] + b,
                fetch_log,
                seq![r] + lb,
                (seq![p] + b).len() as int,
            );
            assert(plan =~= fetch_plan + (seq![p] + b));
            assert(log =~= fetch_log + (seq![r] + lb));
            assert(captured(plan, log, plan.len() as int) =~= before + truth);
        }
    }
}

/// A DAP_Transfer whose transfers all succeed completes every request and answers with the
/// values of the registers that were read, in the order in which the host asked for them,
/// although AP reads are posted.
pub proof fn posted_reads_come_back_in_order(req: Seq<u8>, truth: Seq<u32>)
    requires
        req.len() >= 3,
        requests_present(req, 3, req[2] as nat),
        truth.len() == reads_asked(req, 3, req[2] as nat),
    ensures
        ({
            let n = req[2] as nat;
            let plan = transfer_plan(req, 3, n, false);
            let log = port_replies(req, 3, n, None, truth);
            &&& plan_next(plan, log) is None
            &&& plan_report(plan, log) == (Report {
                processed: n as int,
                ack: Ack::Okay,
                data: truth,
            })
        }),
{
    let n = req[2] as nat;
    let plan = transfer_plan(req, 3, n, false);
    let log = port_replies(req, 3, n, None, truth);
    posted_values(req, 3, n, None, truth);
    until_is(log, 0, plan.len() as int, failed(), plan.len() as int);
    assert(Seq::<u32>::empty() + truth =~= truth);
}

/// Once a transfer of a plan has failed, no other is made, and its acknowledgement is the
/// one that the host sees.
pub proof fn a_failure_ends_the_plan(plan: Seq<Planned>, log: Seq<SwdReply>, k: int)
    requires
        0 <= k < plan.len(),
        k < log.len(),
        !(log[k].ack is Okay),
        forall|j: int| 0 <= j < k ==> (#[trigger] log[j]).ack is Okay,
    ensures
        plan_next(plan, log) is None,
        plan_report(plan, log).ack == log[k].ack,
        plan_report(plan, log).processed == completions(plan, k),
        plan_report(plan, log).data == captured(plan, log, k),
{
    assert(failed()(log[k]));
    until_is(log, 0, plan.len() as int, failed(), k);
}

/// The answer never holds more values than the plan captures.
pub proof fn report_fits(plan: Seq<Planned>, log: Seq<SwdReply>, k: int)
    requires
        0 <= k <= plan.len(),
    ensures
        captured(plan, log, k).len() == captures(plan, k),
        0 <= captures(plan, k) <= captures(plan, plan.len() as int),
        0 <= completions(plan, k) <= completions(plan, plan.len() as int),
    decreases plan.len() - k, k,
{
    capture_lengths(plan, log, k);
    if k < plan.len() {
        report_fits(plan, log, k + 1);
    }
}

proof fn capture_lengths(plan: Seq<Planned>, log: Seq<SwdReply>, k: int)
    ensures
        captured(plan, log, k).len() == captures(plan, k),
        0 <= captures(plan, k),
        0 <= completions(plan, k),
    decreases k,
{
    if k > 0 {
        capture_lengths(plan, log, k - 1);
    }
}

/// DAP_Transfer answers with one word for each read, and completes each request.
pub proof fn transfer_plan_counts(req: Seq<u8>, n: nat)
    requires
        requests_present(req, 3, n),
    ensures
        ({
            let plan = transfer_plan(req, 3, n, false);
            &&& captures(plan, plan.len() as int) == reads_asked(req, 3, n)
            &&& completions(plan, plan.len() as int) == n
        }),
{
    reads_asked_nonnegative(req, 3, n);
    let truth = Seq::new(reads_asked(req, 3, n) as nat, |i: int| 0u32);
    posted_values(req, 3, n, None, truth);
}

proof fn reads_asked_nonnegative(req: Seq<u8>, qi: int, n: nat)
    ensures
        reads_asked(req, qi, n) >= 0,
    decreases n,
{
    if n > 0 {
        reads_asked_nonnegative(req, qi + 1, (n - 1) as nat);
        reads_asked_nonnegative(req, qi + 5, (n - 1) as nat);
    }
}

/// DAP_TransferBlock answers with one word for each of its reads and with none for its
/// writes, and completes each access.
pub proof fn block_plan_counts(req: Seq<u8>, request: u8, count: nat)
    requires
        block_present(req, request, count),
    ensures
        ({
            let plan = block_plan(req, request, count);
            &&& captures(plan, plan.len() as int) == if is_read(request) {
                count as int
            } else {
                0
            }
            &&& completions(plan, plan.len() as int) == count
        }),
{
    let plan = block_plan(req, request, count);
    let offset: int = if is_read(request) && is_ap(request) {
        1
    } else {
        0
    };
    block_prefix_counts(req, request, count, plan.len() - offset);
}

proof fn block_prefix_counts(req: Seq<u8>, request: u8, count: nat, k: int)
    requires
        0 <= k <= count,
        block_present(req, request, count),
    ensures
        ({
            let plan = block_plan(req, request, count);
            let offset: int = if is_read(request) && is_ap(request) {
                1
            } else {
                0
            };
            &&& captures(plan, offset + k) == if is_read(request) {
                k
            } else {
                0
            }
            &&& completions(plan, offset + k) == k
        }),
    decreases k,
{
    reveal_with_fuel(captures, 2);
    reveal_with_fuel(completions, 2);
    if k > 0 {
        block_prefix_counts(req, request, count, k - 1);
    }
}

/// One access that a host asks for.
pub struct Access {
    pub request: u8,
    pub wdata: u32,
}

/// The bytes of an access in a DAP_Transfer packet: the request, and the data of a write.
pub open spec fn access_bytes(a: Access) -> Seq<u8> {
    if (a.request / 2) % 2 == 1 {
        seq![a.request]
    } else {
        seq![a.request] + le_bytes(a.wdata)
    }
}

/// The bytes of some accesses, one after the other.
pub open spec fn accesses_bytes(list: Seq<Access>) -> Seq<u8>
    decreases list.len(),
{
    if list.len() == 0 {
        Seq::empty()
    } else {
        access_bytes(list[0]) + accesses_bytes(list.drop_first())
    }
}

/// What reaches the target of an access: reads have no data.
pub open spec fn sent(a: Access) -> (u8, u32) {
    (
        a.request,
        if (a.request / 2) % 2 == 1 {
            0
        } else {
            a.wdata
        },
    )
}

/// The transfers of a plan that complete a request, in order.
pub open spec fn completing(plan: Seq<Planned>) -> Seq<(u8, u32)>
    decreases plan.len(),
{
    if plan.len() == 0 {
        Seq::empty()
    } else {
        (if plan[0].completes {
            seq![(plan[0].request, plan[0].wdata)]
        } else {
            Seq::empty()
        }) + completing(plan.drop_first())
    }
}

/// Every other transfer of a plan reads RDBUFF for the answer.
pub open spec fn others_fetch(plan: Seq<Planned>) -> bool {
    forall|i: int|
        0 <= i < plan.len() && !(#[trigger] plan[i]).completes ==> plan[i].request == 0x0E
            && plan[i].wdata == 0 && plan[i].capture
}

proof fn completing_adds(a: Seq<Planned>, b: Seq<Planned>)
    ensures
        completing(a + b) == completing(a) + completing(b),
    decreases a.len(),
{
    if a.len() == 0 {
        assert(a + b =~= b);
        assert(completing(a) + completing(b) =~= completing(b));
    } else {
        completing_adds(a.drop_first(), b);
        assert((a + b).drop_first() =~= a.drop_first() + b);
        assert(completing(a + b) =~= completing(a) + completing(b));
    }
}

/// A plan carries what the packet says: where the packet holds the bytes of some accesses
/// from `qi` on, the transfers that complete a request are just these accesses, in order and
/// with their data, and the only others read RDBUFF.
pub proof fn plans_carry_the_packet(req: Seq<u8>, qi: int, list: Seq<Access>, posted: bool)
    requires
        0 <= qi,
        qi + accesses_bytes(list).len() <= req.len(),
        req.subrange(qi, qi + accesses_bytes(list).len()) == accesses_bytes(list),
    ensures
        ({
            let plan = transfer_plan(req, qi, list.len(), posted);
            &&& completing(plan) == list.map_values(|a: Access| sent(a))
            &&& others_fetch(plan)
            &&& requests_present(req, qi, list.len())
        }),
    decreases list.len(),
{
    let f = |a: Access| sent(a);
    let plan = transfer_plan(req, qi, list.len(), posted);
    reveal_with_fuel(completing, 2);
    assert(completing(fetch_if(posted)) =~= Seq::empty());
    if list.len() == 0 {
        assert(completing(plan) =~= list.map_values(f));
    } else {
        let a = list[0];
        let first = access_bytes(a);
        let rest = accesses_bytes(list.drop_first());
        let all = accesses_bytes(list);
        let next = qi + first.len();
        assert(req.subrange(qi, qi + all.len())[0] == all[0]);
        assert(req[qi] == a.request);
        assert forall|i: int| 0 <= i < rest.len() implies req.subrange(next, next + rest.len())[i]
            == rest[i] by {
            assert(req.subrange(qi, qi + all.len())[first.len() + i] == all[first.len() + i]);
        }
        assert(req.subrange(next, next + rest.len()) =~= rest);
        let read = (a.request / 2) % 2 == 1;
        if !read {
            assert forall|i: int| 0 <= i < 4 implies req.subrange(qi + 1, qi + 5)[i] == le_bytes(
                a.wdata,
            )[i] by {
                assert(req.subrange(qi, qi + all.len())[1 + i] == all[1 + i]);
            }
            assert(req.subrange(qi + 1, qi + 5) =~= le_bytes(a.wdata));
            le_round_trip(a.wdata);
            assert(word_at(req, qi + 1) == a.wdata);
        }
        let after = is_read(a.request) && is_ap(a.request);
        plans_carry_the_packet(req, next, list.drop_first(), after);
        let b = transfer_plan(req, next, (list.len() - 1) as nat, after);
        let p = plan[plan.len() - b.len() - 1];
        let front = if after {
            Seq::empty()
        } else {
            fetch_if(posted)
        };
        assert(plan =~= front + (seq![p] + b));
        completing_adds(seq![p], b);
        completing_adds(front, seq![p] + b);
        assert(seq![p].drop_first() =~= Seq::empty());
        assert(completing(seq![p]) =~= seq![(p.request, p.wdata)]);
        assert(completing(plan) =~= list.map_values(f)) by {
            assert(list.map_values(f) =~= seq![sent(a)] + list.drop_first().map_values(f));
        }
        assert forall|i: int|
            0 <= i < plan.len() && !(#[trigger] plan[i]).completes implies plan[i].request == 0x0E
            && plan[i].wdata == 0 && plan[i].capture by {
            if i >= front.len() + 1 {
                assert(plan[i] == b[i - front.len() - 1]);
            }
        }
    }
}

/// A plan asks for its transfers one by one, each with leave to be repeated.
pub proof fn plans_are_made_in_order(plan: Seq<Planned>, log: Seq<SwdReply>)
    requires
        log.len() < plan.len(),
        forall|j: int| 0 <= j < log.len() ==> (#[trigger] log[j]).ack is Okay,
    ensures
        plan_next(plan, log) == Some(
            Transfer {
                prelude: Seq::empty(),
                request: plan[log.len() as int].request,
                wdata: plan[log.len() as int].wdata,
                retry: true,
            },
        ),
{
    until_is(log, 0, plan.len() as int, failed(), log.len() as int);
}

/// A DAP_TransferBlock that writes makes one write for each word that the packet has, to the
/// register asked for and with the bytes of that word, and takes nothing into the answer.
pub proof fn written_blocks_carry_the_packet(req: Seq<u8>, request: u8, count: nat, k: int)
    requires
        req.len() >= 5,
        (request / 2) % 2 == 0,
        0 <= k < count,
        9 + 4 * k <= req.len(),
    ensures
        ({
            let plan = block_plan(req, request, count);
            &&& k < plan.len() <= count
            &&& 5 + 4 * count <= req.len() ==> plan.len() == count
            &&& plan[k].request == request
            &&& le_bytes(plan[k].wdata) == req.subrange(5 + 4 * k, 9 + 4 * k)
            &&& plan[k].completes
            &&& !plan[k].capture
        }),
{
    let plan = block_plan(req, request, count);
    low_bytes_come_first(0, req.subrange(5 + 4 * k, 9 + 4 * k));
    assert(plan[k].wdata == word_at(req, 5 + 4 * k));
}

/// A DAP_TransferBlock that reads and whose transfers all succeed completes every access and
/// answers with the register's values in order. Through the AP each value arrives one
/// transfer late: the register is read as often as was asked, and RDBUFF once at the end.
pub proof fn read_blocks_come_back_in_order(
    req: Seq<u8>,
    request: u8,
    count: nat,
    truth: Seq<u32>,
    stale: u32,
)
    requires
        (request / 2) % 2 == 1,
        truth.len() == count,
    ensures
        ({
            let plan = block_plan(req, request, count);
            let ap = request % 2 == 1;
            let values = if ap {
                seq![stale] + truth
            } else {
                truth
            };
            let log = values.map_values(|v: u32| SwdReply { ack: Ack::Okay, val: v });
            &&& plan.len() == log.len()
            &&& forall|i: int|
                0 <= i < plan.len() ==> (#[trigger] plan[i]).wdata == 0 && plan[i].request == if ap
                    && i > 0 && i == count {
                    0x0E
                } else {
                    request
                }
            &&& plan_next(plan, log) is None
            &&& plan_report(plan, log) == (Report {
                processed: count as int,
                ack: Ack::Okay,
                data: truth,
            })
        }),
{
    let plan = block_plan(req, request, count);
    let ap = request % 2 == 1;
    let values = if ap {
        seq![stale] + truth
    } else {
        truth
    };
    let log = values.map_values(|v: u32| SwdReply { ack: Ack::Okay, val: v });
    until_is(log, 0, plan.len() as int, failed(), plan.len() as int);
    let offset: int = if ap {
        1
    } else {
        0
    };
    block_captures(req, request, count, truth, log, offset, count as int);
    block_prefix_counts(req, request, count, count as int);
    assert(truth.subrange(0, count as int) =~= truth);
}

proof fn block_captures(
    req: Seq<u8>,
    request: u8,
    count: nat,
    truth: Seq<u32>,
    log: Seq<SwdReply>,
    offset: int,
    k: int,
)
    requires
        is_read(request),
        truth.len() == count,
        0 <= k <= count,
        offset == if is_ap(request) {
            1int
        } else {
            0
        },
        log.len() == count + offset,
        forall|i: int| 0 <= i < count ==> log[offset + i].val == #[trigger] truth[i],
    ensures
        captured(block_plan(req, request, count), log, offset + k) == truth.subrange(0, k),
    decreases k,
{
    let plan = block_plan(req, request, count);
    reveal_with_fuel(captured, 2);
    if k == 0 {
        assert(captured(plan, log, offset) =~= truth.subrange(0, 0));
    } else {
        block_captures(req, request, count, truth, log, offset, k - 1);
        assert(log[offset + (k - 1)].val == truth[k - 1]);
        assert(captured(plan, log, offset + k) =~= truth.subrange(0, k));
    }
}

/// The words of a packet are those whose bytes it holds.
pub proof fn words_stand_in_the_packet(req: Seq<u8>, i: int, v: u32)
    requires
        0 <= i,
        i + 4 <= req.len(),
        req.subrange(i, i + 4) == le_bytes(v),
    ensures
        word_at(req, i) == v,
{
    le_round_trip(v);
}

/// A packet that was cut short ends the plan where its bytes end: nothing is planned for a
/// request that is missing, and a write whose word is not all there is left out, but not the
/// read that it would have finished.
pub proof fn cut_packets_end_the_plan(req: Seq<u8>, qi: int, n: nat, posted: bool)
    requires
        n > 0,
        qi >= 0,
    ensures
        qi >= req.len() ==> transfer_plan(req, qi, n, posted).len() == 0 && !requests_present(
            req,
            qi,
            n,
        ),
        qi < req.len() && (req[qi] / 2) % 2 == 0 && req.len() - qi <= 4 ==> {
            &&& transfer_plan(req, qi, n, posted).len() == if posted {
                1int
            } else {
                0
            }
            &&& !requests_present(req, qi, n)
        },
        transfer_plan(req, qi, 0, posted).len() == if posted {
            1int
        } else {
            0
        },
        requests_present(req, qi, 0),
        qi < req.len() && (req[qi] / 2) % 2 == 1 ==> requests_present(req, qi, n)
            == requests_present(req, qi + 1, (n - 1) as nat),
        qi + 5 <= req.len() && (req[qi] / 2) % 2 == 0 ==> requests_present(req, qi, n)
            == requests_present(req, qi + 5, (n - 1) as nat),
{
}

/// Only a block of writes needs data: four bytes to each, after the five of its head. What is
/// planned are the words that are all there.
pub proof fn blocks_need_their_words(req: Seq<u8>, request: u8, count: nat)
    ensures
        (request / 2) % 2 == 1 ==> block_present(req, request, count),
        (request / 2) % 2 == 0 ==> (block_present(req, request, count) <==> req.len() - 5 >= 4
            * count),
        (request / 2) % 2 == 0 ==> ({
            let planned = block_plan(req, request, count).len();
            &&& planned <= count
            &&& planned > 0 ==> 5 + 4 * planned <= req.len()
            &&& planned < count ==> 5 + 4 * (planned + 1) > req.len()
        }),
{
}

} // verus!
