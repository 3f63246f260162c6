//! The SWD transfer: request packet, acknowledgement, data phase, retries.
//!
//! A transfer is a conversation with the wire. [`SwdTransfer`] hands out batches of
//! wire operations and takes back the words that the reads in them brought; when the
//! outcome is known it says so.
use vstd::arithmetic::power2::pow2;
use vstd::prelude::*;

use crate::dap::types::{request_byte, Ack};
use crate::probe::{reads_in, reads_of_concatenation, WireOp};

verus! {

/// Number of one bits of a number.
pub open spec fn ones(v: nat) -> nat
    decreases v,
{
    if v == 0 {
        0
    } else {
        v % 2 + ones(v / 2)
    }
}

/// Number of one bits of a word.
pub fn count_ones(v: u32) -> (r: u32)
    ensures
        r == ones(v as nat),
{
    let mut left: u32 = v;
    let mut n: u32 = 0;
    let mut width: u32 = 32;
    proof {
        vstd::arithmetic::power2::lemma2_to64();
    }
    while left > 0
        invariant
            n + ones(left as nat) == ones(v as nat),
            n + width <= 32,
            left < pow2(width as nat),
        decreases left,
    {
        proof {
            if width == 0 {
                vstd::arithmetic::power2::lemma2_to64();
            } else {
                vstd::arithmetic::power2::lemma_pow2_unfold(width as nat);
            }
        }
        n = n + left % 2;
        left = left / 2;
        width = width - 1;
    }
    n
}

/// The request reads a register.
pub open spec fn is_read(request: u8) -> bool {
    (request / 2) % 2 == 1
}

/// The request goes to the AP.
pub open spec fn is_ap(request: u8) -> bool {
    request % 2 == 1
}

/// Whether bit 1 of a request, RnW, is set.
pub fn reads_register(request: u8) -> (r: bool)
    ensures
        r == is_read(request),
{
    (request / 2) % 2 == 1
}

/// Whether bit 0 of a request, APnDP, is set.
pub fn targets_ap(request: u8) -> (r: bool)
    ensures
        r == is_ap(request),
{
    request % 2 == 1
}

/// How transfers are made.
#[derive(Clone, Copy, PartialEq, Eq, Structural, Debug)]
pub struct SwdConfig {
    /// Clocks with SWDIO low after each transfer; at least eight are made.
    pub idle_cycles: u32,
    /// How often a transfer that is answered WAIT is repeated.
    pub retry_count: u16,
    /// Clocks of a turnaround, 1 to 4.
    pub turnaround: u32,
    /// A data phase follows WAIT and FAULT too.
    pub data_phase: bool,
}

impl SwdConfig {
    pub open spec fn wf(self) -> bool {
        1 <= self.turnaround <= 4
    }
}

/// The outcome of a transfer; `val` is 0 unless a read brought data.
#[derive(Clone, Copy, PartialEq, Eq, Structural, Debug)]
pub struct SwdReply {
    pub ack: Ack,
    pub val: u32,
}

/// The packet for a request: start bit, APnDP, RnW, A2, A3, parity over these four,
/// stop bit (0), park bit.
pub open spec fn request_packet(request: u8) -> int {
    1 + 2 * (request % 16) + 32 * ((ones((request % 16) as nat) % 2) as int) + 128
}

/// Sends the packet, lets the wire turn round, samples the acknowledgement.
pub open spec fn header(cfg: SwdConfig, request: u8) -> Seq<WireOp> {
    seq![
        WireOp::Write { bits: 8, data: request_packet(request) as u32 },
        WireOp::Read { bits: (cfg.turnaround + 3) as u32 },
    ]
}

/// The acknowledgement in what the header's read brought back.
pub open spec fn acknowledged(cfg: SwdConfig, raw: u32) -> Ack {
    Ack::of_wire((raw as int / pow2(cfg.turnaround as nat) as int) % 8)
}

/// `n` clocks with SWDIO low, at most 256 to an operation.
pub open spec fn low_clocks(n: nat) -> Seq<WireOp>
    decreases n,
{
    if n == 0 {
        Seq::empty()
    } else {
        let c = if n < 256 {
            n
        } else {
            256
        };
        seq![WireOp::Write { bits: c as u32, data: 0 }] + low_clocks((n - c) as nat)
    }
}

/// `n` bits clocked in and thrown away, at most 32 to an operation.
pub open spec fn discarded(n: nat) -> Seq<WireOp>
    decreases n,
{
    if n == 0 {
        Seq::empty()
    } else {
        let c = if n < 32 {
            n
        } else {
            32
        };
        seq![WireOp::Read { bits: c as u32 }] + discarded((n - c) as nat)
    }
}

/// The idle clocks after a transfer: as many as configured, but at least eight.
pub open spec fn idle_clocks(cfg: SwdConfig) -> nat {
    if cfg.idle_cycles < 8 {
        8
    } else {
        cfg.idle_cycles as nat
    }
}

/// What follows the acknowledgement `ack`.
pub open spec fn data_phase(cfg: SwdConfig, request: u8, wdata: u32, ack: Ack) -> Seq<WireOp> {
    let turn = seq![WireOp::Hiz { bits: cfg.turnaround }];
    if ack is Okay {
        if is_read(request) {
            seq![WireOp::Read { bits: 32 }, WireOp::Read { bits: 1 }] + turn + low_clocks(
                idle_clocks(cfg),
            )
        } else {
            turn + seq![
                WireOp::Write { bits: 32, data: wdata },
                WireOp::Write { bits: 1, data: (ones(wdata as nat) % 2) as u32 },
            ] + low_clocks(idle_clocks(cfg))
        }
    } else if ack is Wait || ack is Fault {
        (if cfg.data_phase && is_read(request) {
            discarded(33)
        } else {
            Seq::empty()
        }) + turn + (if cfg.data_phase && !is_read(request) {
            seq![WireOp::Write { bits: 32, data: 0 }, WireOp::Write { bits: 1, data: 0 }]
        } else {
            Seq::empty()
        })
    } else {
        discarded((cfg.turnaround + 33) as nat)
    }
}

/// The outcome, once the data phase has brought back `reads`.
pub open spec fn outcome(request: u8, ack: Ack, reads: Seq<u32>) -> SwdReply {
    if ack is Okay && is_read(request) {
        SwdReply {
            ack: if ones(reads[0] as nat) % 2 == reads[1] as nat % 2 {
                Ack::Okay
            } else {
                Ack::Parity
            },
            val: reads[0],
        }
    } else {
        SwdReply { ack, val: 0 }
    }
}

proof fn low_clocks_read_nothing(n: nat)
    ensures
        reads_in(low_clocks(n)) == 0,
    decreases n,
{
    if n > 0 {
        let c = if n < 256 {
            n
        } else {
            256
        };
        let first = seq![WireOp::Write { bits: c as u32, data: 0 }];
        low_clocks_read_nothing((n - c) as nat);
        reads_of_concatenation(first, low_clocks((n - c) as nat));
        reveal_with_fuel(reads_in, 2);
        assert(first.drop_last() =~= Seq::empty());
    }
}

/// A successful read brings back two words: the data and its parity bit.
pub proof fn read_brings_data_and_parity(cfg: SwdConfig, request: u8, wdata: u32)
    requires
        is_read(request),
    ensures
        reads_in(data_phase(cfg, request, wdata, Ack::Okay)) == 2,
{
    let turn = seq![WireOp::Hiz { bits: cfg.turnaround }];
    let two = seq![WireOp::Read { bits: 32 }, WireOp::Read { bits: 1 }];
    let idle = low_clocks(idle_clocks(cfg));
    low_clocks_read_nothing(idle_clocks(cfg));
    reads_of_concatenation(two + turn, idle);
    reads_of_concatenation(two, turn);
    reveal_with_fuel(reads_in, 3);
    assert(turn.drop_last() =~= Seq::empty());
    assert(two.drop_last() =~= seq![WireOp::Read { bits: 32 }]);
    assert(two.drop_last().drop_last() =~= Seq::empty());
}

/// The request packet starts with a one, ends with stop (0) and park (1), carries the
/// request bits in between, and has even parity over them and the parity bit.
pub proof fn packet_is_framed(request: u8)
    ensures
        request_packet(request) % 2 == 1,
        (request_packet(request) / 2) % 16 == request % 16,
        (ones((request % 16) as nat) + (request_packet(request) / 32) % 2) % 2 == 0,
        (request_packet(request) / 64) % 2 == 0,
        (request_packet(request) / 128) == 1,
{
}

/// Clocks that a batch drives.
pub open spec fn clocks_in(ops: Seq<WireOp>) -> nat
    decreases ops.len(),
{
    if ops.len() == 0 {
        0
    } else {
        clocks_in(ops.drop_first()) + match ops.first() {
            WireOp::Write { bits, data } => bits as nat,
            WireOp::Hiz { bits } => bits as nat,
            WireOp::Read { bits } => bits as nat,
        }
    }
}

/// The idle time has exactly the clocks it is meant to have.
pub proof fn low_clocks_last_as_long_as_asked(n: nat)
    ensures
        clocks_in(low_clocks(n)) == n,
    decreases n,
{
    if n > 0 {
        let c = if n < 256 {
            n
        } else {
            256
        };
        low_clocks_last_as_long_as_asked((n - c) as nat);
        assert(low_clocks(n).drop_first() =~= low_clocks((n - c) as nat));
    }
}

/// After an acknowledged transfer SWDIO stays low for at least eight clocks, and for
/// as many as were configured.
pub proof fn idle_lasts_at_least_eight_clocks(cfg: SwdConfig)
    ensures
        clocks_in(low_clocks(idle_clocks(cfg))) >= 8,
        clocks_in(low_clocks(idle_clocks(cfg))) >= cfg.idle_cycles,
{
    low_clocks_last_as_long_as_asked(idle_clocks(cfg));
}

proof fn one_more_bit(v: nat, k: nat)
    requires
        (v as int / pow2(k) as int) % 2 == 0,
    ensures
        ones(v + pow2(k)) == ones(v) + 1,
    decreases k,
{
    vstd::arithmetic::power2::lemma2_to64();
    if k == 0 {
        assert(v as int / 1 == v);
        assert((v + 1) / 2 == v / 2);
    } else {
        let half = pow2((k - 1) as nat);
        vstd::arithmetic::power2::lemma_pow2_unfold(k);
        vstd::arithmetic::power2::lemma_pow2_pos((k - 1) as nat);
        vstd::arithmetic::div_mod::lemma_div_denominator(v as int, 2, half as int);
        one_more_bit(v / 2, (k - 1) as nat);
        assert((v + pow2(k)) / 2 == v / 2 + half);
        assert((v + pow2(k)) % 2 == v % 2);
    }
}

/// A read gives back the word that the target sent, where the parity that came with it is
/// that of the word; a word in which one bit changed on the way is not taken for a success.
pub proof fn flipped_bits_are_noticed(request: u8, sent: u32, k: nat)
    requires
        is_read(request),
        k < 32,
        (sent as int / pow2(k) as int) % 2 == 0,
        sent + pow2(k) <= u32::MAX,
    ensures
        ({
            let other = (sent + pow2(k)) as u32;
            let parity = (ones(sent as nat) % 2) as u32;
            let other_parity = (ones(other as nat) % 2) as u32;
            &&& outcome(request, Ack::Okay, seq![sent, parity]) == (SwdReply {
                ack: Ack::Okay,
                val: sent,
            })
            &&& outcome(request, Ack::Okay, seq![other, other_parity]) == (SwdReply {
                ack: Ack::Okay,
                val: other,
            })
            &&& outcome(request, Ack::Okay, seq![other, parity]).ack is Parity
            &&& outcome(request, Ack::Okay, seq![sent, other_parity]).ack is Parity
        }),
{
    one_more_bit(sent as nat, k);
}

fn packet(request: u8) -> (r: u32)
    ensures
        r == request_packet(request),
        0 <= request_packet(request) < 256,
{
    let a: u8 = request % 16;
    let parity: u32 = count_ones(a as u32) % 2;
    1 + 2 * (a as u32) + 32 * parity + 128
}

/// Appends the idle clocks.
fn idle(cfg: &SwdConfig, ops: &mut Vec<WireOp>)
    ensures
        final(ops)@ == old(ops)@ + low_clocks(idle_clocks(*cfg)),
{
    let mut n: u32 = if cfg.idle_cycles < 8 {
        8
    } else {
        cfg.idle_cycles
    };
    let ghost all = ops@ + low_clocks(n as nat);
    while n > 0
        invariant
            ops@ + low_clocks(n as nat) == all,
        decreases n,
    {
        let c: u32 = if n < 256 {
            n
        } else {
            256
        };
        let ghost before = ops@;
        ops.push(WireOp::Write { bits: c, data: 0 });
        assert(ops@ + low_clocks((n - c) as nat) =~= before + low_clocks(n as nat));
        n = n - c;
    }
    assert(ops@ =~= ops@ + low_clocks(0));
}

/// Appends `count` bits to be thrown away.
fn clock_in_discard(count: u32, ops: &mut Vec<WireOp>)
    ensures
        final(ops)@ == old(ops)@ + discarded(count as nat),
{
    let mut n: u32 = count;
    let ghost all = ops@ + discarded(n as nat);
    while n > 0
        invariant
            ops@ + discarded(n as nat) == all,
        decreases n,
    {
        let c: u32 = if n < 32 {
            n
        } else {
            32
        };
        let ghost before = ops@;
        ops.push(WireOp::Read { bits: c });
        assert(ops@ + discarded((n - c) as nat) =~= before + discarded(n as nat));
        n = n - c;
    }
    assert(ops@ =~= ops@ + discarded(0));
}

/// The batch that opens a transfer.
fn header_ops(cfg: &SwdConfig, request: u8) -> (r: Vec<WireOp>)
    requires
        cfg.wf(),
    ensures
        r@ == header(*cfg, request),
{
    vec![
        WireOp::Write { bits: 8, data: packet(request) },
        WireOp::Read { bits: cfg.turnaround + 3 },
    ]
}

/// The batch that follows the acknowledgement.
fn data_ops(cfg: &SwdConfig, request: u8, wdata: u32, ack: Ack) -> (r: Vec<WireOp>)
    requires
        cfg.wf(),
    ensures
        r@ == data_phase(*cfg, request, wdata, ack),
{
    let mut ops: Vec<WireOp> = Vec::new();
    let read: bool = reads_register(request);
    match ack {
        Ack::Okay => {
            if read {
                ops.push(WireOp::Read { bits: 32 });
                ops.push(WireOp::Read { bits: 1 });
                ops.push(WireOp::Hiz { bits: cfg.turnaround });
            } else {
                ops.push(WireOp::Hiz { bits: cfg.turnaround });
                ops.push(WireOp::Write { bits: 32, data: wdata });
                ops.push(WireOp::Write { bits: 1, data: count_ones(wdata) % 2 });
            }
            idle(cfg, &mut ops);
        },
        Ack::Wait | Ack::Fault => {
            if cfg.data_phase && read {
                clock_in_discard(33, &mut ops);
            }
            ops.push(WireOp::Hiz { bits: cfg.turnaround });
            if cfg.data_phase && !read {
                ops.push(WireOp::Write { bits: 32, data: 0 });
                ops.push(WireOp::Write { bits: 1, data: 0 });
            }
        },
        _ => {
            clock_in_discard(cfg.turnaround + 33, &mut ops);
        },
    }
    assert(ops@ =~= data_phase(*cfg, request, wdata, ack));
    ops
}

/// Bits that go out as they are: no turnaround, no acknowledgement.
#[derive(Clone, Copy, PartialEq, Eq, Structural, Debug)]
pub struct RawBits {
    /// 1 to 32.
    pub bits: u32,
    pub data: u32,
}

/// The wire operations that send raw bits.
pub open spec fn raw_writes(raw: Seq<RawBits>) -> Seq<WireOp> {
    raw.map_values(|b: RawBits| WireOp::Write { bits: b.bits, data: b.data })
}

/// A transfer to be made.
pub struct SwdRequest {
    /// Raw bits that go out first, without a pause in between.
    pub prelude: Vec<RawBits>,
    pub request: u8,
    pub wdata: u32,
    /// Repeat the transfer while it is answered WAIT.
    pub retry: bool,
}

/// The value of a [`SwdRequest`].
#[verifier::ext_equal]
pub struct Transfer {
    pub prelude: Seq<RawBits>,
    pub request: u8,
    pub wdata: u32,
    pub retry: bool,
}

impl View for SwdRequest {
    type V = Transfer;

    open spec fn view(&self) -> Transfer {
        Transfer {
            prelude: self.prelude@,
            request: self.request,
            wdata: self.wdata,
            retry: self.retry,
        }
    }
}

/// A transfer on its own, without retries.
pub open spec fn plain(request: u8, wdata: u32) -> Transfer {
    Transfer { prelude: Seq::empty(), request, wdata, retry: false }
}

/// A transfer that is repeated while it is answered WAIT.
pub open spec fn retried(request: u8, wdata: u32) -> Transfer {
    Transfer { prelude: Seq::empty(), request, wdata, retry: true }
}

/// A transfer on its own, without retries.
pub fn swd_transfer(request: u8, wdata: u32) -> (r: SwdRequest)
    ensures
        r@ == plain(request, wdata),
{
    let r = SwdRequest { prelude: Vec::new(), request, wdata, retry: false };
    assert(r@.prelude =~= Seq::empty());
    r
}

/// A transfer that is repeated while it is answered WAIT.
pub fn transfer_retry(request: u8, wdata: u32) -> (r: SwdRequest)
    ensures
        r@ == retried(request, wdata),
{
    let r = SwdRequest { prelude: Vec::new(), request, wdata, retry: true };
    assert(r@.prelude =~= Seq::empty());
    r
}

/// How often a transfer may be repeated.
pub open spec fn repetitions(cfg: SwdConfig, retry: bool) -> nat {
    if retry {
        cfg.retry_count as nat
    } else {
        0
    }
}

/// The transfer is made once more after this outcome, with `tries` repetitions left.
pub open spec fn is_repeated(reply: SwdReply, tries: nat) -> bool {
    reply.ack is Wait && tries > 0
}

/// How often a transfer is made that may be repeated `tries` times, where `replies` are the
/// outcomes that it has, one after the other.
pub open spec fn times_made(replies: Seq<SwdReply>, tries: nat) -> nat
    decreases tries,
{
    if replies.len() > 0 && is_repeated(replies[0], tries) && tries > 0 {
        1 + times_made(replies.drop_first(), (tries - 1) as nat)
    } else {
        1
    }
}

/// A transfer is made once, and again as long as it is answered WAIT and repetitions are
/// left: it never stops at a WAIT before they are used up, and nothing but WAIT makes it go
/// on. Without leave to repeat it is made once.
pub proof fn waits_are_repeated(cfg: SwdConfig, retry: bool, replies: Seq<SwdReply>)
    requires
        replies.len() > cfg.retry_count,
    ensures
        ({
            let n = times_made(replies, repetitions(cfg, retry)) as int;
            &&& 1 <= n <= replies.len()
            &&& !retry ==> n == 1
            &&& n <= cfg.retry_count + 1
            &&& forall|i: int| 0 <= i < n - 1 ==> (#[trigger] replies[i]).ack is Wait
            &&& retry && replies[n - 1].ack is Wait ==> n == cfg.retry_count + 1
        }),
{
    times_made_counts_waits(replies, repetitions(cfg, retry));
}

proof fn times_made_counts_waits(replies: Seq<SwdReply>, tries: nat)
    requires
        replies.len() > tries,
    ensures
        ({
            let n = times_made(replies, tries) as int;
            &&& 1 <= n <= tries + 1
            &&& forall|i: int| 0 <= i < n - 1 ==> (#[trigger] replies[i]).ack is Wait
            &&& replies[n - 1].ack is Wait ==> n == tries + 1
        }),
    decreases tries,
{
    if tries > 0 && replies[0].ack is Wait {
        let rest = replies.drop_first();
        times_made_counts_waits(rest, (tries - 1) as nat);
        assert forall|i: int| 0 <= i < times_made(replies, tries) - 1 implies (
        #[trigger] replies[i]).ack is Wait by {
            if i > 0 {
                assert(rest[i - 1] == replies[i]);
            }
        }
    }
}

/// Where a transfer stands: the operations handed out last are those of its header,
/// or those of the data phase after this acknowledgement.
#[derive(Clone, Copy, PartialEq, Eq, Structural, Debug)]
pub enum SwdStage {
    Header,
    Data(Ack),
}

/// What a transfer asks for next.
pub enum SwdStep {
    /// Perform these operations and resume with the words that were read.
    Wire(Vec<WireOp>),
    /// The transfer is over.
    Done(SwdReply),
}

/// A transfer in progress.
pub struct SwdTransfer {
    cfg: SwdConfig,
    request: u8,
    wdata: u32,
    tries: u32,
    stage: SwdStage,
    attempts: Ghost<Seq<SwdReply>>,
    budget: Ghost<nat>,
}

impl SwdTransfer {
    pub closed spec fn config(self) -> SwdConfig {
        self.cfg
    }

    pub closed spec fn request(self) -> u8 {
        self.request
    }

    pub closed spec fn wdata(self) -> u32 {
        self.wdata
    }

    /// Repetitions that are left.
    pub closed spec fn tries(self) -> nat {
        self.tries as nat
    }

    pub closed spec fn stage(self) -> SwdStage {
        self.stage
    }

    /// The outcomes so far, of each time the transfer was made.
    pub closed spec fn attempts(self) -> Seq<SwdReply> {
        self.attempts@
    }

    /// Repetitions that the transfer was given.
    pub closed spec fn budget(self) -> nat {
        self.budget@
    }

    /// The transfer goes on only while every outcome was WAIT, and each of them cost one
    /// of the repetitions.
    pub open spec fn wf(self) -> bool {
        &&& self.config().wf()
        &&& self.attempts().len() + self.tries() == self.budget()
        &&& forall|i: int| 0 <= i < self.attempts().len() ==> #[trigger] self.attempts()[i].ack is Wait
    }

    /// The words that the operations handed out last bring back.
    pub open spec fn awaited(self) -> nat {
        match self.stage() {
            SwdStage::Header => 1,
            SwdStage::Data(ack) => reads_in(
                data_phase(self.config(), self.request(), self.wdata(), ack),
            ),
        }
    }

    /// Starts a transfer; the operations to perform first come with it.
    pub fn begin(cfg: SwdConfig, req: &SwdRequest) -> (r: (SwdTransfer, Vec<WireOp>))
        requires
            cfg.wf(),
        ensures
            r.0.wf(),
            r.0.config() == cfg,
            r.0.request() == req.request,
            r.0.wdata() == req.wdata,
            r.0.stage() is Header,
            r.0.attempts() == Seq::<SwdReply>::empty(),
            r.0.budget() == if req.retry {
                cfg.retry_count as nat
            } else {
                0
            },
            r.0.tries() == repetitions(cfg, req.retry),
            r.1@ == raw_writes(req.prelude@) + header(cfg, req.request),
    {
        let mut ops: Vec<WireOp> = Vec::new();
        let mut i: usize = 0;
        while i < req.prelude.len()
            invariant
                i <= req.prelude@.len(),
                ops@ == raw_writes(req.prelude@.subrange(0, i as int)),
            decreases req.prelude.len() - i,
        {
            let raw = req.prelude[i];
            ops.push(WireOp::Write { bits: raw.bits, data: raw.data });
            i = i + 1;
            assert(ops@ =~= raw_writes(req.prelude@.subrange(0, i as int)));
        }
        assert(req.prelude@.subrange(0, i as int) =~= req.prelude@);
        let mut head = header_ops(&cfg, req.request);
        ops.append(&mut head);
        assert(ops@ =~= raw_writes(req.prelude@) + header(cfg, req.request));
        let tries: u32 = if req.retry {
            cfg.retry_count as u32
        } else {
            0
        };
        (
            SwdTransfer {
                cfg,
                request: req.request,
                wdata: req.wdata,
                tries,
                stage: SwdStage::Header,
                attempts: Ghost(Seq::empty()),
                budget: Ghost(tries as nat),
            },
            ops,
        )
    }

    /// Takes the words that the last operations brought back.
    ///
    /// The header's word is the acknowledgement and leads to the data phase. The data
    /// phase gives the outcome; WAIT starts over with the header, as often as tries are
    /// left, and everything else ends the transfer.
    pub fn resume(&mut self, reads: &[u32]) -> (r: SwdStep)
        requires
            old(self).wf(),
            reads@.len() == old(self).awaited(),
        ensures
            final(self).config() == old(self).config(),
            final(self).request() == old(self).request(),
            final(self).wdata() == old(self).wdata(),
            final(self).budget() == old(self).budget(),
            final(self).attempts().len() <= final(self).budget() + 1,
            old(self).stage() is Header ==> {
                let ack = acknowledged(old(self).config(), reads@[0]);
                &&& final(self).wf()
                &&& final(self).stage() == SwdStage::Data(ack)
                &&& final(self).tries() == old(self).tries()
                &&& final(self).attempts() == old(self).attempts()
                &&& r matches SwdStep::Wire(ops)
                &&& ops@ == data_phase(
                    old(self).config(),
                    old(self).request(),
                    old(self).wdata(),
                    ack,
                )
            },
            old(self).stage() matches SwdStage::Data(ack) ==> {
                let reply = outcome(old(self).request(), ack, reads@);
                &&& final(self).attempts() == old(self).attempts().push(reply)
                &&& r is Wire <==> is_repeated(reply, old(self).tries())
                &&& if reply.ack is Wait && old(self).tries() > 0 {
                    &&& final(self).wf()
                    &&& final(self).stage() is Header
                    &&& final(self).tries() == old(self).tries() - 1
                    &&& r matches SwdStep::Wire(ops)
                    &&& ops@ == header(old(self).config(), old(self).request())
                } else {
                    &&& r == SwdStep::Done(reply)
                    &&& reply.ack is Wait ==> final(self).attempts().len() == final(self).budget()
                        + 1
                }
            },
    {
        match self.stage {
            SwdStage::Header => {
                proof {
                    vstd::bits::lemma_u32_shr_is_div(reads@[0], self.cfg.turnaround);
                }
                let bits: u8 = ((reads[0] >> self.cfg.turnaround) % 8) as u8;
                let ack = Ack::from_swd(bits);
                self.stage = SwdStage::Data(ack);
                SwdStep::Wire(data_ops(&self.cfg, self.request, self.wdata, ack))
            },
            SwdStage::Data(ack) => {
                let read: bool = reads_register(self.request);
                proof {
                    if ack is Okay && is_read(self.request) {
                        read_brings_data_and_parity(self.cfg, self.request, self.wdata);
                    }
                }
                let reply = if ack == Ack::Okay && read {
                    let val: u32 = reads[0];
                    let even: bool = count_ones(val) % 2 == reads[1] % 2;
                    SwdReply {
                        ack: if even {
                            Ack::Okay
                        } else {
                            Ack::Parity
                        },
                        val,
                    }
                } else {
                    SwdReply { ack, val: 0 }
                };
                proof {
                    self.attempts@ = self.attempts@.push(reply);
                }
                if reply.ack == Ack::Wait && self.tries > 0 {
                    self.tries = self.tries - 1;
                    self.stage = SwdStage::Header;
                    SwdStep::Wire(header_ops(&self.cfg, self.request))
                } else {
                    SwdStep::Done(reply)
                }
            },
        }
    }
}

/// Nothing has no ones, and each bit that is set adds one.
pub proof fn ones_count_the_bits(v: nat, k: nat)
    requires
        (v as int / pow2(k) as int) % 2 == 0,
    ensures
        ones(0) == 0,
        ones(v + pow2(k)) == ones(v) + 1,
{
    one_more_bit(v, k);
}

/// What a request byte asks for, read off the byte that was made for it.
pub proof fn requests_are_told_apart(ap: bool, rnw: bool, a23: int)
    requires
        0 <= a23 < 4,
    ensures
        is_ap(request_byte(ap, rnw, a23) as u8) == ap,
        is_read(request_byte(ap, rnw, a23) as u8) == rnw,
{
}

/// Operations that hold SWDIO low for `n` clocks, no more than 256 at a time.
pub open spec fn idles(ops: Seq<WireOp>, n: int) -> bool {
    &&& clocks_in(ops) == n
    &&& forall|i: int|
        0 <= i < ops.len() ==> (#[trigger] ops[i] matches WireOp::Write { bits, data } && data == 0
            && 1 <= bits <= 256)
}

proof fn low_clocks_idle(n: nat)
    ensures
        idles(low_clocks(n), n as int),
        n > 0 ==> low_clocks(n).len() > 0,
    decreases n,
{
    low_clocks_last_as_long_as_asked(n);
    if n > 0 {
        let c = if n < 256 {
            n
        } else {
            256
        };
        low_clocks_idle((n - c) as nat);
        let rest = low_clocks((n - c) as nat);
        assert forall|i: int| 0 <= i < low_clocks(n).len() implies (#[trigger] low_clocks(
            n,
        )[i] matches WireOp::Write { bits, data } && data == 0 && 1 <= bits <= 256) by {
            if i > 0 {
                assert(low_clocks(n)[i] == rest[i - 1]);
            }
        }
    }
}

/// The idle clocks that a configuration leads to: what it says, and eight at least.
pub open spec fn settled_for(cfg: SwdConfig) -> int {
    if cfg.idle_cycles > 8 {
        cfg.idle_cycles as int
    } else {
        8
    }
}

/// An acknowledged write: the wire is turned round, the word goes out in 32 bits, and the
/// bit after it makes the number of ones of the two even. SWDIO is then held low.
pub proof fn written_words_have_even_parity(cfg: SwdConfig, request: u8, wdata: u32)
    requires
        cfg.wf(),
        (request / 2) % 2 == 0,
    ensures
        ({
            let ops = data_phase(cfg, request, wdata, Ack::Okay);
            &&& ops.len() > 3
            &&& ops[0] == WireOp::Hiz { bits: cfg.turnaround }
            &&& ops[1] == WireOp::Write { bits: 32, data: wdata }
            &&& ops[2] matches WireOp::Write { bits, data } && bits == 1 && data <= 1 && (ones(
                wdata as nat,
            ) + data) % 2 == 0
            &&& idles(ops.subrange(3, ops.len() as int), settled_for(cfg))
        }),
{
    let ops = data_phase(cfg, request, wdata, Ack::Okay);
    low_clocks_idle(idle_clocks(cfg));
    assert(ops.subrange(3, ops.len() as int) =~= low_clocks(idle_clocks(cfg)));
}

/// An acknowledged read: 32 bits and a parity bit are sampled, the wire is turned round, and
/// SWDIO is held low.
pub proof fn read_words_are_sampled_whole(cfg: SwdConfig, request: u8, wdata: u32)
    requires
        cfg.wf(),
        (request / 2) % 2 == 1,
    ensures
        ({
            let ops = data_phase(cfg, request, wdata, Ack::Okay);
            &&& ops.len() > 3
            &&& ops[0] == WireOp::Read { bits: 32 }
            &&& ops[1] == WireOp::Read { bits: 1 }
            &&& ops[2] == WireOp::Hiz { bits: cfg.turnaround }
            &&& idles(ops.subrange(3, ops.len() as int), settled_for(cfg))
        }),
{
    let ops = data_phase(cfg, request, wdata, Ack::Okay);
    low_clocks_idle(idle_clocks(cfg));
    assert(ops.subrange(3, ops.len() as int) =~= low_clocks(idle_clocks(cfg)));
}

/// After WAIT and FAULT the wire is turned round and that is all, unless a data phase is
/// configured: a read then samples 33 bits before it, a write drives 33 zeros after it.
pub proof fn refused_transfers_pass_their_data_phase(
    cfg: SwdConfig,
    request: u8,
    wdata: u32,
    ack: Ack,
)
    requires
        cfg.wf(),
        ack is Wait || ack is Fault,
    ensures
        ({
            let ops = data_phase(cfg, request, wdata, ack);
            let turn = WireOp::Hiz { bits: cfg.turnaround };
            ops == if !cfg.data_phase {
                seq![turn]
            } else if (request / 2) % 2 == 1 {
                seq![WireOp::Read { bits: 32 }, WireOp::Read { bits: 1 }, turn]
            } else {
                seq![turn, WireOp::Write { bits: 32, data: 0 }, WireOp::Write { bits: 1, data: 0 }]
            }
        }),
{
    reveal_with_fuel(discarded, 3);
    let ops = data_phase(cfg, request, wdata, ack);
    let turn = WireOp::Hiz { bits: cfg.turnaround };
    if !cfg.data_phase {
        assert(ops =~= seq![turn]);
    } else if (request / 2) % 2 == 1 {
        assert(ops =~= seq![WireOp::Read { bits: 32 }, WireOp::Read { bits: 1 }, turn]);
    } else {
        assert(ops =~= seq![
            turn,
            WireOp::Write { bits: 32, data: 0 },
            WireOp::Write { bits: 1, data: 0 },
        ]);
    }
}

/// After a protocol error the probe keeps off the wire for the turnaround, a word and a
/// parity bit.
pub proof fn protocol_errors_are_waited_out(cfg: SwdConfig, request: u8, wdata: u32)
    requires
        cfg.wf(),
    ensures
        data_phase(cfg, request, wdata, Ack::Protocol) == seq![
            WireOp::Read { bits: 32 },
            WireOp::Read { bits: (cfg.turnaround + 1) as u32 },
        ],
{
    reveal_with_fuel(discarded, 3);
    assert(data_phase(cfg, request, wdata, Ack::Protocol) =~= seq![
        WireOp::Read { bits: 32 },
        WireOp::Read { bits: (cfg.turnaround + 1) as u32 },
    ]);
}

/// A transfer opens with eight bits, the framed request with its even parity, and samples
/// the turnaround and three bits more.
pub proof fn headers_frame_the_request(cfg: SwdConfig, request: u8)
    requires
        cfg.wf(),
    ensures
        ({
            let ops = header(cfg, request);
            &&& ops.len() == 2
            &&& ops[0] matches WireOp::Write { bits, data } && bits == 8 && data < 256 && data % 2
                == 1 && (data / 2) % 16 == request % 16 && (ones((request % 16) as nat) + (data
                / 32) % 2) % 2 == 0 && (data / 64) % 2 == 0 && data / 128 == 1
            &&& ops[1] matches WireOp::Read { bits } && bits == cfg.turnaround + 3
        }),
{
}

/// The acknowledgement is what the target sent after the turnaround, whatever was on the
/// wire during it.
pub proof fn acknowledgements_follow_the_turnaround(
    cfg: SwdConfig,
    request: u8,
    noise: int,
    sent: int,
)
    requires
        cfg.wf(),
        0 <= noise < pow2(cfg.turnaround as nat),
        0 <= sent < 8,
    ensures
        ({
            let raw = (noise + pow2(cfg.turnaround as nat) * sent) as u32;
            let ack = acknowledged(cfg, raw);
            &&& ack is Okay <==> sent == 1
            &&& ack is Wait <==> sent == 2
            &&& ack is Fault <==> sent == 4
            &&& ack is Protocol <==> sent == 0 || sent == 3 || sent >= 5
        }),
{
    vstd::arithmetic::power2::lemma2_to64();
    let p = pow2(cfg.turnaround as nat) as int;
    assert(p == 2 || p == 4 || p == 8 || p == 16);
    assert((noise + p * sent) / p == sent) by (nonlinear_arith)
        requires
            0 <= noise < p,
            p > 0,
    ;
    assert(0 <= noise + p * sent < 256) by (nonlinear_arith)
        requires
            0 <= noise < p <= 16,
            0 <= sent <= 7,
    ;
}

/// A transfer that the target did not acknowledge, and a write, bring no data and are
/// reported as they were answered.
pub proof fn only_reads_bring_data(request: u8, ack: Ack, reads: Seq<u32>)
    ensures
        !(ack is Okay) ==> outcome(request, ack, reads) == (SwdReply { ack, val: 0 }),
        (request / 2) % 2 == 0 ==> outcome(request, ack, reads) == (SwdReply { ack, val: 0 }),
        ack is Okay && (request / 2) % 2 == 1 ==> outcome(request, ack, reads).val == reads[0],
{
}

/// Only the three bits after the turnaround acknowledge; what lies above them does not count.
pub proof fn three_bits_acknowledge(cfg: SwdConfig, raw: u32)
    requires
        cfg.wf(),
    ensures
        acknowledged(cfg, raw) == acknowledged(
            cfg,
            (raw as int % (8 * pow2(cfg.turnaround as nat) as int)) as u32,
        ),
{
    vstd::arithmetic::power2::lemma2_to64();
    let p = pow2(cfg.turnaround as nat) as int;
    assert(p == 2 || p == 4 || p == 8 || p == 16);
    if p == 2 {
        assert((raw / 2) % 8 == ((raw % 16) / 2) % 8) by (bit_vector);
    } else if p == 4 {
        assert((raw / 4) % 8 == ((raw % 32) / 4) % 8) by (bit_vector);
    } else if p == 8 {
        assert((raw / 8) % 8 == ((raw % 64) / 8) % 8) by (bit_vector);
    } else {
        assert((raw / 16) % 8 == ((raw % 128) / 16) % 8) by (bit_vector);
    }
}

/// The words that a transfer waits for are those that its operations read.
pub proof fn transfers_wait_for_what_they_read(t: SwdTransfer)
    ensures
        t.stage() is Header ==> t.awaited() == reads_in(header(t.config(), t.request()))
            && t.awaited() == 1,
        t.stage() matches SwdStage::Data(ack) ==> t.awaited() == reads_in(
            data_phase(t.config(), t.request(), t.wdata(), ack),
        ),
{
    reveal_with_fuel(reads_in, 3);
    let h = header(t.config(), t.request());
    assert(h.drop_last().drop_last() =~= Seq::empty());
}

} // verus!
