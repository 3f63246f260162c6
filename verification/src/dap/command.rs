//! The DAP commands: what each asks of the world outside, what it answers and what it
//! changes.
use vstd::prelude::*;
use vstd::utf8::encode_utf8;

use crate::dap::script::{failed, successes, until_counts, until_is};
use crate::dap::sequence::{
    bytes_for, bytes_out, push_bytes_out, sampled_bytes, sequence_ops, sequences_present,
    swd_sequence_ops, swj_bit_count,
};
use crate::dap::swd::{plain, swd_transfer, SwdConfig, SwdReply, SwdRequest, Transfer};
use crate::dap::transfer::{
    block_plan, block_present, captures, plan_block, plan_next, plan_report, plan_transfer,
    port_replies, posted_reads_come_back_in_order, read_blocks_come_back_in_order, reads_asked,
    report_fits, requests_present, run_plan, transfer_plan, word_at, words_stand_in_the_packet,
    PlanStep, Planned, Report,
};
use crate::dap::types::{
    le_bytes, low_bytes_come_first, u32_le, Ack, DapCmd, CAPABILITIES, DAP_OK, DAP_PACKET_COUNT, DAP_PACKET_SIZE,
    DP_ABORT_WR, FW_VERSION, ID_DAP_INVALID, INFO_CAPABILITIES, INFO_FW_VER, INFO_PACKET_COUNT,
    INFO_PACKET_SIZE, INFO_PRODUCT, INFO_SERIAL, INFO_VENDOR,
};
use crate::dap::Dap;
use crate::probe::{clock_divider, reads_in, Probe, ResetDrive, WireOp};

verus! {

/// Vendor name reported to the host.
pub const VENDOR: &'static str = "Raspberry Pi";

/// How long DAP_ResetTarget holds the reset line, in milliseconds.
pub const RESET_HOLD_MS: u64 = 2;

/// Something that a command has done outside, other than SWD transfers.
pub enum Effect {
    /// Write this value to the clock divider register.
    Clock(u32),
    /// Drive the reset line, where it says how, and sample its pin: one word, 0 for low.
    ResetPin(Option<ResetDrive>),
    /// Drive the reset line, hold it for some milliseconds, drive it again.
    ResetPulse { first: ResetDrive, hold_ms: u64, last: ResetDrive },
    /// Wait.
    DelayUs(u64),
    /// Perform these operations; each read brings back a word.
    Wire(Vec<WireOp>),
}

/// The value of an [`Effect`].
pub enum EffectView {
    Clock(u32),
    ResetPin(Option<ResetDrive>),
    ResetPulse { first: ResetDrive, hold_ms: u64, last: ResetDrive },
    DelayUs(u64),
    Wire(Seq<WireOp>),
}

impl View for Effect {
    type V = EffectView;

    open spec fn view(&self) -> EffectView {
        match *self {
            Effect::Clock(d) => EffectView::Clock(d),
            Effect::ResetPin(d) => EffectView::ResetPin(d),
            Effect::ResetPulse { first, hold_ms, last } => EffectView::ResetPulse {
                first,
                hold_ms,
                last,
            },
            Effect::DelayUs(us) => EffectView::DelayUs(us),
            Effect::Wire(ops) => EffectView::Wire(ops@),
        }
    }
}

/// The words that an effect brings back.
pub open spec fn words_of(e: EffectView) -> nat {
    match e {
        EffectView::ResetPin(_) => 1,
        EffectView::Wire(ops) => reads_in(ops),
        _ => 0,
    }
}

/// What has been done for a command so far.
pub struct Transcript {
    /// The outcomes of its SWD transfers, in order.
    pub replies: Vec<SwdReply>,
    /// The words that its effect brought back, once it was performed.
    pub performed: Option<Vec<u32>>,
}

impl Transcript {
    pub open spec fn words(self) -> Option<Seq<u32>> {
        match self.performed {
            Some(w) => Some(w@),
            None => None,
        }
    }

    /// Nothing has been done.
    pub fn new() -> (r: Self)
        ensures
            r.replies@ == Seq::<SwdReply>::empty(),
            r.words() is None,
    {
        Transcript { replies: Vec::new(), performed: None }
    }
}

/// What a command asks for.
pub enum Served {
    /// Make this transfer.
    Transfer(SwdRequest),
    /// Do this.
    Perform(Effect),
    /// The answer stands in the buffer and has this length; there is none where it is 0.
    Respond(usize),
}

/// The value of a [`Served`], with the answer itself.
pub enum ServedView {
    Transfer(Transfer),
    Perform(EffectView),
    Respond(Seq<u8>),
}

/// The answer that only says that all went well.
pub open spec fn ok_answer(cmd: u8) -> Seq<u8> {
    seq![cmd, DAP_OK]
}

/// The answer that carries a text: its length with the final NUL, the text, the NUL.
pub open spec fn text_answer(cmd: u8, text: Seq<char>) -> Seq<u8> {
    let bytes = encode_utf8(text);
    seq![cmd, ((bytes.len() + 1) % 256) as u8] + bytes + seq![0u8]
}

/// The answer of DAP_Info.
pub open spec fn info_answer(dap: Dap, cmd: u8, id: u8) -> Seq<u8> {
    if id == INFO_VENDOR {
        text_answer(cmd, VENDOR@)
    } else if id == INFO_PRODUCT {
        text_answer(cmd, dap.product@)
    } else if id == INFO_SERIAL {
        text_answer(cmd, dap.serial@)
    } else if id == INFO_FW_VER {
        text_answer(cmd, FW_VERSION@)
    } else if id == INFO_CAPABILITIES {
        seq![cmd, 1, CAPABILITIES]
    } else if id == INFO_PACKET_COUNT {
        seq![cmd, 1, DAP_PACKET_COUNT]
    } else if id == INFO_PACKET_SIZE {
        seq![cmd, 2, (DAP_PACKET_SIZE % 256) as u8, (DAP_PACKET_SIZE / 256) as u8]
    } else {
        seq![cmd, 0]
    }
}

/// The bytes of some words, each least significant byte first.
pub open spec fn words_le(data: Seq<u32>) -> Seq<u8>
    decreases data.len(),
{
    if data.len() == 0 {
        Seq::empty()
    } else {
        words_le(data.drop_last()) + le_bytes(data.last())
    }
}

/// The answer of DAP_Transfer: requests completed, last acknowledgement, values read.
pub open spec fn transfer_answer(cmd: u8, r: Report) -> Seq<u8> {
    seq![cmd, r.processed as u8, r.ack.code()] + words_le(r.data)
}

/// The answer of DAP_TransferBlock: accesses completed in two bytes, last acknowledgement,
/// values read.
pub open spec fn block_answer(cmd: u8, r: Report) -> Seq<u8> {
    seq![
        cmd,
        (r.processed % 256) as u8,
        (r.processed / 256) as u8,
        r.ack.code(),
    ] + words_le(r.data)
}

/// Two bytes, least significant first.
pub open spec fn half_at(req: Seq<u8>, i: int) -> u16 {
    (req[i] + 256 * req[i + 1]) as u16
}

/// The SWCLK in kHz that a host gets who asks for `hz`: at least 1, and no more than is
/// known to be stable.
pub open spec fn effective_khz(stable_khz: u32, hz: u32) -> u32 {
    let khz = if hz / 1000 == 0 {
        1u32
    } else {
        hz / 1000
    };
    if stable_khz > 0 && stable_khz < khz {
        stable_khz
    } else {
        khz
    }
}

/// How to drive the reset line: released where `high`, otherwise asserted.
pub open spec fn reset_drive(has_reset: bool, high: bool) -> ResetDrive {
    if !has_reset {
        ResetDrive::Absent
    } else if high {
        ResetDrive::Release
    } else {
        ResetDrive::Low
    }
}

/// What DAP_SWJ_Pins does: the reset line is bit 7, both of the outputs and of the
/// selection.
pub open spec fn pins_effect(has_reset: bool, output: u8, select: u8) -> EffectView {
    EffectView::ResetPin(
        if select >= 128 {
            Some(reset_drive(has_reset, output >= 128))
        } else {
            None
        },
    )
}

/// The effect of the command `c`, where it has one.
pub open spec fn effect_of(dap: Dap, c: DapCmd, req: Seq<u8>) -> Option<EffectView> {
    match c {
        DapCmd::Delay => Some(EffectView::DelayUs(half_at(req, 1) as u64)),
        DapCmd::ResetTarget => Some(
            EffectView::ResetPulse {
                first: reset_drive(dap.probe.has_reset, false),
                hold_ms: RESET_HOLD_MS,
                last: reset_drive(dap.probe.has_reset, true),
            },
        ),
        DapCmd::SwjPins => Some(pins_effect(dap.probe.has_reset, req[1], req[2])),
        DapCmd::SwjClock => Some(
            EffectView::Clock(
                (0x100 * clock_divider(
                    dap.probe.sys_hz as int,
                    effective_khz(dap.stable_khz, word_at(req, 1)) as int,
                )) as u32,
            ),
        ),
        DapCmd::SwjSequence => Some(
            EffectView::Wire(bytes_out(req, 2, swj_bit_count(req[1]))),
        ),
        DapCmd::SwdSequence => Some(EffectView::Wire(sequence_ops(req, 2, req[1] as nat))),
        _ => None,
    }
}

/// The answer of the command `c`, once everything it needs was done.
pub open spec fn answer_of(
    dap: Dap,
    c: DapCmd,
    req: Seq<u8>,
    replies: Seq<SwdReply>,
    words: Seq<u32>,
) -> Seq<u8> {
    match c {
        DapCmd::Info => info_answer(dap, req[0], req[1]),
        DapCmd::Connect => seq![
            req[0],
            if req[1] == 2 {
                0
            } else {
                1
            },
        ],
        DapCmd::Transfer => transfer_answer(
            req[0],
            plan_report(transfer_plan(req, 3, req[2] as nat, false), replies),
        ),
        DapCmd::TransferBlock => block_answer(
            req[0],
            plan_report(block_plan(req, req[4], half_at(req, 2) as nat), replies),
        ),
        // No response: nothing is sent back.
        DapCmd::TransferAbort => Seq::empty(),
        DapCmd::ResetTarget => seq![req[0], DAP_OK, 1],
        DapCmd::SwjPins => seq![
            req[0],
            if dap.probe.has_reset && words[0] != 0 {
                128
            } else {
                0
            },
        ],
        DapCmd::SwdSequence => seq![req[0], DAP_OK] + words.map_values(
            |w: u32| (w % 256) as u8,
        ),
        _ => ok_answer(req[0]),
    }
}

/// The transfer that the command `c` needs next, where it needs one.
pub open spec fn transfer_of(c: DapCmd, req: Seq<u8>, replies: Seq<SwdReply>) -> Option<Transfer> {
    match c {
        DapCmd::Transfer => plan_next(transfer_plan(req, 3, req[2] as nat, false), replies),
        DapCmd::TransferBlock => plan_next(
            block_plan(req, req[4], half_at(req, 2) as nat),
            replies,
        ),
        DapCmd::WriteAbort => if replies.len() == 0 {
            Some(plain(DP_ABORT_WR, word_at(req, 2)))
        } else {
            None
        },
        _ => None,
    }
}

/// What a packet leads to: a transfer that is still needed, an effect that is still to be
/// performed, or the answer. A packet whose command is not known is answered with one byte.
pub open spec fn served(
    dap: Dap,
    req: Seq<u8>,
    replies: Seq<SwdReply>,
    words: Option<Seq<u32>>,
) -> ServedView {
    match DapCmd::of_code(req[0]) {
        None => ServedView::Respond(seq![ID_DAP_INVALID]),
        Some(c) => if transfer_of(c, req, replies) is Some {
            ServedView::Transfer(transfer_of(c, req, replies)->0)
        } else if effect_of(dap, c, req) is Some && words is None {
            ServedView::Perform(effect_of(dap, c, req)->0)
        } else {
            ServedView::Respond(
                answer_of(
                    dap,
                    c,
                    req,
                    replies,
                    if words is Some {
                        words->0
                    } else {
                        Seq::empty()
                    },
                ),
            )
        },
    }
}

/// A plan came to its end although the packet was cut short: the next request is missing.
pub open spec fn transfer_stuck(plan: Seq<Planned>, present: bool, replies: Seq<SwdReply>) -> bool {
    !present && successes(replies, 0, plan.len() as int) == plan.len()
}

/// The values that a plan has brought so far fit the answer's buffer, after `head` bytes.
pub open spec fn values_fit(
    plan: Seq<Planned>,
    replies: Seq<SwdReply>,
    head: int,
    room: int,
) -> bool {
    head + 4 * captures(plan, successes(replies, 0, plan.len() as int)) <= room
}

/// The packet has the bytes that its command reads, as far as it came, the buffer for the
/// answer has the room that it needs, and an effect that was performed brought back the
/// words it owes.
pub open spec fn command_ok(
    dap: Dap,
    req: Seq<u8>,
    replies: Seq<SwdReply>,
    words: Option<Seq<u32>>,
    room: int,
) -> bool {
    &&& req.len() >= 1
    &&& room >= 1
    &&& match DapCmd::of_code(req[0]) {
        None => true,
        Some(c) => {
            &&& match c {
                DapCmd::Info => req.len() >= 2 && room >= info_answer(dap, req[0], req[1]).len(),
                DapCmd::HostStatus | DapCmd::Disconnect => room >= 2,
                DapCmd::Connect => req.len() >= 2 && room >= 2,
                DapCmd::TransferConfigure => req.len() >= 4 && room >= 2,
                DapCmd::Transfer => {
                    let plan = transfer_plan(req, 3, req[2] as nat, false);
                    &&& req.len() >= 3
                    &&& !transfer_stuck(plan, requests_present(req, 3, req[2] as nat), replies)
                    &&& values_fit(plan, replies, 3, room)
                },
                DapCmd::TransferBlock => {
                    let count = half_at(req, 2) as nat;
                    let plan = block_plan(req, req[4], count);
                    &&& req.len() >= 5
                    &&& !transfer_stuck(plan, block_present(req, req[4], count), replies)
                    &&& values_fit(plan, replies, 4, room)
                },
                DapCmd::TransferAbort => true,
                DapCmd::WriteAbort => req.len() >= 6 && room >= 2,
                DapCmd::Delay => req.len() >= 3 && room >= 2,
                DapCmd::ResetTarget => room >= 3,
                DapCmd::SwjPins => req.len() >= 3 && room >= 2,
                DapCmd::SwjClock => req.len() >= 5 && room >= 2,
                DapCmd::SwjSequence => {
                    &&& req.len() >= 2
                    &&& req.len() >= 2 + bytes_for(swj_bit_count(req[1]))
                    &&& room >= 2
                },
                DapCmd::SwdConfigure => req.len() >= 2 && room >= 2,
                DapCmd::SwdSequence => {
                    &&& req.len() >= 2
                    &&& sequences_present(req, 2, req[1] as nat)
                    &&& room >= 2 + reads_in(sequence_ops(req, 2, req[1] as nat))
                },
            }
            &&& effect_of(dap, c, req) is Some && words is Some ==> (words->0).len() == words_of(
                effect_of(dap, c, req)->0,
            )
        },
    }
}

/// The transfer settings after a packet.
pub open spec fn config_of(cfg: SwdConfig, req: Seq<u8>) -> SwdConfig {
    match DapCmd::of_code(req[0]) {
        Some(DapCmd::TransferConfigure) => SwdConfig {
            idle_cycles: req[1] as u32,
            retry_count: half_at(req, 2),
            ..cfg
        },
        Some(DapCmd::SwdConfigure) => SwdConfig {
            turnaround: (req[1] % 4 + 1) as u32,
            data_phase: (req[1] / 4) % 2 == 1,
            ..cfg
        },
        _ => cfg,
    }
}

/// The probe after a packet: only the two commands that configure transfers and the one
/// that sets the clock leave anything behind.
pub open spec fn after_command(dap: Dap, req: Seq<u8>) -> Dap {
    if DapCmd::of_code(req[0]) == Some(DapCmd::SwjClock) {
        Dap {
            probe: Probe {
                cached_freq_khz: effective_khz(dap.stable_khz, word_at(req, 1)),
                ..dap.probe
            },
            host_clk_set: true,
            ..dap
        }
    } else {
        Dap { cfg: config_of(dap.cfg, req), ..dap }
    }
}

/// `r` says what `v` does: an answer stands at the front of the buffer, whose rest is as it
/// was; a transfer or an effect leaves the whole buffer as it was.
pub open spec fn is_served(v: ServedView, r: Served, before: Seq<u8>, after: Seq<u8>) -> bool {
    match v {
        ServedView::Transfer(t) => {
            &&& r matches Served::Transfer(x)
            &&& x@ == t
            &&& after == before
        },
        ServedView::Perform(e) => {
            &&& r matches Served::Perform(x)
            &&& x@ == e
            &&& after == before
        },
        ServedView::Respond(answer) => {
            &&& r matches Served::Respond(n)
            &&& n == answer.len()
            &&& after == answer + before.subrange(answer.len() as int, before.len() as int)
        },
    }
}

/// Two bytes from `at` on, least significant first.
fn u16_le(b: &[u8], at: usize) -> (r: u16)
    requires
        at + 2 <= b@.len(),
    ensures
        r == half_at(b@, at as int),
{
    b[at] as u16 + 256 * (b[at + 1] as u16)
}

/// Writes an answer to the front of the buffer.
fn respond(resp: &mut [u8], answer: &Vec<u8>) -> (r: Served)
    requires
        answer@.len() <= old(resp)@.len(),
    ensures
        r matches Served::Respond(n) && n == answer@.len(),
        final(resp)@ == answer@ + old(resp)@.subrange(
            answer@.len() as int,
            old(resp)@.len() as int,
        ),
{
    let ghost before = resp@;
    let mut i: usize = 0;
    while i < answer.len()
        invariant
            i <= answer@.len() <= before.len(),
            resp@ == answer@.subrange(0, i as int) + before.subrange(i as int, before.len() as int),
        decreases answer.len() - i,
    {
        resp[i] = answer[i];
        i = i + 1;
        assert(resp@ =~= answer@.subrange(0, i as int) + before.subrange(
            i as int,
            before.len() as int,
        ));
    }
    assert(answer@.subrange(0, i as int) =~= answer@);
    Served::Respond(answer.len())
}

/// The answer that carries a text.
fn put_str(cmd: u8, s: &str) -> (r: Vec<u8>)
    ensures
        r@ == text_answer(cmd, s@),
{
    let bytes = s.as_bytes();
    let n: usize = bytes.len();
    let len: u8 = ((n % 256 + 1) % 256) as u8;
    let mut out: Vec<u8> = vec![cmd, len];
    let mut i: usize = 0;
    while i < n
        invariant
            n == bytes@.len(),
            i <= n,
            out@ == seq![cmd, len] + bytes@.subrange(0, i as int),
        decreases n - i,
    {
        out.push(bytes[i]);
        i = i + 1;
        assert(out@ =~= seq![cmd, len] + bytes@.subrange(0, i as int));
    }
    out.push(0);
    assert(out@ =~= text_answer(cmd, s@));
    out
}

/// Appends words, each least significant byte first.
fn put_words(out: &mut Vec<u8>, data: &Vec<u32>)
    ensures
        final(out)@ == old(out)@ + words_le(data@),
{
    let ghost before = out@;
    let mut i: usize = 0;
    assert(out@ =~= before + words_le(data@.subrange(0, 0)));
    while i < data.len()
        invariant
            i <= data@.len(),
            out@ == before + words_le(data@.subrange(0, i as int)),
        decreases data.len() - i,
    {
        let v: u32 = data[i];
        let ghost sofar = out@;
        out.push((v % 0x100) as u8);
        out.push(((v / 0x100) % 0x100) as u8);
        out.push(((v / 0x1_0000) % 0x100) as u8);
        out.push((v / 0x100_0000) as u8);
        assert(out@ =~= sofar + le_bytes(v));
        i = i + 1;
        assert(data@.subrange(0, i as int).drop_last() =~= data@.subrange(0, i - 1));
        assert(out@ =~= before + words_le(data@.subrange(0, i as int)));
    }
    assert(data@.subrange(0, i as int) =~= data@);
}

proof fn words_take_four_bytes(data: Seq<u32>)
    ensures
        words_le(data).len() == 4 * data.len(),
    decreases data.len(),
{
    if data.len() > 0 {
        words_take_four_bytes(data.drop_last());
    }
}

/// How many values a plan has brought so far.
fn values_so_far(plan: &Vec<Planned>, log: &[SwdReply]) -> (r: (usize, bool))
    ensures
        r.0 == captures(plan@, successes(log@, 0, plan@.len() as int)),
        r.1 == (successes(log@, 0, plan@.len() as int) == plan@.len()),
{
    let mut k: usize = 0;
    let mut n: usize = 0;
    while k < plan.len() && k < log.len() && log[k].ack == Ack::Okay
        invariant
            k <= plan@.len(),
            k <= log@.len(),
            n <= k,
            n == captures(plan@, k as int),
            forall|j: int| 0 <= j < k ==> !failed()(#[trigger] log@[j]),
        decreases plan.len() - k,
    {
        if plan[k].capture {
            n = n + 1;
        }
        k = k + 1;
    }
    proof {
        if k < plan@.len() && k < log@.len() {
            assert(failed()(log@[k as int]));
        }
        until_is(log@, 0, plan@.len() as int, failed(), k as int);
    }
    (n, k == plan.len())
}

/// Whether a plan can be carried on: the packet is not cut short where it stands, and the
/// values it has brought fit after `head` bytes of a buffer of `room`.
fn plan_fits(
    plan: &Vec<Planned>,
    present: bool,
    log: &[SwdReply],
    head: usize,
    room: usize,
) -> (r: bool)
    ensures
        r == (!transfer_stuck(plan@, present, log@) && values_fit(
            plan@,
            log@,
            head as int,
            room as int,
        )),
{
    let (n, over) = values_so_far(plan, log);
    (present || !over) && head <= room && n <= (room - head) / 4
}

impl Dap {
    /// Whether a packet can be served: see [`command_ok`].
    pub fn accepts(&self, req: &[u8], past: &Transcript, room: usize) -> (r: bool)
        ensures
            r == command_ok(*self, req@, past.replies@, past.words(), room as int),
    {
        if req.len() < 1 || room < 1 {
            return false;
        }
        let c = match DapCmd::from_u8(req[0]) {
            None => return true,
            Some(c) => c,
        };
        let n: usize = req.len();
        let none_owed: bool = match &past.performed {
            Some(w) => w.len() == 0,
            None => true,
        };
        match c {
            DapCmd::Info => n >= 2 && room >= self.cmd_info(req).len(),
            DapCmd::HostStatus | DapCmd::Disconnect => room >= 2,
            DapCmd::Connect => n >= 2 && room >= 2,
            DapCmd::TransferConfigure => n >= 4 && room >= 2,
            DapCmd::Transfer => {
                if n < 3 {
                    return false;
                }
                let (plan, present) = plan_transfer(req);
                plan_fits(&plan, present, &past.replies, 3, room)
            },
            DapCmd::TransferBlock => {
                if n < 5 {
                    return false;
                }
                let (plan, present) = plan_block(req, req[4], u16_le(req, 2));
                plan_fits(&plan, present, &past.replies, 4, room)
            },
            DapCmd::TransferAbort => true,
            DapCmd::WriteAbort => n >= 6 && room >= 2,
            DapCmd::Delay => n >= 3 && room >= 2 && none_owed,
            DapCmd::ResetTarget => room >= 3 && none_owed,
            DapCmd::SwjPins => {
                let owed: bool = match &past.performed {
                    Some(w) => w.len() == 1,
                    None => true,
                };
                n >= 3 && room >= 2 && owed
            },
            DapCmd::SwjClock => n >= 5 && room >= 2 && none_owed,
            DapCmd::SwjSequence => {
                if n < 2 {
                    return false;
                }
                let bits: usize = if req[1] == 0 {
                    256
                } else {
                    req[1] as usize
                };
                proof {
                    sampled_bytes(req@, 2, bits as int);
                }
                n - 2 >= (bits + 7) / 8 && room >= 2 && none_owed
            },
            DapCmd::SwdConfigure => n >= 2 && room >= 2,
            DapCmd::SwdSequence => {
                if n < 2 || room < 2 {
                    return false;
                }
                match swd_sequence_ops(req) {
                    None => false,
                    Some((ops, reads)) => {
                        let owed: bool = match &past.performed {
                            Some(w) => w.len() == reads,
                            None => true,
                        };
                        room - 2 >= reads && owed
                    },
                }
            },
        }
    }

    fn cmd_info(&self, req: &[u8]) -> (r: Vec<u8>)
        requires
            req@.len() >= 2,
        ensures
            r@ == info_answer(*self, req@[0], req@[1]),
    {
        let cmd: u8 = req[0];
        let id: u8 = req[1];
        if id == INFO_VENDOR {
            put_str(cmd, VENDOR)
        } else if id == INFO_PRODUCT {
            put_str(cmd, self.product)
        } else if id == INFO_SERIAL {
            put_str(cmd, self.serial)
        } else if id == INFO_FW_VER {
            put_str(cmd, FW_VERSION)
        } else if id == INFO_CAPABILITIES {
            vec![cmd, 1, CAPABILITIES]
        } else if id == INFO_PACKET_COUNT {
            vec![cmd, 1, DAP_PACKET_COUNT]
        } else if id == INFO_PACKET_SIZE {
            vec![cmd, 2, (DAP_PACKET_SIZE % 256) as u8, (DAP_PACKET_SIZE / 256) as u8]
        } else {
            vec![cmd, 0]
        }
    }

    /// Serves one DAP packet: says what is still to be done for it, or writes the answer to
    /// the front of `resp`. The rest of `resp` stays as it was. A call that is repeated
    /// leaves behind what the first one did.
    pub fn execute_command(&mut self, req: &[u8], past: &Transcript, resp: &mut [u8]) -> (r: Served)
        requires
            old(self).wf(),
            command_ok(*old(self), req@, past.replies@, past.words(), old(resp)@.len() as int),
        ensures
            final(self).wf(),
            *final(self) == after_command(*old(self), req@),
            is_served(
                served(*old(self), req@, past.replies@, past.words()),
                r,
                old(resp)@,
                final(resp)@,
            ),
    {
        let cmd: u8 = req[0];
        let c = match DapCmd::from_u8(cmd) {
            None => {
                let out: Vec<u8> = vec![ID_DAP_INVALID];
                assert(out@ =~= seq![ID_DAP_INVALID]);
                return respond(resp, &out);
            },
            Some(c) => c,
        };
        match c {
            DapCmd::Info => respond(resp, &self.cmd_info(req)),
            DapCmd::HostStatus | DapCmd::Disconnect => {
                let out: Vec<u8> = vec![cmd, DAP_OK];
                assert(out@ =~= ok_answer(cmd));
                respond(resp, &out)
            },
            DapCmd::Connect => self.cmd_connect(req, resp),
            DapCmd::TransferConfigure => self.cmd_transfer_configure(req, resp),
            DapCmd::Transfer => self.cmd_transfer(req, &past.replies, resp),
            DapCmd::TransferBlock => self.cmd_transfer_block(req, &past.replies, resp),
            DapCmd::TransferAbort => {
                let out: Vec<u8> = Vec::new();
                assert(out@ =~= Seq::empty());
                respond(resp, &out)
            },
            DapCmd::WriteAbort => self.cmd_write_abort(req, &past.replies, resp),
            DapCmd::Delay => self.cmd_delay(req, past, resp),
            DapCmd::ResetTarget => self.cmd_reset_target(req, past, resp),
            DapCmd::SwjPins => self.cmd_swj_pins(req, past, resp),
            DapCmd::SwjClock => self.cmd_swj_clock(req, past, resp),
            DapCmd::SwjSequence => self.cmd_swj_sequence(req, past, resp),
            DapCmd::SwdConfigure => self.cmd_swd_configure(req, resp),
            DapCmd::SwdSequence => self.cmd_swd_sequence(req, past, resp),
        }
    }

    fn cmd_connect(&self, req: &[u8], resp: &mut [u8]) -> (r: Served)
        requires
            self.wf(),
            req@.len() >= 1,
            DapCmd::of_code(req@[0]) == Some(DapCmd::Connect),
            command_ok(*self, req@, Seq::empty(), None, old(resp)@.len() as int),
        ensures
            is_served(
                served(*self, req@, Seq::empty(), None),
                r,
                old(resp)@,
                final(resp)@,
            ),
    {
        // 0 is the default, which is SWD; 2 is JTAG, which is not there.
        let selected: u8 = if req[1] == 2 {
            0
        } else {
            1
        };
        respond(resp, &vec![req[0], selected])
    }

    fn cmd_transfer_configure(&mut self, req: &[u8], resp: &mut [u8]) -> (r: Served)
        requires
            old(self).wf(),
            req@.len() >= 1,
            DapCmd::of_code(req@[0]) == Some(DapCmd::TransferConfigure),
            command_ok(*old(self), req@, Seq::empty(), None, old(resp)@.len() as int),
        ensures
            final(self).wf(),
            *final(self) == after_command(*old(self), req@),
            is_served(
                served(*old(self), req@, Seq::empty(), None),
                r,
                old(resp)@,
                final(resp)@,
            ),
    {
        self.cfg.idle_cycles = req[1] as u32;
        self.cfg.retry_count = u16_le(req, 2);
        respond(resp, &vec![req[0], DAP_OK])
    }

    fn cmd_swd_configure(&mut self, req: &[u8], resp: &mut [u8]) -> (r: Served)
        requires
            old(self).wf(),
            req@.len() >= 1,
            DapCmd::of_code(req@[0]) == Some(DapCmd::SwdConfigure),
            command_ok(*old(self), req@, Seq::empty(), None, old(resp)@.len() as int),
        ensures
            final(self).wf(),
            *final(self) == after_command(*old(self), req@),
            is_served(
                served(*old(self), req@, Seq::empty(), None),
                r,
                old(resp)@,
                final(resp)@,
            ),
    {
        self.cfg.turnaround = (req[1] % 4) as u32 + 1;
        self.cfg.data_phase = (req[1] / 4) % 2 == 1;
        respond(resp, &vec![req[0], DAP_OK])
    }

    fn cmd_transfer(&self, req: &[u8], log: &[SwdReply], resp: &mut [u8]) -> (r: Served)
        requires
            self.wf(),
            req@.len() >= 1,
            DapCmd::of_code(req@[0]) == Some(DapCmd::Transfer),
            command_ok(*self, req@, log@, None, old(resp)@.len() as int),
        ensures
            is_served(
                served(*self, req@, log@, None),
                r,
                old(resp)@,
                final(resp)@,
            ),
    {
        let (plan, present) = plan_transfer(req);
        proof {
            let k = successes(log@, 0, plan@.len() as int);
            until_counts(log@, 0, plan@.len() as int, failed());
            report_fits(plan@, log@, k);
        }
        match run_plan(&plan, log) {
            PlanStep::Need(t) => Served::Transfer(t),
            PlanStep::Over { processed, ack, data } => {
                let mut out: Vec<u8> = vec![req[0], processed as u8, ack.to_byte()];
                put_words(&mut out, &data);
                proof {
                    words_take_four_bytes(data@);
                    assert(out@ =~= transfer_answer(req@[0], plan_report(plan@, log@)));
                }
                respond(resp, &out)
            },
        }
    }

    fn cmd_transfer_block(&self, req: &[u8], log: &[SwdReply], resp: &mut [u8]) -> (r: Served)
        requires
            self.wf(),
            req@.len() >= 1,
            DapCmd::of_code(req@[0]) == Some(DapCmd::TransferBlock),
            command_ok(*self, req@, log@, None, old(resp)@.len() as int),
        ensures
            is_served(
                served(*self, req@, log@, None),
                r,
                old(resp)@,
                final(resp)@,
            ),
    {
        let (plan, present) = plan_block(req, req[4], u16_le(req, 2));
        proof {
            let k = successes(log@, 0, plan@.len() as int);
            until_counts(log@, 0, plan@.len() as int, failed());
            report_fits(plan@, log@, k);
        }
        match run_plan(&plan, log) {
            PlanStep::Need(t) => Served::Transfer(t),
            PlanStep::Over { processed, ack, data } => {
                let mut out: Vec<u8> = vec![
                    req[0],
                    (processed % 256) as u8,
                    (processed / 256) as u8,
                    ack.to_byte(),
                ];
                put_words(&mut out, &data);
                proof {
                    words_take_four_bytes(data@);
                    assert(out@ =~= block_answer(req@[0], plan_report(plan@, log@)));
                }
                respond(resp, &out)
            },
        }
    }

    fn cmd_write_abort(&self, req: &[u8], log: &[SwdReply], resp: &mut [u8]) -> (r: Served)
        requires
            self.wf(),
            req@.len() >= 1,
            DapCmd::of_code(req@[0]) == Some(DapCmd::WriteAbort),
            command_ok(*self, req@, log@, None, old(resp)@.len() as int),
        ensures
            is_served(
                served(*self, req@, log@, None),
                r,
                old(resp)@,
                final(resp)@,
            ),
    {
        if log.len() == 0 {
            Served::Transfer(swd_transfer(DP_ABORT_WR, u32_le(req, 2)))
        } else {
            respond(resp, &vec![req[0], DAP_OK])
        }
    }

    fn cmd_delay(&self, req: &[u8], past: &Transcript, resp: &mut [u8]) -> (r: Served)
        requires
            self.wf(),
            req@.len() >= 1,
            DapCmd::of_code(req@[0]) == Some(DapCmd::Delay),
            command_ok(*self, req@, past.replies@, past.words(), old(resp)@.len() as int),
        ensures
            is_served(
                served(*self, req@, past.replies@, past.words()),
                r,
                old(resp)@,
                final(resp)@,
            ),
    {
        match &past.performed {
            None => Served::Perform(Effect::DelayUs(u16_le(req, 1) as u64)),
            Some(_) => respond(resp, &vec![req[0], DAP_OK]),
        }
    }

    fn cmd_reset_target(&self, req: &[u8], past: &Transcript, resp: &mut [u8]) -> (r: Served)
        requires
            self.wf(),
            req@.len() >= 1,
            DapCmd::of_code(req@[0]) == Some(DapCmd::ResetTarget),
            command_ok(*self, req@, past.replies@, past.words(), old(resp)@.len() as int),
        ensures
            is_served(
                served(*self, req@, past.replies@, past.words()),
                r,
                old(resp)@,
                final(resp)@,
            ),
    {
        match &past.performed {
            None => Served::Perform(
                Effect::ResetPulse {
                    first: self.probe.assert_reset(false),
                    hold_ms: RESET_HOLD_MS,
                    last: self.probe.assert_reset(true),
                },
            ),
            Some(_) => respond(resp, &vec![req[0], DAP_OK, 1]),
        }
    }

    fn cmd_swj_pins(&self, req: &[u8], past: &Transcript, resp: &mut [u8]) -> (r: Served)
        requires
            self.wf(),
            req@.len() >= 1,
            DapCmd::of_code(req@[0]) == Some(DapCmd::SwjPins),
            command_ok(*self, req@, past.replies@, past.words(), old(resp)@.len() as int),
        ensures
            is_served(
                served(*self, req@, past.replies@, past.words()),
                r,
                old(resp)@,
                final(resp)@,
            ),
    {
        match &past.performed {
            None => {
                let drive = if req[2] >= 128 {
                    Some(self.probe.assert_reset(req[1] >= 128))
                } else {
                    None
                };
                Served::Perform(Effect::ResetPin(drive))
            },
            Some(w) => {
                let state: u8 = if self.probe.reset_level(w[0] != 0) != 0 {
                    128
                } else {
                    0
                };
                respond(resp, &vec![req[0], state])
            },
        }
    }

    fn cmd_swj_clock(&mut self, req: &[u8], past: &Transcript, resp: &mut [u8]) -> (r: Served)
        requires
            old(self).wf(),
            req@.len() >= 1,
            DapCmd::of_code(req@[0]) == Some(DapCmd::SwjClock),
            command_ok(*old(self), req@, past.replies@, past.words(), old(resp)@.len() as int),
        ensures
            final(self).wf(),
            *final(self) == after_command(*old(self), req@),
            is_served(
                served(*old(self), req@, past.replies@, past.words()),
                r,
                old(resp)@,
                final(resp)@,
            ),
    {
        let hz: u32 = u32_le(req, 1);
        let khz: u32 = if hz / 1000 == 0 {
            1
        } else {
            hz / 1000
        };
        let eff: u32 = if self.stable_khz > 0 && self.stable_khz < khz {
            self.stable_khz
        } else {
            khz
        };
        self.host_clk_set = true;
        let register: u32 = self.probe.set_swclk_freq(eff);
        match &past.performed {
            None => Served::Perform(Effect::Clock(register)),
            Some(_) => respond(resp, &vec![req[0], DAP_OK]),
        }
    }

    fn cmd_swj_sequence(&self, req: &[u8], past: &Transcript, resp: &mut [u8]) -> (r: Served)
        requires
            self.wf(),
            req@.len() >= 1,
            DapCmd::of_code(req@[0]) == Some(DapCmd::SwjSequence),
            command_ok(*self, req@, past.replies@, past.words(), old(resp)@.len() as int),
        ensures
            is_served(
                served(*self, req@, past.replies@, past.words()),
                r,
                old(resp)@,
                final(resp)@,
            ),
    {
        match &past.performed {
            None => {
                let count: u32 = if req[1] == 0 {
                    256
                } else {
                    req[1] as u32
                };
                let mut ops: Vec<WireOp> = Vec::new();
                push_bytes_out(req, 2, count, &mut ops);
                assert(ops@ =~= bytes_out(req@, 2, swj_bit_count(req@[1])));
                Served::Perform(Effect::Wire(ops))
            },
            Some(_) => respond(resp, &vec![req[0], DAP_OK]),
        }
    }

    fn cmd_swd_sequence(&self, req: &[u8], past: &Transcript, resp: &mut [u8]) -> (r: Served)
        requires
            self.wf(),
            req@.len() >= 1,
            DapCmd::of_code(req@[0]) == Some(DapCmd::SwdSequence),
            command_ok(*self, req@, past.replies@, past.words(), old(resp)@.len() as int),
        ensures
            is_served(
                served(*self, req@, past.replies@, past.words()),
                r,
                old(resp)@,
                final(resp)@,
            ),
    {
        match &past.performed {
            None => match swd_sequence_ops(req) {
                Some((ops, _)) => Served::Perform(Effect::Wire(ops)),
                None => Served::Respond(0),
            },
            Some(w) => {
                let mut out: Vec<u8> = vec![req[0], DAP_OK];
                let ghost f = |w: u32| (w % 256) as u8;
                let mut i: usize = 0;
                while i < w.len()
                    invariant
                        i <= w@.len(),
                        req@.len() >= 2,
                        f == |w: u32| (w % 256) as u8,
                        out@ == seq![req@[0], DAP_OK] + w@.subrange(0, i as int).map_values(f),
                    decreases w.len() - i,
                {
                    out.push((w[i] % 256) as u8);
                    i = i + 1;
                    assert(out@ =~= seq![req@[0], DAP_OK] + w@.subrange(0, i as int).map_values(f));
                }
                assert(w@.subrange(0, i as int) =~= w@);
                assert(out@ =~= answer_of(*self, DapCmd::SwdSequence, req@, past.replies@, w@));
                respond(resp, &out)
            },
        }
    }
}

/// A host that asks for a clock gets no more than it asked for, once a kilohertz is
/// reached, and no more than is known to be stable.
pub proof fn host_clock_is_clamped(dap: Dap, req: Seq<u8>)
    requires
        dap.wf(),
        req.len() >= 5,
        DapCmd::of_code(req[0]) == Some(DapCmd::SwjClock),
    ensures
        ({
            let khz = after_command(dap, req).probe.cached_freq_khz;
            &&& khz >= 1
            &&& dap.stable_khz > 0 ==> khz <= dap.stable_khz
            &&& word_at(req, 1) >= 1000 ==> 1000 * khz <= word_at(req, 1)
            &&& (dap.stable_khz == 0 || word_at(req, 1) / 1000 <= dap.stable_khz) && word_at(
                req,
                1,
            ) >= 1000 ==> khz == word_at(req, 1) / 1000
        }),
{
}

/// Every command that is known is answered with its own byte first, but for
/// DAP_TransferAbort, which has no response; every other byte is answered with the one byte
/// that says so.
pub proof fn answers_name_their_command(
    dap: Dap,
    req: Seq<u8>,
    replies: Seq<SwdReply>,
    words: Option<Seq<u32>>,
)
    ensures
        match served(dap, req, replies, words) {
            ServedView::Respond(a) => {
                &&& a.len() == 0 <==> DapCmd::of_code(req[0]) == Some(DapCmd::TransferAbort)
                &&& DapCmd::of_code(req[0]) is Some && a.len() > 0 ==> a[0] == req[0]
                &&& DapCmd::of_code(req[0]) is None ==> a == seq![ID_DAP_INVALID]
            },
            _ => DapCmd::of_code(req[0]) is Some,
        },
{
}

/// Serving a packet a second time changes nothing that serving it once did not.
pub proof fn serving_again_changes_nothing(dap: Dap, req: Seq<u8>)
    ensures
        after_command(after_command(dap, req), req) == after_command(dap, req),
{
}

/// No packet touches what the probe learnt about the target or who it says it is.
pub proof fn commands_keep_what_was_learnt(dap: Dap, req: Seq<u8>)
    ensures
        ({
            let after = after_command(dap, req);
            &&& after.serial == dap.serial
            &&& after.product == dap.product
            &&& after.stable_khz == dap.stable_khz
            &&& after.rp2040 == dap.rp2040
            &&& DapCmd::of_code(req[0]) != Some(DapCmd::SwjClock) ==> {
                &&& after.probe == dap.probe
                &&& after.host_clk_set == dap.host_clk_set
            }
        }),
{
}

proof fn transfer_plan_is_short(req: Seq<u8>, qi: int, n: nat, posted: bool)
    ensures
        transfer_plan(req, qi, n, posted).len() <= 2 * n + if posted {
            1int
        } else {
            0
        },
    decreases n,
{
    if n > 0 && qi < req.len() {
        transfer_plan_is_short(req, qi + 1, (n - 1) as nat, true);
        transfer_plan_is_short(req, qi + 1, (n - 1) as nat, false);
        transfer_plan_is_short(req, qi + 5, (n - 1) as nat, false);
    }
}

/// Every packet comes to its answer: DAP_Transfer makes at most two transfers for a request,
/// DAP_TransferBlock one more than it has accesses, and a command with an effect answers
/// once it was performed.
pub proof fn packets_come_to_an_answer(
    dap: Dap,
    req: Seq<u8>,
    replies: Seq<SwdReply>,
    words: Option<Seq<u32>>,
)
    ensures
        match served(dap, req, replies, words) {
            ServedView::Transfer(_) => match DapCmd::of_code(req[0]) {
                Some(DapCmd::Transfer) => replies.len() < 2 * req[2],
                Some(DapCmd::TransferBlock) => replies.len() < half_at(req, 2) + 1,
                c => c == Some(DapCmd::WriteAbort) && replies.len() == 0,
            },
            ServedView::Perform(_) => words is None,
            ServedView::Respond(_) => true,
        },
{
    transfer_plan_is_short(req, 3, req[2] as nat, false);
}

proof fn words_in_place(data: Seq<u32>, i: int)
    requires
        0 <= i < data.len(),
    ensures
        words_le(data).len() == 4 * data.len(),
        words_le(data).subrange(4 * i, 4 * i + 4) == le_bytes(data[i]),
    decreases data.len(),
{
    words_take_four_bytes(data);
    words_take_four_bytes(data.drop_last());
    let front = words_le(data.drop_last());
    if i == data.len() - 1 {
        assert(words_le(data).subrange(4 * i, 4 * i + 4) =~= le_bytes(data[i]));
    } else {
        words_in_place(data.drop_last(), i);
        assert(words_le(data).subrange(4 * i, 4 * i + 4) =~= front.subrange(4 * i, 4 * i + 4));
    }
}

/// The bytes of the answers to transfers: the command, how many requests were completed, the
/// last acknowledgement, and each value in its four bytes, low byte first. A block has two
/// bytes for the count, low byte first.
pub proof fn transfer_answers_are_laid_out(cmd: u8, r: Report, i: int)
    requires
        0 <= i < r.data.len(),
        0 <= r.processed < 0x1_0000,
    ensures
        ({
            let a = transfer_answer(cmd, r);
            let b = block_answer(cmd, r);
            &&& a.len() == 3 + 4 * r.data.len()
            &&& a[0] == cmd
            &&& r.processed < 256 ==> a[1] == r.processed
            &&& a[2] == r.ack.code()
            &&& a.subrange(3 + 4 * i, 7 + 4 * i) == le_bytes(r.data[i])
            &&& b.len() == 4 + 4 * r.data.len()
            &&& b[0] == cmd
            &&& b[1] + 256 * b[2] == r.processed
            &&& b[3] == r.ack.code()
            &&& b.subrange(4 + 4 * i, 8 + 4 * i) == le_bytes(r.data[i])
        }),
{
    words_in_place(r.data, i);
    let w = words_le(r.data);
    assert(transfer_answer(cmd, r).subrange(3 + 4 * i, 7 + 4 * i) =~= w.subrange(
        4 * i,
        4 * i + 4,
    ));
    assert(block_answer(cmd, r).subrange(4 + 4 * i, 8 + 4 * i) =~= w.subrange(4 * i, 4 * i + 4));
}

/// The same of an answer without values.
pub proof fn empty_transfer_answers_are_laid_out(cmd: u8, r: Report)
    requires
        r.data.len() == 0,
        0 <= r.processed < 0x1_0000,
    ensures
        r.processed < 256 ==> transfer_answer(cmd, r) == seq![
            cmd,
            r.processed as u8,
            r.ack.code(),
        ],
        block_answer(cmd, r).len() == 4,
        block_answer(cmd, r)[0] == cmd,
        block_answer(cmd, r)[1] + 256 * block_answer(cmd, r)[2] == r.processed,
        block_answer(cmd, r)[3] == r.ack.code(),
{
    if r.processed < 256 {
        assert(transfer_answer(cmd, r) =~= seq![cmd, r.processed as u8, r.ack.code()]);
    }
}

/// A DAP_Transfer whose transfers all succeed is answered with the number of its requests,
/// with OK, and with the registers that it read, in the order in which it asked for them.
pub proof fn transfers_are_answered_in_order(dap: Dap, req: Seq<u8>, truth: Seq<u32>, i: int)
    requires
        req.len() >= 3,
        req[0] == 0x05,
        requests_present(req, 3, req[2] as nat),
        truth.len() == reads_asked(req, 3, req[2] as nat),
        0 <= i < truth.len(),
    ensures
        ({
            let log = port_replies(req, 3, req[2] as nat, None, truth);
            &&& served(dap, req, log, None) matches ServedView::Respond(a)
            &&& a.len() == 3 + 4 * truth.len()
            &&& a[0] == 0x05 && a[1] == req[2] && a[2] == 1
            &&& a.subrange(3 + 4 * i, 7 + 4 * i) == le_bytes(truth[i])
        }),
{
    let log = port_replies(req, 3, req[2] as nat, None, truth);
    posted_reads_come_back_in_order(req, truth);
    let r = plan_report(transfer_plan(req, 3, req[2] as nat, false), log);
    transfer_answers_are_laid_out(0x05, r, i);
}

/// A DAP_TransferBlock that reads and whose transfers all succeed is answered with the
/// number of its accesses, with OK, and with the register's values in order.
pub proof fn blocks_are_answered_in_order(
    dap: Dap,
    req: Seq<u8>,
    truth: Seq<u32>,
    stale: u32,
    i: int,
)
    requires
        req.len() >= 5,
        req[0] == 0x06,
        (req[4] / 2) % 2 == 1,
        truth.len() == req[2] + 256 * req[3],
        0 <= i < truth.len(),
    ensures
        ({
            let values = if req[4] % 2 == 1 {
                seq![stale] + truth
            } else {
                truth
            };
            let log = values.map_values(|v: u32| SwdReply { ack: Ack::Okay, val: v });
            &&& served(dap, req, log, None) matches ServedView::Respond(a)
            &&& a.len() == 4 + 4 * truth.len()
            &&& a[0] == 0x06 && a[1] == req[2] && a[2] == req[3] && a[3] == 1
            &&& a.subrange(4 + 4 * i, 8 + 4 * i) == le_bytes(truth[i])
        }),
{
    let values = if req[4] % 2 == 1 {
        seq![stale] + truth
    } else {
        truth
    };
    let log = values.map_values(|v: u32| SwdReply { ack: Ack::Okay, val: v });
    read_blocks_come_back_in_order(req, req[4], truth.len(), truth, stale);
    let r = plan_report(block_plan(req, req[4], truth.len()), log);
    transfer_answers_are_laid_out(0x06, r, i);
}

/// The transfers of DAP_Transfer and DAP_TransferBlock are those of the packet's plan, and
/// DAP_WriteABORT writes the word in the packet to ABORT, once.
pub proof fn packets_lead_to_their_transfers(dap: Dap, req: Seq<u8>, replies: Seq<SwdReply>)
    ensures
        req.len() >= 3 && req[0] == 0x05 ==> match plan_next(
            transfer_plan(req, 3, req[2] as nat, false),
            replies,
        ) {
            Some(t) => served(dap, req, replies, None) == ServedView::Transfer(t),
            None => served(dap, req, replies, None) is Respond,
        },
        req.len() >= 5 && req[0] == 0x06 ==> match plan_next(
            block_plan(req, req[4], (req[2] + 256 * req[3]) as nat),
            replies,
        ) {
            Some(t) => served(dap, req, replies, None) == ServedView::Transfer(t),
            None => served(dap, req, replies, None) is Respond,
        },
        req.len() >= 6 && req[0] == 0x08 && replies.len() == 0 ==> {
            &&& served(dap, req, replies, None) matches ServedView::Transfer(t)
            &&& t.request == 0 && !t.retry && t.prelude.len() == 0
            &&& le_bytes(t.wdata) == req.subrange(2, 6)
        },
        req.len() >= 6 && req[0] == 0x08 && replies.len() > 0 ==> served(dap, req, replies, None)
            == ServedView::Respond(seq![0x08u8, 0]),
{
    if req.len() >= 6 {
        low_bytes_come_first(0, req.subrange(2, 6));
    }
}

/// The transfer settings are those that the host sent: idle clocks and the number of
/// repetitions by DAP_TransferConfigure, turnaround and data phase by DAP_SWD_Configure.
/// Neither touches what the other sets.
pub proof fn hosts_settings_are_kept(
    cfg: SwdConfig,
    req: Seq<u8>,
    turnaround: int,
    data_phase: bool,
    rest: int,
)
    requires
        req.len() >= 4,
        1 <= turnaround <= 4,
        0 <= rest < 32,
    ensures
        req[0] == 0x04 ==> config_of(cfg, req) == (SwdConfig {
            idle_cycles: req[1] as u32,
            retry_count: (req[2] + 256 * req[3]) as u16,
            turnaround: cfg.turnaround,
            data_phase: cfg.data_phase,
        }),
        req[0] == 0x13 && req[1] == turnaround - 1 + (if data_phase {
            4int
        } else {
            0
        }) + 8 * rest ==> config_of(cfg, req) == (SwdConfig {
            idle_cycles: cfg.idle_cycles,
            retry_count: cfg.retry_count,
            turnaround: turnaround as u32,
            data_phase,
        }),
        req[0] != 0x04 && req[0] != 0x13 ==> config_of(cfg, req) == cfg,
{
}

/// A packet changes the settings as [`config_of`] says, and DAP_SWJ_Clock only the clock.
pub proof fn packets_change_settings_only(dap: Dap, req: Seq<u8>)
    requires
        req.len() >= 1,
    ensures
        req[0] != 0x11 ==> after_command(dap, req) == (Dap {
            cfg: config_of(dap.cfg, req),
            ..dap
        }),
        req[0] == 0x11 ==> {
            let after = after_command(dap, req);
            &&& after.host_clk_set
            &&& after.cfg == dap.cfg
            &&& after.probe == (Probe {
                cached_freq_khz: after.probe.cached_freq_khz,
                ..dap.probe
            })
            &&& after.stable_khz == dap.stable_khz && after.rp2040 == dap.rp2040
        },
{
}

/// The clock that a host asks for comes into force: in whole kilohertz, at least one, and
/// never above the stable one; and the value for the divider register is that of this clock.
pub proof fn host_clocks_come_into_force(dap: Dap, req: Seq<u8>, hz: u32)
    requires
        dap.wf(),
        req.len() >= 5,
        req[0] == 0x11,
        req.subrange(1, 5) == le_bytes(hz),
    ensures
        ({
            let khz = after_command(dap, req).probe.cached_freq_khz;
            let asked = if hz < 1000 {
                1int
            } else {
                hz as int / 1000
            };
            &&& khz == if dap.stable_khz == 0 || asked <= dap.stable_khz {
                asked
            } else {
                dap.stable_khz as int
            }
            &&& served(dap, req, Seq::empty(), None) == ServedView::Perform(
                EffectView::Clock((256 * clock_divider(dap.probe.sys_hz as int, khz as int)) as u32),
            )
        }),
{
    words_stand_in_the_packet(req, 1, hz);
}

/// What the other commands do outside: DAP_Delay waits as many microseconds as the packet
/// says, DAP_ResetTarget pulls the reset line low for two milliseconds and lets go of it,
/// and DAP_SWJ_Pins lets bit 7 of the outputs drive it where bit 7 of the selection is set.
/// Without a line there is nothing to drive.
pub proof fn effects_follow_the_packet(dap: Dap, req: Seq<u8>)
    requires
        req.len() >= 3,
    ensures
        req[0] == 0x09 ==> served(dap, req, Seq::empty(), None) == ServedView::Perform(
            EffectView::DelayUs((req[1] + 256 * req[2]) as u64),
        ),
        req[0] == 0x0A && dap.probe.has_reset ==> served(dap, req, Seq::empty(), None)
            == ServedView::Perform(
            EffectView::ResetPulse {
                first: ResetDrive::Low,
                hold_ms: 2,
                last: ResetDrive::Release,
            },
        ),
        req[0] == 0x0A && !dap.probe.has_reset ==> served(dap, req, Seq::empty(), None)
            == ServedView::Perform(
            EffectView::ResetPulse {
                first: ResetDrive::Absent,
                hold_ms: 2,
                last: ResetDrive::Absent,
            },
        ),
        req[0] == 0x10 ==> served(dap, req, Seq::empty(), None) == ServedView::Perform(
            EffectView::ResetPin(
                if (req[2] / 128) % 2 == 0 {
                    None
                } else if !dap.probe.has_reset {
                    Some(ResetDrive::Absent)
                } else if (req[1] / 128) % 2 == 0 {
                    Some(ResetDrive::Low)
                } else {
                    Some(ResetDrive::Release)
                },
            ),
        ),
{
}

/// What commands answer once everything was done for them. DAP_SWJ_Pins reports the reset
/// line in bit 7, DAP_SWD_Sequence the bytes that were sampled, in order; DAP_Connect
/// refuses JTAG with 0 and stands for SWD with 1; all others say that they went well.
pub proof fn answers_report_what_was_done(
    dap: Dap,
    req: Seq<u8>,
    replies: Seq<SwdReply>,
    words: Seq<u32>,
    i: int,
)
    requires
        req.len() >= 2,
    ensures
        ({
            let s = served(dap, req, replies, Some(words));
            &&& req[0] == 0x10 && words.len() == 1 ==> s == ServedView::Respond(
                seq![
                    0x10u8,
                    if dap.probe.has_reset && words[0] != 0 {
                        0x80u8
                    } else {
                        0
                    },
                ],
            )
            &&& req[0] == 0x1D ==> {
                &&& s matches ServedView::Respond(a)
                &&& a.len() == 2 + words.len() && a[0] == 0x1D && a[1] == 0
                &&& 0 <= i < words.len() ==> a[2 + i] == words[i] % 256
            }
            &&& req[0] == 0x02 ==> s == ServedView::Respond(
                seq![
                    0x02u8,
                    if req[1] == 2 {
                        0u8
                    } else {
                        1
                    },
                ],
            )
            &&& req[0] == 0x0A ==> s == ServedView::Respond(seq![0x0Au8, 0, 1])
            &&& req[0] == 0x01 || req[0] == 0x03 || req[0] == 0x04 || req[0] == 0x09 || req[0]
                == 0x11 || req[0] == 0x12 || req[0] == 0x13 ==> s == ServedView::Respond(
                seq![req[0], 0u8],
            )
        }),
{
}

/// DAP_Info answers with a length and as many bytes. A text has its final NUL counted; the
/// probe offers SWD alone and takes eight packets of 64 bytes.
pub proof fn information_is_laid_out(dap: Dap, req: Seq<u8>, replies: Seq<SwdReply>)
    requires
        req.len() >= 2,
        req[0] == 0x00,
    ensures
        ({
            let id = req[1];
            let text = if id == 1 {
                "Raspberry Pi"@
            } else if id == 2 {
                dap.product@
            } else if id == 3 {
                dap.serial@
            } else {
                "2.1.0"@
            };
            let n = encode_utf8(text).len() as int;
            &&& served(dap, req, replies, None) matches ServedView::Respond(a)
            &&& 1 <= id <= 4 ==> {
                &&& a.len() == n + 3
                &&& a[0] == 0
                &&& n < 255 ==> a[1] == n + 1
                &&& a.subrange(2, n + 2) == encode_utf8(text)
                &&& a[n + 2] == 0
            }
            &&& id == 0xF0 ==> a == seq![0u8, 1, 1]
            &&& id == 0xFE ==> a == seq![0u8, 1, 8]
            &&& id == 0xFF ==> a == seq![0u8, 2, 64, 0]
            &&& id == 0 || 5 <= id < 0xF0 || 0xF0 < id < 0xFE ==> a == seq![0u8, 0]
        }),
{
    let id = req[1];
    let text = if id == 1 {
        "Raspberry Pi"@
    } else if id == 2 {
        dap.product@
    } else if id == 3 {
        dap.serial@
    } else {
        "2.1.0"@
    };
    let n = encode_utf8(text).len() as int;
    if 1 <= id <= 4 {
        assert(info_answer(dap, 0, id).subrange(2, n + 2) =~= encode_utf8(text));
    }
}

/// DAP_SWJ_Sequence drives as many bits as the packet says, 0 for 256, and DAP_SWD_Sequence
/// what its sequences say.
pub proof fn sequences_go_out_as_sent(dap: Dap, req: Seq<u8>, bits: int)
    requires
        req.len() >= 2,
        1 <= bits <= 256,
        req[1] == bits % 256,
    ensures
        req[0] == 0x12 ==> served(dap, req, Seq::empty(), None) == ServedView::Perform(
            EffectView::Wire(bytes_out(req, 2, bits)),
        ),
        req[0] == 0x1D ==> served(dap, req, Seq::empty(), None) == ServedView::Perform(
            EffectView::Wire(sequence_ops(req, 2, req[1] as nat)),
        ),
{
}

/// The words that an effect owes: the level of the reset line, what the wire operations
/// read, and nothing else.
pub proof fn effects_owe_what_they_read(e: EffectView)
    ensures
        e is ResetPin ==> words_of(e) == 1,
        e is Clock || e is DelayUs || e is ResetPulse ==> words_of(e) == 0,
        e matches EffectView::Wire(ops) ==> words_of(e) == reads_in(ops),
{
}

/// A packet is accepted where it has the bytes that its command reads and the answer has its
/// room; a command that is not known, and DAP_TransferAbort, need no more than their byte.
pub proof fn packets_need_their_bytes(dap: Dap, req: Seq<u8>, replies: Seq<SwdReply>, room: int)
    requires
        req.len() >= 1,
    ensures
        ({
            let ok = command_ok(dap, req, replies, None, room);
            let n = req.len();
            let c = req[0];
            &&& room < 1 ==> !ok
            &&& room >= 1 && c == 0x07 ==> ok
            &&& room >= 1 && DapCmd::of_code(c) is None ==> ok
            &&& c == 0x01 || c == 0x03 ==> (ok <==> room >= 2)
            &&& c == 0x02 || c == 0x13 ==> (ok <==> n >= 2 && room >= 2)
            &&& c == 0x04 ==> (ok <==> n >= 4 && room >= 2)
            &&& c == 0x08 ==> (ok <==> n >= 6 && room >= 2)
            &&& c == 0x09 || c == 0x10 ==> (ok <==> n >= 3 && room >= 2)
            &&& c == 0x0A ==> (ok <==> room >= 3)
            &&& c == 0x11 ==> (ok <==> n >= 5 && room >= 2)
            &&& c == 0x12 ==> (ok <==> n >= 2 && room >= 2 && 8 * (n - 2) >= if req[1] == 0 {
                256
            } else {
                req[1] as int
            })
        }),
{
}

/// DAP_Transfer and DAP_TransferBlock are accepted with all their bytes, as long as the
/// values read so far have room after the three or four bytes before them, four to each.
pub proof fn answers_need_room_for_their_values(
    dap: Dap,
    req: Seq<u8>,
    replies: Seq<SwdReply>,
    room: int,
)
    requires
        room >= 1,
    ensures
        req.len() >= 3 && req[0] == 0x05 && requests_present(req, 3, req[2] as nat) ==> ({
            let plan = transfer_plan(req, 3, req[2] as nat, false);
            command_ok(dap, req, replies, None, room) <==> room >= 3 + 4 * captures(
                plan,
                successes(replies, 0, plan.len() as int),
            )
        }),
        req.len() >= 5 && req[0] == 0x06 && ((req[4] / 2) % 2 == 1 || req.len() >= 5 + 4 * (req[2]
            + 256 * req[3])) ==> ({
            let plan = block_plan(req, req[4], (req[2] + 256 * req[3]) as nat);
            command_ok(dap, req, replies, None, room) <==> room >= 4 + 4 * captures(
                plan,
                successes(replies, 0, plan.len() as int),
            )
        }),
        req.len() >= 3 && req[0] == 0x05 && !requests_present(req, 3, req[2] as nat) && command_ok(
            dap,
            req,
            replies,
            None,
            room,
        ) ==> successes(
            replies,
            0,
            transfer_plan(req, 3, req[2] as nat, false).len() as int,
        ) < transfer_plan(req, 3, req[2] as nat, false).len(),
{
    until_counts(
        replies,
        0,
        transfer_plan(req, 3, req[2] as nat, false).len() as int,
        failed(),
    );
}

/// A text goes out whole between its length, which counts the NUL at its end and has eight
/// bits, and that NUL.
pub proof fn texts_are_framed(cmd: u8, text: Seq<char>)
    ensures
        ({
            let a = text_answer(cmd, text);
            let n = encode_utf8(text).len() as int;
            &&& a.len() == n + 3
            &&& a[0] == cmd
            &&& (n + 1 - a[1]) % 256 == 0
            &&& a.subrange(2, n + 2) == encode_utf8(text)
            &&& a[n + 2] == 0
        }),
{
    let bytes = encode_utf8(text);
    let a = text_answer(cmd, text);
    assert(a.subrange(2, bytes.len() as int + 2) =~= bytes);
}

/// What comes out of a command is what the packet leads to and nothing else: the transfer,
/// the effect with the buffer left alone, or an answer whose bytes stand at the front of the
/// buffer, as many as it says, with the rest left alone.
pub proof fn commands_do_what_the_packet_leads_to(
    v: ServedView,
    r: Served,
    before: Seq<u8>,
    after: Seq<u8>,
    i: int,
)
    requires
        is_served(v, r, before, after),
        v matches ServedView::Respond(a) ==> a.len() <= before.len(),
        0 <= i < before.len(),
    ensures
        after.len() == before.len(),
        match r {
            Served::Transfer(x) => v == ServedView::Transfer(x@) && after[i] == before[i],
            Served::Perform(x) => v == ServedView::Perform(x@) && after[i] == before[i],
            Served::Respond(n) => {
                &&& v matches ServedView::Respond(a) && a.len() == n
                &&& i < n ==> after[i] == v->Respond_0[i]
                &&& i >= n ==> after[i] == before[i]
            },
        },
{
}

} // verus!
