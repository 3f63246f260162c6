//! What the probe finds out about a target on its own: whether one is there and which chip
//! it is.
//!
//! Each of these is a procedure in the sense of [`crate::dap::script`]. They reset the line
//! and are not for times at which a host uses the port.
use vstd::prelude::*;

use crate::dap::reg::{
    AP_CSW_32BIT, CPUID, CTRLSTAT_PWRUPREQ, DBGMCU_IDCODE, DP_ABORT_CLEAR, FLASH_OBR, FLASH_OPTCR,
    FLASH_OPTR, NORDIC_FICR_PART, ROM_PIDR1, ROM_PIDR2, ROM_PIDR4, RP2040_DEVID_MARK, RP2040_DPIDR,
};
use crate::dap::script::{
    chain, failed, successes, until, until_counts, until_is, Step, StepView,
};
use crate::dap::swd::{
    plain, retried, swd_transfer, transfer_retry, RawBits, SwdReply, SwdRequest, Transfer,
};
use crate::dap::types::{
    protection_register, rdp_reg, Ack, RdpLevel, RdpReg, TargetInfo, AP_CSW_WR, AP_DRW_RD,
    AP_TAR_WR, DP_ABORT_WR, DP_CTRLSTAT_RD, DP_CTRLSTAT_WR, DP_DPIDR_RD, DP_RDBUFF_RD,
    DP_SELECT_WR, JEP_NORDIC, JEP_RASPI, JEP_ST,
};
use crate::dap::wake::{select_core0, wakeup};
use crate::dap::Dap;

verus! {

/// How often DPIDR is read before the target counts as silent.
pub const DPIDR_TRIES: usize = 12;

/// How often the DPIDR of an RP2040 is looked for.
pub const SELECT_TRIES: usize = 8;

/// How often the power acknowledgements are looked for.
pub const POWER_POLLS: usize = 20;

/// The transfer succeeded.
pub open spec fn okay() -> spec_fn(SwdReply) -> bool {
    |r: SwdReply| r.ack is Okay
}

/// The transfer brought the DPIDR of an RP2040.
pub open spec fn rp2040_answers() -> spec_fn(SwdReply) -> bool {
    |r: SwdReply| r.ack is Okay && r.val == RP2040_DPIDR
}

/// Bits 31 and 29 of CTRL/STAT: the system and the debug domain have power.
pub open spec fn has_power(v: u32) -> bool {
    v / 0x8000_0000 == 1 && (v / 0x2000_0000) % 2 == 1
}

/// The transfer brought both power acknowledgements.
pub open spec fn powered() -> spec_fn(SwdReply) -> bool {
    |r: SwdReply| r.ack is Okay && has_power(r.val)
}

/// A transfer on its own, after raw bits.
pub open spec fn after_raw(prelude: Seq<RawBits>, request: u8, wdata: u32) -> Transfer {
    Transfer { prelude, request, wdata, retry: false }
}

/// DPIDR is read until that succeeds once, at most twelve times; `prelude` goes out first.
pub open spec fn dpidr(log: Seq<SwdReply>, at: int, prelude: Seq<RawBits>) -> StepView<Option<u32>> {
    let k = until(log, at, DPIDR_TRIES as int, okay());
    if k == DPIDR_TRIES {
        StepView::Done(None, at + k)
    } else if at + k == log.len() {
        StepView::Need(
            if k == 0 {
                after_raw(prelude, DP_DPIDR_RD, 0)
            } else {
                plain(DP_DPIDR_RD, 0)
            },
        )
    } else {
        StepView::Done(Some(log[at + k].val), at + k + 1)
    }
}

/// DPIDR is read until it is that of an RP2040, at most eight times, and then the sticky
/// flags are cleared; `prelude` goes out first.
pub open spec fn rp2040_select(log: Seq<SwdReply>, at: int, prelude: Seq<RawBits>) -> StepView<bool> {
    let k = until(log, at, SELECT_TRIES as int, rp2040_answers());
    if k == SELECT_TRIES {
        StepView::Done(false, at + k)
    } else if at + k == log.len() {
        StepView::Need(
            if k == 0 {
                after_raw(prelude, DP_DPIDR_RD, 0)
            } else {
                plain(DP_DPIDR_RD, 0)
            },
        )
    } else if at + k + 1 == log.len() {
        StepView::Need(plain(DP_ABORT_WR, DP_ABORT_CLEAR))
    } else {
        StepView::Done(true, at + k + 2)
    }
}

/// The sticky flags are cleared, bank 0 of AP 0 is selected and power is requested, whatever
/// becomes of these three; the acknowledgements are then looked for, at most twenty times.
pub open spec fn powerup(log: Seq<SwdReply>, at: int) -> StepView<bool> {
    if at == log.len() {
        StepView::Need(retried(DP_ABORT_WR, DP_ABORT_CLEAR))
    } else if at + 1 == log.len() {
        StepView::Need(retried(DP_SELECT_WR, 0))
    } else if at + 2 == log.len() {
        StepView::Need(retried(DP_CTRLSTAT_WR, CTRLSTAT_PWRUPREQ))
    } else {
        let k = until(log, at + 3, POWER_POLLS as int, powered());
        if k == POWER_POLLS {
            StepView::Done(false, at + 3 + k)
        } else if at + 3 + k == log.len() {
            StepView::Need(retried(DP_CTRLSTAT_RD, 0))
        } else {
            StepView::Done(true, at + 4 + k)
        }
    }
}

/// The four transfers that read a word of the target's memory.
pub open spec fn mem32_transfer(i: int, addr: u32) -> Transfer {
    if i == 0 {
        retried(AP_CSW_WR, AP_CSW_32BIT)
    } else if i == 1 {
        retried(AP_TAR_WR, addr)
    } else if i == 2 {
        retried(AP_DRW_RD, 0)
    } else {
        retried(DP_RDBUFF_RD, 0)
    }
}

/// A word of the target's memory, through the AP; none once one of the four transfers fails.
pub open spec fn mem32(log: Seq<SwdReply>, at: int, addr: u32) -> StepView<Option<u32>> {
    let k = successes(log, at, 4);
    if k == 4 {
        StepView::Done(Some(log[at + 3].val), at + 4)
    } else if at + k == log.len() {
        StepView::Need(mem32_transfer(k, addr))
    } else {
        StepView::Done(None, at + k + 1)
    }
}

/// Values that a bad line produces: all ones, and zero where the register is never zero.
pub open spec fn is_bad(v: u32, allow_zero: bool) -> bool {
    v == 0xFFFF_FFFF || (!allow_zero && v == 0)
}

/// A word of the target's memory that was read twice with the same result: at most `tries`
/// reads are made, those that fail or are bad do not count, and `prev` is the one before
/// that does.
pub open spec fn stable32(
    log: Seq<SwdReply>,
    at: int,
    addr: u32,
    allow_zero: bool,
    tries: nat,
    prev: Option<u32>,
) -> StepView<Option<u32>>
    decreases tries,
{
    if tries == 0 {
        StepView::Done(None, at)
    } else {
        let left = (tries - 1) as nat;
        match mem32(log, at, addr) {
            StepView::Need(t) => StepView::Need(t),
            StepView::Done(None, p) => stable32(log, p, addr, allow_zero, left, prev),
            StepView::Done(Some(v), p) => if is_bad(v, allow_zero) {
                stable32(log, p, addr, allow_zero, left, prev)
            } else if prev == Some(v) {
                StepView::Done(Some(v), p)
            } else {
                stable32(log, p, addr, allow_zero, left, Some(v))
            },
        }
    }
}

/// How often a word is read to find it twice the same.
pub const STABLE_TRIES: usize = 5;

pub fn request_after(prelude: Vec<RawBits>, request: u8) -> (r: SwdRequest)
    ensures
        r@ == after_raw(prelude@, request, 0),
{
    SwdRequest { prelude, request, wdata: 0, retry: false }
}

/// DPIDR, read until that succeeds once.
pub fn read_dpidr_val(log: &[SwdReply], at: usize, prelude: Vec<RawBits>) -> (r: Step<Option<u32>>)
    requires
        at <= log@.len(),
    ensures
        r@ == dpidr(log@, at as int, prelude@),
        r matches Step::Done(_, p) ==> at <= p <= log@.len(),
{
    let n: usize = log.len();
    let mut k: usize = 0;
    while k < DPIDR_TRIES
        invariant
            n == log@.len(),
            k <= DPIDR_TRIES,
            at + k <= log@.len(),
            forall|j: int| at <= j < at + k ==> !okay()(#[trigger] log@[j]),
        decreases DPIDR_TRIES - k,
    {
        if at + k == n {
            proof {
                until_is(log@, at as int, DPIDR_TRIES as int, okay(), k as int);
            }
            if k == 0 {
                return Step::Need(request_after(prelude, DP_DPIDR_RD));
            } else {
                return Step::Need(swd_transfer(DP_DPIDR_RD, 0));
            }
        }
        let reply = log[at + k];
        if reply.ack == Ack::Okay {
            proof {
                assert(okay()(log@[at + k]));
                until_is(log@, at as int, DPIDR_TRIES as int, okay(), k as int);
            }
            return Step::Done(Some(reply.val), at + k + 1);
        }
        k = k + 1;
    }
    proof {
        until_is(log@, at as int, DPIDR_TRIES as int, okay(), k as int);
    }
    Step::Done(None, at + k)
}

/// Whether an RP2040 answers to the selection that `prelude` ends with.
fn find_rp2040(log: &[SwdReply], at: usize, prelude: Vec<RawBits>) -> (r: Step<bool>)
    requires
        at <= log@.len(),
    ensures
        r@ == rp2040_select(log@, at as int, prelude@),
        r matches Step::Done(_, p) ==> at <= p <= log@.len(),
{
    let n: usize = log.len();
    let mut k: usize = 0;
    while k < SELECT_TRIES
        invariant
            n == log@.len(),
            k <= SELECT_TRIES,
            at + k <= log@.len(),
            forall|j: int| at <= j < at + k ==> !rp2040_answers()(#[trigger] log@[j]),
        decreases SELECT_TRIES - k,
    {
        if at + k == n {
            proof {
                until_is(log@, at as int, SELECT_TRIES as int, rp2040_answers(), k as int);
            }
            if k == 0 {
                return Step::Need(request_after(prelude, DP_DPIDR_RD));
            } else {
                return Step::Need(swd_transfer(DP_DPIDR_RD, 0));
            }
        }
        let reply = log[at + k];
        if reply.ack == Ack::Okay && reply.val == RP2040_DPIDR {
            proof {
                assert(rp2040_answers()(log@[at + k]));
                until_is(log@, at as int, SELECT_TRIES as int, rp2040_answers(), k as int);
            }
            if at + k + 1 == n {
                return Step::Need(swd_transfer(DP_ABORT_WR, DP_ABORT_CLEAR));
            }
            return Step::Done(true, at + k + 2);
        }
        k = k + 1;
    }
    proof {
        until_is(log@, at as int, SELECT_TRIES as int, rp2040_answers(), k as int);
    }
    Step::Done(false, at + k)
}

/// Clears the sticky flags, requests power and waits for it.
pub fn debug_powerup(log: &[SwdReply], at: usize) -> (r: Step<bool>)
    requires
        at <= log@.len(),
    ensures
        r@ == powerup(log@, at as int),
        r matches Step::Done(_, p) ==> at <= p <= log@.len(),
{
    let n: usize = log.len();
    if n == at {
        return Step::Need(transfer_retry(DP_ABORT_WR, DP_ABORT_CLEAR));
    }
    if n == at + 1 {
        return Step::Need(transfer_retry(DP_SELECT_WR, 0));
    }
    if n == at + 2 {
        return Step::Need(transfer_retry(DP_CTRLSTAT_WR, CTRLSTAT_PWRUPREQ));
    }
    let from: usize = at + 3;
    let mut k: usize = 0;
    while k < POWER_POLLS
        invariant
            n == log@.len(),
            from == at + 3,
            k <= POWER_POLLS,
            from + k <= log@.len(),
            forall|j: int| from <= j < from + k ==> !powered()(#[trigger] log@[j]),
        decreases POWER_POLLS - k,
    {
        if from + k == n {
            proof {
                until_is(log@, from as int, POWER_POLLS as int, powered(), k as int);
            }
            return Step::Need(transfer_retry(DP_CTRLSTAT_RD, 0));
        }
        let reply = log[from + k];
        let v: u32 = reply.val;
        if reply.ack == Ack::Okay && v / 0x8000_0000 == 1 && (v / 0x2000_0000) % 2 == 1 {
            proof {
                assert(powered()(log@[from + k]));
                until_is(log@, from as int, POWER_POLLS as int, powered(), k as int);
            }
            return Step::Done(true, from + k + 1);
        }
        k = k + 1;
    }
    proof {
        until_is(log@, from as int, POWER_POLLS as int, powered(), k as int);
    }
    Step::Done(false, from + k)
}

/// Reads a word of the target's memory.
pub fn read_mem32(log: &[SwdReply], at: usize, addr: u32) -> (r: Step<Option<u32>>)
    requires
        at <= log@.len(),
    ensures
        r@ == mem32(log@, at as int, addr),
        r matches Step::Done(_, p) ==> at < p <= log@.len(),
{
    let n: usize = log.len();
    let mut k: usize = 0;
    while k < 4
        invariant
            n == log@.len(),
            k <= 4,
            at + k <= log@.len(),
            forall|j: int| at <= j < at + k ==> !failed()(#[trigger] log@[j]),
        decreases 4 - k,
    {
        if at + k == n {
            proof {
                until_is(log@, at as int, 4, failed(), k as int);
            }
            let t = if k == 0 {
                transfer_retry(AP_CSW_WR, AP_CSW_32BIT)
            } else if k == 1 {
                transfer_retry(AP_TAR_WR, addr)
            } else if k == 2 {
                transfer_retry(AP_DRW_RD, 0)
            } else {
                transfer_retry(DP_RDBUFF_RD, 0)
            };
            return Step::Need(t);
        }
        if log[at + k].ack != Ack::Okay {
            proof {
                assert(failed()(log@[at + k]));
                until_is(log@, at as int, 4, failed(), k as int);
            }
            return Step::Done(None, at + k + 1);
        }
        k = k + 1;
    }
    proof {
        until_is(log@, at as int, 4, failed(), 4);
    }
    Step::Done(Some(log[at + 3].val), at + 4)
}

/// Reads a word of the target's memory until it comes twice the same.
fn read_mem32_stable(log: &[SwdReply], at: usize, addr: u32, allow_zero: bool) -> (r: Step<
    Option<u32>,
>)
    requires
        at <= log@.len(),
    ensures
        r@ == stable32(log@, at as int, addr, allow_zero, STABLE_TRIES as nat, None),
        r matches Step::Done(_, p) ==> at <= p <= log@.len(),
{
    let mut prev: Option<u32> = None;
    let mut p: usize = at;
    let mut tries: usize = STABLE_TRIES;
    let ghost all = stable32(log@, at as int, addr, allow_zero, STABLE_TRIES as nat, None);
    while tries > 0
        invariant
            at <= p <= log@.len(),
            stable32(log@, p as int, addr, allow_zero, tries as nat, prev) == all,
            all == stable32(log@, at as int, addr, allow_zero, STABLE_TRIES as nat, None),
        decreases tries,
    {
        match read_mem32(log, p, addr) {
            Step::Need(t) => return Step::Need(t),
            Step::Done(got, next) => {
                p = next;
                if let Some(v) = got {
                    if !(v == 0xFFFF_FFFF || (!allow_zero && v == 0)) {
                        if let Some(w) = prev {
                            if w == v {
                                return Step::Done(Some(v), p);
                            }
                        }
                        prev = Some(v);
                    }
                }
            },
        }
        tries = tries - 1;
    }
    Step::Done(None, p)
}

/// A word of the target's memory, read twice with the same result in at most five reads.
pub open spec fn stable(
    log: Seq<SwdReply>,
    at: int,
    addr: u32,
    allow_zero: bool,
) -> StepView<Option<u32>> {
    stable32(log, at, addr, allow_zero, STABLE_TRIES as nat, None)
}

/// PARTNO, bits 15 to 4 of CPUID; 0 where it cannot be read.
pub open spec fn cpuid_part(log: Seq<SwdReply>, at: int) -> StepView<u16> {
    chain(
        stable(log, at, CPUID, false),
        |got: Option<u32>, p: int|
            StepView::Done(
                match got {
                    Some(v) => ((v / 16) % 0x1000) as u16,
                    None => 0,
                },
                p,
            ),
    )
}

/// The JEP106 code in three peripheral identification registers: continuation count times
/// 128 plus identity.
pub open spec fn jep106(p1: u32, p2: u32, p4: u32) -> u16 {
    (128 * (p4 % 16) + 16 * (p2 % 8) + (p1 / 16) % 16) as u16
}

/// The JEP106 code in the ROM table; 0 unless all three registers can be read.
pub open spec fn rom_designer(log: Seq<SwdReply>, at: int) -> StepView<u16> {
    chain(
        stable(log, at, ROM_PIDR1, true),
        |p1: Option<u32>, a: int|
            chain(
                stable(log, a, ROM_PIDR2, true),
                |p2: Option<u32>, b: int|
                    chain(
                        stable(log, b, ROM_PIDR4, true),
                        |p4: Option<u32>, c: int|
                            StepView::Done(
                                if p1 is Some && p2 is Some && p4 is Some {
                                    jep106(p1->0, p2->0, p4->0)
                                } else {
                                    0
                                },
                                c,
                            ),
                    ),
            ),
    )
}

/// The level that a protection byte stands for.
pub open spec fn level_of_byte(b: int) -> RdpLevel {
    if b == 0xAA {
        RdpLevel::Open
    } else if b == 0xCC {
        RdpLevel::Level2
    } else {
        RdpLevel::Level1
    }
}

/// The address of an option register.
pub open spec fn option_address(reg: RdpReg) -> u32 {
    match reg {
        RdpReg::Optcr => FLASH_OPTCR,
        RdpReg::Obr => FLASH_OBR,
        _ => FLASH_OPTR,
    }
}

/// The level that the value of an option register stands for.
pub open spec fn level_in(reg: RdpReg, v: u32) -> RdpLevel {
    match reg {
        RdpReg::Optcr => level_of_byte((v as int / 0x100) % 0x100),
        RdpReg::Obr => if (v / 2) % 2 == 1 {
            RdpLevel::Level1
        } else {
            RdpLevel::Open
        },
        RdpReg::Optr => level_of_byte(v as int % 0x100),
        RdpReg::Unknown => RdpLevel::Unknown,
    }
}

/// The read protection of the device `devid`.
pub open spec fn protection(log: Seq<SwdReply>, at: int, devid: u16) -> StepView<RdpLevel> {
    let reg = protection_register(devid);
    if reg is Unknown {
        StepView::Done(RdpLevel::Unknown, at)
    } else {
        chain(
            stable(log, at, option_address(reg), true),
            |got: Option<u32>, p: int|
                StepView::Done(
                    match got {
                        Some(v) => level_in(reg, v),
                        None => RdpLevel::Unknown,
                    },
                    p,
                ),
        )
    }
}

/// The device identifier of an ST part and its read protection; 0 and unknown where the
/// identifier cannot be read or is all zeros or all ones.
pub open spec fn st_part(log: Seq<SwdReply>, at: int) -> StepView<(u16, RdpLevel)> {
    chain(
        stable(log, at, DBGMCU_IDCODE, false),
        |got: Option<u32>, p: int|
            match got {
                Some(v) => {
                    let d = (v % 0x1000) as u16;
                    if d != 0 && d != 0xFFF {
                        chain(
                            protection(log, p, d),
                            |level: RdpLevel, q: int| StepView::Done((d, level), q),
                        )
                    } else {
                        StepView::Done((0u16, RdpLevel::Unknown), p)
                    }
                },
                None => StepView::Done((0u16, RdpLevel::Unknown), p),
            },
    )
}

/// The facts, unless none of device, part and core could be read.
pub open spec fn unless_blank(
    designer: u16,
    devid: u16,
    part: u32,
    rdp: RdpLevel,
    core: u16,
) -> Option<TargetInfo> {
    if devid == 0 && part == 0 && core == 0 {
        None
    } else {
        Some(TargetInfo { designer, devid, part, rdp, core })
    }
}

/// What can be learnt of a target that has power: its core, its designer, and what the
/// designer's parts keep in registers of their own.
pub open spec fn identity(log: Seq<SwdReply>, at: int) -> StepView<Option<TargetInfo>> {
    chain(
        cpuid_part(log, at),
        |core: u16, a: int|
            chain(
                rom_designer(log, a),
                |designer: u16, b: int|
                    if designer == JEP_ST || designer == 0 {
                        chain(
                            st_part(log, b),
                            |st: (u16, RdpLevel), c: int|
                                StepView::Done(unless_blank(designer, st.0, 0, st.1, core), c),
                        )
                    } else if designer == JEP_NORDIC {
                        chain(
                            stable(log, b, NORDIC_FICR_PART, false),
                            |got: Option<u32>, c: int|
                                StepView::Done(
                                    unless_blank(
                                        designer,
                                        0,
                                        match got {
                                            Some(v) => v,
                                            None => 0,
                                        },
                                        RdpLevel::Unknown,
                                        core,
                                    ),
                                    c,
                                ),
                        )
                    } else {
                        StepView::Done(
                            unless_blank(designer, 0, 0, RdpLevel::Unknown, core),
                            b,
                        )
                    },
            ),
    )
}

/// What is known of an RP2040 that answers.
pub open spec fn rp2040_info(core: u16) -> TargetInfo {
    TargetInfo {
        designer: JEP_RASPI,
        devid: RP2040_DEVID_MARK,
        part: 0,
        rdp: RdpLevel::Unknown,
        core,
    }
}

/// An RP2040 is selected; it counts as found even where it gets no power.
pub open spec fn rp2040_detection(log: Seq<SwdReply>, prelude: Seq<RawBits>) -> StepView<
    Option<TargetInfo>,
> {
    chain(
        rp2040_select(log, 0, prelude),
        |there: bool, a: int|
            if there {
                chain(
                    powerup(log, a),
                    |power: bool, b: int|
                        if power {
                            chain(
                                cpuid_part(log, b),
                                |core: u16, c: int| StepView::Done(Some(rp2040_info(core)), c),
                            )
                        } else {
                            StepView::Done(Some(rp2040_info(0)), b)
                        },
                )
            } else {
                StepView::Done(None, a)
            },
    )
}

/// A target that answers on its own is woken up and given power.
pub open spec fn plain_detection(log: Seq<SwdReply>) -> StepView<Option<TargetInfo>> {
    chain(
        dpidr(log, 0, wakeup()),
        |id: Option<u32>, a: int|
            if id is Some {
                chain(
                    powerup(log, a),
                    |power: bool, b: int|
                        if power {
                            identity(log, b)
                        } else {
                            StepView::Done(None, b)
                        },
                )
            } else {
                StepView::Done(None, a)
            },
    )
}

/// What is found out about the target; `rp2040` says that it has to be selected.
pub open spec fn detection(rp2040: bool, log: Seq<SwdReply>) -> StepView<Option<TargetInfo>> {
    if rp2040 {
        rp2040_detection(log, wakeup() + select_core0())
    } else {
        plain_detection(log)
    }
}

/// Reads the core's PARTNO.
fn read_cpuid_part(log: &[SwdReply], at: usize) -> (r: Step<u16>)
    requires
        at <= log@.len(),
    ensures
        r@ == cpuid_part(log@, at as int),
        r matches Step::Done(_, p) ==> at <= p <= log@.len(),
{
    match read_mem32_stable(log, at, CPUID, false) {
        Step::Need(t) => Step::Need(t),
        Step::Done(Some(v), p) => Step::Done(((v / 16) % 0x1000) as u16, p),
        Step::Done(None, p) => Step::Done(0, p),
    }
}

/// Reads the JEP106 code in the ROM table.
fn read_designer(log: &[SwdReply], at: usize) -> (r: Step<u16>)
    requires
        at <= log@.len(),
    ensures
        r@ == rom_designer(log@, at as int),
        r matches Step::Done(_, p) ==> at <= p <= log@.len(),
{
    let (p1, a) = match read_mem32_stable(log, at, ROM_PIDR1, true) {
        Step::Need(t) => return Step::Need(t),
        Step::Done(x, p) => (x, p),
    };
    let (p2, b) = match read_mem32_stable(log, a, ROM_PIDR2, true) {
        Step::Need(t) => return Step::Need(t),
        Step::Done(x, p) => (x, p),
    };
    let (p4, c) = match read_mem32_stable(log, b, ROM_PIDR4, true) {
        Step::Need(t) => return Step::Need(t),
        Step::Done(x, p) => (x, p),
    };
    match (p1, p2, p4) {
        (Some(p1), Some(p2), Some(p4)) => {
            let code: u32 = 128 * (p4 % 16) + 16 * (p2 % 8) + (p1 / 16) % 16;
            Step::Done(code as u16, c)
        },
        _ => Step::Done(0, c),
    }
}

fn rdp_byte(b: u32) -> (r: RdpLevel)
    ensures
        r == level_of_byte(b as int),
{
    if b == 0xAA {
        RdpLevel::Open
    } else if b == 0xCC {
        RdpLevel::Level2
    } else {
        RdpLevel::Level1
    }
}

/// Reads the read protection of the device `devid`.
fn read_rdp(log: &[SwdReply], at: usize, devid: u16) -> (r: Step<RdpLevel>)
    requires
        at <= log@.len(),
    ensures
        r@ == protection(log@, at as int, devid),
        r matches Step::Done(_, p) ==> at <= p <= log@.len(),
{
    let reg = rdp_reg(devid);
    let addr: u32 = match reg {
        RdpReg::Optcr => FLASH_OPTCR,
        RdpReg::Obr => FLASH_OBR,
        RdpReg::Optr => FLASH_OPTR,
        RdpReg::Unknown => return Step::Done(RdpLevel::Unknown, at),
    };
    match read_mem32_stable(log, at, addr, true) {
        Step::Need(t) => Step::Need(t),
        Step::Done(None, p) => Step::Done(RdpLevel::Unknown, p),
        Step::Done(Some(v), p) => {
            let level = match reg {
                RdpReg::Optcr => rdp_byte((v / 0x100) % 0x100),
                RdpReg::Obr => if (v / 2) % 2 == 1 {
                    RdpLevel::Level1
                } else {
                    RdpLevel::Open
                },
                _ => rdp_byte(v % 0x100),
            };
            Step::Done(level, p)
        },
    }
}

/// Reads an ST part's device identifier and its read protection.
fn read_st_part(log: &[SwdReply], at: usize) -> (r: Step<(u16, RdpLevel)>)
    requires
        at <= log@.len(),
    ensures
        r@ == st_part(log@, at as int),
        r matches Step::Done(_, p) ==> at <= p <= log@.len(),
{
    match read_mem32_stable(log, at, DBGMCU_IDCODE, false) {
        Step::Need(t) => Step::Need(t),
        Step::Done(None, p) => Step::Done((0, RdpLevel::Unknown), p),
        Step::Done(Some(v), p) => {
            let d: u16 = (v % 0x1000) as u16;
            if d != 0 && d != 0xFFF {
                match read_rdp(log, p, d) {
                    Step::Need(t) => Step::Need(t),
                    Step::Done(level, q) => Step::Done((d, level), q),
                }
            } else {
                Step::Done((0, RdpLevel::Unknown), p)
            }
        },
    }
}

/// Finds out what it can about a target that has power.
fn identify(log: &[SwdReply], at: usize) -> (r: Step<Option<TargetInfo>>)
    requires
        at <= log@.len(),
    ensures
        r@ == identity(log@, at as int),
        r matches Step::Done(_, p) ==> at <= p <= log@.len(),
{
    let (core, a) = match read_cpuid_part(log, at) {
        Step::Need(t) => return Step::Need(t),
        Step::Done(x, p) => (x, p),
    };
    let (designer, b) = match read_designer(log, a) {
        Step::Need(t) => return Step::Need(t),
        Step::Done(x, p) => (x, p),
    };
    let mut devid: u16 = 0;
    let mut part: u32 = 0;
    let mut rdp = RdpLevel::Unknown;
    let mut end: usize = b;
    if designer == JEP_ST || designer == 0 {
        match read_st_part(log, b) {
            Step::Need(t) => return Step::Need(t),
            Step::Done((d, level), p) => {
                devid = d;
                rdp = level;
                end = p;
            },
        }
    } else if designer == JEP_NORDIC {
        match read_mem32_stable(log, b, NORDIC_FICR_PART, false) {
            Step::Need(t) => return Step::Need(t),
            Step::Done(got, p) => {
                if let Some(v) = got {
                    part = v;
                }
                end = p;
            },
        }
    }
    if devid == 0 && part == 0 && core == 0 {
        return Step::Done(None, end);
    }
    Step::Done(Some(TargetInfo { designer, devid, part, rdp, core }), end)
}

/// Finds an RP2040, given the raw bits that select it.
fn detect_rp2040(log: &[SwdReply], prelude: Vec<RawBits>) -> (r: Step<Option<TargetInfo>>)
    ensures
        r@ == rp2040_detection(log@, prelude@),
        r matches Step::Done(_, p) ==> p <= log@.len(),
{
    let (there, a) = match find_rp2040(log, 0, prelude) {
        Step::Need(t) => return Step::Need(t),
        Step::Done(x, p) => (x, p),
    };
    if !there {
        return Step::Done(None, a);
    }
    let (power, b) = match debug_powerup(log, a) {
        Step::Need(t) => return Step::Need(t),
        Step::Done(x, p) => (x, p),
    };
    let mut core: u16 = 0;
    let mut end: usize = b;
    if power {
        match read_cpuid_part(log, b) {
            Step::Need(t) => return Step::Need(t),
            Step::Done(x, p) => {
                core = x;
                end = p;
            },
        }
    }
    let info = TargetInfo {
        designer: JEP_RASPI,
        devid: RP2040_DEVID_MARK,
        part: 0,
        rdp: RdpLevel::Unknown,
        core,
    };
    Step::Done(Some(info), end)
}

impl Dap {
    /// Connects to the target and finds out which chip it is.
    pub fn detect_target(&self, log: &[SwdReply]) -> (r: Step<Option<TargetInfo>>)
        ensures
            r@ == detection(self.rp2040, log@),
            r matches Step::Done(_, p) ==> p <= log@.len(),
    {
        if self.rp2040 {
            return detect_rp2040(log, self.wakeup_and_select());
        }
        let (id, a) = match read_dpidr_val(log, 0, self.swd_wakeup()) {
            Step::Need(t) => return Step::Need(t),
            Step::Done(x, p) => (x, p),
        };
        if id.is_none() {
            return Step::Done(None, a);
        }
        let (power, b) = match debug_powerup(log, a) {
            Step::Need(t) => return Step::Need(t),
            Step::Done(x, p) => (x, p),
        };
        if !power {
            return Step::Done(None, b);
        }
        identify(log, b)
    }
}

/// How a target answered at one SWCLK.
#[derive(Clone, Copy, PartialEq, Eq, Structural, Debug)]
pub enum Answer {
    /// Not at all.
    Silent,
    /// On its own, with a DPIDR other than the RP2040's.
    Single,
    /// As an RP2040 does.
    Rp2040,
}

/// How a target answers at the SWCLK in force: it is woken up and DPIDR is read; only where
/// that fails, core 0 of an RP2040 is selected.
pub open spec fn presence(log: Seq<SwdReply>) -> StepView<Answer> {
    chain(
        dpidr(log, 0, wakeup()),
        |got: Option<u32>, a: int|
            match got {
                Some(v) => StepView::Done(
                    if v == RP2040_DPIDR {
                        Answer::Rp2040
                    } else {
                        Answer::Single
                    },
                    a,
                ),
                None => chain(
                    rp2040_select(log, a, select_core0()),
                    |there: bool, b: int|
                        StepView::Done(
                            if there {
                                Answer::Rp2040
                            } else {
                                Answer::Silent
                            },
                            b,
                        ),
                ),
            },
    )
}

impl Dap {
    /// Whether an RP2040 answers once core 0 was selected.
    pub fn try_rp2040_select(&self, log: &[SwdReply], at: usize) -> (r: Step<bool>)
        requires
            at <= log@.len(),
        ensures
            r@ == rp2040_select(log@, at as int, select_core0()),
            r matches Step::Done(_, p) ==> at <= p <= log@.len(),
    {
        find_rp2040(log, at, self.rp2040_select_sequence())
    }

    /// Looks for a target at the SWCLK in force.
    pub fn find_target(&self, log: &[SwdReply]) -> (r: Step<Answer>)
        ensures
            r@ == presence(log@),
            r matches Step::Done(_, p) ==> p <= log@.len(),
    {
        match read_dpidr_val(log, 0, self.swd_wakeup()) {
            Step::Need(t) => Step::Need(t),
            Step::Done(Some(v), a) => {
                let answer = if v == RP2040_DPIDR {
                    Answer::Rp2040
                } else {
                    Answer::Single
                };
                Step::Done(answer, a)
            },
            Step::Done(None, a) => match self.try_rp2040_select(log, a) {
                Step::Need(t) => Step::Need(t),
                Step::Done(true, b) => Step::Done(Answer::Rp2040, b),
                Step::Done(false, b) => Step::Done(Answer::Silent, b),
            },
        }
    }
}

/// The procedure takes at most `k` replies from `at` on, and asks for no more.
pub open spec fn within<T>(s: StepView<T>, log: Seq<SwdReply>, at: int, k: int) -> bool {
    match s {
        StepView::Need(_) => log.len() < at + k,
        StepView::Done(_, p) => at <= p <= at + k && p <= log.len(),
    }
}

proof fn dpidr_ends(log: Seq<SwdReply>, at: int, prelude: Seq<RawBits>)
    requires
        0 <= at <= log.len(),
    ensures
        within(dpidr(log, at, prelude), log, at, 12),
{
    until_counts(log, at, DPIDR_TRIES as int, okay());
}

proof fn select_ends(log: Seq<SwdReply>, at: int, prelude: Seq<RawBits>)
    requires
        0 <= at <= log.len(),
    ensures
        within(rp2040_select(log, at, prelude), log, at, 9),
{
    until_counts(log, at, SELECT_TRIES as int, rp2040_answers());
}

pub proof fn powerup_ends(log: Seq<SwdReply>, at: int)
    requires
        0 <= at <= log.len(),
    ensures
        within(powerup(log, at), log, at, 23),
{
    if at + 3 <= log.len() {
        until_counts(log, at + 3, POWER_POLLS as int, powered());
    }
}

pub proof fn mem32_ends(log: Seq<SwdReply>, at: int, addr: u32)
    requires
        0 <= at <= log.len(),
    ensures
        within(mem32(log, at, addr), log, at, 4),
{
    until_counts(log, at, 4, failed());
}

proof fn stable32_ends(
    log: Seq<SwdReply>,
    at: int,
    addr: u32,
    allow_zero: bool,
    tries: nat,
    prev: Option<u32>,
)
    requires
        0 <= at <= log.len(),
    ensures
        within(stable32(log, at, addr, allow_zero, tries, prev), log, at, 4 * tries as int),
    decreases tries,
{
    if tries > 0 {
        mem32_ends(log, at, addr);
        let left = (tries - 1) as nat;
        match mem32(log, at, addr) {
            StepView::Need(t) => {},
            StepView::Done(None, p) => {
                stable32_ends(log, p, addr, allow_zero, left, prev);
            },
            StepView::Done(Some(v), p) => {
                stable32_ends(log, p, addr, allow_zero, left, prev);
                stable32_ends(log, p, addr, allow_zero, left, Some(v));
            },
        }
    }
}

proof fn stable_ends(log: Seq<SwdReply>, at: int, addr: u32, allow_zero: bool)
    requires
        0 <= at <= log.len(),
    ensures
        within(stable(log, at, addr, allow_zero), log, at, 20),
{
    stable32_ends(log, at, addr, allow_zero, STABLE_TRIES as nat, None);
}

proof fn designer_ends(log: Seq<SwdReply>, at: int)
    requires
        0 <= at <= log.len(),
    ensures
        within(rom_designer(log, at), log, at, 60),
{
    stable_ends(log, at, ROM_PIDR1, true);
    if let StepView::Done(_, a) = stable(log, at, ROM_PIDR1, true) {
        stable_ends(log, a, ROM_PIDR2, true);
        if let StepView::Done(_, b) = stable(log, a, ROM_PIDR2, true) {
            stable_ends(log, b, ROM_PIDR4, true);
        }
    }
}

proof fn st_part_ends(log: Seq<SwdReply>, at: int)
    requires
        0 <= at <= log.len(),
    ensures
        within(st_part(log, at), log, at, 40),
{
    stable_ends(log, at, DBGMCU_IDCODE, false);
    if let StepView::Done(Some(v), p) = stable(log, at, DBGMCU_IDCODE, false) {
        let reg = protection_register((v % 0x1000) as u16);
        stable_ends(log, p, option_address(reg), true);
    }
}

proof fn identity_ends(log: Seq<SwdReply>, at: int)
    requires
        0 <= at <= log.len(),
    ensures
        within(identity(log, at), log, at, 120),
{
    stable_ends(log, at, CPUID, false);
    if let StepView::Done(_, a) = cpuid_part(log, at) {
        designer_ends(log, a);
        if let StepView::Done(_, b) = rom_designer(log, a) {
            st_part_ends(log, b);
            stable_ends(log, b, NORDIC_FICR_PART, false);
        }
    }
}

/// Detection comes to an end: after at most 155 transfers, whatever they bring.
pub proof fn detection_ends(rp2040: bool, log: Seq<SwdReply>)
    ensures
        within(detection(rp2040, log), log, 0, 155),
{
    let prelude = wakeup() + select_core0();
    select_ends(log, 0, prelude);
    if let StepView::Done(_, a) = rp2040_select(log, 0, prelude) {
        powerup_ends(log, a);
        if let StepView::Done(_, b) = powerup(log, a) {
            stable_ends(log, b, CPUID, false);
        }
    }
    dpidr_ends(log, 0, wakeup());
    if let StepView::Done(_, a) = dpidr(log, 0, wakeup()) {
        powerup_ends(log, a);
        if let StepView::Done(_, b) = powerup(log, a) {
            identity_ends(log, b);
        }
    }
}

/// Looking for a target at one SWCLK comes to an end: after at most 21 transfers.
pub proof fn presence_ends(log: Seq<SwdReply>)
    ensures
        within(presence(log), log, 0, 21),
{
    dpidr_ends(log, 0, wakeup());
    if let StepView::Done(_, a) = dpidr(log, 0, wakeup()) {
        select_ends(log, a, select_core0());
    }
}

/// A target that answers on its own is never sent a TARGETSEL packet: every transfer before
/// the twelfth failure of DPIDR is a read of DPIDR, and only the first has raw bits before
/// it, those of the wake-up.
pub proof fn single_drop_targets_are_not_selected(log: Seq<SwdReply>)
    requires
        log.len() < DPIDR_TRIES,
    ensures
        match presence(log) {
            StepView::Need(t) => {
                &&& t.request == DP_DPIDR_RD
                &&& t.prelude == if log.len() == 0 {
                    wakeup()
                } else {
                    Seq::empty()
                }
            },
            StepView::Done(answer, p) => answer !is Silent && exists|i: int|
                0 <= i < log.len() && (#[trigger] log[i]).ack is Okay,
        },
{
    until_counts(log, 0, DPIDR_TRIES as int, okay());
    let k = until(log, 0, DPIDR_TRIES as int, okay());
    if k < log.len() {
        assert(okay()(log[k]));
    }
}

proof fn stable32_was_read(
    log: Seq<SwdReply>,
    at: int,
    addr: u32,
    allow_zero: bool,
    tries: nat,
    prev: Option<u32>,
)
    requires
        0 <= at <= log.len(),
    ensures
        stable32(log, at, addr, allow_zero, tries, prev) matches StepView::Done(Some(v), p) ==> {
            &&& !is_bad(v, allow_zero)
            &&& at < p <= log.len()
            &&& log[p - 1].val == v
            &&& log[p - 1].ack is Okay
            &&& prev != Some(v) ==> exists|i: int|
                at <= i < p - 1 && #[trigger] log[i].val == v && log[i].ack is Okay
        },
    decreases tries,
{
    if tries > 0 {
        mem32_ends(log, at, addr);
        until_counts(log, at, 4, failed());
        let left = (tries - 1) as nat;
        match mem32(log, at, addr) {
            StepView::Need(t) => {},
            StepView::Done(None, p) => {
                stable32_was_read(log, p, addr, allow_zero, left, prev);
            },
            StepView::Done(Some(v), p) => {
                assert(!failed()(log[at + 3]));
                stable32_was_read(log, p, addr, allow_zero, left, prev);
                stable32_was_read(log, p, addr, allow_zero, left, Some(v));
            },
        }
    }
}

/// A value of the target's memory is believed only where two successful transfers brought
/// it, and never where a bad line would have produced it.
pub proof fn believed_values_were_read_twice(
    log: Seq<SwdReply>,
    at: int,
    addr: u32,
    allow_zero: bool,
)
    requires
        0 <= at <= log.len(),
    ensures
        stable(log, at, addr, allow_zero) matches StepView::Done(Some(v), p) ==> {
            &&& !is_bad(v, allow_zero)
            &&& exists|i: int, j: int|
                at <= i < j < p && #[trigger] log[i].val == v && #[trigger] log[j].val == v
                    && log[i].ack is Okay && log[j].ack is Okay
        },
{
    stable32_was_read(log, at, addr, allow_zero, STABLE_TRIES as nat, None);
    if let StepView::Done(Some(v), p) = stable(log, at, addr, allow_zero) {
        let i = choose|i: int| at <= i < p - 1 && #[trigger] log[i].val == v && log[i].ack is Okay;
        assert(log[i].val == v && log[p - 1].val == v);
    }
}

/// Something is known of every target that is reported, and its device identifier has no
/// more than twelve bits.
pub proof fn reported_targets_are_not_blank(rp2040: bool, log: Seq<SwdReply>)
    ensures
        detection(rp2040, log) matches StepView::Done(Some(info), _) ==> {
            &&& info.devid != 0 || info.part != 0 || info.core != 0
            &&& info.devid < 0x1000
            &&& info.designer < 0x800
            &&& info.core < 0x1000
        },
{
}

/// The replies from `a` up to `b` are there, and all of them are successes.
pub open spec fn all_succeed(log: Seq<SwdReply>, a: int, b: int) -> bool {
    &&& 0 <= a <= b <= log.len()
    &&& forall|j: int| a <= j < b ==> (#[trigger] log[j]).ack is Okay
}

/// A transfer that may be repeated, with nothing before it.
pub open spec fn repeatable(request: u8, wdata: u32) -> Transfer {
    Transfer { prelude: Seq::empty(), request, wdata, retry: true }
}

/// A word of the target's memory is read with four transfers: access width, address, the
/// read itself, and RDBUFF, which brings the word. The first that fails ends it.
pub proof fn memory_is_read_in_four_transfers(log: Seq<SwdReply>, at: int, addr: u32, k: int)
    requires
        0 <= k <= 4,
        all_succeed(log, at, at + k),
    ensures
        k == 4 ==> mem32(log, at, addr) == StepView::Done(Some(log[at + 3].val), at + 4),
        k < 4 && log.len() > at + k && !(log[at + k].ack is Okay) ==> mem32(log, at, addr)
            == StepView::<Option<u32>>::Done(None, at + k + 1),
        k < 4 && log.len() == at + k ==> mem32(log, at, addr) == StepView::<Option<u32>>::Need(
            if k == 0 {
                repeatable(0x01, 0x2300_0052)
            } else if k == 1 {
                repeatable(0x05, addr)
            } else if k == 2 {
                repeatable(0x0F, 0)
            } else {
                repeatable(0x0E, 0)
            },
        ),
{
    if k == 4 || log.len() == at + k {
        until_is(log, at, 4, failed(), k);
    } else if !(log[at + k].ack is Okay) {
        assert(failed()(log[at + k]));
        until_is(log, at, 4, failed(), k);
    }
}

/// Two reads of a word brought the value `v`, from reply `at` on.
pub open spec fn read_twice(log: Seq<SwdReply>, at: int, v: u32) -> bool {
    all_succeed(log, at, at + 8) && log[at + 3].val == v && log[at + 7].val == v
}

/// A value that can be believed: never all ones, and zero only where zero is allowed.
pub open spec fn credible(v: u32, allow_zero: bool) -> bool {
    v != 0xFFFF_FFFF && (v != 0 || allow_zero)
}

/// A word is believed once two reads in a row bring the same credible value, with a first
/// reading that differs, is not credible or fails not counted; five reads that never agree
/// leave it unknown.
pub proof fn agreeing_reads_are_believed(
    log: Seq<SwdReply>,
    at: int,
    addr: u32,
    allow_zero: bool,
    v: u32,
)
    ensures
        read_twice(log, at, v) && credible(v, allow_zero) ==> stable(log, at, addr, allow_zero)
            == StepView::Done(Some(v), at + 8),
        all_succeed(log, at, at + 4) && log[at + 3].val != v && read_twice(log, at + 4, v)
            && credible(v, allow_zero) ==> stable(log, at, addr, allow_zero) == StepView::Done(
            Some(v),
            at + 12,
        ),
        0 <= at < log.len() && !(log[at].ack is Okay) && read_twice(log, at + 1, v) && credible(
            v,
            allow_zero,
        ) ==> stable(log, at, addr, allow_zero) == StepView::Done(Some(v), at + 9),
        all_succeed(log, at, at + 20) && log[at + 3].val != log[at + 7].val && log[at + 7].val
            != log[at + 11].val && log[at + 11].val != log[at + 15].val && log[at + 15].val
            != log[at + 19].val && credible(log[at + 3].val, allow_zero) && credible(
            log[at + 7].val,
            allow_zero,
        ) && credible(log[at + 11].val, allow_zero) && credible(log[at + 15].val, allow_zero)
            && credible(log[at + 19].val, allow_zero) ==> stable(log, at, addr, allow_zero)
            == StepView::<Option<u32>>::Done(None, at + 20),
        all_succeed(log, at, at + 20) && !credible(log[at + 3].val, allow_zero) && !credible(
            log[at + 7].val,
            allow_zero,
        ) && !credible(log[at + 11].val, allow_zero) && !credible(log[at + 15].val, allow_zero)
            && !credible(log[at + 19].val, allow_zero) ==> stable(log, at, addr, allow_zero)
            == StepView::<Option<u32>>::Done(None, at + 20),
{
    reveal_with_fuel(stable32, 6);
    if all_succeed(log, at, at + 4) {
        memory_is_read_in_four_transfers(log, at, addr, 4);
    }
    if all_succeed(log, at, at + 8) {
        memory_is_read_in_four_transfers(log, at + 4, addr, 4);
    }
    if read_twice(log, at + 4, v) {
        memory_is_read_in_four_transfers(log, at + 4, addr, 4);
        memory_is_read_in_four_transfers(log, at + 8, addr, 4);
    }
    if 0 <= at < log.len() && !(log[at].ack is Okay) {
        memory_is_read_in_four_transfers(log, at, addr, 0);
        if read_twice(log, at + 1, v) {
            memory_is_read_in_four_transfers(log, at + 1, addr, 4);
            memory_is_read_in_four_transfers(log, at + 5, addr, 4);
        }
    }
    if all_succeed(log, at, at + 20) {
        memory_is_read_in_four_transfers(log, at + 8, addr, 4);
        memory_is_read_in_four_transfers(log, at + 12, addr, 4);
        memory_is_read_in_four_transfers(log, at + 16, addr, 4);
    }
}

/// While a word is being read for the first or the second time, its address is what is
/// asked for.
pub proof fn words_are_asked_for_by_address(
    log: Seq<SwdReply>,
    at: int,
    addr: u32,
    allow_zero: bool,
    n: int,
)
    requires
        n == 0 || n == 1,
        log.len() == at + 4 * n + 1,
        all_succeed(log, at, log.len() as int),
    ensures
        stable(log, at, addr, allow_zero) == StepView::<Option<u32>>::Need(repeatable(0x05, addr)),
{
    reveal_with_fuel(stable32, 3);
    if n == 1 {
        memory_is_read_in_four_transfers(log, at, addr, 4);
    }
    memory_is_read_in_four_transfers(log, at + 4 * n, addr, 1);
}

/// The code of a designer is put together from three registers: the identity's low half in
/// bits 7 to 4 of the first, its high half in bits 2 to 0 of the second, the number of
/// continuations in bits 3 to 0 of the third. Their other bits do not matter.
pub proof fn designers_are_put_together(p1: u32, p2: u32, p4: u32, cc: int, id: int)
    requires
        0 <= cc < 16,
        0 <= id < 128,
        (p1 / 16) % 16 == id % 16,
        p2 % 8 == id / 16,
        p4 % 16 == cc,
    ensures
        jep106(p1, p2, p4) == 128 * cc + id,
{
}

/// The registers of a designer, read twice each, tell its code.
pub proof fn designers_are_read_from_the_rom_table(
    log: Seq<SwdReply>,
    at: int,
    p1: u32,
    p2: u32,
    p4: u32,
    cc: int,
    id: int,
)
    requires
        read_twice(log, at, p1) && credible(p1, true),
        read_twice(log, at + 8, p2) && credible(p2, true),
        read_twice(log, at + 16, p4) && credible(p4, true),
        0 <= cc < 16,
        0 <= id < 128,
        (p1 / 16) % 16 == id % 16,
        p2 % 8 == id / 16,
        p4 % 16 == cc,
    ensures
        rom_designer(log, at) == StepView::Done((128 * cc + id) as u16, at + 24),
{
    agreeing_reads_are_believed(log, at, 0xE00F_FFE4, true, p1);
    agreeing_reads_are_believed(log, at + 8, 0xE00F_FFE8, true, p2);
    agreeing_reads_are_believed(log, at + 16, 0xE00F_FFD0, true, p4);
    designers_are_put_together(p1, p2, p4, cc, id);
}

/// The level that a byte of protection stands for: 0xAA is open, 0xCC locked for good, and
/// each of the others level 1.
pub open spec fn tells(level: RdpLevel, byte: int) -> bool {
    &&& level is Open <==> byte == 0xAA
    &&& level is Level2 <==> byte == 0xCC
    &&& level is Level1 <==> byte != 0xAA && byte != 0xCC
}

/// The read protection is the one in the option register of the device's family, read twice:
/// the byte in bits 15 to 8 of OPTCR, the byte in bits 7 to 0 of OPTR, or bit 1 of OBR.
/// Of another family it is not known, and nothing is read.
pub proof fn protection_is_in_the_option_register(log: Seq<SwdReply>, at: int, d: u16, v: u32)
    requires
        0 <= at <= log.len(),
        protection_register(d) !is Unknown ==> read_twice(log, at, v) && credible(v, true),
    ensures
        match protection_register(d) {
            RdpReg::Optcr => protection(log, at, d) matches StepView::Done(level, p) && p == at + 8
                && tells(level, (v as int / 256) % 256),
            RdpReg::Optr => protection(log, at, d) matches StepView::Done(level, p) && p == at + 8
                && tells(level, v as int % 256),
            RdpReg::Obr => protection(log, at, d) matches StepView::Done(level, p) && p == at + 8
                && (level is Level1 <==> (v / 2) % 2 == 1) && (level is Open <==> (v / 2) % 2 == 0),
            RdpReg::Unknown => protection(log, at, d) == StepView::Done(RdpLevel::Unknown, at),
        },
{
    if protection_register(d) !is Unknown {
        agreeing_reads_are_believed(log, at, option_address(protection_register(d)), true, v);
    }
}

/// Each family's option register is read at its own address.
pub proof fn option_registers_are_asked_for(log: Seq<SwdReply>, at: int, d: u16)
    requires
        log.len() == at + 1,
        all_succeed(log, at, at + 1),
        protection_register(d) !is Unknown,
    ensures
        protection(log, at, d) == StepView::<RdpLevel>::Need(
            repeatable(
                0x05,
                match protection_register(d) {
                    RdpReg::Optcr => 0x4002_3C14,
                    RdpReg::Obr => 0x4002_201C,
                    _ => 0x4002_2020,
                },
            ),
        ),
{
    words_are_asked_for_by_address(log, at, option_address(protection_register(d)), true, 0);
}

/// A protection that cannot be read is not known.
pub proof fn unread_protection_is_unknown(log: Seq<SwdReply>, at: int, d: u16)
    requires
        all_succeed(log, at, at + 20),
        forall|k: int| 0 <= k < 5 ==> #[trigger] log[at + 4 * k + 3].val == 0xFFFF_FFFF,
        protection_register(d) !is Unknown,
    ensures
        protection(log, at, d) == StepView::Done(RdpLevel::Unknown, at + 20),
{
    assert(log[at + 4 * 0 + 3].val == 0xFFFF_FFFF);
    assert(log[at + 4 * 1 + 3].val == 0xFFFF_FFFF);
    assert(log[at + 4 * 2 + 3].val == 0xFFFF_FFFF);
    assert(log[at + 4 * 3 + 3].val == 0xFFFF_FFFF);
    assert(log[at + 4 * 4 + 3].val == 0xFFFF_FFFF);
    agreeing_reads_are_believed(log, at, option_address(protection_register(d)), true, 0);
}

/// Core, designer and part of a target, as its registers tell them.
///
/// The core is in bits 15 to 4 of CPUID. An ST part, or one of nobody known, has its device
/// identifier in bits 11 to 0 of DBGMCU_IDCODE and the protection in the register of its
/// family; a Nordic part has a part number; of any other only designer and core are known.
pub proof fn targets_are_what_their_registers_tell(
    log: Seq<SwdReply>,
    at: int,
    cpuid: u32,
    p1: u32,
    p2: u32,
    p4: u32,
    cc: int,
    id: int,
    word: u32,
)
    requires
        read_twice(log, at, cpuid) && credible(cpuid, false),
        read_twice(log, at + 8, p1) && credible(p1, true),
        read_twice(log, at + 16, p2) && credible(p2, true),
        read_twice(log, at + 24, p4) && credible(p4, true),
        0 <= cc < 16,
        0 <= id < 128,
        (p1 / 16) % 16 == id % 16,
        p2 % 8 == id / 16,
        p4 % 16 == cc,
    ensures
        ({
            let designer = (128 * cc + id) as u16;
            let core = ((cpuid / 16) % 4096) as u16;
            let st = designer == 0x020 || designer == 0;
            let d = (word % 4096) as u16;
            &&& st && read_twice(log, at + 32, word) && credible(word, false) && d != 0 && d
                != 0xFFF ==> identity(log, at) == match protection(log, at + 40, d) {
                StepView::Need(t) => StepView::Need(t),
                StepView::Done(rdp, p) => StepView::Done(
                    Some(TargetInfo { designer, devid: d, part: 0, rdp, core }),
                    p,
                ),
            }
            &&& st && core != 0 && read_twice(log, at + 32, word) && credible(word, false) && (d
                == 0 || d == 0xFFF) ==> identity(log, at) == StepView::Done(
                Some(TargetInfo { designer, devid: 0, part: 0, rdp: RdpLevel::Unknown, core }),
                at + 40,
            )
            &&& designer == 0x244 && read_twice(log, at + 32, word) && credible(word, false)
                ==> identity(log, at) == StepView::Done(
                Some(TargetInfo { designer, devid: 0, part: word, rdp: RdpLevel::Unknown, core }),
                at + 40,
            )
            &&& !st && designer != 0x244 && core != 0 ==> identity(log, at) == StepView::Done(
                Some(TargetInfo { designer, devid: 0, part: 0, rdp: RdpLevel::Unknown, core }),
                at + 32,
            )
            &&& !st && designer != 0x244 && core == 0 ==> identity(log, at) == StepView::<
                Option<TargetInfo>,
            >::Done(None, at + 32)
        }),
{
    agreeing_reads_are_believed(log, at, 0xE000_ED00, false, cpuid);
    designers_are_read_from_the_rom_table(log, at + 8, p1, p2, p4, cc, id);
    agreeing_reads_are_believed(log, at + 32, 0xE004_2000, false, word);
    agreeing_reads_are_believed(log, at + 32, 0x1000_0100, false, word);
}

/// The registers are asked for in order and at their addresses: CPUID, then three of the ROM
/// table, then the one that the designer's parts have.
pub proof fn targets_are_asked_for_their_registers(
    log: Seq<SwdReply>,
    at: int,
    cpuid: u32,
    p1: u32,
    p2: u32,
    p4: u32,
    cc: int,
    id: int,
)
    requires
        0 <= at,
        0 <= cc < 16,
        0 <= id < 128,
        (p1 / 16) % 16 == id % 16,
        p2 % 8 == id / 16,
        p4 % 16 == cc,
        log.len() > at,
        log.last().ack is Okay,
        credible(cpuid, false) && credible(p1, true) && credible(p2, true) && credible(p4, true),
        log.len() > at + 8 ==> read_twice(log, at, cpuid),
        log.len() > at + 16 ==> read_twice(log, at + 8, p1),
        log.len() > at + 24 ==> read_twice(log, at + 16, p2),
        log.len() > at + 32 ==> read_twice(log, at + 24, p4),
    ensures
        log.len() == at + 1 ==> identity(log, at) == StepView::<Option<TargetInfo>>::Need(
            repeatable(0x05, 0xE000_ED00),
        ),
        log.len() == at + 9 ==> identity(log, at) == StepView::<Option<TargetInfo>>::Need(
            repeatable(0x05, 0xE00F_FFE4),
        ),
        log.len() == at + 17 ==> identity(log, at) == StepView::<Option<TargetInfo>>::Need(
            repeatable(0x05, 0xE00F_FFE8),
        ),
        log.len() == at + 25 ==> identity(log, at) == StepView::<Option<TargetInfo>>::Need(
            repeatable(0x05, 0xE00F_FFD0),
        ),
        log.len() == at + 33 && (128 * cc + id == 0x020 || 128 * cc + id == 0) ==> identity(
            log,
            at,
        ) == StepView::<Option<TargetInfo>>::Need(repeatable(0x05, 0xE004_2000)),
        log.len() == at + 33 && 128 * cc + id == 0x244 ==> identity(log, at) == StepView::<
            Option<TargetInfo>,
        >::Need(repeatable(0x05, 0x1000_0100)),
{
    let n = log.len() as int;
    if n == at + 1 {
        words_are_asked_for_by_address(log, at, 0xE000_ED00, false, 0);
    }
    if n > at + 8 {
        agreeing_reads_are_believed(log, at, 0xE000_ED00, false, cpuid);
    }
    if n == at + 9 {
        words_are_asked_for_by_address(log, at + 8, 0xE00F_FFE4, true, 0);
    }
    if n > at + 16 {
        agreeing_reads_are_believed(log, at + 8, 0xE00F_FFE4, true, p1);
    }
    if n == at + 17 {
        words_are_asked_for_by_address(log, at + 16, 0xE00F_FFE8, true, 0);
    }
    if n > at + 24 {
        agreeing_reads_are_believed(log, at + 16, 0xE00F_FFE8, true, p2);
    }
    if n == at + 25 {
        words_are_asked_for_by_address(log, at + 24, 0xE00F_FFD0, true, 0);
    }
    if n == at + 33 {
        designers_are_read_from_the_rom_table(log, at + 8, p1, p2, p4, cc, id);
        words_are_asked_for_by_address(log, at + 32, 0xE004_2000, false, 0);
        words_are_asked_for_by_address(log, at + 32, 0x1000_0100, false, 0);
    }
}

/// A core that cannot be read is 0, and so is a designer whose registers cannot.
pub proof fn unread_registers_are_zero(log: Seq<SwdReply>, at: int)
    requires
        all_succeed(log, at, at + 20),
        forall|k: int| 0 <= k < 5 ==> #[trigger] log[at + 4 * k + 3].val == 0xFFFF_FFFF,
    ensures
        cpuid_part(log, at) == StepView::Done(0u16, at + 20),
        rom_designer(log, at) matches StepView::Done(d, _) ==> d == 0,
{
    assert(log[at + 4 * 0 + 3].val == 0xFFFF_FFFF);
    assert(log[at + 4 * 1 + 3].val == 0xFFFF_FFFF);
    assert(log[at + 4 * 2 + 3].val == 0xFFFF_FFFF);
    assert(log[at + 4 * 3 + 3].val == 0xFFFF_FFFF);
    assert(log[at + 4 * 4 + 3].val == 0xFFFF_FFFF);
    agreeing_reads_are_believed(log, at, 0xE000_ED00, false, 0);
    agreeing_reads_are_believed(log, at, 0xE00F_FFE4, true, 0);
}

/// DPIDR is the value of the first read that succeeds, of twelve; after twelve failures
/// there is none. Until then it is read again, the raw bits before the first time alone.
pub proof fn dpidr_is_the_first_answer(
    log: Seq<SwdReply>,
    at: int,
    prelude: Seq<RawBits>,
    k: int,
)
    requires
        0 <= at,
        0 <= k <= 12,
        at + k <= log.len(),
        forall|j: int| at <= j < at + k ==> !((#[trigger] log[j]).ack is Okay),
    ensures
        k == 12 ==> dpidr(log, at, prelude) == StepView::<Option<u32>>::Done(None, at + 12),
        k < 12 && at + k < log.len() && log[at + k].ack is Okay ==> dpidr(log, at, prelude)
            == StepView::Done(Some(log[at + k].val), at + k + 1),
        k < 12 && at + k == log.len() ==> dpidr(log, at, prelude) == StepView::<
            Option<u32>,
        >::Need(
            Transfer {
                prelude: if k == 0 {
                    prelude
                } else {
                    Seq::empty()
                },
                request: 0x02,
                wdata: 0,
                retry: false,
            },
        ),
{
    if k == 12 || at + k == log.len() {
        until_is(log, at, 12, okay(), k);
    } else if log[at + k].ack is Okay {
        assert(okay()(log[at + k]));
        until_is(log, at, 12, okay(), k);
    }
}

/// An RP2040 is there where one of eight reads of DPIDR brings its value, and the sticky
/// flags are then cleared; after eight others it is not.
pub proof fn rp2040_is_told_by_its_dpidr(
    log: Seq<SwdReply>,
    at: int,
    prelude: Seq<RawBits>,
    k: int,
)
    requires
        0 <= at,
        0 <= k <= 8,
        at + k <= log.len(),
        forall|j: int|
            at <= j < at + k ==> !((#[trigger] log[j]).ack is Okay) || log[j].val != 0x0BC1_2477,
    ensures
        k == 8 ==> rp2040_select(log, at, prelude) == StepView::Done(false, at + 8),
        k < 8 && at + k == log.len() ==> rp2040_select(log, at, prelude) == StepView::<
            bool,
        >::Need(
            Transfer {
                prelude: if k == 0 {
                    prelude
                } else {
                    Seq::empty()
                },
                request: 0x02,
                wdata: 0,
                retry: false,
            },
        ),
        k < 8 && at + k < log.len() && log[at + k].ack is Okay && log[at + k].val == 0x0BC1_2477
            ==> rp2040_select(log, at, prelude) == if log.len() == at + k + 1 {
            StepView::Need(
                Transfer { prelude: Seq::empty(), request: 0x00, wdata: 0x1E, retry: false },
            )
        } else {
            StepView::Done(true, at + k + 2)
        },
{
    if k == 8 || at + k == log.len() {
        until_is(log, at, 8, rp2040_answers(), k);
    } else if log[at + k].ack is Okay && log[at + k].val == 0x0BC1_2477 {
        assert(rp2040_answers()(log[at + k]));
        until_is(log, at, 8, rp2040_answers(), k);
    }
}

/// Power is there where both acknowledgements are set, whatever the other bits.
pub proof fn power_takes_both_acknowledgements(v: u32)
    ensures
        has_power(v) <==> v & 0xA000_0000 == 0xA000_0000,
{
    assert((v & 0xA000_0000 == 0xA000_0000) <==> (v / 0x8000_0000 == 1 && (v / 0x2000_0000) % 2
        == 1)) by (bit_vector);
}

/// Power is requested after the sticky flags were cleared and bank 0 was selected, and looked
/// for in CTRL/STAT up to twenty times; it is there with the first answer that has both
/// acknowledgements.
pub proof fn power_is_requested_and_awaited(log: Seq<SwdReply>, at: int, k: int)
    requires
        0 <= at <= log.len(),
        0 <= k <= 20,
        log.len() < at + 3 || at + 3 + k <= log.len(),
        forall|j: int|
            at + 3 <= j < at + 3 + k && j < log.len() ==> !((#[trigger] log[j]).ack is Okay)
                || log[j].val & 0xA000_0000 != 0xA000_0000,
    ensures
        log.len() == at ==> powerup(log, at) == StepView::<bool>::Need(repeatable(0x00, 0x1E)),
        log.len() == at + 1 ==> powerup(log, at) == StepView::<bool>::Need(repeatable(0x08, 0)),
        log.len() == at + 2 ==> powerup(log, at) == StepView::<bool>::Need(
            repeatable(0x04, 0x5000_0000),
        ),
        log.len() >= at + 3 && k == 20 ==> powerup(log, at) == StepView::Done(false, at + 23),
        log.len() == at + 3 + k && k < 20 ==> powerup(log, at) == StepView::<bool>::Need(
            repeatable(0x06, 0),
        ),
        log.len() > at + 3 + k && k < 20 && log[at + 3 + k].ack is Okay && log[at + 3 + k].val
            & 0xA000_0000 == 0xA000_0000 ==> powerup(log, at) == StepView::Done(true, at + 4 + k),
{
    if log.len() >= at + 3 {
        assert forall|j: int| at + 3 <= j < at + 3 + k implies !powered()(#[trigger] log[j]) by {
            power_takes_both_acknowledgements(log[j].val);
        }
        if k == 20 || log.len() == at + 3 + k {
            until_is(log, at + 3, 20, powered(), k);
        } else if log[at + 3 + k].ack is Okay && log[at + 3 + k].val & 0xA000_0000
            == 0xA000_0000 {
            power_takes_both_acknowledgements(log[at + 3 + k].val);
            assert(powered()(log[at + 3 + k]));
            until_is(log, at + 3, 20, powered(), k);
        }
    }
}

/// A target that answers is identified once it has power, and is not reported without; one
/// that does not answer is not reported. An RP2040 is reported once it was selected, with
/// its core where it has power.
pub proof fn detection_goes_step_by_step(log: Seq<SwdReply>)
    ensures
        detection(false, log) == match dpidr(log, 0, wakeup()) {
            StepView::Need(t) => StepView::Need(t),
            StepView::Done(None, a) => StepView::Done(None, a),
            StepView::Done(Some(_), a) => match powerup(log, a) {
                StepView::Need(t) => StepView::Need(t),
                StepView::Done(true, b) => identity(log, b),
                StepView::Done(false, b) => StepView::Done(None, b),
            },
        },
        detection(true, log) == match rp2040_select(log, 0, wakeup() + select_core0()) {
            StepView::Need(t) => StepView::Need(t),
            StepView::Done(false, a) => StepView::Done(None, a),
            StepView::Done(true, a) => match powerup(log, a) {
                StepView::Need(t) => StepView::Need(t),
                StepView::Done(true, b) => match cpuid_part(log, b) {
                    StepView::Need(t) => StepView::Need(t),
                    StepView::Done(core, c) => StepView::Done(
                        Some(
                            TargetInfo {
                                designer: 0x493,
                                devid: 0xFFE,
                                part: 0,
                                rdp: RdpLevel::Unknown,
                                core,
                            },
                        ),
                        c,
                    ),
                },
                StepView::Done(false, b) => StepView::Done(
                    Some(
                        TargetInfo {
                            designer: 0x493,
                            devid: 0xFFE,
                            part: 0,
                            rdp: RdpLevel::Unknown,
                            core: 0,
                        },
                    ),
                    b,
                ),
            },
        },
{
}

/// The core is in bits 15 to 4 of CPUID.
pub proof fn cores_are_read_from_cpuid(log: Seq<SwdReply>, at: int, cpuid: u32, part: int)
    requires
        read_twice(log, at, cpuid) && credible(cpuid, false),
        0 <= part < 4096,
        (cpuid / 16) % 4096 == part,
    ensures
        cpuid_part(log, at) == StepView::Done(part as u16, at + 8),
{
    agreeing_reads_are_believed(log, at, 0xE000_ED00, false, cpuid);
}

/// How a target answers: as an RP2040 where DPIDR says so, with or without being selected;
/// on its own with any other DPIDR; and not at all after twelve failures and eight more
/// after the selection.
pub proof fn answers_are_told_apart(log: Seq<SwdReply>, k: int)
    requires
        0 <= k <= 12,
        k <= log.len(),
        forall|j: int| 0 <= j < k ==> !((#[trigger] log[j]).ack is Okay),
    ensures
        k < 12 && k < log.len() && log[k].ack is Okay ==> presence(log) == StepView::Done(
            if log[k].val == 0x0BC1_2477 {
                Answer::Rp2040
            } else {
                Answer::Single
            },
            k + 1,
        ),
        k == 12 ==> presence(log) == match rp2040_select(log, 12, select_core0()) {
            StepView::Need(t) => StepView::Need(t),
            StepView::Done(true, p) => StepView::Done(Answer::Rp2040, p),
            StepView::Done(false, p) => StepView::Done(Answer::Silent, p),
        },
{
    dpidr_is_the_first_answer(log, 0, wakeup(), k);
}

} // verus!
