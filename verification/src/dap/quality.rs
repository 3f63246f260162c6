//! How good the link to the target is.
use vstd::prelude::*;

use crate::dap::detect::{
    after_raw, all_succeed, debug_powerup, dpidr, dpidr_is_the_first_answer, mem32, mem32_ends,
    memory_is_read_in_four_transfers, power_is_requested_and_awaited, powerup, powerup_ends,
    read_dpidr_val, read_mem32, repeatable, request_after, within,
};
use crate::dap::reg::{CPUID, DBGMCU_IDCODE};
use crate::dap::script::{chain, Step, StepView};
use crate::dap::swd::{plain, swd_transfer, RawBits, SwdReply, Transfer};
use crate::dap::types::{Ack, LinkQuality, DP_DPIDR_RD};
use crate::dap::wake::{select_core0, wakeup};
use crate::dap::Dap;

verus! {

/// The first value among some readings.
pub open spec fn first_value(s: Seq<Option<u32>>) -> Option<u32>
    decreases s.len(),
{
    if s.len() == 0 {
        None
    } else {
        match first_value(s.drop_last()) {
            Some(v) => Some(v),
            None => s.last(),
        }
    }
}

/// How many readings are `v`.
pub open spec fn agreeing(s: Seq<Option<u32>>, v: u32) -> nat
    decreases s.len(),
{
    if s.len() == 0 {
        0
    } else {
        agreeing(s.drop_last(), v) + if s.last() == Some(v) {
            1nat
        } else {
            0
        }
    }
}

/// How many readings agree with the first that is a value.
pub open spec fn score(s: Seq<Option<u32>>) -> nat {
    match first_value(s) {
        Some(v) => agreeing(s, v),
        None => 0,
    }
}

/// Readings of each kind in a measurement of the link.
pub const QUALITY_READS: usize = 16;

/// A reading of DPIDR; all zeros and all ones do not count.
pub open spec fn dp_reading(r: SwdReply) -> Option<u32> {
    if r.ack is Okay && r.val != 0 && r.val != 0xFFFF_FFFF {
        Some(r.val)
    } else {
        None
    }
}

/// Sixteen readings of DPIDR; `prelude` goes out first.
pub open spec fn dp_readings(log: Seq<SwdReply>, at: int, prelude: Seq<RawBits>) -> StepView<
    Seq<Option<u32>>,
> {
    if log.len() < at + QUALITY_READS {
        StepView::Need(
            if log.len() == at {
                after_raw(prelude, DP_DPIDR_RD, 0)
            } else {
                plain(DP_DPIDR_RD, 0)
            },
        )
    } else {
        StepView::Done(
            Seq::new(QUALITY_READS as nat, |i: int| dp_reading(log[at + i])),
            at + QUALITY_READS,
        )
    }
}

/// A reading through the AP; zero does not count.
pub open spec fn ap_reading(got: Option<u32>) -> Option<u32> {
    if got == Some(0u32) {
        None
    } else {
        got
    }
}

/// `n` readings of a word through the AP.
pub open spec fn ap_readings(log: Seq<SwdReply>, at: int, addr: u32, n: nat) -> StepView<
    Seq<Option<u32>>,
>
    decreases n,
{
    if n == 0 {
        StepView::Done(Seq::empty(), at)
    } else {
        chain(
            ap_readings(log, at, addr, (n - 1) as nat),
            |s: Seq<Option<u32>>, p: int|
                chain(
                    mem32(log, p, addr),
                    |got: Option<u32>, q: int| StepView::Done(s.push(ap_reading(got)), q),
                ),
        )
    }
}

/// The quality of the link: sixteen readings of DPIDR and, where one of them was a value and
/// the target gets power, sixteen through the AP.
pub open spec fn quality(rp2040: bool, log: Seq<SwdReply>) -> StepView<LinkQuality> {
    let prelude = if rp2040 {
        wakeup() + select_core0()
    } else {
        wakeup()
    };
    let addr = if rp2040 {
        CPUID
    } else {
        DBGMCU_IDCODE
    };
    chain(
        dp_readings(log, 0, prelude),
        |dps: Seq<Option<u32>>, a: int|
            {
                let dp = score(dps) as u8;
                if dp == 0 {
                    StepView::Done(LinkQuality { dp: 0, ap: 0 }, a)
                } else {
                    chain(
                        powerup(log, a),
                        |power: bool, b: int|
                            if power {
                                chain(
                                    ap_readings(log, b, addr, QUALITY_READS as nat),
                                    |aps: Seq<Option<u32>>, c: int|
                                        StepView::Done(LinkQuality { dp, ap: score(aps) as u8 }, c),
                                )
                            } else {
                                StepView::Done(LinkQuality { dp, ap: 0 }, b)
                            },
                    )
                }
            },
    )
}

proof fn no_value_no_agreement(s: Seq<Option<u32>>, v: u32)
    requires
        first_value(s) is None,
    ensures
        agreeing(s, v) == 0,
    decreases s.len(),
{
    if s.len() > 0 {
        no_value_no_agreement(s.drop_last(), v);
    }
}

proof fn agreement_is_bounded(s: Seq<Option<u32>>, v: u32)
    ensures
        agreeing(s, v) <= s.len(),
    decreases s.len(),
{
    if s.len() > 0 {
        agreement_is_bounded(s.drop_last(), v);
    }
}

/// Every reading is the value `v`.
pub open spec fn all_are(s: Seq<Option<u32>>, v: u32) -> bool {
    forall|i: int| 0 <= i < s.len() ==> s[i] == Some(v)
}

/// A measurement gives no more points than it has readings, and all of them only where every
/// reading is the same value.
pub proof fn full_score_means_all_agree(s: Seq<Option<u32>>)
    requires
        s.len() > 0,
    ensures
        score(s) <= s.len(),
        score(s) == s.len() <==> exists|v: u32| all_are(s, v),
{
    if first_value(s) is Some {
        let v = first_value(s)->0;
        agreement_is_bounded(s, v);
        agreement_of_all(s, v);
    }
    if exists|v: u32| all_are(s, v) {
        let v = choose|v: u32| all_are(s, v);
        agreement_of_all(s, v);
    }
}

proof fn agreement_of_all(s: Seq<Option<u32>>, v: u32)
    ensures
        agreeing(s, v) == s.len() <==> all_are(s, v),
        s.len() > 0 && agreeing(s, v) == s.len() ==> first_value(s) == Some(v),
    decreases s.len(),
{
    if s.len() > 0 {
        let front = s.drop_last();
        agreement_of_all(front, v);
        agreement_is_bounded(front, v);
        if all_are(s, v) {
            assert forall|i: int| 0 <= i < front.len() implies front[i] == Some(v) by {
                assert(front[i] == s[i]);
            }
            assert(s[s.len() - 1] == Some(v));
        }
        if agreeing(s, v) == s.len() {
            assert forall|i: int| 0 <= i < s.len() implies s[i] == Some(v) by {
                if i < front.len() {
                    assert(front[i] == s[i]);
                }
            }
        }
    }
}

/// The score of readings so far.
struct Tally {
    seen: Ghost<Seq<Option<u32>>>,
    first: Option<u32>,
    points: u8,
}

impl Tally {
    spec fn wf(self) -> bool {
        &&& self.first == first_value(self.seen@)
        &&& self.points == score(self.seen@)
        &&& self.points <= self.seen@.len()
    }

    fn new() -> (r: Self)
        ensures
            r.wf(),
            r.seen@ == Seq::<Option<u32>>::empty(),
    {
        Tally { seen: Ghost(Seq::empty()), first: None, points: 0 }
    }

    /// Adds a reading.
    fn note(&mut self, got: Option<u32>)
        requires
            old(self).wf(),
            old(self).seen@.len() < 255,
        ensures
            final(self).wf(),
            final(self).seen@ == old(self).seen@.push(got),
    {
        let ghost before = self.seen@;
        proof {
            self.seen@ = before.push(got);
            assert(self.seen@.drop_last() =~= before);
            if first_value(before) is None && got is Some {
                no_value_no_agreement(before, got->0);
            }
        }
        if let Some(v) = got {
            match self.first {
                None => {
                    self.first = Some(v);
                    self.points = 1;
                },
                Some(w) => {
                    if v == w {
                        self.points = self.points + 1;
                    }
                },
            }
        }
    }
}

proof fn readings_stay_needed(log: Seq<SwdReply>, at: int, addr: u32, m: nat, n: nat)
    requires
        m <= n,
        ap_readings(log, at, addr, m) is Need,
    ensures
        ap_readings(log, at, addr, n) == ap_readings(log, at, addr, m),
    decreases n,
{
    if m < n {
        readings_stay_needed(log, at, addr, m, (n - 1) as nat);
    }
}

/// Reads a word sixteen times through the AP and counts.
fn ap_score(log: &[SwdReply], at: usize, addr: u32) -> (r: Step<u8>)
    requires
        at <= log@.len(),
    ensures
        match ap_readings(log@, at as int, addr, QUALITY_READS as nat) {
            StepView::Need(t) => r@ == StepView::<u8>::Need(t),
            StepView::Done(s, p) => r@ == StepView::Done(score(s) as u8, p),
        },
        r matches Step::Done(_, p) ==> at <= p <= log@.len(),
{
    let mut tally = Tally::new();
    let mut p: usize = at;
    let mut i: usize = 0;
    while i < QUALITY_READS
        invariant
            i <= QUALITY_READS,
            at <= p <= log@.len(),
            tally.wf(),
            tally.seen@.len() == i,
            ap_readings(log@, at as int, addr, i as nat) == StepView::Done(tally.seen@, p as int),
        decreases QUALITY_READS - i,
    {
        let ghost before = tally.seen@;
        match read_mem32(log, p, addr) {
            Step::Need(t) => {
                proof {
                    assert(ap_readings(log@, at as int, addr, (i + 1) as nat) is Need);
                    readings_stay_needed(
                        log@,
                        at as int,
                        addr,
                        (i + 1) as nat,
                        QUALITY_READS as nat,
                    );
                }
                return Step::Need(t);
            },
            Step::Done(got, next) => {
                let value = match got {
                    Some(0) => None,
                    other => other,
                };
                tally.note(value);
                p = next;
            },
        }
        i = i + 1;
    }
    Step::Done(tally.points, p)
}

impl Dap {
    /// Measures the link with sixteen short transfers and sixteen long ones.
    ///
    /// `dp` tells how good the short ones are. `ap` tells how good those are that flashing
    /// needs; where it stays 0 with `dp` at 16, the target is read-protected rather than
    /// badly wired.
    pub fn link_quality(&self, log: &[SwdReply]) -> (r: Step<LinkQuality>)
        ensures
            r@ == quality(self.rp2040, log@),
            r matches Step::Done(_, p) ==> p <= log@.len(),
    {
        let addr: u32 = if self.rp2040 {
            CPUID
        } else {
            DBGMCU_IDCODE
        };
        let n: usize = log.len();
        if n < QUALITY_READS {
            if n > 0 {
                return Step::Need(swd_transfer(DP_DPIDR_RD, 0));
            }
            let prelude = if self.rp2040 {
                self.wakeup_and_select()
            } else {
                self.swd_wakeup()
            };
            return Step::Need(request_after(prelude, DP_DPIDR_RD));
        }
        let mut tally = Tally::new();
        let ghost all = Seq::new(QUALITY_READS as nat, |i: int| dp_reading(log@[0 + i]));
        let mut i: usize = 0;
        assert(all.subrange(0, 0) =~= Seq::empty());
        while i < QUALITY_READS
            invariant
                i <= QUALITY_READS <= log@.len(),
                all == Seq::new(QUALITY_READS as nat, |i: int| dp_reading(log@[0 + i])),
                tally.wf(),
                tally.seen@ == all.subrange(0, i as int),
            decreases QUALITY_READS - i,
        {
            let reply = log[i];
            let v: u32 = reply.val;
            let value = if reply.ack == Ack::Okay && v != 0 && v != 0xFFFF_FFFF {
                Some(v)
            } else {
                None
            };
            tally.note(value);
            i = i + 1;
            assert(tally.seen@ =~= all.subrange(0, i as int));
        }
        assert(all.subrange(0, i as int) =~= all);
        let dp: u8 = tally.points;
        if dp == 0 {
            return Step::Done(LinkQuality { dp: 0, ap: 0 }, QUALITY_READS);
        }
        let (power, b) = match debug_powerup(log, QUALITY_READS) {
            Step::Need(t) => return Step::Need(t),
            Step::Done(x, p) => (x, p),
        };
        if !power {
            return Step::Done(LinkQuality { dp, ap: 0 }, b);
        }
        match ap_score(log, b, addr) {
            Step::Need(t) => Step::Need(t),
            Step::Done(ap, c) => Step::Done(LinkQuality { dp, ap }, c),
        }
    }

    /// Whether DPIDR can be read.
    pub fn swd_read_dpidr(&self, log: &[SwdReply]) -> (r: Step<bool>)
        ensures
            r@ == chain(
                dpidr(log@, 0, Seq::empty()),
                |got: Option<u32>, p: int| StepView::Done(got is Some, p),
            ),
    {
        let prelude: Vec<RawBits> = Vec::new();
        assert(prelude@ =~= Seq::empty());
        match read_dpidr_val(log, 0, prelude) {
            Step::Need(t) => Step::Need(t),
            Step::Done(got, p) => Step::Done(got.is_some(), p),
        }
    }
}

proof fn ap_readings_end(log: Seq<SwdReply>, at: int, addr: u32, n: nat)
    requires
        0 <= at <= log.len(),
    ensures
        within(ap_readings(log, at, addr, n), log, at, 4 * n as int),
        ap_readings(log, at, addr, n) matches StepView::Done(s, _) ==> s.len() == n,
    decreases n,
{
    if n > 0 {
        ap_readings_end(log, at, addr, (n - 1) as nat);
        if let StepView::Done(_, p) = ap_readings(log, at, addr, (n - 1) as nat) {
            mem32_ends(log, p, addr);
        }
    }
}

/// A measurement of the link comes to an end, after at most 103 transfers, and gives each
/// score between 0 and 16; without a reading on the DP there is none through the AP.
pub proof fn measurement_ends(rp2040: bool, log: Seq<SwdReply>)
    ensures
        within(quality(rp2040, log), log, 0, 103),
        quality(rp2040, log) matches StepView::Done(q, _) ==> {
            &&& q.dp <= 16
            &&& q.ap <= 16
            &&& q.dp == 0 ==> q.ap == 0
        },
{
    let prelude = if rp2040 {
        wakeup() + select_core0()
    } else {
        wakeup()
    };
    let addr = if rp2040 {
        CPUID
    } else {
        DBGMCU_IDCODE
    };
    if let StepView::Done(dps, a) = dp_readings(log, 0, prelude) {
        full_score_means_all_agree(dps);
        powerup_ends(log, a);
        if let StepView::Done(_, b) = powerup(log, a) {
            ap_readings_end(log, b, addr, QUALITY_READS as nat);
            if let StepView::Done(aps, _) = ap_readings(log, b, addr, QUALITY_READS as nat) {
                full_score_means_all_agree(aps);
            }
        }
    }
}

/// The value that readings are held against is that of the first that has one.
pub proof fn first_values_come_first(s: Seq<Option<u32>>, i: int, v: u32)
    requires
        0 <= i < s.len(),
        s[i] == Some(v),
        forall|j: int| 0 <= j < i ==> #[trigger] s[j] is None,
    ensures
        first_value(s) == Some(v),
    decreases s.len(),
{
    if i < s.len() - 1 {
        first_values_come_first(s.drop_last(), i, v);
    } else {
        nothing_comes_of_nothing(s.drop_last());
    }
}

proof fn nothing_comes_of_nothing(s: Seq<Option<u32>>)
    requires
        forall|j: int| 0 <= j < s.len() ==> #[trigger] s[j] is None,
    ensures
        first_value(s) is None,
    decreases s.len(),
{
    if s.len() > 0 {
        nothing_comes_of_nothing(s.drop_last());
    }
}

/// A score counts: the first value gives a point, each later reading one where it is that
/// value, and none where it is another or none.
pub proof fn scores_count_agreement(s: Seq<Option<u32>>, x: Option<u32>)
    ensures
        score(Seq::empty()) == 0,
        first_value(s) is None ==> score(s.push(x)) == if x is Some {
            1nat
        } else {
            0
        },
        first_value(s) is Some ==> score(s.push(x)) == score(s) + if x == first_value(s) {
            1nat
        } else {
            0
        },
{
    assert(s.push(x).drop_last() =~= s);
    if first_value(s) is None && x is Some {
        no_value_no_agreement(s, x->0);
    }
}

/// A reading of DPIDR counts where the transfer succeeded and it is neither all zeros nor all
/// ones; one through the AP where it is not zero.
pub proof fn blank_readings_do_not_count(r: SwdReply, got: Option<u32>)
    ensures
        dp_reading(r) == if r.ack is Okay && r.val != 0 && r.val != 0xFFFF_FFFF {
            Some(r.val)
        } else {
            None
        },
        ap_reading(got) is None <==> got is None || got == Some(0u32),
        ap_reading(got) is Some ==> ap_reading(got) == got,
{
}

/// The DP score is that of sixteen readings of DPIDR, each the outcome of one transfer;
/// where none counts, the measurement ends with nothing.
pub proof fn dp_scores_sixteen_readings(rp2040: bool, log: Seq<SwdReply>)
    ensures
        ({
            let s = Seq::new(16, |i: int| dp_reading(log[i]));
            &&& log.len() < 16 ==> quality(rp2040, log) == StepView::<LinkQuality>::Need(
                Transfer {
                    prelude: if log.len() > 0 {
                        Seq::empty()
                    } else if rp2040 {
                        wakeup() + select_core0()
                    } else {
                        wakeup()
                    },
                    request: 0x02,
                    wdata: 0,
                    retry: false,
                },
            )
            &&& log.len() >= 16 && score(s) == 0 ==> quality(rp2040, log) == StepView::Done(
                LinkQuality { dp: 0, ap: 0 },
                16,
            )
            &&& quality(rp2040, log) matches StepView::Done(q, _) ==> q.dp == score(s)
        }),
{
    let s = Seq::new(16, |i: int| dp_reading(log[i]));
    if log.len() >= 16 {
        assert(Seq::new(16, |i: int| dp_reading(log[0 + i])) =~= s);
        if first_value(s) is Some {
            agreement_is_bounded(s, first_value(s)->0);
        }
        measurement_ends(rp2040, log);
    }
}

/// `n` readings through the AP are those of `n` words read one after the other.
pub proof fn ap_readings_are_words(log: Seq<SwdReply>, at: int, addr: u32, n: nat, i: int)
    requires
        all_succeed(log, at, at + 4 * n),
        0 <= i < n,
    ensures
        ap_readings(log, at, addr, n) matches StepView::Done(s, p) && p == at + 4 * n && s.len()
            == n && s[i] == (if log[at + 4 * i + 3].val == 0 {
            None
        } else {
            Some(log[at + 4 * i + 3].val)
        }),
    decreases n,
{
    let m = (n - 1) as nat;
    if m > 0 {
        ap_readings_are_words(
            log,
            at,
            addr,
            m,
            if i < m {
                i
            } else {
                0
            },
        );
    } else {
        assert(ap_readings(log, at, addr, m) == StepView::Done(Seq::<Option<u32>>::empty(), at));
    }
    memory_is_read_in_four_transfers(log, at + 4 * m, addr, 4);
    let before = ap_readings(log, at, addr, m)->Done_0;
    assert(before.push(ap_reading(Some(log[at + 4 * m + 3].val))).len() == n);
}

/// A link on which every transfer succeeds and every word is the same gets full marks, the
/// word being that at DBGMCU_IDCODE, or at CPUID for an RP2040; without power it gets none
/// for the AP.
pub proof fn good_links_get_full_marks(rp2040: bool, log: Seq<SwdReply>, dp: u32, ap: u32)
    requires
        log.len() >= 20,
        all_succeed(log, 0, 16),
        forall|i: int| 0 <= i < 16 ==> (#[trigger] log[i]).val == dp,
        dp != 0 && dp != 0xFFFF_FFFF,
    ensures
        log[19].ack is Okay && log[19].val & 0xA000_0000 == 0xA000_0000 && all_succeed(
            log,
            20,
            84,
        ) && ap != 0 && (forall|i: int| 0 <= i < 16 ==> #[trigger] log[20 + 4 * i + 3].val == ap)
            ==> quality(rp2040, log) == StepView::Done(LinkQuality { dp: 16, ap: 16 }, 84),
        log[19].ack is Okay && log[19].val & 0xA000_0000 == 0xA000_0000 && log.len() == 21
            && log[20].ack is Okay ==> quality(rp2040, log) == StepView::<LinkQuality>::Need(
            repeatable(
                0x05,
                if rp2040 {
                    0xE000_ED00
                } else {
                    0xE004_2000
                },
            ),
        ),
        powerup(log, 16) matches StepView::Done(false, b) ==> quality(rp2040, log)
            == StepView::Done(LinkQuality { dp: 16, ap: 0 }, powerup(log, 16)->Done_1),
{
    let s = Seq::new(16, |i: int| dp_reading(log[i]));
    assert(Seq::new(16, |i: int| dp_reading(log[0 + i])) =~= s);
    assert(all_are(s, dp));
    agreement_of_all(s, dp);
    power_is_requested_and_awaited(log, 16, 0);
    let addr: u32 = if rp2040 {
        0xE000_ED00
    } else {
        0xE004_2000
    };
    if log[19].ack is Okay && log[19].val & 0xA000_0000 == 0xA000_0000 {
        if log.len() == 21 && log[20].ack is Okay {
            memory_is_read_in_four_transfers(log, 20, addr, 1);
            first_of_the_readings(log, 20, addr, 16);
        }
        if all_succeed(log, 20, 84) && ap != 0 && (forall|i: int|
            0 <= i < 16 ==> #[trigger] log[20 + 4 * i + 3].val == ap) {
            ap_readings_are_words(log, 20, addr, 16, 0);
            let aps = ap_readings(log, 20, addr, 16)->Done_0;
            assert forall|i: int| 0 <= i < 16 implies aps[i] == Some(ap) by {
                ap_readings_are_words(log, 20, addr, 16, i);
                assert(log[20 + 4 * i + 3].val == ap);
            }
            assert(all_are(aps, ap));
            agreement_of_all(aps, ap);
        }
    }
}

proof fn first_of_the_readings(log: Seq<SwdReply>, at: int, addr: u32, n: nat)
    requires
        n > 0,
        mem32(log, at, addr) is Need,
    ensures
        ap_readings(log, at, addr, n) == StepView::<Seq<Option<u32>>>::Need(
            mem32(log, at, addr)->Need_0,
        ),
    decreases n,
{
    if n > 1 {
        first_of_the_readings(log, at, addr, (n - 1) as nat);
    } else {
        assert(ap_readings(log, at, addr, 0) == StepView::Done(Seq::<Option<u32>>::empty(), at));
    }
}

/// DPIDR can be read where one of twelve reads succeeds.
pub proof fn stimulus_reads_dpidr(log: Seq<SwdReply>)
    ensures
        log.len() > 0 && log[0].ack is Okay ==> dpidr(log, 0, Seq::empty()) == StepView::Done(
            Some(log[0].val),
            1,
        ),
{
    dpidr_is_the_first_answer(log, 0, Seq::empty(), 0);
}

} // verus!
