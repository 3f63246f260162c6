//! The scan of the target while no host uses the port: the wires, the speed at which the
//! target answers, a picture of the two wires, the chip, the quality of the link and a
//! verdict on the wiring.
//!
//! A round is a conversation with the world outside. [`Scanner`] says what to do next and
//! is told what came of it.
use vstd::prelude::*;

use crate::dap::detect::{detection, detection_ends, dpidr, presence, presence_ends, Answer};
use crate::dap::quality::{measurement_ends, quality};
use crate::dap::script::{Step, StepView};
use crate::dap::swd::{SwdReply, SwdRequest, Transfer};
use crate::dap::types::{LinkQuality, TargetInfo};
use crate::dap::wake::wakeup;
use crate::dap::Dap;
use crate::logic::{count_signal, edges, CAP_WORDS, SAMPLES};
use crate::probe::{clock_divider, LineStatus, Probe};
use crate::state::{flat, picture, scrolled, TargetShared, WaveRing, Waves};
use crate::wiring::{classify, verdict_of, WireVerdict};

verus! {

/// Rounds in which a verdict has to come up in a row before it is shown.
pub const VERDICT_DEBOUNCE: u8 = 3;

/// The speeds of SWCLK in kHz, slowest first.
pub const SPEED_STEPS: [u32; 7] = [10, 30, 50, 100, 250, 500, 1000];

/// AP score below which the AP does not stand the speed.
pub const AP_DEMOTE: u32 = 12;

/// Rounds in a row with such a score that lead to a lower speed.
pub const DEMOTE_AFTER: u8 = 2;

/// How long a speed is kept before a higher one is tried again, in microseconds.
pub const REPROBE_US: u64 = 12_000_000;

/// One of the speeds.
pub open spec fn is_step(khz: u32) -> bool {
    khz == 10 || khz == 30 || khz == 50 || khz == 100 || khz == 250 || khz == 500 || khz == 1000
}

/// The next speed above `khz`; the highest where there is none.
pub open spec fn step_above(khz: u32) -> u32 {
    if khz < 10 {
        10
    } else if khz < 30 {
        30
    } else if khz < 50 {
        50
    } else if khz < 100 {
        100
    } else if khz < 250 {
        250
    } else if khz < 500 {
        500
    } else {
        1000
    }
}

/// The next speed below `khz`; `khz` itself where there is none.
pub open spec fn step_below(khz: u32) -> u32 {
    if khz > 1000 {
        1000
    } else if khz > 500 {
        500
    } else if khz > 250 {
        250
    } else if khz > 100 {
        100
    } else if khz > 50 {
        50
    } else if khz > 30 {
        30
    } else if khz > 10 {
        10
    } else {
        khz
    }
}

/// The next speed up.
pub fn step_up(khz: u32) -> (r: u32)
    ensures
        r == step_above(khz),
{
    let mut prev: u32 = khz;
    let mut i: usize = 0;
    while i < 7
        invariant
            i <= 7,
            forall|j: int| 0 <= j < i ==> SPEED_STEPS@[j] <= khz,
            prev == if i == 0 {
                khz
            } else {
                SPEED_STEPS@[i - 1]
            },
        decreases 7 - i,
    {
        let s: u32 = SPEED_STEPS[i];
        if s > khz {
            assert(SPEED_STEPS@[0] == 10 && SPEED_STEPS@[1] == 30 && SPEED_STEPS@[2] == 50
                && SPEED_STEPS@[3] == 100 && SPEED_STEPS@[4] == 250 && SPEED_STEPS@[5] == 500
                && SPEED_STEPS@[6] == 1000);
            return s;
        }
        prev = s;
        i = i + 1;
    }
    assert(SPEED_STEPS@[6] == 1000);
    prev
}

/// The next speed down.
pub fn step_down(khz: u32) -> (r: u32)
    ensures
        r == step_below(khz),
{
    let mut lower: u32 = khz;
    let mut i: usize = 0;
    assert(SPEED_STEPS@[0] == 10 && SPEED_STEPS@[1] == 30 && SPEED_STEPS@[2] == 50 && SPEED_STEPS@[3]
        == 100 && SPEED_STEPS@[4] == 250 && SPEED_STEPS@[5] == 500 && SPEED_STEPS@[6] == 1000);
    while i < 7 && SPEED_STEPS[i] < khz
        invariant
            i <= 7,
            forall|j: int| 0 <= j < i ==> SPEED_STEPS@[j] < khz,
            lower == if i == 0 {
                khz
            } else {
                SPEED_STEPS@[i - 1]
            },
        decreases 7 - i,
    {
        lower = SPEED_STEPS[i];
        i = i + 1;
    }
    lower
}

/// The speeds form a ladder: a step up is higher unless it is at the top, a step down is
/// lower unless it is at the bottom, one undoes the other, and there is none in between.
pub proof fn speeds_form_a_ladder(khz: u32)
    requires
        is_step(khz),
    ensures
        is_step(step_above(khz)) && is_step(step_below(khz)),
        khz < 1000 ==> step_above(khz) > khz && step_below(step_above(khz)) == khz,
        khz > 10 ==> step_below(khz) < khz && step_above(step_below(khz)) == khz,
        khz == 1000 ==> step_above(khz) == khz,
        khz == 10 ==> step_below(khz) == khz,
        forall|s: u32| #![trigger is_step(s)] is_step(s) && s > khz ==> s >= step_above(khz),
        forall|s: u32| #![trigger is_step(s)] is_step(s) && s < khz ==> s <= step_below(khz),
{
}

/// What a scan remembers from round to round.
#[derive(Clone, Copy, PartialEq, Eq, Structural, Debug)]
pub struct ScanState {
    /// The speed in use, in kHz.
    pub cur: u32,
    /// The last speed at which the AP worked.
    pub stable: u32,
    /// Speeds from here on are not tried; none is ruled out where there is no limit.
    pub ceiling: Option<u32>,
    /// The limit was found once; from then on a higher speed is tried only now and then.
    pub settled: bool,
    /// Rounds in a row in which the AP did not stand the speed.
    pub bad: u8,
    /// When a higher speed was last allowed again, in microseconds.
    pub last_probe: Option<u64>,
    /// Rounds in a row without a target.
    pub absent: u32,
    /// The wires in the last round.
    pub prev: Option<LineStatus>,
    /// The verdict of the last round, and how often it came up in a row.
    pub last_raw: WireVerdict,
    pub streak: u8,
    /// The DP score of the last round.
    pub last_dp: u32,
}

impl ScanState {
    /// Every speed is one of the steps.
    pub open spec fn wf(self) -> bool {
        &&& is_step(self.cur)
        &&& is_step(self.stable)
        &&& self.ceiling matches Some(c) ==> is_step(c)
    }

    /// The limit does not rule the speed out.
    pub open spec fn allows(self, khz: u32) -> bool {
        self.ceiling matches Some(c) ==> khz < c
    }

    /// Time has not run backwards.
    pub open spec fn before(self, now: u64) -> bool {
        self.last_probe matches Some(t) ==> t <= now
    }

    /// The lowest speed, no limit yet, nothing seen.
    pub open spec fn initial() -> ScanState {
        ScanState {
            cur: 10,
            stable: 10,
            ceiling: None,
            settled: false,
            bad: 0,
            last_probe: None,
            absent: 0,
            prev: None,
            last_raw: WireVerdict::Unknown,
            streak: 0,
            last_dp: 0,
        }
    }

    /// The state before the first round.
    pub fn new() -> (r: Self)
        ensures
            r.wf(),
            r == ScanState::initial(),
    {
        ScanState {
            cur: 10,
            stable: 10,
            ceiling: None,
            settled: false,
            bad: 0,
            last_probe: None,
            absent: 0,
            prev: None,
            last_raw: WireVerdict::Unknown,
            streak: 0,
            last_dp: 0,
        }
    }

    /// It is time to try a higher speed again.
    pub open spec fn reprobes(self, now: u64) -> bool {
        self.settled && match self.last_probe {
            Some(t) => now - t >= REPROBE_US,
            None => true,
        }
    }

    /// The limit, after it was lifted where it is time to.
    pub open spec fn lifted(self, now: u64) -> ScanState {
        if self.reprobes(now) {
            ScanState { ceiling: None, last_probe: Some(now), ..self }
        } else {
            self
        }
    }

    /// The speed after a round with the AP score `ap`.
    ///
    /// A score that is too low leads to the next lower speed, the second time in a row; the
    /// speed that failed becomes the limit. Any other makes the speed the stable one and
    /// leads to the next higher, as long as it is below the limit and either no limit was
    /// found yet or it was just lifted.
    pub open spec fn with_speed(self, ap: u32, now: u64) -> ScanState {
        let s = self.lifted(now);
        let may_climb = !self.settled || self.reprobes(now);
        if ap < AP_DEMOTE {
            let bad = if s.bad < 255 {
                (s.bad + 1) as u8
            } else {
                255
            };
            if bad >= DEMOTE_AFTER {
                ScanState {
                    ceiling: Some(s.cur),
                    cur: step_below(s.cur),
                    bad: 0,
                    settled: true,
                    ..s
                }
            } else {
                ScanState { bad, ..s }
            }
        } else {
            ScanState {
                bad: 0,
                stable: s.cur,
                cur: if may_climb && s.allows(step_above(s.cur)) {
                    step_above(s.cur)
                } else {
                    s.cur
                },
                ..s
            }
        }
    }

    /// The verdict `raw` came up.
    pub open spec fn with_verdict(self, raw: WireVerdict) -> ScanState {
        if raw == self.last_raw {
            ScanState {
                streak: if self.streak < 255 {
                    (self.streak + 1) as u8
                } else {
                    255
                },
                ..self
            }
        } else {
            ScanState { last_raw: raw, streak: 1, ..self }
        }
    }

    /// Chooses the speed of the next round.
    pub fn choose_speed(&mut self, ap: u32, now: u64)
        requires
            old(self).wf(),
            old(self).before(now),
        ensures
            final(self).wf(),
            final(self).before(now),
            *final(self) == old(self).with_speed(ap, now),
    {
        let reprobe: bool = self.settled && match self.last_probe {
            Some(t) => now - t >= REPROBE_US,
            None => true,
        };
        if reprobe {
            self.ceiling = None;
            self.last_probe = Some(now);
        }
        let may_climb: bool = !self.settled || reprobe;
        if ap < AP_DEMOTE {
            if self.bad < 255 {
                self.bad = self.bad + 1;
            }
            if self.bad >= DEMOTE_AFTER {
                self.ceiling = Some(self.cur);
                self.cur = step_down(self.cur);
                self.bad = 0;
                self.settled = true;
            }
        } else {
            self.bad = 0;
            self.stable = self.cur;
            if may_climb {
                let up: u32 = step_up(self.cur);
                let allowed: bool = match self.ceiling {
                    Some(c) => up < c,
                    None => true,
                };
                if allowed {
                    self.cur = up;
                }
            }
        }
    }

    /// Counts a verdict; says whether it has come up often enough in a row to be shown.
    pub fn note_verdict(&mut self, raw: WireVerdict) -> (r: bool)
        ensures
            *final(self) == old(self).with_verdict(raw),
            r == (final(self).streak >= VERDICT_DEBOUNCE),
    {
        if raw == self.last_raw {
            if self.streak < 255 {
                self.streak = self.streak + 1;
            }
        } else {
            self.last_raw = raw;
            self.streak = 1;
        }
        self.streak >= VERDICT_DEBOUNCE
    }
}

/// Only a speed at which the AP worked becomes the stable one, which is what the host is
/// held to.
pub proof fn stable_speed_was_measured(s: ScanState, ap: u32, now: u64)
    ensures
        ap < AP_DEMOTE ==> s.with_speed(ap, now).stable == s.stable,
        ap >= AP_DEMOTE ==> s.with_speed(ap, now).stable == s.cur,
{
}

/// Once the limit was found, the speed stays put while the AP works and it is not yet time
/// to try a higher one.
pub proof fn settled_speed_stays(s: ScanState, ap: u32, now: u64)
    requires
        s.settled,
        !s.reprobes(now),
        ap >= AP_DEMOTE,
    ensures
        s.with_speed(ap, now).cur == s.cur,
        s.with_speed(ap, now).settled,
{
}

/// A single round with a bad AP does not change the speed; the second in a row does, and the
/// speed that failed is then the limit.
pub proof fn two_bad_rounds_demote(s: ScanState, ap: u32, ap2: u32, now: u64, later: u64)
    requires
        s.wf(),
        s.bad == 0,
        ap < AP_DEMOTE,
        ap2 < AP_DEMOTE,
    ensures
        ({
            let one = s.with_speed(ap, now);
            let two = one.with_speed(ap2, later);
            &&& one.cur == s.cur
            &&& two.cur == step_below(s.cur)
            &&& two.ceiling == Some(s.cur)
            &&& two.settled
        }),
{
}

/// Once the limit was found and it is time to, a good round lifts it and leads to the next
/// higher speed.
pub proof fn lifted_limits_let_the_speed_rise(s: ScanState, ap: u32, now: u64)
    requires
        s.reprobes(now),
        ap >= AP_DEMOTE,
    ensures
        s.with_speed(ap, now).ceiling is None,
        s.with_speed(ap, now).cur == step_above(s.cur),
        s.with_speed(ap, now).last_probe == Some(now),
{
}

/// The state after rounds with the AP scores `aps` at the times `times`.
pub open spec fn after_rounds(s: ScanState, aps: Seq<u32>, times: Seq<u64>) -> ScanState
    decreases aps.len(),
{
    if aps.len() == 0 {
        s
    } else {
        after_rounds(s, aps.drop_last(), times.drop_last()).with_speed(aps.last(), times.last())
    }
}

/// While every round is good, a scan climbs one step a round from the lowest speed, up to
/// the highest: 10, 30, 50, 100, 250, 500 and, after six rounds, 1000 kHz, where it stays.
/// The stable speed follows one round behind.
pub proof fn good_rounds_climb_to_the_top(aps: Seq<u32>, times: Seq<u64>)
    requires
        aps.len() == times.len(),
        forall|i: int| 0 <= i < aps.len() ==> #[trigger] aps[i] >= AP_DEMOTE,
    ensures
        ({
            let s = after_rounds(ScanState::initial(), aps, times);
            let n = aps.len() as int;
            &&& s.cur == SPEED_STEPS@[if n < 6 {
                n
            } else {
                6
            }]
            &&& n > 0 ==> s.stable == SPEED_STEPS@[if n < 7 {
                n - 1
            } else {
                6
            }]
            &&& s.ceiling is None
            &&& !s.settled
        }),
    decreases aps.len(),
{
    assert(SPEED_STEPS@ =~= seq![10u32, 30, 50, 100, 250, 500, 1000]);
    if aps.len() > 0 {
        good_rounds_climb_to_the_top(aps.drop_last(), times.drop_last());
    }
}

/// How often the last of some verdicts came up in a row at the end.
pub open spec fn trailing(h: Seq<WireVerdict>) -> nat
    decreases h.len(),
{
    if h.len() == 0 {
        0
    } else if h.len() > 1 && h[h.len() - 2] == h.last() {
        trailing(h.drop_last()) + 1
    } else {
        1
    }
}

/// The state after the verdicts `h`.
pub open spec fn follows(s: ScanState, h: Seq<WireVerdict>) -> bool {
    if h.len() == 0 {
        s.streak == 0
    } else {
        &&& s.last_raw == h.last()
        &&& s.streak == if trailing(h) < 255 {
            trailing(h)
        } else {
            255
        }
    }
}

/// A verdict is shown where it came up in the last three rounds, and only there.
pub proof fn verdicts_are_debounced(s: ScanState, h: Seq<WireVerdict>, raw: WireVerdict)
    requires
        follows(s, h),
    ensures
        follows(s.with_verdict(raw), h.push(raw)),
        s.with_verdict(raw).streak >= VERDICT_DEBOUNCE <==> h.len() >= 2 && h[h.len() - 1] == raw
            && h[h.len() - 2] == raw,
{
    let all = h.push(raw);
    assert(all.drop_last() =~= h);
    if h.len() >= 1 {
        trailing_positive(h);
        assert(all[all.len() - 2] == h.last());
        if h.len() >= 2 {
            trailing_positive(h.drop_last());
        }
    }
}

proof fn trailing_positive(h: Seq<WireVerdict>)
    requires
        h.len() >= 1,
    ensures
        trailing(h) >= 1,
    decreases h.len(),
{
}

/// Where a round stands.
#[derive(Clone, Copy, PartialEq, Eq, Structural, Debug)]
pub enum ScanPhase {
    /// No round is under way.
    Ready,
    /// The wires are being tested.
    Lines,
    /// A target is looked for at the speed in use.
    Sweep,
    /// DPIDR is read so that the capture has something to see.
    Stimulus,
    /// The capture is being finished.
    Capture,
    /// The chip is being detected.
    Detect,
    /// The link is being measured.
    Measure,
}

/// What a round asks for.
pub enum Action {
    /// Perform the steps of the wire test and tell what the wires are like.
    TestLines,
    /// Write the clock divider register where a value is given, start a capture where
    /// `capture` says so, make the transfer and tell its outcome.
    Transfer { clock: Option<u32>, capture: bool, request: SwdRequest },
    /// Wait until the capture is full, but no longer than this, stop it and hand over its
    /// words.
    FinishCapture { wait_ms: u64 },
    /// The round is over; write this value to the clock divider register.
    Finish { restored: u32 },
}

/// The value of an [`Action`].
#[verifier::ext_equal]
pub enum ActionView {
    TestLines,
    Transfer { clock: Option<u32>, capture: bool, request: Transfer },
    FinishCapture { wait_ms: u64 },
    Finish { restored: u32 },
}

impl View for Action {
    type V = ActionView;

    open spec fn view(&self) -> ActionView {
        match *self {
            Action::TestLines => ActionView::TestLines,
            Action::Transfer { clock, capture, request } => ActionView::Transfer {
                clock,
                capture,
                request: request@,
            },
            Action::FinishCapture { wait_ms } => ActionView::FinishCapture { wait_ms },
            Action::Finish { restored } => ActionView::Finish { restored },
        }
    }
}

/// How long a capture may take, in milliseconds.
pub const CAPTURE_MS: u64 = 20;

/// A scan: what it remembers, and the round under way.
pub struct Scanner {
    pub st: ScanState,
    pub phase: ScanPhase,
    /// The SWCLK that was in force before the round.
    pub saved_khz: u32,
    /// The wires in this round.
    pub lines: LineStatus,
    /// The speed at which the target answered in this round; 0 where it did not.
    pub used: u32,
    /// Edges of SWCLK in the capture of this round.
    pub edges: u32,
    /// The outcomes of the transfers of this phase.
    pub log: Vec<SwdReply>,
}

/// Everything that a scan reads and changes.
#[verifier::ext_equal]
pub struct World {
    pub st: ScanState,
    pub phase: ScanPhase,
    pub saved_khz: u32,
    pub lines: LineStatus,
    pub used: u32,
    pub edges: u32,
    pub log: Seq<SwdReply>,
    pub dap: Dap,
    pub target: TargetShared,
    pub wave: Waves,
}

/// The divider register for a speed.
pub open spec fn register(dap: Dap, khz: u32) -> u32 {
    (0x100 * clock_divider(dap.probe.sys_hz as int, khz as int)) as u32
}

/// The port at another speed.
pub open spec fn at_speed(dap: Dap, khz: u32) -> Dap {
    Dap { probe: Probe { cached_freq_khz: khz, ..dap.probe }, ..dap }
}

impl World {
    /// A round starts. The wires are tested only where the target was silent in the last
    /// one: the test would disturb a link that works.
    pub open spec fn begun(self) -> (World, ActionView) {
        let w = World { saved_khz: self.dap.probe.cached_freq_khz, ..self };
        if self.st.last_dp > 0 {
            w.with_lines(LineStatus { dio: true, clk: true })
        } else {
            (World { phase: ScanPhase::Lines, ..w }, ActionView::TestLines)
        }
    }

    /// The words after a change of the wires was counted.
    pub open spec fn counting_flaps(self, l: LineStatus) -> TargetShared {
        let t = self.target.with_lines(l);
        match self.st.prev {
            None => t,
            Some(p) => TargetShared {
                dio_flaps: if l.dio != p.dio {
                    ((t.dio_flaps + 1) % 0x1_0000_0000) as u32
                } else {
                    t.dio_flaps
                },
                clk_flaps: if l.clk != p.clk {
                    ((t.clk_flaps + 1) % 0x1_0000_0000) as u32
                } else {
                    t.clk_flaps
                },
                ..t
            },
        }
    }

    /// The wires are known: changes are counted, and the sweep begins.
    pub open spec fn with_lines(self, l: LineStatus) -> (World, ActionView) {
        World {
            lines: l,
            target: self.counting_flaps(l),
            st: ScanState { prev: Some(l), ..self.st },
            ..self
        }.sweeping()
    }

    /// A target is looked for at the speed in use.
    pub open spec fn sweeping(self) -> (World, ActionView) {
        (
            World {
                phase: ScanPhase::Sweep,
                log: Seq::empty(),
                target: TargetShared { probe_khz: self.st.cur, ..self.target },
                dap: at_speed(self.dap, self.st.cur),
                ..self
            },
            ActionView::Transfer {
                clock: Some(register(self.dap, self.st.cur)),
                capture: false,
                request: first_of(presence(Seq::empty())),
            },
        )
    }

    /// A target answered or did not. Where it did not, the next lower speed is tried, and
    /// the one that failed becomes the limit; at the lowest there is no target.
    pub open spec fn heard(self, a: Answer) -> (World, ActionView) {
        let lower = step_below(self.st.cur);
        if a is Silent && lower != self.st.cur {
            World {
                st: ScanState { ceiling: Some(self.st.cur), cur: lower, ..self.st },
                ..self
            }.sweeping()
        } else {
            let w = World { dap: Dap { rp2040: a is Rp2040, ..self.dap }, ..self };
            if a is Silent {
                w.without_target()
            } else {
                w.with_target()
            }
        }
    }

    /// A target answered: a capture is started and DPIDR is read.
    pub open spec fn with_target(self) -> (World, ActionView) {
        (
            World {
                used: self.st.cur,
                target: TargetShared { used_khz: self.st.cur, ..self.target },
                st: ScanState { absent: 0, ..self.st },
                phase: ScanPhase::Stimulus,
                log: Seq::empty(),
                ..self
            },
            ActionView::Transfer {
                clock: None,
                capture: true,
                request: first_of(dpidr(Seq::empty(), 0, Seq::empty())),
            },
        )
    }

    /// No target answered: the picture goes flat, and after two rounds the target is
    /// forgotten.
    pub open spec fn without_target(self) -> (World, ActionView) {
        let absent = ((self.st.absent + 1) % 0x1_0000_0000) as u32;
        let t = TargetShared { used_khz: 0, ..self.target }.linked(LinkQuality { dp: 0, ap: 0 });
        World {
            used: 0,
            edges: 0,
            wave: scrolled(self.wave, flat()),
            target: if absent >= 2 {
                t.cleared()
            } else {
                t
            },
            st: ScanState { absent, last_dp: 0, ..self.st },
            ..self
        }.concluded(0, 0)
    }

    /// The capture is there: its edges are counted and it goes into the picture. A chip
    /// that is not known yet is detected, otherwise the link is measured.
    pub open spec fn with_capture(self, buf: Seq<u32>) -> (World, ActionView) {
        let w = World {
            edges: edges(buf, SAMPLES as int).0 as u32,
            wave: scrolled(self.wave, picture(buf)),
            ..self
        };
        if self.target.has_target() {
            w.measuring()
        } else {
            (
                World { phase: ScanPhase::Detect, log: Seq::empty(), ..w },
                ActionView::Transfer {
                    clock: None,
                    capture: false,
                    request: first_of(detection(self.dap.rp2040, Seq::empty())),
                },
            )
        }
    }

    /// The chip was detected, or was not.
    pub open spec fn with_chip(self, info: Option<TargetInfo>) -> (World, ActionView) {
        World {
            target: match info {
                Some(i) => self.target.storing(i),
                None => self.target,
            },
            ..self
        }.measuring()
    }

    /// The link is measured.
    pub open spec fn measuring(self) -> (World, ActionView) {
        (
            World { phase: ScanPhase::Measure, log: Seq::empty(), ..self },
            ActionView::Transfer {
                clock: None,
                capture: false,
                request: first_of(quality(self.dap.rp2040, Seq::empty())),
            },
        )
    }

    /// The link was measured: the next speed is chosen, and the one that is stable is noted
    /// for the display and for the host.
    pub open spec fn with_quality(self, q: LinkQuality, now: u64) -> (World, ActionView) {
        let st = ScanState { last_dp: q.dp as u32, ..self.st }.with_speed(q.ap as u32, now);
        World {
            st,
            target: TargetShared { stable_khz: st.stable, ..self.target.linked(q) },
            dap: Dap { stable_khz: st.stable, ..self.dap },
            ..self
        }.concluded(q.dp as u32, q.ap as u32)
    }

    /// The round ends with a verdict, shown once it came up three times in a row, and with
    /// the clock put back.
    pub open spec fn concluded(self, dp: u32, ap: u32) -> (World, ActionView) {
        let raw = verdict_of(self.lines, self.used != 0, self.edges, dp, ap);
        let st = self.st.with_verdict(raw);
        let khz = self.dap.restored_khz(self.saved_khz);
        (
            World {
                st,
                phase: ScanPhase::Ready,
                target: if st.streak >= VERDICT_DEBOUNCE {
                    TargetShared { verdict: raw.code(), ..self.target }
                } else {
                    self.target
                },
                dap: at_speed(self.dap, khz),
                ..self
            },
            ActionView::Finish { restored: register(self.dap, khz) },
        )
    }

    /// A transfer of the phase was made: the phase goes on, or it is over.
    pub open spec fn with_reply(self, reply: SwdReply, now: u64) -> (World, ActionView) {
        let w = World { log: self.log.push(reply), ..self };
        match self.phase {
            ScanPhase::Sweep => match presence(w.log) {
                StepView::Need(t) => (w, another(t)),
                StepView::Done(a, _) => w.heard(a),
            },
            ScanPhase::Stimulus => match dpidr(w.log, 0, Seq::empty()) {
                StepView::Need(t) => (w, another(t)),
                StepView::Done(_, _) => (
                    World { phase: ScanPhase::Capture, ..w },
                    ActionView::FinishCapture { wait_ms: CAPTURE_MS },
                ),
            },
            ScanPhase::Detect => match detection(self.dap.rp2040, w.log) {
                StepView::Need(t) => (w, another(t)),
                StepView::Done(info, _) => w.with_chip(info),
            },
            _ => match quality(self.dap.rp2040, w.log) {
                StepView::Need(t) => (w, another(t)),
                StepView::Done(q, _) => w.with_quality(q, now),
            },
        }
    }

    pub open spec fn wf(self) -> bool {
        &&& self.st.wf()
        &&& self.dap.wf()
        &&& self.phase !is Ready ==> self.saved_khz > 0
    }
}

/// The first transfer of a procedure.
pub open spec fn first_of<T>(s: StepView<T>) -> Transfer {
    s->Need_0
}

/// One more transfer of a phase.
pub open spec fn another(t: Transfer) -> ActionView {
    ActionView::Transfer { clock: None, capture: false, request: t }
}

impl Scanner {
    /// The scan among everything that it reads and changes.
    pub open spec fn world(self, dap: Dap, target: TargetShared, wave: WaveRing) -> World {
        World {
            st: self.st,
            phase: self.phase,
            saved_khz: self.saved_khz,
            lines: self.lines,
            used: self.used,
            edges: self.edges,
            log: self.log@,
            dap,
            target,
            wave: wave@,
        }
    }

    /// A scan before its first round.
    pub fn new() -> (r: Self)
        ensures
            r.st.wf(),
            r.st == ScanState::initial(),
            r.phase is Ready,
            r.saved_khz == 0,
            r.lines == (LineStatus { dio: false, clk: false }),
            r.used == 0,
            r.edges == 0,
            r.log@ == Seq::<SwdReply>::empty(),
    {
        Scanner {
            st: ScanState::new(),
            phase: ScanPhase::Ready,
            saved_khz: 0,
            lines: LineStatus { dio: false, clk: false },
            used: 0,
            edges: 0,
            log: Vec::new(),
        }
    }

    /// Starts a round.
    pub fn begin(
        &mut self,
        dap: &mut Dap,
        target: &mut TargetShared,
        wave: &mut WaveRing,
    ) -> (r: Action)
        requires
            old(self).world(*old(dap), *old(target), *old(wave)).wf(),
            old(wave).wf(),
        ensures
            final(wave).wf(),
            final(self).world(*final(dap), *final(target), *final(wave)).wf(),
            (final(self).world(*final(dap), *final(target), *final(wave)), r@) == old(self).world(
                *old(dap),
                *old(target),
                *old(wave),
            ).begun(),
    {
        self.saved_khz = dap.swclk_khz();
        if self.st.last_dp > 0 {
            self.lines_known(dap, target, wave, LineStatus { dio: true, clk: true })
        } else {
            self.phase = ScanPhase::Lines;
            Action::TestLines
        }
    }

    /// Takes what the test of the wires saw.
    pub fn lines_known(
        &mut self,
        dap: &mut Dap,
        target: &mut TargetShared,
        wave: &mut WaveRing,
        lines: LineStatus,
    ) -> (r: Action)
        requires
            old(self).world(*old(dap), *old(target), *old(wave)).wf(),
            old(self).saved_khz > 0,
            old(wave).wf(),
        ensures
            final(wave).wf(),
            final(self).world(*final(dap), *final(target), *final(wave)).wf(),
            (final(self).world(*final(dap), *final(target), *final(wave)), r@) == old(self).world(
                *old(dap),
                *old(target),
                *old(wave),
            ).with_lines(lines),
    {
        target.set_lines(lines);
        if let Some(prev) = self.st.prev {
            if lines.dio != prev.dio {
                target.bump_dio_flap();
            }
            if lines.clk != prev.clk {
                target.bump_clk_flap();
            }
        }
        self.lines = lines;
        self.st.prev = Some(lines);
        self.sweep(dap, target)
    }

    /// Looks for a target at the speed in use.
    fn sweep(&mut self, dap: &mut Dap, target: &mut TargetShared) -> (r: Action)
        requires
            old(self).st.wf(),
            old(dap).wf(),
        ensures
            final(dap).wf(),
            final(self).st.wf(),
            final(self).saved_khz == old(self).saved_khz,
            forall|w: WaveRing|
                (#[trigger] final(self).world(*final(dap), *final(target), w), r@) == old(
                    self,
                ).world(*old(dap), *old(target), w).sweeping(),
    {
        target.set_probe_khz(self.st.cur);
        let clock: u32 = dap.set_swclk_khz(self.st.cur);
        self.phase = ScanPhase::Sweep;
        self.log = Vec::new();
        let step = dap.find_target(&self.log);
        assert(self.log@ =~= Seq::empty());
        let request = needed(step);
        Action::Transfer { clock: Some(clock), capture: false, request }
    }

    /// Takes how the target answered at the speed in use.
    fn heard(
        &mut self,
        dap: &mut Dap,
        target: &mut TargetShared,
        wave: &mut WaveRing,
        answer: Answer,
    ) -> (r: Action)
        requires
            old(self).world(*old(dap), *old(target), *old(wave)).wf(),
            old(self).saved_khz > 0,
            old(wave).wf(),
        ensures
            final(wave).wf(),
            final(self).world(*final(dap), *final(target), *final(wave)).wf(),
            (final(self).world(*final(dap), *final(target), *final(wave)), r@) == old(self).world(
                *old(dap),
                *old(target),
                *old(wave),
            ).heard(answer),
    {
        if answer == Answer::Silent {
            let lower: u32 = step_down(self.st.cur);
            if lower != self.st.cur {
                self.st.ceiling = Some(self.st.cur);
                self.st.cur = lower;
                return self.sweep(dap, target);
            }
            dap.rp2040 = false;
            return self.without_target(dap, target, wave);
        }
        dap.rp2040 = answer == Answer::Rp2040;
        self.with_target(dap, target)
    }

    /// Starts a capture and reads DPIDR.
    fn with_target(&mut self, dap: &mut Dap, target: &mut TargetShared) -> (r: Action)
        requires
            old(self).st.wf(),
            old(dap).wf(),
        ensures
            *final(dap) == *old(dap),
            final(self).st.wf(),
            final(self).saved_khz == old(self).saved_khz,
            forall|w: WaveRing|
                (#[trigger] final(self).world(*final(dap), *final(target), w), r@) == old(
                    self,
                ).world(*old(dap), *old(target), w).with_target(),
    {
        self.used = self.st.cur;
        target.set_used_khz(self.used);
        self.st.absent = 0;
        self.phase = ScanPhase::Stimulus;
        self.log = Vec::new();
        assert(self.log@ =~= Seq::empty());
        let request = needed(dap.swd_read_dpidr(&self.log));
        Action::Transfer { clock: None, capture: true, request }
    }

    /// Ends a round in which no target answered.
    fn without_target(
        &mut self,
        dap: &mut Dap,
        target: &mut TargetShared,
        wave: &mut WaveRing,
    ) -> (r: Action)
        requires
            old(self).world(*old(dap), *old(target), *old(wave)).wf(),
            old(self).saved_khz > 0,
            old(wave).wf(),
        ensures
            final(wave).wf(),
            final(self).world(*final(dap), *final(target), *final(wave)).wf(),
            (final(self).world(*final(dap), *final(target), *final(wave)), r@) == old(self).world(
                *old(dap),
                *old(target),
                *old(wave),
            ).without_target(),
    {
        self.used = 0;
        target.set_used_khz(0);
        wave.push_flat();
        target.set_link(&LinkQuality { dp: 0, ap: 0 });
        self.st.absent = self.st.absent.wrapping_add(1);
        if self.st.absent >= 2 {
            target.clear();
        }
        self.edges = 0;
        self.st.last_dp = 0;
        self.conclude(dap, target, 0, 0)
    }

    /// Ends a round: the verdict, and the clock as it was.
    fn conclude(&mut self, dap: &mut Dap, target: &mut TargetShared, dp: u32, ap: u32) -> (r: Action)
        requires
            old(self).st.wf(),
            old(dap).wf(),
            old(self).saved_khz > 0,
        ensures
            final(dap).wf(),
            final(self).st.wf(),
            forall|w: WaveRing|
                (#[trigger] final(self).world(*final(dap), *final(target), w), r@) == old(
                    self,
                ).world(*old(dap), *old(target), w).concluded(dp, ap),
    {
        let raw = classify(self.lines, self.used != 0, self.edges, dp, ap);
        if self.st.note_verdict(raw) {
            target.set_verdict(raw);
        }
        let restored: u32 = dap.restore_clk(self.saved_khz);
        self.phase = ScanPhase::Ready;
        Action::Finish { restored }
    }

    /// Takes the words of the capture.
    pub fn captured(
        &mut self,
        dap: &mut Dap,
        target: &mut TargetShared,
        wave: &mut WaveRing,
        buf: &[u32],
    ) -> (r: Action)
        requires
            old(self).world(*old(dap), *old(target), *old(wave)).wf(),
            old(self).saved_khz > 0,
            old(wave).wf(),
            buf@.len() >= CAP_WORDS,
        ensures
            final(wave).wf(),
            final(self).world(*final(dap), *final(target), *final(wave)).wf(),
            (final(self).world(*final(dap), *final(target), *final(wave)), r@) == old(self).world(
                *old(dap),
                *old(target),
                *old(wave),
            ).with_capture(buf@),
    {
        self.edges = count_signal(buf).clk_edges;
        wave.push(buf);
        if target.valid() {
            self.measure(dap)
        } else {
            self.phase = ScanPhase::Detect;
            self.log = Vec::new();
            assert(self.log@ =~= Seq::empty());
            let request = needed(dap.detect_target(&self.log));
            Action::Transfer { clock: None, capture: false, request }
        }
    }

    /// Starts the measurement of the link.
    fn measure(&mut self, dap: &Dap) -> (r: Action)
        ensures
            final(self).st == old(self).st,
            final(self).saved_khz == old(self).saved_khz,
            forall|t: TargetShared, w: WaveRing|
                (#[trigger] final(self).world(*dap, t, w), r@) == old(self).world(
                    *dap,
                    t,
                    w,
                ).measuring(),
    {
        self.phase = ScanPhase::Measure;
        self.log = Vec::new();
        assert(self.log@ =~= Seq::empty());
        let request = needed(dap.link_quality(&self.log));
        Action::Transfer { clock: None, capture: false, request }
    }

    /// Takes what the measurement of the link gave.
    fn measured(
        &mut self,
        dap: &mut Dap,
        target: &mut TargetShared,
        wave: &mut WaveRing,
        q: LinkQuality,
        now: u64,
    ) -> (r: Action)
        requires
            old(self).world(*old(dap), *old(target), *old(wave)).wf(),
            old(self).saved_khz > 0,
            old(wave).wf(),
            old(self).st.before(now),
        ensures
            final(wave).wf(),
            final(self).world(*final(dap), *final(target), *final(wave)).wf(),
            (final(self).world(*final(dap), *final(target), *final(wave)), r@) == old(self).world(
                *old(dap),
                *old(target),
                *old(wave),
            ).with_quality(q, now),
    {
        target.set_link(&q);
        self.st.last_dp = q.dp as u32;
        self.st.choose_speed(q.ap as u32, now);
        target.set_stable_khz(self.st.stable);
        dap.set_stable_khz(self.st.stable);
        self.conclude(dap, target, q.dp as u32, q.ap as u32)
    }

    /// Takes the outcome of the transfer that was asked for; `now` is the time in microseconds.
    pub fn replied(
        &mut self,
        dap: &mut Dap,
        target: &mut TargetShared,
        wave: &mut WaveRing,
        reply: SwdReply,
        now: u64,
    ) -> (r: Action)
        requires
            old(self).world(*old(dap), *old(target), *old(wave)).wf(),
            old(self).saved_khz > 0,
            old(wave).wf(),
            old(self).phase is Sweep || old(self).phase is Stimulus || old(self).phase is Detect
                || old(self).phase is Measure,
            old(self).st.before(now),
        ensures
            final(wave).wf(),
            final(self).world(*final(dap), *final(target), *final(wave)).wf(),
            (final(self).world(*final(dap), *final(target), *final(wave)), r@) == old(self).world(
                *old(dap),
                *old(target),
                *old(wave),
            ).with_reply(reply, now),
    {
        self.log.push(reply);
        match self.phase {
            ScanPhase::Sweep => match dap.find_target(&self.log) {
                Step::Need(request) => Action::Transfer { clock: None, capture: false, request },
                Step::Done(answer, _) => self.heard(dap, target, wave, answer),
            },
            ScanPhase::Stimulus => match dap.swd_read_dpidr(&self.log) {
                Step::Need(request) => Action::Transfer { clock: None, capture: false, request },
                Step::Done(_, _) => {
                    self.phase = ScanPhase::Capture;
                    Action::FinishCapture { wait_ms: CAPTURE_MS }
                },
            },
            ScanPhase::Detect => match dap.detect_target(&self.log) {
                Step::Need(request) => Action::Transfer { clock: None, capture: false, request },
                Step::Done(info, _) => {
                    if let Some(i) = &info {
                        target.store(i);
                    }
                    self.measure(dap)
                },
            },
            _ => match dap.link_quality(&self.log) {
                Step::Need(request) => Action::Transfer { clock: None, capture: false, request },
                Step::Done(q, _) => self.measured(dap, target, wave, q, now),
            },
        }
    }
}

/// The transfer that a procedure asks for.
fn needed<T>(step: Step<T>) -> (r: SwdRequest)
    requires
        step is Need,
    ensures
        r@ == first_of(step@),
{
    match step {
        Step::Need(t) => t,
        Step::Done(_, _) => vstd::pervasive::unreached(),
    }
}

/// Nothing that the host configured is touched.
pub open spec fn host_settings_kept(a: Dap, b: Dap) -> bool {
    &&& a.cfg == b.cfg
    &&& a.serial == b.serial
    &&& a.product == b.product
    &&& a.host_clk_set == b.host_clk_set
    &&& a.probe.addrs == b.probe.addrs
    &&& a.probe.sys_hz == b.probe.sys_hz
    &&& a.probe.has_reset == b.probe.has_reset
}

/// A scan touches nothing that the host configured, and where it ends, SWCLK is as it was
/// before: a host that has chosen a clock finds it in force, and one that has not gets the
/// fastest that is known to be stable.
pub proof fn scans_leave_no_trace_for_the_host(
    w: World,
    l: LineStatus,
    buf: Seq<u32>,
    reply: SwdReply,
    now: u64,
)
    ensures
        host_settings_kept(w.dap, w.begun().0.dap),
        host_settings_kept(w.dap, w.with_lines(l).0.dap),
        host_settings_kept(w.dap, w.with_capture(buf).0.dap),
        host_settings_kept(w.dap, w.with_reply(reply, now).0.dap),
        w.begun().0.saved_khz == w.dap.probe.cached_freq_khz,
        w.with_lines(l).0.saved_khz == w.saved_khz,
        w.with_capture(buf).0.saved_khz == w.saved_khz,
        w.with_reply(reply, now).0.saved_khz == w.saved_khz,
        w.begun().1 !is Finish,
        w.with_lines(l).1 !is Finish,
        w.with_capture(buf).1 !is Finish,
        w.with_reply(reply, now).1 is Finish ==> {
            let after = w.with_reply(reply, now).0;
            &&& after.phase is Ready
            &&& after.dap.probe.cached_freq_khz == if after.dap.host_clk_set
                || after.dap.stable_khz == 0 {
                w.saved_khz
            } else {
                after.dap.stable_khz
            }
        },
{
}

/// The wires are driven for their test only where nothing answered in the round before.
pub proof fn working_links_are_not_disturbed(w: World)
    ensures
        w.begun().1 is TestLines <==> w.st.last_dp == 0,
{
}

/// The sweep comes to an end: where nothing answers, the next speed is lower, and below the
/// lowest the round is over without a target.
pub proof fn sweeps_go_down(w: World)
    requires
        w.wf(),
    ensures
        w.st.cur > 10 ==> w.heard(Answer::Silent).0.st.cur < w.st.cur,
        w.st.cur == 10 ==> w.heard(Answer::Silent).1 is Finish,
{
}

/// Each phase comes to an end: it asks for another transfer only while it has made few.
pub proof fn phases_end(w: World, reply: SwdReply, now: u64)
    requires
        w.wf(),
        w.phase is Sweep || w.phase is Stimulus || w.phase is Detect || w.phase is Measure,
    ensures
        ({
            let after = w.with_reply(reply, now).0;
            after.phase == w.phase && after.log == w.log.push(reply) ==> match w.phase {
                ScanPhase::Sweep => after.log.len() < 21,
                ScanPhase::Stimulus => after.log.len() < 12,
                ScanPhase::Detect => after.log.len() < 155,
                _ => after.log.len() < 103,
            }
        }),
{
    let log = w.log.push(reply);
    presence_ends(log);
    detection_ends(w.dap.rp2040, log);
    measurement_ends(w.dap.rp2040, log);
    crate::dap::script::until_counts(log, 0, 12, crate::dap::detect::okay());
}

/// How far a round is from its end, counted in phases. Each speed that the sweep can still
/// go down to counts as one.
pub open spec fn phases_left(w: World) -> int {
    match w.phase {
        ScanPhase::Ready => -1,
        ScanPhase::Measure => 0,
        ScanPhase::Detect => 1,
        ScanPhase::Capture => 2,
        ScanPhase::Stimulus => 3,
        ScanPhase::Sweep => if w.st.cur == 10 {
            4
        } else if w.st.cur == 30 {
            5
        } else if w.st.cur == 50 {
            6
        } else if w.st.cur == 100 {
            7
        } else if w.st.cur == 250 {
            8
        } else if w.st.cur == 500 {
            9
        } else {
            10
        },
        ScanPhase::Lines => 11,
    }
}

/// The transfers that the phase can still ask for.
pub open spec fn transfers_left(w: World) -> int {
    match w.phase {
        ScanPhase::Sweep => 21 - w.log.len(),
        ScanPhase::Stimulus => 12 - w.log.len(),
        ScanPhase::Detect => 155 - w.log.len(),
        ScanPhase::Measure => 103 - w.log.len(),
        _ => 0,
    }
}

/// The round is over, or `after` is closer to its end than `before`.
pub open spec fn goes_on(before: World, after: World, a: ActionView) -> bool {
    ||| a is Finish
    ||| 0 <= phases_left(after) < phases_left(before)
    ||| phases_left(after) == phases_left(before) && 0 < transfers_left(after) < transfers_left(
        before,
    )
}

/// Every round comes to its end, whatever the target answers: each time that the scan is
/// told what came of its last action, it finishes or comes closer to the end.
pub proof fn rounds_end(w: World, l: LineStatus, buf: Seq<u32>, reply: SwdReply, now: u64)
    requires
        w.wf(),
    ensures
        0 <= phases_left(w.begun().0) <= 11,
        w.phase is Lines ==> goes_on(w, w.with_lines(l).0, w.with_lines(l).1),
        w.phase is Capture ==> goes_on(w, w.with_capture(buf).0, w.with_capture(buf).1),
        w.phase is Sweep || w.phase is Stimulus || w.phase is Detect || w.phase is Measure
            ==> goes_on(w, w.with_reply(reply, now).0, w.with_reply(reply, now).1),
{
    if w.phase is Sweep || w.phase is Stimulus || w.phase is Detect || w.phase is Measure {
        phases_end(w, reply, now);
    }
}

/// The target is forgotten after two rounds in a row in which nothing answered, and not
/// before; a round in which something answers starts the count anew.
pub proof fn targets_are_forgotten_after_two_rounds(w: World)
    requires
        w.st.absent < 0xFFFF_FFFF,
    ensures
        w.without_target().0.st.absent == w.st.absent + 1,
        w.st.absent >= 1 ==> !w.without_target().0.target.has_target(),
        w.st.absent == 0 ==> w.without_target().0.target.devid == w.target.devid,
        w.with_target().0.st.absent == 0,
{
}

/// The steps of the ladder, in kHz, are 10, 30, 50, 100, 250, 500 and 1000. Up from any
/// speed leads to the first that is higher, and stays at the top; down leads to the last
/// that is lower, and changes nothing at the bottom.
pub proof fn steps_lead_to_the_neighbours(khz: u32)
    ensures
        ({
            let steps = seq![10u32, 30, 50, 100, 250, 500, 1000];
            &&& forall|i: int|
                0 <= i < 7 ==> (is_step(#[trigger] steps[i]) && ((i == 0 || steps[i - 1] <= khz)
                    && khz < steps[i] ==> step_above(khz) == steps[i]))
            &&& forall|i: int|
                0 <= i < 7 ==> (#[trigger] steps[i] < khz && (i == 6 || khz <= steps[i + 1])
                    ==> step_below(khz) == steps[i])
            &&& khz >= 1000 ==> step_above(khz) == 1000
            &&& khz <= 10 ==> step_below(khz) == khz
            &&& is_step(khz) ==> steps.contains(khz)
        }),
{
    let steps = seq![10u32, 30, 50, 100, 250, 500, 1000];
    if is_step(khz) {
        assert(steps[0] == 10 && steps[1] == 30 && steps[2] == 50 && steps[3] == 100 && steps[4]
            == 250 && steps[5] == 500 && steps[6] == 1000);
    }
}

/// The speed drops only where the last two rounds both scored below 12. After a round that
/// scored at least that, a single lower score leaves the speed, the stable speed and, unless
/// it is time to lift it, the limit as they were.
pub proof fn one_bad_round_changes_nothing(s: ScanState, ap: u32, ap2: u32, now: u64, later: u64)
    requires
        s.wf(),
    ensures
        ({
            let one = s.with_speed(ap, now);
            let two = one.with_speed(ap2, later);
            let due = one.settled && (one.last_probe matches Some(t) ==> later >= t + 12_000_000);
            &&& two.cur < one.cur ==> ap < 12 && ap2 < 12
            &&& two.settled && !one.settled ==> ap < 12 && ap2 < 12
            &&& ap >= 12 && ap2 < 12 ==> {
                &&& two.cur == one.cur
                &&& two.stable == one.stable
                &&& two.settled == one.settled
                &&& two.bad == 1
                &&& two.ceiling == if due {
                    None
                } else {
                    one.ceiling
                }
            }
        }),
{
}

/// The rounds in a row, at the end of some, that scored below 12.
pub open spec fn trailing_bad(aps: Seq<u32>) -> nat
    decreases aps.len(),
{
    if aps.len() == 0 || aps.last() >= 12 {
        0
    } else {
        trailing_bad(aps.drop_last()) + 1
    }
}

/// Over any rounds, the speed drops after every second one in a row that scored below 12,
/// by one step, and after no other: a round that scored higher starts the count anew.
pub proof fn every_second_bad_round_in_a_row_demotes(aps: Seq<u32>, times: Seq<u64>)
    requires
        aps.len() == times.len(),
        aps.len() > 0,
    ensures
        ({
            let before = after_rounds(ScanState::initial(), aps.drop_last(), times.drop_last());
            let after = after_rounds(ScanState::initial(), aps, times);
            let bad = trailing_bad(aps);
            &&& after.bad == bad % 2
            &&& bad > 0 && bad % 2 == 0 ==> {
                &&& after.cur == step_below(before.cur)
                &&& after.ceiling == Some(before.cur)
                &&& after.settled
            }
            &&& bad % 2 == 1 ==> after.cur == before.cur && after.settled == before.settled
            &&& bad == 0 ==> after.cur == before.cur || after.cur == step_above(before.cur)
            &&& bad == 0 ==> after.settled == before.settled && after.stable == before.cur
            &&& bad > 0 ==> after.stable == before.stable
            &&& before.bad <= 1
        }),
    decreases aps.len(),
{
    let before = after_rounds(ScanState::initial(), aps.drop_last(), times.drop_last());
    if aps.len() > 1 {
        every_second_bad_round_in_a_row_demotes(aps.drop_last(), times.drop_last());
    } else {
        assert(before == ScanState::initial());
        assert(trailing_bad(aps.drop_last()) == 0);
    }
}

/// Once the speed has dropped, the limit is lifted at the next round and from then on twelve
/// seconds after it was last lifted, not earlier; only then does a good round lead higher.
/// Until a speed has dropped, each good round leads higher, as long as that is below the
/// limit.
pub proof fn limits_are_lifted_every_twelve_seconds(s: ScanState, ap: u32, now: u64)
    ensures
        ({
            let after = s.with_speed(ap, now);
            let due = s.settled && (s.last_probe matches Some(t) ==> now >= t + 12_000_000);
            &&& after.last_probe == if due {
                Some(now)
            } else {
                s.last_probe
            }
            &&& ap >= 12 ==> {
                &&& after.ceiling == if due {
                    None
                } else {
                    s.ceiling
                }
                &&& after.stable == s.cur
                &&& after.bad == 0
                &&& after.settled == s.settled
                &&& due ==> after.cur == step_above(s.cur)
                &&& s.settled && !due ==> after.cur == s.cur
                &&& !s.settled ==> after.cur == match s.ceiling {
                    Some(c) if step_above(s.cur) >= c => s.cur,
                    _ => step_above(s.cur),
                }
            }
            &&& (after.absent, after.prev, after.last_raw, after.streak, after.last_dp) == (
                s.absent,
                s.prev,
                s.last_raw,
                s.streak,
                s.last_dp,
            )
        }),
{
}

/// Before its first round a scan has seen nothing, and nothing is ruled out.
pub proof fn scans_start_afresh()
    ensures
        ({
            let s = ScanState::initial();
            &&& s.cur == 10 && s.stable == 10 && s.ceiling is None && !s.settled
            &&& s.last_probe is None && s.prev is None && s.absent == 0 && s.last_dp == 0
            &&& s.streak == 0 && s.bad == 0
        }),
{
}

/// Everything in the words about the target but its wires and the counts of their changes.
pub open spec fn same_but_wires(a: TargetShared, b: TargetShared) -> bool {
    &&& a.devid == b.devid && a.flash == b.flash && a.designer == b.designer
    &&& a.part == b.part && a.core == b.core && a.used_khz == b.used_khz
    &&& a.stable_khz == b.stable_khz && a.link_dp == b.link_dp && a.link_ap == b.link_ap
    &&& a.verdict == b.verdict
}

/// A wire that is not as in the round before counts as one change of that wire, and of no
/// other; the first round has none before it. What the test saw is what is shown.
pub proof fn wire_changes_are_counted(w: World, l: LineStatus)
    ensures
        ({
            let after = w.with_lines(l).0;
            let (dio_changed, clk_changed) = match w.st.prev {
                Some(p) => (p.dio != l.dio, p.clk != l.clk),
                None => (false, false),
            };
            &&& after.lines == l
            &&& after.st.prev == Some(l)
            &&& after.target.seen_lines() == l
            &&& (after.target.dio_flaps - w.target.dio_flaps) % 0x1_0000_0000 == if dio_changed {
                1int
            } else {
                0
            }
            &&& (after.target.clk_flaps - w.target.clk_flaps) % 0x1_0000_0000 == if clk_changed {
                1int
            } else {
                0
            }
            &&& same_but_wires(w.target, after.target)
            &&& (after.st.cur, after.st.stable, after.st.ceiling, after.st.settled, after.st.bad)
                == (w.st.cur, w.st.stable, w.st.ceiling, w.st.settled, w.st.bad)
        }),
{
}

/// A round without a test of the wires takes both for connected.
pub proof fn untested_wires_count_as_connected(w: World)
    ensures
        w.st.last_dp > 0 ==> w.begun().0.lines == (LineStatus { dio: true, clk: true })
            && w.begun().0.phase is Sweep,
        w.st.last_dp == 0 ==> w.begun().0.phase is Lines && w.begun().0.st == w.st
            && w.begun().0.target == w.target,
{
}

/// The sweep runs at the speed in use: that is what is shown, what the clock is set to and
/// what is noted as set. The target is woken up and DPIDR is read.
pub proof fn sweeps_run_at_the_speed_in_use(w: World)
    requires
        w.wf(),
    ensures
        ({
            let (after, a) = w.sweeping();
            &&& after.phase is Sweep
            &&& after.log.len() == 0
            &&& after.target.probe_khz == w.st.cur
            &&& after.dap.probe.cached_freq_khz == w.st.cur
            &&& after.dap.rp2040 == w.dap.rp2040
            &&& after.st == w.st
            &&& a matches ActionView::Transfer { clock, capture, request } && {
                &&& clock matches Some(c) && c == 256 * clock_divider(
                    w.dap.probe.sys_hz as int,
                    w.st.cur as int,
                )
                &&& !capture
                &&& request == (Transfer {
                    prelude: wakeup(),
                    request: 0x02,
                    wdata: 0,
                    retry: false,
                })
            }
        }),
{
}

/// What an answer leads to: with silence, the next lower speed and a limit at the one that
/// failed, or at the lowest the end of the round; with an answer, a capture at this speed,
/// which is noted as the one at which the target answered, and as an RP2040 only where it
/// answered as one.
pub proof fn answers_are_acted_on(w: World, answer: Answer)
    requires
        w.wf(),
    ensures
        ({
            let (after, a) = w.heard(answer);
            &&& answer is Silent && w.st.cur > 10 ==> {
                &&& after.st.ceiling == Some(w.st.cur)
                &&& after.st.cur == step_below(w.st.cur)
                &&& (after.st.stable, after.st.settled, after.st.bad, after.st.absent) == (
                    w.st.stable,
                    w.st.settled,
                    w.st.bad,
                    w.st.absent,
                )
                &&& after.phase is Sweep
                &&& after.target.probe_khz == after.st.cur
                &&& after.dap.probe.cached_freq_khz == after.st.cur
            }
            &&& answer is Silent && w.st.cur == 10 ==> {
                &&& a is Finish
                &&& !after.dap.rp2040
                &&& after.used == 0
                &&& after.st.cur == 10 && after.st.ceiling == w.st.ceiling
            }
            &&& !(answer is Silent) ==> {
                &&& after.phase is Stimulus
                &&& after.log.len() == 0
                &&& after.used == w.st.cur
                &&& after.target.used_khz == w.st.cur
                &&& after.dap.rp2040 == (answer is Rp2040)
                &&& after.st == (ScanState { absent: 0, ..w.st })
                &&& a matches ActionView::Transfer { clock: None, capture: true, request } && {
                    request == (Transfer {
                        prelude: Seq::empty(),
                        request: 0x02,
                        wdata: 0,
                        retry: false,
                    })
                }
            }
        }),
{
}

/// A round in which nothing answered shows no speed and no scores, lets the picture of the
/// wires go flat, and has the wires tested in the next round; the speeds stay as they are.
pub proof fn silent_rounds_show_nothing(w: World)
    requires
        w.wave.clk.len() == 128,
        w.wave.dio.len() == 128,
    ensures
        ({
            let (after, a) = w.without_target();
            &&& a is Finish
            &&& after.used == 0 && after.edges == 0
            &&& after.target.used_khz == 0
            &&& after.target.link_dp == 0 && after.target.link_ap == 0
            &&& after.target.stable_khz == w.target.stable_khz
            &&& after.st.last_dp == 0
            &&& (after.st.cur, after.st.stable, after.st.ceiling, after.st.settled, after.st.bad)
                == (w.st.cur, w.st.stable, w.st.ceiling, w.st.settled, w.st.bad)
            &&& after.wave.clk.len() == 128 && after.wave.dio.len() == 128
            &&& forall|k: int|
                0 <= k < 96 ==> (#[trigger] after.wave.clk[k] == w.wave.clk[k + 32]
                    && after.wave.dio[k] == w.wave.dio[k + 32])
            &&& forall|k: int|
                96 <= k < 128 ==> (!#[trigger] after.wave.clk[k] && !after.wave.dio[k])
        }),
{
}

/// A capture gives the edges of SWCLK in its 256 samples and moves the picture on by 32
/// columns. What is known of the target stays; only where nothing is, the chip is detected
/// before the link is measured.
pub proof fn captures_are_taken_in(w: World, buf: Seq<u32>)
    requires
        w.wave.clk.len() == 128,
        w.wave.dio.len() == 128,
    ensures
        ({
            let after = w.with_capture(buf).0;
            &&& after.edges == edges(buf, 256).0 as u32
            &&& after.target == w.target
            &&& after.st == w.st
            &&& after.used == w.used
            &&& after.log.len() == 0
            &&& w.target.devid >= 0x8000_0000 ==> after.phase is Measure
            &&& w.target.devid < 0x8000_0000 ==> after.phase is Detect
            &&& forall|k: int|
                0 <= k < 96 ==> (#[trigger] after.wave.clk[k] == w.wave.clk[k + 32]
                    && after.wave.dio[k] == w.wave.dio[k + 32])
            &&& forall|k: int|
                0 <= k < 32 ==> (#[trigger] after.wave.clk[96 + k] == picture(buf).clk[k]
                    && after.wave.dio[96 + k] == picture(buf).dio[k])
        }),
{
}

/// A chip that was detected is noted with everything that was found out; where none was, all
/// stays as it is. The link is measured either way.
pub proof fn detected_chips_are_noted(w: World, i: TargetInfo)
    ensures
        ({
            let after = w.with_chip(Some(i)).0;
            &&& after.target.devid == 0x8000_0000 + i.devid
            &&& after.target.designer == i.designer
            &&& after.target.part == i.part
            &&& after.target.core == i.core
            &&& after.target.flash == i.rdp.code()
            &&& after.target.link_dp == w.target.link_dp && after.target.link_ap
                == w.target.link_ap
            &&& after.target.used_khz == w.target.used_khz
            &&& after.phase is Measure
            &&& after.log.len() == 0
        }),
        w.with_chip(None).0.target == w.target,
        w.with_chip(None).0.phase is Measure,
{
}

/// A measurement is noted with both its scores; the DP score decides whether the wires are
/// tested in the next round, the AP score decides the speed, and the stable speed is shown
/// and held against the host.
pub proof fn measurements_are_noted(w: World, q: LinkQuality, now: u64)
    ensures
        ({
            let (after, a) = w.with_quality(q, now);
            let speed = w.st.with_speed(q.ap as u32, now);
            &&& a is Finish
            &&& after.target.link_dp == q.dp
            &&& after.target.link_ap == q.ap
            &&& after.st.last_dp == q.dp
            &&& after.st.cur == speed.cur
            &&& after.st.stable == speed.stable
            &&& after.st.ceiling == speed.ceiling
            &&& after.st.settled == speed.settled
            &&& after.st.bad == speed.bad
            &&& after.st.last_probe == speed.last_probe
            &&& after.target.stable_khz == after.st.stable
            &&& after.dap.stable_khz == after.st.stable
            &&& after.target.devid == w.target.devid
            &&& after.target.used_khz == w.target.used_khz
            &&& after.st.last_raw == verdict_of(
                w.lines,
                w.used != 0,
                w.edges,
                q.dp as u32,
                q.ap as u32,
            )
        }),
{
}

/// A round ends with the verdict that its wires, edges and scores give. It is shown from the
/// third time in a row on, and until it is, the one before stays. The clock is set back to
/// what it was, or to the stable speed where the host chose none.
pub proof fn rounds_end_with_a_verdict(w: World, dp: u32, ap: u32)
    requires
        w.wf(),
        w.saved_khz > 0,
    ensures
        ({
            let (after, a) = w.concluded(dp, ap);
            let raw = verdict_of(w.lines, w.used != 0, w.edges, dp, ap);
            let khz = if !w.dap.host_clk_set && w.dap.stable_khz > 0 {
                w.dap.stable_khz
            } else {
                w.saved_khz
            };
            &&& after.st.last_raw == raw
            &&& w.st.last_raw != raw ==> after.st.streak == 1
            &&& w.st.last_raw == raw && w.st.streak < 255 ==> after.st.streak == w.st.streak + 1
            &&& w.st.last_raw == raw && w.st.streak >= 2 ==> after.target.verdict == raw.code()
            &&& w.st.last_raw != raw || w.st.streak < 2 ==> after.target.verdict
                == w.target.verdict
            &&& after.target.devid == w.target.devid
            &&& after.dap.probe.cached_freq_khz == khz
            &&& a matches ActionView::Finish { restored } && restored == 256 * clock_divider(
                w.dap.probe.sys_hz as int,
                khz as int,
            )
        }),
{
}

/// A reply belongs to the phase under way: while its procedure needs more, the next transfer
/// is asked for and nothing else changes; its outcome leads on as that phase says. The
/// capture is waited for at most 20 milliseconds.
pub proof fn replies_belong_to_their_phase(w: World, reply: SwdReply, now: u64, t: Transfer)
    ensures
        ({
            let (after, a) = w.with_reply(reply, now);
            let log = w.log.push(reply);
            let on = World { log, ..w };
            let more = after == on && a == (ActionView::Transfer {
                clock: None,
                capture: false,
                request: t,
            });
            &&& w.phase is Sweep && presence(log) == StepView::<Answer>::Need(t) ==> more
            &&& w.phase is Sweep && presence(log) is Done ==> (after, a) == on.heard(
                presence(log)->Done_0,
            )
            &&& w.phase is Stimulus && dpidr(log, 0, Seq::empty()) == StepView::<
                Option<u32>,
            >::Need(t) ==> more
            &&& w.phase is Stimulus && dpidr(log, 0, Seq::empty()) is Done ==> {
                &&& a == (ActionView::FinishCapture { wait_ms: 20 })
                &&& after.phase is Capture
                &&& after.target == w.target && after.st == w.st
            }
            &&& w.phase is Detect && detection(w.dap.rp2040, log) == StepView::<
                Option<TargetInfo>,
            >::Need(t) ==> more
            &&& w.phase is Detect && detection(w.dap.rp2040, log) is Done ==> (after, a)
                == on.with_chip(detection(w.dap.rp2040, log)->Done_0)
            &&& w.phase is Measure && quality(w.dap.rp2040, log) is Done ==> (after, a)
                == on.with_quality(quality(w.dap.rp2040, log)->Done_0, now)
            &&& w.phase is Measure && quality(w.dap.rp2040, log) == StepView::<
                LinkQuality,
            >::Need(t) ==> more
        }),
{
}

} // verus!
