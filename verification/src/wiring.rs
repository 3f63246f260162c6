//! What is wrong with the wiring: a verdict from the two wires and the quality of the link.
use vstd::prelude::*;

use crate::probe::LineStatus;

verus! {

/// The verdict on the wiring.
#[derive(Clone, Copy, PartialEq, Eq, Structural, Debug)]
pub enum WireVerdict {
    /// Nothing was measured yet.
    Unknown,
    /// Both wires connected, DP and AP at or near their best.
    Okay,
    /// SWCLK is open or makes bad contact.
    SwclkOpen,
    /// SWDIO is open.
    SwdioOpen,
    /// Both are open, or the target floats or has no power.
    BothOpen,
    /// Both are connected, but there is no DP to be read.
    NoTarget,
    /// The DP is stable and the AP fails throughout: too little power, or read protection.
    PwrParasitic,
    /// The DP answers too rarely: a bad common ground.
    GndBad,
    /// The long transfers through the AP are not reliable.
    Unstable,
}

impl WireVerdict {
    /// The byte that carries the verdict between tasks.
    pub open spec fn code(self) -> u8 {
        match self {
            WireVerdict::Unknown => 0,
            WireVerdict::Okay => 1,
            WireVerdict::SwclkOpen => 2,
            WireVerdict::SwdioOpen => 3,
            WireVerdict::BothOpen => 4,
            WireVerdict::NoTarget => 5,
            WireVerdict::PwrParasitic => 6,
            WireVerdict::GndBad => 7,
            WireVerdict::Unstable => 8,
        }
    }

    /// The verdict that a byte carries; every other byte is `Unknown`.
    pub open spec fn of_code(v: u8) -> WireVerdict {
        match v {
            1 => WireVerdict::Okay,
            2 => WireVerdict::SwclkOpen,
            3 => WireVerdict::SwdioOpen,
            4 => WireVerdict::BothOpen,
            5 => WireVerdict::NoTarget,
            6 => WireVerdict::PwrParasitic,
            7 => WireVerdict::GndBad,
            8 => WireVerdict::Unstable,
            _ => WireVerdict::Unknown,
        }
    }

    /// The text shown for the verdict.
    pub open spec fn label(self) -> &'static str {
        match self {
            WireVerdict::Unknown => "no target",
            WireVerdict::Okay => "OK",
            WireVerdict::SwclkOpen => "SWCLK BAD",
            WireVerdict::SwdioOpen => "SWDIO BAD",
            WireVerdict::BothOpen => "BOTH OPEN",
            WireVerdict::NoTarget => "no target",
            WireVerdict::PwrParasitic => "PWR/AP fail",
            WireVerdict::GndBad => "GND BAD",
            WireVerdict::Unstable => "UNSTABLE",
        }
    }

    /// The byte that carries the verdict between tasks.
    pub fn to_u8(self) -> (r: u8)
        ensures
            r == self.code(),
    {
        match self {
            WireVerdict::Unknown => 0,
            WireVerdict::Okay => 1,
            WireVerdict::SwclkOpen => 2,
            WireVerdict::SwdioOpen => 3,
            WireVerdict::BothOpen => 4,
            WireVerdict::NoTarget => 5,
            WireVerdict::PwrParasitic => 6,
            WireVerdict::GndBad => 7,
            WireVerdict::Unstable => 8,
        }
    }

    /// The verdict that a byte carries.
    pub fn from_u8(v: u8) -> (r: Self)
        ensures
            r == WireVerdict::of_code(v),
    {
        match v {
            1 => WireVerdict::Okay,
            2 => WireVerdict::SwclkOpen,
            3 => WireVerdict::SwdioOpen,
            4 => WireVerdict::BothOpen,
            5 => WireVerdict::NoTarget,
            6 => WireVerdict::PwrParasitic,
            7 => WireVerdict::GndBad,
            8 => WireVerdict::Unstable,
            _ => WireVerdict::Unknown,
        }
    }

    /// The text shown for the verdict.
    pub fn text(self) -> (r: &'static str)
        ensures
            r@ == self.label()@,
    {
        match self {
            WireVerdict::Unknown => "no target",
            WireVerdict::Okay => "OK",
            WireVerdict::SwclkOpen => "SWCLK BAD",
            WireVerdict::SwdioOpen => "SWDIO BAD",
            WireVerdict::BothOpen => "BOTH OPEN",
            WireVerdict::NoTarget => "no target",
            WireVerdict::PwrParasitic => "PWR/AP fail",
            WireVerdict::GndBad => "GND BAD",
            WireVerdict::Unstable => "UNSTABLE",
        }
    }

    /// Whether the chip is shown rather than what is wrong with the wiring.
    pub fn shows_chip(self) -> (r: bool)
        ensures
            r == (self is Okay || self is Unknown),
    {
        matches!(self, WireVerdict::Okay | WireVerdict::Unknown)
    }

    /// A verdict survives being carried as a byte.
    pub proof fn code_round_trip(self)
        ensures
            WireVerdict::of_code(self.code()) == self,
    {
    }
}

/// Edges of SWCLK in a capture from which on the clock counts as running.
pub const EDGE_MIN: u32 = 4;

/// DP score from which on the DP counts as stable.
pub const DP_GOOD: u32 = 12;

/// DP score that a good link has.
pub const DP_OK: u32 = 14;

/// AP score that a good link has.
pub const AP_OK: u32 = 14;

/// The verdict. The wires come first, as the test of the wires saw them; `edges`, the edges
/// of SWCLK in a capture, counts only where one was made and nothing answered.
pub open spec fn verdict_of(
    lines: LineStatus,
    captured: bool,
    edges: u32,
    dp: u32,
    ap: u32,
) -> WireVerdict {
    if !lines.dio && !lines.clk {
        WireVerdict::BothOpen
    } else if !lines.clk {
        WireVerdict::SwclkOpen
    } else if !lines.dio {
        WireVerdict::SwdioOpen
    } else if dp == 0 && captured && edges < EDGE_MIN {
        WireVerdict::SwclkOpen
    } else if dp == 0 {
        WireVerdict::NoTarget
    } else if dp < DP_GOOD {
        WireVerdict::GndBad
    } else if ap == 0 {
        WireVerdict::PwrParasitic
    } else if dp >= DP_OK && ap >= AP_OK {
        WireVerdict::Okay
    } else {
        WireVerdict::Unstable
    }
}

/// The verdict on the wiring.
pub fn classify(lines: LineStatus, captured: bool, ce: u32, dp: u32, ap: u32) -> (r: WireVerdict)
    ensures
        r == verdict_of(lines, captured, ce, dp, ap),
{
    if !lines.dio && !lines.clk {
        return WireVerdict::BothOpen;
    }
    if !lines.clk {
        return WireVerdict::SwclkOpen;
    }
    if !lines.dio {
        return WireVerdict::SwdioOpen;
    }
    if dp == 0 {
        if captured && ce < EDGE_MIN {
            return WireVerdict::SwclkOpen;
        }
        return WireVerdict::NoTarget;
    }
    if dp < DP_GOOD {
        return WireVerdict::GndBad;
    }
    if ap == 0 {
        return WireVerdict::PwrParasitic;
    }
    if dp >= DP_OK && ap >= AP_OK {
        return WireVerdict::Okay;
    }
    WireVerdict::Unstable
}

/// SWCLK is blamed only where the test of the wires found it open, or where a capture was
/// made and saw next to no edges: a silent target alone is no broken clock wire.
pub proof fn silence_alone_is_not_a_broken_clock(
    lines: LineStatus,
    captured: bool,
    edges: u32,
    dp: u32,
    ap: u32,
)
    ensures
        verdict_of(lines, captured, edges, dp, ap) is SwclkOpen ==> !lines.clk || (captured && edges
            < EDGE_MIN),
        lines.clk && lines.dio && !captured && dp == 0 ==> verdict_of(
            lines,
            captured,
            edges,
            dp,
            ap,
        ) is NoTarget,
{
}

/// Wiring that is fine stays fine when both scores rise.
pub proof fn higher_scores_stay_okay(
    lines: LineStatus,
    captured: bool,
    edges: u32,
    dp: u32,
    ap: u32,
    dp2: u32,
    ap2: u32,
)
    requires
        verdict_of(lines, captured, edges, dp, ap) is Okay,
        dp2 >= dp,
        ap2 >= ap,
    ensures
        verdict_of(lines, captured, edges, dp2, ap2) is Okay,
{
}

/// When each verdict comes: open wires first; with both connected, silence, where a capture
/// with fewer than four edges means that the clock is dead; a DP that answers, but in fewer
/// than 12 readings of 16; an AP that never does; and all is well from 14 on for both.
pub proof fn verdicts_follow_the_readings(
    lines: LineStatus,
    captured: bool,
    edges: u32,
    dp: u32,
    ap: u32,
)
    ensures
        ({
            let v = verdict_of(lines, captured, edges, dp, ap);
            let both = lines.dio && lines.clk;
            let dead = captured && edges <= 3;
            &&& v is BothOpen <==> !lines.dio && !lines.clk
            &&& v is SwdioOpen <==> !lines.dio && lines.clk
            &&& v is SwclkOpen <==> lines.dio && !lines.clk || both && dp == 0 && dead
            &&& v is NoTarget <==> both && dp == 0 && !dead
            &&& v is GndBad <==> both && 1 <= dp <= 11
            &&& v is PwrParasitic <==> both && dp >= 12 && ap == 0
            &&& v is Okay <==> both && dp >= 14 && ap >= 14
            &&& v is Unstable <==> both && dp >= 12 && ap >= 1 && (dp <= 13 || ap <= 13)
            &&& v !is Unknown
        }),
{
}

/// A byte that no verdict has, and the byte from before the first, stand for no verdict; the
/// bytes of the verdicts are the smallest.
pub proof fn other_bytes_are_no_verdict(v: u8, w: WireVerdict)
    ensures
        v == 0 || v > 8 ==> WireVerdict::of_code(v) is Unknown,
        1 <= v <= 8 ==> WireVerdict::of_code(v).code() == v,
        w.code() <= 8,
{
}

/// The chip is shown exactly where nothing is wrong with the wiring or nothing is known of it.
pub proof fn chips_are_shown_without_trouble(v: WireVerdict, r: bool)
    requires
        call_ensures(WireVerdict::shows_chip, (v,), r),
    ensures
        r <==> v == WireVerdict::Okay || v == WireVerdict::Unknown,
{
}

} // verus!
