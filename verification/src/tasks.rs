//! What the tasks decide: when to serve the host and when to scan the target, and what the
//! display shows.
use vstd::prelude::*;

use crate::chipdb::{
    chip_name, core_name, named, vendor_name, CHIP_NAMES, CORE_NAMES, VENDOR_NAMES,
};
use crate::dap::types::RdpLevel;
use crate::display::{bars_ok, Bar, OledModel, PANEL_X};
use crate::state::{columns_from, TargetShared, WaveRing};
use crate::text::{
    ascii_lines_are_whole, dec, hex, joined, line_as_str, line_new, line_push_dec, line_push_hex,
    line_push_str, line_text, numeral, numeral_is_ascii, numerals_are_short, writing, written,
};
use crate::wiring::WireVerdict;

verus! {

/// How long the port waits for a host to appear, in milliseconds.
pub const FAST_MS: u64 = 250;

/// How long the port waits for a command of a host that is there, in milliseconds.
pub const SLOW_MS: u64 = 300;

/// How long after a command the wiring is left alone, in microseconds.
pub const GUARD_US: u64 = 2_000_000;

/// What the firmware was built for.
#[derive(Clone, Copy, PartialEq, Eq, Structural, Debug)]
pub struct Mode {
    /// The target is scanned at all.
    pub active_detect: bool,
    /// It is scanned while a host is there too.
    pub force_detect: bool,
    /// The same, but not within two seconds of a command.
    pub wiring_monitor: bool,
}

/// What woke the DAP task.
#[derive(Clone, Copy, PartialEq, Eq, Structural, Debug)]
pub enum Wake {
    /// A bulk packet of this length; none where the read failed.
    Bulk(Option<usize>),
    /// A HID report, or a read that failed.
    Hid(bool),
    /// The host is there and sent nothing in time.
    Quiet,
    /// There is no host.
    NoHost,
}

/// What the DAP task does.
#[derive(Clone, Copy, PartialEq, Eq, Structural, Debug)]
pub enum Duty {
    /// Serve the bulk packet and send the answer, if it has bytes.
    ServeBulk(usize),
    /// Serve the HID report with an answer that starts out as zeros, and send all of it.
    ServeHid,
    /// Scan the target.
    Scan,
    /// Wait again.
    Wait,
}

/// What the DAP task sends back.
#[derive(Clone, Copy, PartialEq, Eq, Structural, Debug)]
pub enum Reply {
    Nothing,
    /// This many bytes of the answer, as one bulk packet.
    Bulk(usize),
    /// The whole answer buffer, as one HID report.
    Report,
}

impl Duty {
    /// What goes back for a duty whose answer has `len` bytes.
    pub open spec fn replied(self, len: usize) -> Reply {
        match self {
            Duty::ServeBulk(_) => if len > 0 {
                Reply::Bulk(len)
            } else {
                Reply::Nothing
            },
            Duty::ServeHid => Reply::Report,
            Duty::Scan | Duty::Wait => Reply::Nothing,
        }
    }

    /// Decides what is sent back, given the length of the answer.
    pub fn reply(self, len: usize) -> (r: Reply)
        ensures
            r == self.replied(len),
    {
        match self {
            Duty::ServeBulk(_) => {
                if len > 0 {
                    Reply::Bulk(len)
                } else {
                    Reply::Nothing
                }
            },
            Duty::ServeHid => Reply::Report,
            Duty::Scan | Duty::Wait => Reply::Nothing,
        }
    }
}

/// The DAP task.
#[derive(Clone, Copy, PartialEq, Eq, Structural, Debug)]
pub struct DapTask {
    pub mode: Mode,
    /// When the last command came in, in microseconds.
    pub last_host: Option<u64>,
}

impl DapTask {
    /// A command came in: from a host that is there.
    pub open spec fn is_command(w: Wake) -> bool {
        match w {
            Wake::Bulk(Some(n)) => n > 0,
            Wake::Hid(true) => true,
            _ => false,
        }
    }

    /// There is nothing to serve, and the build allows for a scan then.
    pub open spec fn is_idle(self, w: Wake) -> bool {
        match w {
            Wake::NoHost => true,
            Wake::Quiet => self.mode.force_detect || self.mode.wiring_monitor,
            _ => false,
        }
    }

    /// The last command is long enough ago.
    pub open spec fn is_clear(self, now: u64) -> bool {
        !self.mode.wiring_monitor || match self.last_host {
            Some(t) => now - t >= GUARD_US,
            None => true,
        }
    }

    /// What an event leads to.
    pub open spec fn duty(self, w: Wake, now: u64) -> Duty {
        match w {
            Wake::Bulk(Some(n)) if n > 0 => Duty::ServeBulk(n),
            Wake::Hid(true) => Duty::ServeHid,
            _ => if self.mode.active_detect && self.is_idle(w) && self.is_clear(now) {
                Duty::Scan
            } else {
                Duty::Wait
            },
        }
    }

    /// The task after an event: the build that watches the wiring notes when a command came.
    pub open spec fn after(self, w: Wake, now: u64) -> DapTask {
        if DapTask::is_command(w) && self.mode.wiring_monitor {
            DapTask { last_host: Some(now), ..self }
        } else {
            self
        }
    }

    pub fn new(mode: Mode) -> (r: Self)
        ensures
            r == (DapTask { mode, last_host: None }),
    {
        DapTask { mode, last_host: None }
    }

    /// Decides what an event at the time `now` leads to.
    pub fn step(&mut self, w: Wake, now: u64) -> (r: Duty)
        requires
            old(self).last_host matches Some(t) ==> t <= now,
        ensures
            r == old(self).duty(w, now),
            *final(self) == old(self).after(w, now),
            *final(self) == if DapTask::is_command(w) && old(self).mode.wiring_monitor {
                DapTask { last_host: Some(now), ..*old(self) }
            } else {
                *old(self)
            },
    {
        let idle: bool = match w {
            Wake::Bulk(Some(n)) => {
                if n > 0 {
                    if self.mode.wiring_monitor {
                        self.last_host = Some(now);
                    }
                    return Duty::ServeBulk(n);
                }
                false
            },
            Wake::Hid(true) => {
                if self.mode.wiring_monitor {
                    self.last_host = Some(now);
                }
                return Duty::ServeHid;
            },
            Wake::Quiet => self.mode.force_detect || self.mode.wiring_monitor,
            Wake::NoHost => true,
            _ => false,
        };
        let clear: bool = !self.mode.wiring_monitor || match self.last_host {
            Some(t) => now - t >= GUARD_US,
            None => true,
        };
        if self.mode.active_detect && idle && clear {
            Duty::Scan
        } else {
            Duty::Wait
        }
    }
}

/// Without the two diagnostic builds the target is never scanned while a host is there.
pub proof fn hosts_are_not_disturbed(t: DapTask, w: Wake, now: u64)
    requires
        !t.mode.force_detect,
        !t.mode.wiring_monitor,
    ensures
        t.duty(w, now) is Scan ==> w is NoHost,
{
}

/// Every bulk packet with bytes in it is served, and answered with one packet of exactly the
/// bytes of its answer, or with none where that is empty; every HID report is served and
/// answered with one report. Nothing else is answered, and in no build is the target scanned
/// unless the wait for a request ran out.
pub proof fn requests_are_answered_once(t: DapTask, w: Wake, now: u64, len: usize)
    ensures
        match w {
            Wake::Bulk(Some(n)) if n > 0 => {
                &&& t.duty(w, now) == Duty::ServeBulk(n)
                &&& t.duty(w, now).replied(len) == if len > 0 {
                    Reply::Bulk(len)
                } else {
                    Reply::Nothing
                }
            },
            Wake::Hid(true) => {
                &&& t.duty(w, now) is ServeHid
                &&& t.duty(w, now).replied(len) is Report
            },
            _ => t.duty(w, now).replied(len) is Nothing,
        },
        t.duty(w, now) is Scan ==> w is Quiet || w is NoHost,
{
}

/// The build that watches the wiring scans no sooner than two seconds after a command; a
/// build without scans never scans.
pub proof fn commands_are_given_time(t: DapTask, w: Wake, now: u64)
    ensures
        t.mode.wiring_monitor && t.duty(w, now) is Scan ==> match t.last_host {
            Some(at) => now - at >= GUARD_US,
            None => true,
        },
        !t.mode.active_detect ==> t.duty(w, now) !is Scan,
{
}

/// The pieces of the first line, for a target that is known: its chip, or else as much of
/// vendor and core as is known.
pub open spec fn chip_pieces(t: TargetShared) -> Seq<Seq<char>> {
    let part = t.part;
    let c = (t.core % 0x1_0000) as u16;
    let d = (t.designer % 0x1_0000) as u16;
    if t.device() != 0 {
        match named(CHIP_NAMES@, t.device(), 0) {
            Some(n) => seq![n@],
            None => seq!["STM32 0x"@, hex(t.device() as u32, 3)],
        }
    } else if 0x52000 <= part <= 0x55000 {
        seq!["nRF"@, hex(part, 1)]
    } else {
        match (named(VENDOR_NAMES@, d, 0), named(CORE_NAMES@, c, 0)) {
            (Some(v), Some(n)) => seq![v@, " "@, n@],
            (None, Some(n)) => seq![n@],
            (Some(v), None) => seq![v@],
            (None, None) => if c != 0 {
                seq!["core 0x"@, hex(c as u32, 3)]
            } else {
                seq!["vendor 0x"@, hex(d as u32, 3)]
            },
        }
    }
}

/// The chip is shown rather than what is wrong with the wiring.
pub open spec fn shows_chip(t: TargetShared) -> bool {
    let v = WireVerdict::of_code(t.verdict);
    v is Okay || v is Unknown
}

/// The first line.
pub open spec fn first_line(t: TargetShared) -> Seq<char> {
    written(
        if shows_chip(t) && t.has_target() {
            chip_pieces(t)
        } else if shows_chip(t) {
            seq!["no target"@]
        } else {
            seq![WireVerdict::of_code(t.verdict).label()@]
        },
    )
}

/// How a wire is shown.
pub open spec fn wire_label(connected: bool) -> Seq<char> {
    if connected {
        "OK"@
    } else {
        "X "@
    }
}

/// The second line: read protection and speed; the speed that is tried; or the two wires.
pub open spec fn second_line(t: TargetShared) -> Seq<char> {
    written(
        if shows_chip(t) && t.has_target() {
            seq![RdpLevel::of_code(t.flash).label()@, " "@, dec(t.used_khz), "k"@]
        } else if shows_chip(t) {
            seq!["probe "@, dec(t.probe_khz), "k"@]
        } else {
            seq![
                "CLK:"@,
                wire_label(t.seen_lines().clk),
                " DIO:"@,
                wire_label(t.seen_lines().dio),
            ]
        },
    )
}

/// The last line: the changes of the wires while new ones are being shown, otherwise the
/// stable speed and the one in use.
pub open spec fn last_line(t: TargetShared, flaps: bool) -> Seq<char> {
    written(
        if flaps {
            seq!["flpC"@, dec(t.clk_flaps), " D"@, dec(t.dio_flaps)]
        } else {
            seq!["S"@, dec(t.stable_khz), "k T"@, dec(t.used_khz), "k"@]
        },
    )
}

/// The four bars: the two wires, then the two scores of the link.
pub open spec fn target_bars(t: TargetShared) -> Seq<Bar> {
    let l = t.seen_lines();
    seq![
        Bar {
            label: "C",
            value: if l.clk {
                1
            } else {
                0
            },
            max: 1,
        },
        Bar {
            label: "D",
            value: if l.dio {
                1
            } else {
                0
            },
            max: 1,
        },
        Bar { label: "DP", value: (t.link_dp % 0x100) as u32, max: 16 },
        Bar { label: "AP", value: (t.link_ap % 0x100) as u32, max: 16 },
    ]
}

/// Makes the first line.
pub fn chip_line(t: &TargetShared) -> (r: heapless::String<21>)
    ensures
        line_text(r) == first_line(*t),
{
    let mut line = line_new();
    proof {
        reveal_with_fuel(writing, 5);
    }
    if !t.verdict().shows_chip() {
        let ok: bool = line_push_str(&mut line, t.verdict().text());
        assert(line_text(line) =~= first_line(*t));
        return line;
    }
    if !t.valid() {
        let ok: bool = line_push_str(&mut line, "no target");
        assert(line_text(line) =~= first_line(*t));
        return line;
    }
    let id: u16 = t.devid();
    let part: u32 = t.part();
    if id != 0 {
        match chip_name(id) {
            Some(n) => {
                let ok: bool = line_push_str(&mut line, n);
            },
            None => {
                let ok: bool = line_push_str(&mut line, "STM32 0x") && line_push_hex(
                    &mut line,
                    id as u32,
                    3,
                );
            },
        }
    } else if 0x52000 <= part && part <= 0x55000 {
        let ok: bool = line_push_str(&mut line, "nRF") && line_push_hex(&mut line, part, 1);
    } else {
        let c: u16 = t.core_part();
        let d: u16 = t.designer();
        let ok: bool = match (vendor_name(d), core_name(c)) {
            (Some(v), Some(n)) => line_push_str(&mut line, v) && line_push_str(&mut line, " ")
                && line_push_str(&mut line, n),
            (None, Some(n)) => line_push_str(&mut line, n),
            (Some(v), None) => line_push_str(&mut line, v),
            (None, None) => {
                if c != 0 {
                    line_push_str(&mut line, "core 0x") && line_push_hex(&mut line, c as u32, 3)
                } else {
                    line_push_str(&mut line, "vendor 0x") && line_push_hex(&mut line, d as u32, 3)
                }
            },
        };
    }
    assert(line_text(line) =~= first_line(*t));
    line
}

/// Makes the second line.
pub fn flash_line(t: &TargetShared) -> (r: heapless::String<21>)
    ensures
        line_text(r) == second_line(*t),
{
    let mut line = line_new();
    proof {
        reveal_with_fuel(writing, 5);
    }
    if t.verdict().shows_chip() {
        if t.valid() {
            let ok: bool = line_push_str(&mut line, t.rdp().short()) && line_push_str(
                &mut line,
                " ",
            ) && line_push_dec(&mut line, t.used_khz()) && line_push_str(&mut line, "k");
        } else {
            let ok: bool = line_push_str(&mut line, "probe ") && line_push_dec(
                &mut line,
                t.probe_khz(),
            ) && line_push_str(&mut line, "k");
        }
    } else {
        let l = t.lines();
        let clk = if l.clk {
            "OK"
        } else {
            "X "
        };
        let dio = if l.dio {
            "OK"
        } else {
            "X "
        };
        let ok: bool = line_push_str(&mut line, "CLK:") && line_push_str(&mut line, clk)
            && line_push_str(&mut line, " DIO:") && line_push_str(&mut line, dio);
    }
    assert(line_text(line) =~= second_line(*t));
    line
}

/// Makes the last line.
pub fn scale_line(t: &TargetShared, flaps: bool) -> (r: heapless::String<21>)
    ensures
        line_text(r) == last_line(*t, flaps),
{
    let mut line = line_new();
    proof {
        reveal_with_fuel(writing, 6);
    }
    if flaps {
        let (cf, df) = t.flaps();
        let ok: bool = line_push_str(&mut line, "flpC") && line_push_dec(&mut line, cf)
            && line_push_str(&mut line, " D") && line_push_dec(&mut line, df);
    } else {
        let ok: bool = line_push_str(&mut line, "S") && line_push_dec(&mut line, t.stable_khz())
            && line_push_str(&mut line, "k T") && line_push_dec(&mut line, t.used_khz())
            && line_push_str(&mut line, "k");
    }
    assert(line_text(line) =~= last_line(*t, flaps));
    line
}

/// How often the display is drawn, in milliseconds.
pub const OLED_MS: u64 = 250;

/// Frames for which new changes of the wires are shown.
pub const FLAP_HOLD: u8 = 12;

/// The display task: the changes of the wires it saw, and for how many frames more it shows
/// them.
#[derive(Clone, Copy, Debug)]
pub struct OledTask {
    pub prev_flaps: (u32, u32),
    pub flap_hold: u8,
}

/// A frame of the display, before it is laid out.
pub struct Scene {
    pub chip: heapless::String<21>,
    pub flash: heapless::String<21>,
    pub scale: heapless::String<21>,
    pub clk: [u32; 4],
    pub dio: [u32; 4],
    pub pos: usize,
    pub bars: [Bar; 4],
}

impl OledTask {
    /// Frames left for the changes, once those of this frame are known.
    pub open spec fn hold(self, t: TargetShared) -> u8 {
        if t.clk_flaps + t.dio_flaps > self.prev_flaps.0 + self.prev_flaps.1 {
            FLAP_HOLD
        } else {
            self.flap_hold
        }
    }

    /// The task after a frame.
    pub open spec fn after(self, t: TargetShared) -> OledTask {
        OledTask {
            prev_flaps: (t.clk_flaps, t.dio_flaps),
            flap_hold: if self.hold(t) > 0 {
                (self.hold(t) - 1) as u8
            } else {
                0
            },
        }
    }

    pub fn new() -> (r: Self)
        ensures
            r == (OledTask { prev_flaps: (0, 0), flap_hold: 0 }),
    {
        OledTask { prev_flaps: (0, 0), flap_hold: 0 }
    }

    /// Makes a frame of what is known of the target and of the picture of the wires.
    pub fn compose(&mut self, t: &TargetShared, wave: &WaveRing) -> (r: Scene)
        requires
            wave.wf(),
        ensures
            *final(self) == old(self).after(*t),
            line_text(r.chip) == first_line(*t),
            line_text(r.flash) == second_line(*t),
            line_text(r.scale) == last_line(*t, old(self).hold(*t) > 0),
            r.clk@ == wave.clk_words(),
            r.dio@ == wave.dio_words(),
            r.pos == wave.start(),
            columns_from(r.clk@, r.pos as int) == wave@.clk,
            columns_from(r.dio@, r.pos as int) == wave@.dio,
            r.bars@ == target_bars(*t),
            bars_ok(r.bars@),
    {
        let chip = chip_line(t);
        let flash = flash_line(t);
        let (cf, df) = t.flaps();
        if cf as u64 + df as u64 > self.prev_flaps.0 as u64 + self.prev_flaps.1 as u64 {
            self.flap_hold = FLAP_HOLD;
        }
        self.prev_flaps = (cf, df);
        let show: bool = self.flap_hold > 0;
        if show {
            self.flap_hold = self.flap_hold - 1;
        }
        let scale = scale_line(t, show);
        let l = t.lines();
        let q = t.link();
        let clk: u32 = if l.clk {
            1
        } else {
            0
        };
        let dio: u32 = if l.dio {
            1
        } else {
            0
        };
        let bars: [Bar; 4] = [
            Bar { label: "C", value: clk, max: 1 },
            Bar { label: "D", value: dio, max: 1 },
            Bar { label: "DP", value: q.dp as u32, max: 16 },
            Bar { label: "AP", value: q.ap as u32, max: 16 },
        ];
        assert(bars@ =~= target_bars(*t));
        Scene {
            chip,
            flash,
            scale,
            clk: wave.load_clk(),
            dio: wave.load_dio(),
            pos: wave.pos(),
            bars,
        }
    }
}

impl Scene {
    /// The frame as it is laid out.
    pub fn model(&self) -> (r: OledModel<'_>)
        ensures
            r.chip@ == line_text(self.chip),
            r.flash@ == line_text(self.flash),
            r.scale@ == line_text(self.scale),
            r.clk@ == self.clk@,
            r.dio@ == self.dio@,
            r.pos == self.pos,
            r.bars@ == self.bars@,
    {
        OledModel {
            chip: line_as_str(&self.chip),
            flash: line_as_str(&self.flash),
            clk: self.clk,
            dio: self.dio,
            pos: self.pos,
            scale: line_as_str(&self.scale),
            bars: self.bars.as_slice(),
        }
    }
}

/// A new change of a wire is shown for twelve frames, three seconds, and then no longer.
pub proof fn flaps_are_shown_for_twelve_frames(o: OledTask, t: TargetShared, n: nat)
    requires
        t.clk_flaps + t.dio_flaps > o.prev_flaps.0 + o.prev_flaps.1,
    ensures
        (after_frames(o, t, n).hold(t) > 0) == (n < 12),
    decreases n,
{
    if n > 0 {
        frames_count_down(o, t, (n - 1) as nat);
    }
}

/// The task after `n` frames in which nothing new is known.
pub open spec fn after_frames(o: OledTask, t: TargetShared, n: nat) -> OledTask
    decreases n,
{
    if n == 0 {
        o
    } else {
        after_frames(o, t, (n - 1) as nat).after(t)
    }
}

proof fn frames_count_down(o: OledTask, t: TargetShared, n: nat)
    requires
        t.clk_flaps + t.dio_flaps > o.prev_flaps.0 + o.prev_flaps.1,
    ensures
        after_frames(o, t, n + 1).prev_flaps == (t.clk_flaps, t.dio_flaps),
        after_frames(o, t, n + 1).flap_hold == if n < 11 {
            11 - n
        } else {
            0
        },
    decreases n,
{
    reveal_with_fuel(after_frames, 2);
    if n > 0 {
        frames_count_down(o, t, (n - 1) as nat);
        assert(after_frames(o, t, n + 1) == after_frames(o, t, n).after(t));
    }
}

proof fn short_numeral(v: u32)
    requires
        v <= 1000,
    ensures
        1 <= dec(v).len() <= 4,
{
    reveal_with_fuel(numeral, 5);
}

/// The second line keeps left of the bars, six dots to a character, at every speed that a
/// scan uses.
pub proof fn second_lines_keep_left_of_the_bars(t: TargetShared)
    requires
        t.used_khz <= 1000,
        t.probe_khz <= 1000,
    ensures
        6 * second_line(t).len() <= PANEL_X,
{
    reveal_strlit("RDP0");
    reveal_strlit("RDP1");
    reveal_strlit("RDP2");
    reveal_strlit("RDP?");
    reveal_strlit(" ");
    reveal_strlit("k");
    reveal_strlit("probe ");
    reveal_strlit("CLK:");
    reveal_strlit(" DIO:");
    reveal_strlit("OK");
    reveal_strlit("X ");
    short_numeral(t.used_khz);
    short_numeral(t.probe_khz);
    reveal_with_fuel(writing, 5);
}

/// When the target is scanned: in a build that scans at all, with no host there, or with a
/// quiet one in a diagnostic build; and in the build that watches the wiring only where the
/// last command is two seconds or more ago.
pub proof fn scans_take_place_when_idle(t: DapTask, w: Wake, now: u64)
    ensures
        t.duty(w, now) is Scan <==> {
            &&& t.mode.active_detect
            &&& w is NoHost || w is Quiet && (t.mode.force_detect || t.mode.wiring_monitor)
            &&& t.mode.wiring_monitor ==> (t.last_host matches Some(at) ==> now >= at + 2_000_000)
        },
        DapTask::is_command(w) <==> w == Wake::Hid(true) || (w matches Wake::Bulk(Some(n)) && n >= 1),
{
}

/// The first line: what is wrong with the wiring; or that there is no target; or the chip by
/// its name, by the number of its device, as an nRF by its part, or else by as much of
/// vendor and core as is known.
pub proof fn first_lines_tell_the_chip(t: TargetShared)
    ensures
        ({
            let v = WireVerdict::of_code(t.verdict);
            let quiet = v is Okay || v is Unknown;
            let d = (t.designer % 0x1_0000) as u16;
            let c = (t.core % 0x1_0000) as u16;
            let vendor = named(VENDOR_NAMES@, d, 0);
            let core = named(CORE_NAMES@, c, 0);
            &&& !quiet ==> first_line(t) == written(seq![v.label()@])
            &&& quiet && t.devid < 0x8000_0000 ==> first_line(t) == written(seq!["no target"@])
            &&& quiet && t.devid >= 0x8000_0000 ==> {
                &&& t.devid % 0x1000 != 0 ==> match named(
                    CHIP_NAMES@,
                    (t.devid % 0x1000) as u16,
                    0,
                ) {
                    Some(n) => first_line(t) == written(seq![n@]),
                    None => first_line(t) == written(
                        seq!["STM32 0x"@, hex((t.devid % 0x1000) as u32, 3)],
                    ),
                }
                &&& t.devid % 0x1000 == 0 && 0x5_2000 <= t.part <= 0x5_5000 ==> first_line(t)
                    == written(seq!["nRF"@, hex(t.part, 1)])
                &&& t.devid % 0x1000 == 0 && !(0x5_2000 <= t.part <= 0x5_5000) ==> {
                    &&& vendor is Some && core is Some ==> first_line(t) == written(
                        seq![vendor->0@, " "@, core->0@],
                    )
                    &&& vendor is None && core is Some ==> first_line(t) == written(
                        seq![core->0@],
                    )
                    &&& vendor is Some && core is None ==> first_line(t) == written(
                        seq![vendor->0@],
                    )
                    &&& vendor is None && core is None && c != 0 ==> first_line(t) == written(
                        seq!["core 0x"@, hex(c as u32, 3)],
                    )
                    &&& vendor is None && core is None && c == 0 ==> first_line(t) == written(
                        seq!["vendor 0x"@, hex(d as u32, 3)],
                    )
                }
            }
        }),
{
}

/// The second line, which always fits: for a target, its read protection and the speed at
/// which it answered; without one, the speed that is tried; with bad wiring, how each of the
/// two wires is.
pub proof fn second_lines_tell_speed_or_wires(t: TargetShared)
    ensures
        ({
            let v = WireVerdict::of_code(t.verdict);
            let quiet = v is Okay || v is Unknown;
            &&& quiet && t.devid >= 0x8000_0000 ==> second_line(t) == RdpLevel::of_code(
                t.flash,
            ).label()@ + " "@ + dec(t.used_khz) + "k"@
            &&& quiet && t.devid < 0x8000_0000 ==> second_line(t) == "probe "@ + dec(t.probe_khz)
                + "k"@
            &&& !quiet ==> second_line(t) == "CLK:"@ + (if t.clk_conn != 0 {
                "OK"@
            } else {
                "X "@
            }) + " DIO:"@ + (if t.dio_conn != 0 {
                "OK"@
            } else {
                "X "@
            })
        }),
{
    reveal_strlit("RDP0");
    reveal_strlit("RDP1");
    reveal_strlit("RDP2");
    reveal_strlit("RDP?");
    reveal_strlit(" ");
    reveal_strlit("k");
    reveal_strlit("probe ");
    reveal_strlit("CLK:");
    reveal_strlit(" DIO:");
    reveal_strlit("OK");
    reveal_strlit("X ");
    numerals_are_short(t.used_khz);
    numerals_are_short(t.probe_khz);
    numeral_is_ascii(t.used_khz as nat, 10);
    numeral_is_ascii(t.probe_khz as nat, 10);
    let pieces = if shows_chip(t) && t.has_target() {
        seq![RdpLevel::of_code(t.flash).label()@, " "@, dec(t.used_khz), "k"@]
    } else if shows_chip(t) {
        seq!["probe "@, dec(t.probe_khz), "k"@]
    } else {
        seq!["CLK:"@, wire_label(t.seen_lines().clk), " DIO:"@, wire_label(t.seen_lines().dio)]
    };
    joined_up_to_five(pieces);
    ascii_lines_are_whole(pieces);
    assert(second_line(t) == written(pieces));
}

/// The last line, where it fits: the changes of the two wires, or the stable speed and the
/// one in use.
pub proof fn last_lines_tell_changes_or_speeds(t: TargetShared)
    ensures
        dec(t.clk_flaps).len() + dec(t.dio_flaps).len() <= 15 ==> last_line(t, true) == "flpC"@
            + dec(t.clk_flaps) + " D"@ + dec(t.dio_flaps),
        dec(t.stable_khz).len() + dec(t.used_khz).len() <= 16 ==> last_line(t, false) == "S"@ + dec(
            t.stable_khz,
        ) + "k T"@ + dec(t.used_khz) + "k"@,
{
    reveal_strlit("flpC");
    reveal_strlit(" D");
    reveal_strlit("S");
    reveal_strlit("k T");
    reveal_strlit("k");
    numeral_is_ascii(t.clk_flaps as nat, 10);
    numeral_is_ascii(t.dio_flaps as nat, 10);
    numeral_is_ascii(t.stable_khz as nat, 10);
    numeral_is_ascii(t.used_khz as nat, 10);
    let flaps = seq!["flpC"@, dec(t.clk_flaps), " D"@, dec(t.dio_flaps)];
    let speeds = seq!["S"@, dec(t.stable_khz), "k T"@, dec(t.used_khz), "k"@];
    joined_up_to_five(flaps);
    joined_up_to_five(speeds);
    if dec(t.clk_flaps).len() + dec(t.dio_flaps).len() <= 15 {
        ascii_lines_are_whole(flaps);
    }
    if dec(t.stable_khz).len() + dec(t.used_khz).len() <= 16 {
        ascii_lines_are_whole(speeds);
    }
}

proof fn joined_up_to_five(p: Seq<Seq<char>>)
    requires
        3 <= p.len() <= 5,
    ensures
        p.len() == 3 ==> joined(p) == p[0] + p[1] + p[2],
        p.len() == 4 ==> joined(p) == p[0] + p[1] + p[2] + p[3],
        p.len() == 5 ==> joined(p) == p[0] + p[1] + p[2] + p[3] + p[4],
{
    reveal_with_fuel(joined, 6);
    let one = seq![p[0]];
    let two = seq![p[0], p[1]];
    let three = seq![p[0], p[1], p[2]];
    let four = seq![p[0], p[1], p[2], p[3]];
    assert(one.drop_last() =~= Seq::empty());
    assert(joined(one) =~= p[0]);
    assert(two.drop_last() =~= one);
    assert(three.drop_last() =~= two);
    assert(four.drop_last() =~= three);
    if p.len() == 3 {
        assert(p =~= three);
    } else if p.len() == 4 {
        assert(p =~= four);
    } else {
        assert(p.drop_last() =~= four);
    }
}

/// The bars show the two wires, full where connected, and the two scores out of 16.
pub proof fn bars_show_wires_and_scores(t: TargetShared)
    ensures
        ({
            let b = target_bars(t);
            &&& b.len() == 4
            &&& b[0].label == "C" && b[0].max == 1 && (b[0].value == 1 <==> t.clk_conn != 0)
            &&& b[1].label == "D" && b[1].max == 1 && (b[1].value == 1 <==> t.dio_conn != 0)
            &&& b[0].value <= 1 && b[1].value <= 1
            &&& b[2].label == "DP" && b[2].max == 16 && (t.link_dp <= 255 ==> b[2].value
                == t.link_dp)
            &&& b[3].label == "AP" && b[3].max == 16 && (t.link_ap <= 255 ==> b[3].value
                == t.link_ap)
        }),
{
}

/// In the build that watches the wiring, a command keeps scans away for two seconds, whatever
/// comes in between; the two seconds count from the last command.
pub proof fn commands_keep_scans_away(t: DapTask, w: Wake, w2: Wake, now: u64, later: u64)
    requires
        w == Wake::Hid(true) || (w matches Wake::Bulk(Some(n)) && n > 0),
        now <= later,
    ensures
        t.mode.wiring_monitor && later - now < 2_000_000 ==> !(t.after(w, now).duty(w2, later) is Scan),
        t.mode.wiring_monitor && later - now >= 2_000_000 && t.mode.active_detect ==> t.after(
            w,
            now,
        ).duty(Wake::Quiet, later) is Scan,
        !t.mode.wiring_monitor ==> t.after(w, now) == t,
        t.after(w, now).mode == t.mode,
        t.after(Wake::Quiet, now) == t && t.after(Wake::NoHost, now) == t && t.after(
            Wake::Hid(false),
            now,
        ) == t && t.after(Wake::Bulk(None), now) == t && t.after(Wake::Bulk(Some(0)), now) == t,
{
}

} // verus!
