use std::collections::HashMap;

use debugprobe::dap::detect::Answer;
use debugprobe::dap::script::Step;
use debugprobe::dap::swd::{SwdReply, SwdRequest};
use debugprobe::dap::types::{Ack, LinkQuality, RdpLevel, TargetInfo};
use debugprobe::dap::Dap;
use debugprobe::probe::{LineStatus, Probe};
use debugprobe::scan::{step_down, step_up, Action, ScanPhase, ScanState, Scanner, SPEED_STEPS};
use debugprobe::state::{TargetShared, WaveRing};
use debugprobe::wiring::WireVerdict;

fn dap() -> Dap {
    Dap::new(Probe::new(0, 4, 4, 9, 125_000_000, true), "serial", "product")
}

fn ok(val: u32) -> SwdReply {
    SwdReply { ack: Ack::Okay, val }
}

fn silent() -> SwdReply {
    SwdReply { ack: Ack::Protocol, val: 0 }
}

/// A target on the wire.
struct Chip {
    dpidr: u32,
    /// Answers only after it was selected on its bus.
    multidrop: bool,
    selected: bool,
    power: bool,
    tar: u32,
    posted: u32,
    mem: HashMap<u32, u32>,
    /// Answers to nothing.
    gone: bool,
    /// Accesses through the AP that fail, from now on.
    ap_fails: u32,
    transfers: u32,
}

impl Chip {
    fn new(dpidr: u32, mem: &[(u32, u32)]) -> Chip {
        Chip {
            dpidr,
            multidrop: false,
            selected: false,
            power: false,
            tar: 0,
            posted: 0,
            mem: mem.iter().copied().collect(),
            gone: false,
            ap_fails: 0,
            transfers: 0,
        }
    }

    fn stm32() -> Chip {
        Chip::new(
            0x2BA0_1477,
            &[
                (0xE000_ED00, 0x410F_C241),
                (0xE00F_FFE4, 0x04),
                (0xE00F_FFE8, 0x0A),
                (0xE00F_FFD0, 0x00),
                (0xE004_2000, 0x1000_6433),
                (0x4002_3C14, 0x0FFF_AAED),
            ],
        )
    }

    fn rp2040() -> Chip {
        let mut c = Chip::new(0x0BC1_2477, &[(0xE000_ED00, 0x410C_C601)]);
        c.multidrop = true;
        c
    }

    fn reply(&mut self, t: &SwdRequest) -> SwdReply {
        self.transfers += 1;
        if self.gone {
            return silent();
        }
        if !t.prelude.is_empty() {
            let bits: u32 = t.prelude.iter().map(|p| p.bits).sum();
            self.selected = bits >= 335;
        }
        if self.multidrop && !self.selected {
            return silent();
        }
        let (ap, read, a) = (t.request & 1 != 0, t.request & 2 != 0, t.request >> 2 & 3);
        match (ap, read, a) {
            (false, true, 0) => ok(self.dpidr),
            (false, false, 1) => {
                self.power = t.wdata & 0x5000_0000 == 0x5000_0000;
                ok(0)
            }
            (false, true, 1) => ok(if self.power { 0xF000_0040 } else { 0 }),
            (false, false, _) => ok(0),
            (false, true, 3) => ok(self.posted),
            (true, _, _) if self.ap_fails > 0 => {
                self.ap_fails -= 1;
                SwdReply { ack: Ack::Fault, val: 0 }
            }
            (true, false, 1) => {
                self.tar = t.wdata;
                ok(0)
            }
            (true, false, _) => ok(0),
            (true, true, 3) => {
                let before = self.posted;
                self.posted = self.mem.get(&self.tar).copied().unwrap_or(0);
                ok(before)
            }
            _ => silent(),
        }
    }
}

fn run<T>(mut ask: impl FnMut(&[SwdReply]) -> Step<T>, chip: &mut Chip) -> (T, usize) {
    let mut log = Vec::new();
    loop {
        match ask(&log) {
            Step::Need(t) => log.push(chip.reply(&t)),
            Step::Done(r, n) => {
                assert_eq!(n, log.len());
                return (r, n);
            }
        }
    }
}

#[test]
fn wakeup_sequence() {
    let w: Vec<(u32, u32)> = dap().swd_wakeup().iter().map(|r| (r.bits, r.data)).collect();
    let ones = (32, 0xFFFF_FFFF);
    assert_eq!(w, vec![ones, ones, (16, 0xE79E), ones, ones, (8, 0)]);
}

#[test]
fn selection_sequence() {
    let s = dap().rp2040_select_sequence();
    assert_eq!(s.iter().map(|r| r.bits).sum::<u32>(), 335);
    let d: Vec<(u32, u32)> = s.iter().map(|r| (r.bits, r.data)).collect();
    assert_eq!(
        d[..9],
        [
            (32, 0xFFFF_FFFF),
            (22, 0x0007_FFFF),
            (31, 0x33BB_BBBA),
            (8, 0xFF),
            (32, 0x6209_F392),
            (32, 0x8685_2D95),
            (32, 0xE3DD_AFE9),
            (32, 0x19BC_0EA2),
            (12, 0x1A0),
        ]
    );
    let ts = 0x1F99u128 | (0x0100_2927u128 << 13) | (((0x0100_2927u32.count_ones() % 2) as u128) << 45);
    let all = 0x0007_FFFF_FFFF_FFFFu128 | (ts << 54);
    let want: Vec<(u32, u32)> = vec![
        (32, all as u32),
        (32, (all >> 32) as u32),
        (32, (all >> 64) as u32),
        (6, (all >> 96) as u32),
    ];
    assert_eq!(d[9..], want);
}

#[test]
fn stm32_is_detected() {
    let d = dap();
    let mut chip = Chip::stm32();
    let (info, _) = run(|log| d.detect_target(log), &mut chip);
    assert_eq!(
        info,
        Some(TargetInfo {
            designer: 0x020,
            devid: 0x433,
            part: 0,
            rdp: RdpLevel::Open,
            core: 0xC24,
        })
    );
}

#[test]
fn read_protection_of_each_family() {
    let d = dap();
    for (idcode, addr, value, want) in [
        (0x433, 0x4002_3C14, 0x0FFF_55ED, RdpLevel::Level1),
        (0x433, 0x4002_3C14, 0x0FFF_CCED, RdpLevel::Level2),
        (0x410, 0x4002_201C, 0x03FF_FFFE, RdpLevel::Level1),
        (0x410, 0x4002_201C, 0x03FF_FFFC, RdpLevel::Open),
        (0x468, 0x4002_2020, 0xFFEF_F8AA, RdpLevel::Open),
        (0x468, 0x4002_2020, 0xFFEF_F8CC, RdpLevel::Level2),
        (0x450, 0x4002_2020, 0xFFEF_F8CC, RdpLevel::Unknown),
    ] {
        let mut chip = Chip::stm32();
        chip.mem.insert(0xE004_2000, 0x1000_6000 | idcode);
        chip.mem.insert(addr, value);
        let (info, _) = run(|log| d.detect_target(log), &mut chip);
        assert_eq!(info.unwrap().rdp, want);
    }
}

#[test]
fn nordic_is_detected() {
    let d = dap();
    let mut chip = Chip::stm32();
    chip.mem.insert(0xE00F_FFE4, 0x40);
    chip.mem.insert(0xE00F_FFE8, 0x0C);
    chip.mem.insert(0xE00F_FFD0, 0x04);
    chip.mem.insert(0x1000_0100, 0x52832);
    let (info, _) = run(|log| d.detect_target(log), &mut chip);
    let info = info.unwrap();
    assert_eq!((info.designer, info.devid, info.part), (0x244, 0, 0x52832));
}

#[test]
fn rp2040_is_detected() {
    let mut d = dap();
    let mut chip = Chip::rp2040();
    let (a, _) = run(|log| d.find_target(log), &mut chip);
    assert_eq!(a, Answer::Rp2040);
    d.rp2040 = true;
    let (info, _) = run(|log| d.detect_target(log), &mut chip);
    assert_eq!(
        info,
        Some(TargetInfo {
            designer: 0x493,
            devid: 0xFFE,
            part: 0,
            rdp: RdpLevel::Unknown,
            core: 0xC60,
        })
    );
    let (q, _) = run(|log| d.link_quality(log), &mut chip);
    assert_eq!(q, LinkQuality { dp: 16, ap: 16 });
}

#[test]
fn silence() {
    let d = dap();
    let mut chip = Chip::stm32();
    chip.gone = true;
    assert_eq!(run(|log| d.find_target(log), &mut chip), (Answer::Silent, 20));
    assert_eq!(run(|log| d.detect_target(log), &mut chip), (None, 12));
    assert_eq!(run(|log| d.link_quality(log), &mut chip), (LinkQuality { dp: 0, ap: 0 }, 16));
    assert_eq!(run(|log| d.swd_read_dpidr(log), &mut chip), (false, 12));
}

#[test]
fn single_drop_targets_are_not_selected() {
    let d = dap();
    let mut log = vec![silent(); 11];
    match d.find_target(&log) {
        Step::Need(t) => assert_eq!((t.request, t.prelude.len()), (0x02, 0)),
        Step::Done(..) => panic!("done"),
    }
    log.push(ok(0x1BA0_1477));
    assert!(matches!(d.find_target(&log), Step::Done(Answer::Single, 12)));
}

#[test]
fn blank_targets_are_not_reported() {
    let d = dap();
    let mut chip = Chip::new(0x2BA0_1477, &[]);
    let (info, _) = run(|log| d.detect_target(log), &mut chip);
    assert_eq!(info, None);
}

#[test]
fn values_are_believed_when_read_twice() {
    // CPUID reads C24, then C23, then C23.
    let d = dap();
    let mut log = vec![ok(0x2BA0_1477), ok(0), ok(0), ok(0), ok(0xF000_0000)];
    for v in [0x410F_C241u32, 0x410F_C231] {
        log.extend([ok(0), ok(0), ok(0), ok(v)]);
    }
    assert!(matches!(d.detect_target(&log), Step::Need(t) if t.request == 0x01));
    log.extend([ok(0), ok(0), ok(0), ok(0x410F_C231)]);
    // The next word is the first register of the ROM table.
    log.extend([ok(0)]);
    match d.detect_target(&log) {
        Step::Need(t) => assert_eq!((t.request, t.wdata), (0x05, 0xE00F_FFE4)),
        Step::Done(..) => panic!("done"),
    }
}

#[test]
fn read_protected_targets_have_no_ap() {
    let d = dap();
    let mut chip = Chip::stm32();
    chip.mem.clear();
    assert_eq!(run(|log| d.link_quality(log), &mut chip).0, LinkQuality { dp: 16, ap: 0 });
    let mut flaky = Chip::stm32();
    flaky.ap_fails = 3;
    assert_eq!(run(|log| d.link_quality(log), &mut flaky).0, LinkQuality { dp: 16, ap: 13 });
}

#[test]
fn detection_ends() {
    let d = dap();
    let mut chip = Chip::stm32();
    chip.ap_fails = 1000;
    let (info, n) = run(|log| d.detect_target(log), &mut chip);
    assert_eq!(info, None);
    assert!(n <= 155);
}

#[test]
fn speed_ladder() {
    for i in 0..6 {
        assert_eq!(step_up(SPEED_STEPS[i]), SPEED_STEPS[i + 1]);
        assert_eq!(step_down(SPEED_STEPS[i + 1]), SPEED_STEPS[i]);
    }
    assert_eq!(step_up(1000), 1000);
    assert_eq!(step_up(5000), 1000);
    assert_eq!(step_up(0), 10);
    assert_eq!(step_up(70), 100);
    assert_eq!(step_down(10), 10);
    assert_eq!(step_down(3), 3);
    assert_eq!(step_down(70), 50);
    assert_eq!(step_down(5000), 1000);
}

#[test]
fn speed_is_chosen() {
    let mut s = ScanState::new();
    s.choose_speed(16, 0);
    assert_eq!((s.cur, s.stable), (30, 10));
    s.choose_speed(12, 0);
    assert_eq!((s.cur, s.stable), (50, 30));
    s.choose_speed(11, 0);
    assert_eq!((s.cur, s.stable, s.bad), (50, 30, 1));
    s.choose_speed(0, 0);
    assert_eq!((s.cur, s.stable, s.ceiling, s.settled), (30, 30, Some(50), true));
    // It is time to try again: the limit is lifted.
    s.choose_speed(16, 5_000_000);
    assert_eq!((s.cur, s.ceiling, s.last_probe), (50, None, Some(5_000_000)));
    s.choose_speed(16, 6_000_000);
    assert_eq!(s.cur, 50);
    s.choose_speed(16, 16_999_999);
    assert_eq!(s.cur, 50);
    s.choose_speed(16, 17_000_000);
    assert_eq!(s.cur, 100);
}

#[test]
fn good_rounds_climb_to_the_top() {
    let mut s = ScanState::new();
    assert_eq!((s.cur, s.ceiling), (10, None));
    for khz in [30, 50, 100, 250, 500, 1000, 1000, 1000] {
        let before = s.cur;
        s.choose_speed(16, 0);
        assert_eq!((s.cur, s.stable, s.ceiling), (khz, before, None));
    }
    // The highest speed fails twice: it becomes the limit, and is tried again once lifted.
    s.choose_speed(0, 1_000_000);
    s.choose_speed(0, 2_000_000);
    assert_eq!((s.cur, s.stable, s.ceiling), (500, 1000, Some(1000)));
    s.choose_speed(16, 3_000_000);
    assert_eq!((s.cur, s.stable, s.ceiling), (1000, 500, None));
}

#[test]
fn verdicts_are_debounced() {
    let mut s = ScanState::new();
    assert!(!s.note_verdict(WireVerdict::Okay));
    assert!(!s.note_verdict(WireVerdict::Okay));
    assert!(s.note_verdict(WireVerdict::Okay));
    assert!(!s.note_verdict(WireVerdict::GndBad));
    assert!(!s.note_verdict(WireVerdict::Okay));
    for _ in 0..300 {
        s.note_verdict(WireVerdict::Okay);
    }
    assert_eq!(s.streak, 255);
}

struct Bench {
    scan: Scanner,
    dap: Dap,
    target: TargetShared,
    wave: WaveRing,
    tested: u32,
    captures: u32,
    clocks: Vec<u32>,
}

impl Bench {
    fn new() -> Bench {
        Bench {
            scan: Scanner::new(),
            dap: dap(),
            target: TargetShared::new(),
            wave: WaveRing::new(),
            tested: 0,
            captures: 0,
            clocks: Vec::new(),
        }
    }

    /// Runs a round at the time `now`.
    fn round(&mut self, chip: &mut Chip, lines: LineStatus, now: u64) {
        let mut a = self.scan.begin(&mut self.dap, &mut self.target, &mut self.wave);
        loop {
            a = match a {
                Action::TestLines => {
                    self.tested += 1;
                    self.scan.lines_known(&mut self.dap, &mut self.target, &mut self.wave, lines)
                }
                Action::Transfer { clock, capture, request } => {
                    if let Some(r) = clock {
                        self.clocks.push(r);
                    }
                    self.captures += capture as u32;
                    let r = chip.reply(&request);
                    self.scan.replied(&mut self.dap, &mut self.target, &mut self.wave, r, now)
                }
                Action::FinishCapture { wait_ms } => {
                    assert_eq!(wait_ms, 20);
                    let buf = [0x4444_4444u32; 16];
                    self.scan.captured(&mut self.dap, &mut self.target, &mut self.wave, &buf)
                }
                Action::Finish { restored } => {
                    assert_eq!(restored, self.dap.probe.divider());
                    break;
                }
            };
        }
        assert_eq!(self.scan.phase, ScanPhase::Ready);
    }
}

const BOTH: LineStatus = LineStatus { dio: true, clk: true };

#[test]
fn round_with_a_target() {
    let mut b = Bench::new();
    let mut chip = Chip::stm32();
    b.round(&mut chip, BOTH, 0);
    assert_eq!((b.tested, b.captures), (1, 1));
    assert_eq!(b.clocks, vec![3125 * 256]);
    assert!(b.target.valid());
    assert_eq!(b.target.devid(), 0x433);
    assert_eq!(b.target.rdp(), RdpLevel::Open);
    assert_eq!(b.target.link(), LinkQuality { dp: 16, ap: 16 });
    assert_eq!((b.target.used_khz(), b.target.stable_khz()), (10, 10));
    assert_eq!(b.scan.st.cur, 30);
    // The host has chosen no clock, so the stable one is left in force.
    assert_eq!(b.dap.swclk_khz(), 10);
    assert_eq!(b.dap.stable_khz, 10);
    assert_eq!(b.target.verdict(), WireVerdict::Unknown);
    b.round(&mut chip, BOTH, 1);
    b.round(&mut chip, BOTH, 2);
    assert_eq!(b.target.verdict(), WireVerdict::Okay);
    // The wires of a link that works are left alone.
    assert_eq!(b.tested, 1);
}

#[test]
fn six_good_rounds_reach_the_highest_speed() {
    let mut b = Bench::new();
    let mut chip = Chip::stm32();
    for (i, khz) in [30, 50, 100, 250, 500, 1000].into_iter().enumerate() {
        b.round(&mut chip, BOTH, i as u64);
        assert_eq!(b.scan.st.cur, khz);
    }
    b.round(&mut chip, BOTH, 6);
    assert_eq!((b.target.used_khz(), b.target.stable_khz()), (1000, 1000));
    assert_eq!(b.dap.swclk_khz(), 1000);
}

#[test]
fn hosts_keep_their_clock() {
    let mut b = Bench::new();
    b.dap.host_clk_set = true;
    b.dap.set_swclk_khz(1000);
    b.round(&mut Chip::stm32(), BOTH, 0);
    assert_eq!(b.dap.swclk_khz(), 1000);
}

#[test]
fn target_that_leaves() {
    let mut b = Bench::new();
    let mut chip = Chip::stm32();
    for i in 0..3 {
        b.round(&mut chip, BOTH, i);
    }
    chip.gone = true;
    let open = LineStatus { dio: false, clk: true };
    b.round(&mut chip, open, 3);
    assert!(b.target.valid());
    assert_eq!((b.target.used_khz(), b.target.link().dp), (0, 0));
    assert_eq!(b.tested, 1);
    b.round(&mut chip, open, 4);
    assert!(!b.target.valid());
    assert_eq!(b.tested, 2);
    assert_eq!(b.target.flaps(), (0, 1));
    b.round(&mut chip, open, 5);
    b.round(&mut chip, open, 6);
    assert_eq!(b.target.verdict(), WireVerdict::SwdioOpen);
    assert_eq!(b.target.lines(), open);
    b.round(&mut chip, BOTH, 7);
    assert_eq!(b.target.flaps(), (0, 2));
}

#[test]
fn sweep_goes_down_to_the_lowest_speed() {
    let mut b = Bench::new();
    b.scan.st.cur = 250;
    let mut chip = Chip::stm32();
    chip.gone = true;
    b.round(&mut chip, BOTH, 0);
    assert_eq!(b.clocks.len(), 5);
    assert_eq!(b.clocks[4], 3125 * 256);
    assert_eq!((b.scan.st.cur, b.scan.st.ceiling), (10, Some(30)));
    assert_eq!(chip.transfers, 5 * 20);
    assert_eq!(b.target.probe_khz(), 10);
    assert!(!b.dap.rp2040);
}

#[test]
fn rp2040_is_scanned() {
    let mut b = Bench::new();
    b.round(&mut Chip::rp2040(), BOTH, 0);
    assert!(b.dap.rp2040);
    assert_eq!(b.target.devid(), 0xFFE);
}
