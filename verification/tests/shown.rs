use debugprobe::autobaud::{estimate, AutoBaud};
use debugprobe::dap::types::{LinkQuality, RdpLevel, TargetInfo};
use debugprobe::display::{Bar, DebugOled, Oled3, OledModel, Primitive};
use debugprobe::probe::LineStatus;
use debugprobe::serial::{read_serial, read_serial_of_id, to_hex};
use debugprobe::state::{EventRing, TargetShared, WaveRing};
use debugprobe::targets::{
    echoed, feed, hello_from_target, hello_line, pin_test_step, EchoBoard, EchoTarget,
    MonitorTarget,
};
use debugprobe::tasks::{
    chip_line, flash_line, scale_line, DapTask, Duty, Mode, OledTask, Reply, Wake,
};
use debugprobe::text::digits;
use debugprobe::wiring::WireVerdict;

fn info(designer: u16, devid: u16, part: u32, core: u16) -> TargetInfo {
    TargetInfo { designer, devid, part, rdp: RdpLevel::Level1, core }
}

#[test]
fn stored_target_reads_back() {
    let mut t = TargetShared::new();
    assert!(!t.valid());
    assert_eq!(t.rdp(), RdpLevel::Unknown);
    t.store(&info(0x244, 0x433, 0x52832, 0xC24));
    assert!(t.valid());
    assert_eq!((t.devid(), t.designer(), t.part(), t.core_part()), (0x433, 0x244, 0x52832, 0xC24));
    assert_eq!(t.rdp(), RdpLevel::Level1);
    t.clear();
    assert!(!t.valid());
    assert_eq!((t.rdp(), t.part()), (RdpLevel::Unknown, 0x52832));
    t.set_link(&LinkQuality { dp: 3, ap: 4 });
    assert_eq!(t.link(), LinkQuality { dp: 3, ap: 4 });
    t.set_lines(LineStatus { dio: true, clk: false });
    assert_eq!(t.lines(), LineStatus { dio: true, clk: false });
    t.set_verdict(WireVerdict::GndBad);
    assert_eq!(t.verdict(), WireVerdict::GndBad);
    t.bump_clk_flap();
    t.dio_flaps = u32::MAX;
    t.bump_dio_flap();
    assert_eq!(t.flaps(), (1, 0));
}

fn column(words: [u32; 4], c: usize) -> bool {
    words[c / 32] >> (c % 32) & 1 != 0
}

#[test]
fn picture_scrolls() {
    let mut w = WaveRing::new();
    assert_eq!((w.load_clk(), w.load_dio(), w.pos()), ([0; 4], [0; 4], 0));
    w.push(&[0x4444_4444; 16]);
    assert_eq!(w.pos(), 32);
    // SWCLK changes at sample 1, so the picture starts at sample 0.
    assert_eq!(w.load_clk(), [0xAAAA_AAAA, 0, 0, 0]);
    assert_eq!(w.load_dio(), [0; 4]);
    w.push(&[0xFFFF_FFFF; 16]);
    w.push(&[0; 16]);
    w.push(&[0xAAAA_AAAA; 16]);
    assert_eq!(w.pos(), 0);
    assert_eq!(w.load_clk(), [0xAAAA_AAAA, 0xFFFF_FFFF, 0, 0]);
    assert_eq!(w.load_dio(), [0, 0xFFFF_FFFF, 0, 0xFFFF_FFFF]);
    let copy = WaveRing::from_words(w.load_clk(), w.load_dio(), w.pos());
    assert_eq!((copy.load_clk(), copy.pos()), (w.load_clk(), w.pos()));
    w.push_flat();
    assert_eq!((w.pos(), w.load_clk()), (32, [0, 0xFFFF_FFFF, 0, 0]));
    let mut late = WaveRing::new();
    let mut buf = [0u32; 16];
    buf[15] = 0b01 << 20;
    late.push(&buf);
    // The change is at sample 250; the picture starts at 224.
    for c in 0..32 {
        assert_eq!(column(late.load_clk(), c), c == 26);
    }
    let mut mid = WaveRing::new();
    let mut buf = [0u32; 16];
    buf[1] = 0xFFFF_FFFF;
    mid.push(&buf);
    for c in 0..32 {
        assert_eq!(column(mid.load_clk(), c), (2..18).contains(&c));
    }
}

#[test]
fn newest_commands_are_kept() {
    let mut e = EventRing::new();
    assert_eq!(e.evt_name(0), "");
    for id in [0x00, 0x02, 0x05, 0x06] {
        e.record_evt(id);
    }
    assert_eq!(e.evt_name(0), "TransferBlk");
    assert_eq!(e.evt_name(1), "Transfer");
    assert_eq!(e.evt_name(2), "Connect");
    assert_eq!(e.evt_name(3), "");
    assert_eq!(e.evt_name(4), "");
    assert_eq!(e.evt_name(u32::MAX), "");
    e.record_evt(0x77);
    assert_eq!(e.evt_name(0), "?");
}

fn target(i: TargetInfo) -> TargetShared {
    let mut t = TargetShared::new();
    t.store(&i);
    t
}

#[test]
fn first_line_names_the_chip() {
    assert_eq!(chip_line(&target(info(0x20, 0x433, 0, 0xC24))).as_str(), "STM32F401xDE");
    assert_eq!(chip_line(&target(info(0x20, 0x40A, 0, 0))).as_str(), "STM32 0x40A");
    assert_eq!(chip_line(&target(info(0x20, 0x00B, 0, 0))).as_str(), "STM32 0x00B");
    assert_eq!(chip_line(&target(info(0x244, 0, 0x52832, 0xC24))).as_str(), "nRF52832");
    assert_eq!(chip_line(&target(info(0x17, 0, 0, 0xC24))).as_str(), "TI Cortex-M4");
    assert_eq!(chip_line(&target(info(0x7F, 0, 0, 0xC24))).as_str(), "Cortex-M4");
    assert_eq!(chip_line(&target(info(0x1F, 0, 0, 0x111))).as_str(), "Microchip");
    assert_eq!(chip_line(&target(info(0x7F, 0, 0, 0x011))).as_str(), "core 0x011");
    assert_eq!(chip_line(&target(info(0x7F, 0, 0x51FFF, 0))).as_str(), "vendor 0x07F");
    // 22 characters do not fit: the name of the core is left out.
    assert_eq!(chip_line(&target(info(0x493, 0, 0, 0xD23))).as_str(), "RaspberryPi ");
    assert_eq!(chip_line(&TargetShared::new()).as_str(), "no target");
    let mut bad = target(info(0x20, 0x433, 0, 0));
    bad.set_verdict(WireVerdict::PwrParasitic);
    assert_eq!(chip_line(&bad).as_str(), "PWR/AP fail");
}

#[test]
fn second_line_and_last_line() {
    let mut t = target(info(0x20, 0x433, 0, 0));
    t.set_used_khz(1000);
    t.set_stable_khz(500);
    assert_eq!(flash_line(&t).as_str(), "RDP1 1000k");
    assert_eq!(scale_line(&t, false).as_str(), "S500k T1000k");
    t.clk_flaps = 3;
    t.dio_flaps = 12;
    assert_eq!(scale_line(&t, true).as_str(), "flpC3 D12");
    t.clk_flaps = u32::MAX;
    t.dio_flaps = u32::MAX;
    assert_eq!(scale_line(&t, true).as_str(), "flpC4294967295 D");
    t.set_verdict(WireVerdict::SwclkOpen);
    t.set_lines(LineStatus { dio: true, clk: false });
    assert_eq!(flash_line(&t).as_str(), "CLK:X  DIO:OK");
    let mut none = TargetShared::new();
    none.set_probe_khz(30);
    assert_eq!(flash_line(&none).as_str(), "probe 30k");
}

#[test]
fn changes_of_the_wires_are_shown_for_three_seconds() {
    let mut o = OledTask::new();
    let wave = WaveRing::new();
    let mut t = TargetShared::new();
    assert_eq!(o.compose(&t, &wave).scale.as_str(), "S0k T0k");
    t.bump_clk_flap();
    for _ in 0..12 {
        assert_eq!(o.compose(&t, &wave).scale.as_str(), "flpC1 D0");
    }
    assert_eq!(o.compose(&t, &wave).scale.as_str(), "S0k T0k");
}

#[test]
fn frame_of_the_display() {
    let mut o = OledTask::new();
    let mut wave = WaveRing::new();
    wave.push(&[0x4444_4444; 16]);
    let mut t = TargetShared::new();
    t.set_lines(LineStatus { dio: false, clk: true });
    t.set_link(&LinkQuality { dp: 16, ap: 8 });
    let scene = o.compose(&t, &wave);
    let m = scene.model();
    assert_eq!((m.chip, m.flash, m.pos, m.bars.len()), ("no target", "probe 0k", 32, 4));
    let out = DebugOled::new(true).render(&m).unwrap();
    assert!(matches!(out[0], Primitive::Text { x: 0, y: 0, text: "no target" }));
    assert!(matches!(out[1], Primitive::Text { x: 0, y: 12, text: "probe 0k" }));
    assert!(matches!(out[2], Primitive::Text { x: 0, y: 25, text: "C" }));
    assert!(matches!(out[3], Primitive::Line { x0: 8, y0: 34, x1: 9, y1: 34 }));
    let fills: Vec<(i32, u32)> = out
        .iter()
        .filter_map(|p| match p {
            Primitive::Fill { y, w, .. } => Some((*y, *w)),
            _ => None,
        })
        .collect();
    assert_eq!(fills, vec![(2, 30), (22, 30), (32, 15)]);
    assert!(DebugOled::new(false).render(&m).is_none());
}

#[test]
fn waveform_of_the_display() {
    let m = OledModel {
        chip: "",
        flash: "",
        clk: [0b0110, 0, 0, 0],
        dio: [0; 4],
        pos: 0,
        scale: "s",
        bars: &[],
    };
    let out = DebugOled::new(true).render(&m).unwrap();
    let lines: Vec<(i32, i32, i32, i32)> = out
        .iter()
        .filter_map(|p| match p {
            Primitive::Line { x0, y0, x1, y1 } => Some((*x0, *y0, *x1, *y1)),
            _ => None,
        })
        .collect();
    assert_eq!(lines.len(), 2 * 70 + 2);
    assert_eq!(
        lines[..5],
        [(8, 34, 9, 34), (9, 26, 10, 26), (9, 34, 9, 26), (10, 26, 11, 26), (11, 34, 12, 34)]
    );
    assert_eq!(lines[5], (11, 26, 11, 34));
    assert_eq!(lines[141], (77, 50, 78, 50));
}

#[test]
fn bars_of_the_display() {
    let b = |value, max| Bar { label: "x", value, max };
    let bars = [b(5, 0), b(20, 16), b(1, 16), b(0, 1), b(3, 4), b(1, 1), b(1, 1)];
    let m = OledModel {
        chip: "",
        flash: "",
        clk: [0; 4],
        dio: [0; 4],
        pos: 500,
        scale: "",
        bars: &bars,
    };
    let out = DebugOled::new(true).render(&m).unwrap();
    let frames = out.iter().filter(|p| matches!(p, Primitive::Frame { .. })).count();
    assert_eq!(frames, 6);
    let fills: Vec<(i32, u32)> = out
        .iter()
        .filter_map(|p| match p {
            Primitive::Fill { y, w, .. } => Some((*y, *w)),
            _ => None,
        })
        .collect();
    assert_eq!(fills, vec![(12, 30), (22, 1), (42, 22), (52, 30)]);
}

#[test]
fn lines_of_text() {
    let out = DebugOled::new(true).status(&["a", "b"]).unwrap();
    assert!(matches!(out[0], Primitive::Text { x: 0, y: 0, text: "a" }));
    assert!(matches!(out[1], Primitive::Text { x: 0, y: 12, text: "b" }));
    assert!(DebugOled::new(false).status(&["a"]).is_none());
    let out = Oled3::draw("a", "b", "c");
    assert!(matches!(out[2], Primitive::Text { x: 0, y: 32, text: "c" }));
}

#[test]
fn serial_numbers() {
    assert_eq!(to_hex(&[0xE6, 0x60, 0x58, 0x38, 0x83, 0x72, 0x4A, 0x2C]).as_str(), "E660583883724A2C");
    assert_eq!(to_hex(&[]).as_str(), "");
    assert_eq!(to_hex(&[0x0A, 0xB0]).as_str(), "0AB0");
    assert_eq!(to_hex(&[1, 2, 3, 4, 5, 6, 7, 8, 9, 10]).as_str(), "0102030405060708");
    assert_eq!(read_serial(Some([0, 0, 0, 0, 0, 0, 0, 0xFF])).as_str(), "00000000000000FF");
    assert_eq!(read_serial(None).as_str(), "0000000000000000");
    assert_eq!(read_serial_of_id(Some(0x0123_4567_89AB_CDEF)).as_str(), "0123456789ABCDEF");
    assert_eq!(read_serial_of_id(None).as_str(), "0000000000000000");
}

#[test]
fn numerals() {
    let text = |v, base| digits(v, base).into_iter().collect::<String>();
    assert_eq!(text(0, 10), "0");
    assert_eq!(text(4_294_967_295, 10), "4294967295");
    assert_eq!(text(0xDEAD_BEEF, 16), "DEADBEEF");
    assert_eq!(text(5, 2), "101");
}

#[test]
fn baud_rate_is_estimated() {
    let bits = [1085u32, 2170, 1085, 3255, 1086, 1084, 5425, 2170];
    assert_eq!(estimate(&bits, 125_000_000), Some(125_000_000 / 1084));
    assert_eq!(estimate(&bits[..7], 125_000_000), None);
    assert_eq!(estimate(&[100, 200, 300, 400, 500, 600, 700, 800], 125_000_000), None);
    assert_eq!(estimate(&[0; 8], 125_000_000), None);
    // 95 and 105 are within a twentieth of 100, 94 is not.
    assert_eq!(estimate(&[100, 95, 105, 5000, 6000, 7000, 8000, 9000], 1000), Some(10));
    assert_eq!(estimate(&[100, 94, 105, 5000, 6000, 7000, 8000, 9000], 1000), None);
}

#[test]
fn baud_rate_is_detected() {
    let mut a = AutoBaud::new(125_000_000);
    assert_eq!(a.detect(), None);
    // 543 counts of two clocks are 1086 clocks.
    for _ in 0..8 {
        assert!(!a.collect(u32::MAX - 543));
    }
    assert_eq!(a.detect(), Some(125_000_000 / 1086));
    assert!(!a.collect(u32::MAX));
    for _ in 0..503 {
        assert!(!a.collect(0));
    }
    assert!(a.collect(0));
    assert!(a.collect(u32::MAX - 1));
    assert_eq!(a.samples.len(), 512);
    assert_eq!(a.samples[511], u32::MAX);
    a.restart();
    assert_eq!(a.detect(), None);
}

fn mode(active_detect: bool, force_detect: bool, wiring_monitor: bool) -> Mode {
    Mode { active_detect, force_detect, wiring_monitor }
}

#[test]
fn hosts_are_not_disturbed() {
    let mut t = DapTask::new(mode(true, false, false));
    assert_eq!(t.step(Wake::NoHost, 0), Duty::Scan);
    assert_eq!(t.step(Wake::Quiet, 0), Duty::Wait);
    assert_eq!(t.step(Wake::Bulk(Some(5)), 0), Duty::ServeBulk(5));
    assert_eq!(t.step(Wake::Bulk(Some(0)), 0), Duty::Wait);
    assert_eq!(t.step(Wake::Bulk(None), 0), Duty::Wait);
    assert_eq!(t.step(Wake::Hid(true), 0), Duty::ServeHid);
    assert_eq!(t.step(Wake::Hid(false), 0), Duty::Wait);
    assert_eq!(t.last_host, None);
    let mut off = DapTask::new(mode(false, true, true));
    assert_eq!(off.step(Wake::NoHost, 0), Duty::Wait);
}

#[test]
fn requests_are_answered_once() {
    assert_eq!(Duty::ServeBulk(5).reply(3), Reply::Bulk(3));
    assert_eq!(Duty::ServeBulk(5).reply(0), Reply::Nothing);
    assert_eq!(Duty::ServeHid.reply(3), Reply::Report);
    assert_eq!(Duty::ServeHid.reply(0), Reply::Report);
    assert_eq!(Duty::Scan.reply(3), Reply::Nothing);
    assert_eq!(Duty::Wait.reply(3), Reply::Nothing);
}

#[test]
fn diagnostic_builds_scan_beside_a_host() {
    let mut f = DapTask::new(mode(true, true, false));
    assert_eq!(f.step(Wake::Quiet, 0), Duty::Scan);
    let mut w = DapTask::new(mode(true, false, true));
    assert_eq!(w.step(Wake::Quiet, 0), Duty::Scan);
    w.step(Wake::Hid(true), 1_000_000);
    assert_eq!(w.step(Wake::Quiet, 2_999_999), Duty::Wait);
    assert_eq!(w.step(Wake::NoHost, 2_999_999), Duty::Wait);
    assert_eq!(w.step(Wake::Quiet, 3_000_000), Duty::Scan);
}

#[test]
fn received_lines() {
    let mut m = MonitorTarget::new();
    assert_eq!(m.on_byte(b'a').as_str(), "rx bytes: 1");
    m.on_byte(b'b');
    assert_eq!(m.line.as_str(), "ab");
    m.on_byte(b'\n');
    assert_eq!(m.line.as_str(), "");
    for _ in 0..21 {
        m.on_byte(b'x');
    }
    assert_eq!(m.line.len(), 21);
    m.on_byte(b'y');
    assert_eq!(m.line.as_str(), "");
    // 0xE9 takes two bytes: it does not fit after twenty.
    for _ in 0..20 {
        feed(&mut m.line, b'x');
    }
    feed(&mut m.line, 0xE9);
    assert_eq!(m.line.len(), 20);
    feed(&mut m.line, b'\r');
    feed(&mut m.line, 0xE9);
    assert_eq!(m.line.as_str(), "\u{E9}");
}

#[test]
fn echoing_target() {
    let mut e = EchoTarget::new(EchoBoard::Pico);
    assert_eq!(e.board.title(), "pico layer2");
    assert_eq!(e.greet().as_str(), "hello from pico #0\r\n");
    e.on_data(b"hi\nthere");
    assert_eq!(e.last_line.as_str(), "there");
    assert_eq!(e.counts().as_str(), "tx1 rx8");
    e.tx_n = u32::MAX;
    e.rx_total = u32::MAX;
    assert_eq!(e.counts().as_str(), "tx4294967295 rx");
    assert_eq!(e.greet().as_str(), "hello from pico #4294967295\r\n");
    assert_eq!(e.tx_n, 0);
    let mut f = EchoTarget::new(EchoBoard::F446);
    assert_eq!(f.greet().as_str(), "hello from f446 #0\r\n");
    assert_eq!(f.board.title(), "f446 layer2");
}

#[test]
fn greeting_target() {
    let (hello, sent) = hello_from_target(17);
    assert_eq!(hello.as_str(), "hello from target #17\r\n");
    assert_eq!(sent.as_str(), "sent #17");
    assert_eq!(hello_line("x", 0).as_str(), "x0\r\n");
}

#[test]
fn lamps() {
    assert_eq!(echoed(0, 100), (100, false));
    assert_eq!(echoed(4000, 96), (0, true));
    let (p, n) = pin_test_step(0);
    assert_eq!((p.swclk, p.swdio, p.led, n), (true, true, true, 1));
    let (p, n) = pin_test_step(1);
    assert_eq!((p.swclk, p.swdio, p.led, n), (true, false, false, 2));
    let (p, n) = pin_test_step(u32::MAX);
    assert_eq!((p.swdio, p.led, n), (false, false, 0));
}
