use debugprobe::board::{Board, IoMode};
use debugprobe::chipdb::{chip_name, core_name, lookup, vendor_name, CHIP_NAMES, CORE_NAMES};
use debugprobe::dap::types::{
    cmd_name, put_u32_le, rdp_reg, swd_req, u32_le, Ack, DapCmd, RdpLevel, RdpReg, AP_DRW_RD,
    AP_TAR_WR, DP_ABORT_WR, DP_DPIDR_RD, DP_RDBUFF_RD, DP_SELECT_WR,
};
use debugprobe::logic::{count_signal, sample_at, sample_ns};
use debugprobe::probe::{
    LineStatus, LineStep, PioCmd, Probe, ResetDrive, SwdLine,
};
use debugprobe::uart::{BaudCommand, Bridge, BridgeAction, BridgeEvent};
use debugprobe::usb::{identity, DAP_HID_REPORT_DESC};
use debugprobe::wiring::{classify, WireVerdict};

const COMMANDS: [(u8, DapCmd, &str); 16] = [
    (0x00, DapCmd::Info, "Info"),
    (0x01, DapCmd::HostStatus, "HostStatus"),
    (0x02, DapCmd::Connect, "Connect"),
    (0x03, DapCmd::Disconnect, "Disconnect"),
    (0x04, DapCmd::TransferConfigure, "TransferCfg"),
    (0x05, DapCmd::Transfer, "Transfer"),
    (0x06, DapCmd::TransferBlock, "TransferBlk"),
    (0x07, DapCmd::TransferAbort, "TransferAbrt"),
    (0x08, DapCmd::WriteAbort, "WriteABORT"),
    (0x09, DapCmd::Delay, "Delay"),
    (0x0A, DapCmd::ResetTarget, "ResetTarget"),
    (0x10, DapCmd::SwjPins, "SWJ_Pins"),
    (0x11, DapCmd::SwjClock, "SWJ_Clock"),
    (0x12, DapCmd::SwjSequence, "SWJ_Seq"),
    (0x13, DapCmd::SwdConfigure, "SWD_Cfg"),
    (0x1D, DapCmd::SwdSequence, "SWD_Seq"),
];

#[test]
fn command_bytes_and_names() {
    for (code, cmd, name) in COMMANDS {
        assert_eq!(DapCmd::from_u8(code), Some(cmd));
        assert_eq!(cmd.name(), name);
        assert_eq!(cmd_name(code), name);
    }
    for v in 0..=255u8 {
        let known = COMMANDS.iter().any(|c| c.0 == v);
        assert_eq!(DapCmd::from_u8(v).is_some(), known);
        if !known {
            assert_eq!(cmd_name(v), "?");
        }
    }
}

#[test]
fn acknowledgements() {
    assert_eq!(Ack::from_swd(0b001), Ack::Okay);
    assert_eq!(Ack::from_swd(0b010), Ack::Wait);
    assert_eq!(Ack::from_swd(0b100), Ack::Fault);
    assert_eq!(Ack::from_swd(0b111), Ack::Protocol);
    assert_eq!(Ack::from_swd(0b000), Ack::Protocol);
    assert_eq!(Ack::from_swd(0xF9), Ack::Okay);
    assert_eq!(Ack::Okay.to_byte(), 1);
    assert_eq!(Ack::Wait.to_byte(), 2);
    assert_eq!(Ack::Fault.to_byte(), 4);
    assert_eq!(Ack::Protocol.to_byte(), 7);
    assert_eq!(Ack::Parity.to_byte(), 8);
}

#[test]
fn request_bytes() {
    assert_eq!(swd_req(false, true, 0), DP_DPIDR_RD);
    assert_eq!(swd_req(false, false, 0), DP_ABORT_WR);
    assert_eq!(swd_req(false, false, 2), DP_SELECT_WR);
    assert_eq!(swd_req(false, true, 3), DP_RDBUFF_RD);
    assert_eq!(swd_req(true, false, 1), AP_TAR_WR);
    assert_eq!(swd_req(true, true, 3), AP_DRW_RD);
    assert_eq!(swd_req(true, true, 7), AP_DRW_RD);
}

#[test]
fn protection_levels() {
    for l in [RdpLevel::Open, RdpLevel::Level1, RdpLevel::Level2, RdpLevel::Unknown] {
        assert_eq!(RdpLevel::from_u8(l.to_u8()), l);
    }
    assert_eq!(RdpLevel::from_u8(3), RdpLevel::Unknown);
    assert_eq!(RdpLevel::Unknown.to_u8(), 0xFF);
    assert_eq!(RdpLevel::Open.short(), "RDP0");
    assert_eq!(RdpLevel::Level1.short(), "RDP1");
    assert_eq!(RdpLevel::Level2.short(), "RDP2");
    assert_eq!(RdpLevel::Unknown.short(), "RDP?");
    assert_eq!(rdp_reg(0x433), RdpReg::Optcr);
    assert_eq!(rdp_reg(0x410), RdpReg::Obr);
    assert_eq!(rdp_reg(0x468), RdpReg::Optr);
    assert_eq!(rdp_reg(0x450), RdpReg::Unknown);
}

#[test]
fn words_in_bytes() {
    let b = [9u8, 0x78, 0x56, 0x34, 0x12, 7];
    assert_eq!(u32_le(&b, 1), 0x1234_5678);
    let mut out = [1u8; 6];
    put_u32_le(&mut out, 1, 0x1234_5678);
    assert_eq!(out, [1, 0x78, 0x56, 0x34, 0x12, 1]);
    assert_eq!(u32_le(&out, 1), 0x1234_5678);
}

#[test]
fn chip_vendor_and_core_names() {
    assert_eq!(chip_name(0x433), Some("STM32F401xDE"));
    assert_eq!(chip_name(0x421), Some("STM32F446"));
    assert_eq!(chip_name(0x410), Some("STM32F1/GD32"));
    assert_eq!(chip_name(0xFFE), Some("RP2040"));
    assert_eq!(chip_name(0x999), None);
    assert_eq!(vendor_name(0x020), Some("STMicro"));
    assert_eq!(vendor_name(0x244), Some("Nordic"));
    assert_eq!(vendor_name(0x493), Some("RaspberryPi"));
    assert_eq!(vendor_name(0x00E), Some("NXP"));
    assert_eq!(vendor_name(0x000), None);
    assert_eq!(core_name(0xC60), Some("Cortex-M0+"));
    assert_eq!(core_name(0xD23), Some("Cortex-M85"));
    assert_eq!(core_name(0), None);
    assert_eq!(lookup(&[(1, "a"), (2, "b"), (1, "c")], 1), Some("a"));
    assert_eq!(lookup(&[], 1), None);
}

#[test]
fn every_entry_is_found_by_its_key() {
    assert_eq!(CHIP_NAMES.len(), 66);
    for (k, n) in CHIP_NAMES {
        assert_eq!(chip_name(k), Some(n));
    }
    for (k, n) in CORE_NAMES {
        assert_eq!(core_name(k), Some(n));
    }
}

fn port() -> Probe {
    Probe::new(0, 4, 4, 9, 125_000_000, true)
}

#[test]
fn clock_dividers() {
    assert_eq!(Probe::divider_for(125_000_000, 1000), 32);
    assert_eq!(Probe::divider_for(125_000_000, 10), 3125);
    assert_eq!(Probe::divider_for(125_000_000, 30), 1042);
    assert_eq!(Probe::divider_for(125_000_000, 100_000), 1);
    assert_eq!(Probe::divider_for(0, 1000), 1);
    assert_eq!(Probe::divider_for(4_000_000_000, 1), 65535);
}

#[test]
fn fast_clock_dividers() {
    for (khz, d) in [(8000, 4), (12_000, 3), (16_000, 2), (24_000, 2), (31_250, 1)] {
        assert_eq!(Probe::divider_for(125_000_000, khz), d);
    }
}

#[test]
fn clock_register_has_eight_fractional_bits() {
    let mut p = port();
    assert_eq!(p.freq_khz(), 1000);
    assert_eq!(p.divider(), 32 * 256);
    assert_eq!(p.set_swclk_freq(10), 3125 * 256);
    assert_eq!(p.freq_khz(), 10);
    assert_eq!(p.divider(), 800_000);
}

#[test]
fn command_words() {
    let p = port();
    assert_eq!(p.write_bits(8, 0xA5), (7 + 0x100 + 4 * 0x200, 0xA5));
    assert_eq!(p.write_bits(256, 0), (255 + 0x100 + 4 * 0x200, 0));
    assert_eq!(p.hiz_clocks(1), (4 * 0x200, 0));
    assert_eq!(p.read_bits(32), 31 + 9 * 0x200);
    assert_eq!(p.fmt_cmd(0, false, PioCmd::Read), 255 + 9 * 0x200);
}

#[test]
fn bits_come_in_at_the_top() {
    assert_eq!(Probe::read_value(4, 0x2000_0000), 2);
    assert_eq!(Probe::read_value(1, 0x8000_0000), 1);
    assert_eq!(Probe::read_value(32, 0xDEAD_BEEF), 0xDEAD_BEEF);
}

#[test]
fn reset_line() {
    let p = port();
    assert_eq!(p.assert_reset(false), ResetDrive::Low);
    assert_eq!(p.assert_reset(true), ResetDrive::Release);
    assert_eq!(p.reset_level(true), 1);
    assert_eq!(p.reset_level(false), 0);
    let bare = Probe::new(0, 4, 4, 9, 125_000_000, false);
    assert_eq!(bare.assert_reset(false), ResetDrive::Absent);
    assert_eq!(bare.reset_level(true), 0);
}

#[test]
fn wire_test() {
    let steps = Probe::probe_lines();
    assert_eq!(steps.len(), 20);
    assert_eq!(steps[0], LineStep::Machine { run: false });
    assert_eq!(steps[2], LineStep::Level { line: SwdLine::Dio, high: false });
    assert_eq!(steps[7], LineStep::Sample { line: SwdLine::Dio });
    assert_eq!(steps[11], LineStep::Level { line: SwdLine::Clk, high: true });
    assert_eq!(steps[16], LineStep::Sample { line: SwdLine::Clk });
    assert_eq!(steps[19], LineStep::Machine { run: true });
    assert_eq!(Probe::lines(1 << 3, 0, 3, 2), LineStatus { dio: true, clk: true });
    assert_eq!(Probe::lines(0, 1 << 2, 3, 2), LineStatus { dio: false, clk: false });
    assert_eq!(Probe::lines(1 << 3, 1 << 2, 3, 2), LineStatus { dio: true, clk: false });
}

#[test]
fn samples_of_a_capture() {
    let mut buf = [0u32; 16];
    buf[0] = 0b11_10_01_00;
    buf[15] = 0b01 << 30;
    assert_eq!(sample_at(&buf, 0), (false, false));
    assert_eq!(sample_at(&buf, 1), (true, false));
    assert_eq!(sample_at(&buf, 2), (false, true));
    assert_eq!(sample_at(&buf, 3), (true, true));
    assert_eq!(sample_at(&buf, 255), (true, false));
    let s = count_signal(&buf);
    assert_eq!(s.clk_edges, 5);
    assert_eq!(s.dio_edges, 2);
    assert_eq!(s.clk_high, 3);
    assert_eq!(s.dio_high, 2);
    let all = count_signal(&[0x4444_4444u32; 16]);
    assert_eq!((all.clk_edges, all.clk_high), (255, 128));
    let ones = count_signal(&[u32::MAX; 16]);
    assert_eq!((ones.clk_edges, ones.dio_high), (0, 256));
}

#[test]
fn time_of_a_sample() {
    assert_eq!(sample_ns(125_000_000), 64);
    assert_eq!(sample_ns(150_000_000), 53);
    assert_eq!(sample_ns(1), (8_000_000_000u64 % 0x1_0000_0000) as u32);
}

fn both() -> LineStatus {
    LineStatus { dio: true, clk: true }
}

#[test]
fn verdicts() {
    let open = LineStatus { dio: false, clk: false };
    assert_eq!(classify(open, true, 100, 16, 16), WireVerdict::BothOpen);
    let noclk = LineStatus { dio: true, clk: false };
    assert_eq!(classify(noclk, true, 100, 16, 16), WireVerdict::SwclkOpen);
    let nodio = LineStatus { dio: false, clk: true };
    assert_eq!(classify(nodio, true, 100, 16, 16), WireVerdict::SwdioOpen);
    assert_eq!(classify(both(), true, 3, 0, 0), WireVerdict::SwclkOpen);
    assert_eq!(classify(both(), true, 4, 0, 0), WireVerdict::NoTarget);
    assert_eq!(classify(both(), false, 0, 0, 0), WireVerdict::NoTarget);
    assert_eq!(classify(both(), true, 100, 11, 16), WireVerdict::GndBad);
    assert_eq!(classify(both(), true, 100, 16, 0), WireVerdict::PwrParasitic);
    assert_eq!(classify(both(), true, 100, 14, 14), WireVerdict::Okay);
    assert_eq!(classify(both(), true, 100, 13, 16), WireVerdict::Unstable);
    assert_eq!(classify(both(), true, 100, 16, 13), WireVerdict::Unstable);
}

#[test]
fn verdict_bytes_and_texts() {
    let all = [
        (WireVerdict::Unknown, "no target"),
        (WireVerdict::Okay, "OK"),
        (WireVerdict::SwclkOpen, "SWCLK BAD"),
        (WireVerdict::SwdioOpen, "SWDIO BAD"),
        (WireVerdict::BothOpen, "BOTH OPEN"),
        (WireVerdict::NoTarget, "no target"),
        (WireVerdict::PwrParasitic, "PWR/AP fail"),
        (WireVerdict::GndBad, "GND BAD"),
        (WireVerdict::Unstable, "UNSTABLE"),
    ];
    for (i, (v, text)) in all.into_iter().enumerate() {
        assert_eq!(v.to_u8() as usize, i);
        assert_eq!(WireVerdict::from_u8(i as u8), v);
        assert_eq!(v.text(), text);
        assert_eq!(v.shows_chip(), i < 2);
    }
    assert_eq!(WireVerdict::from_u8(200), WireVerdict::Unknown);
}

#[test]
fn baud_commands() {
    assert_eq!(BaudCommand::from_rate(9728), BaudCommand::Auto);
    assert_eq!(BaudCommand::from_rate(115_200), BaudCommand::Fixed(115_200));
    assert_eq!(BaudCommand::from_rate(0), BaudCommand::Ignore);
    assert_eq!(BaudCommand::Auto.rate(Some(57_600)), Some(57_600));
    assert_eq!(BaudCommand::Auto.rate(None), None);
    assert_eq!(BaudCommand::Fixed(9600).rate(None), Some(9600));
    assert_eq!(BaudCommand::Ignore.rate(Some(1)), None);
}

#[test]
fn bridge_counts_and_passes_on() {
    let mut b = Bridge::new();
    assert_eq!(b.step(BridgeEvent::FromTarget(Some(10))), BridgeAction::ToHost(10));
    assert_eq!(b.step(BridgeEvent::FromHost(Some(3))), BridgeAction::ToTarget(3));
    assert_eq!(b.step(BridgeEvent::FromHost(Some(0))), BridgeAction::Nothing);
    assert_eq!(b.step(BridgeEvent::FromTarget(None)), BridgeAction::Nothing);
    assert_eq!(b.step(BridgeEvent::FromTarget(Some(5))), BridgeAction::ToHost(5));
    assert_eq!((b.rx_bytes, b.tx_bytes), (15, 3));
    assert_eq!(
        b.step(BridgeEvent::Settings(9728)),
        BridgeAction::Rate(BaudCommand::Auto)
    );
    b.rx_bytes = u32::MAX;
    b.step(BridgeEvent::FromTarget(Some(2)));
    assert_eq!(b.rx_bytes, 1);
}

#[test]
fn boards() {
    let d = Board::DebugProbe.config();
    assert_eq!(d.product, "Debug Probe (CMSIS-DAP)");
    assert_eq!(d.io_mode, IoMode::Swdi);
    assert_eq!((d.pins.swclk, d.pins.swdio, d.pins.input()), (12, 14, 13));
    assert_eq!(d.pins.reset, None);
    let p = Board::Pico.config();
    assert_eq!(p.product, "Debugprobe on Pico (CMSIS-DAP)");
    assert_eq!((p.pins.swclk, p.pins.swdio, p.pins.input()), (2, 3, 3));
    assert_eq!(p.pins.reset, Some(1));
    assert_eq!(p.uart.baudrate, 115_200);
    assert_eq!(p.leds.usb_connected, Some(25));
    assert_eq!(Board::Pico2.config().product, "Debugprobe on Pico 2 (CMSIS-DAP)");
}

#[test]
fn usb_identity() {
    let id = identity("p", "s");
    assert_eq!((id.vendor_id, id.product_id, id.device_release), (0x2e8a, 0x000c, 0x0231));
    assert_eq!((id.manufacturer, id.product, id.serial_number), ("Raspberry Pi", "p", "s"));
    assert_eq!(id.class, (0xEF, 0x02, 0x01));
    assert_eq!(DAP_HID_REPORT_DESC.len(), 25);
    assert_eq!(DAP_HID_REPORT_DESC[15], 64);
    assert_eq!(DAP_HID_REPORT_DESC[24], 0xC0);
}

#[test]
fn protection_follows_the_name() {
    for d in 0..=u16::MAX {
        let starts = |list: [&str; 3]| {
            chip_name(d).is_some_and(|n| list.iter().any(|s| n.starts_with(s)))
        };
        let want = if starts(["STM32F2", "STM32F4", "STM32F7"]) {
            RdpReg::Optcr
        } else if starts(["STM32F0", "STM32F1", "STM32F3"]) {
            RdpReg::Obr
        } else if starts(["STM32L4", "STM32G0", "STM32G4"]) {
            RdpReg::Optr
        } else {
            RdpReg::Unknown
        };
        assert_eq!(rdp_reg(d), want);
    }
}

#[test]
fn no_pin_has_two_uses() {
    for b in [Board::DebugProbe, Board::Pico, Board::Pico2] {
        let c = b.config();
        let mut pins = vec![c.pins.swclk, c.pins.swdio, c.uart.tx, c.uart.rx];
        pins.extend(c.pins.swdi.iter().chain(&c.pins.reset));
        pins.extend(c.leds.usb_connected.iter().chain(&c.leds.dap_connected));
        pins.extend(c.leds.dap_running.iter().chain(&c.leds.uart_rx).chain(&c.leds.uart_tx));
        let n = pins.len();
        pins.sort();
        pins.dedup();
        assert_eq!(pins.len(), n);
    }
}
