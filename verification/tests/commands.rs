use debugprobe::dap::command::{Effect, Served, Transcript};
use debugprobe::dap::swd::{SwdReply, SwdRequest};
use debugprobe::dap::types::{Ack, AP_DRW_RD, DP_ABORT_WR, DP_RDBUFF_RD};
use debugprobe::dap::Dap;
use debugprobe::probe::{Probe, ResetDrive, WireOp};

fn dap() -> Dap {
    let probe = Probe::new(0, 4, 4, 9, 125_000_000, true);
    Dap::new(probe, "E660583883724A2C", "Debugprobe on Pico (CMSIS-DAP)")
}

/// Serves a packet that needs nothing from outside.
fn serve(d: &mut Dap, req: &[u8]) -> Vec<u8> {
    let past = Transcript::new();
    let mut resp = [0xEEu8; 64];
    assert!(d.accepts(req, &past, resp.len()));
    match d.execute_command(req, &past, &mut resp) {
        Served::Respond(n) => {
            assert!(resp[n..].iter().all(|b| *b == 0xEE));
            resp[..n].to_vec()
        }
        _ => panic!("not answered"),
    }
}

/// Serves a packet that has an effect; gives the effect and the answer after it.
fn perform(d: &mut Dap, req: &[u8], words: &[u32]) -> (Effect, Vec<u8>) {
    let mut past = Transcript::new();
    let mut resp = [0xEEu8; 64];
    assert!(d.accepts(req, &past, resp.len()));
    let effect = match d.execute_command(req, &past, &mut resp) {
        Served::Perform(e) => e,
        _ => panic!("no effect"),
    };
    assert!(resp.iter().all(|b| *b == 0xEE));
    past.performed = Some(words.to_vec());
    assert!(d.accepts(req, &past, resp.len()));
    match d.execute_command(req, &past, &mut resp) {
        Served::Respond(n) => (effect, resp[..n].to_vec()),
        _ => panic!("not answered"),
    }
}

/// Serves a packet whose transfers are answered by `port`; gives them and the answer.
fn transfer(
    d: &mut Dap,
    req: &[u8],
    mut port: impl FnMut(&SwdRequest) -> SwdReply,
) -> (Vec<(u8, u32)>, Vec<u8>) {
    let mut past = Transcript::new();
    let mut made = Vec::new();
    let mut resp = [0u8; 64];
    loop {
        assert!(d.accepts(req, &past, resp.len()));
        match d.execute_command(req, &past, &mut resp) {
            Served::Transfer(t) => {
                made.push((t.request, t.wdata));
                past.replies.push(port(&t));
            }
            Served::Respond(n) => return (made, resp[..n].to_vec()),
            Served::Perform(_) => panic!("effect"),
        }
    }
}

fn ok(val: u32) -> SwdReply {
    SwdReply { ack: Ack::Okay, val }
}

#[test]
fn info() {
    let mut d = dap();
    assert_eq!(serve(&mut d, &[0, 1]), b"\x00\x0dRaspberry Pi\x00");
    assert_eq!(serve(&mut d, &[0, 2]), b"\x00\x1fDebugprobe on Pico (CMSIS-DAP)\x00");
    assert_eq!(serve(&mut d, &[0, 3]), b"\x00\x11E660583883724A2C\x00");
    assert_eq!(serve(&mut d, &[0, 4]), b"\x00\x062.1.0\x00");
    assert_eq!(serve(&mut d, &[0, 0xF0]), [0, 1, 1]);
    assert_eq!(serve(&mut d, &[0, 0xFE]), [0, 1, 8]);
    assert_eq!(serve(&mut d, &[0, 0xFF]), [0, 2, 64, 0]);
    assert_eq!(serve(&mut d, &[0, 0x77]), [0, 0]);
}

#[test]
fn plain_commands() {
    let mut d = dap();
    assert_eq!(serve(&mut d, &[0x01, 0, 1]), [0x01, 0]);
    assert_eq!(serve(&mut d, &[0x02, 0]), [0x02, 1]);
    assert_eq!(serve(&mut d, &[0x02, 1]), [0x02, 1]);
    assert_eq!(serve(&mut d, &[0x02, 2]), [0x02, 0]);
    assert_eq!(serve(&mut d, &[0x03]), [0x03, 0]);
    assert!(serve(&mut d, &[0x07, 0]).is_empty());
    assert!(serve(&mut d, &[0x07]).is_empty());
}

#[test]
fn unknown_commands() {
    let mut d = dap();
    assert_eq!(serve(&mut d, &[0x14]), [0xFF]);
    assert_eq!(serve(&mut d, &[0x80, 1, 2]), [0xFF]);
}

#[test]
fn configuration() {
    let mut d = dap();
    assert_eq!(d.cfg.retry_count, 100);
    assert_eq!(serve(&mut d, &[0x04, 5, 0x34, 0x12, 0, 0]), [0x04, 0]);
    assert_eq!((d.cfg.idle_cycles, d.cfg.retry_count), (5, 0x1234));
    assert_eq!(serve(&mut d, &[0x13, 0x06]), [0x13, 0]);
    assert_eq!((d.cfg.turnaround, d.cfg.data_phase), (3, true));
    assert_eq!(serve(&mut d, &[0x13, 0xF8]), [0x13, 0]);
    assert_eq!((d.cfg.turnaround, d.cfg.data_phase), (1, false));
}

#[test]
fn host_clock() {
    let mut d = dap();
    let (e, a) = perform(&mut d, &[0x11, 0x40, 0x42, 0x0F, 0], &[]);
    assert!(matches!(e, Effect::Clock(r) if r == 32 * 256));
    assert_eq!(a, [0x11, 0]);
    assert_eq!((d.swclk_khz(), d.host_clk_set), (1000, true));
    perform(&mut d, &[0x11, 10, 0, 0, 0], &[]);
    assert_eq!(d.swclk_khz(), 1);
    d.set_stable_khz(250);
    let (e, _) = perform(&mut d, &[0x11, 0x80, 0x96, 0x98, 0], &[]);
    assert!(matches!(e, Effect::Clock(r) if r == 125 * 256));
    assert_eq!(d.swclk_khz(), 250);
    perform(&mut d, &[0x11, 0xA0, 0x86, 0x01, 0], &[]);
    assert_eq!(d.swclk_khz(), 100);
}

#[test]
fn clock_after_a_scan() {
    let mut d = dap();
    assert_eq!(d.set_swclk_khz(10), 3125 * 256);
    assert_eq!(d.restore_clk(1000), 32 * 256);
    assert_eq!(d.swclk_khz(), 1000);
    d.set_stable_khz(100);
    assert_eq!(d.restore_clk(1000), 313 * 256);
    assert_eq!(d.swclk_khz(), 100);
    d.host_clk_set = true;
    d.restore_clk(500);
    assert_eq!(d.swclk_khz(), 500);
}

#[test]
fn reset_pin() {
    let mut d = dap();
    let (e, a) = perform(&mut d, &[0x10, 0x00, 0x80, 0, 0, 0, 0], &[0]);
    assert!(matches!(e, Effect::ResetPin(Some(ResetDrive::Low))));
    assert_eq!(a, [0x10, 0]);
    let (e, a) = perform(&mut d, &[0x10, 0x80, 0x80, 0, 0, 0, 0], &[1]);
    assert!(matches!(e, Effect::ResetPin(Some(ResetDrive::Release))));
    assert_eq!(a, [0x10, 0x80]);
    let (e, a) = perform(&mut d, &[0x10, 0x80, 0x7F, 0, 0, 0, 0], &[1]);
    assert!(matches!(e, Effect::ResetPin(None)));
    assert_eq!(a, [0x10, 0x80]);
    d.probe.has_reset = false;
    let (e, a) = perform(&mut d, &[0x10, 0x00, 0x80], &[1]);
    assert!(matches!(e, Effect::ResetPin(Some(ResetDrive::Absent))));
    assert_eq!(a, [0x10, 0]);
}

#[test]
fn delay_and_reset_pulse() {
    let mut d = dap();
    let (e, a) = perform(&mut d, &[0x09, 0x10, 0x27], &[]);
    assert!(matches!(e, Effect::DelayUs(10_000)));
    assert_eq!(a, [0x09, 0]);
    let (e, a) = perform(&mut d, &[0x0A], &[]);
    assert!(matches!(
        e,
        Effect::ResetPulse { first: ResetDrive::Low, hold_ms: 2, last: ResetDrive::Release }
    ));
    assert_eq!(a, [0x0A, 0, 1]);
}

fn ops(e: Effect) -> Vec<WireOp> {
    match e {
        Effect::Wire(ops) => ops,
        _ => panic!("no wire operations"),
    }
}

#[test]
fn swj_sequence() {
    let mut d = dap();
    let (e, a) = perform(&mut d, &[0x12, 20, 0xAA, 0xBB, 0xCC], &[]);
    assert_eq!(
        ops(e),
        vec![
            WireOp::Write { bits: 8, data: 0xAA },
            WireOp::Write { bits: 8, data: 0xBB },
            WireOp::Write { bits: 4, data: 0xCC },
        ]
    );
    assert_eq!(a, [0x12, 0]);
    let mut long = vec![0x12, 0];
    long.extend([0xFFu8; 32]);
    let (e, _) = perform(&mut d, &long, &[]);
    assert_eq!(ops(e).len(), 32);
    let past = Transcript::new();
    assert!(!d.accepts(&[0x12, 9, 0xAA], &past, 64));
}

#[test]
fn swd_sequence() {
    let mut d = dap();
    let req = [0x1D, 2, 0x0A, 0x11, 0x02, 0x80 | 9];
    let (e, a) = perform(&mut d, &req, &[0x1FF, 0x01]);
    assert_eq!(
        ops(e),
        vec![
            WireOp::Write { bits: 8, data: 0x11 },
            WireOp::Write { bits: 2, data: 0x02 },
            WireOp::Read { bits: 8 },
            WireOp::Read { bits: 1 },
        ]
    );
    assert_eq!(a, [0x1D, 0, 0xFF, 0x01]);
    let (e, a) = perform(&mut d, &[0x1D, 1, 0x80], &[1, 2, 3, 4, 5, 6, 7, 8]);
    assert_eq!(ops(e).len(), 8);
    assert_eq!(a, [0x1D, 0, 1, 2, 3, 4, 5, 6, 7, 8]);
}

#[test]
fn write_abort() {
    let mut d = dap();
    let (made, a) = transfer(&mut d, &[0x08, 0, 0x1E, 0, 0, 0], |t| {
        assert!(!t.retry);
        SwdReply { ack: Ack::Fault, val: 0 }
    });
    assert_eq!(made, [(DP_ABORT_WR, 0x1E)]);
    assert_eq!(a, [0x08, 0]);
}

/// A debug port whose AP reads are posted: each brings the value of the one before.
fn posted(values: Vec<u32>) -> impl FnMut(&SwdRequest) -> SwdReply {
    let mut pending = 0u32;
    let mut next = values.into_iter();
    move |t: &SwdRequest| {
        assert!(t.retry);
        let (ap, read) = (t.request & 1 != 0, t.request & 2 != 0);
        if t.request == DP_RDBUFF_RD {
            ok(pending)
        } else if ap && read {
            let before = pending;
            pending = next.next().unwrap();
            ok(before)
        } else if read {
            ok(next.next().unwrap())
        } else {
            ok(0)
        }
    }
}

#[test]
fn posted_reads_come_back_in_order() {
    let mut d = dap();
    // AP read, AP read, DP read, AP write, AP read
    let req = [0x05, 0, 5, 0x0F, 0x0F, 0x06, 0x05, 4, 3, 2, 1, 0x0F];
    let (made, a) = transfer(&mut d, &req, posted(vec![0x11, 0x22, 0x33, 0x44]));
    assert_eq!(
        made,
        [
            (0x0F, 0),
            (0x0F, 0),
            (DP_RDBUFF_RD, 0),
            (0x06, 0),
            (0x05, 0x0102_0304),
            (0x0F, 0),
            (DP_RDBUFF_RD, 0),
        ]
    );
    let mut want = vec![0x05, 5, 1];
    for v in [0x11u32, 0x22, 0x33, 0x44] {
        want.extend(v.to_le_bytes());
    }
    assert_eq!(a, want);
}

#[test]
fn transfer_without_requests() {
    let mut d = dap();
    let (made, a) = transfer(&mut d, &[0x05, 0, 0], |_| ok(0));
    assert!(made.is_empty());
    assert_eq!(a, [0x05, 0, 1]);
}

#[test]
fn failure_ends_a_transfer() {
    let mut d = dap();
    let mut n = 0;
    let req = [0x05, 0, 3, 0x02, 0x04, 0, 0, 0, 0, 0x02];
    let (made, a) = transfer(&mut d, &req, |_| {
        n += 1;
        if n == 2 {
            SwdReply { ack: Ack::Fault, val: 0 }
        } else {
            ok(0xAB)
        }
    });
    assert_eq!(made.len(), 2);
    assert_eq!(a, [0x05, 1, 4, 0xAB, 0, 0, 0]);
}

#[test]
fn failure_before_a_missing_request() {
    let mut d = dap();
    let (made, a) = transfer(&mut d, &[0x05, 0, 9, 0x02], |_| SwdReply {
        ack: Ack::Protocol,
        val: 0,
    });
    assert_eq!(made.len(), 1);
    assert_eq!(a, [0x05, 0, 7]);
}

#[test]
fn missing_requests_are_not_accepted() {
    let d = dap();
    let mut past = Transcript::new();
    assert!(d.accepts(&[0x05, 0, 2, 0x02], &past, 64));
    past.replies.push(ok(1));
    assert!(!d.accepts(&[0x05, 0, 2, 0x02], &past, 64));
    assert!(!d.accepts(&[], &past, 64));
    assert!(!d.accepts(&[0x05, 0], &Transcript::new(), 64));
    assert!(!d.accepts(&[0x02], &Transcript::new(), 64));
    assert!(!d.accepts(&[0x11, 0, 0, 0], &Transcript::new(), 64));
    assert!(!d.accepts(&[0x00, 1], &Transcript::new(), 10));
}

#[test]
fn values_have_to_fit_the_answer() {
    let d = dap();
    let mut past = Transcript::new();
    let req = [0x05, 0, 2, 0x02, 0x02];
    past.replies.push(ok(1));
    assert!(d.accepts(&req, &past, 7));
    past.replies.push(ok(2));
    assert!(!d.accepts(&req, &past, 7));
    assert!(d.accepts(&req, &past, 11));
}

#[test]
fn block_of_ap_reads() {
    let mut d = dap();
    let (made, a) = transfer(&mut d, &[0x06, 0, 3, 0, 0x0F], posted(vec![7, 8, 9]));
    assert_eq!(
        made,
        [(AP_DRW_RD, 0), (AP_DRW_RD, 0), (AP_DRW_RD, 0), (DP_RDBUFF_RD, 0)]
    );
    assert_eq!(a, [0x06, 3, 0, 1, 7, 0, 0, 0, 8, 0, 0, 0, 9, 0, 0, 0]);
}

#[test]
fn block_of_dp_reads() {
    let mut d = dap();
    let (made, a) = transfer(&mut d, &[0x06, 0, 2, 0, 0x02], posted(vec![7, 8]));
    assert_eq!(made, [(0x02, 0), (0x02, 0)]);
    assert_eq!(a, [0x06, 2, 0, 1, 7, 0, 0, 0, 8, 0, 0, 0]);
}

#[test]
fn block_of_writes() {
    let mut d = dap();
    let req = [0x06, 0, 2, 0, 0x0D, 1, 0, 0, 0, 2, 0, 0, 0];
    let (made, a) = transfer(&mut d, &req, |_| ok(0));
    assert_eq!(made, [(0x0D, 1), (0x0D, 2)]);
    assert_eq!(a, [0x06, 2, 0, 1]);
    let mut n = 0;
    let (made, a) = transfer(&mut d, &req, |_| {
        n += 1;
        SwdReply { ack: if n == 2 { Ack::Wait } else { Ack::Okay }, val: 0 }
    });
    assert_eq!(made.len(), 2);
    assert_eq!(a, [0x06, 1, 0, 2]);
}

#[test]
fn empty_block_of_ap_reads_posts_once() {
    let mut d = dap();
    let (made, a) = transfer(&mut d, &[0x06, 0, 0, 0, 0x0F], posted(vec![7]));
    assert_eq!(made, [(AP_DRW_RD, 0)]);
    assert_eq!(a, [0x06, 0, 0, 1]);
}

#[test]
fn serving_again_changes_nothing() {
    let mut d = dap();
    serve(&mut d, &[0x13, 0x05]);
    let before = d.cfg;
    serve(&mut d, &[0x13, 0x05]);
    assert_eq!(d.cfg, before);
    assert_eq!((d.stable_khz, d.rp2040, d.serial), (0, false, "E660583883724A2C"));
}
