use debugprobe::dap::swd::{
    count_ones, swd_transfer, transfer_retry, RawBits, SwdConfig, SwdReply, SwdRequest, SwdStep,
    SwdTransfer,
};
use debugprobe::dap::types::{Ack, AP_DRW_RD, DP_ABORT_WR, DP_DPIDR_RD, DP_RDBUFF_RD};
use debugprobe::probe::WireOp;

fn cfg() -> SwdConfig {
    SwdConfig { idle_cycles: 0, retry_count: 2, turnaround: 1, data_phase: false }
}

fn wire(s: SwdStep) -> Vec<WireOp> {
    match s {
        SwdStep::Wire(ops) => ops,
        SwdStep::Done(_) => panic!("done"),
    }
}

fn done(s: SwdStep) -> SwdReply {
    match s {
        SwdStep::Done(r) => r,
        SwdStep::Wire(_) => panic!("wire"),
    }
}

#[test]
fn ones_are_counted() {
    assert_eq!(count_ones(0), 0);
    assert_eq!(count_ones(0xFFFF_FFFF), 32);
    assert_eq!(count_ones(0x0BC1_2477), 14);
}

#[test]
fn read_of_dpidr() {
    let (mut t, ops) = SwdTransfer::begin(cfg(), &swd_transfer(DP_DPIDR_RD, 0));
    assert_eq!(ops, vec![WireOp::Write { bits: 8, data: 0xA5 }, WireOp::Read { bits: 4 }]);
    let data = wire(t.resume(&[0b0010]));
    assert_eq!(
        data,
        vec![
            WireOp::Read { bits: 32 },
            WireOp::Read { bits: 1 },
            WireOp::Hiz { bits: 1 },
            WireOp::Write { bits: 8, data: 0 },
        ]
    );
    let r = done(t.resume(&[0x2BA0_1477, 0]));
    assert_eq!(r, SwdReply { ack: Ack::Okay, val: 0x2BA0_1477 });
}

#[test]
fn read_with_wrong_parity() {
    let (mut t, _) = SwdTransfer::begin(cfg(), &swd_transfer(DP_DPIDR_RD, 0));
    wire(t.resume(&[0b0010]));
    let r = done(t.resume(&[0x2BA0_1477, 1]));
    assert_eq!(r, SwdReply { ack: Ack::Parity, val: 0x2BA0_1477 });
}

#[test]
fn write_of_abort() {
    let (mut t, ops) = SwdTransfer::begin(cfg(), &swd_transfer(DP_ABORT_WR, 0x1E));
    assert_eq!(ops[0], WireOp::Write { bits: 8, data: 0x81 });
    let data = wire(t.resume(&[0b0010]));
    assert_eq!(
        data,
        vec![
            WireOp::Hiz { bits: 1 },
            WireOp::Write { bits: 32, data: 0x1E },
            WireOp::Write { bits: 1, data: 0 },
            WireOp::Write { bits: 8, data: 0 },
        ]
    );
    assert_eq!(done(t.resume(&[])), SwdReply { ack: Ack::Okay, val: 0 });
}

#[test]
fn idle_clocks_in_pieces() {
    let c = SwdConfig { idle_cycles: 600, ..cfg() };
    let (mut t, _) = SwdTransfer::begin(c, &swd_transfer(DP_RDBUFF_RD, 0));
    let data = wire(t.resume(&[0b0010]));
    assert_eq!(
        data[3..],
        [
            WireOp::Write { bits: 256, data: 0 },
            WireOp::Write { bits: 256, data: 0 },
            WireOp::Write { bits: 88, data: 0 },
        ]
    );
}

#[test]
fn wait_is_repeated_as_often_as_configured() {
    let (mut t, first) = SwdTransfer::begin(cfg(), &transfer_retry(AP_DRW_RD, 0));
    for _ in 0..2 {
        assert_eq!(wire(t.resume(&[0b0100])), vec![WireOp::Hiz { bits: 1 }]);
        assert_eq!(wire(t.resume(&[])), first);
    }
    wire(t.resume(&[0b0100]));
    assert_eq!(done(t.resume(&[])), SwdReply { ack: Ack::Wait, val: 0 });
}

#[test]
fn wait_without_retries_ends_the_transfer() {
    let (mut t, _) = SwdTransfer::begin(cfg(), &swd_transfer(AP_DRW_RD, 0));
    wire(t.resume(&[0b0100]));
    assert_eq!(done(t.resume(&[])), SwdReply { ack: Ack::Wait, val: 0 });
}

#[test]
fn fault_with_a_data_phase() {
    let c = SwdConfig { turnaround: 2, data_phase: true, ..cfg() };
    let (mut t, ops) = SwdTransfer::begin(c, &transfer_retry(DP_DPIDR_RD, 0));
    assert_eq!(ops[1], WireOp::Read { bits: 5 });
    assert_eq!(
        wire(t.resume(&[0b10000])),
        vec![WireOp::Read { bits: 32 }, WireOp::Read { bits: 1 }, WireOp::Hiz { bits: 2 }]
    );
    assert_eq!(done(t.resume(&[0, 0])), SwdReply { ack: Ack::Fault, val: 0 });
    let (mut w, _) = SwdTransfer::begin(c, &transfer_retry(DP_ABORT_WR, 5));
    assert_eq!(
        wire(w.resume(&[0b10000])),
        vec![
            WireOp::Hiz { bits: 2 },
            WireOp::Write { bits: 32, data: 0 },
            WireOp::Write { bits: 1, data: 0 },
        ]
    );
    assert_eq!(done(w.resume(&[])), SwdReply { ack: Ack::Fault, val: 0 });
}

#[test]
fn nobody_answers() {
    let (mut t, _) = SwdTransfer::begin(cfg(), &transfer_retry(DP_DPIDR_RD, 0));
    assert_eq!(
        wire(t.resume(&[0b1111])),
        vec![WireOp::Read { bits: 32 }, WireOp::Read { bits: 2 }]
    );
    assert_eq!(done(t.resume(&[7, 7])), SwdReply { ack: Ack::Protocol, val: 0 });
}

#[test]
fn raw_bits_go_first() {
    let req = SwdRequest {
        prelude: vec![RawBits { bits: 16, data: 0xE79E }],
        request: DP_DPIDR_RD,
        wdata: 0,
        retry: false,
    };
    let (_, ops) = SwdTransfer::begin(cfg(), &req);
    assert_eq!(
        ops,
        vec![
            WireOp::Write { bits: 16, data: 0xE79E },
            WireOp::Write { bits: 8, data: 0xA5 },
            WireOp::Read { bits: 4 },
        ]
    );
}

#[test]
fn flipped_bit_is_noticed() {
    for k in 0..32 {
        let sent = 0x1234_5678u32;
        let got = sent ^ (1 << k);
        let (mut t, _) = SwdTransfer::begin(cfg(), &swd_transfer(DP_DPIDR_RD, 0));
        wire(t.resume(&[0b0010]));
        let r = done(t.resume(&[got, sent.count_ones() % 2]));
        assert_eq!(r.ack, Ack::Parity);
    }
}
