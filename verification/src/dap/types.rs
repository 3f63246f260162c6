//! Types and constants of the CMSIS-DAP core: command identifiers, SWD
//! acknowledgements, request bytes, read-protection levels and the facts that
//! are learnt about a target.
use vstd::prelude::*;

verus! {

/// Bytes in one DAP packet, in either direction.
pub const DAP_PACKET_SIZE: u16 = 64;

/// Packets that the host may have in flight.
pub const DAP_PACKET_COUNT: u8 = 8;

/// Capability byte: bit 0 is SWD, bit 1 is JTAG (absent).
pub const CAPABILITIES: u8 = 0x01;

/// Version string reported to the host.
pub const FW_VERSION: &'static str = "2.1.0";

/// Status byte of a command that succeeded.
pub const DAP_OK: u8 = 0x00;

/// First byte of the answer to a command that is not supported.
pub const ID_DAP_INVALID: u8 = 0xFF;

pub const INFO_VENDOR: u8 = 0x01;

pub const INFO_PRODUCT: u8 = 0x02;

pub const INFO_SERIAL: u8 = 0x03;

pub const INFO_FW_VER: u8 = 0x04;

pub const INFO_CAPABILITIES: u8 = 0xF0;

pub const INFO_PACKET_COUNT: u8 = 0xFE;

pub const INFO_PACKET_SIZE: u8 = 0xFF;

/// Request bit: the access goes to the AP rather than the DP.
pub const REQ_APND_P: u8 = 0x01;

/// Request bit: the access is a read.
pub const REQ_RNW: u8 = 0x02;

/// The commands that the probe answers. JTAG, SWO and vendor commands are not
/// among them.
#[derive(Clone, Copy, PartialEq, Eq, Structural, Debug)]
pub enum DapCmd {
    Info,
    HostStatus,
    Connect,
    Disconnect,
    TransferConfigure,
    Transfer,
    TransferBlock,
    TransferAbort,
    WriteAbort,
    Delay,
    ResetTarget,
    SwjPins,
    SwjClock,
    SwjSequence,
    SwdConfigure,
    SwdSequence,
}

impl DapCmd {
    /// The byte that CMSIS-DAP gives to the command.
    pub open spec fn code(self) -> u8 {
        match self {
            DapCmd::Info => 0x00,
            DapCmd::HostStatus => 0x01,
            DapCmd::Connect => 0x02,
            DapCmd::Disconnect => 0x03,
            DapCmd::TransferConfigure => 0x04,
            DapCmd::Transfer => 0x05,
            DapCmd::TransferBlock => 0x06,
            DapCmd::TransferAbort => 0x07,
            DapCmd::WriteAbort => 0x08,
            DapCmd::Delay => 0x09,
            DapCmd::ResetTarget => 0x0A,
            DapCmd::SwjPins => 0x10,
            DapCmd::SwjClock => 0x11,
            DapCmd::SwjSequence => 0x12,
            DapCmd::SwdConfigure => 0x13,
            DapCmd::SwdSequence => 0x1D,
        }
    }

    /// The short name shown for the command.
    pub open spec fn label(self) -> &'static str {
        match self {
            DapCmd::Info => "Info",
            DapCmd::HostStatus => "HostStatus",
            DapCmd::Connect => "Connect",
            DapCmd::Disconnect => "Disconnect",
            DapCmd::TransferConfigure => "TransferCfg",
            DapCmd::Transfer => "Transfer",
            DapCmd::TransferBlock => "TransferBlk",
            DapCmd::TransferAbort => "TransferAbrt",
            DapCmd::WriteAbort => "WriteABORT",
            DapCmd::Delay => "Delay",
            DapCmd::ResetTarget => "ResetTarget",
            DapCmd::SwjPins => "SWJ_Pins",
            DapCmd::SwjClock => "SWJ_Clock",
            DapCmd::SwjSequence => "SWJ_Seq",
            DapCmd::SwdConfigure => "SWD_Cfg",
            DapCmd::SwdSequence => "SWD_Seq",
        }
    }

    /// The command that a byte names, if it names one.
    pub open spec fn of_code(v: u8) -> Option<DapCmd> {
        match v {
            0x00 => Some(DapCmd::Info),
            0x01 => Some(DapCmd::HostStatus),
            0x02 => Some(DapCmd::Connect),
            0x03 => Some(DapCmd::Disconnect),
            0x04 => Some(DapCmd::TransferConfigure),
            0x05 => Some(DapCmd::Transfer),
            0x06 => Some(DapCmd::TransferBlock),
            0x07 => Some(DapCmd::TransferAbort),
            0x08 => Some(DapCmd::WriteAbort),
            0x09 => Some(DapCmd::Delay),
            0x0A => Some(DapCmd::ResetTarget),
            0x10 => Some(DapCmd::SwjPins),
            0x11 => Some(DapCmd::SwjClock),
            0x12 => Some(DapCmd::SwjSequence),
            0x13 => Some(DapCmd::SwdConfigure),
            0x1D => Some(DapCmd::SwdSequence),
            _ => None,
        }
    }

    /// The command that a byte names, if it names one.
    pub fn from_u8(v: u8) -> (r: Option<Self>)
        ensures
            r == DapCmd::of_code(v),
    {
        let c = match v {
            0x00 => DapCmd::Info,
            0x01 => DapCmd::HostStatus,
            0x02 => DapCmd::Connect,
            0x03 => DapCmd::Disconnect,
            0x04 => DapCmd::TransferConfigure,
            0x05 => DapCmd::Transfer,
            0x06 => DapCmd::TransferBlock,
            0x07 => DapCmd::TransferAbort,
            0x08 => DapCmd::WriteAbort,
            0x09 => DapCmd::Delay,
            0x0A => DapCmd::ResetTarget,
            0x10 => DapCmd::SwjPins,
            0x11 => DapCmd::SwjClock,
            0x12 => DapCmd::SwjSequence,
            0x13 => DapCmd::SwdConfigure,
            0x1D => DapCmd::SwdSequence,
            _ => return None,
        };
        Some(c)
    }

    /// The short name of the command.
    pub fn name(self) -> (r: &'static str)
        ensures
            r@ == self.label()@,
    {
        match self {
            DapCmd::Info => "Info",
            DapCmd::HostStatus => "HostStatus",
            DapCmd::Connect => "Connect",
            DapCmd::Disconnect => "Disconnect",
            DapCmd::TransferConfigure => "TransferCfg",
            DapCmd::Transfer => "Transfer",
            DapCmd::TransferBlock => "TransferBlk",
            DapCmd::TransferAbort => "TransferAbrt",
            DapCmd::WriteAbort => "WriteABORT",
            DapCmd::Delay => "Delay",
            DapCmd::ResetTarget => "ResetTarget",
            DapCmd::SwjPins => "SWJ_Pins",
            DapCmd::SwjClock => "SWJ_Clock",
            DapCmd::SwjSequence => "SWJ_Seq",
            DapCmd::SwdConfigure => "SWD_Cfg",
            DapCmd::SwdSequence => "SWD_Seq",
        }
    }
}

/// The short name of the command with the byte `id`; `?` where there is none.
pub open spec fn command_label(id: u8) -> Seq<char> {
    match DapCmd::of_code(id) {
        Some(c) => c.label()@,
        None => "?"@,
    }
}

/// The short name of the command with the byte `id`; `?` where there is none.
pub fn cmd_name(id: u8) -> (r: &'static str)
    ensures
        r@ == command_label(id),
{
    match DapCmd::from_u8(id) {
        Some(c) => c.name(),
        None => "?",
    }
}

/// Outcome of one SWD transfer: the acknowledgement on the wire, or what the
/// probe itself noticed.
#[derive(Clone, Copy, PartialEq, Eq, Structural, Debug)]
pub enum Ack {
    /// `0b001` on the wire.
    Okay,
    /// `0b010` on the wire.
    Wait,
    /// `0b100` on the wire.
    Fault,
    /// The target acknowledged, but the parity of the data it sent is wrong.
    Parity,
    /// Nothing that SWD defines was on the wire.
    Protocol,
}

impl Ack {
    /// What the three acknowledgement bits `bits` (0 to 7) mean.
    pub open spec fn of_wire(bits: int) -> Ack {
        if bits == 1 {
            Ack::Okay
        } else if bits == 2 {
            Ack::Wait
        } else if bits == 4 {
            Ack::Fault
        } else {
            Ack::Protocol
        }
    }

    /// The byte that reports the outcome to the host.
    pub open spec fn code(self) -> u8 {
        match self {
            Ack::Okay => 1,
            Ack::Wait => 2,
            Ack::Fault => 4,
            Ack::Parity => 8,
            Ack::Protocol => 7,
        }
    }

    /// Reads the three acknowledgement bits in the low end of `bits`.
    pub fn from_swd(bits: u8) -> (r: Self)
        ensures
            r == Ack::of_wire(bits as int % 8),
    {
        assert(bits & 0x7 == bits % 8) by (bit_vector);
        match bits & 0x7 {
            1 => Ack::Okay,
            2 => Ack::Wait,
            4 => Ack::Fault,
            _ => Ack::Protocol,
        }
    }

    /// The byte that reports the outcome to the host.
    pub fn to_byte(self) -> (r: u8)
        ensures
            r == self.code(),
    {
        match self {
            Ack::Okay => 1,
            Ack::Wait => 2,
            Ack::Fault => 4,
            Ack::Parity => 8,
            Ack::Protocol => 7,
        }
    }
}

/// The request byte for a register: APnDP in bit 0, RnW in bit 1, address bits
/// 2 and 3 in bits 2 and 3.
pub open spec fn request_byte(ap: bool, rnw: bool, a23: int) -> int {
    (if ap { 1int } else { 0 }) + (if rnw { 2int } else { 0 }) + 4 * (a23 % 4)
}

/// The request byte for a register; `a23` is the register's address over four.
pub fn swd_req(ap: bool, rnw: bool, a23: u8) -> (r: u8)
    ensures
        r == request_byte(ap, rnw, a23 as int),
{
    let a: u8 = if ap { REQ_APND_P } else { 0 };
    let r: u8 = if rnw { REQ_RNW } else { 0 };
    a + r + 4 * (a23 % 4)
}

/// Read of DPIDR.
pub const DP_DPIDR_RD: u8 = 0x02;

/// Write of ABORT.
pub const DP_ABORT_WR: u8 = 0x00;

/// Write of CTRL/STAT.
pub const DP_CTRLSTAT_WR: u8 = 0x04;

/// Read of CTRL/STAT.
pub const DP_CTRLSTAT_RD: u8 = 0x06;

/// Write of SELECT.
pub const DP_SELECT_WR: u8 = 0x08;

/// Read of RDBUFF.
pub const DP_RDBUFF_RD: u8 = 0x0E;

/// Write of the AP's CSW.
pub const AP_CSW_WR: u8 = 0x01;

/// Write of the AP's TAR.
pub const AP_TAR_WR: u8 = 0x05;

/// Read of the AP's DRW.
pub const AP_DRW_RD: u8 = 0x0F;

/// Each named request is the request byte of the register it is named after.
pub proof fn named_requests_address_their_registers()
    ensures
        DP_DPIDR_RD == request_byte(false, true, 0),
        DP_ABORT_WR == request_byte(false, false, 0),
        DP_CTRLSTAT_WR == request_byte(false, false, 1),
        DP_CTRLSTAT_RD == request_byte(false, true, 1),
        DP_SELECT_WR == request_byte(false, false, 2),
        DP_RDBUFF_RD == request_byte(false, true, 3),
        AP_CSW_WR == request_byte(true, false, 0),
        AP_TAR_WR == request_byte(true, false, 1),
        AP_DRW_RD == request_byte(true, true, 3),
{
}

/// A byte names the command whose byte it is, and no other.
pub proof fn command_code_round_trip(v: u8, c: DapCmd)
    ensures
        DapCmd::of_code(v) == Some(c) <==> c.code() == v,
{
}

/// An acknowledgement that the target sent is reported to the host with the
/// bits it had on the wire.
pub proof fn wire_ack_is_reported_unchanged(bits: int)
    requires
        bits == 1 || bits == 2 || bits == 4,
    ensures
        Ack::of_wire(bits).code() == bits,
{
}

/// How far a target's flash is protected against being read out.
#[derive(Clone, Copy, PartialEq, Eq, Structural, Debug)]
pub enum RdpLevel {
    /// Level 0: open, can be programmed.
    Open,
    /// Level 1: unlocking erases the flash.
    Level1,
    /// Level 2: locked for good, SWD is off.
    Level2,
    /// Not known, or the family is not supported.
    Unknown,
}

impl RdpLevel {
    /// The byte that carries the level between tasks.
    pub open spec fn code(self) -> u8 {
        match self {
            RdpLevel::Open => 0,
            RdpLevel::Level1 => 1,
            RdpLevel::Level2 => 2,
            RdpLevel::Unknown => 0xFF,
        }
    }

    /// The level that a byte carries; every other byte is `Unknown`.
    pub open spec fn of_code(v: u8) -> RdpLevel {
        if v == 0 {
            RdpLevel::Open
        } else if v == 1 {
            RdpLevel::Level1
        } else if v == 2 {
            RdpLevel::Level2
        } else {
            RdpLevel::Unknown
        }
    }

    /// The display label of the level.
    pub open spec fn label(self) -> &'static str {
        match self {
            RdpLevel::Open => "RDP0",
            RdpLevel::Level1 => "RDP1",
            RdpLevel::Level2 => "RDP2",
            RdpLevel::Unknown => "RDP?",
        }
    }

    /// The byte that carries the level between tasks.
    pub fn to_u8(self) -> (r: u8)
        ensures
            r == self.code(),
    {
        match self {
            RdpLevel::Open => 0,
            RdpLevel::Level1 => 1,
            RdpLevel::Level2 => 2,
            RdpLevel::Unknown => 0xFF,
        }
    }

    /// The level that a byte carries.
    pub fn from_u8(v: u8) -> (r: Self)
        ensures
            r == RdpLevel::of_code(v),
    {
        match v {
            0 => RdpLevel::Open,
            1 => RdpLevel::Level1,
            2 => RdpLevel::Level2,
            _ => RdpLevel::Unknown,
        }
    }

    /// The display label of the level.
    pub fn short(self) -> (r: &'static str)
        ensures
            r@ == self.label()@,
    {
        match self {
            RdpLevel::Open => "RDP0",
            RdpLevel::Level1 => "RDP1",
            RdpLevel::Level2 => "RDP2",
            RdpLevel::Unknown => "RDP?",
        }
    }

    /// A level survives being carried as a byte.
    pub proof fn code_round_trip(self)
        ensures
            RdpLevel::of_code(self.code()) == self,
    {
    }
}

/// How many of sixteen reads succeeded, on the DP (short transfers) and through
/// the AP (long ones, which flashing needs).
#[derive(Clone, Copy, PartialEq, Eq, Structural, Debug)]
pub struct LinkQuality {
    pub dp: u8,
    pub ap: u8,
}

/// What was learnt about a target.
#[derive(Clone, Copy, PartialEq, Eq, Structural, Debug)]
pub struct TargetInfo {
    /// JEP106 code from the ROM table, continuation count times 128 plus
    /// identity; 0 where unknown.
    pub designer: u16,
    /// DBGMCU device identifier; 0 unless the target is of the ST kind.
    pub devid: u16,
    /// Vendor's own part number; 0 where there is none.
    pub part: u32,
    /// Read protection.
    pub rdp: RdpLevel,
    /// PARTNO field of CPUID; 0 where unknown.
    pub core: u16,
}

/// JEP106 code of STMicroelectronics; GD32 parts carry it too.
pub const JEP_ST: u16 = 0x020;

/// JEP106 code of Nordic Semiconductor.
pub const JEP_NORDIC: u16 = 0x244;

/// JEP106 code of Raspberry Pi.
pub const JEP_RASPI: u16 = 0x493;

/// The option register that holds a family's read protection.
#[derive(Clone, Copy, PartialEq, Eq, Structural, Debug)]
pub enum RdpReg {
    /// FLASH_OPTCR, level byte in bits 15 to 8 (F2, F4, F7).
    Optcr,
    /// FLASH_OBR, protection in bit 1 (F0, F1, F3 and GD32F1).
    Obr,
    /// FLASH_OPTR, level byte in bits 7 to 0 (L4, G0, G4).
    Optr,
    /// A family whose register is not interpreted.
    Unknown,
}

/// Device identifiers of the F2, F4 and F7 families.
pub open spec fn is_optcr_family(d: u16) -> bool {
    d == 0x411 || d == 0x413 || d == 0x419 || d == 0x421 || d == 0x423 || d == 0x431 || d == 0x433
        || d == 0x434 || d == 0x441 || d == 0x449 || d == 0x451 || d == 0x452 || d == 0x458
        || d == 0x463
}

/// Device identifiers of the F0, F1 and F3 families and of GD32F1.
pub open spec fn is_obr_family(d: u16) -> bool {
    d == 0x410 || d == 0x412 || d == 0x414 || d == 0x418 || d == 0x420 || d == 0x428 || d == 0x430
        || d == 0x440 || d == 0x442 || d == 0x444 || d == 0x445 || d == 0x448 || d == 0x422
        || d == 0x432 || d == 0x438 || d == 0x439 || d == 0x446
}

/// Device identifiers of the L4, G0 and G4 families.
pub open spec fn is_optr_family(d: u16) -> bool {
    d == 0x415 || d == 0x435 || d == 0x461 || d == 0x462 || d == 0x464 || d == 0x470 || d == 0x471
        || d == 0x456 || d == 0x460 || d == 0x466 || d == 0x467 || d == 0x468 || d == 0x469
        || d == 0x479
}

/// The register that holds the read protection of the device `d`.
pub open spec fn protection_register(d: u16) -> RdpReg {
    if is_optcr_family(d) {
        RdpReg::Optcr
    } else if is_obr_family(d) {
        RdpReg::Obr
    } else if is_optr_family(d) {
        RdpReg::Optr
    } else {
        RdpReg::Unknown
    }
}

/// No device identifier belongs to two families.
pub proof fn protection_families_are_disjoint(d: u16)
    ensures
        !(is_optcr_family(d) && is_obr_family(d)),
        !(is_optcr_family(d) && is_optr_family(d)),
        !(is_obr_family(d) && is_optr_family(d)),
{
}

/// The register that holds the read protection of a device.
pub fn rdp_reg(devid: u16) -> (r: RdpReg)
    ensures
        r == protection_register(devid),
{
    match devid {
        0x411 | 0x413 | 0x419 | 0x421 | 0x423 | 0x431 | 0x433 | 0x434 | 0x441 | 0x449 | 0x451
        | 0x452 | 0x458 | 0x463 => RdpReg::Optcr,
        0x410 | 0x412 | 0x414 | 0x418 | 0x420 | 0x428 | 0x430 | 0x440 | 0x442 | 0x444 | 0x445
        | 0x448 | 0x422 | 0x432 | 0x438 | 0x439 | 0x446 => RdpReg::Obr,
        0x415 | 0x435 | 0x461 | 0x462 | 0x464 | 0x470 | 0x471 | 0x456 | 0x460 | 0x466 | 0x467
        | 0x468 | 0x469 | 0x479 => RdpReg::Optr,
        _ => RdpReg::Unknown,
    }
}

/// The value of four bytes, least significant first.
pub open spec fn le_value(b: Seq<u8>) -> int
    recommends
        b.len() >= 4,
{
    b[0] + 0x100 * b[1] + 0x1_0000 * b[2] + 0x100_0000 * b[3]
}

/// The four bytes of a word, least significant first.
pub open spec fn le_bytes(v: u32) -> Seq<u8> {
    seq![
        (v % 0x100) as u8,
        ((v / 0x100) % 0x100) as u8,
        ((v / 0x1_0000) % 0x100) as u8,
        (v / 0x100_0000) as u8,
    ]
}

/// The word in the four bytes from `at`, least significant first.
pub fn u32_le(b: &[u8], at: usize) -> (r: u32)
    requires
        at + 4 <= b@.len(),
    ensures
        r == le_value(b@.subrange(at as int, at + 4)),
{
    b[at] as u32 + 0x100 * (b[at + 1] as u32) + 0x1_0000 * (b[at + 2] as u32) + 0x100_0000 * (
    b[at + 3] as u32)
}

/// Puts a word into the four bytes from `at`, least significant first.
pub fn put_u32_le(b: &mut [u8], at: usize, v: u32)
    requires
        at + 4 <= old(b)@.len(),
    ensures
        final(b)@ == old(b)@.subrange(0, at as int) + le_bytes(v) + old(b)@.subrange(
            at + 4,
            old(b)@.len() as int,
        ),
{
    let ghost before = b@;
    b[at] = (v % 0x100) as u8;
    b[at + 1] = ((v / 0x100) % 0x100) as u8;
    b[at + 2] = ((v / 0x1_0000) % 0x100) as u8;
    b[at + 3] = (v / 0x100_0000) as u8;
    assert(b@ =~= before.subrange(0, at as int) + le_bytes(v) + before.subrange(
        at + 4,
        before.len() as int,
    ));
}

/// A word read from the bytes it was put into is the word that was put.
pub proof fn le_round_trip(v: u32)
    ensures
        le_bytes(v).len() == 4,
        le_value(le_bytes(v)) == v,
{
}

/// A request byte carries each of its fields where the debug port looks for it: APnDP in bit
/// 0, RnW in bit 1, the register's address over four in bits 2 and 3.
pub proof fn requests_carry_their_fields(ap: bool, rnw: bool, a23: int)
    requires
        0 <= a23 < 4,
    ensures
        ({
            let r = request_byte(ap, rnw, a23);
            &&& 0 <= r < 16
            &&& ap <==> r % 2 == 1
            &&& rnw <==> (r / 2) % 2 == 1
            &&& r / 4 == a23
        }),
{
}

/// Three patterns on the wire are acknowledgements, each of its own kind; all the others are
/// protocol errors. The host is told the pattern, 7 for an error and 8 for bad parity.
pub proof fn acknowledgements_are_told_apart(bits: int)
    requires
        0 <= bits < 8,
    ensures
        Ack::of_wire(bits) is Okay <==> bits == 1,
        Ack::of_wire(bits) is Wait <==> bits == 2,
        Ack::of_wire(bits) is Fault <==> bits == 4,
        Ack::of_wire(bits) is Protocol <==> bits == 0 || bits == 3 || bits >= 5,
        forall|a: Ack| #![trigger a.code()]
            a.code() == match a {
                Ack::Parity => 8u8,
                Ack::Protocol => 7,
                Ack::Fault => 4,
                Ack::Wait => 2,
                Ack::Okay => 1,
            },
{
}

/// A word is the sum of its four bytes, the first counted once and each of the others 256
/// times the one before it.
pub proof fn low_bytes_come_first(v: u32, b: Seq<u8>)
    requires
        b.len() == 4,
    ensures
        v == le_bytes(v)[0] + 256 * (le_bytes(v)[1] + 256 * (le_bytes(v)[2] + 256 * le_bytes(
            v,
        )[3])),
        le_value(b) == b[0] + 256 * (b[1] + 256 * (b[2] + 256 * b[3])),
        0 <= le_value(b) <= u32::MAX,
        le_bytes(le_value(b) as u32) == b,
{
    let w = le_value(b) as u32;
    let (b0, b1, b2, b3) = (b[0] as int, b[1] as int, b[2] as int, b[3] as int);
    assert(w as int == b0 + 0x100 * (b1 + 0x100 * b2 + 0x1_0000 * b3));
    assert(w as int == b0 + 0x100 * b1 + 0x1_0000 * (b2 + 0x100 * b3));
    assert(w as int == b0 + 0x100 * b1 + 0x1_0000 * b2 + 0x100_0000 * b3);
    assert(w as int / 0x100 == b1 + 0x100 * b2 + 0x1_0000 * b3);
    assert(w as int / 0x1_0000 == b2 + 0x100 * b3);
    assert(w as int / 0x100_0000 == b3);
    assert(le_bytes(w) =~= b);
}

} // verus!
