//! The SWD physical layer: bit-level wire operations, the command words that
//! carry them to the state machine which drives SWCLK and SWDIO, the clock
//! divider, the reset line and the test that tells a broken wire.
use vstd::arithmetic::power2::pow2;
use vstd::prelude::*;

verus! {

/// One operation on the two SWD wires. Bits travel least significant first.
#[derive(Clone, Copy, PartialEq, Eq, Structural, Debug)]
pub enum WireOp {
    /// Drive `bits` clocks (1 to 256) and the bits of `data` on SWDIO.
    Write { bits: u32, data: u32 },
    /// Drive `bits` clocks while SWDIO floats.
    Hiz { bits: u32 },
    /// Drive `bits` clocks (1 to 32) and sample SWDIO at each.
    Read { bits: u32 },
}

/// Number of read operations in a batch, which is the number of words that the
/// batch brings back.
pub open spec fn reads_in(ops: Seq<WireOp>) -> nat
    decreases ops.len(),
{
    if ops.len() == 0 {
        0
    } else {
        reads_in(ops.drop_last()) + if ops.last() is Read {
            1nat
        } else {
            0
        }
    }
}

/// Reads of two batches add up.
pub proof fn reads_of_concatenation(a: Seq<WireOp>, b: Seq<WireOp>)
    ensures
        reads_in(a + b) == reads_in(a) + reads_in(b),
    decreases b.len(),
{
    if b.len() == 0 {
        assert(a + b =~= a);
    } else {
        assert((a + b).drop_last() =~= a + b.drop_last());
        reads_of_concatenation(a, b.drop_last());
    }
}

/// Routine of the wire state machine that a command word selects.
#[derive(Clone, Copy, PartialEq, Eq, Structural, Debug)]
pub enum PioCmd {
    Write,
    Turnaround,
    Read,
}

/// Addresses of the three routines in the state machine's program memory.
#[derive(Clone, Copy, PartialEq, Eq, Structural, Debug)]
pub struct CmdAddrs {
    pub write: u32,
    pub turnaround: u32,
    pub read: u32,
}

impl CmdAddrs {
    /// Every address fits the five bits that a command word has for it.
    pub open spec fn wf(self) -> bool {
        self.write < 32 && self.turnaround < 32 && self.read < 32
    }

    pub open spec fn of(self, c: PioCmd) -> u32 {
        match c {
            PioCmd::Write => self.write,
            PioCmd::Turnaround => self.turnaround,
            PioCmd::Read => self.read,
        }
    }
}

/// Command word: bit count less one in bits 7 to 0, output enable in bit 8, the
/// routine's address in bits 13 to 9.
pub open spec fn command_word(bits: int, out_en: bool, addr: int) -> int {
    (bits - 1) % 0x100 + 0x100 * (if out_en {
        1int
    } else {
        0
    }) + 0x200 * addr
}

/// `a` over `b`, rounded up.
pub open spec fn ceil_div(a: int, b: int) -> int {
    (a + b - 1) / b
}

/// Divider for an SWCLK of `freq_khz`: the smallest whole one that does not
/// exceed it, four state machine cycles to a clock, kept within 1 to 65535.
pub open spec fn clock_divider(sys_hz: int, freq_khz: int) -> int {
    let d = ceil_div(ceil_div(sys_hz / 1000, freq_khz), 4);
    if d == 0 {
        1
    } else if d > 65535 {
        65535
    } else {
        d
    }
}

fn div_ceil(a: u32, b: u32) -> (r: u32)
    requires
        b > 0,
    ensures
        r == ceil_div(a as int, b as int),
{
    let q: u32 = a / b;
    let rest: u32 = a % b;
    proof {
        let (ai, bi, qi, ri) = (a as int, b as int, q as int, rest as int);
        vstd::arithmetic::div_mod::lemma_fundamental_div_mod(ai, bi);
        if ri == 0 {
            assert(ai + bi - 1 == qi * bi + (bi - 1)) by (nonlinear_arith)
                requires
                    ai == bi * qi + ri,
                    ri == 0,
            ;
            vstd::arithmetic::div_mod::lemma_fundamental_div_mod_converse(
                ai + bi - 1,
                bi,
                qi,
                bi - 1,
            );
        } else {
            assert(ai + bi - 1 == (qi + 1) * bi + (ri - 1)) by (nonlinear_arith)
                requires
                    ai == bi * qi + ri,
            ;
            vstd::arithmetic::div_mod::lemma_fundamental_div_mod_converse(
                ai + bi - 1,
                bi,
                qi + 1,
                ri - 1,
            );
            assert(qi + 1 <= ai) by (nonlinear_arith)
                requires
                    ai == bi * qi + ri,
                    ri > 0,
                    bi > 0,
                    qi >= 0,
            ;
        }
    }
    if rest == 0 {
        q
    } else {
        q + 1
    }
}

/// The wire level of the divider register: eight fractional bits.
///
/// Calls `fixed::FixedU32::<U8>::from_num` and `to_bits`. Trusted: a whole
/// number below 2^24 is represented exactly, as that number times 256.
#[verifier::external_body]
fn divider_register(d: u32) -> (r: u32)
    requires
        d < 0x100_0000,
    ensures
        r == d * 0x100,
{
    fixed::FixedU32::<fixed::types::extra::U8>::from_num(d).to_bits()
}

/// One of the two SWD wires.
#[derive(Clone, Copy, PartialEq, Eq, Structural, Debug)]
pub enum SwdLine {
    Clk,
    Dio,
}

/// One step of the wire test.
#[derive(Clone, Copy, PartialEq, Eq, Structural, Debug)]
pub enum LineStep {
    /// Start or stop the wire state machine.
    Machine { run: bool },
    /// Make the pin an output or an input.
    Direction { line: SwdLine, output: bool },
    /// Drive the pin.
    Level { line: SwdLine, high: bool },
    /// Pull the pin up, or let it float.
    Pull { line: SwdLine, up: bool },
    /// Wait.
    DelayUs(u64),
    /// Read the bank of GPIO inputs, for the state of `line`.
    Sample { line: SwdLine },
}

/// What to do with the open-drain reset line.
#[derive(Clone, Copy, PartialEq, Eq, Structural, Debug)]
pub enum ResetDrive {
    /// The board has no reset line.
    Absent,
    /// Make the pin an output and drive it low.
    Low,
    /// Make the pin an input.
    Release,
}

/// Whether each wire reaches a powered target.
#[derive(Clone, Copy, PartialEq, Eq, Structural, Debug)]
pub struct LineStatus {
    pub dio: bool,
    pub clk: bool,
}

/// State of bit `pin` of a bank of GPIO inputs.
pub open spec fn pin_is_high(bank: u32, pin: int) -> bool {
    (bank as int / pow2(pin as nat) as int) % 2 == 1
}

fn pin_high(bank: u32, pin: u8) -> (r: bool)
    requires
        pin < 32,
    ensures
        r == pin_is_high(bank, pin as int),
{
    proof {
        vstd::bits::lemma_u32_shr_is_div(bank, pin as u32);
    }
    (bank >> (pin as u32)) % 2 == 1
}

/// The steps of the wire test: SWDIO is driven low and released, SWCLK is driven
/// high and released; the target's own pulls then turn a connected wire round.
pub open spec fn line_test() -> Seq<LineStep> {
    seq![
        LineStep::Machine { run: false },
        LineStep::Direction { line: SwdLine::Dio, output: true },
        LineStep::Level { line: SwdLine::Dio, high: false },
        LineStep::DelayUs(20),
        LineStep::Pull { line: SwdLine::Dio, up: false },
        LineStep::Direction { line: SwdLine::Dio, output: false },
        LineStep::DelayUs(150),
        LineStep::Sample { line: SwdLine::Dio },
        LineStep::Pull { line: SwdLine::Dio, up: true },
        LineStep::Direction { line: SwdLine::Dio, output: true },
        LineStep::Direction { line: SwdLine::Clk, output: true },
        LineStep::Level { line: SwdLine::Clk, high: true },
        LineStep::DelayUs(20),
        LineStep::Pull { line: SwdLine::Clk, up: false },
        LineStep::Direction { line: SwdLine::Clk, output: false },
        LineStep::DelayUs(150),
        LineStep::Sample { line: SwdLine::Clk },
        LineStep::Direction { line: SwdLine::Clk, output: true },
        LineStep::Level { line: SwdLine::Clk, high: false },
        LineStep::Machine { run: true },
    ]
}

/// What the two samples of the wire test mean: a connected SWDIO was pulled up, a
/// connected SWCLK was pulled down.
pub open spec fn lines_of(dio_bank: u32, clk_bank: u32, swdio: int, swclk: int) -> LineStatus {
    LineStatus { dio: pin_is_high(dio_bank, swdio), clk: !pin_is_high(clk_bank, swclk) }
}

/// The SWD port: where the state machine's routines are, how fast it runs, the
/// SWCLK frequency in force and whether the board has a reset line.
#[derive(Clone, Copy, PartialEq, Eq, Structural, Debug)]
pub struct Probe {
    pub addrs: CmdAddrs,
    pub sys_hz: u32,
    pub cached_freq_khz: u32,
    pub has_reset: bool,
}

impl Probe {
    pub open spec fn wf(self) -> bool {
        self.addrs.wf() && self.cached_freq_khz > 0
    }

    /// A port whose program was loaded at `origin`; SWCLK starts at 1 MHz.
    pub fn new(
        origin: u32,
        write_cmd: u32,
        turnaround_cmd: u32,
        read_cmd: u32,
        sys_hz: u32,
        has_reset: bool,
    ) -> (r: Self)
        requires
            origin + write_cmd < 32,
            origin + turnaround_cmd < 32,
            origin + read_cmd < 32,
        ensures
            r.wf(),
            r.addrs.write == origin + write_cmd,
            r.addrs.turnaround == origin + turnaround_cmd,
            r.addrs.read == origin + read_cmd,
            r.sys_hz == sys_hz,
            r.cached_freq_khz == 1000,
            r.has_reset == has_reset,
    {
        Probe {
            addrs: CmdAddrs {
                write: origin + write_cmd,
                turnaround: origin + turnaround_cmd,
                read: origin + read_cmd,
            },
            sys_hz,
            cached_freq_khz: 1000,
            has_reset,
        }
    }

    /// Divider for an SWCLK of `freq_khz`.
    pub fn divider_for(sys_hz: u32, freq_khz: u32) -> (r: u32)
        requires
            freq_khz > 0,
        ensures
            r == clock_divider(sys_hz as int, freq_khz as int),
            1 <= r <= 65535,
    {
        let sys_khz: u32 = sys_hz / 1000;
        let per: u32 = div_ceil(sys_khz, freq_khz);
        let d: u32 = div_ceil(per, 4);
        if d == 0 {
            1
        } else if d > 65535 {
            65535
        } else {
            d
        }
    }

    /// The divider register for the frequency in force.
    pub fn divider(&self) -> (r: u32)
        requires
            self.wf(),
        ensures
            r == 0x100 * clock_divider(self.sys_hz as int, self.cached_freq_khz as int),
    {
        divider_register(Probe::divider_for(self.sys_hz, self.cached_freq_khz))
    }

    /// Makes `freq_khz` the frequency in force and gives the divider register that
    /// brings it about.
    pub fn set_swclk_freq(&mut self, freq_khz: u32) -> (r: u32)
        requires
            old(self).wf(),
            freq_khz > 0,
        ensures
            *final(self) == (Probe { cached_freq_khz: freq_khz, ..*old(self) }),
            final(self).wf(),
            r == 0x100 * clock_divider(old(self).sys_hz as int, freq_khz as int),
    {
        self.cached_freq_khz = freq_khz;
        self.divider()
    }

    /// The SWCLK frequency in force.
    pub fn freq_khz(&self) -> (r: u32)
        ensures
            r == self.cached_freq_khz,
    {
        self.cached_freq_khz
    }

    /// The command word for `bit_count` bits.
    pub fn fmt_cmd(&self, bit_count: u32, out_en: bool, c: PioCmd) -> (r: u32)
        requires
            self.wf(),
        ensures
            r == command_word(bit_count as int, out_en, self.addrs.of(c) as int),
    {
        let addr: u32 = match c {
            PioCmd::Write => self.addrs.write,
            PioCmd::Turnaround => self.addrs.turnaround,
            PioCmd::Read => self.addrs.read,
        };
        let count: u32 = if bit_count == 0 {
            0xff
        } else {
            (bit_count - 1) % 0x100
        };
        let en: u32 = if out_en {
            1
        } else {
            0
        };
        count + 0x100 * en + 0x200 * addr
    }

    /// The two words that write `bit_count` bits of `data`.
    pub fn write_bits(&self, bit_count: u32, data: u32) -> (r: (u32, u32))
        requires
            self.wf(),
        ensures
            r.0 == command_word(bit_count as int, true, self.addrs.write as int),
            r.1 == data,
    {
        (self.fmt_cmd(bit_count, true, PioCmd::Write), data)
    }

    /// The two words that clock `bit_count` bits while SWDIO floats.
    pub fn hiz_clocks(&self, bit_count: u32) -> (r: (u32, u32))
        requires
            self.wf(),
        ensures
            r.0 == command_word(bit_count as int, false, self.addrs.turnaround as int),
            r.1 == 0,
    {
        (self.fmt_cmd(bit_count, false, PioCmd::Turnaround), 0)
    }

    /// The word that reads `bit_count` bits.
    pub fn read_bits(&self, bit_count: u32) -> (r: u32)
        requires
            self.wf(),
        ensures
            r == command_word(bit_count as int, false, self.addrs.read as int),
    {
        self.fmt_cmd(bit_count, false, PioCmd::Read)
    }

    /// The bits that a read brought back: they come in at the top of the word `raw`.
    pub fn read_value(bit_count: u32, raw: u32) -> (r: u32)
        requires
            1 <= bit_count <= 32,
        ensures
            r == raw as int / pow2((32 - bit_count) as nat) as int,
            r < pow2(bit_count as nat),
    {
        proof {
            vstd::arithmetic::power2::lemma2_to64();
            vstd::arithmetic::power2::lemma_pow2_pos((32 - bit_count) as nat);
            vstd::arithmetic::power2::lemma_pow2_pos(bit_count as nat);
            vstd::arithmetic::power2::lemma_pow2_adds(bit_count as nat, (32 - bit_count) as nat);
            let p = pow2((32 - bit_count) as nat) as int;
            let q = pow2(bit_count as nat) as int;
            assert(raw as int / p < q) by (nonlinear_arith)
                requires
                    0 <= raw < q * p,
                    p > 0,
                    q > 0,
            ;
            if bit_count < 32 {
                vstd::bits::lemma_u32_shr_is_div(raw, (32 - bit_count) as u32);
            } else {
                assert((32 - bit_count) as nat == 0);
                assert(raw as int / 1 == raw);
            }
        }
        if bit_count < 32 {
            raw >> (32 - bit_count)
        } else {
            raw
        }
    }

    /// What to do with the reset line: `state` false asserts it, true releases it.
    pub fn assert_reset(&self, state: bool) -> (r: ResetDrive)
        ensures
            r == if !self.has_reset {
                ResetDrive::Absent
            } else if state {
                ResetDrive::Release
            } else {
                ResetDrive::Low
            },
    {
        if !self.has_reset {
            ResetDrive::Absent
        } else if state {
            ResetDrive::Release
        } else {
            ResetDrive::Low
        }
    }

    /// The level of the reset line, given that of its pin; 0 without a line.
    pub fn reset_level(&self, pin_high: bool) -> (r: u8)
        ensures
            r == if self.has_reset && pin_high {
                1u8
            } else {
                0
            },
    {
        if self.has_reset && pin_high {
            1
        } else {
            0
        }
    }

    /// The steps of the wire test.
    pub fn probe_lines() -> (r: Vec<LineStep>)
        ensures
            r@ == line_test(),
    {
        vec![
            LineStep::Machine { run: false },
            LineStep::Direction { line: SwdLine::Dio, output: true },
            LineStep::Level { line: SwdLine::Dio, high: false },
            LineStep::DelayUs(20),
            LineStep::Pull { line: SwdLine::Dio, up: false },
            LineStep::Direction { line: SwdLine::Dio, output: false },
            LineStep::DelayUs(150),
            LineStep::Sample { line: SwdLine::Dio },
            LineStep::Pull { line: SwdLine::Dio, up: true },
            LineStep::Direction { line: SwdLine::Dio, output: true },
            LineStep::Direction { line: SwdLine::Clk, output: true },
            LineStep::Level { line: SwdLine::Clk, high: true },
            LineStep::DelayUs(20),
            LineStep::Pull { line: SwdLine::Clk, up: false },
            LineStep::Direction { line: SwdLine::Clk, output: false },
            LineStep::DelayUs(150),
            LineStep::Sample { line: SwdLine::Clk },
            LineStep::Direction { line: SwdLine::Clk, output: true },
            LineStep::Level { line: SwdLine::Clk, high: false },
            LineStep::Machine { run: true },
        ]
    }

    /// What the two samples of the wire test mean.
    pub fn lines(dio_bank: u32, clk_bank: u32, swdio: u8, swclk: u8) -> (r: LineStatus)
        requires
            swdio < 32,
            swclk < 32,
        ensures
            r == lines_of(dio_bank, clk_bank, swdio as int, swclk as int),
    {
        LineStatus { dio: pin_high(dio_bank, swdio), clk: !pin_high(clk_bank, swclk) }
    }
}

/// SWCLK never runs faster than was asked for, unless the divider is at its end;
/// and no smaller divider would do.
pub proof fn swclk_is_at_most_the_requested(sys_hz: int, freq_khz: int)
    requires
        sys_hz >= 0,
        freq_khz > 0,
    ensures
        ({
            let d = clock_divider(sys_hz, freq_khz);
            &&& d < 65535 ==> sys_hz / 1000 <= 4 * d * freq_khz
            &&& d > 1 ==> sys_hz / 1000 > 4 * (d - 1) * freq_khz
        }),
{
    let k = sys_hz / 1000;
    let per = ceil_div(k, freq_khz);
    let d0 = ceil_div(per, 4);
    let d = clock_divider(sys_hz, freq_khz);
    vstd::arithmetic::div_mod::lemma_fundamental_div_mod(k + freq_khz - 1, freq_khz);
    assert(per * freq_khz >= k && (per - 1) * freq_khz < k) by (nonlinear_arith)
        requires
            k + freq_khz - 1 == freq_khz * per + (k + freq_khz - 1) % freq_khz,
            0 <= (k + freq_khz - 1) % freq_khz < freq_khz,
    ;
    assert(4 * d0 >= per && 4 * (d0 - 1) < per);
    if d < 65535 {
        assert(4 * d * freq_khz >= per * freq_khz) by (nonlinear_arith)
            requires
                4 * d >= per,
                freq_khz > 0,
        ;
    }
    if d > 1 {
        assert(4 * (d - 1) <= per - 1);
        assert(4 * (d - 1) * freq_khz <= (per - 1) * freq_khz) by (nonlinear_arith)
            requires
                4 * (d - 1) <= per - 1,
                freq_khz > 0,
        ;
    }
}

/// A command word carries its three parts: the number of bits, less one, in eight bits, the
/// direction in the next, the routine in the five above, and nothing else.
pub proof fn command_words_carry_their_parts(bits: int, out_en: bool, addr: int)
    requires
        1 <= bits <= 256,
        0 <= addr < 32,
    ensures
        ({
            let c = command_word(bits, out_en, addr);
            &&& 0 <= c < 0x4000
            &&& c % 256 == bits - 1
            &&& ((c / 256) % 2 == 1) == out_en
            &&& (c / 512) % 32 == addr
        }),
{
}

/// Writing drives SWDIO and runs the routine for it, with the data as second word; clocks
/// for a turnaround and reads leave SWDIO alone and run theirs.
pub proof fn operations_run_their_routines(
    p: Probe,
    bits: u32,
    data: u32,
    w: (u32, u32),
    h: (u32, u32),
    r: u32,
)
    requires
        p.wf(),
        1 <= bits <= 256,
        call_ensures(Probe::write_bits, (&p, bits, data), w),
        call_ensures(Probe::hiz_clocks, (&p, bits), h),
        call_ensures(Probe::read_bits, (&p, bits), r),
    ensures
        w.0 % 256 == bits - 1 && (w.0 / 256) % 2 == 1 && w.0 / 512 == p.addrs.write,
        w.1 == data,
        h.0 % 256 == bits - 1 && (h.0 / 256) % 2 == 0 && h.0 / 512 == p.addrs.turnaround,
        h.1 == 0,
        r % 256 == bits - 1 && (r / 256) % 2 == 0 && r / 512 == p.addrs.read,
{
}

/// The divider is a whole number from 1 to 65535; it is the smallest with which SWCLK, at
/// four cycles to a clock, is no faster than was asked for, or the largest where none is.
pub proof fn dividers_are_the_smallest_that_do(sys_hz: int, freq_khz: int, other: int)
    requires
        sys_hz >= 0,
        freq_khz > 0,
        1 <= other <= 65535,
        sys_hz / 1000 <= 4 * other * freq_khz,
    ensures
        1 <= clock_divider(sys_hz, freq_khz) <= other,
        sys_hz / 1000 <= 4 * clock_divider(sys_hz, freq_khz) * freq_khz,
{
    swclk_is_at_most_the_requested(sys_hz, freq_khz);
    let d = clock_divider(sys_hz, freq_khz);
    if d > other {
        assert(4 * (d - 1) * freq_khz >= 4 * other * freq_khz) by (nonlinear_arith)
            requires
                d - 1 >= other,
                freq_khz > 0,
        ;
    }
    if d == 65535 {
        assert(other == 65535 || d <= other);
    }
    assert(0 <= (sys_hz / 1000 + freq_khz - 1) / freq_khz) by (nonlinear_arith)
        requires
            sys_hz / 1000 >= 0,
            freq_khz > 0,
    ;
}

/// Where even the largest divider is not enough, it is the one that is used.
pub proof fn slow_clocks_get_the_largest_divider(sys_hz: int, freq_khz: int)
    requires
        sys_hz >= 0,
        freq_khz > 0,
        sys_hz / 1000 > 4 * 65535 * freq_khz,
    ensures
        clock_divider(sys_hz, freq_khz) == 65535,
{
    swclk_is_at_most_the_requested(sys_hz, freq_khz);
    let d = clock_divider(sys_hz, freq_khz);
    if d < 65535 {
        assert(4 * d * freq_khz <= 4 * 65535 * freq_khz) by (nonlinear_arith)
            requires
                d < 65535,
                freq_khz > 0,
        ;
    }
}

/// A pin is high where its bit in the bank is set, whatever the other bits are; a connected
/// SWDIO reads high and a connected SWCLK reads low.
pub proof fn wires_are_read_off_their_pins(dio_bank: u32, clk_bank: u32, swdio: u32, swclk: u32)
    requires
        swdio < 32,
        swclk < 32,
    ensures
        lines_of(dio_bank, clk_bank, swdio as int, swclk as int).dio <==> dio_bank & (1u32 << swdio)
            != 0,
        lines_of(dio_bank, clk_bank, swdio as int, swclk as int).clk <==> clk_bank & (1u32 << swclk)
            == 0,
{
    vstd::bits::lemma_u32_shr_is_div(dio_bank, swdio);
    vstd::bits::lemma_u32_shr_is_div(clk_bank, swclk);
    assert((dio_bank >> swdio) % 2 == 1 <==> dio_bank & (1u32 << swdio) != 0) by (bit_vector)
        requires
            swdio < 32,
    ;
    assert((clk_bank >> swclk) % 2 == 1 <==> clk_bank & (1u32 << swclk) != 0) by (bit_vector)
        requires
            swclk < 32,
    ;
}

/// A read brings back the bits that came in: they are at the top of the word, whatever is
/// below them.
pub proof fn read_bits_come_in_at_the_top(n: u32, v: int, below: int, raw: u32, r: u32)
    requires
        1 <= n <= 32,
        0 <= below < pow2((32 - n) as nat),
        raw == v * pow2((32 - n) as nat) + below,
        call_ensures(Probe::read_value, (n, raw), r),
    ensures
        r == v,
{
    vstd::arithmetic::div_mod::lemma_fundamental_div_mod_converse(
        raw as int,
        pow2((32 - n) as nat) as int,
        v,
        below,
    );
}

/// Reset is an open drain: it is driven only low, and only where the board has the line; its
/// level reads as its pin does, and as low without one.
pub proof fn reset_is_an_open_drain(p: Probe, state: bool, r: ResetDrive, high: bool, level: u8)
    requires
        call_ensures(Probe::assert_reset, (&p, state), r),
        call_ensures(Probe::reset_level, (&p, high), level),
    ensures
        r is Absent <==> !p.has_reset,
        r is Low <==> p.has_reset && !state,
        r is Release <==> p.has_reset && state,
        level == 1 <==> p.has_reset && high,
        level == 0 <==> !(p.has_reset && high),
{
}

/// The wire test stops the state machine first and starts it last. Each wire is driven
/// against the target's own pull, SWDIO low and SWCLK high, let go without a pull of the
/// probe's, given time, and sampled once, SWDIO first; in the end both are driven again,
/// SWCLK low.
pub proof fn wires_are_tested_against_the_pull()
    ensures
        ({
            let t = line_test();
            &&& t.first() == (LineStep::Machine { run: false })
            &&& t.last() == (LineStep::Machine { run: true })
            &&& t.len() == 20
            &&& t.subrange(1, 8) == seq![
                LineStep::Direction { line: SwdLine::Dio, output: true },
                LineStep::Level { line: SwdLine::Dio, high: false },
                LineStep::DelayUs(20),
                LineStep::Pull { line: SwdLine::Dio, up: false },
                LineStep::Direction { line: SwdLine::Dio, output: false },
                LineStep::DelayUs(150),
                LineStep::Sample { line: SwdLine::Dio },
            ]
            &&& t.subrange(8, 10) == seq![
                LineStep::Pull { line: SwdLine::Dio, up: true },
                LineStep::Direction { line: SwdLine::Dio, output: true },
            ]
            &&& t.subrange(10, 17) == seq![
                LineStep::Direction { line: SwdLine::Clk, output: true },
                LineStep::Level { line: SwdLine::Clk, high: true },
                LineStep::DelayUs(20),
                LineStep::Pull { line: SwdLine::Clk, up: false },
                LineStep::Direction { line: SwdLine::Clk, output: false },
                LineStep::DelayUs(150),
                LineStep::Sample { line: SwdLine::Clk },
            ]
            &&& t.subrange(17, 19) == seq![
                LineStep::Direction { line: SwdLine::Clk, output: true },
                LineStep::Level { line: SwdLine::Clk, high: false },
            ]
        }),
{
}

} // verus!
