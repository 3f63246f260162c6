//! Raw bit sequences that wake a debug port up and select it.
use vstd::arithmetic::power2::pow2;
use vstd::prelude::*;

use crate::dap::reg::RP2040_TS_CORE0;
use crate::dap::swd::{count_ones, ones, RawBits};
use crate::dap::Dap;

verus! {

/// A line reset: 64 clocks with SWDIO high, where 50 would do.
pub open spec fn line_reset() -> Seq<RawBits> {
    seq![RawBits { bits: 32, data: 0xFFFF_FFFF }, RawBits { bits: 32, data: 0xFFFF_FFFF }]
}

/// The sequence that wakes a debug port up: line reset, the switch from JTAG to SWD, line
/// reset, eight idle clocks.
pub open spec fn wakeup() -> Seq<RawBits> {
    line_reset() + seq![RawBits { bits: 16, data: 0xE79E }] + line_reset() + seq![
        RawBits { bits: 8, data: 0 },
    ]
}

/// The lowest `n` bits of `value`, in pieces of at most 32, lowest first.
pub open spec fn pieces(n: int, value: int) -> Seq<RawBits> {
    Seq::new(
        ((n + 31) / 32) as nat,
        |i: int|
            RawBits {
                bits: (if n - 32 * i < 32 {
                    n - 32 * i
                } else {
                    32
                }) as u32,
                data: ((value / pow2((32 * i) as nat) as int) % 0x1_0000_0000) as u32,
            },
    )
}

/// 51 bits high and three low: the line reset that TARGETSEL has to follow at once.
pub const LONG_RESET: u64 = 0x0007_FFFF_FFFF_FFFF;

/// The sequence that takes a debug port out of its dormant state: line reset, JTAG to
/// dormant, eight bits high, the selection alert, the activation code of SWD after four
/// bits low.
pub open spec fn dormant_to_swd() -> Seq<RawBits> {
    pieces(54, LONG_RESET as int) + pieces(31, 0x33BB_BBBA) + pieces(8, 0xFF) + pieces(
        64,
        0x8685_2D95_6209_F392,
    ) + pieces(64, 0x19BC_0EA2_E3DD_AFE9) + pieces(12, 0x1A0)
}

/// The 48 bits of a TARGETSEL packet: the request 0x99, five clocks during which nobody
/// answers, the target's identifier and its parity.
pub open spec fn targetsel_packet(targetsel: u32) -> int {
    0x1F99 + 0x2000 * targetsel + 0x2000_0000_0000 * ((ones(targetsel as nat) % 2) as int)
}

/// A line reset and a TARGETSEL packet in one piece.
pub open spec fn reset_and_targetsel(targetsel: u32) -> int {
    LONG_RESET + 0x40_0000_0000_0000 * targetsel_packet(targetsel)
}

/// The sequence that selects core 0 of an RP2040.
pub open spec fn select_core0() -> Seq<RawBits> {
    dormant_to_swd() + pieces(102, reset_and_targetsel(RP2040_TS_CORE0))
}

/// Bits that raw pieces have in all.
pub open spec fn total_bits(raw: Seq<RawBits>) -> int
    decreases raw.len(),
{
    if raw.len() == 0 {
        0
    } else {
        total_bits(raw.drop_last()) + raw.last().bits
    }
}

/// Appends the lowest `nbits` bits of `value`.
fn swj_bits(out: &mut Vec<RawBits>, nbits: u32, value: u64)
    requires
        1 <= nbits <= 64,
    ensures
        final(out)@ == old(out)@ + pieces(nbits as int, value as int),
{
    let ghost before = out@;
    proof {
        vstd::arithmetic::power2::lemma2_to64();
        assert((32 * 0int) as nat == 0 && (32 * 1int) as nat == 32);
        assert(value as int / 1 == value);
        assert((value as int / 0x1_0000_0000) % 0x1_0000_0000 == value as int / 0x1_0000_0000);
    }
    if nbits <= 32 {
        out.push(RawBits { bits: nbits, data: (value % 0x1_0000_0000) as u32 });
        assert(out@ =~= before + pieces(nbits as int, value as int));
    } else {
        out.push(RawBits { bits: 32, data: (value % 0x1_0000_0000) as u32 });
        out.push(RawBits { bits: nbits - 32, data: (value / 0x1_0000_0000) as u32 });
        assert(out@ =~= before + pieces(nbits as int, value as int));
    }
}

/// Appends the lowest `nbits` bits of `value`.
fn swj_bits128(out: &mut Vec<RawBits>, nbits: u32, value: u128)
    requires
        nbits <= 128,
    ensures
        final(out)@ == old(out)@ + pieces(nbits as int, value as int),
{
    let ghost before = out@;
    let ghost all = pieces(nbits as int, value as int);
    let mut left: u32 = nbits;
    let mut rest: u128 = value;
    let ghost mut i: int = 0;
    proof {
        vstd::arithmetic::power2::lemma2_to64();
        assert(rest as int == value as int / pow2(0) as int);
    }
    while left > 0
        invariant
            left <= nbits <= 128,
            all == pieces(nbits as int, value as int),
            0 <= i <= all.len(),
            left > 0 ==> left == nbits - 32 * i,
            left == 0 ==> i == all.len(),
            rest as int == value as int / pow2((32 * i) as nat) as int,
            out@ == before + all.subrange(0, i),
        decreases left,
    {
        let chunk: u32 = if left < 32 {
            left
        } else {
            32
        };
        out.push(RawBits { bits: chunk, data: (rest % 0x1_0000_0000) as u32 });
        proof {
            vstd::arithmetic::power2::lemma2_to64();
            vstd::arithmetic::power2::lemma_pow2_adds((32 * i) as nat, 32);
            vstd::arithmetic::power2::lemma_pow2_pos((32 * i) as nat);
            vstd::arithmetic::div_mod::lemma_div_denominator(
                value as int,
                pow2((32 * i) as nat) as int,
                0x1_0000_0000,
            );
            assert((32 * i) as nat + 32 == (32 * (i + 1)) as nat);
            i = i + 1;
        }
        rest = rest / 0x1_0000_0000;
        left = left - chunk;
        assert(out@ =~= before + all.subrange(0, i));
    }
    assert(out@ =~= before + all);
}

/// Appends a line reset.
fn push_line_reset(out: &mut Vec<RawBits>)
    ensures
        final(out)@ == old(out)@ + line_reset(),
{
    let ghost before = out@;
    out.push(RawBits { bits: 32, data: 0xFFFF_FFFF });
    out.push(RawBits { bits: 32, data: 0xFFFF_FFFF });
    assert(out@ =~= before + line_reset());
}

/// Appends the sequence that takes a debug port out of its dormant state.
fn swd_dormant_to_swd(out: &mut Vec<RawBits>)
    ensures
        final(out)@ == old(out)@ + dormant_to_swd(),
{
    let ghost before = out@;
    swj_bits(out, 54, LONG_RESET);
    swj_bits(out, 31, 0x33BB_BBBA);
    swj_bits(out, 8, 0xFF);
    swj_bits(out, 64, 0x8685_2D95_6209_F392);
    swj_bits(out, 64, 0x19BC_0EA2_E3DD_AFE9);
    swj_bits(out, 12, 0x1A0);
    assert(out@ =~= before + dormant_to_swd());
}

/// Appends a line reset and a TARGETSEL packet in one piece.
fn line_reset_then_targetsel(out: &mut Vec<RawBits>, targetsel: u32)
    ensures
        final(out)@ == old(out)@ + pieces(102, reset_and_targetsel(targetsel)),
{
    let parity: u128 = (count_ones(targetsel) % 2) as u128;
    let ts: u128 = 0x1F99 + 0x2000 * (targetsel as u128) + 0x2000_0000_0000 * parity;
    let combined: u128 = LONG_RESET as u128 + 0x40_0000_0000_0000 * ts;
    swj_bits128(out, 102, combined);
}

/// The TARGETSEL sequence has 54 bits of line reset, 51 of them high and then three low,
/// and right after them the packet: request, target and a parity bit that makes the number
/// of ones of these two even.
pub proof fn targetsel_follows_the_reset(targetsel: u32)
    ensures
        ({
            let v = reset_and_targetsel(targetsel);
            let packet = v / 0x40_0000_0000_0000;
            &&& v % 0x40_0000_0000_0000 == LONG_RESET
            &&& packet % 0x100 == 0x99
            &&& (packet / 0x2000) % 0x1_0000_0000 == targetsel
            &&& packet / 0x2000_0000_0000 == ones(targetsel as nat) % 2
        }),
{
}

proof fn pieces_have(n: int, value: int)
    requires
        0 < n <= 128,
    ensures
        total_bits(pieces(n, value)) == n,
{
    reveal_with_fuel(total_bits, 6);
    let p = pieces(n, value);
    if n <= 32 {
    } else if n <= 64 {
        assert(p.drop_last().drop_last() =~= Seq::empty());
    } else if n <= 96 {
        assert(p.drop_last().drop_last().drop_last() =~= Seq::empty());
    } else {
        assert(p.drop_last().drop_last().drop_last().drop_last() =~= Seq::empty());
    }
}

proof fn bits_add(a: Seq<RawBits>, b: Seq<RawBits>)
    ensures
        total_bits(a + b) == total_bits(a) + total_bits(b),
    decreases b.len(),
{
    if b.len() == 0 {
        assert(a + b =~= a);
    } else {
        assert((a + b).drop_last() =~= a + b.drop_last());
        bits_add(a, b.drop_last());
    }
}

/// Selecting core 0 of an RP2040 takes 335 bits: 233 that wake a dormant port and 102 for
/// the reset with the TARGETSEL packet.
pub proof fn selection_takes_335_bits()
    ensures
        total_bits(dormant_to_swd()) == 233,
        total_bits(select_core0()) == 335,
{
    let a = pieces(54, LONG_RESET as int);
    let b = pieces(31, 0x33BB_BBBA);
    let c = pieces(8, 0xFF);
    let d = pieces(64, 0x8685_2D95_6209_F392);
    let e = pieces(64, 0x19BC_0EA2_E3DD_AFE9);
    let f = pieces(12, 0x1A0);
    pieces_have(54, LONG_RESET as int);
    pieces_have(31, 0x33BB_BBBA);
    pieces_have(8, 0xFF);
    pieces_have(64, 0x8685_2D95_6209_F392);
    pieces_have(64, 0x19BC_0EA2_E3DD_AFE9);
    pieces_have(12, 0x1A0);
    bits_add(a, b);
    bits_add(a + b, c);
    bits_add(a + b + c, d);
    bits_add(a + b + c + d, e);
    bits_add(a + b + c + d + e, f);
    let t = pieces(102, reset_and_targetsel(RP2040_TS_CORE0));
    pieces_have(102, reset_and_targetsel(RP2040_TS_CORE0));
    bits_add(dormant_to_swd(), t);
}

impl Dap {
    /// The sequence that wakes a debug port up.
    pub fn swd_wakeup(&self) -> (r: Vec<RawBits>)
        ensures
            r@ == wakeup(),
    {
        let mut out: Vec<RawBits> = Vec::new();
        push_line_reset(&mut out);
        out.push(RawBits { bits: 16, data: 0xE79E });
        push_line_reset(&mut out);
        out.push(RawBits { bits: 8, data: 0 });
        assert(out@ =~= wakeup());
        out
    }

    /// The sequence that wakes a debug port up and selects core 0 of an RP2040.
    pub fn wakeup_and_select(&self) -> (r: Vec<RawBits>)
        ensures
            r@ == wakeup() + select_core0(),
    {
        let mut out = self.swd_wakeup();
        swd_dormant_to_swd(&mut out);
        line_reset_then_targetsel(&mut out, RP2040_TS_CORE0);
        assert(out@ =~= wakeup() + select_core0());
        out
    }

    /// The sequence that selects core 0 of an RP2040.
    pub fn rp2040_select_sequence(&self) -> (r: Vec<RawBits>)
        ensures
            r@ == select_core0(),
    {
        let mut out: Vec<RawBits> = Vec::new();
        swd_dormant_to_swd(&mut out);
        line_reset_then_targetsel(&mut out, RP2040_TS_CORE0);
        assert(out@ =~= select_core0());
        out
    }
}

/// The number that raw pieces stand for, the first bit that goes out lowest.
pub open spec fn stream(raw: Seq<RawBits>) -> int
    decreases raw.len(),
{
    if raw.len() == 0 {
        0
    } else {
        stream(raw.drop_last()) + pow2(total_bits(raw.drop_last()) as nat) * raw.last().data
    }
}

proof fn one_piece_more(front: Seq<RawBits>, last: RawBits, bits: int, weight: int)
    requires
        total_bits(front) == bits,
        bits >= 0,
        pow2(bits as nat) == weight,
    ensures
        stream(front.push(last)) == stream(front) + weight * last.data,
        total_bits(front.push(last)) == bits + last.bits,
{
    assert(front.push(last).drop_last() =~= front);
}

/// A number goes out whole and in order: cut into pieces, it has as many bits as asked for,
/// and put together again the pieces are the number.
pub proof fn pieces_put_together_are_the_number(n: int, value: int)
    requires
        0 < n <= 128,
        0 <= value < pow2(n as nat),
    ensures
        total_bits(pieces(n, value)) == n,
        stream(pieces(n, value)) == value,
        forall|i: int|
            0 <= i < pieces(n, value).len() ==> 1 <= (#[trigger] pieces(n, value)[i]).bits <= 32,
{
    pieces_have(n, value);
    vstd::arithmetic::power2::lemma2_to64();
    vstd::arithmetic::power2::lemma_pow2_adds(32, 32);
    vstd::arithmetic::power2::lemma_pow2_adds(64, 32);
    vstd::arithmetic::power2::lemma_pow2_adds(96, 32);
    assert(pow2(32) == 0x1_0000_0000int);
    assert(pow2(64) == 0x1_0000_0000_0000_0000int);
    assert(pow2(96) == 0x1_0000_0000_0000_0000_0000_0000int);
    assert(pow2(128) == 0x1_0000_0000_0000_0000_0000_0000_0000_0000int);
    if n < 128 {
        vstd::arithmetic::power2::lemma_pow2_strictly_increases(n as nat, 128);
    }
    if n < 96 {
        vstd::arithmetic::power2::lemma_pow2_strictly_increases(n as nat, 96);
    }
    if n < 64 {
        vstd::arithmetic::power2::lemma_pow2_strictly_increases(n as nat, 64);
    }
    if n < 32 {
        vstd::arithmetic::power2::lemma_pow2_strictly_increases(n as nat, 32);
    }
    let p = pieces(n, value);
    assert((32 * 0int) as nat == 0 && (32 * 1int) as nat == 32 && (32 * 2int) as nat == 64 && (32
        * 3int) as nat == 96);
    let d0 = value % 0x1_0000_0000;
    let d1 = (value / 0x1_0000_0000) % 0x1_0000_0000;
    let d2 = (value / 0x1_0000_0000_0000_0000) % 0x1_0000_0000;
    let d3 = (value / 0x1_0000_0000_0000_0000_0000_0000) % 0x1_0000_0000;
    assert(value == d0 + 0x1_0000_0000 * d1 + 0x1_0000_0000_0000_0000 * d2
        + 0x1_0000_0000_0000_0000_0000_0000 * d3);
    let none = Seq::<RawBits>::empty();
    assert(value / 1 == value);
    assert(p[0].data == d0);
    one_piece_more(none, p[0], 0, 1);
    let first = none.push(p[0]);
    if n <= 32 {
        assert(p =~= first);
    } else {
        assert(p[1].data == d1);
        one_piece_more(first, p[1], 32, 0x1_0000_0000);
        let second = first.push(p[1]);
        if n <= 64 {
            assert(p =~= second);
        } else {
            assert(p[2].data == d2);
            one_piece_more(second, p[2], 64, 0x1_0000_0000_0000_0000);
            let third = second.push(p[2]);
            if n <= 96 {
                assert(p =~= third);
            } else {
                assert(p[3].data == d3);
                one_piece_more(third, p[3], 96, 0x1_0000_0000_0000_0000_0000_0000);
                assert(p =~= third.push(p[3]));
            }
        }
    }
}

/// The wake-up holds SWDIO high for at least fifty clocks, sends the sixteen bits that
/// switch from JTAG to SWD, holds it high as long again, and ends with eight clocks low.
pub proof fn wakeups_reset_the_line_twice()
    ensures
        wakeup().len() == 6,
        forall|i: int|
            0 <= i < 6 && i != 2 && i != 5 ==> #[trigger] wakeup()[i] == (RawBits {
                bits: 32,
                data: 0xFFFF_FFFF,
            }),
        wakeup()[2] == (RawBits { bits: 16, data: 0xE79E }),
        wakeup()[5] == (RawBits { bits: 8, data: 0 }),
{
}

/// A dormant port is woken by a reset, the way from JTAG to dormant, eight bits high, the
/// 128 bits of the selection alert in two halves, and the activation code; and an RP2040 is
/// selected by the packet for its core 0, right after.
pub proof fn selections_wake_the_port_first()
    ensures
        dormant_to_swd() == pieces(54, 0x0007_FFFF_FFFF_FFFF) + pieces(31, 0x33BB_BBBA) + pieces(
            8,
            0xFF,
        ) + pieces(64, 0x8685_2D95_6209_F392) + pieces(64, 0x19BC_0EA2_E3DD_AFE9) + pieces(
            12,
            0x1A0,
        ),
        select_core0() == dormant_to_swd() + pieces(102, reset_and_targetsel(0x0100_2927)),
        LONG_RESET == 0x0007_FFFF_FFFF_FFFF,
{
}

/// The packet that selects a target: its request with the park bit and five bits high while
/// nobody answers, the target's identifier, and a bit that makes the number of ones even.
pub proof fn targetsel_packets_are_framed(targetsel: u32)
    ensures
        ({
            let v = targetsel_packet(targetsel);
            &&& 0 <= v < 0x4000_0000_0000
            &&& v % 256 == 0x99
            &&& (v / 256) % 32 == 31
            &&& (v / 0x2000) % 0x1_0000_0000 == targetsel
            &&& (ones(targetsel as nat) + v / 0x2000_0000_0000) % 2 == 0
        }),
{
}

} // verus!
