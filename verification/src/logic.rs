//! Samples of SWCLK and SWDIO: how a capture is laid out and what is read off it.
use vstd::prelude::*;

verus! {

/// Words of a capture; each has sixteen samples of two bits.
pub const CAP_WORDS: usize = 16;

/// Samples of a capture.
pub const SAMPLES: usize = 256;

/// The sampling rate is the system clock over this.
pub const DIVIDER: u32 = 8;

/// Bit `i` of a word.
pub open spec fn bit(w: u32, i: u32) -> bool {
    (w >> i) & 1 == 1
}

/// The levels of SWCLK and SWDIO in sample `idx`: bits 0 and 1 of two, the first sample
/// lowest.
pub open spec fn levels(buf: Seq<u32>, idx: int) -> (bool, bool) {
    let shift = 2 * (idx % 16);
    (bit(buf[idx / 16], shift as u32), bit(buf[idx / 16], (shift + 1) as u32))
}

/// The time of one sample in nanoseconds, at a system clock of `clk_hz`; 32 bits are kept.
pub fn sample_ns(clk_hz: u32) -> (r: u32)
    requires
        clk_hz > 0,
    ensures
        r == (DIVIDER as int * 1_000_000_000 / clk_hz as int) % 0x1_0000_0000,
{
    let ns: u64 = DIVIDER as u64 * 1_000_000_000 / clk_hz as u64;
    (ns % 0x1_0000_0000) as u32
}

/// The levels of SWCLK and SWDIO in sample `idx`.
pub fn sample_at(buf: &[u32], idx: usize) -> (r: (bool, bool))
    requires
        idx / 16 < buf@.len(),
    ensures
        r == levels(buf@, idx as int),
{
    let w: u32 = buf[idx / 16];
    let shift: u32 = 2 * ((idx % 16) as u32);
    proof {
        assert(((w >> shift) & 3u32) & 1u32 == (w >> shift) & 1u32) by (bit_vector);
        assert(((w >> shift) & 3u32) & 2u32 != 0 <==> (w >> ((shift + 1) as u32)) & 1u32 == 1)
            by (bit_vector)
            requires
                shift < 31,
        ;
        assert(((w >> shift) & 1u32) != 0 ==> ((w >> shift) & 1u32) == 1) by (bit_vector);
    }
    let s: u32 = (w >> shift) & 3;
    (s & 1 != 0, s & 2 != 0)
}

/// What a capture shows.
#[derive(Clone, Copy, PartialEq, Eq, Structural, Debug)]
pub struct Signal {
    pub clk_edges: u32,
    pub dio_edges: u32,
    /// Samples in which the wire is high.
    pub clk_high: u32,
    pub dio_high: u32,
}

/// One where `b`, otherwise zero.
pub open spec fn one_if(b: bool) -> int {
    if b {
        1
    } else {
        0
    }
}

/// Changes of SWCLK and of SWDIO from one of the first `n` samples to the next.
pub open spec fn edges(buf: Seq<u32>, n: int) -> (int, int)
    decreases n,
{
    if n <= 1 {
        (0, 0)
    } else {
        let (c, d) = edges(buf, n - 1);
        (
            c + one_if(levels(buf, n - 1).0 != levels(buf, n - 2).0),
            d + one_if(levels(buf, n - 1).1 != levels(buf, n - 2).1),
        )
    }
}

/// How many of the first `n` samples show SWCLK high, and how many SWDIO.
pub open spec fn highs(buf: Seq<u32>, n: int) -> (int, int)
    decreases n,
{
    if n <= 0 {
        (0, 0)
    } else {
        let (c, d) = highs(buf, n - 1);
        (c + one_if(levels(buf, n - 1).0), d + one_if(levels(buf, n - 1).1))
    }
}

/// Counts the edges and the high samples of a capture.
pub fn count_signal(buf: &[u32]) -> (r: Signal)
    requires
        buf@.len() >= CAP_WORDS,
    ensures
        (r.clk_edges as int, r.dio_edges as int) == edges(buf@, SAMPLES as int),
        (r.clk_high as int, r.dio_high as int) == highs(buf@, SAMPLES as int),
        r.clk_edges < SAMPLES && r.dio_edges < SAMPLES,
        r.clk_high <= SAMPLES && r.dio_high <= SAMPLES,
{
    let (c0, d0) = sample_at(buf, 0);
    let mut pc: bool = c0;
    let mut pd: bool = d0;
    let mut s = Signal {
        clk_edges: 0,
        dio_edges: 0,
        clk_high: if c0 {
            1
        } else {
            0
        },
        dio_high: if d0 {
            1
        } else {
            0
        },
    };
    proof {
        reveal_with_fuel(highs, 2);
    }
    let mut i: usize = 1;
    while i < SAMPLES
        invariant
            1 <= i <= SAMPLES,
            buf@.len() >= CAP_WORDS,
            (pc, pd) == levels(buf@, i - 1),
            (s.clk_edges as int, s.dio_edges as int) == edges(buf@, i as int),
            (s.clk_high as int, s.dio_high as int) == highs(buf@, i as int),
            s.clk_edges < i && s.dio_edges < i,
            s.clk_high <= i && s.dio_high <= i,
        decreases SAMPLES - i,
    {
        let (c, d) = sample_at(buf, i);
        if c != pc {
            s.clk_edges = s.clk_edges + 1;
            pc = c;
        }
        if d != pd {
            s.dio_edges = s.dio_edges + 1;
            pd = d;
        }
        if c {
            s.clk_high = s.clk_high + 1;
        }
        if d {
            s.dio_high = s.dio_high + 1;
        }
        i = i + 1;
    }
    s
}

/// Sample `16 * i + s` stands in word `i`: SWCLK in bit `2 * s`, SWDIO in the bit above.
pub proof fn samples_stand_two_bits_apart(buf: Seq<u32>, i: int, s: u32)
    requires
        i >= 0,
        s < 16,
    ensures
        levels(buf, 16 * i + s).0 <==> buf[i] & (1u32 << (2 * s) as u32) != 0,
        levels(buf, 16 * i + s).1 <==> buf[i] & (2u32 << (2 * s) as u32) != 0,
{
    let w = buf[i];
    let d = (2 * s) as u32;
    let e = (2 * s + 1) as u32;
    assert((16 * i + s) / 16 == i && (16 * i + s) % 16 == s as int);
    assert((w >> d) & 1 == 1 <==> w & (1u32 << d) != 0) by (bit_vector)
        requires
            d < 31,
    ;
    assert((w >> e) & 1 == 1 <==> w & (2u32 << d) != 0) by (bit_vector)
        requires
            d < 31,
            e == d + 1,
    ;
}

/// An edge is a sample that is not as the one before: one more sample adds an edge to each
/// wire that changed with it, and one to the high samples of each wire that is high in it.
pub proof fn samples_are_counted_one_by_one(buf: Seq<u32>, n: int)
    requires
        n >= 1,
    ensures
        edges(buf, 1) == (0int, 0int),
        highs(buf, 0) == (0int, 0int),
        edges(buf, n + 1).0 == edges(buf, n).0 + if levels(buf, n).0 == levels(buf, n - 1).0 {
            0int
        } else {
            1
        },
        edges(buf, n + 1).1 == edges(buf, n).1 + if levels(buf, n).1 == levels(buf, n - 1).1 {
            0int
        } else {
            1
        },
        highs(buf, n).0 == highs(buf, n - 1).0 + if levels(buf, n - 1).0 {
            1int
        } else {
            0
        },
        highs(buf, n).1 == highs(buf, n - 1).1 + if levels(buf, n - 1).1 {
            1int
        } else {
            0
        },
{
}

/// A capture is counted over all its 256 samples.
pub proof fn whole_captures_are_counted(buf: &[u32], r: Signal)
    requires
        buf@.len() >= 16,
        call_ensures(count_signal, (buf,), r),
    ensures
        (r.clk_edges as int, r.dio_edges as int) == edges(buf@, 256),
        (r.clk_high as int, r.dio_high as int) == highs(buf@, 256),
{
}

/// A sample is taken every eighth clock.
pub proof fn samples_are_eight_clocks_apart(clk_hz: u32, r: u32)
    requires
        clk_hz > 0,
        call_ensures(sample_ns, (clk_hz,), r),
    ensures
        r == (8_000_000_000int / clk_hz as int) % 0x1_0000_0000,
{
}

} // verus!
