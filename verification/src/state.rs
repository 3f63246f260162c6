//! What the tasks share: what is known of the target, the rolling picture of the two wires,
//! the latest DAP commands.
use vstd::prelude::*;

use crate::dap::types::{
    cmd_name, command_label, LinkQuality, RdpLevel, TargetInfo,
};
use crate::logic::{bit, levels, sample_at, CAP_WORDS, SAMPLES};
use crate::probe::LineStatus;
use crate::wiring::WireVerdict;

verus! {

/// The flag in the device word that says that a target is known.
pub const VALID: u32 = 0x8000_0000;

/// What is known of the target and of the link to it, one machine word to a fact.
#[derive(Clone, Copy, PartialEq, Eq, Structural, Debug)]
pub struct TargetShared {
    /// 0 without a target, otherwise [`VALID`] plus the device identifier.
    pub devid: u32,
    /// The read protection as a byte.
    pub flash: u8,
    pub designer: u32,
    pub part: u32,
    pub core: u32,
    /// SWCLK at which the target answered in the last scan; 0 where it did not.
    pub used_khz: u32,
    /// SWCLK at which the AP was last found to work.
    pub stable_khz: u32,
    pub link_dp: u32,
    pub link_ap: u32,
    /// SWCLK that a scan is trying.
    pub probe_khz: u32,
    /// Each wire as the test of the wires saw it, 0 or 1.
    pub dio_conn: u8,
    pub clk_conn: u8,
    /// The verdict on the wiring as a byte.
    pub verdict: u8,
    /// How often each wire went from connected to open or back.
    pub clk_flaps: u32,
    pub dio_flaps: u32,
}

impl TargetShared {
    /// Nothing is known.
    pub open spec fn blank() -> TargetShared {
        TargetShared {
            devid: 0,
            flash: 0xFF,
            designer: 0,
            part: 0,
            core: 0,
            used_khz: 0,
            stable_khz: 0,
            link_dp: 0,
            link_ap: 0,
            probe_khz: 0,
            dio_conn: 0,
            clk_conn: 0,
            verdict: 0,
            clk_flaps: 0,
            dio_flaps: 0,
        }
    }

    pub open spec fn has_target(self) -> bool {
        self.devid >= VALID
    }

    pub open spec fn device(self) -> u16 {
        (self.devid % 0x1000) as u16
    }

    pub open spec fn seen_lines(self) -> LineStatus {
        LineStatus { dio: self.dio_conn != 0, clk: self.clk_conn != 0 }
    }

    /// The words after the target `info` was found.
    pub open spec fn storing(self, info: TargetInfo) -> TargetShared {
        TargetShared {
            designer: info.designer as u32,
            part: info.part,
            core: info.core as u32,
            flash: info.rdp.code(),
            devid: (VALID + info.devid) as u32,
            ..self
        }
    }

    /// The words after the target was lost.
    pub open spec fn cleared(self) -> TargetShared {
        TargetShared { devid: 0, flash: 0xFF, ..self }
    }

    /// The words after a measurement of the link.
    pub open spec fn linked(self, q: LinkQuality) -> TargetShared {
        TargetShared { link_dp: q.dp as u32, link_ap: q.ap as u32, ..self }
    }

    /// The words after a test of the wires.
    pub open spec fn with_lines(self, l: LineStatus) -> TargetShared {
        TargetShared {
            dio_conn: if l.dio {
                1
            } else {
                0
            },
            clk_conn: if l.clk {
                1
            } else {
                0
            },
            ..self
        }
    }

    /// Nothing is known.
    pub fn new() -> (r: Self)
        ensures
            r == TargetShared::blank(),
    {
        TargetShared {
            devid: 0,
            flash: 0xFF,
            designer: 0,
            part: 0,
            core: 0,
            used_khz: 0,
            stable_khz: 0,
            link_dp: 0,
            link_ap: 0,
            probe_khz: 0,
            dio_conn: 0,
            clk_conn: 0,
            verdict: 0,
            clk_flaps: 0,
            dio_flaps: 0,
        }
    }

    /// Notes what the test of the wires saw.
    pub fn set_lines(&mut self, l: LineStatus)
        ensures
            *final(self) == old(self).with_lines(l),
    {
        self.dio_conn = if l.dio {
            1
        } else {
            0
        };
        self.clk_conn = if l.clk {
            1
        } else {
            0
        };
    }

    /// What the test of the wires saw.
    pub fn lines(&self) -> (r: LineStatus)
        ensures
            r == self.seen_lines(),
    {
        LineStatus { dio: self.dio_conn != 0, clk: self.clk_conn != 0 }
    }

    pub fn set_verdict(&mut self, v: WireVerdict)
        ensures
            *final(self) == (TargetShared { verdict: v.code(), ..*old(self) }),
    {
        self.verdict = v.to_u8();
    }

    pub fn verdict(&self) -> (r: WireVerdict)
        ensures
            r == WireVerdict::of_code(self.verdict),
    {
        WireVerdict::from_u8(self.verdict)
    }

    /// Counts a change of SWCLK; the count wraps round.
    pub fn bump_clk_flap(&mut self)
        ensures
            *final(self) == (TargetShared {
                clk_flaps: ((old(self).clk_flaps + 1) % 0x1_0000_0000) as u32,
                ..*old(self)
            }),
    {
        self.clk_flaps = self.clk_flaps.wrapping_add(1);
    }

    /// Counts a change of SWDIO; the count wraps round.
    pub fn bump_dio_flap(&mut self)
        ensures
            *final(self) == (TargetShared {
                dio_flaps: ((old(self).dio_flaps + 1) % 0x1_0000_0000) as u32,
                ..*old(self)
            }),
    {
        self.dio_flaps = self.dio_flaps.wrapping_add(1);
    }

    /// The changes of SWCLK and of SWDIO.
    pub fn flaps(&self) -> (r: (u32, u32))
        ensures
            r == (self.clk_flaps, self.dio_flaps),
    {
        (self.clk_flaps, self.dio_flaps)
    }

    pub fn set_probe_khz(&mut self, khz: u32)
        ensures
            *final(self) == (TargetShared { probe_khz: khz, ..*old(self) }),
    {
        self.probe_khz = khz;
    }

    pub fn probe_khz(&self) -> (r: u32)
        ensures
            r == self.probe_khz,
    {
        self.probe_khz
    }

    /// Notes a target that was found.
    pub fn store(&mut self, info: &TargetInfo)
        ensures
            *final(self) == old(self).storing(*info),
    {
        self.designer = info.designer as u32;
        self.part = info.part;
        self.core = info.core as u32;
        self.flash = info.rdp.to_u8();
        self.devid = VALID + info.devid as u32;
    }

    /// Notes that there is no target.
    pub fn clear(&mut self)
        ensures
            *final(self) == old(self).cleared(),
    {
        self.devid = 0;
        self.flash = 0xFF;
    }

    /// Whether a target is known.
    pub fn valid(&self) -> (r: bool)
        ensures
            r == self.has_target(),
    {
        self.devid >= VALID
    }

    pub fn devid(&self) -> (r: u16)
        ensures
            r == self.device(),
    {
        (self.devid % 0x1000) as u16
    }

    pub fn designer(&self) -> (r: u16)
        ensures
            r == self.designer % 0x1_0000,
    {
        (self.designer % 0x1_0000) as u16
    }

    pub fn part(&self) -> (r: u32)
        ensures
            r == self.part,
    {
        self.part
    }

    pub fn core_part(&self) -> (r: u16)
        ensures
            r == self.core % 0x1_0000,
    {
        (self.core % 0x1_0000) as u16
    }

    pub fn rdp(&self) -> (r: RdpLevel)
        ensures
            r == RdpLevel::of_code(self.flash),
    {
        RdpLevel::from_u8(self.flash)
    }

    pub fn set_used_khz(&mut self, khz: u32)
        ensures
            *final(self) == (TargetShared { used_khz: khz, ..*old(self) }),
    {
        self.used_khz = khz;
    }

    pub fn used_khz(&self) -> (r: u32)
        ensures
            r == self.used_khz,
    {
        self.used_khz
    }

    pub fn set_stable_khz(&mut self, khz: u32)
        ensures
            *final(self) == (TargetShared { stable_khz: khz, ..*old(self) }),
    {
        self.stable_khz = khz;
    }

    pub fn stable_khz(&self) -> (r: u32)
        ensures
            r == self.stable_khz,
    {
        self.stable_khz
    }

    pub fn set_link(&mut self, q: &LinkQuality)
        ensures
            *final(self) == old(self).linked(*q),
    {
        self.link_dp = q.dp as u32;
        self.link_ap = q.ap as u32;
    }

    /// The scores of the last measurement of the link.
    pub fn link(&self) -> (r: LinkQuality)
        ensures
            r.dp == self.link_dp % 0x100,
            r.ap == self.link_ap % 0x100,
    {
        LinkQuality { dp: (self.link_dp % 0x100) as u8, ap: (self.link_ap % 0x100) as u8 }
    }
}

/// What was found out about a target reads back as it was stored, the device identifier in
/// its twelve bits; and a target that was cleared is no longer there.
pub proof fn stored_target_reads_back(t: TargetShared, info: TargetInfo)
    ensures
        ({
            let s = t.storing(info);
            &&& s.has_target()
            &&& s.device() == info.devid % 0x1000
            &&& s.designer % 0x1_0000 == info.designer
            &&& s.part == info.part
            &&& s.core % 0x1_0000 == info.core
            &&& RdpLevel::of_code(s.flash) == info.rdp
        }),
        !t.cleared().has_target(),
        RdpLevel::of_code(t.cleared().flash) is Unknown,
{
}

/// Scores and wires read back as they were noted.
pub proof fn link_and_lines_read_back(t: TargetShared, q: LinkQuality, l: LineStatus)
    ensures
        t.linked(q).link_dp % 0x100 == q.dp,
        t.linked(q).link_ap % 0x100 == q.ap,
        t.with_lines(l).seen_lines() == l,
{
}

/// Columns of the picture of the wires.
pub const WAVE_COLS: usize = 128;

/// Columns that a scan adds to it.
pub const WAVE_PUSH: usize = 32;

/// Column `c` of 128, packed into four words.
pub open spec fn column(words: Seq<u32>, c: int) -> bool {
    bit(words[c / 32], (c % 32) as u32)
}

/// The columns from `pos` on, all the way round.
pub open spec fn columns_from(words: Seq<u32>, pos: int) -> Seq<bool> {
    Seq::new(WAVE_COLS as nat, |k: int| column(words, (pos + k) % 128))
}

/// The rolling picture of SWCLK and SWDIO: two rings of one bit to a column.
#[derive(Clone, Copy)]
pub struct WaveRing {
    clk: [u32; 4],
    dio: [u32; 4],
    /// The column that is written next, which is the oldest.
    pos: u32,
}

/// The picture, each wire from the oldest column to the newest.
#[verifier::ext_equal]
pub struct Waves {
    pub clk: Seq<bool>,
    pub dio: Seq<bool>,
}

impl View for WaveRing {
    type V = Waves;

    closed spec fn view(&self) -> Waves {
        Waves {
            clk: columns_from(self.clk@, self.pos as int),
            dio: columns_from(self.dio@, self.pos as int),
        }
    }
}

/// The sample at which the picture of a capture starts: two before the first change of
/// SWCLK, and early enough for the columns that are shown; 0 without a change.
pub open spec fn picture_start(buf: Seq<u32>) -> int {
    let i = first_change(buf, 1);
    if i >= SAMPLES || i < 2 {
        0
    } else if i - 2 + WAVE_PUSH > SAMPLES {
        SAMPLES - WAVE_PUSH
    } else {
        i - 2
    }
}

/// The first sample from `i` on in which SWCLK is not as in sample 0; the number of samples
/// where there is none.
pub open spec fn first_change(buf: Seq<u32>, i: int) -> int
    decreases SAMPLES - i,
{
    if i >= SAMPLES {
        SAMPLES as int
    } else if levels(buf, i).0 != levels(buf, 0).0 {
        i
    } else {
        first_change(buf, i + 1)
    }
}

/// The columns that a capture adds to the picture.
pub open spec fn picture(buf: Seq<u32>) -> Waves {
    Waves {
        clk: Seq::new(WAVE_PUSH as nat, |k: int| levels(buf, picture_start(buf) + k).0),
        dio: Seq::new(WAVE_PUSH as nat, |k: int| levels(buf, picture_start(buf) + k).1),
    }
}

/// Columns without a signal.
pub open spec fn flat() -> Waves {
    Waves {
        clk: Seq::new(WAVE_PUSH as nat, |k: int| false),
        dio: Seq::new(WAVE_PUSH as nat, |k: int| false),
    }
}

/// The picture `w` after some columns came in on the right and as many left on the left.
pub open spec fn scrolled(w: Waves, new: Waves) -> Waves {
    Waves {
        clk: w.clk.subrange(WAVE_PUSH as int, WAVE_COLS as int) + new.clk,
        dio: w.dio.subrange(WAVE_PUSH as int, WAVE_COLS as int) + new.dio,
    }
}

/// Sets one column.
fn set_bit(arr: &mut [u32; 4], col: usize, value: bool)
    requires
        col < WAVE_COLS,
    ensures
        forall|c: int|
            0 <= c < WAVE_COLS ==> #[trigger] column(final(arr)@, c) == if c == col {
                value
            } else {
                column(old(arr)@, c)
            },
{
    let ghost before = arr@;
    let wi: usize = col / 32;
    let s: u32 = (col % 32) as u32;
    let m: u32 = 1u32 << s;
    let v: u32 = arr[wi];
    arr[wi] = if value {
        v | m
    } else {
        v & !m
    };
    proof {
        assert forall|c: int| 0 <= c < WAVE_COLS implies #[trigger] column(arr@, c) == if c == col {
            value
        } else {
            column(before, c)
        } by {
            if c / 32 == wi {
                let t = (c % 32) as u32;
                assert(((v | (1u32 << s)) >> t) & 1 == if t == s {
                    1u32
                } else {
                    (v >> t) & 1
                }) by (bit_vector)
                    requires
                        s < 32,
                        t < 32,
                ;
                assert(((v & !(1u32 << s)) >> t) & 1 == if t == s {
                    0u32
                } else {
                    (v >> t) & 1
                }) by (bit_vector)
                    requires
                        s < 32,
                        t < 32,
                ;
            }
        }
    }
}

/// A ring whose oldest column is written starts at the next, and has the new column last.
proof fn ring_advances(before: Seq<u32>, after: Seq<u32>, pos: int, value: bool)
    requires
        0 <= pos < WAVE_COLS,
        forall|c: int|
            0 <= c < WAVE_COLS ==> #[trigger] column(after, c) == if c == pos {
                value
            } else {
                column(before, c)
            },
    ensures
        columns_from(after, (pos + 1) % 128) == columns_from(before, pos).subrange(
            1,
            WAVE_COLS as int,
        ).push(value),
{
    let new = columns_from(after, (pos + 1) % 128);
    let want = columns_from(before, pos).subrange(1, WAVE_COLS as int).push(value);
    assert forall|k: int| 0 <= k < WAVE_COLS implies new[k] == want[k] by {
        let c = ((pos + 1) % 128 + k) % 128;
        assert(new[k] == column(after, c));
        if k == 127 {
            assert(c == pos);
        } else {
            assert(c == (pos + (k + 1)) % 128);
            assert(c != pos);
            assert(want[k] == columns_from(before, pos)[k + 1]);
        }
    }
    assert(new =~= want);
}

impl WaveRing {
    pub closed spec fn wf(self) -> bool {
        self.pos < WAVE_COLS
    }

    /// Where the ring starts: the oldest column.
    pub closed spec fn start(self) -> int {
        self.pos as int
    }

    /// The words that hold the columns of SWCLK.
    pub closed spec fn clk_words(self) -> Seq<u32> {
        self.clk@
    }

    /// The words that hold the columns of SWDIO.
    pub closed spec fn dio_words(self) -> Seq<u32> {
        self.dio@
    }

    /// A picture without a signal.
    pub fn new() -> (r: Self)
        ensures
            r.wf(),
            r.start() == 0,
            r@.clk == Seq::new(WAVE_COLS as nat, |k: int| false),
            r@.dio == Seq::new(WAVE_COLS as nat, |k: int| false),
    {
        let r = WaveRing { clk: [0; 4], dio: [0; 4], pos: 0 };
        proof {
            assert forall|i: u32| #[trigger] bit(0, i) == false by {
                assert((0u32 >> i) & 1 == 0) by (bit_vector);
            }
            assert(r@.clk =~= Seq::new(WAVE_COLS as nat, |k: int| false));
            assert(r@.dio =~= Seq::new(WAVE_COLS as nat, |k: int| false));
        }
        r
    }

    /// The picture in words that were carried between tasks.
    pub fn from_words(clk: [u32; 4], dio: [u32; 4], pos: usize) -> (r: Self)
        requires
            pos < WAVE_COLS,
        ensures
            r.wf(),
            r.clk_words() == clk@,
            r.dio_words() == dio@,
            r.start() == pos,
            r@.clk == columns_from(clk@, pos as int),
            r@.dio == columns_from(dio@, pos as int),
    {
        WaveRing { clk, dio, pos: pos as u32 }
    }

    /// Writes a column and moves on.
    fn put(&mut self, c: bool, d: bool)
        requires
            old(self).wf(),
        ensures
            final(self).wf(),
            final(self)@.clk == old(self)@.clk.subrange(1, WAVE_COLS as int).push(c),
            final(self)@.dio == old(self)@.dio.subrange(1, WAVE_COLS as int).push(d),
            final(self).start() == (old(self).start() + 1) % 128,
    {
        let ghost before = *self;
        let pos: usize = self.pos as usize;
        set_bit(&mut self.clk, pos, c);
        set_bit(&mut self.dio, pos, d);
        self.pos = ((pos + 1) % WAVE_COLS) as u32;
        proof {
            ring_advances(before.clk@, self.clk@, pos as int, c);
            ring_advances(before.dio@, self.dio@, pos as int, d);
        }
    }

    /// Adds the part of a capture in which the clock runs.
    pub fn push(&mut self, buf: &[u32])
        requires
            old(self).wf(),
            buf@.len() >= CAP_WORDS,
        ensures
            final(self).wf(),
            final(self)@ == scrolled(old(self)@, picture(buf@)),
            final(self).start() == (old(self).start() + WAVE_PUSH) % 128,
    {
        let (c0, _) = sample_at(buf, 0);
        let mut i: usize = 1;
        while i < SAMPLES && sample_at(buf, i).0 == c0
            invariant
                1 <= i <= SAMPLES,
                buf@.len() >= CAP_WORDS,
                c0 == levels(buf@, 0).0,
                first_change(buf@, i as int) == first_change(buf@, 1),
            decreases SAMPLES - i,
        {
            i = i + 1;
        }
        let mut start: usize = 0;
        if i < SAMPLES && i >= 2 {
            start = i - 2;
        }
        if start + WAVE_PUSH > SAMPLES {
            start = SAMPLES - WAVE_PUSH;
        }
        assert(start == picture_start(buf@));
        let ghost before = self@;
        let ghost from = self.start();
        let ghost new = picture(buf@);
        let mut k: usize = 0;
        assert(self@.clk =~= before.clk.subrange(0, WAVE_COLS as int) + new.clk.subrange(0, 0));
        assert(self@.dio =~= before.dio.subrange(0, WAVE_COLS as int) + new.dio.subrange(0, 0));
        while k < WAVE_PUSH
            invariant
                k <= WAVE_PUSH,
                buf@.len() >= CAP_WORDS,
                start + WAVE_PUSH <= SAMPLES,
                start == picture_start(buf@),
                new == picture(buf@),
                before.clk.len() == WAVE_COLS,
                before.dio.len() == WAVE_COLS,
                self.wf(),
                0 <= from < WAVE_COLS,
                self.start() == (from + k) % 128,
                self@.clk == before.clk.subrange(k as int, WAVE_COLS as int) + new.clk.subrange(
                    0,
                    k as int,
                ),
                self@.dio == before.dio.subrange(k as int, WAVE_COLS as int) + new.dio.subrange(
                    0,
                    k as int,
                ),
            decreases WAVE_PUSH - k,
        {
            let (c, d) = sample_at(buf, start + k);
            self.put(c, d);
            k = k + 1;
            assert(self@.clk =~= before.clk.subrange(k as int, WAVE_COLS as int)
                + new.clk.subrange(0, k as int));
            assert(self@.dio =~= before.dio.subrange(k as int, WAVE_COLS as int)
                + new.dio.subrange(0, k as int));
        }
        assert(self@.clk =~= scrolled(before, new).clk);
        assert(self@.dio =~= scrolled(before, new).dio);
    }

    /// Adds columns without a signal.
    pub fn push_flat(&mut self)
        requires
            old(self).wf(),
        ensures
            final(self).wf(),
            final(self)@ == scrolled(old(self)@, flat()),
            final(self).start() == (old(self).start() + WAVE_PUSH) % 128,
    {
        let ghost before = self@;
        let ghost from = self.start();
        let ghost new = flat();
        let mut k: usize = 0;
        assert(self@.clk =~= before.clk.subrange(0, WAVE_COLS as int) + new.clk.subrange(0, 0));
        assert(self@.dio =~= before.dio.subrange(0, WAVE_COLS as int) + new.dio.subrange(0, 0));
        while k < WAVE_PUSH
            invariant
                k <= WAVE_PUSH,
                new == flat(),
                before.clk.len() == WAVE_COLS,
                before.dio.len() == WAVE_COLS,
                self.wf(),
                0 <= from < WAVE_COLS,
                self.start() == (from + k) % 128,
                self@.clk == before.clk.subrange(k as int, WAVE_COLS as int) + new.clk.subrange(
                    0,
                    k as int,
                ),
                self@.dio == before.dio.subrange(k as int, WAVE_COLS as int) + new.dio.subrange(
                    0,
                    k as int,
                ),
            decreases WAVE_PUSH - k,
        {
            self.put(false, false);
            k = k + 1;
            assert(self@.clk =~= before.clk.subrange(k as int, WAVE_COLS as int)
                + new.clk.subrange(0, k as int));
            assert(self@.dio =~= before.dio.subrange(k as int, WAVE_COLS as int)
                + new.dio.subrange(0, k as int));
        }
        assert(self@.clk =~= scrolled(before, new).clk);
        assert(self@.dio =~= scrolled(before, new).dio);
    }

    /// The words of SWCLK, for the display.
    pub fn load_clk(&self) -> (r: [u32; 4])
        requires
            self.wf(),
        ensures
            r@ == self.clk_words(),
            self@.clk == columns_from(r@, self.start()),
    {
        self.clk
    }

    /// The words of SWDIO, for the display.
    pub fn load_dio(&self) -> (r: [u32; 4])
        requires
            self.wf(),
        ensures
            r@ == self.dio_words(),
            self@.dio == columns_from(r@, self.start()),
    {
        self.dio
    }

    /// The oldest column.
    pub fn pos(&self) -> (r: usize)
        requires
            self.wf(),
        ensures
            r == self.start(),
            r < WAVE_COLS,
    {
        self.pos as usize
    }
}

/// Four captures replace the whole picture: what is shown is the last four, oldest first.
pub proof fn four_pushes_fill_the_picture(w: Waves, a: Waves, b: Waves, c: Waves, d: Waves)
    requires
        w.clk.len() == WAVE_COLS && w.dio.len() == WAVE_COLS,
        a.clk.len() == WAVE_PUSH && a.dio.len() == WAVE_PUSH,
        b.clk.len() == WAVE_PUSH && b.dio.len() == WAVE_PUSH,
        c.clk.len() == WAVE_PUSH && c.dio.len() == WAVE_PUSH,
        d.clk.len() == WAVE_PUSH && d.dio.len() == WAVE_PUSH,
    ensures
        ({
            let r = scrolled(scrolled(scrolled(scrolled(w, a), b), c), d);
            &&& r.clk == a.clk + b.clk + c.clk + d.clk
            &&& r.dio == a.dio + b.dio + c.dio + d.dio
        }),
{
    let r = scrolled(scrolled(scrolled(scrolled(w, a), b), c), d);
    assert(r.clk =~= a.clk + b.clk + c.clk + d.clk);
    assert(r.dio =~= a.dio + b.dio + c.dio + d.dio);
}

/// Commands that are remembered.
pub const EVT_N: usize = 3;

/// The latest DAP commands; the newest takes the place of the oldest.
#[derive(Clone, Copy)]
pub struct EventRing {
    ring: [u8; 3],
    seq: u32,
}

impl EventRing {
    /// The slots, in the order they have in memory.
    pub closed spec fn slots(self) -> Seq<u8> {
        self.ring@
    }

    /// Commands recorded so far, in 32 bits.
    pub closed spec fn count(self) -> u32 {
        self.seq
    }

    /// The ring after the commands `ids` were recorded.
    pub open spec fn holds(self, ids: Seq<u8>) -> bool {
        &&& self.slots().len() == EVT_N
        &&& self.count() == ids.len()
        &&& forall|i: int|
            0 <= i < EVT_N && i < ids.len() ==> #[trigger] self.slots()[(ids.len() - 1 - i) % 3]
                == ids[ids.len() - 1 - i]
    }

    pub fn new() -> (r: Self)
        ensures
            r.holds(Seq::empty()),
            r.slots() == seq![0xFFu8, 0xFF, 0xFF],
    {
        let r = EventRing { ring: [0xFF; 3], seq: 0 };
        assert(r.slots() =~= seq![0xFFu8, 0xFF, 0xFF]);
        r
    }

    /// Records a command.
    pub fn record_evt(&mut self, id: u8)
        ensures
            final(self).slots() == old(self).slots().update(old(self).count() as int % 3, id),
            final(self).count() == (old(self).count() + 1) % 0x1_0000_0000,
    {
        let s: u32 = self.seq;
        self.ring[(s as usize) % EVT_N] = id;
        self.seq = s.wrapping_add(1);
    }

    /// The name of the command that was recorded as the `i`th newest, from 0 on; empty where
    /// none is kept: only the newest three are.
    pub fn evt_name(&self, i: u32) -> (r: &'static str)
        ensures
            r@ == if i < EVT_N && self.count() > i {
                command_label(self.slots()[(self.count() - 1 - i) % 3])
            } else {
                ""@
            },
    {
        if (i as usize) < EVT_N && self.seq > i {
            let idx: usize = ((self.seq - 1 - i) as usize) % EVT_N;
            cmd_name(self.ring[idx])
        } else {
            ""
        }
    }
}

/// Recording a command keeps the newest three, as long as no more than the count can hold
/// were recorded.
pub proof fn newest_commands_are_kept(before: EventRing, after: EventRing, ids: Seq<u8>, id: u8)
    requires
        before.holds(ids),
        ids.len() < 0xFFFF_FFFF,
        after.slots() == before.slots().update(before.count() as int % 3, id),
        after.count() == (before.count() + 1) % 0x1_0000_0000,
    ensures
        after.holds(ids.push(id)),
{
    let all = ids.push(id);
    assert forall|i: int| 0 <= i < EVT_N && i < all.len() implies #[trigger] after.slots()[(
    all.len() - 1 - i) % 3] == all[all.len() - 1 - i] by {
        if i > 0 {
            assert(before.slots()[(ids.len() - 1 - (i - 1)) % 3] == ids[ids.len() - 1 - (i - 1)]);
        }
    }
}

/// Before the first scan nothing is known.
pub proof fn nothing_is_known_at_first()
    ensures
        ({
            let t = TargetShared::blank();
            &&& !t.has_target()
            &&& RdpLevel::of_code(t.flash) is Unknown
            &&& WireVerdict::of_code(t.verdict) is Unknown
            &&& t.seen_lines() == (LineStatus { dio: false, clk: false })
            &&& t.used_khz == 0 && t.stable_khz == 0 && t.probe_khz == 0
            &&& t.link_dp == 0 && t.link_ap == 0 && t.clk_flaps == 0 && t.dio_flaps == 0
        }),
{
}

/// A target is known where the highest bit of its word is set, and what is below the twelve
/// bits of the device is not part of it. Noting or forgetting a target leaves the speeds,
/// the link and the wires alone.
pub proof fn targets_are_told_by_the_highest_bit(t: TargetShared, info: TargetInfo)
    ensures
        t.has_target() <==> t.devid & 0x8000_0000 != 0,
        t.device() == t.devid & 0xFFF,
        ({
            let (s, c) = (t.storing(info), t.cleared());
            &&& (s.used_khz, s.stable_khz, s.probe_khz, s.link_dp, s.link_ap) == (
                t.used_khz,
                t.stable_khz,
                t.probe_khz,
                t.link_dp,
                t.link_ap,
            )
            &&& c.devid == 0 && c.flash == 0xFF
            &&& (c.used_khz, c.stable_khz, c.probe_khz, c.link_dp, c.link_ap) == (
                t.used_khz,
                t.stable_khz,
                t.probe_khz,
                t.link_dp,
                t.link_ap,
            )
            &&& (s.seen_lines(), s.verdict, s.clk_flaps, s.dio_flaps) == (
                t.seen_lines(),
                t.verdict,
                t.clk_flaps,
                t.dio_flaps,
            )
            &&& (c.seen_lines(), c.verdict, c.clk_flaps, c.dio_flaps) == (
                t.seen_lines(),
                t.verdict,
                t.clk_flaps,
                t.dio_flaps,
            )
        }),
{
    let d = t.devid;
    assert(d >= 0x8000_0000u32 <==> d & 0x8000_0000 != 0) by (bit_vector);
    assert(d % 0x1000 == d & 0xFFF) by (bit_vector);
}

/// Column `32 * i + s` of a wire is bit `s` of its word `i`; from a position on, the columns
/// follow one another and go on at the first after the last of 128.
pub proof fn columns_are_the_bits_of_the_words(words: Seq<u32>, i: int, s: u32, pos: int, k: int)
    requires
        0 <= i < 4,
        s < 32,
        0 <= pos < 128,
        0 <= k < 128,
    ensures
        column(words, 32 * i + s) <==> words[i] & (1u32 << s) != 0,
        columns_from(words, pos).len() == 128,
        columns_from(words, pos)[k] == column(
            words,
            if pos + k < 128 {
                pos + k
            } else {
                pos + k - 128
            },
        ),
{
    let w = words[i];
    assert((32 * i + s) / 32 == i && (32 * i + s) % 32 == s as int);
    assert((w >> s) & 1 == 1 <==> w & (1u32 << s) != 0) by (bit_vector)
        requires
            s < 32,
    ;
}

proof fn change_is_found(buf: Seq<u32>, from: int, i: int)
    requires
        1 <= from <= i <= 256,
        forall|j: int| from <= j < i ==> (#[trigger] levels(buf, j)).0 == levels(buf, 0).0,
        i < 256 ==> levels(buf, i).0 != levels(buf, 0).0,
    ensures
        first_change(buf, from) == i,
    decreases i - from,
{
    if from < i {
        change_is_found(buf, from + 1, i);
    }
}

/// The picture of a capture is 32 samples in a row of both wires. It starts two samples
/// before the first change of SWCLK, so that the change is in it; at the beginning where
/// nothing changes, and never so late that it would run past the capture.
pub proof fn pictures_start_before_the_first_change(buf: Seq<u32>, i: int, k: int)
    requires
        1 <= i <= 256,
        forall|j: int| 1 <= j < i ==> (#[trigger] levels(buf, j)).0 == levels(buf, 0).0,
        i < 256 ==> levels(buf, i).0 != levels(buf, 0).0,
        0 <= k < 32,
    ensures
        ({
            let start = if i == 256 || i == 1 {
                0
            } else if i > 226 {
                224
            } else {
                i - 2
            };
            &&& picture(buf).clk.len() == 32 && picture(buf).dio.len() == 32
            &&& picture(buf).clk[k] == levels(buf, start + k).0
            &&& picture(buf).dio[k] == levels(buf, start + k).1
        }),
        i < 256 ==> exists|j: int|
            0 <= j < 32 && #[trigger] picture(buf).clk[j] != levels(buf, 0).0,
        picture_start(buf) + 32 <= 256,
{
    change_is_found(buf, 1, i);
    if i < 256 {
        let j = i - picture_start(buf);
        assert(picture(buf).clk[j] == levels(buf, i).0);
    }
}

} // verus!
