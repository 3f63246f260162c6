//! What the display shows: 128 by 64 dots, laid out as texts, lines and boxes.
use vstd::prelude::*;

use crate::state::column;

verus! {

/// One bar of the panel on the right.
#[derive(Clone, Copy)]
pub struct Bar {
    /// At most two characters.
    pub label: &'static str,
    pub value: u32,
    pub max: u32,
}

/// What a frame of the display is made of.
pub struct OledModel<'a> {
    /// First line: the chip, or what is wrong with the wiring.
    pub chip: &'a str,
    /// Second line: read protection and speed, or the two wires.
    pub flash: &'a str,
    /// The rings of SWCLK and SWDIO, 128 columns of one bit each.
    pub clk: [u32; 4],
    pub dio: [u32; 4],
    /// The oldest column of the rings.
    pub pos: usize,
    /// Last line.
    pub scale: &'a str,
    /// The bars, from the top down.
    pub bars: &'a [Bar],
}

/// One thing that is drawn.
pub enum Primitive<'a> {
    /// Text with its upper left corner at this dot.
    Text { x: i32, y: i32, text: &'a str },
    /// A line of one dot's width.
    Line { x0: i32, y0: i32, x1: i32, y1: i32 },
    /// The outline of a box.
    Frame { x: i32, y: i32, w: u32, h: u32 },
    /// A filled box.
    Fill { x: i32, y: i32, w: u32, h: u32 },
}

/// Distance of the lines at the top.
pub const LINE_H: i32 = 12;

/// Distance of the lines of a status.
pub const STATUS_H: i32 = 12;

/// Distance of the lines on a target's display.
pub const TARGET_H: i32 = 16;

/// Columns of a waveform.
pub const WAVE_COLS: i32 = 70;

/// Where waveforms start.
pub const WAVE_X0: i32 = 8;

/// Where SWCLK is drawn when it is high.
pub const WAVE_CLK_HI: i32 = 26;

/// Where SWDIO is drawn when it is high.
pub const WAVE_DIO_HI: i32 = 42;

/// From high to low.
pub const WAVE_AMP: i32 = 8;

/// Where the last line stands.
pub const SCALE_Y: i32 = 53;

/// Where the labels of the bars stand.
pub const PANEL_X: i32 = 82;

/// Where the bars start.
pub const BAR_X0: i32 = 96;

/// Width of a full bar.
pub const BAR_W: u32 = 30;

pub const BAR_H: u32 = 7;

/// Where the first bar stands.
pub const BAR_Y0: i32 = 2;

/// Distance of the bars.
pub const BAR_DY: i32 = 10;

/// Bars that are shown at most.
pub const BARS_MAX: usize = 6;

/// The two lines at the top.
pub open spec fn header<'a>(m: OledModel<'a>) -> Seq<Primitive<'a>> {
    seq![
        Primitive::Text { x: 0, y: 0, text: m.chip },
        Primitive::Text { x: 0, y: LINE_H, text: m.flash },
    ]
}

/// The height at which column `c` of a waveform is drawn; 0 is the oldest.
pub open spec fn wave_y(words: Seq<u32>, pos: usize, hi: i32, c: int) -> i32 {
    if column(words, (pos + c) % 128) {
        hi
    } else {
        (hi + WAVE_AMP) as i32
    }
}

/// Column `c` of a waveform: a dash, and a stroke from the column before where the level
/// changed.
pub open spec fn wave_column<'a>(words: Seq<u32>, pos: usize, hi: i32, c: int) -> Seq<
    Primitive<'a>,
> {
    let x = (WAVE_X0 + c) as i32;
    let y = wave_y(words, pos, hi, c);
    let dash = seq![Primitive::Line { x0: x, y0: y, x1: (x + 1) as i32, y1: y }];
    if c > 0 && wave_y(words, pos, hi, c) != wave_y(words, pos, hi, c - 1) {
        dash.push(
            Primitive::Line { x0: x, y0: wave_y(words, pos, hi, c - 1), x1: x, y1: y },
        )
    } else {
        dash
    }
}

/// The first `n` columns of a waveform.
pub open spec fn wave<'a>(words: Seq<u32>, pos: usize, hi: i32, n: int) -> Seq<Primitive<'a>>
    decreases n,
{
    if n <= 0 {
        Seq::empty()
    } else {
        wave(words, pos, hi, n - 1) + wave_column(words, pos, hi, n - 1)
    }
}

/// A waveform with its label.
pub open spec fn channel<'a>(label: &'a str, words: Seq<u32>, pos: usize, hi: i32) -> Seq<
    Primitive<'a>,
> {
    seq![Primitive::Text { x: 0, y: (hi - 1) as i32, text: label }] + wave(
        words,
        pos,
        hi,
        WAVE_COLS as int,
    )
}

/// Both waveforms and the last line.
pub open spec fn waveforms<'a>(m: OledModel<'a>) -> Seq<Primitive<'a>> {
    channel("C", m.clk@, m.pos, WAVE_CLK_HI) + channel("D", m.dio@, m.pos, WAVE_DIO_HI) + seq![
        Primitive::Text { x: 0, y: SCALE_Y, text: m.scale },
    ]
}

/// The width of a bar's filled part: the value over the maximum.
pub open spec fn bar_width(b: Bar) -> int {
    let v = if b.value < b.max {
        b.value
    } else {
        b.max
    };
    if b.max == 0 {
        0
    } else {
        v as int * BAR_W as int / b.max as int
    }
}

/// Bar `i`: label, outline and, where it is not empty, the filled part.
pub open spec fn bar<'a>(b: Bar, i: int) -> Seq<Primitive<'a>> {
    let y = (BAR_Y0 + BAR_DY * i) as i32;
    let outline = seq![
        Primitive::Text { x: PANEL_X, y: (y - 1) as i32, text: b.label },
        Primitive::Frame { x: BAR_X0, y, w: BAR_W, h: BAR_H },
    ];
    if bar_width(b) > 0 {
        outline.push(Primitive::Fill { x: BAR_X0, y, w: bar_width(b) as u32, h: BAR_H })
    } else {
        outline
    }
}

/// The first `n` bars.
pub open spec fn bar_panel<'a>(bars: Seq<Bar>, n: int) -> Seq<Primitive<'a>>
    decreases n,
{
    if n <= 0 {
        Seq::empty()
    } else {
        bar_panel(bars, n - 1) + bar(bars[n - 1], n - 1)
    }
}

/// Bars that are shown.
pub open spec fn bars_shown(bars: Seq<Bar>) -> int {
    if bars.len() < BARS_MAX {
        bars.len() as int
    } else {
        BARS_MAX as int
    }
}

/// A frame of the display.
pub open spec fn frame<'a>(m: OledModel<'a>) -> Seq<Primitive<'a>> {
    header(m) + waveforms(m) + bar_panel(m.bars@, bars_shown(m.bars@))
}

/// The filled parts of the bars that are shown can be computed in 32 bits.
pub open spec fn bars_ok(bars: Seq<Bar>) -> bool {
    forall|i: int|
        0 <= i < bars_shown(bars) ==> (#[trigger] bars[i]).value * BAR_W <= u32::MAX || bars[i].max
            * BAR_W <= u32::MAX
}

/// Lines of text, one below the other.
pub open spec fn text_lines<'a>(lines: Seq<&'a str>, dy: i32) -> Seq<Primitive<'a>> {
    Seq::new(
        lines.len(),
        |i: int| Primitive::Text { x: 0, y: (dy * i) as i32, text: lines[i] },
    )
}

/// Appends the lines at the top.
fn draw_header<'a>(out: &mut Vec<Primitive<'a>>, m: &OledModel<'a>)
    ensures
        final(out)@ == old(out)@ + header(*m),
{
    let ghost before = out@;
    out.push(Primitive::Text { x: 0, y: 0, text: m.chip });
    out.push(Primitive::Text { x: 0, y: LINE_H, text: m.flash });
    assert(out@ =~= before + header(*m));
}

fn ring_bit(words: &[u32; 4], pos: usize, c: i32) -> (r: bool)
    requires
        0 <= c < 128,
    ensures
        r == column(words@, (pos + c) % 128),
{
    let rc: usize = (pos % 128 + c as usize) % 128;
    let word: u32 = words[rc / 32];
    (word >> ((rc % 32) as u32)) & 1 == 1
}

/// Appends a waveform with its label.
fn draw_channel<'a>(
    out: &mut Vec<Primitive<'a>>,
    label: &'a str,
    words: &[u32; 4],
    pos: usize,
    hi: i32,
)
    requires
        0 < hi < 1000,
    ensures
        final(out)@ == old(out)@ + channel(label, words@, pos, hi),
{
    let ghost before = out@;
    out.push(Primitive::Text { x: 0, y: hi - 1, text: label });
    let ghost head = seq![Primitive::Text { x: 0, y: (hi - 1) as i32, text: label }];
    let mut c: i32 = 0;
    assert(out@ =~= before + (head + wave(words@, pos, hi, 0)));
    let mut last: i32 = hi;
    while c < WAVE_COLS
        invariant
            0 <= c <= WAVE_COLS,
            0 < hi < 1000,
            c > 0 ==> last == wave_y(words@, pos, hi, c - 1),
            out@ == before + (head + wave(words@, pos, hi, c as int)),
        decreases WAVE_COLS - c,
    {
        let ghost sofar = out@;
        let x: i32 = WAVE_X0 + c;
        let y: i32 = if ring_bit(words, pos, c) {
            hi
        } else {
            hi + WAVE_AMP
        };
        out.push(Primitive::Line { x0: x, y0: y, x1: x + 1, y1: y });
        if c > 0 && y != last {
            out.push(Primitive::Line { x0: x, y0: last, x1: x, y1: y });
        }
        last = y;
        assert(out@ =~= sofar + wave_column(words@, pos, hi, c as int));
        c = c + 1;
        assert(out@ =~= before + (head + wave(words@, pos, hi, c as int)));
    }
    assert(out@ =~= before + channel(label, words@, pos, hi));
}

/// Appends both waveforms and the last line.
fn draw_waveforms<'a>(out: &mut Vec<Primitive<'a>>, m: &OledModel<'a>)
    ensures
        final(out)@ == old(out)@ + waveforms(*m),
{
    let ghost before = out@;
    draw_channel(out, "C", &m.clk, m.pos, WAVE_CLK_HI);
    draw_channel(out, "D", &m.dio, m.pos, WAVE_DIO_HI);
    out.push(Primitive::Text { x: 0, y: SCALE_Y, text: m.scale });
    assert(out@ =~= before + waveforms(*m));
}

/// Appends the bars.
fn draw_bars<'a>(out: &mut Vec<Primitive<'a>>, m: &OledModel<'a>)
    requires
        bars_ok(m.bars@),
    ensures
        final(out)@ == old(out)@ + bar_panel(m.bars@, bars_shown(m.bars@)),
{
    let ghost before = out@;
    let n: usize = if m.bars.len() < BARS_MAX {
        m.bars.len()
    } else {
        BARS_MAX
    };
    let mut i: usize = 0;
    assert(out@ =~= before + bar_panel(m.bars@, 0));
    while i < n
        invariant
            i <= n <= BARS_MAX,
            n == bars_shown(m.bars@),
            n <= m.bars@.len(),
            bars_ok(m.bars@),
            out@ == before + bar_panel(m.bars@, i as int),
        decreases n - i,
    {
        let ghost sofar = out@;
        let b = m.bars[i];
        let y: i32 = BAR_Y0 + BAR_DY * (i as i32);
        out.push(Primitive::Text { x: PANEL_X, y: y - 1, text: b.label });
        out.push(Primitive::Frame { x: BAR_X0, y, w: BAR_W, h: BAR_H });
        let v: u32 = if b.value < b.max {
            b.value
        } else {
            b.max
        };
        let w: u32 = if b.max == 0 {
            0
        } else {
            v * BAR_W / b.max
        };
        if w > 0 {
            out.push(Primitive::Fill { x: BAR_X0, y, w, h: BAR_H });
        }
        assert(out@ =~= sofar + bar(m.bars@[i as int], i as int));
        i = i + 1;
        assert(out@ =~= before + bar_panel(m.bars@, i as int));
    }
}

/// Lines of text, one below the other.
fn draw_lines<'a>(lines: &[&'a str], dy: i32) -> (r: Vec<Primitive<'a>>)
    requires
        0 <= dy,
        dy * lines@.len() <= i32::MAX,
    ensures
        r@ == text_lines(lines@, dy),
{
    let mut out: Vec<Primitive<'a>> = Vec::new();
    let mut y: i32 = 0;
    let mut i: usize = 0;
    while i < lines.len()
        invariant
            i <= lines@.len(),
            0 <= dy,
            dy * lines@.len() <= i32::MAX,
            y == dy * i,
            0 <= y,
            out@ == text_lines(lines@.subrange(0, i as int), dy),
        decreases lines.len() - i,
    {
        out.push(Primitive::Text { x: 0, y, text: lines[i] });
        proof {
            assert(dy * (i + 1) == dy * i + dy) by (nonlinear_arith);
            assert(dy * (i + 1) <= dy * lines@.len()) by (nonlinear_arith)
                requires
                    0 <= dy,
                    i + 1 <= lines@.len(),
            ;
        }
        y = y + dy;
        i = i + 1;
        assert(out@ =~= text_lines(lines@.subrange(0, i as int), dy));
    }
    assert(lines@.subrange(0, i as int) =~= lines@);
    out
}

/// The display of the probe, which may be missing.
#[derive(Clone, Copy, PartialEq, Eq, Structural, Debug)]
pub struct DebugOled {
    pub present: bool,
}

impl DebugOled {
    /// A display that could be initialised, or could not.
    pub fn new(initialised: bool) -> (r: Self)
        ensures
            r.present == initialised,
    {
        DebugOled { present: initialised }
    }

    /// What is drawn for some lines of status; none without a display.
    pub fn status<'a>(&self, lines: &[&'a str]) -> (r: Option<Vec<Primitive<'a>>>)
        requires
            STATUS_H * lines@.len() <= i32::MAX,
        ensures
            r is Some <==> self.present,
            r matches Some(out) ==> out@ == text_lines(lines@, STATUS_H),
    {
        if !self.present {
            return None;
        }
        Some(draw_lines(lines, STATUS_H))
    }

    /// What is drawn for a frame; none without a display.
    pub fn render<'a>(&self, m: &OledModel<'a>) -> (r: Option<Vec<Primitive<'a>>>)
        requires
            bars_ok(m.bars@),
        ensures
            r is Some <==> self.present,
            r matches Some(out) ==> out@ == frame(*m),
    {
        if !self.present {
            return None;
        }
        let mut out: Vec<Primitive<'a>> = Vec::new();
        draw_header(&mut out, m);
        draw_waveforms(&mut out, m);
        draw_bars(&mut out, m);
        assert(out@ =~= frame(*m));
        Some(out)
    }
}

/// The display of a test target: three lines of text.
pub struct Oled3;

impl Oled3 {
    /// What is drawn for three lines.
    pub fn draw<'a>(l1: &'a str, l2: &'a str, l3: &'a str) -> (r: Vec<Primitive<'a>>)
        ensures
            r@ == text_lines(seq![l1, l2, l3], TARGET_H),
    {
        let lines: [&'a str; 3] = [l1, l2, l3];
        assert(lines@ =~= seq![l1, l2, l3]);
        draw_lines(lines.as_slice(), TARGET_H)
    }
}

/// The thing lies on the panel of 128 by 64 dots; texts start on it.
pub open spec fn on_panel(p: Primitive) -> bool {
    match p {
        Primitive::Text { x, y, .. } => 0 <= x < 128 && 0 <= y < 64,
        Primitive::Line { x0, y0, x1, y1 } => {
            &&& 0 <= x0 < 128 && 0 <= x1 < 128
            &&& 0 <= y0 < 64 && 0 <= y1 < 64
        },
        Primitive::Frame { x, y, w, h } => 0 <= x && x + w <= 128 && 0 <= y && y + h <= 64,
        Primitive::Fill { x, y, w, h } => 0 <= x && x + w <= 128 && 0 <= y && y + h <= 64,
    }
}

/// The thing lies on the panel, and a line keeps left of the bars.
pub open spec fn in_place(p: Primitive) -> bool {
    on_panel(p) && (p matches Primitive::Line { x0, x1, .. } ==> x0 < PANEL_X && x1 < PANEL_X)
}

proof fn wave_in_place(words: Seq<u32>, pos: usize, hi: i32, n: int)
    requires
        0 <= n <= WAVE_COLS,
        hi == WAVE_CLK_HI || hi == WAVE_DIO_HI,
    ensures
        forall|i: int|
            0 <= i < wave(words, pos, hi, n).len() ==> in_place(
                #[trigger] wave(words, pos, hi, n)[i],
            ),
    decreases n,
{
    if n > 0 {
        wave_in_place(words, pos, hi, n - 1);
        let a = wave(words, pos, hi, n - 1);
        let b = wave_column(words, pos, hi, n - 1);
        assert forall|i: int| 0 <= i < (a + b).len() implies in_place(#[trigger] (a + b)[i]) by {
            if i >= a.len() {
                assert((a + b)[i] == b[i - a.len()]);
            } else {
                assert((a + b)[i] == a[i]);
            }
        }
    }
}

/// A bar is never wider than its outline, and full where the value reaches the maximum.
pub proof fn bars_keep_to_their_outline(b: Bar)
    ensures
        0 <= bar_width(b) <= BAR_W,
        b.max > 0 && b.value >= b.max ==> bar_width(b) == BAR_W,
        b.value == 0 ==> bar_width(b) == 0,
{
    if b.max > 0 {
        let v = if b.value < b.max {
            b.value as int
        } else {
            b.max as int
        };
        assert(0 <= v * 30 / b.max as int <= 30) by (nonlinear_arith)
            requires
                0 <= v <= b.max,
                b.max > 0,
        ;
        if b.value >= b.max {
            assert(b.max as int * 30 / b.max as int == 30) by (nonlinear_arith)
                requires
                    b.max > 0,
            ;
        }
        if b.value == 0 {
            assert(0int * 30 / b.max as int == 0) by (nonlinear_arith)
                requires
                    b.max > 0,
            ;
        }
    }
}

proof fn bars_in_place(bars: Seq<Bar>, n: int)
    requires
        0 <= n <= bars_shown(bars),
    ensures
        forall|i: int|
            0 <= i < bar_panel(bars, n).len() ==> in_place(#[trigger] bar_panel(bars, n)[i]),
    decreases n,
{
    if n > 0 {
        bars_in_place(bars, n - 1);
        bars_keep_to_their_outline(bars[n - 1]);
        let a = bar_panel(bars, n - 1);
        let b = bar(bars[n - 1], n - 1);
        assert forall|i: int| 0 <= i < (a + b).len() implies in_place(#[trigger] (a + b)[i]) by {
            if i >= a.len() {
                assert((a + b)[i] == b[i - a.len()]);
            } else {
                assert((a + b)[i] == a[i]);
            }
        }
    }
}

/// Everything in a frame lies on the panel, and the waveforms keep left of the bars.
pub proof fn frames_fit_the_panel(m: OledModel)
    ensures
        forall|i: int| 0 <= i < frame(m).len() ==> in_place(#[trigger] frame(m)[i]),
{
    let f = frame(m);
    let h = header(m);
    let lc: Seq<Primitive> = seq![
        Primitive::Text { x: 0, y: (WAVE_CLK_HI - 1) as i32, text: "C" },
    ];
    let ld: Seq<Primitive> = seq![
        Primitive::Text { x: 0, y: (WAVE_DIO_HI - 1) as i32, text: "D" },
    ];
    let wc = wave(m.clk@, m.pos, WAVE_CLK_HI, WAVE_COLS as int);
    let wd = wave(m.dio@, m.pos, WAVE_DIO_HI, WAVE_COLS as int);
    let sc: Seq<Primitive> = seq![Primitive::Text { x: 0, y: SCALE_Y, text: m.scale }];
    let b = bar_panel(m.bars@, bars_shown(m.bars@));
    wave_in_place(m.clk@, m.pos, WAVE_CLK_HI, WAVE_COLS as int);
    wave_in_place(m.dio@, m.pos, WAVE_DIO_HI, WAVE_COLS as int);
    bars_in_place(m.bars@, bars_shown(m.bars@));
    assert(f =~= h + (lc + (wc + (ld + (wd + (sc + b))))));
    let n0 = h.len() as int;
    let n1 = n0 + lc.len();
    let n2 = n1 + wc.len();
    let n3 = n2 + ld.len();
    let n4 = n3 + wd.len();
    let n5 = n4 + sc.len();
    assert forall|i: int| 0 <= i < f.len() implies in_place(#[trigger] f[i]) by {
        if i < n0 {
            assert(f[i] == h[i]);
        } else if i < n1 {
            assert(f[i] == lc[i - n0]);
        } else if i < n2 {
            assert(f[i] == wc[i - n1]);
        } else if i < n3 {
            assert(f[i] == ld[i - n2]);
        } else if i < n4 {
            assert(f[i] == wd[i - n3]);
        } else if i < n5 {
            assert(f[i] == sc[i - n4]);
        } else {
            assert(f[i] == b[i - n5]);
        }
    }
}

/// A frame, from the top: the two lines, the two waveforms with their labels, 70 columns
/// each, SWCLK above SWDIO, the last line, and the bars, six at most.
pub proof fn frames_are_laid_out<'a>(m: OledModel<'a>)
    ensures
        frame(m) == seq![
            Primitive::Text { x: 0, y: 0, text: m.chip },
            Primitive::Text { x: 0, y: 12, text: m.flash },
            Primitive::Text { x: 0, y: 25, text: "C" },
        ] + wave(m.clk@, m.pos, 26, 70) + seq![Primitive::Text { x: 0, y: 41, text: "D" }] + wave(
            m.dio@,
            m.pos,
            42,
            70,
        ) + seq![Primitive::Text { x: 0, y: 53, text: m.scale }] + bar_panel(
            m.bars@,
            if m.bars@.len() < 6 {
                m.bars@.len() as int
            } else {
                6
            },
        ),
{
    let want = seq![
        Primitive::Text { x: 0, y: 0, text: m.chip },
        Primitive::Text { x: 0, y: 12, text: m.flash },
        Primitive::Text { x: 0, y: 25, text: "C" },
    ] + wave(m.clk@, m.pos, 26, 70) + seq![Primitive::Text { x: 0, y: 41, text: "D" }] + wave(
        m.dio@,
        m.pos,
        42,
        70,
    ) + seq![Primitive::Text { x: 0, y: 53, text: m.scale }] + bar_panel(
        m.bars@,
        bars_shown(m.bars@),
    );
    assert(frame(m) =~= want);
}

/// A column of a waveform is drawn eight dots lower where the wire is low, one dot further to
/// the right than the one before, and joined to it where the level changed.
pub proof fn waveforms_follow_the_levels(words: Seq<u32>, pos: usize, hi: i32, c: int)
    requires
        0 <= c < 70,
        0 < hi < 100,
    ensures
        ({
            let level = column(words, (pos + c) % 128);
            let before = column(words, (pos + c - 1) % 128);
            let y: i32 = if level {
                hi
            } else {
                (hi + 8) as i32
            };
            let y0: i32 = if before {
                hi
            } else {
                (hi + 8) as i32
            };
            let x = (8 + c) as i32;
            let dash = seq![Primitive::Line { x0: x, y0: y, x1: (9 + c) as i32, y1: y }];
            &&& c > 0 && level != before ==> wave_column(words, pos, hi, c) == dash + seq![
                Primitive::Line { x0: x, y0, x1: x, y1: y },
            ]
            &&& c == 0 || level == before ==> wave_column(words, pos, hi, c) == dash
            &&& wave(words, pos, hi, c + 1) == wave(words, pos, hi, c) + wave_column(
                words,
                pos,
                hi,
                c,
            )
            &&& wave(words, pos, hi, 0).len() == 0
        }),
{
    assert(pos + (c - 1) == pos + c - 1);
    let x = (8 + c) as i32;
    assert((x + 1) as i32 == (9 + c) as i32);
}

/// A bar's filled part is to its outline, 30 dots wide, as the value is to the maximum,
/// rounded down.
pub proof fn bars_are_proportional(b: Bar)
    requires
        b.max > 0,
        b.value <= b.max,
    ensures
        bar_width(b) * b.max <= 30 * b.value < (bar_width(b) + 1) * b.max,
{
    let (v, m) = (b.value as int, b.max as int);
    if b.value == b.max {
        assert(m * 30 / m == 30) by (nonlinear_arith)
            requires
                m > 0,
        ;
        assert((30 + 1) * m == 30 * m + m) by (nonlinear_arith);
    }
    let w = v * 30 / m;
    assert(w * m <= 30 * v < (w + 1) * m) by (nonlinear_arith)
        requires
            w == v * 30 / m,
            m > 0,
            v >= 0,
    ;
}

/// Bars stand ten dots apart, each with its label to the left, an outline of 30 by 7 dots,
/// and the filled part in it from the left, unless that is empty.
pub proof fn bars_stand_below_each_other<'a>(bars: Seq<Bar>, i: int)
    requires
        0 <= i < bars.len(),
        i < 6,
    ensures
        ({
            let b = bars[i];
            let outline = seq![
                Primitive::Text { x: 82, y: (1 + 10 * i) as i32, text: b.label },
                Primitive::Frame { x: 96, y: (2 + 10 * i) as i32, w: 30, h: 7 },
            ];
            &&& bar_width(b) == 0 ==> bar::<'a>(b, i) == outline
            &&& bar_width(b) > 0 ==> bar::<'a>(b, i) == outline + seq![
                Primitive::Fill {
                    x: 96,
                    y: (2 + 10 * i) as i32,
                    w: bar_width(b) as u32,
                    h: 7,
                },
            ]
            &&& bar_panel::<'a>(bars, i + 1) == bar_panel::<'a>(bars, i) + bar::<'a>(b, i)
            &&& bar_panel::<'a>(bars, 0).len() == 0
        }),
{
    let y = (2 + 10 * i) as i32;
    assert((y - 1) as i32 == (1 + 10 * i) as i32);
    bars_keep_to_their_outline(bars[i]);
}

/// Lines of text stand below each other, in order: those of a status 12 dots apart, those of
/// a target's display 16.
pub proof fn texts_stand_below_each_other<'a>(
    lines: Seq<&'a str>,
    i: int,
    l1: &'a str,
    l2: &'a str,
    l3: &'a str,
    r: Vec<Primitive<'a>>,
)
    requires
        0 <= i < lines.len(),
        12 * lines.len() <= i32::MAX,
        call_ensures(Oled3::draw, (l1, l2, l3), r),
    ensures
        text_lines(lines, STATUS_H).len() == lines.len(),
        text_lines(lines, STATUS_H)[i] == (Primitive::Text {
            x: 0,
            y: (12 * i) as i32,
            text: lines[i],
        }),
        r@ == seq![
            Primitive::Text { x: 0, y: 0, text: l1 },
            Primitive::Text { x: 0, y: 16, text: l2 },
            Primitive::Text { x: 0, y: 32, text: l3 },
        ],
{
    assert(r@ =~= seq![
        Primitive::Text { x: 0, y: 0, text: l1 },
        Primitive::Text { x: 0, y: 16, text: l2 },
        Primitive::Text { x: 0, y: 32, text: l3 },
    ]);
}

} // verus!
