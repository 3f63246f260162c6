//! Firmware of the boards that the probe is tried out on: they answer on their UART, show
//! what they received and blink.
use vstd::prelude::*;
use vstd::utf8::is_ascii_chars;

use crate::text::{
    dec, digits, line_clear, line_len, line_new, line_push, line_push_dec, line_push_str,
    line_text, numeral_is_ascii, numerals_are_short, one_byte_each, piece_fits, utf8_len,
    utf8_len_adds, writing, written, LINE_BYTES,
};

verus! {

/// Bytes that a greeting has room for.
pub const HELLO_BYTES: usize = 48;

/// The text of a greeting.
pub uninterp spec fn hello_text(s: heapless::String<48>) -> Seq<char>;

/// Calls `heapless::String::new`. Trusted: the string has no text.
#[verifier::external_body]
fn hello_new() -> (r: heapless::String<48>)
    ensures
        hello_text(r) == Seq::<char>::empty(),
{
    heapless::String::new()
}

/// Calls `heapless::String::push_str`. Trusted: the text is appended where its bytes fit
/// beside those that are there, and otherwise nothing changes; the result says which.
#[verifier::external_body]
fn hello_push_str(line: &mut heapless::String<48>, s: &str) -> (ok: bool)
    ensures
        ok == (utf8_len(hello_text(*old(line))) + utf8_len(s@) <= HELLO_BYTES),
        hello_text(*final(line)) == if ok {
            hello_text(*old(line)) + s@
        } else {
            hello_text(*old(line))
        },
{
    line.push_str(s).is_ok()
}

/// Calls `heapless::String::push`. Trusted: the character is appended where its bytes fit
/// beside those that are there, and otherwise nothing changes; the result says which.
#[verifier::external_body]
fn hello_push(line: &mut heapless::String<48>, c: char) -> (ok: bool)
    ensures
        ok == (utf8_len(hello_text(*old(line))) + utf8_len(seq![c]) <= HELLO_BYTES),
        hello_text(*final(line)) == if ok {
            hello_text(*old(line)).push(c)
        } else {
            hello_text(*old(line))
        },
{
    line.push(c).is_ok()
}

/// A greeting: `prefix`, a number and the end of the line.
pub fn hello_line(prefix: &str, n: u32) -> (r: heapless::String<48>)
    requires
        is_ascii_chars(prefix@),
        prefix@.len() <= 36,
    ensures
        hello_text(r) == prefix@ + dec(n) + "\r\n"@,
{
    let mut line = hello_new();
    proof {
        one_byte_each(prefix@);
        one_byte_each(Seq::<char>::empty());
        numerals_are_short(n);
        numeral_is_ascii(n as nat, 10);
        reveal_strlit("\r\n");
        one_byte_each("\r\n"@);
    }
    let ok: bool = hello_push_str(&mut line, prefix);
    assert(hello_text(line) =~= prefix@);
    let d = digits(n, 10);
    let mut i: usize = 0;
    assert(prefix@ + d@.subrange(0, 0) =~= prefix@);
    while i < d.len()
        invariant
            i <= d@.len(),
            d@ == dec(n),
            d@.len() <= 10,
            is_ascii_chars(prefix@),
            is_ascii_chars(d@),
            prefix@.len() <= 36,
            hello_text(line) == prefix@ + d@.subrange(0, i as int),
        decreases d.len() - i,
    {
        let c: char = d[i];
        proof {
            let sofar = prefix@ + d@.subrange(0, i as int);
            assert(is_ascii_chars(sofar));
            one_byte_each(sofar);
            assert(is_ascii_chars(seq![c]));
            one_byte_each(seq![c]);
        }
        let pushed: bool = hello_push(&mut line, c);
        i = i + 1;
        assert(hello_text(line) =~= prefix@ + d@.subrange(0, i as int));
    }
    assert(d@.subrange(0, i as int) =~= d@);
    proof {
        let sofar = prefix@ + d@;
        assert(is_ascii_chars(sofar));
        one_byte_each(sofar);
    }
    let ended: bool = hello_push_str(&mut line, "\r\n");
    assert(hello_text(line) =~= prefix@ + dec(n) + "\r\n"@);
    line
}

/// The received line after the byte `c`: the end of a line, or a line that is full, starts a
/// new one, which then lacks the byte; any other byte is appended, as far as it fits.
pub open spec fn received(text: Seq<char>, c: u8) -> Seq<char> {
    if c == 13 || c == 10 || utf8_len(text) >= LINE_BYTES {
        Seq::empty()
    } else if piece_fits(text, seq![c as char]) {
        text.push(c as char)
    } else {
        text
    }
}

/// The received line after some bytes.
pub open spec fn received_all(text: Seq<char>, bytes: Seq<u8>) -> Seq<char>
    decreases bytes.len(),
{
    if bytes.len() == 0 {
        text
    } else {
        received(received_all(text, bytes.drop_last()), bytes.last())
    }
}

/// Takes a byte into the received line.
pub fn feed(line: &mut heapless::String<21>, c: u8)
    ensures
        line_text(*final(line)) == received(line_text(*old(line)), c),
{
    if c == 13 || c == 10 || line_len(line) >= LINE_BYTES {
        line_clear(line);
    } else {
        let ok: bool = line_push(line, c as char);
    }
}

/// Takes bytes into the received line.
pub fn feed_all(line: &mut heapless::String<21>, bytes: &[u8])
    ensures
        line_text(*final(line)) == received_all(line_text(*old(line)), bytes@),
{
    let ghost before = line_text(*line);
    let mut i: usize = 0;
    assert(bytes@.subrange(0, 0) =~= Seq::empty());
    while i < bytes.len()
        invariant
            i <= bytes@.len(),
            line_text(*line) == received_all(before, bytes@.subrange(0, i as int)),
        decreases bytes.len() - i,
    {
        feed(line, bytes[i]);
        i = i + 1;
        assert(bytes@.subrange(0, i as int).drop_last() =~= bytes@.subrange(0, i - 1));
    }
    assert(bytes@.subrange(0, i as int) =~= bytes@);
}

/// The received line never holds more than fits the display, whatever comes in.
pub proof fn received_lines_fit(text: Seq<char>, c: u8)
    requires
        utf8_len(text) <= LINE_BYTES,
    ensures
        utf8_len(received(text, c)) <= LINE_BYTES,
{
    one_byte_each(Seq::<char>::empty());
    utf8_len_adds(text, seq![c as char]);
    assert(text.push(c as char) =~= text + seq![c as char]);
}

/// A target that echoes what it receives and greets once a second: which board it is, the
/// greetings it sent, the bytes it received, the line it received last.
pub struct EchoTarget {
    pub board: EchoBoard,
    pub tx_n: u32,
    pub rx_total: u32,
    pub last_line: heapless::String<21>,
}

/// The boards that echo.
#[derive(Clone, Copy, PartialEq, Eq, Structural, Debug)]
pub enum EchoBoard {
    Pico,
    F446,
}

impl EchoBoard {
    /// The first line of the board's display.
    pub open spec fn name(self) -> &'static str {
        match self {
            EchoBoard::Pico => "pico layer2",
            EchoBoard::F446 => "f446 layer2",
        }
    }

    /// What the board's greeting starts with.
    pub open spec fn greeting(self) -> &'static str {
        match self {
            EchoBoard::Pico => "hello from pico #",
            EchoBoard::F446 => "hello from f446 #",
        }
    }

    /// The first line of the board's display.
    pub fn title(self) -> (r: &'static str)
        ensures
            r@ == self.name()@,
    {
        match self {
            EchoBoard::Pico => "pico layer2",
            EchoBoard::F446 => "f446 layer2",
        }
    }
}

/// How long an echoing target waits for bytes before it greets, in milliseconds.
pub const GREET_MS: u64 = 1000;

impl EchoTarget {
    pub fn new(board: EchoBoard) -> (r: Self)
        ensures
            r.board == board,
            r.tx_n == 0,
            r.rx_total == 0,
            line_text(r.last_line) == Seq::<char>::empty(),
    {
        EchoTarget { board, tx_n: 0, rx_total: 0, last_line: line_new() }
    }

    /// Takes bytes that came in, which the board echoes.
    pub fn on_data(&mut self, bytes: &[u8])
        ensures
            final(self).board == old(self).board,
            final(self).tx_n == old(self).tx_n,
            final(self).rx_total == (old(self).rx_total + bytes@.len()) % 0x1_0000_0000,
            line_text(final(self).last_line) == received_all(
                line_text(old(self).last_line),
                bytes@,
            ),
    {
        let more: u32 = (bytes.len() as u64 % 0x1_0000_0000) as u32;
        self.rx_total = self.rx_total.wrapping_add(more);
        feed_all(&mut self.last_line, bytes);
    }

    /// Gives the next greeting, and counts it.
    pub fn greet(&mut self) -> (r: heapless::String<48>)
        ensures
            hello_text(r) == old(self).board.greeting()@ + dec(old(self).tx_n) + "\r\n"@,
            final(self).tx_n == (old(self).tx_n + 1) % 0x1_0000_0000,
            final(self).board == old(self).board,
            final(self).rx_total == old(self).rx_total,
            final(self).last_line == old(self).last_line,
    {
        proof {
            reveal_strlit("hello from pico #");
            reveal_strlit("hello from f446 #");
        }
        let prefix: &'static str = match self.board {
            EchoBoard::Pico => "hello from pico #",
            EchoBoard::F446 => "hello from f446 #",
        };
        let line = hello_line(prefix, self.tx_n);
        self.tx_n = self.tx_n.wrapping_add(1);
        line
    }

    /// The last line of the board's display: what it sent and received.
    pub fn counts(&self) -> (r: heapless::String<21>)
        ensures
            line_text(r) == written(seq!["tx"@, dec(self.tx_n), " rx"@, dec(self.rx_total)]),
    {
        let mut line = line_new();
        let ghost pieces = seq!["tx"@, dec(self.tx_n), " rx"@, dec(self.rx_total)];
        proof {
            reveal_with_fuel(writing, 5);
        }
        let ok: bool = line_push_str(&mut line, "tx") && line_push_dec(&mut line, self.tx_n)
            && line_push_str(&mut line, " rx") && line_push_dec(&mut line, self.rx_total);
        assert(line_text(line) =~= written(pieces));
        line
    }
}

/// A target that shows what it receives: the bytes it received and the last line.
pub struct MonitorTarget {
    pub line: heapless::String<21>,
    pub total: u32,
}

impl MonitorTarget {
    pub fn new() -> (r: Self)
        ensures
            line_text(r.line) == Seq::<char>::empty(),
            r.total == 0,
    {
        MonitorTarget { line: line_new(), total: 0 }
    }

    /// Takes a byte that came in; gives the last line of the board's display.
    pub fn on_byte(&mut self, c: u8) -> (r: heapless::String<21>)
        ensures
            final(self).total == (old(self).total + 1) % 0x1_0000_0000,
            line_text(final(self).line) == received(line_text(old(self).line), c),
            line_text(r) == written(seq!["rx bytes: "@, dec(final(self).total)]),
    {
        self.total = self.total.wrapping_add(1);
        feed(&mut self.line, c);
        let mut line = line_new();
        let ghost pieces = seq!["rx bytes: "@, dec(self.total)];
        proof {
            reveal_with_fuel(writing, 3);
        }
        let ok: bool = line_push_str(&mut line, "rx bytes: ") && line_push_dec(
            &mut line,
            self.total,
        );
        assert(line_text(line) =~= written(pieces));
        line
    }
}

/// How often a greeting target greets, in milliseconds.
pub const HELLO_MS: u64 = 500;

/// The greeting of a target that only greets, and the last line of its display.
pub fn hello_from_target(n: u32) -> (r: (heapless::String<48>, heapless::String<21>))
    ensures
        hello_text(r.0) == "hello from target #"@ + dec(n) + "\r\n"@,
        line_text(r.1) == written(seq!["sent #"@, dec(n)]),
{
    proof {
        reveal_strlit("hello from target #");
        reveal_with_fuel(writing, 3);
    }
    let hello = hello_line("hello from target #", n);
    let mut line = line_new();
    let ghost pieces = seq!["sent #"@, dec(n)];
    let ok: bool = line_push_str(&mut line, "sent #") && line_push_dec(&mut line, n);
    assert(line_text(line) =~= written(pieces));
    (hello, line)
}

/// Bytes after which an echoing target under load blinks.
pub const BLINK_BYTES: u32 = 4096;

/// Counts bytes that were echoed under load: the count after them, and whether the lamp
/// changes. The count starts over whenever it does.
pub fn echoed(since_blink: u32, n: u32) -> (r: (u32, bool))
    requires
        since_blink + n <= u32::MAX,
    ensures
        r.1 == (since_blink + n >= BLINK_BYTES),
        r.0 == if r.1 {
            0
        } else {
            since_blink + n
        },
{
    let sum: u32 = since_blink + n;
    if sum >= BLINK_BYTES {
        (0, true)
    } else {
        (sum, false)
    }
}

/// Microseconds between two steps of the pin test.
pub const PIN_TEST_US: u64 = 250;

/// Which pins change in a step of the pin test.
#[derive(Clone, Copy, PartialEq, Eq, Structural, Debug)]
pub struct PinToggles {
    pub swclk: bool,
    pub swdio: bool,
    pub led: bool,
}

/// Step `n` of the pin test: SWCLK changes every time, SWDIO every second and the lamp every
/// 4000th; the number of the next step comes with it.
pub fn pin_test_step(n: u32) -> (r: (PinToggles, u32))
    ensures
        r.0.swclk,
        r.0.swdio == (n % 2 == 0),
        r.0.led == (n % 4000 == 0),
        r.1 == (n + 1) % 0x1_0000_0000,
{
    (PinToggles { swclk: true, swdio: n % 2 == 0, led: n % 4000 == 0 }, n.wrapping_add(1))
}

/// A received line grows by each character, until the end of a line or a full line of 21
/// bytes makes it start over, without the byte that came then.
pub proof fn received_lines_grow_until_they_end(text: Seq<char>, c: u8)
    ensures
        c == 13 || c == 10 ==> received(text, c) == Seq::<char>::empty(),
        utf8_len(text) >= 21 ==> received(text, c) == Seq::<char>::empty(),
        c < 128 && c != 13 && c != 10 && utf8_len(text) <= 20 ==> received(text, c) == text.push(
            c as char,
        ),
        c >= 128 && utf8_len(text) <= 20 ==> received(text, c) == text.push(c as char) || received(
            text,
            c,
        ) == text,
{
    let one = seq![c as char];
    if c < 128 {
        assert(is_ascii_chars(one));
        one_byte_each(one);
    }
}

/// Bytes are taken in one by one, in order.
pub proof fn bytes_are_received_in_order(text: Seq<char>, bytes: Seq<u8>, c: u8)
    ensures
        received_all(text, Seq::empty()) == text,
        received_all(text, bytes.push(c)) == received(received_all(text, bytes), c),
{
    assert(bytes.push(c).drop_last() =~= bytes);
}

/// The lamp of a target under load changes with every 4096 bytes, and the count starts over.
pub proof fn lamps_change_every_4096_bytes(since: u32, n: u32, r: (u32, bool))
    requires
        since + n <= u32::MAX,
        call_ensures(echoed, (since, n), r),
    ensures
        r.1 <==> since + n >= 4096,
        r.1 ==> r.0 == 0,
        !r.1 ==> r.0 == since + n,
{
}

/// In the pin test SWCLK changes with every step, SWDIO half as often and the lamp every
/// second, 4000 steps of 250 microseconds.
pub proof fn pins_change_at_their_rates(n: u32, r: (PinToggles, u32))
    requires
        call_ensures(pin_test_step, (n,), r),
    ensures
        r.0.swclk,
        r.0.swdio <==> n % 2 == 0,
        r.0.led <==> n % 4000 == 0,
        n < 0xFFFF_FFFF ==> r.1 == n + 1,
        n == 0xFFFF_FFFF ==> r.1 == 0,
        4000 * PIN_TEST_US == 1_000_000,
{
}

} // verus!
