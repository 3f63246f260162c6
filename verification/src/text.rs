//! Numbers as text, and the short lines of text that the display and the serial port get.
//!
//! Lines are `heapless` strings: they hold a fixed number of bytes, and what does not fit is
//! left out whole.
use vstd::prelude::*;
use vstd::utf8::{encode_utf8, is_ascii_chars};

verus! {

/// A digit of a numeral.
pub open spec fn digit(d: int) -> char {
    if d == 0 {
        '0'
    } else if d == 1 {
        '1'
    } else if d == 2 {
        '2'
    } else if d == 3 {
        '3'
    } else if d == 4 {
        '4'
    } else if d == 5 {
        '5'
    } else if d == 6 {
        '6'
    } else if d == 7 {
        '7'
    } else if d == 8 {
        '8'
    } else if d == 9 {
        '9'
    } else if d == 10 {
        'A'
    } else if d == 11 {
        'B'
    } else if d == 12 {
        'C'
    } else if d == 13 {
        'D'
    } else if d == 14 {
        'E'
    } else {
        'F'
    }
}

/// The numeral of `n` to a base of 2 to 16, without leading zeros.
pub open spec fn numeral(n: nat, base: nat) -> Seq<char>
    decreases n,
{
    if base < 2 || n < base {
        seq![digit(n as int)]
    } else {
        proof {
            assert(n / base < n) by (nonlinear_arith)
                requires
                    n >= base,
                    base >= 2,
            ;
        }
        numeral(n / base, base).push(digit((n % base) as int))
    }
}

/// A numeral with zeros in front, so that it has at least `width` digits.
pub open spec fn padded(s: Seq<char>, width: nat) -> Seq<char> {
    if s.len() >= width {
        s
    } else {
        Seq::new((width - s.len()) as nat, |i: int| '0') + s
    }
}

/// The value of a digit.
pub open spec fn digit_value(c: char) -> int {
    if '0' <= c <= '9' {
        c as int - '0' as int
    } else {
        c as int - 'A' as int + 10
    }
}

/// The value of a numeral.
pub open spec fn numeral_value(s: Seq<char>, base: nat) -> int
    decreases s.len(),
{
    if s.len() == 0 {
        0
    } else {
        base * numeral_value(s.drop_last(), base) + digit_value(s.last())
    }
}

/// A numeral stands for the number it was made of.
pub proof fn numerals_keep_their_value(n: nat, base: nat)
    requires
        2 <= base <= 16,
    ensures
        numeral_value(numeral(n, base), base) == n,
        numeral(n, base).len() >= 1,
    decreases n,
{
    if n < base {
        let s = seq![digit(n as int)];
        assert(s.drop_last() =~= Seq::empty());
        assert(numeral_value(s.drop_last(), base) == 0);
        assert(base * 0 == 0) by (nonlinear_arith);
    } else {
        assert(n / base < n) by (nonlinear_arith)
            requires
                n >= base,
                base >= 2,
        ;
        numerals_keep_their_value(n / base, base);
        let s = numeral(n, base);
        assert(s.drop_last() =~= numeral(n / base, base));
        vstd::arithmetic::div_mod::lemma_fundamental_div_mod(n as int, base as int);
    }
}

proof fn numeral_is_short(n: nat, base: nat, bound: nat, len: nat)
    requires
        2 <= base <= 16,
        n < bound,
        bound == vstd::arithmetic::power::pow(base as int, len),
        len >= 1,
    ensures
        numeral(n, base).len() <= len,
    decreases len,
{
    vstd::arithmetic::power::lemma_pow1(base as int);
    if n >= base {
        let m = vstd::arithmetic::power::pow(base as int, (len - 1) as nat);
        reveal_with_fuel(vstd::arithmetic::power::pow, 2);
        assert(bound == base * m);
        if len == 1 {
        } else {
            assert(n / base < m && m > 0) by (nonlinear_arith)
                requires
                    n < base * m,
                    base >= 2,
            ;
            numeral_is_short(n / base, base, m as nat, (len - 1) as nat);
        }
    }
}

/// A 32-bit number has at most ten decimal digits and at most eight hexadecimal ones.
pub proof fn numerals_are_short(n: u32)
    ensures
        numeral(n as nat, 10).len() <= 10,
        numeral(n as nat, 16).len() <= 8,
{
    reveal_with_fuel(vstd::arithmetic::power::pow, 11);
    assert(vstd::arithmetic::power::pow(10, 10) == 10_000_000_000);
    assert(vstd::arithmetic::power::pow(16, 8) == 0x1_0000_0000);
    numeral_is_short(n as nat, 10, 10_000_000_000, 10);
    numeral_is_short(n as nat, 16, 0x1_0000_0000, 8);
}

fn digit_char(d: u32) -> (r: char)
    requires
        d < 16,
    ensures
        r == digit(d as int),
{
    match d {
        0 => '0',
        1 => '1',
        2 => '2',
        3 => '3',
        4 => '4',
        5 => '5',
        6 => '6',
        7 => '7',
        8 => '8',
        9 => '9',
        10 => 'A',
        11 => 'B',
        12 => 'C',
        13 => 'D',
        14 => 'E',
        _ => 'F',
    }
}

/// The digits of a number.
pub fn digits(v: u32, base: u32) -> (r: Vec<char>)
    requires
        2 <= base <= 16,
    ensures
        r@ == numeral(v as nat, base as nat),
    decreases v,
{
    if v < base {
        let r: Vec<char> = vec![digit_char(v)];
        assert(r@ =~= numeral(v as nat, base as nat));
        r
    } else {
        proof {
            assert((v as int / base as int) < v as int) by (nonlinear_arith)
                requires
                    v >= base,
                    base >= 2,
            ;
        }
        let mut r: Vec<char> = digits(v / base, base);
        r.push(digit_char(v % base));
        r
    }
}

/// Bytes that a text takes in UTF-8.
pub open spec fn utf8_len(s: Seq<char>) -> nat {
    encode_utf8(s).len()
}

/// A text that is all ASCII takes one byte for each character.
pub proof fn one_byte_each(s: Seq<char>)
    requires
        is_ascii_chars(s),
    ensures
        utf8_len(s) == s.len(),
{
    vstd::utf8::is_ascii_chars_encode_utf8(s);
}

/// Texts take their bytes one after the other.
pub proof fn utf8_len_adds(a: Seq<char>, b: Seq<char>)
    ensures
        utf8_len(a + b) == utf8_len(a) + utf8_len(b),
    decreases a.len(),
{
    if a.len() == 0 {
        assert(a + b =~= b);
    } else {
        assert((a + b).drop_first() =~= a.drop_first() + b);
        utf8_len_adds(a.drop_first(), b);
    }
}

/// A numeral is all ASCII.
pub proof fn numeral_is_ascii(n: nat, base: nat)
    ensures
        is_ascii_chars(numeral(n, base)),
    decreases n,
{
    if base >= 2 && n >= base {
        assert(n / base < n) by (nonlinear_arith)
            requires
                n >= base,
                base >= 2,
        ;
        numeral_is_ascii(n / base, base);
    }
}

/// A string of `heapless` with room for `N` bytes.
#[verifier::external_type_specification]
#[verifier::external_body]
pub struct ExHeaplessString<const N: usize>(heapless::String<N>);

/// Bytes that a line of the display holds.
pub const LINE_BYTES: usize = 21;

/// The text in a line of the display.
pub uninterp spec fn line_text(line: heapless::String<21>) -> Seq<char>;

/// Calls `heapless::String::new`. Trusted: the string has no text.
#[verifier::external_body]
pub(crate) fn line_new() -> (r: heapless::String<21>)
    ensures
        line_text(r) == Seq::<char>::empty(),
{
    heapless::String::new()
}

/// Calls `heapless::String::push_str`. Trusted: the text is appended where its bytes fit
/// beside those that are there, and otherwise nothing changes; the result says which.
#[verifier::external_body]
pub(crate) fn line_push_str(line: &mut heapless::String<21>, s: &str) -> (ok: bool)
    ensures
        ok == (utf8_len(line_text(*old(line))) + utf8_len(s@) <= LINE_BYTES),
        line_text(*final(line)) == if ok {
            line_text(*old(line)) + s@
        } else {
            line_text(*old(line))
        },
{
    line.push_str(s).is_ok()
}

/// Calls `heapless::String::push`. Trusted: the character is appended where its bytes fit
/// beside those that are there, and otherwise nothing changes; the result says which.
#[verifier::external_body]
pub(crate) fn line_push(line: &mut heapless::String<21>, c: char) -> (ok: bool)
    ensures
        ok == (utf8_len(line_text(*old(line))) + utf8_len(seq![c]) <= LINE_BYTES),
        line_text(*final(line)) == if ok {
            line_text(*old(line)).push(c)
        } else {
            line_text(*old(line))
        },
{
    line.push(c).is_ok()
}

/// Calls `len` of the `str` that a `heapless::String` dereferences to. Trusted: it is the
/// number of bytes of the text.
#[verifier::external_body]
pub(crate) fn line_len(line: &heapless::String<21>) -> (r: usize)
    ensures
        r == utf8_len(line_text(*line)),
{
    line.len()
}

/// Calls `heapless::String::clear`. Trusted: no text is left.
#[verifier::external_body]
pub(crate) fn line_clear(line: &mut heapless::String<21>)
    ensures
        line_text(*final(line)) == Seq::<char>::empty(),
{
    line.clear()
}

/// Calls `heapless::String::as_str`. Trusted: it is the text.
#[verifier::external_body]
pub(crate) fn line_as_str(line: &heapless::String<21>) -> (r: &str)
    ensures
        r@ == line_text(*line),
{
    line.as_str()
}

/// What a line holds after the pieces from `i` on were written to it one after the other,
/// up to the first that does not fit.
pub open spec fn writing(text: Seq<char>, pieces: Seq<Seq<char>>, i: int) -> Seq<char>
    decreases pieces.len() - i,
{
    if i < 0 || i >= pieces.len() || utf8_len(text) + utf8_len(pieces[i]) > LINE_BYTES {
        text
    } else {
        writing(text + pieces[i], pieces, i + 1)
    }
}

/// What a new line holds after some pieces were written to it.
pub open spec fn written(pieces: Seq<Seq<char>>) -> Seq<char> {
    writing(Seq::empty(), pieces, 0)
}

/// One piece written: whether it fits, and what the line then holds.
pub open spec fn piece_fits(text: Seq<char>, piece: Seq<char>) -> bool {
    utf8_len(text) + utf8_len(piece) <= LINE_BYTES
}

/// The decimal numeral of a number.
pub open spec fn dec(v: u32) -> Seq<char> {
    numeral(v as nat, 10)
}

/// The hexadecimal numeral of a number, with at least `width` digits.
pub open spec fn hex(v: u32, width: nat) -> Seq<char> {
    padded(numeral(v as nat, 16), width)
}

/// Writes characters that are all ASCII to a line, or none where they do not all fit.
fn line_push_chars(line: &mut heapless::String<21>, s: &Vec<char>) -> (ok: bool)
    requires
        is_ascii_chars(s@),
    ensures
        ok == piece_fits(line_text(*old(line)), s@),
        line_text(*final(line)) == if ok {
            line_text(*old(line)) + s@
        } else {
            line_text(*old(line))
        },
{
    proof {
        one_byte_each(s@);
    }
    let used: usize = line_len(line);
    if used > LINE_BYTES || s.len() > LINE_BYTES - used {
        return false;
    }
    let ghost before = line_text(*line);
    let mut i: usize = 0;
    assert(before + s@.subrange(0, 0) =~= before);
    while i < s.len()
        invariant
            i <= s@.len(),
            is_ascii_chars(s@),
            utf8_len(before) + s@.len() <= LINE_BYTES,
            line_text(*line) == before + s@.subrange(0, i as int),
        decreases s.len() - i,
    {
        let c: char = s[i];
        proof {
            let sofar = s@.subrange(0, i as int);
            utf8_len_adds(before, sofar);
            assert(is_ascii_chars(sofar));
            one_byte_each(sofar);
            assert(is_ascii_chars(seq![c]));
            one_byte_each(seq![c]);
        }
        let pushed: bool = line_push(line, c);
        i = i + 1;
        assert(line_text(*line) =~= before + s@.subrange(0, i as int));
    }
    assert(s@.subrange(0, i as int) =~= s@);
    true
}

/// Writes a number in decimal, or nothing where it does not fit.
pub(crate) fn line_push_dec(line: &mut heapless::String<21>, v: u32) -> (ok: bool)
    ensures
        ok == piece_fits(line_text(*old(line)), dec(v)),
        line_text(*final(line)) == if ok {
            line_text(*old(line)) + dec(v)
        } else {
            line_text(*old(line))
        },
{
    proof {
        numeral_is_ascii(v as nat, 10);
    }
    line_push_chars(line, &digits(v, 10))
}

/// Writes a number in hexadecimal with at least `width` digits, or nothing where it does not
/// fit.
pub(crate) fn line_push_hex(line: &mut heapless::String<21>, v: u32, width: usize) -> (ok: bool)
    ensures
        ok == piece_fits(line_text(*old(line)), hex(v, width as nat)),
        line_text(*final(line)) == if ok {
            line_text(*old(line)) + hex(v, width as nat)
        } else {
            line_text(*old(line))
        },
{
    let d = digits(v, 16);
    let mut s: Vec<char> = Vec::new();
    let zeros: usize = if d.len() < width {
        width - d.len()
    } else {
        0
    };
    let mut i: usize = 0;
    while i < zeros
        invariant
            i <= zeros,
            s@ == Seq::new(i as nat, |k: int| '0'),
        decreases zeros - i,
    {
        s.push('0');
        i = i + 1;
        assert(s@ =~= Seq::new(i as nat, |k: int| '0'));
    }
    let mut k: usize = 0;
    while k < d.len()
        invariant
            k <= d@.len(),
            s@ == Seq::new(zeros as nat, |k: int| '0') + d@.subrange(0, k as int),
        decreases d.len() - k,
    {
        s.push(d[k]);
        k = k + 1;
        assert(s@ =~= Seq::new(zeros as nat, |k: int| '0') + d@.subrange(0, k as int));
    }
    proof {
        numeral_is_ascii(v as nat, 16);
        assert(s@ =~= hex(v, width as nat));
        assert(is_ascii_chars(s@));
    }
    line_push_chars(line, &s)
}

/// Digits stand for their values: 0 to 9, then A to F.
pub proof fn digits_stand_for_their_values(d: int)
    requires
        0 <= d < 16,
    ensures
        d <= 9 ==> digit(d) as int == '0' as int + d,
        d >= 10 ==> digit(d) as int == 'A' as int + d - 10,
        digit_value(digit(d)) == d,
{
}

/// A decimal numeral reads as the number it was made of, and so does a hexadecimal one, with
/// the zeros in front that bring it to its width.
pub proof fn numbers_read_back(v: u32, width: nat)
    ensures
        numeral_value(dec(v), 10) == v,
        numeral_value(hex(v, width), 16) == v,
        hex(v, width).len() >= width,
        numeral(v as nat, 16).len() <= width ==> hex(v, width).len() == width,
{
    numerals_keep_their_value(v as nat, 10);
    numerals_keep_their_value(v as nat, 16);
    let s = numeral(v as nat, 16);
    if s.len() < width {
        zeros_do_not_count((width - s.len()) as nat, s);
    }
}

proof fn zeros_do_not_count(n: nat, s: Seq<char>)
    ensures
        numeral_value(Seq::new(n, |i: int| '0') + s, 16) == numeral_value(s, 16),
    decreases s.len(), n,
{
    let z = Seq::new(n, |i: int| '0');
    let all = z + s;
    if s.len() > 0 {
        assert(all.drop_last() =~= z + s.drop_last());
        zeros_do_not_count(n, s.drop_last());
    } else if n > 0 {
        assert(all.drop_last() =~= Seq::new((n - 1) as nat, |i: int| '0') + s);
        zeros_do_not_count((n - 1) as nat, s);
        assert(all.last() == '0');
    } else {
        assert(all =~= s);
    }
}

/// Some pieces, one after the other.
pub open spec fn joined(pieces: Seq<Seq<char>>) -> Seq<char>
    decreases pieces.len(),
{
    if pieces.len() == 0 {
        Seq::empty()
    } else {
        joined(pieces.drop_last()) + pieces.last()
    }
}

proof fn joined_from(pieces: Seq<Seq<char>>, i: int)
    requires
        0 <= i < pieces.len(),
    ensures
        joined(pieces.take(i + 1)) == joined(pieces.take(i)) + pieces[i],
{
    assert(pieces.take(i + 1).drop_last() =~= pieces.take(i));
}

proof fn front_is_no_longer(pieces: Seq<Seq<char>>, i: int)
    requires
        0 <= i <= pieces.len(),
    ensures
        utf8_len(joined(pieces.take(i))) <= utf8_len(joined(pieces)),
    decreases pieces.len() - i,
{
    if i < pieces.len() {
        joined_from(pieces, i);
        utf8_len_adds(joined(pieces.take(i)), pieces[i]);
        front_is_no_longer(pieces, i + 1);
    } else {
        assert(pieces.take(i) =~= pieces);
    }
}

proof fn writing_goes_on(pieces: Seq<Seq<char>>, i: int)
    requires
        0 <= i <= pieces.len(),
        utf8_len(joined(pieces)) <= 21,
    ensures
        writing(joined(pieces.take(i)), pieces, i) == joined(pieces),
    decreases pieces.len() - i,
{
    if i < pieces.len() {
        joined_from(pieces, i);
        utf8_len_adds(joined(pieces.take(i)), pieces[i]);
        front_is_no_longer(pieces, i + 1);
        writing_goes_on(pieces, i + 1);
    } else {
        assert(pieces.take(i) =~= pieces);
    }
}

/// Pieces that fit the 21 bytes of a line are all written, one after the other.
pub proof fn lines_that_fit_are_whole(pieces: Seq<Seq<char>>)
    requires
        utf8_len(joined(pieces)) <= 21,
    ensures
        written(pieces) == joined(pieces),
{
    assert(pieces.take(0) =~= Seq::empty());
    writing_goes_on(pieces, 0);
}

/// A line never holds more than its 21 bytes, and its first piece is left out only where it
/// does not fit by itself.
pub proof fn lines_hold_twenty_one_bytes(text: Seq<char>, pieces: Seq<Seq<char>>, i: int)
    requires
        utf8_len(text) <= 21,
    ensures
        utf8_len(writing(text, pieces, i)) <= 21,
        0 <= i < pieces.len() && utf8_len(text) + utf8_len(pieces[i]) > 21 ==> writing(
            text,
            pieces,
            i,
        ) == text,
    decreases pieces.len() - i,
{
    if 0 <= i < pieces.len() && utf8_len(text) + utf8_len(pieces[i]) <= 21 {
        utf8_len_adds(text, pieces[i]);
        lines_hold_twenty_one_bytes(text + pieces[i], pieces, i + 1);
    }
}

/// ASCII pieces fit a line where they have no more than 21 characters in all.
pub proof fn ascii_lines_are_whole(pieces: Seq<Seq<char>>)
    requires
        forall|i: int| 0 <= i < pieces.len() ==> is_ascii_chars(#[trigger] pieces[i]),
        joined(pieces).len() <= 21,
    ensures
        written(pieces) == joined(pieces),
{
    joined_is_ascii(pieces);
    one_byte_each(joined(pieces));
    lines_that_fit_are_whole(pieces);
}

proof fn joined_is_ascii(pieces: Seq<Seq<char>>)
    requires
        forall|i: int| 0 <= i < pieces.len() ==> is_ascii_chars(#[trigger] pieces[i]),
    ensures
        is_ascii_chars(joined(pieces)),
    decreases pieces.len(),
{
    if pieces.len() > 0 {
        assert forall|i: int| 0 <= i < pieces.drop_last().len() implies is_ascii_chars(
            #[trigger] pieces.drop_last()[i],
        ) by {
            assert(pieces.drop_last()[i] == pieces[i]);
        }
        joined_is_ascii(pieces.drop_last());
        assert(is_ascii_chars(pieces[pieces.len() - 1]));
    }
}

} // verus!
