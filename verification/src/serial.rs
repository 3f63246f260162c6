//! The USB serial number: the chip's unique identifier as sixteen hexadecimal digits.
use vstd::prelude::*;
use vstd::utf8::is_ascii_chars;

use crate::text::{digit, digit_value, utf8_len};

verus! {

/// Bytes that a serial number has room for.
pub const SERIAL_BYTES: usize = 16;

/// Eight bytes as hexadecimal digits.
pub type SerialString = heapless::String<16>;

/// The text of a serial number.
pub uninterp spec fn serial_text(s: heapless::String<16>) -> Seq<char>;

/// Calls `heapless::String::new`. Trusted: the string has no text.
#[verifier::external_body]
fn serial_new() -> (r: heapless::String<16>)
    ensures
        serial_text(r) == Seq::<char>::empty(),
{
    heapless::String::new()
}

/// Calls `heapless::String::push`. Trusted: the character is appended where its bytes fit
/// beside those that are there, and otherwise nothing changes; the result says which.
#[verifier::external_body]
fn serial_push(s: &mut heapless::String<16>, c: char) -> (ok: bool)
    ensures
        ok == (utf8_len(serial_text(*old(s))) + utf8_len(seq![c]) <= SERIAL_BYTES),
        serial_text(*final(s)) == if ok {
            serial_text(*old(s)).push(c)
        } else {
            serial_text(*old(s))
        },
{
    s.push(c).is_ok()
}

/// Two hexadecimal digits for each byte.
pub open spec fn hex_of(bytes: Seq<u8>) -> Seq<char> {
    Seq::new(
        2 * bytes.len(),
        |i: int|
            if i % 2 == 0 {
                digit((bytes[i / 2] / 16) as int)
            } else {
                digit((bytes[i / 2] % 16) as int)
            },
    )
}

/// The bytes that have room in a serial number.
pub open spec fn first_eight(bytes: Seq<u8>) -> Seq<u8> {
    if bytes.len() <= 8 {
        bytes
    } else {
        bytes.subrange(0, 8)
    }
}

/// The eight bytes of an identifier, most significant first.
pub open spec fn be_bytes(id: u64) -> Seq<u8> {
    seq![
        (id / 0x100_0000_0000_0000) as u8,
        ((id / 0x1_0000_0000_0000) % 0x100) as u8,
        ((id / 0x100_0000_0000) % 0x100) as u8,
        ((id / 0x1_0000_0000) % 0x100) as u8,
        ((id / 0x100_0000) % 0x100) as u8,
        ((id / 0x1_0000) % 0x100) as u8,
        ((id / 0x100) % 0x100) as u8,
        (id % 0x100) as u8,
    ]
}

fn hex_char(d: u8) -> (r: char)
    requires
        d < 16,
    ensures
        r == digit(d as int),
{
    match d {
        0 => '0',
        1 => '1',
        2 => '2',
        3 => '3',
        4 => '4',
        5 => '5',
        6 => '6',
        7 => '7',
        8 => '8',
        9 => '9',
        10 => 'A',
        11 => 'B',
        12 => 'C',
        13 => 'D',
        14 => 'E',
        _ => 'F',
    }
}

/// Writes bytes as hexadecimal digits; a string has room for eight.
pub fn to_hex(bytes: &[u8]) -> (r: SerialString)
    ensures
        serial_text(r) == hex_of(first_eight(bytes@)),
{
    let mut s = serial_new();
    let mut i: usize = 0;
    assert(serial_text(s) =~= hex_of(first_eight(bytes@.subrange(0, 0))));
    while i < bytes.len()
        invariant
            i <= bytes@.len(),
            serial_text(s) == hex_of(first_eight(bytes@.subrange(0, i as int))),
        decreases bytes.len() - i,
    {
        let b: u8 = bytes[i];
        let ghost before = serial_text(s);
        proof {
            assert(is_ascii_chars(before));
            vstd::utf8::is_ascii_chars_encode_utf8(before);
            let one = seq![digit((b / 16) as int)];
            assert(is_ascii_chars(one));
            vstd::utf8::is_ascii_chars_encode_utf8(one);
            let two = seq![digit((b % 16) as int)];
            assert(is_ascii_chars(two));
            vstd::utf8::is_ascii_chars_encode_utf8(two);
            assert(is_ascii_chars(before.push(one[0])));
            vstd::utf8::is_ascii_chars_encode_utf8(before.push(one[0]));
        }
        if serial_push(&mut s, hex_char(b / 16)) {
            let fits: bool = serial_push(&mut s, hex_char(b % 16));
        }
        i = i + 1;
        assert(serial_text(s) =~= hex_of(first_eight(bytes@.subrange(0, i as int))));
    }
    assert(bytes@.subrange(0, i as int) =~= bytes@);
    s
}

/// The serial number for the identifier of the flash; zeros where it could not be read.
pub fn read_serial(uid: Option<[u8; 8]>) -> (r: SerialString)
    ensures
        serial_text(r) == hex_of(
            match uid {
                Some(u) => u@,
                None => Seq::new(8, |i: int| 0u8),
            },
        ),
{
    match uid {
        Some(u) => {
            assert(first_eight(u@) =~= u@);
            to_hex(u.as_slice())
        },
        None => {
            let zeros: [u8; 8] = [0; 8];
            assert(first_eight(zeros@) =~= Seq::new(8, |i: int| 0u8));
            to_hex(zeros.as_slice())
        },
    }
}

/// The serial number for a chip identifier; that of 0 where it could not be read.
pub fn read_serial_of_id(id: Option<u64>) -> (r: SerialString)
    ensures
        serial_text(r) == hex_of(
            be_bytes(
                match id {
                    Some(v) => v,
                    None => 0,
                },
            ),
        ),
{
    let v: u64 = match id {
        Some(v) => v,
        None => 0,
    };
    let bytes: [u8; 8] = [
        (v / 0x100_0000_0000_0000) as u8,
        ((v / 0x1_0000_0000_0000) % 0x100) as u8,
        ((v / 0x100_0000_0000) % 0x100) as u8,
        ((v / 0x1_0000_0000) % 0x100) as u8,
        ((v / 0x100_0000) % 0x100) as u8,
        ((v / 0x1_0000) % 0x100) as u8,
        ((v / 0x100) % 0x100) as u8,
        (v % 0x100) as u8,
    ];
    assert(first_eight(bytes@) =~= be_bytes(v));
    to_hex(bytes.as_slice())
}

/// A serial number has sixteen characters, each a digit or a capital letter A to F.
pub proof fn serials_are_sixteen_hex_digits(uid: Seq<u8>)
    requires
        uid.len() == 8,
    ensures
        hex_of(uid).len() == 16,
        forall|i: int|
            0 <= i < 16 ==> {
                let c = #[trigger] hex_of(uid)[i];
                '0' <= c <= '9' || 'A' <= c <= 'F'
            },
{
}

/// Chips with different identifiers have different serial numbers.
pub proof fn serials_tell_chips_apart(a: Seq<u8>, b: Seq<u8>)
    requires
        a.len() == 8,
        b.len() == 8,
        hex_of(a) == hex_of(b),
    ensures
        a == b,
{
    assert forall|i: int| 0 <= i < 8 implies a[i] == b[i] by {
        let (ha, hb) = (hex_of(a), hex_of(b));
        assert(ha[2 * i] == hb[2 * i] && ha[2 * i + 1] == hb[2 * i + 1]);
        assert((2 * i) / 2 == i && (2 * i + 1) / 2 == i);
        assert(digit_value(ha[2 * i]) == a[i] / 16 && digit_value(ha[2 * i + 1]) == a[i] % 16);
        assert(digit_value(hb[2 * i]) == b[i] / 16 && digit_value(hb[2 * i + 1]) == b[i] % 16);
    }
    assert(a =~= b);
}

/// The number that hexadecimal digits stand for.
pub open spec fn read_hex(s: Seq<char>) -> int
    decreases s.len(),
{
    if s.len() == 0 {
        0
    } else {
        16 * read_hex(s.drop_last()) + if '0' <= s.last() <= '9' {
            s.last() as int - '0' as int
        } else {
            s.last() as int - 'A' as int + 10
        }
    }
}

/// The number that bytes stand for, the first most significant.
pub open spec fn read_bytes(s: Seq<u8>) -> int
    decreases s.len(),
{
    if s.len() == 0 {
        0
    } else {
        256 * read_bytes(s.drop_last()) + s.last()
    }
}

/// Bytes as digits stand for the same number.
pub proof fn digits_stand_for_the_bytes(bytes: Seq<u8>)
    ensures
        read_hex(hex_of(bytes)) == read_bytes(bytes),
    decreases bytes.len(),
{
    let h = hex_of(bytes);
    reveal_with_fuel(read_hex, 3);
    if bytes.len() > 0 {
        let n = bytes.len() as int;
        digits_stand_for_the_bytes(bytes.drop_last());
        assert(h.drop_last().drop_last() =~= hex_of(bytes.drop_last()));
        assert((2 * n - 1) / 2 == n - 1 && (2 * n - 2) / 2 == n - 1);
        let b = bytes.last();
        assert(h.last() == digit((b % 16) as int));
        assert(h.drop_last().last() == digit((b / 16) as int));
    }
}

proof fn byte_by_byte(s: Seq<u8>, i: int, v: int, weight: int)
    requires
        0 <= i < s.len(),
        v >= 0,
        weight > 0,
        read_bytes(s.take(i)) == v / (weight * 256),
        s[i] == (v / weight) % 256,
    ensures
        read_bytes(s.take(i + 1)) == v / weight,
{
    assert(s.take(i + 1).drop_last() =~= s.take(i));
    vstd::arithmetic::div_mod::lemma_div_denominator(v, weight, 256);
}

/// The serial number of a chip is its identifier, in hexadecimal digits.
pub proof fn serials_stand_for_the_identifier(id: u64)
    ensures
        read_hex(hex_of(be_bytes(id))) == id,
        hex_of(be_bytes(id)).len() == 16,
{
    digits_stand_for_the_bytes(be_bytes(id));
    let b = be_bytes(id);
    let v = id as int;
    assert(read_bytes(b.take(0)) == 0);
    assert(v / 0x1_0000_0000_0000_0000 == 0);
    byte_by_byte(b, 0, v, 0x100_0000_0000_0000);
    byte_by_byte(b, 1, v, 0x1_0000_0000_0000);
    byte_by_byte(b, 2, v, 0x100_0000_0000);
    byte_by_byte(b, 3, v, 0x1_0000_0000);
    byte_by_byte(b, 4, v, 0x100_0000);
    byte_by_byte(b, 5, v, 0x1_0000);
    byte_by_byte(b, 6, v, 0x100);
    byte_by_byte(b, 7, v, 1);
    assert(b.take(8) =~= b);
}

/// Without an identifier every digit of the serial number is a zero; with one, it is made of
/// all its bytes in order.
pub proof fn unread_serials_are_zeros(
    uid: Option<[u8; 8]>,
    id: Option<u64>,
    a: SerialString,
    b: SerialString,
)
    requires
        call_ensures(read_serial, (uid,), a),
        call_ensures(read_serial_of_id, (id,), b),
    ensures
        uid is None ==> serial_text(a) == Seq::new(16, |i: int| '0'),
        uid matches Some(u) ==> read_hex(serial_text(a)) == read_bytes(u@),
        id is None ==> serial_text(b) == Seq::new(16, |i: int| '0'),
        id matches Some(v) ==> read_hex(serial_text(b)) == v,
{
    match uid {
        Some(u) => digits_stand_for_the_bytes(u@),
        None => {},
    }
    match id {
        Some(v) => serials_stand_for_the_identifier(v),
        None => {},
    }
}

/// A serial number is made of the first eight bytes, in order, or of all where there are
/// fewer.
pub proof fn serials_take_the_first_eight(bytes: Seq<u8>, i: int)
    ensures
        first_eight(bytes).len() == if bytes.len() < 8 {
            bytes.len()
        } else {
            8
        },
        0 <= i < first_eight(bytes).len() ==> first_eight(bytes)[i] == bytes[i],
{
}

} // verus!
