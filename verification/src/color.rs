//! Colours as they are written in configurations and on tags: a `#` and
//! hexadecimal digits, two for each byte.

use vstd::prelude::*;
use crate::config_option::ToConfig;
use crate::text::to_chars;

verus! {

/// A colour: red, green, blue and opacity.
#[derive(Clone, Copy, PartialEq, Eq, Debug, Structural)]
pub struct Rgba {
    pub r: u8,
    pub g: u8,
    pub b: u8,
    pub a: u8,
}

/// The value of a hexadecimal digit, in either case.
pub open spec fn hex_value(c: char) -> Option<int> {
    if '0' <= c && c <= '9' {
        Some(c as int - '0' as int)
    } else if 'a' <= c && c <= 'f' {
        Some(c as int - 'a' as int + 10)
    } else if 'A' <= c && c <= 'F' {
        Some(c as int - 'A' as int + 10)
    } else {
        None
    }
}

/// The hexadecimal digit of a value below sixteen.
pub open spec fn hex_digit(value: int, upper: bool) -> char {
    if value < 10 {
        ('0' as int + value) as char
    } else if upper {
        ('A' as int + value - 10) as char
    } else {
        ('a' as int + value - 10) as char
    }
}

/// The two hexadecimal digits of a byte.
pub open spec fn hex_byte(byte: int, upper: bool) -> Seq<char> {
    seq![hex_digit(byte / 16, upper), hex_digit(byte % 16, upper)]
}

/// The byte that one or two characters denote in hexadecimal notation: one
/// digit, two digits, or a plus sign and a digit.
pub open spec fn parsed_hex_byte(text: Seq<char>) -> Option<int> {
    if text.len() == 1 {
        hex_value(text[0])
    } else if text.len() == 2 && hex_value(text[1]) is Some {
        if text[0] == '+' {
            hex_value(text[1])
        } else if hex_value(text[0]) is Some {
            Some(16 * hex_value(text[0]).unwrap() + hex_value(text[1]).unwrap())
        } else {
            None
        }
    } else {
        None
    }
}

/// Whether every character is one of ASCII.
pub open spec fn all_ascii(text: Seq<char>) -> bool {
    forall|i: int| 0 <= i < text.len() ==> #[trigger] text[i] <= '\u{7f}'
}

/// The bytes that the pairs of characters of a text denote, the last of one
/// character where their number is odd. Nothing where a pair denotes none.
pub open spec fn parsed_hex_bytes(text: Seq<char>) -> Option<Seq<int>>
    decreases text.len(),
{
    if text.len() == 0 {
        Some(Seq::empty())
    } else if text.len() == 1 {
        match parsed_hex_byte(text) {
            Some(byte) => Some(seq![byte]),
            None => None,
        }
    } else {
        match (parsed_hex_byte(text.take(2)), parsed_hex_bytes(text.skip(2))) {
            (Some(byte), Some(bytes)) => Some(seq![byte] + bytes),
            _ => None,
        }
    }
}

/// The colour that a text denotes: behind its first character, which is not
/// looked at, three or four bytes in hexadecimal notation, of which the
/// fourth is the opacity. Without it the colour is opaque. More bytes are
/// passed over. No colour where the text is not of ASCII, where a pair of
/// digits denotes no byte, or where there are less than three bytes.
pub open spec fn parsed_color(text: Seq<char>) -> Option<Rgba> {
    if text.len() >= 1 && all_ascii(text) {
        match parsed_hex_bytes(text.skip(1)) {
            Some(bytes) => if bytes.len() >= 3 {
                Some(
                    Rgba {
                        r: bytes[0] as u8,
                        g: bytes[1] as u8,
                        b: bytes[2] as u8,
                        a: if bytes.len() >= 4 {
                            bytes[3] as u8
                        } else {
                            255
                        },
                    },
                )
            } else {
                None
            },
            None => None,
        }
    } else {
        None
    }
}

/// A colour as it is written: `#` and two digits for each of its four bytes.
pub open spec fn written_color(color: Rgba, upper: bool) -> Seq<char> {
    seq!['#'] + hex_byte(color.r as int, upper) + hex_byte(color.g as int, upper) + hex_byte(
        color.b as int,
        upper,
    ) + hex_byte(color.a as int, upper)
}

/// The value of a hexadecimal digit.
fn read_hex_digit(c: char) -> (r: Option<u8>)
    ensures
        match r {
            Some(value) => hex_value(c) == Some(value as int) && value < 16,
            None => hex_value(c) is None,
        },
{
    if '0' <= c && c <= '9' {
        Some(c as u8 - 48)
    } else if 'a' <= c && c <= 'f' {
        Some(c as u8 - 87)
    } else if 'A' <= c && c <= 'F' {
        Some(c as u8 - 55)
    } else {
        None
    }
}

/// The byte that two characters denote.
fn read_hex_pair(first: char, second: char) -> (r: Option<u8>)
    ensures
        match r {
            Some(byte) => parsed_hex_byte(seq![first, second]) == Some(byte as int),
            None => parsed_hex_byte(seq![first, second]) is None,
        },
{
    match read_hex_digit(second) {
        None => None,
        Some(low) => {
            if first == '+' {
                Some(low)
            } else {
                match read_hex_digit(first) {
                    Some(high) => Some(16 * high + low),
                    None => None,
                }
            }
        },
    }
}

/// The one-character string of a hexadecimal digit.
fn hex_digit_str(value: u8, upper: bool) -> (r: &'static str)
    requires
        value < 16,
    ensures
        r@ == seq![hex_digit(value as int, upper)],
{
    proof {
        reveal_strlit("0");
        reveal_strlit("1");
        reveal_strlit("2");
        reveal_strlit("3");
        reveal_strlit("4");
        reveal_strlit("5");
        reveal_strlit("6");
        reveal_strlit("7");
        reveal_strlit("8");
        reveal_strlit("9");
        reveal_strlit("a");
        reveal_strlit("b");
        reveal_strlit("c");
        reveal_strlit("d");
        reveal_strlit("e");
        reveal_strlit("f");
        reveal_strlit("A");
        reveal_strlit("B");
        reveal_strlit("C");
        reveal_strlit("D");
        reveal_strlit("E");
        reveal_strlit("F");
    }
    let r = if value == 0 {
        "0"
    } else if value == 1 {
        "1"
    } else if value == 2 {
        "2"
    } else if value == 3 {
        "3"
    } else if value == 4 {
        "4"
    } else if value == 5 {
        "5"
    } else if value == 6 {
        "6"
    } else if value == 7 {
        "7"
    } else if value == 8 {
        "8"
    } else if value == 9 {
        "9"
    } else if value == 10 {
        if upper {
            "A"
        } else {
            "a"
        }
    } else if value == 11 {
        if upper {
            "B"
        } else {
            "b"
        }
    } else if value == 12 {
        if upper {
            "C"
        } else {
            "c"
        }
    } else if value == 13 {
        if upper {
            "D"
        } else {
            "d"
        }
    } else if value == 14 {
        if upper {
            "E"
        } else {
            "e"
        }
    } else {
        if upper {
            "F"
        } else {
            "f"
        }
    };
    assert(r@ =~= seq![hex_digit(value as int, upper)]);
    r
}

/// Writes the two hexadecimal digits of a byte behind a text.
fn append_hex_byte(text: &mut String, byte: u8, upper: bool)
    ensures
        final(text)@ == old(text)@ + hex_byte(byte as int, upper),
{
    text.append(hex_digit_str(byte / 16, upper));
    text.append(hex_digit_str(byte % 16, upper));
    assert(text@ =~= old(text)@ + hex_byte(byte as int, upper));
}

/// Writes a colour as `#` and eight hexadecimal digits.
pub fn write_color(color: Rgba, upper: bool) -> (r: String)
    ensures
        r@ == written_color(color, upper),
{
    proof {
        reveal_strlit("#");
    }
    let mut text = "#".to_string();
    assert(text@ =~= seq!['#']);
    append_hex_byte(&mut text, color.r, upper);
    append_hex_byte(&mut text, color.g, upper);
    append_hex_byte(&mut text, color.b, upper);
    append_hex_byte(&mut text, color.a, upper);
    text
}

/// The values of bytes.
pub open spec fn byte_values(bytes: Seq<u8>) -> Seq<int> {
    bytes.map_values(|byte: u8| byte as int)
}

/// The bytes that were read, before what the rest of the text denotes.
pub open spec fn after_bytes(done: Seq<int>, rest: Option<Seq<int>>) -> Option<Seq<int>> {
    match rest {
        Some(bytes) => Some(done + bytes),
        None => None,
    }
}

/// Reads the bytes of hexadecimal digits from the characters behind `from`.
fn read_hex_bytes(chars: &Vec<char>, from: usize) -> (r: Option<Vec<u8>>)
    requires
        from <= chars.len(),
    ensures
        match r {
            Some(bytes) => parsed_hex_bytes(chars@.skip(from as int)) == Some(byte_values(bytes@)),
            None => parsed_hex_bytes(chars@.skip(from as int)) is None,
        },
{
    let ghost whole = parsed_hex_bytes(chars@.skip(from as int));
    let n: usize = chars.len();
    let mut bytes: Vec<u8> = Vec::new();
    let mut i: usize = from;
    proof {
        assert(byte_values(bytes@) =~= Seq::<int>::empty());
        match whole {
            Some(all) => {
                assert(Seq::<int>::empty() + all =~= all);
            },
            None => {},
        }
    }
    while n - i >= 2
        invariant
            from <= i <= n,
            n == chars.len(),
            whole == parsed_hex_bytes(chars@.skip(from as int)),
            whole == after_bytes(byte_values(bytes@), parsed_hex_bytes(chars@.skip(i as int))),
        decreases n - i,
    {
        let ghost rest = chars@.skip(i as int);
        let ghost done = byte_values(bytes@);
        proof {
            assert(rest.take(2) =~= seq![chars@[i as int], chars@[i + 1]]);
            assert(rest.skip(2) =~= chars@.skip(i + 2));
        }
        match read_hex_pair(chars[i], chars[i + 1]) {
            None => {
                proof {
                    assert(parsed_hex_bytes(rest) is None);
                }
                return None;
            },
            Some(byte) => {
                bytes.push(byte);
                proof {
                    assert(byte_values(bytes@) =~= done.push(byte as int));
                    match parsed_hex_bytes(chars@.skip(i + 2)) {
                        Some(more) => {
                            assert(done + (seq![byte as int] + more) =~= done.push(byte as int)
                                + more);
                        },
                        None => {},
                    }
                }
            },
        }
        i += 2;
    }
    let ghost done = byte_values(bytes@);
    if i < n {
        proof {
            assert(chars@.skip(i as int) =~= seq![chars@[i as int]]);
        }
        match read_hex_digit(chars[i]) {
            Some(value) => {
                bytes.push(value);
                proof {
                    assert(byte_values(bytes@) =~= done + seq![value as int]);
                }
            },
            None => {
                return None;
            },
        }
    } else {
        proof {
            assert(done + Seq::<int>::empty() =~= done);
        }
    }
    Some(bytes)
}

/// Whether every character is one of ASCII.
fn is_all_ascii(chars: &Vec<char>) -> (r: bool)
    ensures
        r == all_ascii(chars@),
{
    let mut i: usize = 0;
    while i < chars.len()
        invariant
            i <= chars.len(),
            forall|j: int| 0 <= j < i ==> #[trigger] chars@[j] <= '\u{7f}',
        decreases chars.len() - i,
    {
        if chars[i] > '\u{7f}' {
            return false;
        }
        i += 1;
    }
    true
}

/// Reads a colour: behind the first character, three or four bytes in
/// hexadecimal notation.
pub fn read_color(text: &str) -> (r: Option<Rgba>)
    ensures
        r == parsed_color(text@),
{
    let chars = to_chars(text);
    if chars.len() == 0 || !is_all_ascii(&chars) {
        return None;
    }
    match read_hex_bytes(&chars, 1) {
        Some(bytes) => {
            if bytes.len() >= 3 {
                Some(
                    Rgba {
                        r: bytes[0],
                        g: bytes[1],
                        b: bytes[2],
                        a: if bytes.len() >= 4 {
                            bytes[3]
                        } else {
                            255
                        },
                    },
                )
            } else {
                None
            }
        },
        None => None,
    }
}

/// `text` without the number signs that it begins with.
pub open spec fn without_signs(text: Seq<char>) -> Seq<char>
    decreases text.len(),
{
    if text.len() > 0 && text[0] == '#' {
        without_signs(text.skip(1))
    } else {
        text
    }
}

/// The red, green and blue that a text begins with, behind any number signs:
/// three bytes in hexadecimal notation.
pub open spec fn parsed_base_color(text: Seq<char>) -> Option<(int, int, int)> {
    let digits = without_signs(text);
    if digits.len() >= 6 {
        match (
            parsed_hex_byte(digits.subrange(0, 2)),
            parsed_hex_byte(digits.subrange(2, 4)),
            parsed_hex_byte(digits.subrange(4, 6)),
        ) {
            (Some(r), Some(g), Some(b)) => Some((r, g, b)),
            _ => None,
        }
    } else {
        None
    }
}

/// Reads the red, green and blue that a text begins with, behind any number
/// signs.
pub fn read_base_color(text: &str) -> (r: Option<(u8, u8, u8)>)
    ensures
        match r {
            Some((r, g, b)) => parsed_base_color(text@) == Some((r as int, g as int, b as int)),
            None => parsed_base_color(text@) is None,
        },
{
    let chars = to_chars(text);
    let mut from: usize = 0;
    proof {
        assert(text@.skip(0) =~= text@);
    }
    while from < chars.len() && chars[from] == '#'
        invariant
            from <= chars.len(),
            chars@ == text@,
            without_signs(text@) == without_signs(text@.skip(from as int)),
        decreases chars.len() - from,
    {
        proof {
            assert(text@.skip(from as int).skip(1) =~= text@.skip(from + 1));
        }
        from += 1;
    }
    if chars.len() - from < 6 {
        return None;
    }
    proof {
        let digits = text@.skip(from as int);
        assert(digits.subrange(0, 2) =~= seq![chars@[from as int], chars@[from + 1]]);
        assert(digits.subrange(2, 4) =~= seq![chars@[from + 2], chars@[from + 3]]);
        assert(digits.subrange(4, 6) =~= seq![chars@[from + 4], chars@[from + 5]]);
    }
    let red = read_hex_pair(chars[from], chars[from + 1]);
    let green = read_hex_pair(chars[from + 2], chars[from + 3]);
    let blue = read_hex_pair(chars[from + 4], chars[from + 5]);
    match (red, green, blue) {
        (Some(r), Some(g), Some(b)) => Some((r, g, b)),
        _ => None,
    }
}

/// A colour is kept as `#` and eight hexadecimal digits in upper case.
impl ToConfig for Rgba {
    open spec fn config_text(&self) -> Seq<char> {
        written_color(*self, true)
    }

    open spec fn read_as(value: Seq<char>, result: Option<Self>) -> bool {
        result == parsed_color(value)
    }

    fn to_config(&self) -> (r: String) {
        write_color(*self, true)
    }

    fn to_self(value: &str) -> (r: Option<Self>) {
        read_color(value)
    }
}

} // verus!
