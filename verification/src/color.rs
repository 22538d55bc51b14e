//! sRGB colours with eight bits per channel, and their hexadecimal notation.

use crate::error::InvalidInput;
use vstd::prelude::*;
use vstd::string::*;

verus! {

/// A colour as four eight-bit channels.
#[derive(Clone, Copy, Debug, PartialEq, Eq, Structural)]
pub struct Argb {
    pub alpha: u8,
    pub red: u8,
    pub green: u8,
    pub blue: u8,
}

/// The character that writes a value below sixteen in lower-case hexadecimal.
pub open spec fn hex_char(digit: int) -> char {
    if digit == 0 {
        '0'
    } else if digit == 1 {
        '1'
    } else if digit == 2 {
        '2'
    } else if digit == 3 {
        '3'
    } else if digit == 4 {
        '4'
    } else if digit == 5 {
        '5'
    } else if digit == 6 {
        '6'
    } else if digit == 7 {
        '7'
    } else if digit == 8 {
        '8'
    } else if digit == 9 {
        '9'
    } else if digit == 10 {
        'a'
    } else if digit == 11 {
        'b'
    } else if digit == 12 {
        'c'
    } else if digit == 13 {
        'd'
    } else if digit == 14 {
        'e'
    } else {
        'f'
    }
}

/// A channel as two hexadecimal characters, the high one first.
pub open spec fn hex_pair(channel: u8) -> Seq<char> {
    seq![hex_char(channel as int / 16), hex_char(channel as int % 16)]
}

/// `#rrggbb`: what a colour looks like in text. Alpha is not written.
pub open spec fn hex_text(color: Argb) -> Seq<char> {
    seq!['#'] + hex_pair(color.red) + hex_pair(color.green) + hex_pair(color.blue)
}

/// Whether a character is one of `0-9`, `a-f`, `A-F`.
pub open spec fn is_hex_char(c: char) -> bool {
    ('0' <= c <= '9') || ('a' <= c <= 'f') || ('A' <= c <= 'F')
}

/// The value of a hexadecimal character.
pub open spec fn hex_value(c: char) -> int {
    if '0' <= c <= '9' {
        c as int - 48
    } else if 'a' <= c <= 'f' {
        c as int - 87
    } else {
        c as int - 55
    }
}

/// The text without its `#` signs.
pub open spec fn hex_digits(text: Seq<char>) -> Seq<char>
    decreases text.len(),
{
    if text.len() == 0 {
        Seq::empty()
    } else if text.last() == '#' {
        hex_digits(text.drop_last())
    } else {
        hex_digits(text.drop_last()).push(text.last())
    }
}

/// The texts that denote a colour: hexadecimal digits, three or six of them, with `#`
/// signs anywhere among them except behind the sixth digit.
pub open spec fn is_hex_color(text: Seq<char>) -> bool {
    &&& forall|i: int| 0 <= i < text.len() ==> text[i] == '#' || is_hex_char(#[trigger] text[i])
    &&& (hex_digits(text).len() == 3 || (hex_digits(text).len() == 6 && text.last() != '#'))
}

/// The colour that a well-formed text denotes. Three digits stand for six, each one
/// doubled; the colour is opaque.
pub open spec fn hex_color(text: Seq<char>) -> Argb {
    let d = hex_digits(text);
    if d.len() == 3 {
        Argb {
            alpha: 255,
            red: (17 * hex_value(d[0])) as u8,
            green: (17 * hex_value(d[1])) as u8,
            blue: (17 * hex_value(d[2])) as u8,
        }
    } else {
        Argb {
            alpha: 255,
            red: (16 * hex_value(d[0]) + hex_value(d[1])) as u8,
            green: (16 * hex_value(d[2]) + hex_value(d[3])) as u8,
            blue: (16 * hex_value(d[4]) + hex_value(d[5])) as u8,
        }
    }
}

/// Two colours with the same packed value are the same colour.
pub proof fn lemma_packed_injective(a: Argb, b: Argb)
    requires
        a.packed() == b.packed(),
    ensures
        a == b,
{
    assert(a.alpha == b.alpha);
    assert(a.red == b.red);
    assert(a.green == b.green);
}

/// A prefix never holds more digits than the whole text.
proof fn lemma_hex_digits_prefix(text: Seq<char>, n: int)
    requires
        0 <= n <= text.len(),
    ensures
        hex_digits(text.take(n)).len() <= hex_digits(text).len(),
    decreases text.len() - n,
{
    if n == text.len() {
        assert(text.take(n) =~= text);
    } else {
        lemma_hex_digits_prefix(text.drop_last(), n);
        assert(text.drop_last().take(n) =~= text.take(n));
    }
}

/// Once six digits are read, any further character spoils the text.
proof fn lemma_seventh_character(text: Seq<char>, n: int)
    requires
        0 <= n < text.len(),
        hex_digits(text.take(n)).len() == 6,
    ensures
        !is_hex_color(text),
{
    lemma_hex_digits_prefix(text.drop_last(), n);
    assert(text.drop_last().take(n) =~= text.take(n));
}

/// The text of one hexadecimal digit.
fn hex_digit_text(digit: u8) -> (text: &'static str)
    requires
        digit < 16,
    ensures
        text@ == seq![hex_char(digit as int)],
{
    proof {
        reveal_strlit("0");
        reveal_strlit("1");
        reveal_strlit("2");
        reveal_strlit("3");
        reveal_strlit("4");
        reveal_strlit("5");
        reveal_strlit("6");
        reveal_strlit("7");
        reveal_strlit("8");
        reveal_strlit("9");
        reveal_strlit("a");
        reveal_strlit("b");
        reveal_strlit("c");
        reveal_strlit("d");
        reveal_strlit("e");
        reveal_strlit("f");
    }
    let text = match digit {
        0 => "0",
        1 => "1",
        2 => "2",
        3 => "3",
        4 => "4",
        5 => "5",
        6 => "6",
        7 => "7",
        8 => "8",
        9 => "9",
        10 => "a",
        11 => "b",
        12 => "c",
        13 => "d",
        14 => "e",
        _ => "f",
    };
    assert(text@ =~= seq![hex_char(digit as int)]);
    text
}

/// The value of an ASCII byte as a hexadecimal digit, if it is one.
fn hex_digit_value(byte: u8) -> (value: Option<u8>)
    requires
        byte < 128,
    ensures
        value is Some <==> is_hex_char(byte as char),
        value matches Some(v) ==> v as int == hex_value(byte as char) && v < 16,
{
    if 48 <= byte && byte <= 57 {
        Some(byte - 48)
    } else if 97 <= byte && byte <= 102 {
        Some(byte - 87)
    } else if 65 <= byte && byte <= 70 {
        Some(byte - 55)
    } else {
        None
    }
}

impl Argb {
    /// The colour as one number, alpha in the top byte and blue in the lowest.
    pub open spec fn packed(self) -> int {
        self.alpha as int * 0x100_0000 + self.red as int * 0x1_0000 + self.green as int * 0x100
            + self.blue as int
    }

    /// An opaque colour.
    pub fn opaque(red: u8, green: u8, blue: u8) -> (color: Argb)
        ensures
            color == (Argb { alpha: 255, red, green, blue }),
    {
        Argb { alpha: 255, red, green, blue }
    }

    /// Packs the four channels into one number.
    pub fn to_u32(self) -> (value: u32)
        ensures
            value as int == self.packed(),
    {
        let a: u32 = self.alpha as u32;
        let r: u32 = self.red as u32;
        let g: u32 = self.green as u32;
        let b: u32 = self.blue as u32;
        a * 0x100_0000 + r * 0x1_0000 + g * 0x100 + b
    }

    /// Takes a packed number apart. Every number is a colour.
    pub fn from_u32(value: u32) -> (color: Argb)
        ensures
            color.packed() == value as int,
    {
        let alpha: u8 = (value / 0x100_0000) as u8;
        let red: u8 = ((value / 0x1_0000) % 0x100) as u8;
        let green: u8 = ((value / 0x100) % 0x100) as u8;
        let blue: u8 = (value % 0x100) as u8;
        Argb { alpha, red, green, blue }
    }

    /// Writes the colour as `#rrggbb` in lower case.
    pub fn to_hex(&self) -> (text: String)
        ensures
            text@ == hex_text(*self),
    {
        proof {
            reveal_strlit("#");
        }
        let mut text = String::from_str("#");
        text.append(hex_digit_text(self.red / 16));
        text.append(hex_digit_text(self.red % 16));
        text.append(hex_digit_text(self.green / 16));
        text.append(hex_digit_text(self.green % 16));
        text.append(hex_digit_text(self.blue / 16));
        text.append(hex_digit_text(self.blue % 16));
        assert(text@ =~= hex_text(*self));
        text
    }

    /// Reads a colour in hexadecimal notation: `#rgb`, `#rrggbb`, with or without the
    /// sign, in either case of letters.
    pub fn parse(text: &str) -> (parsed: Result<Argb, InvalidInput>)
        ensures
            parsed is Ok <==> is_hex_color(text@),
            parsed matches Ok(color) ==> color == hex_color(text@),
            parsed matches Err(e) ==> e == InvalidInput::MalformedColor,
    {
        if !text.is_ascii() {
            proof {
                let i = choose|i: int| 0 <= i < text@.len() && !('\0' <= #[trigger] text@[i] <= '\u{7f}');
                assert(!(text@[i] == '#' || is_hex_char(text@[i])));
            }
            return Err(InvalidInput::MalformedColor);
        }
        let n = text.unicode_len();
        let mut values: Vec<u8> = Vec::new();
        let mut i: usize = 0;
        while i < n
            invariant
                text.is_ascii(),
                n == text@.len(),
                0 <= i <= n,
                values@.len() == hex_digits(text@.take(i as int)).len(),
                values@.len() <= 6,
                forall|k: int| 0 <= k < values@.len() ==> #[trigger] values@[k] < 16,
                forall|k: int| 0 <= k < values@.len() ==> values@[k] as int == hex_value(
                    #[trigger] hex_digits(text@.take(i as int))[k],
                ),
                forall|k: int| 0 <= k < i ==> text@[k] == '#' || is_hex_char(#[trigger] text@[k]),
            decreases n - i,
        {
            if values.len() == 6 {
                proof {
                    lemma_seventh_character(text@, i as int);
                }
                return Err(InvalidInput::MalformedColor);
            }
            let byte = text.get_ascii(i);
            let ghost c = text@[i as int];
            assert(byte as char == c);
            assert(text@.take(i + 1).drop_last() =~= text@.take(i as int));
            assert(text@.take(i + 1).last() == c);
            if byte != 35 {
                match hex_digit_value(byte) {
                    Some(v) => {
                        values.push(v);
                    },
                    None => {
                        return Err(InvalidInput::MalformedColor);
                    },
                }
            }
            i += 1;
        }
        assert(text@.take(n as int) =~= text@);
        if values.len() == 3 {
            Ok(
                Argb {
                    alpha: 255,
                    red: 17 * values[0],
                    green: 17 * values[1],
                    blue: 17 * values[2],
                },
            )
        } else if values.len() == 6 {
            if text.get_ascii(n - 1) == 35 {
                return Err(InvalidInput::MalformedColor);
            }
            Ok(
                Argb {
                    alpha: 255,
                    red: 16 * values[0] + values[1],
                    green: 16 * values[2] + values[3],
                    blue: 16 * values[4] + values[5],
                },
            )
        } else {
            Err(InvalidInput::MalformedColor)
        }
    }
}

} // verus!
