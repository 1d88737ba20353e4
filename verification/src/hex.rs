use crate::ident::{hex_value, is_hex_digit};
use vstd::prelude::*;
use vstd::string::StringExecFns;

verus! {

/// The lower-case hexadecimal digit of a number below sixteen.
pub open spec fn hex_digit(n: int) -> char {
    if n == 0 {
        '0'
    } else if n == 1 {
        '1'
    } else if n == 2 {
        '2'
    } else if n == 3 {
        '3'
    } else if n == 4 {
        '4'
    } else if n == 5 {
        '5'
    } else if n == 6 {
        '6'
    } else if n == 7 {
        '7'
    } else if n == 8 {
        '8'
    } else if n == 9 {
        '9'
    } else if n == 10 {
        'a'
    } else if n == 11 {
        'b'
    } else if n == 12 {
        'c'
    } else if n == 13 {
        'd'
    } else if n == 14 {
        'e'
    } else {
        'f'
    }
}

/// The text of some bytes: two lower-case hexadecimal digits to a byte, the
/// high digit first.
pub open spec fn hex_text(bytes: Seq<u8>) -> Seq<char> {
    Seq::new(
        2 * bytes.len(),
        |i: int|
            if i % 2 == 0 {
                hex_digit(bytes[i / 2] as int / 16)
            } else {
                hex_digit(bytes[i / 2] as int % 16)
            },
    )
}

/// Whether a text spells bytes: an even number of hexadecimal digits.
pub open spec fn is_hex_text(text: Seq<char>) -> bool {
    &&& text.len() % 2 == 0
    &&& forall|i: int| 0 <= i < text.len() ==> is_hex_digit(#[trigger] text[i])
}

/// The bytes that a text spells, two digits to a byte, the high digit first.
pub open spec fn hex_bytes(text: Seq<char>) -> Seq<u8> {
    Seq::new(
        text.len() / 2,
        |i: int| (16 * hex_value(text[2 * i]) + hex_value(text[2 * i + 1])) as u8,
    )
}

/// The text of some bytes spells those bytes.
pub proof fn law_hex_round_trip(bytes: Seq<u8>)
    ensures
        is_hex_text(hex_text(bytes)),
        hex_bytes(hex_text(bytes)) == bytes,
{
    let text = hex_text(bytes);
    assert forall|i: int| 0 <= i < text.len() implies is_hex_digit(#[trigger] text[i]) by {}
    assert forall|i: int| 0 <= i < bytes.len() implies hex_bytes(text)[i] == bytes[i] by {
        assert(text[2 * i] == hex_digit(bytes[i] as int / 16));
        assert(text[2 * i + 1] == hex_digit(bytes[i] as int % 16));
    }
    assert(hex_bytes(text) =~= bytes);
}

fn digit_text(n: u8) -> (text: &'static str)
    requires
        n < 16,
    ensures
        text@ == seq![hex_digit(n as int)],
{
    proof {
        reveal_strlit("0");
        reveal_strlit("1");
        reveal_strlit("2");
        reveal_strlit("3");
        reveal_strlit("4");
        reveal_strlit("5");
        reveal_strlit("6");
        reveal_strlit("7");
        reveal_strlit("8");
        reveal_strlit("9");
        reveal_strlit("a");
        reveal_strlit("b");
        reveal_strlit("c");
        reveal_strlit("d");
        reveal_strlit("e");
        reveal_strlit("f");
    }
    let text = match n {
        0 => "0",
        1 => "1",
        2 => "2",
        3 => "3",
        4 => "4",
        5 => "5",
        6 => "6",
        7 => "7",
        8 => "8",
        9 => "9",
        10 => "a",
        11 => "b",
        12 => "c",
        13 => "d",
        14 => "e",
        _ => "f",
    };
    assert(text@ =~= seq![hex_digit(n as int)]);
    text
}

/// Writes bytes as text, two lower-case hexadecimal digits to a byte.
pub fn encode_hex(bytes: &[u8]) -> (text: String)
    ensures
        text@ == hex_text(bytes@),
{
    let mut text = String::new();
    let mut i: usize = 0;
    while i < bytes.len()
        invariant
            i <= bytes.len(),
            text@ == hex_text(bytes@.take(i as int)),
        decreases bytes.len() - i,
    {
        let b = bytes[i];
        let ghost before = text@;
        text.append(digit_text(b / 16));
        text.append(digit_text(b % 16));
        assert(text@ =~= hex_text(bytes@.take(i + 1))) by {
            assert(bytes@.take(i + 1) =~= bytes@.take(i as int).push(b));
            assert(text@ == before + seq![hex_digit(b as int / 16)] + seq![
                hex_digit(b as int % 16),
            ]);
        }
        i += 1;
    }
    assert(bytes@.take(bytes.len() as int) =~= bytes@);
    text
}

proof fn lemma_hex_digit_is_ascii(c: char)
    requires
        is_hex_digit(c),
    ensures
        '\0' <= c <= '\u{7f}',
{
}

proof fn lemma_hex_text_is_ascii(text: Seq<char>)
    requires
        is_hex_text(text),
    ensures
        vstd::utf8::is_ascii_chars(text),
{
    assert forall|i: int| 0 <= i < text.len() implies '\0' <= #[trigger] text[i] <= '\u{7f}' by {
        lemma_hex_digit_is_ascii(text[i]);
    }
}

fn digit_value(c: u8) -> (r: Option<u8>)
    ensures
        r is Some <==> is_hex_digit(c as char),
        r matches Some(v) ==> v == hex_value(c as char),
{
    if 48 <= c && c <= 57 {
        Some(c - 48)
    } else if 97 <= c && c <= 102 {
        Some(c - 87)
    } else if 65 <= c && c <= 70 {
        Some(c - 55)
    } else {
        None
    }
}

/// Reads the bytes that a text spells. `None` for a text that is not an
/// even number of hexadecimal digits; letters of either case are digits.
pub fn decode_hex(text: &str) -> (r: Option<Vec<u8>>)
    ensures
        r is Some <==> is_hex_text(text@),
        r matches Some(bytes) ==> bytes@ == hex_bytes(text@),
{
    if !text.is_ascii() {
        proof {
            if is_hex_text(text@) {
                lemma_hex_text_is_ascii(text@);
            }
        }
        return None;
    }
    let raw = text.as_bytes();
    proof {
        vstd::string::is_ascii_spec_bytes(text);
    }
    assert(raw@.len() == text@.len());
    assert(forall|i: int| 0 <= i < raw@.len() ==> raw@[i] == text@[i] as u8);
    assert(forall|i: int| 0 <= i < raw@.len() ==> (raw@[i] as char) == text@[i]);
    if raw.len() % 2 != 0 {
        return None;
    }
    let mut bytes: Vec<u8> = Vec::new();
    let mut i: usize = 0;
    while i < raw.len() / 2
        invariant
            i <= raw.len() / 2,
            raw@.len() == text@.len(),
            raw@.len() % 2 == 0,
            forall|k: int| 0 <= k < raw@.len() ==> (#[trigger] raw@[k] as char) == text@[k],
            forall|k: int| 0 <= k < 2 * i ==> is_hex_digit(#[trigger] text@[k]),
            bytes.len() == i,
            forall|k: int|
                0 <= k < i ==> #[trigger] bytes[k] == (16 * hex_value(text@[2 * k]) + hex_value(
                    text@[2 * k + 1],
                )) as u8,
        decreases raw.len() / 2 - i,
    {
        let high = digit_value(raw[2 * i]);
        let low = digit_value(raw[2 * i + 1]);
        assert((raw@[2 * i] as char) == text@[2 * i]);
        assert((raw@[2 * i + 1] as char) == text@[2 * i + 1]);
        match (high, low) {
            (Some(h), Some(l)) => {
                bytes.push(16 * h + l);
            },
            _ => {
                return None;
            },
        }
        i += 1;
    }
    assert(bytes@ =~= hex_bytes(text@));
    Some(bytes)
}

} // verus!
