//! Keys the console reacts to, and the decoder that turns the raw bytes a
//! raw-mode terminal delivers into one of them.
use vstd::prelude::*;
use vstd::utf8::*;

verus! {

/// A key press as the console understands it. Every key the console does not
/// react to is `Other`.
#[derive(Clone, Copy, Debug, PartialEq, Eq, Structural)]
pub enum Key {
    Char(char),
    Enter,
    Backspace,
    Up,
    Down,
    Left,
    Right,
    Esc,
    Other,
}

/// True for the bytes `is_ascii() && !is_ascii_control()` holds of: the
/// printable ASCII range.
pub open spec fn is_printable_ascii(b: u8) -> bool {
    0x20 <= b <= 0x7e
}

/// What a chunk of raw terminal input means: a line feed or carriage return is
/// Enter, DEL or BS is Backspace, `ESC [ A..D` are the arrows, any other
/// sequence starting with ESC is Esc, a printable ASCII byte is that
/// character, and otherwise the chunk must be valid UTF-8 as a whole and its
/// first character is taken.
pub open spec fn key_from_bytes(bytes: Seq<u8>) -> Option<Key> {
    if bytes.len() == 0 {
        None
    } else if bytes[0] == 0x0d || bytes[0] == 0x0a {
        Some(Key::Enter)
    } else if bytes[0] == 0x7f || bytes[0] == 0x08 {
        Some(Key::Backspace)
    } else if bytes.len() >= 3 && bytes[0] == 0x1b && bytes[1] == 0x5b && bytes[2] == 0x41 {
        Some(Key::Up)
    } else if bytes.len() >= 3 && bytes[0] == 0x1b && bytes[1] == 0x5b && bytes[2] == 0x42 {
        Some(Key::Down)
    } else if bytes.len() >= 3 && bytes[0] == 0x1b && bytes[1] == 0x5b && bytes[2] == 0x43 {
        Some(Key::Right)
    } else if bytes.len() >= 3 && bytes[0] == 0x1b && bytes[1] == 0x5b && bytes[2] == 0x44 {
        Some(Key::Left)
    } else if bytes[0] == 0x1b {
        Some(Key::Esc)
    } else if is_printable_ascii(bytes[0]) {
        Some(Key::Char(bytes[0] as char))
    } else if valid_utf8(bytes) {
        Some(Key::Char(decode_utf8(bytes)[0]))
    } else {
        None
    }
}

/// The scalar value that a well-formed first UTF-8 sequence encodes is a
/// Unicode scalar.
proof fn lemma_first_scalar_is_scalar(bytes: Seq<u8>)
    requires
        valid_first_scalar(bytes),
    ensures
        is_scalar(decode_first_scalar(bytes)),
{
    let b0 = bytes[0];
    if is_leading_byte_width_1(b0) {
        assert((b0 & 0x7f) as u32 <= 0x7f) by (bit_vector);
    } else if is_leading_byte_width_2(b0) {
        let b1 = bytes[1];
        assert((((b0 & 0x1f) as u32) << 6u32) | ((b1 & 0x3f) as u32) <= 0x7ff) by (bit_vector);
    } else if is_leading_byte_width_3(b0) {
        let b1 = bytes[1];
        let b2 = bytes[2];
        assert((((b0 & 0x0f) as u32) << 12u32) | (((b1 & 0x3f) as u32) << 6u32) | ((b2
            & 0x3f) as u32) <= 0xffff) by (bit_vector);
    }
}

/// Calls `char::from_u32`, whose documentation promises the `char` with the
/// given scalar value for every Unicode scalar.
#[verifier::external_body]
fn char_from_scalar(cp: u32) -> (c: char)
    requires
        is_scalar(cp),
    ensures
        c == cp as char,
{
    char::from_u32(cp).unwrap()
}

/// Decodes the sequence that starts at `bytes[i]`: its scalar value and its
/// length, or `None` when no well-formed sequence starts there.
fn decode_scalar_at(bytes: &[u8], i: usize) -> (r: Option<(u32, usize)>)
    requires
        i < bytes@.len(),
    ensures
        ({
            let rest = bytes@.subrange(i as int, bytes@.len() as int);
            match r {
                Some((cp, n)) => valid_first_scalar(rest) && cp == decode_first_scalar(rest) && n
                    == length_of_first_scalar(rest),
                None => !valid_first_scalar(rest),
            }
        }),
{
    let ghost rest = bytes@.subrange(i as int, bytes@.len() as int);
    let remaining = bytes.len() - i;
    let b0 = bytes[i];
    assert(rest[0] == b0);
    if b0 <= 0x7f {
        assert((b0 & 0x7f) as u32 <= 0x7f) by (bit_vector);
        Some(((b0 & 0x7f) as u32, 1))
    } else if 0xc0 <= b0 && b0 <= 0xdf {
        if remaining < 2 {
            return None;
        }
        let b1 = bytes[i + 1];
        assert(rest[1] == b1);
        if !(0x80 <= b1 && b1 <= 0xbf) {
            return None;
        }
        let cp: u32 = (((b0 & 0x1f) as u32) << 6u32) | ((b1 & 0x3f) as u32);
        assert((((b0 & 0x1f) as u32) << 6u32) | ((b1 & 0x3f) as u32) <= 0x7ff) by (bit_vector);
        if cp < 0x80 {
            None
        } else {
            Some((cp, 2))
        }
    } else if 0xe0 <= b0 && b0 <= 0xef {
        if remaining < 3 {
            return None;
        }
        let b1 = bytes[i + 1];
        let b2 = bytes[i + 2];
        assert(rest[1] == b1);
        assert(rest[2] == b2);
        if !(0x80 <= b1 && b1 <= 0xbf) || !(0x80 <= b2 && b2 <= 0xbf) {
            return None;
        }
        let cp: u32 = (((b0 & 0x0f) as u32) << 12u32) | (((b1 & 0x3f) as u32) << 6u32) | ((b2
            & 0x3f) as u32);
        if cp < 0x800 || (0xd800 <= cp && cp <= 0xdfff) {
            None
        } else {
            Some((cp, 3))
        }
    } else if 0xf0 <= b0 && b0 <= 0xf7 {
        if remaining < 4 {
            return None;
        }
        let b1 = bytes[i + 1];
        let b2 = bytes[i + 2];
        let b3 = bytes[i + 3];
        assert(rest[1] == b1);
        assert(rest[2] == b2);
        assert(rest[3] == b3);
        if !(0x80 <= b1 && b1 <= 0xbf) || !(0x80 <= b2 && b2 <= 0xbf) || !(0x80 <= b3 && b3
            <= 0xbf) {
            return None;
        }
        let cp: u32 = (((b0 & 0x07) as u32) << 18u32) | (((b1 & 0x3f) as u32) << 12u32) | (((b2
            & 0x3f) as u32) << 6u32) | ((b3 & 0x3f) as u32);
        if cp < 0x10000 || cp > 0x10ffff || (0xd800 <= cp && cp <= 0xdfff) {
            None
        } else {
            Some((cp, 4))
        }
    } else {
        None
    }
}

/// The first character of `bytes` when the whole slice is valid UTF-8 and not
/// empty, and `None` otherwise.
pub fn utf8_first_char(bytes: &[u8]) -> (r: Option<char>)
    ensures
        r is Some <==> (bytes@.len() > 0 && valid_utf8(bytes@)),
        r matches Some(c) ==> c == decode_utf8(bytes@)[0],
{
    let len = bytes.len();
    let mut i: usize = 0;
    let mut first: Option<char> = None;
    assert(bytes@.subrange(0, 0) =~= Seq::<u8>::empty());
    while i < len
        invariant
            len == bytes@.len(),
            i <= len,
            partial_valid_utf8(bytes@, i as int),
            i == 0 <==> first is None,
            i > 0 ==> valid_first_scalar(bytes@),
            first matches Some(c) ==> c == decode_first_scalar(bytes@) as char,
        decreases len - i,
    {
        let ghost rest = bytes@.subrange(i as int, len as int);
        match decode_scalar_at(bytes, i) {
            None => {
                proof {
                    reveal_with_fuel(valid_utf8, 1);
                    assert(!valid_utf8(rest));
                    partial_valid_partial_invalid_utf8(bytes@, i as int);
                }
                return None;
            },
            Some((cp, n)) => {
                proof {
                    partial_valid_utf8_extend(bytes@, i as int);
                    lemma_first_scalar_is_scalar(rest);
                }
                if i == 0 {
                    assert(rest =~= bytes@);
                    first = Some(char_from_scalar(cp));
                }
                i = i + n;
            },
        }
    }
    proof {
        assert(bytes@.subrange(0, len as int) =~= bytes@);
    }
    first
}

/// Decodes one chunk of raw-mode terminal input into a key.
pub fn parse_key(bytes: &[u8]) -> (r: Option<Key>)
    ensures
        r == key_from_bytes(bytes@),
{
    let len = bytes.len();
    if len == 0 {
        return None;
    }
    let b0 = bytes[0];
    if b0 == 0x0d || b0 == 0x0a {
        Some(Key::Enter)
    } else if b0 == 0x7f || b0 == 0x08 {
        Some(Key::Backspace)
    } else if len >= 3 && b0 == 0x1b && bytes[1] == 0x5b && bytes[2] == 0x41 {
        Some(Key::Up)
    } else if len >= 3 && b0 == 0x1b && bytes[1] == 0x5b && bytes[2] == 0x42 {
        Some(Key::Down)
    } else if len >= 3 && b0 == 0x1b && bytes[1] == 0x5b && bytes[2] == 0x43 {
        Some(Key::Right)
    } else if len >= 3 && b0 == 0x1b && bytes[1] == 0x5b && bytes[2] == 0x44 {
        Some(Key::Left)
    } else if b0 == 0x1b {
        Some(Key::Esc)
    } else if 0x20 <= b0 && b0 <= 0x7e {
        Some(Key::Char(b0 as char))
    } else {
        match utf8_first_char(bytes) {
            Some(c) => Some(Key::Char(c)),
            None => None,
        }
    }
}

/// Whatever follows in the chunk: a line feed or carriage return first is
/// Enter, DEL or BS is Backspace, `ESC [ A`, `B`, `C`, `D` are Up, Down,
/// Right, Left, ESC followed by anything else is Esc, and a printable ASCII
/// byte first is that very character.
pub proof fn law_key_bytes(first: u8, rest: Seq<u8>)
    ensures
        key_from_bytes(seq![0x0au8] + rest) == Some(Key::Enter),
        key_from_bytes(seq![0x0du8] + rest) == Some(Key::Enter),
        key_from_bytes(seq![0x7fu8] + rest) == Some(Key::Backspace),
        key_from_bytes(seq![0x08u8] + rest) == Some(Key::Backspace),
        key_from_bytes(seq![0x1bu8, 0x5bu8, 0x41u8] + rest) == Some(Key::Up),
        key_from_bytes(seq![0x1bu8, 0x5bu8, 0x42u8] + rest) == Some(Key::Down),
        key_from_bytes(seq![0x1bu8, 0x5bu8, 0x43u8] + rest) == Some(Key::Right),
        key_from_bytes(seq![0x1bu8, 0x5bu8, 0x44u8] + rest) == Some(Key::Left),
        (rest.len() == 0 || rest[0] != 0x5b) ==> key_from_bytes(seq![0x1bu8] + rest) == Some(Key::Esc),
        is_printable_ascii(first) ==> key_from_bytes(seq![first] + rest) == Some(Key::Char(first as char)),
{
    assert((seq![0x1bu8] + rest)[0] == 0x1b);
    assert(rest.len() > 0 ==> (seq![0x1bu8] + rest)[1] == rest[0]);
    assert((seq![first] + rest)[0] == first);
    assert((seq![0x0au8] + rest)[0] == 0x0a);
    assert((seq![0x0du8] + rest)[0] == 0x0d);
    assert((seq![0x7fu8] + rest)[0] == 0x7f);
    assert((seq![0x08u8] + rest)[0] == 0x08);
    assert((seq![0x1bu8, 0x5bu8, 0x41u8] + rest)[2] == 0x41);
    assert((seq![0x1bu8, 0x5bu8, 0x42u8] + rest)[2] == 0x42);
    assert((seq![0x1bu8, 0x5bu8, 0x43u8] + rest)[2] == 0x43);
    assert((seq![0x1bu8, 0x5bu8, 0x44u8] + rest)[2] == 0x44);
    assert((seq![0x1bu8, 0x5bu8, 0x41u8] + rest)[0] == 0x1b);
    assert((seq![0x1bu8, 0x5bu8, 0x42u8] + rest)[0] == 0x1b);
    assert((seq![0x1bu8, 0x5bu8, 0x43u8] + rest)[0] == 0x1b);
    assert((seq![0x1bu8, 0x5bu8, 0x44u8] + rest)[0] == 0x1b);
    assert((seq![0x1bu8, 0x5bu8, 0x41u8] + rest)[1] == 0x5b);
    assert((seq![0x1bu8, 0x5bu8, 0x42u8] + rest)[1] == 0x5b);
    assert((seq![0x1bu8, 0x5bu8, 0x43u8] + rest)[1] == 0x5b);
    assert((seq![0x1bu8, 0x5bu8, 0x44u8] + rest)[1] == 0x5b);
}

} // verus!
