//! Reading keys out of the bytes of a terminal.
//!
//! `KeyReader` takes one byte after the other, or the news that none is there,
//! and says when a key is complete.
use vstd::prelude::*;
use vstd::utf8::{
    decode_utf8, encode_scalar, encode_utf8, encode_utf8_decode_utf8, encode_utf8_valid_utf8,
    leading_byte_width_1, leading_byte_width_2, leading_byte_width_3, leading_byte_width_4,
    valid_utf8,
};

verus! {

/// A key.
#[derive(Debug, Clone, Copy, PartialEq, Eq, Structural)]
pub enum Key {
    Backspace,
    Delete,
    Enter,
    Esc,
    Home,
    End,
    Left,
    Right,
    Up,
    Down,
    Tab,
    Char(char),
    /// A character typed with the control key.
    Ctrl(char),
}

/// What the user does at the terminal.
#[derive(Debug, Clone, Copy, PartialEq, Eq, Structural)]
pub enum AppEvent {
    Interrupted,
    Eof,
    Key(Key),
}

/// What is wrong with the bytes.
#[derive(Debug, Clone, Copy, PartialEq, Eq, Structural)]
pub enum KeyError {
    /// A character cannot begin with this byte.
    LeadByte,
    /// The bytes end within a character.
    UnexpectedEnd,
    /// The bytes are no character.
    Malformed,
}

/// What came of a byte.
#[derive(Debug, Clone, Copy, PartialEq, Eq, Structural)]
pub enum KeyStep {
    /// The key is not complete.
    More,
    /// The bytes mean nothing.
    Nothing,
    Event(AppEvent),
    Fail(KeyError),
}

/// What the reader is in the middle of.
pub enum Awaited {
    /// Nothing: a key may begin.
    Key,
    /// What stands behind an escape.
    Escape,
    /// What stands behind an escape and `[`.
    Csi,
    /// What stands behind an escape, `[` and this digit.
    CsiDigit(u8),
    /// What stands behind an escape and `O`.
    Ss3,
    /// The rest of a character: the bytes that are there, and how many it has.
    Char(Seq<u8>, nat),
}

/// How many bytes the character has that begins with this byte, where one can.
pub open spec fn lead_width(byte: u8) -> Option<nat> {
    if byte <= 0x7f {
        Some(1)
    } else if 0xc2 <= byte <= 0xdf {
        Some(2)
    } else if 0xe0 <= byte <= 0xef {
        Some(3)
    } else if 0xf0 <= byte <= 0xf4 {
        Some(4)
    } else {
        None
    }
}

/// The key of a sequence behind an escape and `[`, of one byte or of a digit
/// and another byte.
pub open spec fn csi_key(byte: u8) -> Key {
    if byte == 65 {
        Key::Up
    } else if byte == 66 {
        Key::Down
    } else if byte == 67 {
        Key::Right
    } else if byte == 68 {
        Key::Left
    } else if byte == 72 {
        Key::Home
    } else if byte == 70 {
        Key::End
    } else {
        Key::Esc
    }
}

/// Whether a key behind an escape and `[` goes on after this digit: `1`, `3`,
/// `4`, `7` or `8`.
pub open spec fn csi_goes_on(byte: u8) -> bool {
    byte == 49 || byte == 51 || byte == 52 || byte == 55 || byte == 56
}

/// The key of a digit and the byte behind it, which has to be `~`.
pub open spec fn csi_digit_key(digit: u8, byte: u8) -> Key {
    if byte != 126 {
        Key::Esc
    } else if digit == 49 || digit == 55 {
        Key::Home
    } else if digit == 51 {
        Key::Delete
    } else if digit == 52 || digit == 56 {
        Key::End
    } else {
        Key::Esc
    }
}

/// What the first byte of a key means, and what is awaited behind it.
pub open spec fn first_byte(byte: u8) -> (Awaited, KeyStep) {
    if byte == 0x04 {
        (Awaited::Key, KeyStep::Event(AppEvent::Eof))
    } else if byte == 0x03 {
        (Awaited::Key, KeyStep::Event(AppEvent::Interrupted))
    } else if byte == 0x16 {
        (Awaited::Key, KeyStep::Event(AppEvent::Key(Key::Ctrl('v'))))
    } else if byte == 0x0d || byte == 0x0a {
        (Awaited::Key, KeyStep::Event(AppEvent::Key(Key::Enter)))
    } else if byte == 0x09 {
        (Awaited::Key, KeyStep::Event(AppEvent::Key(Key::Tab)))
    } else if byte == 0x7f || byte == 0x08 {
        (Awaited::Key, KeyStep::Event(AppEvent::Key(Key::Backspace)))
    } else if byte == 0x1b {
        (Awaited::Escape, KeyStep::More)
    } else if byte < 0x20 {
        (Awaited::Key, KeyStep::Nothing)
    } else if byte < 0x80 {
        (Awaited::Key, KeyStep::Event(AppEvent::Key(Key::Char(byte as char))))
    } else {
        match lead_width(byte) {
            Some(width) => (Awaited::Char(seq![byte], width), KeyStep::More),
            None => (Awaited::Key, KeyStep::Fail(KeyError::LeadByte)),
        }
    }
}

/// What a byte means where the given is awaited, and what is awaited then. An
/// escape that nothing follows is the escape key.
pub open spec fn after_byte(awaited: Awaited, byte: Option<u8>) -> (Awaited, KeyStep) {
    let escape = (Awaited::Key, KeyStep::Event(AppEvent::Key(Key::Esc)));
    match awaited {
        Awaited::Key => match byte {
            Some(byte) => first_byte(byte),
            None => (Awaited::Key, KeyStep::Nothing),
        },
        Awaited::Escape => match byte {
            Some(byte) => if byte == 91 {
                (Awaited::Csi, KeyStep::More)
            } else if byte == 79 {
                (Awaited::Ss3, KeyStep::More)
            } else {
                escape
            },
            None => escape,
        },
        Awaited::Csi => match byte {
            Some(byte) => if csi_goes_on(byte) {
                (Awaited::CsiDigit(byte), KeyStep::More)
            } else {
                (Awaited::Key, KeyStep::Event(AppEvent::Key(csi_key(byte))))
            },
            None => escape,
        },
        Awaited::CsiDigit(digit) => match byte {
            Some(byte) => (
                Awaited::Key,
                KeyStep::Event(AppEvent::Key(csi_digit_key(digit, byte))),
            ),
            None => escape,
        },
        Awaited::Ss3 => match byte {
            Some(byte) => if byte == 72 {
                (Awaited::Key, KeyStep::Event(AppEvent::Key(Key::Home)))
            } else if byte == 70 {
                (Awaited::Key, KeyStep::Event(AppEvent::Key(Key::End)))
            } else {
                escape
            },
            None => escape,
        },
        Awaited::Char(bytes, width) => match byte {
            Some(byte) => {
                let all = bytes.push(byte);
                if all.len() < width {
                    (Awaited::Char(all, width), KeyStep::More)
                } else if valid_utf8(all) {
                    (
                        Awaited::Key,
                        KeyStep::Event(AppEvent::Key(Key::Char(decode_utf8(all)[0]))),
                    )
                } else {
                    (Awaited::Key, KeyStep::Fail(KeyError::Malformed))
                }
            },
            None => (Awaited::Key, KeyStep::Fail(KeyError::UnexpectedEnd)),
        },
    }
}

/// `std::str::from_utf8`: the text that the bytes encode, `None` where they
/// are not UTF-8.
#[verifier::external_body]
fn utf8_text(bytes: &Vec<u8>) -> (text: Option<String>)
    ensures
        text is Some <==> valid_utf8(bytes@),
        text matches Some(text) ==> text@ == decode_utf8(bytes@),
{
    std::str::from_utf8(bytes).ok().map(str::to_owned)
}

/// How many bytes the character has that begins with this byte.
pub fn utf8_width(first_byte: u8) -> (width: Option<usize>)
    ensures
        match width {
            Some(width) => lead_width(first_byte) == Some(width as nat),
            None => lead_width(first_byte) is None,
        },
{
    if first_byte <= 0x7f {
        Some(1)
    } else if 0xc2 <= first_byte && first_byte <= 0xdf {
        Some(2)
    } else if 0xe0 <= first_byte && first_byte <= 0xef {
        Some(3)
    } else if 0xf0 <= first_byte && first_byte <= 0xf4 {
        Some(4)
    } else {
        None
    }
}

/// The states of the reader.
enum ReaderState {
    Key,
    Escape,
    Csi,
    CsiDigit(u8),
    Ss3,
    Char(Vec<u8>, usize),
}

/// Reads keys, one byte at a time.
pub struct KeyReader {
    state: ReaderState,
}

fn key_event(key: Key) -> (step: KeyStep)
    ensures
        step == KeyStep::Event(AppEvent::Key(key)),
{
    KeyStep::Event(AppEvent::Key(key))
}

impl KeyReader {
    /// What the reader is in the middle of.
    pub closed spec fn view(&self) -> Awaited {
        match self.state {
            ReaderState::Key => Awaited::Key,
            ReaderState::Escape => Awaited::Escape,
            ReaderState::Csi => Awaited::Csi,
            ReaderState::CsiDigit(digit) => Awaited::CsiDigit(digit),
            ReaderState::Ss3 => Awaited::Ss3,
            ReaderState::Char(bytes, width) => Awaited::Char(bytes@, width as nat),
        }
    }

    /// A reader at the start of a key.
    pub fn new() -> (reader: KeyReader)
        ensures
            reader@ == Awaited::Key,
    {
        KeyReader { state: ReaderState::Key }
    }

    fn read_first(&mut self, byte: u8) -> (step: KeyStep)
        requires
            old(self)@ == Awaited::Key,
        ensures
            (final(self)@, step) == first_byte(byte),
    {
        if byte == 0x04 {
            KeyStep::Event(AppEvent::Eof)
        } else if byte == 0x03 {
            KeyStep::Event(AppEvent::Interrupted)
        } else if byte == 0x16 {
            key_event(Key::Ctrl('v'))
        } else if byte == 0x0d || byte == 0x0a {
            key_event(Key::Enter)
        } else if byte == 0x09 {
            key_event(Key::Tab)
        } else if byte == 0x7f || byte == 0x08 {
            key_event(Key::Backspace)
        } else if byte == 0x1b {
            self.state = ReaderState::Escape;
            KeyStep::More
        } else if byte < 0x20 {
            KeyStep::Nothing
        } else if byte < 0x80 {
            key_event(Key::Char(byte as char))
        } else {
            match utf8_width(byte) {
                Some(width) => {
                    let mut bytes: Vec<u8> = Vec::new();
                    bytes.push(byte);
                    assert(bytes@ =~= seq![byte]);
                    self.state = ReaderState::Char(bytes, width);
                    KeyStep::More
                },
                None => KeyStep::Fail(KeyError::LeadByte),
            }
        }
    }

    /// Takes the next byte, or the news that there is none.
    pub fn read_event(&mut self, byte: Option<u8>) -> (step: KeyStep)
        ensures
            (final(self)@, step) == after_byte(old(self)@, byte),
    {
        let mut state: ReaderState = ReaderState::Key;
        std::mem::swap(&mut state, &mut self.state);
        match state {
            ReaderState::Key => match byte {
                Some(byte) => self.read_first(byte),
                None => KeyStep::Nothing,
            },
            ReaderState::Escape => match byte {
                Some(byte) => {
                    if byte == 91 {
                        self.state = ReaderState::Csi;
                        KeyStep::More
                    } else if byte == 79 {
                        self.state = ReaderState::Ss3;
                        KeyStep::More
                    } else {
                        key_event(Key::Esc)
                    }
                },
                None => key_event(Key::Esc),
            },
            ReaderState::Csi => match byte {
                Some(byte) => {
                    if byte == 49 || byte == 51 || byte == 52 || byte == 55 || byte == 56 {
                        self.state = ReaderState::CsiDigit(byte);
                        KeyStep::More
                    } else {
                        key_event(read_csi_sequence(byte))
                    }
                },
                None => key_event(Key::Esc),
            },
            ReaderState::CsiDigit(digit) => match byte {
                Some(byte) => key_event(read_csi_digit(digit, byte)),
                None => key_event(Key::Esc),
            },
            ReaderState::Ss3 => match byte {
                Some(byte) => {
                    if byte == 72 {
                        key_event(Key::Home)
                    } else if byte == 70 {
                        key_event(Key::End)
                    } else {
                        key_event(Key::Esc)
                    }
                },
                None => key_event(Key::Esc),
            },
            ReaderState::Char(bytes, width) => match byte {
                Some(byte) => {
                    let mut bytes: Vec<u8> = bytes;
                    bytes.push(byte);
                    if bytes.len() < width {
                        self.state = ReaderState::Char(bytes, width);
                        KeyStep::More
                    } else {
                        match utf8_text(&bytes) {
                            Some(text) => key_event(Key::Char(text.as_str().get_char(0))),
                            None => KeyStep::Fail(KeyError::Malformed),
                        }
                    }
                },
                None => KeyStep::Fail(KeyError::UnexpectedEnd),
            },
        }
    }
}

fn read_csi_sequence(byte: u8) -> (key: Key)
    ensures
        key == csi_key(byte),
{
    if byte == 65 {
        Key::Up
    } else if byte == 66 {
        Key::Down
    } else if byte == 67 {
        Key::Right
    } else if byte == 68 {
        Key::Left
    } else if byte == 72 {
        Key::Home
    } else if byte == 70 {
        Key::End
    } else {
        Key::Esc
    }
}

fn read_csi_digit(digit: u8, byte: u8) -> (key: Key)
    ensures
        key == csi_digit_key(digit, byte),
{
    if byte != 126 {
        Key::Esc
    } else if digit == 49 || digit == 55 {
        Key::Home
    } else if digit == 51 {
        Key::Delete
    } else if digit == 52 || digit == 56 {
        Key::End
    } else {
        Key::Esc
    }
}

// ---------------------------------------------------------------------------
// Laws
// ---------------------------------------------------------------------------
/// Whatever is complete, means nothing or fails leaves the reader at the start
/// of a key.
pub proof fn reader_starts_over(awaited: Awaited, byte: Option<u8>)
    ensures
        after_byte(awaited, byte).1 is More <==> !(after_byte(awaited, byte).0 is Key),
{
}

/// How many more bytes can be awaited at most.
pub open spec fn bytes_left(awaited: Awaited) -> nat {
    match awaited {
        Awaited::Key => 4,
        Awaited::Escape => 3,
        Awaited::Csi => 2,
        Awaited::CsiDigit(_) => 1,
        Awaited::Ss3 => 1,
        Awaited::Char(bytes, width) => (width - bytes.len()) as nat,
    }
}

/// A key never takes more than four bytes: each byte brings its end nearer.
pub proof fn keys_end(awaited: Awaited, byte: Option<u8>)
    requires
        awaited matches Awaited::Char(bytes, width) ==> 0 < bytes.len() < width <= 4,
    ensures
        ({
            let (next, step) = after_byte(awaited, byte);
            &&& step is More ==> bytes_left(next) < bytes_left(awaited)
            &&& next matches Awaited::Char(bytes, width) ==> 0 < bytes.len() < width <= 4
        }),
{
}

/// What came of the last of some bytes.
pub open spec fn after_bytes(awaited: Awaited, bytes: Seq<u8>) -> (Awaited, KeyStep)
    decreases bytes.len(),
{
    if bytes.len() <= 1 {
        after_byte(awaited, Some(bytes[0]))
    } else {
        after_bytes(after_byte(awaited, Some(bytes[0])).0, bytes.skip(1))
    }
}

proof fn lemma_lead_bytes(scalar: u32)
    by (bit_vector)
    ensures
        scalar <= 0x7f ==> leading_byte_width_1(scalar) == scalar,
        0x80 <= scalar <= 0x7ff ==> 0xc2 <= leading_byte_width_2(scalar) <= 0xdf,
        0x800 <= scalar <= 0xffff ==> 0xe0 <= leading_byte_width_3(scalar) <= 0xef,
        0x10000 <= scalar <= 0x10ffff ==> 0xf0 <= leading_byte_width_4(scalar) <= 0xf4,
{
}

/// Every character that is typed is read as itself, but for the control
/// characters of ASCII, which are keys of their own.
pub proof fn typed_character_is_read(ch: char)
    requires
        ch >= ' ',
        ch != '\u{7F}',
    ensures
        after_bytes(Awaited::Key, encode_utf8(seq![ch])) == (
            Awaited::Key,
            KeyStep::Event(AppEvent::Key(Key::Char(ch))),
        ),
{
    let scalar = ch as u32;
    let bytes = encode_utf8(seq![ch]);
    lemma_lead_bytes(scalar);
    encode_utf8_valid_utf8(seq![ch]);
    encode_utf8_decode_utf8(seq![ch]);
    assert(seq![ch].drop_first() =~= Seq::<char>::empty());
    assert(encode_utf8(Seq::<char>::empty()) =~= Seq::<u8>::empty());
    assert(bytes =~= encode_scalar(scalar));
    reveal_with_fuel(after_bytes, 4);
    if scalar <= 0x7f {
        assert(bytes[0] == scalar);
    } else if scalar <= 0x7ff {
        assert(seq![bytes[0]].push(bytes[1]) =~= bytes);
    } else if scalar <= 0xffff {
        assert(seq![bytes[0]].push(bytes[1]).push(bytes[2]) =~= bytes);
        assert(bytes.skip(1)[0] == bytes[1]);
        assert(bytes.skip(1).skip(1)[0] == bytes[2]);
    } else {
        assert(seq![bytes[0]].push(bytes[1]).push(bytes[2]).push(bytes[3]) =~= bytes);
        assert(bytes.skip(1)[0] == bytes[1]);
        assert(bytes.skip(1).skip(1)[0] == bytes[2]);
        assert(bytes.skip(1).skip(1).skip(1)[0] == bytes[3]);
    }
}

/// The keys that are no characters are read by their bytes: the control
/// characters by one, the arrows and the others by what follows an escape. An
/// escape that nothing else follows is the escape key.
pub proof fn special_keys_are_read(byte: u8, other: u8)
    ensures
        ({
            let key = |key: Key| (Awaited::Key, KeyStep::Event(AppEvent::Key(key)));
            let read = |bytes: Seq<u8>| after_bytes(Awaited::Key, bytes);
            &&& byte == 4 ==> read(seq![byte]) == (Awaited::Key, KeyStep::Event(AppEvent::Eof))
            &&& byte == 3 ==> read(seq![byte]) == (
                Awaited::Key,
                KeyStep::Event(AppEvent::Interrupted),
            )
            &&& byte == 10 || byte == 13 ==> read(seq![byte]) == key(Key::Enter)
            &&& byte == 9 ==> read(seq![byte]) == key(Key::Tab)
            &&& byte == 8 || byte == 127 ==> read(seq![byte]) == key(Key::Backspace)
            &&& byte == 22 ==> read(seq![byte]) == key(Key::Ctrl('v'))
            &&& byte < 32 && byte != 3 && byte != 4 && byte != 8 && byte != 9 && byte != 10 && byte
                != 13 && byte != 22 && byte != 27 ==> read(seq![byte]).1 is Nothing
            &&& byte == 65 ==> read(seq![27, 91, byte]) == key(Key::Up)
            &&& byte == 66 ==> read(seq![27, 91, byte]) == key(Key::Down)
            &&& byte == 67 ==> read(seq![27, 91, byte]) == key(Key::Right)
            &&& byte == 68 ==> read(seq![27, 91, byte]) == key(Key::Left)
            &&& byte == 72 ==> read(seq![27, 91, byte]) == key(Key::Home) && read(
                seq![27, 79, byte],
            ) == key(Key::Home)
            &&& byte == 70 ==> read(seq![27, 91, byte]) == key(Key::End) && read(
                seq![27, 79, byte],
            ) == key(Key::End)
            &&& (byte == 49 || byte == 55) && other == 126 ==> read(seq![27, 91, byte, other])
                == key(Key::Home)
            &&& byte == 51 && other == 126 ==> read(seq![27, 91, byte, other]) == key(Key::Delete)
            &&& (byte == 52 || byte == 56) && other == 126 ==> read(seq![27, 91, byte, other])
                == key(Key::End)
            &&& byte != 91 && byte != 79 ==> read(seq![27, byte]) == key(Key::Esc)
            &&& after_byte(Awaited::Escape, None) == key(Key::Esc)
        }),
{
    reveal_with_fuel(after_bytes, 5);
    let one = seq![27u8, 91, byte];
    assert(one.skip(1) =~= seq![91u8, byte]);
    assert(one.skip(1).skip(1) =~= seq![byte]);
    let two = seq![27u8, 79, byte];
    assert(two.skip(1) =~= seq![79u8, byte]);
    assert(two.skip(1).skip(1) =~= seq![byte]);
    let three = seq![27u8, 91, byte, other];
    assert(three.skip(1) =~= seq![91u8, byte, other]);
    assert(three.skip(1).skip(1) =~= seq![byte, other]);
    assert(three.skip(1).skip(1).skip(1) =~= seq![other]);
    assert(seq![27u8, byte].skip(1) =~= seq![byte]);
}

} // verus!
