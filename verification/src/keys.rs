//! WireGuard key material and its hexadecimal form.

use crate::numeral;
use vstd::prelude::*;

verus! {

/// Number of bytes of a key.
pub const KEY_LENGTH: usize = 32;

/// The lower-case hexadecimal form of `bytes`: two digits each, the high one first.
pub open spec fn hex_text(bytes: Seq<u8>) -> Seq<char> {
    Seq::new(
        2 * bytes.len(),
        |i: int|
            if i % 2 == 0 {
                numeral::digit_char(bytes[i / 2] as int / 16)
            } else {
                numeral::digit_char(bytes[i / 2] as int % 16)
            },
    )
}

/// Whether every byte is a hexadecimal digit, in either case.
pub open spec fn is_hex(bytes: Seq<u8>) -> bool {
    forall|i: int| 0 <= i < bytes.len() ==> is_hex_digit(#[trigger] bytes[i])
}

/// Whether the byte is a hexadecimal digit, in either case.
pub open spec fn is_hex_digit(byte: u8) -> bool {
    numeral::digit_value(byte as char, 16) is Some
}

/// The bytes that pairs of hexadecimal digits stand for.
pub open spec fn hex_bytes(digits: Seq<u8>) -> Seq<u8> {
    Seq::new(
        digits.len() / 2,
        |i: int|
            (numeral::digit_value(digits[2 * i] as char, 16).unwrap() * 16 + numeral::digit_value(
                digits[2 * i + 1] as char,
                16,
            ).unwrap()) as u8,
    )
}

/// Why a text is not hexadecimal.
#[derive(Clone, Copy, Debug, PartialEq, Eq, Structural)]
pub enum HexError {
    /// The byte at `index`, shown as the character `c`, is no hexadecimal digit.
    InvalidHexCharacter { c: char, index: usize },
    /// The number of bytes is odd.
    OddLength,
    /// The number of bytes does not fit the target.
    InvalidStringLength,
}

/// The place of the first byte from `start` on that is no hexadecimal digit.
pub open spec fn first_non_hex(bytes: Seq<u8>, start: int) -> int
    decreases bytes.len() - start,
{
    if start >= bytes.len() || !is_hex_digit(bytes[start]) {
        start
    } else {
        first_non_hex(bytes, start + 1)
    }
}

/// What hexadecimal digits are read as: an odd number of them is refused first, then the
/// first byte that is no digit.
pub open spec fn hex_read(bytes: Seq<u8>) -> Result<Seq<u8>, HexError> {
    let place = first_non_hex(bytes, 0);
    if bytes.len() % 2 != 0 {
        Err(HexError::OddLength)
    } else if place < bytes.len() {
        Err(HexError::InvalidHexCharacter { c: bytes[place] as char, index: place as usize })
    } else {
        Ok(hex_bytes(bytes))
    }
}

/// The result of a decode, its bytes seen as a sequence.
pub open spec fn decode_view(result: Result<Vec<u8>, HexError>) -> Result<Seq<u8>, HexError> {
    match result {
        Ok(bytes) => Ok(bytes@),
        Err(error) => Err(error),
    }
}

/// `hex::decode` on the UTF-8 form of the text. An odd number of bytes is refused
/// first, then the first byte that is no hexadecimal digit; otherwise each pair of
/// digits, in either case, gives one byte.
#[verifier::external_body]
fn hex_decode(text: &str) -> (result: Result<Vec<u8>, HexError>)
    ensures
        decode_view(result) == hex_read(vstd::utf8::encode_utf8(text@)),
{
    match hex::decode(text) {
        Ok(bytes) => Ok(bytes),
        Err(hex::FromHexError::InvalidHexCharacter { c, index }) => {
            Err(HexError::InvalidHexCharacter { c, index })
        },
        Err(hex::FromHexError::OddLength) => Err(HexError::OddLength),
        Err(hex::FromHexError::InvalidStringLength) => Err(HexError::InvalidStringLength),
    }
}

/// `hex::encode`: two lower-case hexadecimal digits for each byte.
#[verifier::external_body]
fn hex_encode(bytes: &[u8]) -> (text: String)
    ensures
        text@ == hex_text(bytes@),
{
    hex::encode(bytes)
}

/// The X25519 public key of a secret key.
pub uninterp spec fn x25519_public_key(secret: Seq<u8>) -> Seq<u8>;

/// `PublicKey::from` of the x25519 types that gotatun exports, from a `StaticSecret`
/// of these bytes to the bytes of the public key. The public key depends on the
/// secret key alone; the curve arithmetic behind it is not stated.
#[verifier::external_body]
fn public_key_of(secret: &[u8; 32]) -> (public: [u8; 32])
    ensures
        public@ == x25519_public_key(secret@),
{
    *gotatun::x25519::PublicKey::from(&gotatun::x25519::StaticSecret::from(*secret)).as_bytes()
}

/// `StaticSecret::from` and `StaticSecret::to_bytes` of the x25519 types that gotatun
/// exports: a secret key keeps the bytes that it was made of.
#[verifier::external_body]
pub(crate) fn secret_key_of(seed: [u8; 32]) -> (secret: [u8; 32])
    ensures
        secret@ == seed@,
{
    gotatun::x25519::StaticSecret::from(seed).to_bytes()
}

/// `rand::random`: thirty-two random bytes. Nothing holds of every outcome, so nothing is
/// stated. It panics where the operating system has no randomness to give.
#[verifier::external_body]
pub(crate) fn random_bytes() -> (bytes: [u8; 32]) {
    rand::random::<[u8; 32]>()
}

/// The hexadecimal form of a key.
pub fn encode_key(key: &[u8; 32]) -> (text: String)
    ensures
        text@ == hex_text(key@),
{
    hex_encode(key.as_slice())
}

/// The public key that belongs to a secret key.
pub fn public_key(secret: &[u8; 32]) -> (public: [u8; 32])
    ensures
        public@ == x25519_public_key(secret@),
{
    public_key_of(secret)
}

/// Why a text is not a key.
#[derive(Clone, Copy, Debug, PartialEq, Eq, Structural)]
pub enum KeyError {
    /// The text is not hexadecimal.
    InvalidHexadecimal(HexError),
    /// The text does not stand for thirty-two bytes.
    WrongLength,
}

impl KeyError {
    /// What is wrong, in words.
    pub open spec fn words(self) -> Seq<char> {
        match self {
            KeyError::InvalidHexadecimal(_) => "invalid hexadecimal key"@,
            KeyError::WrongLength => "key must be 32 bytes"@,
        }
    }

    /// What is wrong, in words.
    pub fn message(&self) -> (message: String)
        ensures
            message@ == self.words(),
    {
        match self {
            KeyError::InvalidHexadecimal(_) => "invalid hexadecimal key".to_owned(),
            KeyError::WrongLength => "key must be 32 bytes".to_owned(),
        }
    }
}

/// What a text is as a key.
pub open spec fn key_read(text: Seq<char>) -> Result<Seq<u8>, KeyError> {
    match hex_read(vstd::utf8::encode_utf8(text)) {
        Err(error) => Err(KeyError::InvalidHexadecimal(error)),
        Ok(bytes) => if bytes.len() == KEY_LENGTH {
            Ok(bytes)
        } else {
            Err(KeyError::WrongLength)
        },
    }
}

/// The result of decoding a key, its bytes seen as a sequence.
pub open spec fn key_view(result: Result<[u8; 32], KeyError>) -> Result<Seq<u8>, KeyError> {
    match result {
        Ok(key) => Ok(key@),
        Err(error) => Err(error),
    }
}

/// The key made of `bytes`, where they are as many as a key has.
pub fn key_from_bytes(bytes: &[u8]) -> (result: Result<[u8; 32], KeyError>)
    ensures
        key_view(result) == (if bytes@.len() == KEY_LENGTH {
            Ok(bytes@)
        } else {
            Err(KeyError::WrongLength)
        }),
{
    if bytes.len() != KEY_LENGTH {
        return Err(KeyError::WrongLength);
    }
    let mut key: [u8; 32] = [0u8; 32];
    let mut i: usize = 0;
    while i < KEY_LENGTH
        invariant
            i <= KEY_LENGTH,
            bytes@.len() == KEY_LENGTH,
            key@.len() == KEY_LENGTH,
            key@.take(i as int) == bytes@.take(i as int),
        decreases KEY_LENGTH - i,
    {
        key[i] = bytes[i];
        proof {
            assert(key@.take(i + 1) == key@.take(i as int).push(bytes@[i as int]));
            assert(bytes@.take(i + 1) == bytes@.take(i as int).push(bytes@[i as int]));
        }
        i = i + 1;
    }
    assert(key@.take(KEY_LENGTH as int) == key@);
    assert(bytes@.take(KEY_LENGTH as int) == bytes@);
    Ok(key)
}

/// The key that a hexadecimal text stands for.
pub fn decode_key(value: &str) -> (result: Result<[u8; 32], KeyError>)
    ensures
        key_view(result) == key_read(value@),
{
    match hex_decode(value) {
        Err(error) => Err(KeyError::InvalidHexadecimal(error)),
        Ok(bytes) => key_from_bytes(bytes.as_slice()),
    }
}

/// All bytes are hexadecimal digits exactly where no first one is found that is none.
proof fn lemma_first_non_hex(bytes: Seq<u8>, start: int)
    requires
        0 <= start <= bytes.len(),
    ensures
        start <= first_non_hex(bytes, start) <= bytes.len(),
        first_non_hex(bytes, start) == bytes.len() <==> (forall|i: int|
            start <= i < bytes.len() ==> is_hex_digit(#[trigger] bytes[i])),
    decreases bytes.len() - start,
{
    if start < bytes.len() && is_hex_digit(bytes[start]) {
        lemma_first_non_hex(bytes, start + 1);
    }
}

/// The UTF-8 form of ASCII characters has one byte for each, with its number.
proof fn lemma_ascii_bytes(text: Seq<char>)
    requires
        vstd::utf8::is_ascii_chars(text),
    ensures
        vstd::utf8::encode_utf8(text).len() == text.len(),
        forall|i: int|
            0 <= i < text.len() ==> #[trigger] vstd::utf8::encode_utf8(text)[i] as char == text[i],
{
    vstd::utf8::is_ascii_chars_encode_utf8(text);
    assert forall|i: int| 0 <= i < text.len() implies #[trigger] vstd::utf8::encode_utf8(
        text,
    )[i] as char == text[i] by {
        assert(text[i] as u8 == vstd::utf8::encode_utf8(text)[i]);
        assert(text[i] as u32 <= 127);
    }
}

/// A text whose UTF-8 form holds hexadecimal digits only is ASCII.
proof fn lemma_hex_is_ascii(text: Seq<char>)
    requires
        is_hex(vstd::utf8::encode_utf8(text)),
    ensures
        vstd::utf8::is_ascii_chars(text),
    decreases text.len(),
{
    if text.len() > 0 {
        let bytes = vstd::utf8::encode_utf8(text);
        let first = vstd::utf8::encode_scalar(text[0] as u32);
        let rest = vstd::utf8::encode_utf8(text.drop_first());
        assert(bytes == first + rest);
        assert forall|i: int| 0 <= i < rest.len() implies is_hex_digit(#[trigger] rest[i]) by {
            assert(rest[i] == bytes[first.len() + i]);
        }
        lemma_hex_is_ascii(text.drop_first());
        let c = text[0] as u32;
        vstd::utf8::char_u32_cast(text[0], c);
        assert(is_hex_digit(bytes[0]));
        assert(bytes[0] == first[0]);
        if c > 0x7f {
            assert(vstd::utf8::leading_byte_width_2(c) >= 0x80) by (bit_vector);
            assert(vstd::utf8::leading_byte_width_3(c) >= 0x80) by (bit_vector);
            assert(vstd::utf8::leading_byte_width_4(c) >= 0x80) by (bit_vector);
            assert(first[0] >= 0x80);
            assert(false);
        }
        assert forall|i: int| 0 <= i < text.len() implies '\0' <= #[trigger] text[i] <= '\u{7f}' by {
            if i > 0 {
                assert(text[i] == text.drop_first()[i - 1]);
            }
        }
    }
}

/// A key's text is sixty-four hexadecimal digits, in either case, and any such text is
/// a key.
pub proof fn keys_are_hexadecimal_digits(text: Seq<char>)
    ensures
        key_read(text) is Ok <==> text.len() == 2 * KEY_LENGTH && numeral::all_digits(text, 16),
{
    let bytes = vstd::utf8::encode_utf8(text);
    lemma_first_non_hex(bytes, 0);
    if numeral::all_digits(text, 16) {
        assert forall|i: int| 0 <= i < text.len() implies '\0' <= #[trigger] text[i] <= '\u{7f}' by {
            assert(numeral::digit_value(text[i], 16) is Some);
        }
        lemma_ascii_bytes(text);
        assert forall|i: int| 0 <= i < bytes.len() implies is_hex_digit(#[trigger] bytes[i]) by {
            assert(numeral::digit_value(text[i], 16) is Some);
        }
    }
    if key_read(text) is Ok {
        lemma_hex_is_ascii(text);
        lemma_ascii_bytes(text);
        assert forall|i: int| 0 <= i < text.len() implies numeral::digit_value(
            #[trigger] text[i],
            16,
        ) is Some by {
            assert(is_hex_digit(bytes[i]));
        }
    }
}

/// A text of hexadecimal digits, two for each byte, for any number of bytes but
/// thirty-two, is refused for its length alone.
pub proof fn other_lengths_are_refused(text: Seq<char>)
    requires
        numeral::all_digits(text, 16),
        text.len() % 2 == 0,
        text.len() != 2 * KEY_LENGTH,
    ensures
        key_read(text) == Err::<Seq<u8>, KeyError>(KeyError::WrongLength),
{
    let bytes = vstd::utf8::encode_utf8(text);
    assert forall|i: int| 0 <= i < text.len() implies '\0' <= #[trigger] text[i] <= '\u{7f}' by {
        assert(numeral::digit_value(text[i], 16) is Some);
    }
    lemma_ascii_bytes(text);
    assert forall|i: int| 0 <= i < bytes.len() implies is_hex_digit(#[trigger] bytes[i]) by {
        assert(numeral::digit_value(text[i], 16) is Some);
    }
    lemma_first_non_hex(bytes, 0);
}

/// Decoding the hexadecimal form of a key gives the key back.
pub proof fn encoded_key_decodes(key: Seq<u8>)
    requires
        key.len() == KEY_LENGTH,
    ensures
        key_read(hex_text(key)) == Ok::<Seq<u8>, KeyError>(key),
{
    let text = hex_text(key);
    let bytes = vstd::utf8::encode_utf8(text);
    assert forall|i: int| 0 <= i < text.len() implies '\0' <= #[trigger] text[i] <= '\u{7f}' by {
        assert(0 <= key[i / 2] as int / 16 < 16);
        assert(0 <= key[i / 2] as int % 16 < 16);
    }
    lemma_ascii_bytes(text);
    assert forall|i: int| 0 <= i < bytes.len() implies is_hex_digit(#[trigger] bytes[i]) by {
        assert(bytes[i] as char == text[i]);
        assert(0 <= key[i / 2] as int / 16 < 16);
        assert(0 <= key[i / 2] as int % 16 < 16);
    }
    lemma_first_non_hex(bytes, 0);
    assert(hex_bytes(bytes) =~= key) by {
        assert forall|i: int| 0 <= i < KEY_LENGTH implies hex_bytes(bytes)[i] == key[i] by {
            let high = key[i] as int / 16;
            let low = key[i] as int % 16;
            assert(0 <= high < 16 && 0 <= low < 16 && high * 16 + low == key[i]);
            assert((2 * i) / 2 == i && (2 * i) % 2 == 0);
            assert((2 * i + 1) / 2 == i && (2 * i + 1) % 2 == 1);
            assert(bytes[2 * i] as char == text[2 * i]);
            assert(bytes[2 * i + 1] as char == text[2 * i + 1]);
            assert(text[2 * i] == numeral::digit_char(high));
            assert(text[2 * i + 1] == numeral::digit_char(low));
            assert(numeral::digit_value(numeral::digit_char(high), 16) == Some(high));
            assert(numeral::digit_value(numeral::digit_char(low), 16) == Some(low));
        }
    }
}

/// The hexadecimal form of bytes is that of each byte in its order: the digit of its
/// sixteens, then the digit of its ones, letters in lower case.
pub proof fn hex_text_grows_by_a_byte(bytes: Seq<u8>, byte: u8)
    ensures
        hex_text(Seq::empty()) == Seq::<char>::empty(),
        hex_text(bytes.push(byte)) == hex_text(bytes) + numeral::numeral(byte as int / 16, 16)
            + numeral::numeral(byte as int % 16, 16),
{
    let longer = bytes.push(byte);
    let high = numeral::numeral(byte as int / 16, 16);
    let low = numeral::numeral(byte as int % 16, 16);
    assert(high == seq![numeral::digit_char(byte as int / 16)]);
    assert(low == seq![numeral::digit_char(byte as int % 16)]);
    assert(hex_text(Seq::empty()) == Seq::<char>::empty());
    assert(hex_text(longer) == hex_text(bytes) + high + low) by {
        assert forall|i: int| 0 <= i < 2 * longer.len() implies hex_text(longer)[i] == (hex_text(
            bytes,
        ) + high + low)[i] by {
            if i < 2 * bytes.len() {
                assert(longer[i / 2] == bytes[i / 2]);
            } else {
                assert(i / 2 == bytes.len());
            }
        }
    }
}

/// A text that is read as a key has two digits for each byte of the key, in their order:
/// sixteen times the first and the second make the byte, letters in either case alike.
pub proof fn keys_are_read_two_digits_a_byte(text: Seq<char>, key: Seq<u8>)
    requires
        key_read(text) == Ok::<Seq<u8>, KeyError>(key),
    ensures
        key.len() == 32,
        text.len() == 64,
        forall|i: int|
            0 <= i < 32 ==> #[trigger] key[i] == 16 * numeral::digit_value(text[2 * i], 16).unwrap()
                + numeral::digit_value(text[2 * i + 1], 16).unwrap(),
{
    let bytes = vstd::utf8::encode_utf8(text);
    keys_are_hexadecimal_digits(text);
    assert forall|i: int| 0 <= i < text.len() implies '\0' <= #[trigger] text[i] <= '\u{7f}' by {
        assert(numeral::digit_value(text[i], 16) is Some);
    }
    lemma_ascii_bytes(text);
    assert forall|i: int| 0 <= i < 32 implies #[trigger] key[i] == 16 * numeral::digit_value(
        text[2 * i],
        16,
    ).unwrap() + numeral::digit_value(text[2 * i + 1], 16).unwrap() by {
        assert(key[i] == hex_bytes(bytes)[i]);
        assert(bytes[2 * i] as char == text[2 * i]);
        assert(bytes[2 * i + 1] as char == text[2 * i + 1]);
        assert(numeral::digit_value(text[2 * i], 16) is Some);
        assert(numeral::digit_value(text[2 * i + 1], 16) is Some);
    }
}

/// The fault of a text that is no key. Where the number of its bytes is odd, that is the
/// fault, whatever they are; otherwise it is the first byte that is no hexadecimal digit,
/// told with its place.
pub proof fn first_fault_of_a_key_is_told(text: Seq<char>, index: int)
    ensures
        ({
            let bytes = vstd::utf8::encode_utf8(text);
            &&& bytes.len() % 2 == 1 ==> key_read(text) == Err::<Seq<u8>, KeyError>(
                KeyError::InvalidHexadecimal(HexError::OddLength),
            )
            &&& bytes.len() % 2 == 0 && 0 <= index < bytes.len() && numeral::digit_value(
                bytes[index] as char,
                16,
            ) is None && (forall|i: int|
                0 <= i < index ==> numeral::digit_value(#[trigger] bytes[i] as char, 16) is Some)
                ==> key_read(text) == Err::<Seq<u8>, KeyError>(
                KeyError::InvalidHexadecimal(
                    HexError::InvalidHexCharacter {
                        c: bytes[index] as char,
                        index: index as usize,
                    },
                ),
            )
        }),
{
    let bytes = vstd::utf8::encode_utf8(text);
    if 0 <= index < bytes.len() && !is_hex_digit(bytes[index]) && (forall|i: int|
        0 <= i < index ==> numeral::digit_value(#[trigger] bytes[i] as char, 16) is Some) {
        lemma_first_is_found(bytes, 0, index);
    }
}

/// The first byte that is no hexadecimal digit is found.
proof fn lemma_first_is_found(bytes: Seq<u8>, start: int, index: int)
    requires
        0 <= start <= index < bytes.len(),
        !is_hex_digit(bytes[index]),
        forall|i: int| start <= i < index ==> is_hex_digit(#[trigger] bytes[i]),
    ensures
        first_non_hex(bytes, start) == index,
    decreases index - start,
{
    if start < index {
        assert(is_hex_digit(bytes[start]));
        lemma_first_is_found(bytes, start + 1, index);
    }
}

/// A key is seen as its bytes, and a fault as itself.
pub proof fn keys_are_seen_as_they_are(
    key: [u8; 32],
    bytes: Vec<u8>,
    error: KeyError,
    fault: HexError,
)
    ensures
        key_view(Ok(key)) == Ok::<Seq<u8>, KeyError>(key@),
        key_view(Err(error)) == Err::<Seq<u8>, KeyError>(error),
        decode_view(Ok(bytes)) == Ok::<Seq<u8>, HexError>(bytes@),
        decode_view(Err(fault)) == Err::<Seq<u8>, HexError>(fault),
{
}

} // verus!
