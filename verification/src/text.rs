//! Host text on its way to and from the engine.
//!
//! The engine takes text as a C string: the UTF-8 bytes of the text followed
//! by a zero byte. It gives text back by writing such a C string into a buffer
//! and reporting how many bytes it wrote, the zero byte included.
use vstd::prelude::*;
use vstd::string::*;
use vstd::utf8::*;

verus! {

/// Host text that cannot be made into a C string: a zero byte stands at
/// `position` of its UTF-8 bytes, and none stands before it.
#[derive(Clone, Copy, Debug, PartialEq, Eq, Structural)]
pub struct NulError {
    pub position: usize,
}

/// Why the bytes that the engine wrote are not host text.
#[derive(Clone, Copy, Debug, PartialEq, Eq, Structural)]
pub enum TextError {
    /// Nothing was written, or what was written does not end in a zero byte.
    NotTerminated,
    /// The bytes before the final zero byte are not UTF-8.
    InvalidUtf8,
}

/// The C string of a text: its UTF-8 bytes and a final zero byte.
pub open spec fn c_string(text: Seq<char>) -> Seq<u8> {
    encode_utf8(text).push(0u8)
}

/// Whether a zero byte stands among the UTF-8 bytes of a text.
pub open spec fn has_nul(text: Seq<char>) -> bool {
    exists|i: int| 0 <= i < encode_utf8(text).len() && encode_utf8(text)[i] == 0u8
}

/// Whether `position` is where the first zero byte of `bytes` stands.
pub open spec fn first_nul_at(bytes: Seq<u8>, position: int) -> bool {
    &&& 0 <= position < bytes.len()
    &&& bytes[position] == 0u8
    &&& forall|i: int| 0 <= i < position ==> bytes[i] != 0u8
}

/// How many bytes of a buffer count as written: the number reported, but no
/// more than the buffer holds.
pub open spec fn kept(buffer: Seq<u8>, written: nat) -> nat {
    if written <= buffer.len() {
        written
    } else {
        buffer.len()
    }
}

/// Whether the written part of a buffer ends in a zero byte.
pub open spec fn terminated(buffer: Seq<u8>, written: nat) -> bool {
    kept(buffer, written) >= 1 && buffer[kept(buffer, written) - 1] == 0u8
}

/// The written part of a buffer without its final byte.
pub open spec fn payload(buffer: Seq<u8>, written: nat) -> Seq<u8> {
    buffer.take(kept(buffer, written) - 1)
}

/// The host text that a buffer holds after the engine wrote `written` bytes
/// into it, or why it holds none.
pub open spec fn buffer_text(buffer: Seq<u8>, written: nat) -> Result<Seq<char>, TextError> {
    if !terminated(buffer, written) {
        Err(TextError::NotTerminated)
    } else if !valid_utf8(payload(buffer, written)) {
        Err(TextError::InvalidUtf8)
    } else {
        Ok(decode_utf8(payload(buffer, written)))
    }
}

/// Finds the first zero byte.
pub fn first_nul(bytes: &[u8]) -> (found: Option<usize>)
    ensures
        match found {
            Some(position) => first_nul_at(bytes@, position as int),
            None => forall|i: int| 0 <= i < bytes@.len() ==> bytes@[i] != 0u8,
        },
{
    let mut i: usize = 0;
    while i < bytes.len()
        invariant
            i <= bytes@.len(),
            forall|j: int| 0 <= j < i ==> bytes@[j] != 0u8,
        decreases bytes@.len() - i,
    {
        if bytes[i] == 0 {
            return Some(i);
        }
        i += 1;
    }
    None
}

/// Makes the C string of a host text.
///
/// Fails exactly when a zero byte stands among the text's UTF-8 bytes, and
/// then says where the first one stands.
pub fn c_string_bytes(text: &str) -> (made: Result<Vec<u8>, NulError>)
    ensures
        match made {
            Ok(bytes) => !has_nul(text@) && bytes@ == c_string(text@),
            Err(error) => has_nul(text@) && first_nul_at(encode_utf8(text@), error.position as int),
        },
{
    match first_nul(text.as_bytes()) {
        Some(position) => Err(NulError { position }),
        None => {
            let mut bytes = text.as_bytes_vec();
            bytes.push(0u8);
            Ok(bytes)
        },
    }
}

/// `String::from_utf8` of the standard library, with the error dropped.
///
/// The contract claims what the documentation of that function says: it
/// succeeds exactly on bytes that are UTF-8, and the string it then returns
/// holds those bytes.
#[verifier::external_body]
fn string_from_utf8(bytes: Vec<u8>) -> (made: Option<String>)
    ensures
        made is Some <==> valid_utf8(bytes@),
        made matches Some(text) ==> encode_utf8(text@) == bytes@,
{
    match String::from_utf8(bytes) {
        Ok(text) => Some(text),
        Err(_) => None,
    }
}

/// Reads the host text out of a buffer into which the engine wrote a C string.
///
/// The buffer is cut to the bytes written, the final zero byte is taken off,
/// and what is left is checked to be UTF-8.
pub fn text_from_buffer(buffer: Vec<u8>, written: usize) -> (read: Result<String, TextError>)
    ensures
        reads_as(read, buffer@, written as nat),
{
    let mut bytes = buffer;
    bytes.truncate(written);
    let last = bytes.pop();
    match last {
        Some(0u8) => {
            assert(bytes@ == payload(buffer@, written as nat));
            match string_from_utf8(bytes) {
                Some(text) => {
                    proof {
                        encode_utf8_decode_utf8(text@);
                    }
                    Ok(text)
                },
                None => Err(TextError::InvalidUtf8),
            }
        },
        _ => Err(TextError::NotTerminated),
    }
}

/// Text survives the way to the engine and back.
///
/// Take any text that holds no zero character, and any buffer that starts
/// with the C string of that text, as it does once the engine has written
/// back a string made from it. The text has a C string, and reading the
/// buffer, with the length of that C string as the number of bytes written,
/// gives the text again.
pub proof fn lemma_round_trip(text: Seq<char>, buffer: Seq<u8>)
    requires
        forall|i: int| 0 <= i < text.len() ==> text[i] != '\0',
        c_string(text).len() <= buffer.len(),
        buffer.take(c_string(text).len() as int) == c_string(text),
    ensures
        !has_nul(text),
        buffer_text(buffer, c_string(text).len()) == Ok::<Seq<char>, TextError>(text),
{
    lemma_nul_byte_is_nul_char(text);
    let written = c_string(text).len();
    let bytes = encode_utf8(text);
    assert(kept(buffer, written) == written);
    assert(buffer[written - 1] == buffer.take(written as int)[written - 1]);
    assert(payload(buffer, written) =~= bytes) by {
        assert forall|i: int| 0 <= i < bytes.len() implies buffer.take(written - 1)[i] == bytes[i] by {
            assert(buffer.take(written as int)[i] == c_string(text)[i]);
        }
    }
    encode_utf8_valid_utf8(text);
    encode_utf8_decode_utf8(text);
}

/// Whether a result of reading text says what `buffer_text` says of the
/// buffer and the number of bytes written.
pub open spec fn reads_as(read: Result<String, TextError>, buffer: Seq<u8>, written: nat) -> bool {
    match read {
        Ok(text) => buffer_text(buffer, written) == Ok::<Seq<char>, TextError>(text@),
        Err(error) => buffer_text(buffer, written) == Err::<Seq<char>, TextError>(error),
    }
}

/// Text made of ASCII characters other than the zero character has no zero
/// byte among its UTF-8 bytes.
pub proof fn lemma_ascii_without_zero_has_no_nul(text: Seq<char>)
    requires
        forall|i: int| 0 <= i < text.len() ==> '\u{1}' <= #[trigger] text[i] <= '\u{7f}',
    ensures
        !has_nul(text),
{
    assert(is_ascii_chars(text));
    is_ascii_chars_encode_utf8(text);
    assert forall|i: int| 0 <= i < encode_utf8(text).len() implies encode_utf8(text)[i] != 0u8 by {
        assert(text[i] as u8 == encode_utf8(text)[i]);
        assert('\u{1}' <= text[i] <= '\u{7f}');
    }
}

/// Among the UTF-8 bytes of one character, a zero byte stands exactly where
/// the character is the zero character.
proof fn lemma_zero_byte_of_scalar(scalar: u32)
    requires
        is_scalar(scalar),
    ensures
        (exists|j: int| 0 <= j < encode_scalar(scalar).len() && encode_scalar(scalar)[j] == 0u8)
            <==> scalar == 0,
{
    let bytes = encode_scalar(scalar);
    if has_width_1_encoding(scalar) {
        assert(((scalar & 0x7F) as u8 == 0u8) <==> scalar == 0) by (bit_vector)
            requires
                scalar <= 0x7F,
        ;
        assert(bytes[0] == leading_byte_width_1(scalar));
        if scalar != 0 {
            assert forall|j: int| 0 <= j < bytes.len() implies bytes[j] != 0u8 by {
                assert(j == 0);
            }
        }
    } else {
        assert(forall|low: u8| 0x80u8 | low != 0u8) by (bit_vector);
        assert(forall|low: u8| 0xC0u8 | low != 0u8) by (bit_vector);
        assert(forall|low: u8| 0xE0u8 | low != 0u8) by (bit_vector);
        assert(forall|low: u8| 0xF0u8 | low != 0u8) by (bit_vector);
        assert forall|j: int| 0 <= j < bytes.len() implies bytes[j] != 0u8 by {
            if has_width_2_encoding(scalar) {
                assert(j == 0 || j == 1);
            } else if has_width_3_encoding(scalar) {
                assert(j == 0 || j == 1 || j == 2);
            } else {
                assert(j == 0 || j == 1 || j == 2 || j == 3);
            }
        }
    }
}

/// A zero byte stands among the UTF-8 bytes of a text exactly where the text
/// holds the zero character.
pub proof fn lemma_nul_byte_is_nul_char(text: Seq<char>)
    ensures
        has_nul(text) <==> exists|i: int| 0 <= i < text.len() && text[i] == '\0',
    decreases text.len(),
{
    if text.len() == 0 {
    } else {
        let first = encode_scalar(text[0] as u32);
        let rest = text.drop_first();
        let bytes = encode_utf8(text);
        assert(bytes == first + encode_utf8(rest));
        char_is_scalar(text[0]);
        lemma_zero_byte_of_scalar(text[0] as u32);
        lemma_nul_byte_is_nul_char(rest);
        if has_nul(text) {
            let at = choose|i: int| 0 <= i < bytes.len() && bytes[i] == 0u8;
            if at < first.len() {
                assert(first[at] == 0u8);
                assert(text[0] as u32 == 0);
                char_u32_cast(text[0], 0u32);
            } else {
                assert(encode_utf8(rest)[at - first.len()] == 0u8);
                let i = choose|i: int| 0 <= i < rest.len() && rest[i] == '\0';
                assert(text[i + 1] == '\0');
            }
        }
        if exists|i: int| 0 <= i < text.len() && text[i] == '\0' {
            let i = choose|i: int| 0 <= i < text.len() && text[i] == '\0';
            if i == 0 {
                let j = choose|j: int| 0 <= j < first.len() && first[j] == 0u8;
                assert(bytes[j] == 0u8);
            } else {
                assert(rest[i - 1] == '\0');
                let j = choose|j: int|
                    0 <= j < encode_utf8(rest).len() && encode_utf8(rest)[j] == 0u8;
                assert(bytes[first.len() + j] == 0u8);
            }
        }
    }
}

} // verus!
