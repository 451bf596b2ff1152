//! Decoding of UTF-8 input into characters.

use vstd::prelude::*;
use vstd::utf8::{
    decode_first_scalar, decode_utf8, length_of_first_scalar, pop_first_scalar, valid_first_scalar,
    valid_utf8,
};
use utf8_chars::BufReadCharsExt;

verus! {

/// `std::io::Error`: what `read_char` of `utf8_chars` gives for bytes that it cannot read
/// as a character. Nothing is known of its contents.
#[verifier::external_type_specification]
#[verifier::external_body]
pub struct ExIoError(std::io::Error);

/// `read_char` of `utf8_chars::BufReadCharsExt`, on the bytes of `input` from `offset` on.
/// At the end of the input it reads nothing. Where the bytes start with the well-formed
/// encoding of a scalar value it gives that character, and an error where they do not.
#[verifier::external_body]
fn read_char_at(input: &[u8], offset: usize) -> (r: Result<Option<char>, std::io::Error>)
    requires
        offset <= input@.len(),
    ensures
        match r {
            Ok(None) => offset == input@.len(),
            Ok(Some(c)) => offset < input@.len() && valid_first_scalar(input@.skip(offset as int))
                && c as u32 == decode_first_scalar(input@.skip(offset as int)),
            Err(_) => offset < input@.len() && !valid_first_scalar(input@.skip(offset as int)),
        },
{
    let mut rest = &input[offset..];
    rest.read_char()
}

/// The characters of the longest start of `bytes` that is well-formed UTF-8.
pub open spec fn decoded_prefix(bytes: Seq<u8>) -> Seq<char>
    decreases bytes.len(),
{
    if bytes.len() == 0 || !valid_first_scalar(bytes) {
        Seq::<char>::empty()
    } else {
        seq![decode_first_scalar(bytes) as char] + decoded_prefix(pop_first_scalar(bytes))
    }
}

/// No more characters are decoded than there are bytes.
pub proof fn lemma_decoded_prefix_len(bytes: Seq<u8>)
    ensures
        decoded_prefix(bytes).len() <= bytes.len(),
    decreases bytes.len(),
{
    if bytes.len() > 0 && valid_first_scalar(bytes) {
        lemma_decoded_prefix_len(pop_first_scalar(bytes));
    }
}

/// Of well-formed UTF-8 all is decoded.
pub proof fn lemma_decoded_prefix_of_valid(bytes: Seq<u8>)
    requires
        valid_utf8(bytes),
    ensures
        decoded_prefix(bytes) == decode_utf8(bytes),
    decreases bytes.len(),
{
    if bytes.len() > 0 {
        lemma_decoded_prefix_of_valid(pop_first_scalar(bytes));
    }
}

/// What was decoded of some input: the characters, and whether that was all of the input.
pub struct Decoded {
    pub chars: Vec<char>,
    pub complete: bool,
}

/// Decodes `input` as UTF-8, up to the first byte sequence that is not well formed.
pub fn decode(input: &[u8]) -> (d: Decoded)
    ensures
        d.chars@ == decoded_prefix(input@),
        d.complete == valid_utf8(input@),
        d.complete ==> d.chars@ == decode_utf8(input@),
        d.chars@.len() <= input@.len(),
{
    let mut chars: Vec<char> = Vec::new();
    let mut offset: usize = 0;
    assert(input@.skip(0) =~= input@);
    proof {
        if valid_utf8(input@) {
            lemma_decoded_prefix_of_valid(input@);
        }
    }
    while offset < input.len()
        invariant
            offset <= input@.len(),
            chars@.len() <= offset,
            decoded_prefix(input@) == chars@ + decoded_prefix(input@.skip(offset as int)),
            valid_utf8(input@) == valid_utf8(input@.skip(offset as int)),
        decreases input@.len() - offset,
    {
        let ghost rest = input@.skip(offset as int);
        assert(rest[0] == input@[offset as int]);
        match read_char_at(input, offset) {
            Ok(Some(c)) => {
                let lead = input[offset];
                let width: usize = if lead <= 0x7f {
                    1
                } else if lead <= 0xdf {
                    2
                } else if lead <= 0xef {
                    3
                } else {
                    4
                };
                proof {
                    assert(valid_first_scalar(rest));
                    assert(width == length_of_first_scalar(rest));
                    assert(pop_first_scalar(rest) =~= input@.skip(offset + width));
                    vstd::utf8::char_u32_cast(c, c as u32);
                    assert(chars@ + (seq![c] + decoded_prefix(input@.skip(offset + width)))
                        =~= chars@.push(c) + decoded_prefix(input@.skip(offset + width)));
                }
                chars.push(c);
                offset = offset + width;
            },
            Ok(None) => {
                return Decoded { chars, complete: true };
            },
            Err(_) => {
                proof {
                    assert(!valid_first_scalar(rest));
                    assert(chars@ + Seq::<char>::empty() =~= chars@);
                }
                return Decoded { chars, complete: false };
            },
        }
    }
    proof {
        assert(input@.skip(offset as int) =~= Seq::<u8>::empty());
        assert(chars@ + Seq::<char>::empty() =~= chars@);
    }
    Decoded { chars, complete: true }
}

} // verus!
