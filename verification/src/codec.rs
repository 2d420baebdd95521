use vstd::prelude::*;
use vstd::utf8::*;

verus! {

#[verifier::external_type_specification]
#[verifier::external_body]
pub struct ExDecodeError(base64::DecodeError);

/// What `base64::decode` (standard alphabet, with padding) gives for the bytes
/// of `text`: the decoded bytes, or `None` where it reports a decoding error.
/// The result depends on the text alone.
pub uninterp spec fn base64_decoding(text: Seq<char>) -> Option<Seq<u8>>;

/// Decodes base64 text.
/// Trusted: `base64::decode` of the `base64` crate; the contract ties its
/// outcome to the name `base64_decoding`.
#[verifier::external_body]
fn base64_decode(text: &str) -> (res: Result<Vec<u8>, base64::DecodeError>)
    ensures
        match res {
            Ok(bytes) => base64_decoding(text@) == Some(bytes@),
            Err(_) => base64_decoding(text@) is None,
        },
{
    base64::decode(text)
}

/// Reads bytes as UTF-8 text.
/// Trusted: `std::str::from_utf8`, which std documents as succeeding exactly
/// on valid UTF-8; the text is then the decoded characters.
#[verifier::external_body]
fn utf8_text(bytes: &[u8]) -> (res: Option<String>)
    ensures
        res is Some <==> valid_utf8(bytes@),
        res matches Some(s) ==> s@ == decode_utf8(bytes@),
{
    match std::str::from_utf8(bytes) {
        Ok(s) => Some(s.to_string()),
        Err(_) => None,
    }
}

/// The text that base64 `input` stands for, if it decodes to valid UTF-8.
pub open spec fn decoded_text(input: Seq<char>) -> Option<Seq<char>> {
    match base64_decoding(input) {
        Some(bytes) => if valid_utf8(bytes) {
            Some(decode_utf8(bytes))
        } else {
            None
        },
        None => None,
    }
}

/// Decodes base64 `input` into the UTF-8 text it stands for.
pub fn decode_base64(input: String) -> (res: String)
    requires
        decoded_text(input@) is Some,
    ensures
        decoded_text(input@) == Some(res@),
{
    match base64_decode(input.as_str()) {
        Ok(bytes) => match utf8_text(bytes.as_slice()) {
            Some(text) => text,
            None => String::new(),
        },
        Err(_) => String::new(),
    }
}

/// Decodes base64 `input` into text, or `None` where `decode_base64` cannot
/// (the input is not base64, or does not stand for UTF-8 text).
pub fn try_decode_base64(input: &str) -> (res: Option<String>)
    ensures
        match res {
            Some(text) => decoded_text(input@) == Some(text@),
            None => decoded_text(input@) is None,
        },
{
    match base64_decode(input) {
        Ok(bytes) => match utf8_text(bytes.as_slice()) {
            Some(_) => Some(decode_base64(String::from_str(input))),
            None => None,
        },
        Err(_) => None,
    }
}

} // verus!
