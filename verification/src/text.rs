use vstd::prelude::*;
use vstd::utf8::{decode_utf8, encode_utf8, valid_utf8};

verus! {

/// What `String::from_utf8_lossy` makes of bytes that are not valid UTF-8.
pub uninterp spec fn lossy_text(bytes: Seq<u8>) -> Seq<char>;

/// The character that stands for bytes that are no text.
pub const REPLACEMENT: char = '\u{FFFD}';

/// The text that a payload is taken for.
pub open spec fn payload_text(bytes: Seq<u8>) -> Seq<char> {
    if valid_utf8(bytes) {
        decode_utf8(bytes)
    } else {
        lossy_text(bytes)
    }
}

/// Calls `String::from_utf8_lossy`. Taken on trust: valid UTF-8 comes out as
/// the text that it encodes; other bytes come out as a text that depends on
/// them alone and holds at least one replacement character. Which of the other
/// bytes share a replacement character is left unsaid.
#[verifier::external_body]
pub(crate) fn from_utf8_lossy(bytes: &[u8]) -> (text: String)
    ensures
        valid_utf8(bytes@) ==> text@ == decode_utf8(bytes@),
        !valid_utf8(bytes@) ==> text@ == lossy_text(bytes@),
        !valid_utf8(bytes@) ==> text@.contains(REPLACEMENT),
{
    String::from_utf8_lossy(bytes).into_owned()
}

/// The text of a payload, with a replacement character for what is no text.
/// Only the encoding of a text without that character comes out as that text.
pub fn text_of(payload: &[u8]) -> (text: String)
    ensures
        text@ == payload_text(payload@),
        !text@.contains(REPLACEMENT) ==> payload@ == encode_utf8(text@),
{
    let text: String = from_utf8_lossy(payload);
    proof {
        if valid_utf8(payload@) {
            vstd::utf8::decode_utf8_encode_utf8(payload@);
        }
    }
    text
}

/// The bytes of a text, taken as a payload, are that text again.
pub proof fn theorem_text_round_trip(text: Seq<char>)
    ensures
        payload_text(encode_utf8(text)) == text,
{
    vstd::utf8::encode_utf8_valid_utf8(text);
    vstd::utf8::encode_utf8_decode_utf8(text);
}

/// A payload that is text is taken for the text that it encodes, and one that is not for
/// what the lossy decoding makes of it.
pub proof fn theorem_payload_text(payload: &[u8], text: String)
    requires
        call_ensures(text_of, (payload,), text),
    ensures
        valid_utf8(payload@) ==> encode_utf8(text@) == payload@,
        !valid_utf8(payload@) ==> text@ == lossy_text(payload@),
{
    if valid_utf8(payload@) {
        vstd::utf8::decode_utf8_encode_utf8(payload@);
    }
}

} // verus!
