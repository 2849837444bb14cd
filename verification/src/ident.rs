use vstd::prelude::*;
use vstd::utf8::*;

verus! {

/// Number of characters in a key.
pub const KEY_LEN: usize = 26;

/// True for the characters of Crockford's base-32 alphabet: the digits and
/// the capital letters without `I`, `L`, `O` and `U`.
pub open spec fn is_crockford(c: char) -> bool {
    ('0' <= c <= '9') || ('A' <= c <= 'Z' && c != 'I' && c != 'L' && c != 'O' && c != 'U')
}

/// True for the text of a generated key.
pub open spec fn is_key_text(text: Seq<char>) -> bool {
    &&& text.len() == KEY_LEN
    &&& forall|i: int| 0 <= i < text.len() ==> is_crockford(#[trigger] text[i])
}

/// `ulid::Ulid`, an identifier. It is only carried from where it is drawn to
/// where it is written out: nothing is known of what it holds.
#[verifier::external_type_specification]
#[verifier::external_body]
pub struct ExUlid(ulid::Ulid);

/// `ulid::Ulid::new` draws an identifier from the clock and a random source:
/// nothing is claimed of which one comes back.
pub assume_specification[ ulid::Ulid::new ]() -> (id: ulid::Ulid);

/// `ulid::Ulid::to_string` writes an identifier as 26 characters of
/// Crockford's alphabet. The contract claims the length and the alphabet, not
/// which characters stand for which identifier.
pub assume_specification[ ulid::Ulid::to_string ](id: &ulid::Ulid) -> (text: String)
    ensures
        is_key_text(text@),
;

/// Generates a new key.
pub fn new_key() -> (key: String)
    ensures
        is_key_text(key@),
{
    ulid::Ulid::new().to_string()
}

/// A generated key is ASCII: its bytes are its characters, none of them a
/// separator or an address mark.
pub proof fn lemma_key_bytes(text: Seq<char>)
    requires
        is_key_text(text),
    ensures
        encode_utf8(text).len() == KEY_LEN,
        forall|i: int|
            0 <= i < KEY_LEN ==> #[trigger] encode_utf8(text)[i] == text[i] as u8
                && encode_utf8(text)[i] != 0 && encode_utf8(text)[i] != 0x40,
{
    assert(is_ascii_chars(text));
    is_ascii_chars_encode_utf8(text);
}

} // verus!
