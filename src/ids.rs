//! Identifiers of rooms and matches: 128-bit UUIDs, drawn at random and
//! written in their hyphenated text form.

use vstd::prelude::*;

verus! {

/// The lower-case hexadecimal digit of `n`, which is below 16.
pub open spec fn hex_digit(n: u8) -> char {
    if n < 10 {
        (('0' as u8) + n) as char
    } else {
        (('a' as u8) + (n - 10)) as char
    }
}

/// The 32 hexadecimal digits of `id`, most significant first.
pub open spec fn hex_digits_128(id: u128) -> Seq<char> {
    Seq::new(32, |i: int| hex_digit(((id >> (((31 - i) * 4) as u128)) & 0xf) as u8))
}

/// The hyphenated lower-case text of the UUID whose 128 bits are `id`: its 32
/// hexadecimal digits, with a hyphen after the 8th, 12th, 16th and 20th.
pub open spec fn uuid_text(id: u128) -> Seq<char> {
    let h = hex_digits_128(id);
    h.subrange(0, 8) + seq!['-'] + h.subrange(8, 12) + seq!['-'] + h.subrange(12, 16) + seq!['-']
        + h.subrange(16, 20) + seq!['-'] + h.subrange(20, 32)
}

/// What parsing `s` as a UUID gives, if it parses.
pub uninterp spec fn uuid_parse(s: Seq<char>) -> Option<u128>;

/// Relies on rand's OsRng::try_fill_bytes for 16 bytes from the operating
/// system's generator, made a version-4 UUID by uuid::Builder::from_random_bytes;
/// nothing when the generator fails. Nothing is known of the value.
#[verifier::external_body]
pub(crate) fn random_id() -> (id: Option<u128>) {
    let mut bytes = [0u8; 16];
    match rand::RngCore::try_fill_bytes(&mut rand::rngs::OsRng, &mut bytes) {
        Ok(()) => Some(uuid::Builder::from_random_bytes(bytes).into_uuid().as_u128()),
        Err(_) => None,
    }
}

/// Relies on the Display impl of uuid::Uuid: the hyphenated lower-case form,
/// which uuid::Uuid::parse_str reads back as the same UUID.
#[verifier::external_body]
pub(crate) fn id_to_text(id: u128) -> (s: String)
    ensures
        s@ == uuid_text(id),
        uuid_parse(s@) == Some(id),
{
    uuid::Uuid::from_u128(id).to_string()
}

/// Relies on uuid::Uuid::parse_str.
#[verifier::external_body]
fn parse_uuid(s: &str) -> (r: Option<u128>)
    ensures
        r == uuid_parse(s@),
{
    match uuid::Uuid::parse_str(s) {
        Ok(u) => Some(u.as_u128()),
        Err(_) => None,
    }
}

/// The text form of an identifier.
pub fn id_to_string(id: u128) -> (s: String)
    ensures
        s@ == uuid_text(id),
        uuid_parse(s@) == Some(id),
{
    id_to_text(id)
}

/// Reads a room identifier from its text form.
pub fn parse_room_id(s: &str) -> (r: Option<u128>)
    ensures
        r == uuid_parse(s@),
{
    parse_uuid(s)
}

} // verus!
