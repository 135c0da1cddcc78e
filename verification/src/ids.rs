//! Object identifiers given as 24-digit hexadecimal strings.

use vstd::prelude::*;
use vstd::utf8::encode_utf8;

verus! {

#[verifier::external_type_specification]
#[verifier::external_body]
pub struct ExObjectIdParseError(bson::oid::Error);

/// Why a string is not an object identifier, as the identifier parser
/// reports it.
#[derive(Debug)]
pub enum ObjectIdError {
    /// The byte at `index` of `hex`, read as the character `c`, is not a
    /// hexadecimal digit.
    InvalidHexStringCharacter { c: char, index: usize, hex: String },
    /// `hex` is `length` bytes long, which does not spell 12 bytes.
    InvalidHexStringLength { length: usize, hex: String },
    /// A report of a kind that the parser does not make.
    Unrecognized(bson::oid::Error),
}

/// Why a request could not be turned into database documents.
#[derive(Debug)]
pub enum QueryError {
    /// An identifier is not a 24-digit hexadecimal string.
    InvalidId(ObjectIdError),
    /// An item of a batch carries no identifier.
    MissingId,
}

/// `b` is the code of one of `0-9`, `a-f`, `A-F`.
pub open spec fn is_hex_byte(b: u8) -> bool {
    (48 <= b && b <= 57) || (97 <= b && b <= 102) || (65 <= b && b <= 70)
}

/// `e` is the report of the identifier parser on the string `s`, whose UTF-8
/// bytes it reads pairwise from the left: a string of odd byte length is
/// refused for its length; otherwise the first byte that is no hexadecimal
/// digit is reported; otherwise a length other than 24 bytes is reported.
pub open spec fn reports_parse_failure(s: Seq<char>, e: ObjectIdError) -> bool {
    let bytes = encode_utf8(s);
    match e {
        ObjectIdError::InvalidHexStringCharacter { c, index, hex } => {
            &&& hex@ == s
            &&& bytes.len() % 2 == 0
            &&& index < bytes.len()
            &&& !is_hex_byte(bytes[index as int])
            &&& c == bytes[index as int] as char
            &&& forall|j: int| 0 <= j < index ==> #[trigger] is_hex_byte(bytes[j])
        },
        ObjectIdError::InvalidHexStringLength { length, hex } => {
            &&& hex@ == s
            &&& length == bytes.len()
            &&& (bytes.len() % 2 == 1 || (bytes.len() != 24 && forall|j: int|
                0 <= j < bytes.len() ==> #[trigger] is_hex_byte(bytes[j])))
        },
        ObjectIdError::Unrecognized(_) => false,
    }
}

/// `c` is one of `0-9`, `a-f`, `A-F`.
pub open spec fn is_hex_digit(c: char) -> bool {
    ('0' <= c && c <= '9') || ('a' <= c && c <= 'f') || ('A' <= c && c <= 'F')
}

/// The value of a hexadecimal digit.
pub open spec fn hex_value(c: char) -> int {
    if '0' <= c && c <= '9' {
        c as int - '0' as int
    } else if 'a' <= c && c <= 'f' {
        c as int - 'a' as int + 10
    } else {
        c as int - 'A' as int + 10
    }
}

/// `s` spells an object identifier: exactly 24 hexadecimal digits.
pub open spec fn is_object_id_hex(s: Seq<char>) -> bool {
    s.len() == 24 && forall|i: int| 0 <= i < 24 ==> #[trigger] is_hex_digit(s[i])
}

/// The 12 bytes that 24 hexadecimal digits spell, two digits per byte, the
/// high half first.
pub open spec fn object_id_bytes(s: Seq<char>) -> Seq<u8> {
    Seq::new(12, |i: int| (hex_value(s[2 * i]) * 16 + hex_value(s[2 * i + 1])) as u8)
}

/// Calls `bson::oid::ObjectId::parse_str` and hands back the identifier's
/// bytes, or the parser's report with its fields. The contract claims what
/// its source shows (through `hex::decode`): the string is accepted exactly
/// when it is 24 hexadecimal digits of either case, the bytes are those the
/// digit pairs spell, and a refusal reports the string with its byte length,
/// or the first byte that is no hexadecimal digit and its position, as
/// `reports_parse_failure` says. The parser makes no report of another kind.
#[verifier::external_body]
fn parse_object_id_bytes(s: &str) -> (r: Result<[u8; 12], ObjectIdError>)
    ensures
        r is Ok <==> is_object_id_hex(s@),
        r matches Ok(b) ==> b@ == object_id_bytes(s@),
        r matches Err(e) ==> reports_parse_failure(s@, e),
{
    match bson::oid::ObjectId::parse_str(s) {
        Ok(oid) => Ok(oid.bytes()),
        Err(bson::oid::Error::InvalidHexStringCharacter { c, index, hex, .. }) => Err(
            ObjectIdError::InvalidHexStringCharacter { c, index, hex },
        ),
        Err(bson::oid::Error::InvalidHexStringLength { length, hex, .. }) => Err(
            ObjectIdError::InvalidHexStringLength { length, hex },
        ),
        Err(other) => Err(ObjectIdError::Unrecognized(other)),
    }
}

/// The bytes of the object identifier that `id` spells; an error when `id`
/// is not 24 hexadecimal digits.
pub fn parse_object_id(id: &str) -> (r: Result<[u8; 12], QueryError>)
    ensures
        r is Ok <==> is_object_id_hex(id@),
        r matches Ok(b) ==> b@ == object_id_bytes(id@),
        r matches Err(e) ==> (e matches QueryError::InvalidId(p) && reports_parse_failure(id@, p)),
{
    match parse_object_id_bytes(id) {
        Ok(b) => Ok(b),
        Err(e) => Err(QueryError::InvalidId(e)),
    }
}

/// `id` spells an object identifier: exactly 24 hexadecimal digits.
pub fn is_object_id(id: &str) -> (b: bool)
    ensures
        b == is_object_id_hex(id@),
{
    match parse_object_id_bytes(id) {
        Ok(_) => true,
        Err(_) => false,
    }
}

} // verus!
