//! Paging through query results: the sort order, the page size, and cursors that
//! carry where a page ended, as base64 text of their JSON form.

use base64::Engine;
use vstd::prelude::*;
use vstd::utf8::encode_utf8;

verus! {

#[verifier::external_type_specification]
#[verifier::external_body]
pub struct ExDecodeError(base64::DecodeError);

/// The order in which results are sorted.
#[derive(Debug, Clone, Copy, PartialEq, Eq, Structural)]
pub enum SortOrder {
    Asc,
    Desc,
}

/// How many results a page holds unless asked otherwise.
pub const DEFAULT_PAGE_SIZE: usize = 100;

/// The text of a sort order, as a query writes it.
pub open spec fn sort_order_text(order: SortOrder) -> Seq<char> {
    match order {
        SortOrder::Asc => "ASC"@,
        SortOrder::Desc => "DESC"@,
    }
}

impl SortOrder {
    /// The order as text: `ASC` or `DESC`.
    pub fn to_string(&self) -> (text: String)
        ensures
            text@ == sort_order_text(*self),
    {
        match self {
            SortOrder::Asc => String::from_str("ASC"),
            SortOrder::Desc => String::from_str("DESC"),
        }
    }
}

/// A cursor: the data that says where a page ended.
#[derive(Debug, Clone)]
pub struct QueryCursor<D> {
    pub data: D,
}

impl<D> QueryCursor<D> {
    /// A cursor that carries `data`.
    pub fn new(data: D) -> (cursor: Self)
        ensures
            cursor.data == data,
    {
        QueryCursor { data }
    }
}

/// Why a cursor could not be read.
#[derive(Debug, Clone, Copy, PartialEq, Eq, Structural)]
pub enum CursorError {
    /// The text is not base64 in the standard alphabet with padding.
    Base64,
}

/// The letter of the standard base64 alphabet for the value `n` (below 64): `A`-`Z`,
/// `a`-`z`, `0`-`9`, `+`, `/`.
pub open spec fn base64_letter(n: int) -> char {
    if n < 26 {
        (65 + n) as char
    } else if n < 52 {
        (71 + n) as char
    } else if n < 62 {
        (n - 4) as char
    } else if n == 62 {
        '+'
    } else {
        '/'
    }
}

/// The base64 text of `bytes`, standard alphabet with padding: each group of three bytes
/// (24 bits) gives four letters of six bits each, most significant first; a last group of
/// one or two bytes is filled with zero bits and the text with `=` to four letters.
pub open spec fn base64_standard(bytes: Seq<u8>) -> Seq<char>
    decreases bytes.len(),
{
    if bytes.len() == 0 {
        Seq::empty()
    } else if bytes.len() == 1 {
        let b0 = bytes[0] as int;
        seq![base64_letter(b0 / 4), base64_letter((b0 % 4) * 16), '=', '=']
    } else if bytes.len() == 2 {
        let b0 = bytes[0] as int;
        let b1 = bytes[1] as int;
        seq![
            base64_letter(b0 / 4),
            base64_letter((b0 % 4) * 16 + b1 / 16),
            base64_letter((b1 % 16) * 4),
            '=',
        ]
    } else {
        let b0 = bytes[0] as int;
        let b1 = bytes[1] as int;
        let b2 = bytes[2] as int;
        seq![
            base64_letter(b0 / 4),
            base64_letter((b0 % 4) * 16 + b1 / 16),
            base64_letter((b1 % 16) * 4 + b2 / 64),
            base64_letter(b2 % 64),
        ] + base64_standard(bytes.subrange(3, bytes.len() as int))
    }
}

/// The base64 text of some bytes has four letters for each group of three bytes that
/// they begin, the last group counted where it is not full.
pub proof fn law_base64_length(bytes: Seq<u8>)
    ensures
        base64_standard(bytes).len() == 4 * ((bytes.len() + 2) / 3),
    decreases bytes.len(),
{
    if bytes.len() >= 3 {
        law_base64_length(bytes.subrange(3, bytes.len() as int));
    }
}

/// The bytes that `base64`'s `STANDARD` engine decodes from `text`, if it accepts the text.
pub uninterp spec fn base64_standard_decoded(text: Seq<char>) -> Option<Seq<u8>>;

/// Wraps `Engine::encode` of `base64::prelude::BASE64_STANDARD`: the base64 text of
/// `bytes` as `base64_standard` states it (RFC 4648's standard alphabet with padding,
/// which the `STANDARD` engine writes), and which that engine's `decode` turns back into
/// `bytes`. The length bound keeps the size of the output, which `encode` computes with
/// a check that panics on overflow, within `usize`.
#[verifier::external_body]
fn encode_base64(bytes: &[u8]) -> (text: String)
    requires
        bytes@.len() <= usize::MAX / 2,
    ensures
        text@ == base64_standard(bytes@),
        base64_standard_decoded(text@) == Some(bytes@),
{
    base64::prelude::BASE64_STANDARD.encode(bytes)
}

/// Wraps `Engine::decode` of `base64::prelude::BASE64_STANDARD`: the decoded bytes of
/// `text`, or the engine's error where it refuses the text.
#[verifier::external_body]
fn decode_base64(text: &str) -> (bytes: Result<Vec<u8>, base64::DecodeError>)
    ensures
        bytes is Ok <==> base64_standard_decoded(text@) is Some,
        bytes matches Ok(b) ==> base64_standard_decoded(text@) == Some(b@),
{
    base64::prelude::BASE64_STANDARD.decode(text.as_bytes())
}

/// The text of a cursor whose JSON form is `json`: the base64 of its UTF-8 bytes.
pub fn encode_cursor(json: &str) -> (text: String)
    requires
        encode_utf8(json@).len() <= usize::MAX / 2,
    ensures
        text@ == base64_standard(encode_utf8(json@)),
        base64_standard_decoded(text@) == Some(encode_utf8(json@)),
{
    encode_base64(json.as_bytes())
}

/// The bytes of the JSON form of the cursor whose text is `text`, or `CursorError::Base64`
/// where the text is not base64.
pub fn decode_cursor(text: &str) -> (json: Result<Vec<u8>, CursorError>)
    ensures
        match base64_standard_decoded(text@) {
            Some(b) => json matches Ok(v) && v@ == b,
            None => json == Err::<Vec<u8>, CursorError>(CursorError::Base64),
        },
{
    match decode_base64(text) {
        Ok(bytes) => Ok(bytes),
        Err(_) => Err(CursorError::Base64),
    }
}

/// A cursor survives the trip through its text: the text that `encode_cursor` gives for
/// `json` is read back by `decode_cursor` as the UTF-8 bytes of `json`.
pub proof fn law_cursor_round_trip(json: Seq<char>, text: Seq<char>, decoded: Result<Vec<u8>, CursorError>)
    requires
        base64_standard_decoded(text) == Some(encode_utf8(json)),
        match base64_standard_decoded(text) {
            Some(b) => decoded matches Ok(v) && v@ == b,
            None => decoded == Err::<Vec<u8>, CursorError>(CursorError::Base64),
        },
    ensures
        decoded matches Ok(v) && v@ == encode_utf8(json),
{
}

} // verus!
