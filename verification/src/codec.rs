//! Canonical byte encoding of the script's records.
//!
//! An unsigned 64-bit field is its eight little-endian bytes. A string is
//! the little-endian 32-bit count of its UTF-8 bytes, followed by those
//! bytes. A record is its fields in order, and a decoder accepts exactly
//! the bytes that an encoder produces: nothing may be left over.
//!
//! A report is not framed: it is the UTF-8 text that a reporter sent.
use vstd::prelude::*;
use vstd::bytes::*;
use vstd::utf8::*;
use vstd::string::*;
use crate::error::{DecodeError, EncodeError};

verus! {

/// The parameters of one oracle request.
#[derive(Debug, Clone, Copy, PartialEq, Eq, Structural)]
pub struct Input {
    pub block_height: u64,
}

/// The agreed result of one oracle request.
#[derive(Debug, Clone, PartialEq, Eq)]
pub struct Output {
    pub block_hash: String,
}

/// The bytes that encode an input.
pub open spec fn input_wire(v: Input) -> Seq<u8> {
    spec_u64_to_le_bytes(v.block_height)
}

/// The input that a byte sequence encodes, if it encodes one.
pub open spec fn input_parse(b: Seq<u8>) -> Option<Input> {
    if b.len() == 8 {
        Some(Input { block_height: spec_u64_from_le_bytes(b) })
    } else {
        None
    }
}

/// True when the UTF-8 form of the string fits a 32-bit length prefix.
pub open spec fn string_fits(s: Seq<char>) -> bool {
    encode_utf8(s).len() <= u32::MAX
}

/// The bytes that encode a string: length prefix, then UTF-8.
pub open spec fn string_wire(s: Seq<char>) -> Seq<u8> {
    spec_u32_to_le_bytes(encode_utf8(s).len() as u32) + encode_utf8(s)
}

/// The string that a byte sequence encodes, if it encodes one.
pub open spec fn string_parse(b: Seq<u8>) -> Option<Seq<char>> {
    if b.len() >= 4 && spec_u32_from_le_bytes(b.subrange(0, 4)) == b.len() - 4 && valid_utf8(
        b.subrange(4, b.len() as int),
    ) {
        Some(decode_utf8(b.subrange(4, b.len() as int)))
    } else {
        None
    }
}

/// The text of a raw report, if the report is text.
pub open spec fn report_parse(b: Seq<u8>) -> Option<Seq<char>> {
    if valid_utf8(b) {
        Some(decode_utf8(b))
    } else {
        None
    }
}

/// Calls `borsh::to_vec` on a `u64`. The contract claims that the call
/// succeeds and yields the eight little-endian bytes of the value.
#[verifier::external_body]
fn borsh_u64_to_vec(value: u64) -> (r: Option<Vec<u8>>)
    ensures
        r is Some,
        r.unwrap()@ == spec_u64_to_le_bytes(value),
{
    borsh::to_vec(&value).ok()
}

/// Calls `borsh::from_slice` for a `u64`. The contract claims that the call
/// succeeds exactly on eight bytes, and then yields their little-endian value.
#[verifier::external_body]
fn borsh_u64_from_slice(bytes: &[u8]) -> (r: Option<u64>)
    ensures
        bytes@.len() == 8 ==> r == Some(spec_u64_from_le_bytes(bytes@)),
        bytes@.len() != 8 ==> r is None,
{
    borsh::from_slice::<u64>(bytes).ok()
}

/// Calls `borsh::to_vec` on a `String`. The contract claims that the call
/// fails exactly when the UTF-8 length exceeds 32 bits, and otherwise yields
/// the little-endian length followed by the UTF-8 bytes.
#[verifier::external_body]
fn borsh_string_to_vec(value: &String) -> (r: Option<Vec<u8>>)
    ensures
        string_fits(value@) ==> r is Some && r.unwrap()@ == string_wire(value@),
        !string_fits(value@) ==> r is None,
{
    borsh::to_vec(value).ok()
}

/// Calls `borsh::from_slice` for a `String`. The contract claims that the
/// call succeeds exactly on a four-byte little-endian length followed by
/// that many bytes of valid UTF-8 and nothing else, and then yields the text.
#[verifier::external_body]
fn borsh_string_from_slice(bytes: &[u8]) -> (r: Option<String>)
    ensures
        match r {
            Some(s) => string_parse(bytes@) == Some(s@),
            None => string_parse(bytes@) is None,
        },
{
    borsh::from_slice::<String>(bytes).ok()
}

/// Calls `core::str::from_utf8`. The contract claims that the call succeeds
/// exactly on valid UTF-8, and then yields the text that the bytes spell.
#[verifier::external_body]
fn str_from_utf8(bytes: &[u8]) -> (r: Option<&str>)
    ensures
        match r {
            Some(s) => report_parse(bytes@) == Some(s@),
            None => report_parse(bytes@) is None,
        },
{
    core::str::from_utf8(bytes).ok()
}

impl Input {
    /// Encodes the input. Always eight bytes.
    pub fn encode(&self) -> (r: Vec<u8>)
        ensures
            r@ == input_wire(*self),
            r@.len() == 8,
    {
        proof {
            lemma_auto_spec_u64_to_from_le_bytes();
        }
        borsh_u64_to_vec(self.block_height).unwrap()
    }

    /// Decodes an input. Fails on anything but exactly eight bytes.
    pub fn decode(bytes: &[u8]) -> (r: Result<Input, DecodeError>)
        ensures
            match input_parse(bytes@) {
                Some(v) => r == Ok::<Input, DecodeError>(v),
                None => r == Err::<Input, DecodeError>(DecodeError::Malformed),
            },
    {
        match borsh_u64_from_slice(bytes) {
            Some(h) => Ok(Input { block_height: h }),
            None => Err(DecodeError::Malformed),
        }
    }
}

impl Output {
    /// Encodes the output. Fails exactly when the hash text does not fit
    /// the length prefix.
    pub fn encode(&self) -> (r: Result<Vec<u8>, EncodeError>)
        ensures
            string_fits(self.block_hash@) ==> r is Ok && r.unwrap()@ == string_wire(
                self.block_hash@,
            ),
            !string_fits(self.block_hash@) ==> r == Err::<Vec<u8>, EncodeError>(
                EncodeError::TooLong,
            ),
    {
        match borsh_string_to_vec(&self.block_hash) {
            Some(b) => Ok(b),
            None => Err(EncodeError::TooLong),
        }
    }

    /// Decodes an output. Fails on a short or wrong length prefix, on
    /// trailing bytes and on invalid UTF-8.
    pub fn decode(bytes: &[u8]) -> (r: Result<Output, DecodeError>)
        ensures
            match string_parse(bytes@) {
                Some(s) => r is Ok && r.unwrap().block_hash@ == s,
                None => r is Err && r.unwrap_err() == DecodeError::Malformed,
            },
    {
        match borsh_string_from_slice(bytes) {
            Some(s) => Ok(Output { block_hash: s }),
            None => Err(DecodeError::Malformed),
        }
    }
}

/// The raw form of a report: the UTF-8 bytes of its text.
pub fn encode_report(text: &str) -> (r: Vec<u8>)
    ensures
        r@ == encode_utf8(text@),
{
    text.as_bytes_vec()
}

/// Decodes a raw report. Fails exactly when the bytes are not valid UTF-8.
pub fn decode_report(bytes: &[u8]) -> (r: Result<String, DecodeError>)
    ensures
        match report_parse(bytes@) {
            Some(s) => r is Ok && r.unwrap()@ == s,
            None => r is Err && r.unwrap_err() == DecodeError::Malformed,
        },
{
    match str_from_utf8(bytes) {
        Some(s) => Ok(String::from_str(s)),
        None => Err(DecodeError::Malformed),
    }
}

/// Decoding the encoding of an input gives the input back.
pub proof fn lemma_input_round_trip(v: Input)
    ensures
        input_parse(input_wire(v)) == Some(v),
{
    lemma_auto_spec_u64_to_from_le_bytes();
}

/// Two inputs with the same encoding are the same input.
pub proof fn lemma_input_canonical(a: Input, b: Input)
    requires
        input_wire(a) == input_wire(b),
    ensures
        a == b,
{
    lemma_input_round_trip(a);
    lemma_input_round_trip(b);
}

/// Decoding the encoding of a string that fits gives the string back.
pub proof fn lemma_string_round_trip(s: Seq<char>)
    requires
        string_fits(s),
    ensures
        string_parse(string_wire(s)) == Some(s),
{
    lemma_auto_spec_u32_to_from_le_bytes();
    encode_utf8_valid_utf8(s);
    encode_utf8_decode_utf8(s);
    let body = encode_utf8(s);
    let head = spec_u32_to_le_bytes(body.len() as u32);
    let wire = string_wire(s);
    assert(wire.subrange(0, 4) =~= head);
    assert(wire.subrange(4, wire.len() as int) =~= body);
}

/// Two strings that fit and have the same encoding are the same string.
pub proof fn lemma_string_canonical(a: Seq<char>, b: Seq<char>)
    requires
        string_fits(a),
        string_fits(b),
        string_wire(a) == string_wire(b),
    ensures
        a == b,
{
    lemma_string_round_trip(a);
    lemma_string_round_trip(b);
}

/// Decoding the raw form of a report gives its text back.
pub proof fn lemma_report_round_trip(s: Seq<char>)
    ensures
        report_parse(encode_utf8(s)) == Some(s),
{
    encode_utf8_valid_utf8(s);
    encode_utf8_decode_utf8(s);
}

/// Two reports with the same raw form have the same text.
pub proof fn lemma_report_canonical(a: Seq<char>, b: Seq<char>)
    requires
        encode_utf8(a) == encode_utf8(b),
    ensures
        a == b,
{
    lemma_report_round_trip(a);
    lemma_report_round_trip(b);
}

} // verus!
