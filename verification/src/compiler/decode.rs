//! Decoding of the tagged byte buffer that the foreign compile entry point
//! hands back.
//!
//! Byte 0 is a discriminator: zero announces a failure, anything else means
//! that the whole buffer is bytecode. A failure buffer continues with a colon
//! and the UTF-8 text of the message.

use crate::compiler::error::CompileError;
use malloced::Malloced;
use vstd::prelude::*;
use vstd::slice::slice_subrange;
use vstd::string::StringExecFns;
use vstd::string::StringSliceAdditionalSpecFns;
use vstd::utf8::{decode_utf8, encode_utf8, valid_utf8};

verus! {

/// The ASCII colon that follows the failure discriminator.
pub const COLON: u8 = 58;

/// Number of bytes in front of the message of a failure buffer.
pub const MESSAGE_OFFSET: usize = 2;

/// Ways in which a buffer breaks the agreement with the foreign compiler.
/// None of them is an ordinary error: the host cannot go on with such a
/// buffer.
#[derive(Debug, Clone, Copy, PartialEq, Eq, Structural)]
pub enum ContractViolation {
    /// The buffer holds no bytes at all.
    EmptyBuffer,
    /// The buffer is a lone zero byte, with no message behind it.
    MissingMessage,
    /// The zero byte is followed by something other than a colon.
    MissingColon,
}

/// The two things a well-formed buffer can be.
#[derive(Debug, Clone, Copy, PartialEq, Eq, Structural)]
pub enum ResultKind {
    /// First byte non-zero: the whole buffer is the bytecode artifact.
    Bytecode,
    /// `0x00 ':'` followed by the message bytes.
    CompileFailure,
}

/// What `bytes` is, decided by its length, byte 0 and byte 1 alone.
pub open spec fn classify(bytes: Seq<u8>) -> Result<ResultKind, ContractViolation> {
    if bytes.len() == 0 {
        Err(ContractViolation::EmptyBuffer)
    } else if bytes[0] != 0 {
        Ok(ResultKind::Bytecode)
    } else if bytes.len() == 1 {
        Err(ContractViolation::MissingMessage)
    } else if bytes[1] != COLON {
        Err(ContractViolation::MissingColon)
    } else {
        Ok(ResultKind::CompileFailure)
    }
}

/// The bytes of the message: everything behind the discriminator and the
/// colon.
pub open spec fn message_bytes(bytes: Seq<u8>) -> Seq<u8> {
    bytes.subrange(MESSAGE_OFFSET as int, bytes.len() as int)
}

/// `bytes` is a failure buffer whose message is valid UTF-8.
pub open spec fn has_message(bytes: Seq<u8>) -> bool {
    classify(bytes) == Ok::<ResultKind, ContractViolation>(ResultKind::CompileFailure)
        && valid_utf8(message_bytes(bytes))
}

/// The message of a failure buffer as text.
pub open spec fn message_text(bytes: Seq<u8>) -> Seq<char> {
    decode_utf8(message_bytes(bytes))
}

impl ContractViolation {
    /// The sentence with which the host reports this violation.
    pub fn describe(&self) -> (text: &'static str)
        ensures
            text@ == match *self {
                ContractViolation::EmptyBuffer => "bytecode compile result cant be 0 length"@,
                ContractViolation::MissingMessage => "bytecode compile result starts with 0 but has no error message"@,
                ContractViolation::MissingColon => "bytecode compile result error must start with `:`"@,
            },
    {
        match self {
            ContractViolation::EmptyBuffer => "bytecode compile result cant be 0 length",
            ContractViolation::MissingMessage => "bytecode compile result starts with 0 but has no error message",
            ContractViolation::MissingColon => "bytecode compile result error must start with `:`",
        }
    }
}

/// Classifies a result buffer. Only the first two bytes are read, and none
/// behind the end of the buffer.
pub fn inspect(bytes: &[u8]) -> (kind: Result<ResultKind, ContractViolation>)
    ensures
        kind == classify(bytes@),
{
    if bytes.len() == 0 {
        Err(ContractViolation::EmptyBuffer)
    } else if bytes[0] != 0 {
        Ok(ResultKind::Bytecode)
    } else if bytes.len() == 1 {
        Err(ContractViolation::MissingMessage)
    } else if bytes[1] != COLON {
        Err(ContractViolation::MissingColon)
    } else {
        Ok(ResultKind::CompileFailure)
    }
}

/// `core::str::from_utf8`: the bytes as a string slice if they are valid
/// UTF-8, and nothing otherwise. The string slice is the same bytes.
#[verifier::external_body]
pub(crate) fn utf8_text(bytes: &[u8]) -> (text: Option<&str>)
    ensures
        text.is_some() <==> valid_utf8(bytes@),
        text matches Some(s) ==> s.spec_bytes() == bytes@,
{
    match core::str::from_utf8(bytes) {
        Ok(text) => Some(text),
        Err(_) => None,
    }
}

/// The message carried by a failure buffer, if `bytes` is one and the
/// message is valid UTF-8.
pub fn failure_message(bytes: &[u8]) -> (message: Option<&str>)
    ensures
        message.is_some() <==> has_message(bytes@),
        message matches Some(s) ==> s@ == message_text(bytes@) && s.spec_bytes() == message_bytes(
            bytes@,
        ),
{
    match inspect(bytes) {
        Ok(ResultKind::CompileFailure) => {
            let tail = slice_subrange(bytes, MESSAGE_OFFSET, bytes.len());
            let text = utf8_text(tail);
            proof {
                if let Some(s) = text {
                    vstd::utf8::encode_utf8_decode_utf8(s@);
                }
            }
            text
        },
        _ => None,
    }
}

/// How the host presents a failure buffer: the message behind a fixed
/// prefix.
pub open spec fn presentation(bytes: Seq<u8>) -> Seq<char> {
    "luau compile error: "@ + message_text(bytes)
}

/// The text with which the host presents a failure buffer, if `bytes` is one
/// and the message is valid UTF-8.
pub fn describe_failure(bytes: &[u8]) -> (text: Option<String>)
    ensures
        text.is_some() <==> has_message(bytes@),
        text matches Some(t) ==> t@ == presentation(bytes@),
{
    match failure_message(bytes) {
        Some(message) => {
            let mut text = String::from_str("luau compile error: ");
            text.append(message);
            Some(text)
        },
        None => None,
    }
}

/// A buffer that starts with a non-zero byte is bytecode, whatever follows.
pub proof fn lemma_nonzero_start_is_bytecode(bytes: Seq<u8>)
    requires
        bytes.len() > 0,
        bytes[0] != 0,
    ensures
        classify(bytes) == Ok::<ResultKind, ContractViolation>(ResultKind::Bytecode),
{
}

/// A zero byte, a colon and the UTF-8 encoding of `text` decode to exactly
/// `text`.
pub proof fn lemma_failure_buffer_round_trip(text: Seq<char>)
    ensures
        has_message(seq![0u8, COLON] + encode_utf8(text)),
        message_text(seq![0u8, COLON] + encode_utf8(text)) == text,
{
    let bytes = seq![0u8, COLON] + encode_utf8(text);
    assert(message_bytes(bytes) =~= encode_utf8(text));
    vstd::utf8::encode_utf8_valid_utf8(text);
    vstd::utf8::encode_utf8_decode_utf8(text);
}

/// A zero byte followed by anything but a colon is a contract violation.
pub proof fn lemma_missing_colon_is_violation(bytes: Seq<u8>)
    requires
        bytes.len() >= 2,
        bytes[0] == 0,
        bytes[1] != COLON,
    ensures
        classify(bytes) == Err::<ResultKind, ContractViolation>(ContractViolation::MissingColon),
        !has_message(bytes),
{
}

/// `malloced::Malloced`: an owning pointer to memory that came from `malloc`
/// and is handed to `free` when the value is dropped.
#[verifier::external_type_specification]
#[verifier::external_body]
#[verifier::reject_recursive_types(T)]
pub struct ExMalloced<T: ?Sized>(Malloced<T>);

/// The bytes that a malloc-ed buffer owns.
pub uninterp spec fn malloced_bytes(buffer: Malloced<[u8]>) -> Seq<u8>;

/// `Deref::deref` of `Malloced<[u8]>`: borrows the owned bytes as a slice.
#[verifier::external_body]
pub(crate) fn malloced_as_slice(buffer: &Malloced<[u8]>) -> (bytes: &[u8])
    ensures
        bytes@ == malloced_bytes(*buffer),
{
    core::ops::Deref::deref(buffer)
}

/// Turns the buffer of a compile call into bytecode or a compile error,
/// for a buffer that keeps the agreement with the foreign compiler.
///
/// Bytecode is handed on untouched. A failure buffer moves into the error,
/// which owns it from there on.
pub fn decode(buffer: Malloced<[u8]>) -> (result: Result<Malloced<[u8]>, CompileError>)
    requires
        classify(malloced_bytes(buffer)) is Ok,
    ensures
        classify(malloced_bytes(buffer)) == Ok::<ResultKind, ContractViolation>(
            ResultKind::Bytecode,
        ) ==> result == Ok::<Malloced<[u8]>, CompileError>(buffer),
        classify(malloced_bytes(buffer)) == Ok::<ResultKind, ContractViolation>(
            ResultKind::CompileFailure,
        ) ==> (result matches Err(e) && e.bytes() == malloced_bytes(buffer)),
{
    match inspect(malloced_as_slice(&buffer)) {
        Ok(ResultKind::Bytecode) => Ok(buffer),
        _ => Err(CompileError::new(buffer)),
    }
}

/// Like `decode`, for any buffer: one that breaks the agreement with the
/// foreign compiler is reported as the violation it commits.
pub fn try_decode(buffer: Malloced<[u8]>) -> (result: Result<
    Result<Malloced<[u8]>, CompileError>,
    ContractViolation,
>)
    ensures
        match classify(malloced_bytes(buffer)) {
            Ok(ResultKind::Bytecode) => result == Ok::<
                Result<Malloced<[u8]>, CompileError>,
                ContractViolation,
            >(Ok(buffer)),
            Ok(ResultKind::CompileFailure) => (result matches Ok(Err(e)) && e.bytes()
                == malloced_bytes(buffer)),
            Err(violation) => result == Err::<
                Result<Malloced<[u8]>, CompileError>,
                ContractViolation,
            >(violation),
        },
{
    match inspect(malloced_as_slice(&buffer)) {
        Ok(_) => Ok(decode(buffer)),
        Err(violation) => Err(violation),
    }
}

} // verus!
