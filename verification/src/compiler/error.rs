//! The error of a failed compilation.

use crate::compiler::decode::{
    classify, describe_failure, failure_message, has_message, malloced_as_slice, malloced_bytes,
    message_text, presentation, ContractViolation, ResultKind,
};
use malloced::Malloced;
use vstd::prelude::*;

verus! {

/// A compile error. It owns the failure buffer that the foreign compiler
/// produced, and releases it when dropped.
pub struct CompileError {
    pub(crate) buffer: Malloced<[u8]>,
}

impl CompileError {
    #[verifier::type_invariant]
    spec fn is_failure_buffer(self) -> bool {
        classify(malloced_bytes(self.buffer)) == Ok::<ResultKind, ContractViolation>(
            ResultKind::CompileFailure,
        )
    }

    /// The bytes of the owned buffer, discriminator and colon first.
    pub closed spec fn bytes(&self) -> Seq<u8> {
        malloced_bytes(self.buffer)
    }

    /// Wraps a failure buffer.
    pub(crate) fn new(buffer: Malloced<[u8]>) -> (error: CompileError)
        requires
            classify(malloced_bytes(buffer)) == Ok::<ResultKind, ContractViolation>(
                ResultKind::CompileFailure,
            ),
        ensures
            error.bytes() == malloced_bytes(buffer),
    {
        CompileError { buffer }
    }

    /// The owned buffer, which always is a failure buffer.
    pub fn as_bytes(&self) -> (bytes: &[u8])
        ensures
            bytes@ == self.bytes(),
            classify(bytes@) == Ok::<ResultKind, ContractViolation>(ResultKind::CompileFailure),
    {
        proof {
            use_type_invariant(self);
        }
        malloced_as_slice(&self.buffer)
    }

    /// The message of the foreign compiler, `<line>: <description>`, if it
    /// is valid UTF-8.
    pub fn try_message(&self) -> (message: Option<&str>)
        ensures
            message.is_some() <==> has_message(self.bytes()),
            message matches Some(s) ==> s@ == message_text(self.bytes()),
    {
        failure_message(self.as_bytes())
    }

    /// The message of the foreign compiler, `<line>: <description>`.
    pub fn message(&self) -> (message: &str)
        requires
            has_message(self.bytes()),
        ensures
            message@ == message_text(self.bytes()),
    {
        match self.try_message() {
            Some(message) => message,
            None => "",
        }
    }

    /// The error as the host presents it: the message behind a fixed prefix.
    pub fn to_string(&self) -> (text: String)
        requires
            has_message(self.bytes()),
        ensures
            text@ == presentation(self.bytes()),
    {
        match describe_failure(self.as_bytes()) {
            Some(text) => text,
            None => String::new(),
        }
    }
}

} // verus!
