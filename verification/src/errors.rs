use vstd::prelude::*;

verus! {

/// Protocol-layer failure kinds delegated by the native engine. This layer
/// never interprets them beyond their tag; the final variant stands for any
/// other kind the engine may report.
pub enum ProtocolError {
    DuplicatedMessage(u32, u32),
    InvalidPreKeyId,
    InvalidSignedPreKeyId,
    InvalidSenderKeyId,
    NoKeyTypeIdentifier,
    BadKeyType(u8),
    BadKeyLength(u8, usize),
    SessionNotFound,
    InvalidMessage(String),
    CiphertextMessageTooShort(usize),
    UnrecognizedCiphertextVersion(u8),
    UnrecognizedMessageVersion(u32),
    InvalidCiphertext,
    InvalidProtobufEncoding,
    LegacyCiphertextVersion(u8),
    InvalidState(String, String),
    NoSenderKeyState,
    InvalidSessionStructure,
    InvalidArgument(String),
    Generic(String),
}

/// Boundary-layer failure kinds, plus the delegated protocol-layer kinds.
pub enum SignalJniError {
    Signal(ProtocolError),
    Jni(String),
    BadJniParameter(String),
    NullHandle,
    IntegerOverflow(String),
    UnexpectedPanic(Option<String>),
}

impl From<ProtocolError> for SignalJniError {
    fn from(e: ProtocolError) -> (r: SignalJniError) {
        SignalJniError::Signal(e)
    }
}

impl vstd::std_specs::convert::FromSpecImpl<ProtocolError> for SignalJniError {
    open spec fn obeys_from_spec() -> bool {
        true
    }

    open spec fn from_spec(e: ProtocolError) -> SignalJniError {
        SignalJniError::Signal(e)
    }
}

/// The exception class raised for each error kind: a total map, with the
/// generic runtime-error class for every delegated kind not singled out.
pub open spec fn spec_exception_class(e: SignalJniError) -> Seq<char> {
    match e {
        SignalJniError::NullHandle => "java/lang/NullPointerException"@,
        SignalJniError::UnexpectedPanic(_) => "java/lang/AssertionError"@,
        SignalJniError::BadJniParameter(_) => "java/lang/AssertionError"@,
        SignalJniError::IntegerOverflow(_) => "java/lang/RuntimeException"@,
        SignalJniError::Signal(p) => spec_protocol_exception_class(p),
        SignalJniError::Jni(_) => "java/lang/RuntimeException"@,
    }
}

pub open spec fn spec_protocol_exception_class(p: ProtocolError) -> Seq<char> {
    match p {
        ProtocolError::DuplicatedMessage(_, _) => "org/signal/libsignal/DuplicatedMessageException"@,
        ProtocolError::InvalidPreKeyId => "org/signal/libsignal/InvalidKeyIdException"@,
        ProtocolError::InvalidSignedPreKeyId => "org/signal/libsignal/InvalidKeyIdException"@,
        ProtocolError::InvalidSenderKeyId => "org/signal/libsignal/InvalidKeyIdException"@,
        ProtocolError::NoKeyTypeIdentifier => "org/signal/libsignal/InvalidKeyException"@,
        ProtocolError::BadKeyType(_) => "org/signal/libsignal/InvalidKeyException"@,
        ProtocolError::BadKeyLength(_, _) => "org/signal/libsignal/InvalidKeyException"@,
        ProtocolError::SessionNotFound => "org/signal/libsignal/NoSessionException"@,
        ProtocolError::InvalidMessage(_) => "org/signal/libsignal/InvalidMessageException"@,
        ProtocolError::CiphertextMessageTooShort(_) => "org/signal/libsignal/InvalidMessageException"@,
        ProtocolError::UnrecognizedCiphertextVersion(_) => "org/signal/libsignal/InvalidMessageException"@,
        ProtocolError::UnrecognizedMessageVersion(_) => "org/signal/libsignal/InvalidMessageException"@,
        ProtocolError::InvalidCiphertext => "org/signal/libsignal/InvalidMessageException"@,
        ProtocolError::InvalidProtobufEncoding => "org/signal/libsignal/InvalidMessageException"@,
        ProtocolError::LegacyCiphertextVersion(_) => "org/signal/libsignal/LegacyMessageException"@,
        ProtocolError::InvalidState(_, _) => "java/lang/IllegalStateException"@,
        ProtocolError::NoSenderKeyState => "java/lang/IllegalStateException"@,
        ProtocolError::InvalidSessionStructure => "java/lang/IllegalStateException"@,
        ProtocolError::InvalidArgument(_) => "java/lang/IllegalArgumentException"@,
        ProtocolError::Generic(_) => "java/lang/RuntimeException"@,
    }
}

/// The closed set of exception class names the mapping can produce.
pub open spec fn is_exception_class_name(s: Seq<char>) -> bool {
    ||| s == "java/lang/NullPointerException"@
    ||| s == "java/lang/AssertionError"@
    ||| s == "java/lang/RuntimeException"@
    ||| s == "java/lang/IllegalStateException"@
    ||| s == "java/lang/IllegalArgumentException"@
    ||| s == "org/signal/libsignal/DuplicatedMessageException"@
    ||| s == "org/signal/libsignal/InvalidKeyIdException"@
    ||| s == "org/signal/libsignal/InvalidKeyException"@
    ||| s == "org/signal/libsignal/NoSessionException"@
    ||| s == "org/signal/libsignal/InvalidMessageException"@
    ||| s == "org/signal/libsignal/LegacyMessageException"@
}

/// The mapping is total: every error kind, boundary-layer or delegated,
/// reaches exactly one of the named exception classes.
pub proof fn lemma_exception_mapping_total(e: SignalJniError)
    ensures
        is_exception_class_name(spec_exception_class(e)),
{
}

/// Picks the host exception class to raise for an error. Deterministic: the
/// result is a function of the error kind alone.
pub fn exception_class(e: &SignalJniError) -> (r: &'static str)
    ensures
        r@ == spec_exception_class(*e),
{
    match e {
        SignalJniError::NullHandle => "java/lang/NullPointerException",
        SignalJniError::UnexpectedPanic(_) => "java/lang/AssertionError",
        SignalJniError::BadJniParameter(_) => "java/lang/AssertionError",
        SignalJniError::IntegerOverflow(_) => "java/lang/RuntimeException",
        SignalJniError::Signal(p) => protocol_exception_class(p),
        SignalJniError::Jni(_) => "java/lang/RuntimeException",
    }
}

pub fn protocol_exception_class(p: &ProtocolError) -> (r: &'static str)
    ensures
        r@ == spec_protocol_exception_class(*p),
{
    match p {
        ProtocolError::DuplicatedMessage(_, _) => "org/signal/libsignal/DuplicatedMessageException",
        ProtocolError::InvalidPreKeyId => "org/signal/libsignal/InvalidKeyIdException",
        ProtocolError::InvalidSignedPreKeyId => "org/signal/libsignal/InvalidKeyIdException",
        ProtocolError::InvalidSenderKeyId => "org/signal/libsignal/InvalidKeyIdException",
        ProtocolError::NoKeyTypeIdentifier => "org/signal/libsignal/InvalidKeyException",
        ProtocolError::BadKeyType(_) => "org/signal/libsignal/InvalidKeyException",
        ProtocolError::BadKeyLength(_, _) => "org/signal/libsignal/InvalidKeyException",
        ProtocolError::SessionNotFound => "org/signal/libsignal/NoSessionException",
        ProtocolError::InvalidMessage(_) => "org/signal/libsignal/InvalidMessageException",
        ProtocolError::CiphertextMessageTooShort(_) => "org/signal/libsignal/InvalidMessageException",
        ProtocolError::UnrecognizedCiphertextVersion(_) => "org/signal/libsignal/InvalidMessageException",
        ProtocolError::UnrecognizedMessageVersion(_) => "org/signal/libsignal/InvalidMessageException",
        ProtocolError::InvalidCiphertext => "org/signal/libsignal/InvalidMessageException",
        ProtocolError::InvalidProtobufEncoding => "org/signal/libsignal/InvalidMessageException",
        ProtocolError::LegacyCiphertextVersion(_) => "org/signal/libsignal/LegacyMessageException",
        ProtocolError::InvalidState(_, _) => "java/lang/IllegalStateException",
        ProtocolError::NoSenderKeyState => "java/lang/IllegalStateException",
        ProtocolError::InvalidSessionStructure => "java/lang/IllegalStateException",
        ProtocolError::InvalidArgument(_) => "java/lang/IllegalArgumentException",
        ProtocolError::Generic(_) => "java/lang/RuntimeException",
    }
}

} // verus!
