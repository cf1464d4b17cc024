use vstd::prelude::*;
use vstd::string::StringExecFns;

use crate::errors::{ProtocolError, SignalJniError};

verus! {

pub open spec fn spec_digit_char(d: int) -> char {
    if d == 0 {
        '0'
    } else if d == 1 {
        '1'
    } else if d == 2 {
        '2'
    } else if d == 3 {
        '3'
    } else if d == 4 {
        '4'
    } else if d == 5 {
        '5'
    } else if d == 6 {
        '6'
    } else if d == 7 {
        '7'
    } else if d == 8 {
        '8'
    } else {
        '9'
    }
}

/// The decimal digits of a natural number, most significant first.
pub open spec fn spec_dec_nat(n: nat) -> Seq<char>
    decreases n,
{
    if n < 10 {
        seq![spec_digit_char(n as int)]
    } else {
        spec_dec_nat(n / 10) + seq![spec_digit_char((n % 10) as int)]
    }
}

/// The decimal rendering of an integer, with a leading minus sign when negative.
pub open spec fn spec_dec_int(v: int) -> Seq<char> {
    if v < 0 {
        seq!['-'] + spec_dec_nat((-v) as nat)
    } else {
        spec_dec_nat(v as nat)
    }
}

fn digit_str(d: u64) -> (r: &'static str)
    requires
        d < 10,
    ensures
        r@ == seq![spec_digit_char(d as int)],
{
    proof {
        reveal_strlit("0");
        reveal_strlit("1");
        reveal_strlit("2");
        reveal_strlit("3");
        reveal_strlit("4");
        reveal_strlit("5");
        reveal_strlit("6");
        reveal_strlit("7");
        reveal_strlit("8");
        reveal_strlit("9");
    }
    let r: &'static str = if d == 0 {
        "0"
    } else if d == 1 {
        "1"
    } else if d == 2 {
        "2"
    } else if d == 3 {
        "3"
    } else if d == 4 {
        "4"
    } else if d == 5 {
        "5"
    } else if d == 6 {
        "6"
    } else if d == 7 {
        "7"
    } else if d == 8 {
        "8"
    } else {
        "9"
    };
    proof {
        assert(r@ =~= seq![spec_digit_char(d as int)]);
    }
    r
}

/// Renders an unsigned value in decimal.
pub fn u64_to_dec(n: u64) -> (r: String)
    ensures
        r@ == spec_dec_nat(n as nat),
    decreases n,
{
    if n < 10 {
        String::from_str(digit_str(n))
    } else {
        let prefix = u64_to_dec(n / 10);
        let r = prefix.concat(digit_str(n % 10));
        proof {
            assert(r@ =~= spec_dec_nat(n as nat));
        }
        r
    }
}

/// Renders a signed value in decimal.
pub fn i64_to_dec(v: i64) -> (r: String)
    ensures
        r@ == spec_dec_int(v as int),
{
    if v >= 0 {
        u64_to_dec(v as u64)
    } else {
        let mag: u64 = if v == i64::MIN {
            9223372036854775808u64
        } else {
            (-v) as u64
        };
        assert(mag == -(v as int));
        let r = String::from_str("-").concat(u64_to_dec(mag).as_str());
        proof {
            reveal_strlit("-");
            assert(r@ =~= spec_dec_int(v as int));
        }
        r
    }
}

/// The text carried by an `IntegerOverflow` error: the offending value and
/// the name of the destination type.
pub open spec fn spec_overflow_msg(v: int, target: Seq<char>) -> Seq<char> {
    spec_dec_int(v) + " to "@ + target
}

pub fn overflow_msg_i64(v: i64, target: &str) -> (r: String)
    ensures
        r@ == spec_overflow_msg(v as int, target@),
{
    let r = i64_to_dec(v).concat(" to ").concat(target);
    proof {
        assert(r@ =~= spec_overflow_msg(v as int, target@));
    }
    r
}

pub fn overflow_msg_u64(v: u64, target: &str) -> (r: String)
    ensures
        r@ == spec_overflow_msg(v as int, target@),
{
    let r = u64_to_dec(v).concat(" to ").concat(target);
    proof {
        assert(r@ =~= spec_overflow_msg(v as int, target@));
    }
    r
}

/// The human-readable message for each error kind.
pub open spec fn spec_error_message(e: SignalJniError) -> Seq<char> {
    match e {
        SignalJniError::Signal(p) => spec_protocol_message(p),
        SignalJniError::Jni(s) => s@,
        SignalJniError::BadJniParameter(m) => "bad parameter type "@ + m@,
        SignalJniError::NullHandle => "null handle"@,
        SignalJniError::IntegerOverflow(m) => "integer overflow during conversion of "@ + m@,
        SignalJniError::UnexpectedPanic(m) => match m {
            Some(s) => "unexpected panic: "@ + s@,
            None => "unknown unexpected panic"@,
        },
    }
}

pub open spec fn spec_protocol_message(p: ProtocolError) -> Seq<char> {
    match p {
        ProtocolError::DuplicatedMessage(_, _) => "duplicated message"@,
        ProtocolError::InvalidPreKeyId => "invalid prekey identifier"@,
        ProtocolError::InvalidSignedPreKeyId => "invalid signed prekey identifier"@,
        ProtocolError::InvalidSenderKeyId => "invalid sender key identifier"@,
        ProtocolError::NoKeyTypeIdentifier => "no key type identifier"@,
        ProtocolError::BadKeyType(_) => "bad key type"@,
        ProtocolError::BadKeyLength(_, _) => "bad key length"@,
        ProtocolError::SessionNotFound => "session not found"@,
        ProtocolError::InvalidMessage(m) => "invalid message: "@ + m@,
        ProtocolError::CiphertextMessageTooShort(_) => "ciphertext message too short"@,
        ProtocolError::UnrecognizedCiphertextVersion(_) => "unrecognized ciphertext version"@,
        ProtocolError::UnrecognizedMessageVersion(_) => "unrecognized message version"@,
        ProtocolError::InvalidCiphertext => "invalid ciphertext"@,
        ProtocolError::InvalidProtobufEncoding => "invalid protobuf encoding"@,
        ProtocolError::LegacyCiphertextVersion(_) => "legacy ciphertext version"@,
        ProtocolError::InvalidState(f, m) => "invalid state "@ + f@ + ": "@ + m@,
        ProtocolError::NoSenderKeyState => "no sender key state"@,
        ProtocolError::InvalidSessionStructure => "invalid session structure"@,
        ProtocolError::InvalidArgument(m) => "invalid argument: "@ + m@,
        ProtocolError::Generic(m) => m@,
    }
}

/// Builds the human-readable message for an error, as shown to the host.
pub fn error_message(e: &SignalJniError) -> (r: String)
    ensures
        r@ == spec_error_message(*e),
{
    match e {
        SignalJniError::Signal(p) => protocol_message(p),
        SignalJniError::Jni(s) => s.clone(),
        SignalJniError::BadJniParameter(m) => String::from_str("bad parameter type ").concat(
            m.as_str(),
        ),
        SignalJniError::NullHandle => String::from_str("null handle"),
        SignalJniError::IntegerOverflow(m) => String::from_str(
            "integer overflow during conversion of ",
        ).concat(m.as_str()),
        SignalJniError::UnexpectedPanic(m) => match m {
            Some(s) => String::from_str("unexpected panic: ").concat(s.as_str()),
            None => String::from_str("unknown unexpected panic"),
        },
    }
}

pub fn protocol_message(p: &ProtocolError) -> (r: String)
    ensures
        r@ == spec_protocol_message(*p),
{
    match p {
        ProtocolError::DuplicatedMessage(_, _) => String::from_str("duplicated message"),
        ProtocolError::InvalidPreKeyId => String::from_str("invalid prekey identifier"),
        ProtocolError::InvalidSignedPreKeyId => String::from_str(
            "invalid signed prekey identifier",
        ),
        ProtocolError::InvalidSenderKeyId => String::from_str("invalid sender key identifier"),
        ProtocolError::NoKeyTypeIdentifier => String::from_str("no key type identifier"),
        ProtocolError::BadKeyType(_) => String::from_str("bad key type"),
        ProtocolError::BadKeyLength(_, _) => String::from_str("bad key length"),
        ProtocolError::SessionNotFound => String::from_str("session not found"),
        ProtocolError::InvalidMessage(m) => String::from_str("invalid message: ").concat(
            m.as_str(),
        ),
        ProtocolError::CiphertextMessageTooShort(_) => String::from_str(
            "ciphertext message too short",
        ),
        ProtocolError::UnrecognizedCiphertextVersion(_) => String::from_str(
            "unrecognized ciphertext version",
        ),
        ProtocolError::UnrecognizedMessageVersion(_) => String::from_str(
            "unrecognized message version",
        ),
        ProtocolError::InvalidCiphertext => String::from_str("invalid ciphertext"),
        ProtocolError::InvalidProtobufEncoding => String::from_str("invalid protobuf encoding"),
        ProtocolError::LegacyCiphertextVersion(_) => String::from_str("legacy ciphertext version"),
        ProtocolError::InvalidState(f, m) => String::from_str("invalid state ").concat(
            f.as_str(),
        ).concat(": ").concat(m.as_str()),
        ProtocolError::NoSenderKeyState => String::from_str("no sender key state"),
        ProtocolError::InvalidSessionStructure => String::from_str("invalid session structure"),
        ProtocolError::InvalidArgument(m) => String::from_str("invalid argument: ").concat(
            m.as_str(),
        ),
        ProtocolError::Generic(m) => m.clone(),
    }
}

} // verus!
