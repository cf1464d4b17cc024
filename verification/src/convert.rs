use vstd::prelude::*;

use crate::errors::{ProtocolError, SignalJniError};
use crate::messages::{overflow_msg_i64, overflow_msg_u64, spec_overflow_msg};

verus! {

/// Checked narrowing of a host 32-bit signed value to an unsigned native
/// value: accepted exactly when non-negative, never wrapped.
pub fn jint_to_u32(v: i32) -> (r: Result<u32, SignalJniError>)
    ensures
        v >= 0 ==> r == Ok::<u32, SignalJniError>(v as u32),
        v < 0 ==> (r matches Err(SignalJniError::IntegerOverflow(m)) && m@ == spec_overflow_msg(
            v as int,
            "u32"@,
        )),
{
    if v < 0 {
        return Err(SignalJniError::IntegerOverflow(overflow_msg_i64(v as i64, "u32")));
    }
    Ok(v as u32)
}

/// Checked narrowing of a host 32-bit signed value to a byte: accepted
/// exactly on 0 through 255.
pub fn jint_to_u8(v: i32) -> (r: Result<u8, SignalJniError>)
    ensures
        0 <= v <= 255 ==> r == Ok::<u8, SignalJniError>(v as u8),
        (v < 0 || v > 255) ==> (r matches Err(SignalJniError::IntegerOverflow(m)) && m@
            == spec_overflow_msg(v as int, "u8"@)),
{
    if v < 0 || v > 255 {
        return Err(SignalJniError::IntegerOverflow(overflow_msg_i64(v as i64, "u8")));
    }
    Ok(v as u8)
}

/// Checked widening of a native unsigned 32-bit result into a host 32-bit
/// signed value; a delegated failure passes through unchanged.
pub fn jint_from_u32(value: Result<u32, ProtocolError>) -> (r: Result<i32, SignalJniError>)
    ensures
        (value matches Ok(v) && v <= i32::MAX) ==> r == Ok::<i32, SignalJniError>(
            value->Ok_0 as i32,
        ),
        (value matches Ok(v) && v > i32::MAX) ==> (r matches Err(
            SignalJniError::IntegerOverflow(m),
        ) && m@ == spec_overflow_msg(value->Ok_0 as int, "jint"@)),
        value matches Err(e) ==> r == Err::<i32, SignalJniError>(SignalJniError::Signal(e)),
{
    match value {
        Ok(v) => {
            if v > 0x7fff_ffff {
                Err(SignalJniError::IntegerOverflow(overflow_msg_u64(v as u64, "jint")))
            } else {
                Ok(v as i32)
            }
        },
        Err(e) => Err(SignalJniError::Signal(e)),
    }
}

/// Checked widening of a native unsigned 64-bit result into a host 64-bit
/// signed value; a delegated failure passes through unchanged.
pub fn jlong_from_u64(value: Result<u64, ProtocolError>) -> (r: Result<i64, SignalJniError>)
    ensures
        (value matches Ok(v) && v <= i64::MAX) ==> r == Ok::<i64, SignalJniError>(
            value->Ok_0 as i64,
        ),
        (value matches Ok(v) && v > i64::MAX) ==> (r matches Err(
            SignalJniError::IntegerOverflow(m),
        ) && m@ == spec_overflow_msg(value->Ok_0 as int, "jlong"@)),
        value matches Err(e) ==> r == Err::<i64, SignalJniError>(SignalJniError::Signal(e)),
{
    match value {
        Ok(v) => {
            if v > 0x7fff_ffff_ffff_ffff {
                Err(SignalJniError::IntegerOverflow(overflow_msg_u64(v, "jlong")))
            } else {
                Ok(v as i64)
            }
        },
        Err(e) => Err(SignalJniError::Signal(e)),
    }
}

/// Round trip for narrowing to `u32`: widening the accepted result
/// reconstructs the input exactly when the input was accepted.
pub proof fn lemma_roundtrip_jint_to_u32(v: i32)
    ensures
        ((v as u32) as int == v as int) <==> v >= 0,
{
}

/// Round trip for narrowing to `u8`.
pub proof fn lemma_roundtrip_jint_to_u8(v: i32)
    ensures
        ((v as u8) as int == v as int) <==> (0 <= v <= 255),
{
}

/// Round trip for widening a `u32` into a 32-bit signed host value.
pub proof fn lemma_roundtrip_jint_from_u32(v: u32)
    ensures
        ((v as i32) as int == v as int) <==> v <= i32::MAX,
{
}

/// Round trip for widening a `u64` into a 64-bit signed host value.
pub proof fn lemma_roundtrip_jlong_from_u64(v: u64)
    ensures
        ((v as i64) as int == v as int) <==> v <= i64::MAX,
{
}

/// Marshals a native boolean result to the host's byte-sized boolean:
/// `true` to `1`, `false` to `0`; a delegated failure passes through
/// unchanged.
pub fn jboolean_from_bool(value: Result<bool, ProtocolError>) -> (r: Result<u8, SignalJniError>)
    ensures
        value matches Ok(b) ==> r == Ok::<u8, SignalJniError>(if b { 1u8 } else { 0u8 }),
        value matches Err(e) ==> r == Err::<u8, SignalJniError>(SignalJniError::Signal(e)),
{
    match value {
        Ok(b) => Ok(if b { 1 } else { 0 }),
        Err(e) => Err(SignalJniError::Signal(e)),
    }
}

/// The signed byte holding the same bit pattern as an unsigned byte, read
/// in two's complement: 0x7F stays 127, 0x80 becomes -128, 0xFF becomes -1.
pub open spec fn spec_signed_byte(b: u8) -> int {
    if b < 128 {
        b as int
    } else {
        b as int - 256
    }
}

/// Reinterprets each native byte as the host's signed byte, preserving the
/// bit pattern: same length, each output byte the two's-complement reading
/// of the corresponding input byte.
pub fn bytes_to_signed(data: &[u8]) -> (r: Vec<i8>)
    ensures
        r@.len() == data@.len(),
        forall|i: int| 0 <= i < data@.len() ==> (#[trigger] r@[i]) as int == spec_signed_byte(
            data@[i],
        ),
{
    let mut out: Vec<i8> = Vec::new();
    let mut k: usize = 0;
    while k < data.len()
        invariant
            k <= data@.len(),
            out@.len() == k,
            forall|i: int| 0 <= i < k ==> (#[trigger] out@[i]) as int == spec_signed_byte(
                data@[i],
            ),
        decreases data@.len() - k,
    {
        let b = data[k];
        let s: i8 = if b < 128 {
            b as i8
        } else {
            ((b as i16) - 256) as i8
        };
        out.push(s);
        k += 1;
    }
    out
}

/// Marshals a native byte-sequence result to the host representation: on
/// success a fresh signed-byte array of the same length with each bit
/// pattern preserved; a delegated failure passes through unchanged.
pub fn marshal_bytes(data: Result<Vec<u8>, ProtocolError>) -> (r: Result<Vec<i8>, SignalJniError>)
    ensures
        data matches Ok(d) ==> (r matches Ok(out) && out@.len() == d@.len() && (forall|i: int|
            0 <= i < d@.len() ==> (#[trigger] out@[i]) as int == spec_signed_byte(d@[i]))),
        data matches Err(e) ==> r == Err::<Vec<i8>, SignalJniError>(SignalJniError::Signal(e)),
{
    match data {
        Ok(d) => Ok(bytes_to_signed(d.as_slice())),
        Err(e) => Err(SignalJniError::Signal(e)),
    }
}

} // verus!
