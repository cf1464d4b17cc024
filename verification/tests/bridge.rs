use jni_bridge::convert::{
    bytes_to_signed, jboolean_from_bool, jint_from_u32, jint_to_u32, jint_to_u8, jlong_from_u64,
    marshal_bytes,
};
use jni_bridge::errors::{exception_class, ProtocolError, SignalJniError};
use jni_bridge::handles::HandleRegistry;
use jni_bridge::invoke::{settle_call, CallOutcome, JniDummyValue};
use jni_bridge::messages::error_message;
use jni_bridge::string_map::{StringMap, TESTING_BridgedStringMap_dump_to_json};
use jni_bridge::test_only_fn_returns_123;

#[test]
fn liveness_probe_returns_123() {
    assert_eq!(test_only_fn_returns_123(), 123);
}

#[test]
fn null_handle_resolution_fails_with_null_handle() {
    let reg: HandleRegistry<u32> = HandleRegistry::new();
    match reg.native_handle_cast(0) {
        Err(SignalJniError::NullHandle) => {}
        _ => panic!("resolving the null handle must fail with NullHandle"),
    }
}

#[test]
fn null_handle_optional_resolution_yields_no_object() {
    let reg: HandleRegistry<u32> = HandleRegistry::new();
    match reg.native_handle_cast_optional(0) {
        Ok(None) => {}
        _ => panic!("optional resolution of the null handle must succeed with no object"),
    }
}

#[test]
fn handle_resolves_to_same_object_until_destroyed() {
    let mut reg: HandleRegistry<String> = HandleRegistry::new();
    let h1 = reg.create_handle("first".to_string());
    let h2 = reg.create_handle("second".to_string());
    assert_ne!(h1, 0);
    assert_ne!(h2, 0);
    assert_ne!(h1, h2);
    assert_eq!(reg.native_handle_cast(h1).ok().unwrap().as_str(), "first");
    assert_eq!(reg.native_handle_cast(h2).ok().unwrap().as_str(), "second");
    // Destroying one handle leaves the other intact.
    reg.destroy_handle(h2);
    assert_eq!(reg.native_handle_cast(h1).ok().unwrap().as_str(), "first");
    assert!(!reg.is_live(h2));
    assert!(reg.is_live(h1));
    reg.destroy_handle(h1);
    assert!(!reg.is_live(h1));
}

#[test]
fn destroy_of_null_handle_is_a_no_op() {
    let mut reg: HandleRegistry<u8> = HandleRegistry::new();
    let h = reg.create_handle(9);
    reg.destroy_handle(0);
    assert!(reg.is_live(h));
    assert_eq!(*reg.native_handle_cast(h).ok().unwrap(), 9);
}

#[test]
fn box_object_registers_success_and_relays_failure() {
    let mut reg: HandleRegistry<u16> = HandleRegistry::new();
    let h = reg.box_object(Ok(77)).ok().unwrap();
    assert_ne!(h, 0);
    assert_eq!(*reg.native_handle_cast(h).ok().unwrap(), 77);
    match reg.box_object(Err(ProtocolError::SessionNotFound)) {
        Err(SignalJniError::Signal(ProtocolError::SessionNotFound)) => {}
        _ => panic!("a delegated failure must pass through as Signal"),
    }
}

#[test]
fn box_optional_object_maps_absence_to_null_handle() {
    let mut reg: HandleRegistry<u16> = HandleRegistry::new();
    match reg.box_optional_object(Ok(None)) {
        Ok(0) => {}
        _ => panic!("absence must yield the null handle"),
    }
    let h = reg.box_optional_object(Ok(Some(5))).ok().unwrap();
    assert_ne!(h, 0);
    assert_eq!(*reg.native_handle_cast(h).ok().unwrap(), 5);
}

#[test]
fn jint_to_u32_accepts_exactly_the_non_negatives() {
    assert_eq!(jint_to_u32(0).ok().unwrap(), 0);
    assert_eq!(jint_to_u32(5).ok().unwrap(), 5);
    assert_eq!(jint_to_u32(i32::MAX).ok().unwrap(), 2147483647);
    match jint_to_u32(-1) {
        Err(SignalJniError::IntegerOverflow(m)) => assert_eq!(m, "-1 to u32"),
        _ => panic!("a negative value must be rejected"),
    }
}

#[test]
fn jint_to_u8_accepts_exactly_a_byte_range() {
    assert_eq!(jint_to_u8(0).ok().unwrap(), 0);
    assert_eq!(jint_to_u8(255).ok().unwrap(), 255);
    match jint_to_u8(256) {
        Err(SignalJniError::IntegerOverflow(m)) => assert_eq!(m, "256 to u8"),
        _ => panic!("a value above 255 must be rejected"),
    }
    match jint_to_u8(-1) {
        Err(SignalJniError::IntegerOverflow(m)) => assert_eq!(m, "-1 to u8"),
        _ => panic!("a negative value must be rejected"),
    }
}

#[test]
fn jint_from_u32_rejects_what_does_not_reconstruct() {
    assert_eq!(jint_from_u32(Ok(7)).ok().unwrap(), 7);
    assert_eq!(jint_from_u32(Ok(2147483647)).ok().unwrap(), i32::MAX);
    match jint_from_u32(Ok(4294967295)) {
        Err(SignalJniError::IntegerOverflow(m)) => assert_eq!(m, "4294967295 to jint"),
        _ => panic!("a value above the 31-bit range must be rejected"),
    }
    match jint_from_u32(Err(ProtocolError::InvalidCiphertext)) {
        Err(SignalJniError::Signal(ProtocolError::InvalidCiphertext)) => {}
        _ => panic!("a delegated failure must pass through as Signal"),
    }
}

#[test]
fn jlong_from_u64_rejects_what_does_not_reconstruct() {
    assert_eq!(jlong_from_u64(Ok(123)).ok().unwrap(), 123);
    assert_eq!(
        jlong_from_u64(Ok(9223372036854775807)).ok().unwrap(),
        i64::MAX
    );
    match jlong_from_u64(Ok(u64::MAX)) {
        Err(SignalJniError::IntegerOverflow(m)) => {
            assert_eq!(m, "18446744073709551615 to jlong")
        }
        _ => panic!("a value above the 63-bit range must be rejected"),
    }
}

#[test]
fn byte_marshalling_preserves_length_and_bit_patterns() {
    let data: Vec<u8> = vec![0x00, 0x01, 0x7F, 0x80, 0xFF];
    let out = bytes_to_signed(&data);
    assert_eq!(out.len(), data.len());
    assert_eq!(out, vec![0i8, 1, 127, -128, -1]);
}

#[test]
fn marshal_bytes_relays_failure() {
    match marshal_bytes(Err(ProtocolError::InvalidProtobufEncoding)) {
        Err(SignalJniError::Signal(ProtocolError::InvalidProtobufEncoding)) => {}
        _ => panic!("a delegated failure must pass through as Signal"),
    }
    let out = marshal_bytes(Ok(vec![0xFE, 0x02])).ok().unwrap();
    assert_eq!(out, vec![-2i8, 2]);
}

#[test]
fn jboolean_from_bool_yields_one_and_zero() {
    assert_eq!(jboolean_from_bool(Ok(true)).ok().unwrap(), 1);
    assert_eq!(jboolean_from_bool(Ok(false)).ok().unwrap(), 0);
    match jboolean_from_bool(Err(ProtocolError::NoSenderKeyState)) {
        Err(SignalJniError::Signal(ProtocolError::NoSenderKeyState)) => {}
        _ => panic!("a delegated failure must pass through as Signal"),
    }
}

#[test]
fn uncontrolled_fault_settles_to_dummy_value_and_assertion_error() {
    let (value, pending) = settle_call::<i64>(CallOutcome::Fault(Some("boom".to_string())));
    assert_eq!(value, 0);
    match pending {
        Some(err) => {
            assert_eq!(exception_class(&err), "java/lang/AssertionError");
            assert_eq!(error_message(&err), "unexpected panic: boom");
        }
        None => panic!("a fault must leave an exception pending"),
    }
    let (value, pending) = settle_call::<i32>(CallOutcome::Fault(None));
    assert_eq!(value, 0);
    match pending {
        Some(err) => assert_eq!(error_message(&err), "unknown unexpected panic"),
        None => panic!("a fault must leave an exception pending"),
    }
}

#[test]
fn success_settles_to_its_value_with_no_exception_pending() {
    let (value, pending) = settle_call::<i32>(CallOutcome::Success(42));
    assert_eq!(value, 42);
    assert!(pending.is_none());
}

#[test]
fn typed_failure_settles_to_dummy_value_and_its_own_error() {
    let (value, pending) =
        settle_call::<u8>(CallOutcome::Failure(SignalJniError::NullHandle));
    assert_eq!(value, 0);
    match pending {
        Some(SignalJniError::NullHandle) => {}
        _ => panic!("the typed failure itself must be pending"),
    }
}

#[test]
fn dummy_values_match_the_per_type_policy() {
    assert_eq!(<i64 as JniDummyValue>::dummy_value(), 0);
    assert_eq!(<i32 as JniDummyValue>::dummy_value(), 0);
    assert_eq!(<u8 as JniDummyValue>::dummy_value(), 0);
    <() as JniDummyValue>::dummy_value();
}

#[test]
fn boundary_errors_map_to_their_exception_classes() {
    assert_eq!(
        exception_class(&SignalJniError::NullHandle),
        "java/lang/NullPointerException"
    );
    assert_eq!(
        exception_class(&SignalJniError::UnexpectedPanic(None)),
        "java/lang/AssertionError"
    );
    assert_eq!(
        exception_class(&SignalJniError::BadJniParameter("jstring".to_string())),
        "java/lang/AssertionError"
    );
    assert_eq!(
        exception_class(&SignalJniError::IntegerOverflow("-1 to u32".to_string())),
        "java/lang/RuntimeException"
    );
    assert_eq!(
        exception_class(&SignalJniError::Jni("bad reference".to_string())),
        "java/lang/RuntimeException"
    );
}

#[test]
fn protocol_errors_map_to_their_exception_classes() {
    let cases: Vec<(ProtocolError, &str)> = vec![
        (
            ProtocolError::DuplicatedMessage(3, 4),
            "org/signal/libsignal/DuplicatedMessageException",
        ),
        (
            ProtocolError::InvalidPreKeyId,
            "org/signal/libsignal/InvalidKeyIdException",
        ),
        (
            ProtocolError::InvalidSignedPreKeyId,
            "org/signal/libsignal/InvalidKeyIdException",
        ),
        (
            ProtocolError::InvalidSenderKeyId,
            "org/signal/libsignal/InvalidKeyIdException",
        ),
        (
            ProtocolError::NoKeyTypeIdentifier,
            "org/signal/libsignal/InvalidKeyException",
        ),
        (
            ProtocolError::BadKeyType(9),
            "org/signal/libsignal/InvalidKeyException",
        ),
        (
            ProtocolError::BadKeyLength(5, 31),
            "org/signal/libsignal/InvalidKeyException",
        ),
        (
            ProtocolError::SessionNotFound,
            "org/signal/libsignal/NoSessionException",
        ),
        (
            ProtocolError::InvalidMessage("truncated".to_string()),
            "org/signal/libsignal/InvalidMessageException",
        ),
        (
            ProtocolError::CiphertextMessageTooShort(2),
            "org/signal/libsignal/InvalidMessageException",
        ),
        (
            ProtocolError::UnrecognizedCiphertextVersion(9),
            "org/signal/libsignal/InvalidMessageException",
        ),
        (
            ProtocolError::UnrecognizedMessageVersion(9),
            "org/signal/libsignal/InvalidMessageException",
        ),
        (
            ProtocolError::InvalidCiphertext,
            "org/signal/libsignal/InvalidMessageException",
        ),
        (
            ProtocolError::InvalidProtobufEncoding,
            "org/signal/libsignal/InvalidMessageException",
        ),
        (
            ProtocolError::LegacyCiphertextVersion(1),
            "org/signal/libsignal/LegacyMessageException",
        ),
        (
            ProtocolError::InvalidState("session".to_string(), "no state".to_string()),
            "java/lang/IllegalStateException",
        ),
        (
            ProtocolError::NoSenderKeyState,
            "java/lang/IllegalStateException",
        ),
        (
            ProtocolError::InvalidSessionStructure,
            "java/lang/IllegalStateException",
        ),
        (
            ProtocolError::InvalidArgument("bad count".to_string()),
            "java/lang/IllegalArgumentException",
        ),
        (
            ProtocolError::Generic("internal".to_string()),
            "java/lang/RuntimeException",
        ),
    ];
    for (err, class) in cases {
        // The mapping is deterministic across repeated invocations.
        assert_eq!(exception_class(&SignalJniError::Signal(err)), class);
    }
}

#[test]
fn error_messages_carry_the_offending_details() {
    assert_eq!(error_message(&SignalJniError::NullHandle), "null handle");
    assert_eq!(
        error_message(&SignalJniError::BadJniParameter("jstring".to_string())),
        "bad parameter type jstring"
    );
    assert_eq!(
        error_message(&SignalJniError::IntegerOverflow("-1 to u32".to_string())),
        "integer overflow during conversion of -1 to u32"
    );
    assert_eq!(
        error_message(&SignalJniError::Signal(ProtocolError::InvalidArgument(
            "bad count".to_string()
        ))),
        "invalid argument: bad count"
    );
}

#[test]
fn dump_lists_keys_in_sorted_order() {
    let mut map = StringMap::new();
    map.insert("b".to_string(), "2".to_string());
    map.insert("a".to_string(), "1".to_string());
    let text = TESTING_BridgedStringMap_dump_to_json(&map);
    let pos_a = text.find("\"a\"").expect("key a must appear");
    let pos_b = text.find("\"b\"").expect("key b must appear");
    assert!(pos_a < pos_b);
}

#[test]
fn dump_does_not_depend_on_insertion_order() {
    let mut forward = StringMap::new();
    forward.insert("b".to_string(), "2".to_string());
    forward.insert("a".to_string(), "1".to_string());
    let mut backward = StringMap::new();
    backward.insert("a".to_string(), "1".to_string());
    backward.insert("b".to_string(), "2".to_string());
    assert_eq!(
        TESTING_BridgedStringMap_dump_to_json(&forward),
        TESTING_BridgedStringMap_dump_to_json(&backward)
    );
}

#[test]
fn dump_keeps_the_last_binding_of_a_key() {
    let mut map = StringMap::new();
    map.insert("k".to_string(), "old".to_string());
    map.insert("k".to_string(), "new".to_string());
    let text = TESTING_BridgedStringMap_dump_to_json(&map);
    assert!(text.contains("\"new\""));
    assert!(!text.contains("\"old\""));
}

#[test]
fn dump_of_an_empty_map_is_an_empty_object() {
    let map = StringMap::new();
    assert_eq!(TESTING_BridgedStringMap_dump_to_json(&map), "{}");
}

#[test]
fn protocol_error_converts_into_a_signal_error() {
    let e: SignalJniError = ProtocolError::SessionNotFound.into();
    match e {
        SignalJniError::Signal(ProtocolError::SessionNotFound) => {}
        _ => panic!("conversion must wrap the protocol error unchanged"),
    }
}
