use telemetry_core::codec::{decode, encode};
use telemetry_core::values::ParameterValue;

fn round_trip(value: ParameterValue) -> ParameterValue {
    let bytes = encode(&value);
    decode(&bytes).expect("a fresh encoding must decode")
}

#[test]
fn round_trip_dict_with_number_and_array() {
    let value = ParameterValue::Dict(vec![
        (String::from("a"), ParameterValue::Number(1.0f64.to_bits())),
        (
            String::from("b"),
            ParameterValue::Array(vec![ParameterValue::Bool(true)]),
        ),
    ]);
    let expected = ParameterValue::Dict(vec![
        (String::from("a"), ParameterValue::Number(1.0f64.to_bits())),
        (
            String::from("b"),
            ParameterValue::Array(vec![ParameterValue::Bool(true)]),
        ),
    ]);
    assert_eq!(round_trip(value), expected);
}

#[test]
fn round_trip_scalars_and_bytes() {
    assert_eq!(
        round_trip(ParameterValue::Number(0.5f64.to_bits())),
        ParameterValue::Number(0.5f64.to_bits())
    );
    assert_eq!(round_trip(ParameterValue::Bool(false)), ParameterValue::Bool(false));
    assert_eq!(
        round_trip(ParameterValue::Bytes(vec![0, 255, 7])),
        ParameterValue::Bytes(vec![0, 255, 7])
    );
    assert_eq!(round_trip(ParameterValue::Array(vec![])), ParameterValue::Array(vec![]));
    assert_eq!(round_trip(ParameterValue::Dict(vec![])), ParameterValue::Dict(vec![]));
}

#[test]
fn round_trip_deep_nesting() {
    let value = ParameterValue::Array(vec![
        ParameterValue::Dict(vec![(
            String::from("inner"),
            ParameterValue::Array(vec![
                ParameterValue::Bytes(vec![9, 8]),
                ParameterValue::Number(6.25f64.to_bits()),
            ]),
        )]),
        ParameterValue::Bool(true),
    ]);
    let bytes = encode(&value);
    let back = decode(&bytes).unwrap();
    assert_eq!(back, value);
}

#[test]
fn round_trip_multibyte_utf8_key() {
    // The key travels as UTF-8; a multi-byte key would come back mangled
    // if the byte-to-string step handed bytes through unchanged.
    let value = ParameterValue::Dict(vec![(
        String::from("caf\u{e9}"),
        ParameterValue::Bool(true),
    )]);
    let bytes = encode(&value);
    let back = decode(&bytes).unwrap();
    match back {
        ParameterValue::Dict(entries) => {
            assert_eq!(entries.len(), 1);
            assert_eq!(entries[0].0, "caf\u{e9}");
        }
        other => panic!("expected a dictionary, got {:?}", other),
    }
}

#[test]
fn exact_wire_bytes_of_simple_values() {
    assert_eq!(encode(&ParameterValue::Bool(true)), vec![1, 1]);
    assert_eq!(encode(&ParameterValue::Bool(false)), vec![1, 0]);
    assert_eq!(
        encode(&ParameterValue::Number(0)),
        vec![0, 0, 0, 0, 0, 0, 0, 0, 0]
    );
    // 1.0 is 0x3FF0_0000_0000_0000 in IEEE-754 bits, written big-endian.
    assert_eq!(
        encode(&ParameterValue::Number(1.0f64.to_bits())),
        vec![0, 0x3f, 0xf0, 0, 0, 0, 0, 0, 0]
    );
    // A byte string: tag, 64-bit big-endian length, then the bytes.
    assert_eq!(
        encode(&ParameterValue::Bytes(vec![7])),
        vec![2, 0, 0, 0, 0, 0, 0, 0, 1, 7]
    );
}

#[test]
fn decode_rejects_malformed_input() {
    // Empty input.
    assert_eq!(decode(&vec![]), None);
    // Unknown tag.
    assert_eq!(decode(&vec![9]), None);
    // Truncated number.
    assert_eq!(decode(&vec![0, 1, 2]), None);
    // Boolean with an out-of-range byte.
    assert_eq!(decode(&vec![1, 2]), None);
    // Byte string whose declared length overruns the buffer.
    assert_eq!(decode(&vec![2, 0, 0, 0, 0, 0, 0, 0, 9, 1]), None);
    // Trailing garbage after a complete value.
    assert_eq!(decode(&vec![1, 1, 0]), None);
    // Dictionary whose key bytes are not valid UTF-8.
    let bad_key = vec![
        4, 0, 0, 0, 0, 0, 0, 0, 1, // one entry
        0, 0, 0, 0, 0, 0, 0, 1, 0xff, // key of one invalid byte
        1, 1, // value true
    ];
    assert_eq!(decode(&bad_key), None);
}

#[test]
fn round_trip_preserves_number_bits_exactly() {
    // The codec carries the IEEE-754 bits untouched, so even a NaN
    // payload survives bit-for-bit.
    let nan_bits = f64::NAN.to_bits();
    assert_eq!(
        round_trip(ParameterValue::Number(nan_bits)),
        ParameterValue::Number(nan_bits)
    );
    let neg_zero = (-0.0f64).to_bits();
    assert_eq!(
        round_trip(ParameterValue::Number(neg_zero)),
        ParameterValue::Number(neg_zero)
    );
}
