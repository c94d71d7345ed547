use esp32_logger::Decimal;
use esp32_logger::decode;

fn full(temp: &str) -> Vec<u8> {
    let msg = format!(
        "{{\"temperature\":{},\"humidity\":50.0,\"pressure\":1013.0,\"altitude\":100.0,\"gas_resistance\":500.0}}",
        temp
    );
    msg.into_bytes()
}

#[test]
fn scenario_a_zero_celsius_is_32_fahrenheit() {
    let reading = decode(&full("0.0")).unwrap();
    assert!(reading.temperature.value_eq(Decimal { mantissa: 32, exponent: 0 }));
    assert!(reading.humidity.value_eq(Decimal { mantissa: 50, exponent: 0 }));
    assert!(reading.pressure.value_eq(Decimal { mantissa: 1013, exponent: 0 }));
    assert!(reading.altitude.value_eq(Decimal { mantissa: 100, exponent: 0 }));
    assert!(reading.gas_resistance.value_eq(Decimal { mantissa: 500, exponent: 0 }));
}

#[test]
fn scenario_b_100_celsius_is_212_fahrenheit() {
    let reading = decode(&full("100.0")).unwrap();
    assert!(reading.temperature.value_eq(Decimal { mantissa: 212, exponent: 0 }));
}

#[test]
fn minus_40_is_the_fixed_point() {
    let reading = decode(&full("-40")).unwrap();
    assert!(reading.temperature.value_eq(Decimal { mantissa: -40, exponent: 0 }));
}

#[test]
fn fractional_celsius_converts_exactly() {
    // 21.5 C = 70.7 F, exactly.
    let reading = decode(&full("21.5")).unwrap();
    assert!(reading.temperature.value_eq(Decimal { mantissa: 707, exponent: -1 }));
    assert_eq!(reading.temperature.mantissa, 7070);
    assert_eq!(reading.temperature.exponent, -2);
}

#[test]
fn other_fields_pass_through_unchanged() {
    let msg = b"{\"temperature\":0,\"humidity\":41.25,\"pressure\":1013.25,\"altitude\":-12.5,\"gas_resistance\":500000}";
    let reading = decode(msg).unwrap();
    assert_eq!(reading.humidity.mantissa, 4125);
    assert_eq!(reading.humidity.exponent, -2);
    assert_eq!(reading.pressure.mantissa, 101325);
    assert_eq!(reading.pressure.exponent, -2);
    assert_eq!(reading.altitude.mantissa, -125);
    assert_eq!(reading.altitude.exponent, -1);
    assert_eq!(reading.gas_resistance.mantissa, 500000);
    assert_eq!(reading.gas_resistance.exponent, 0);
}

#[test]
fn field_order_does_not_matter() {
    let msg = b"{\"gas_resistance\":500.0,\"altitude\":100.0,\"pressure\":1013.0,\"humidity\":50.0,\"temperature\":100.0}";
    let reading = decode(msg).unwrap();
    assert!(reading.temperature.value_eq(Decimal { mantissa: 212, exponent: 0 }));
}

#[test]
fn whitespace_between_tokens_is_accepted() {
    let msg = b" \t\r\n{ \"temperature\" : 0.0 ,\n \"humidity\": 50.0, \"pressure\":1013.0, \"altitude\":100.0, \"gas_resistance\":500.0 } \n";
    let reading = decode(msg).unwrap();
    assert!(reading.temperature.value_eq(Decimal { mantissa: 32, exponent: 0 }));
}

#[test]
fn exponent_notation_is_accepted() {
    assert!(decode(&full("1e2")).unwrap().temperature.value_eq(Decimal {
        mantissa: 212,
        exponent: 0,
    }));
    assert!(decode(&full("1E2")).unwrap().temperature.value_eq(Decimal {
        mantissa: 212,
        exponent: 0,
    }));
    assert!(decode(&full("1e+2")).unwrap().temperature.value_eq(Decimal {
        mantissa: 212,
        exponent: 0,
    }));
    assert!(decode(&full("2515e-1")).unwrap().temperature.value_eq(Decimal {
        mantissa: 4847,
        exponent: -1,
    }));
}

#[test]
fn zero_with_huge_exponent_is_still_zero() {
    let reading = decode(&full("0e999999")).unwrap();
    assert!(reading.temperature.value_eq(Decimal { mantissa: 32, exponent: 0 }));
}

#[test]
fn negative_zero_decodes_as_zero() {
    let reading = decode(&full("-0.0")).unwrap();
    assert!(reading.temperature.value_eq(Decimal { mantissa: 32, exponent: 0 }));
}

#[test]
fn missing_field_is_rejected() {
    let msg = b"{\"temperature\":0.0,\"humidity\":50.0,\"pressure\":1013.0,\"altitude\":100.0}";
    assert!(decode(msg).is_err());
}

#[test]
fn empty_object_is_rejected() {
    assert!(decode(b"{}").is_err());
    assert!(decode(b"{ }").is_err());
}

#[test]
fn wrong_value_type_is_rejected() {
    let msg = b"{\"temperature\":\"warm\",\"humidity\":50.0,\"pressure\":1013.0,\"altitude\":100.0,\"gas_resistance\":500.0}";
    assert!(decode(msg).is_err());
}

#[test]
fn non_text_garbage_is_rejected() {
    assert!(decode(&[0xff, 0xfe, 0x00, 0x80]).is_err());
    assert!(decode(b"").is_err());
    assert!(decode(b"   ").is_err());
    assert!(decode(b"hello").is_err());
}

#[test]
fn truncated_message_is_rejected() {
    let msg = b"{\"temperature\":0.0,\"humidity\":50.0,\"pre";
    assert!(decode(msg).is_err());
}

#[test]
fn duplicate_field_is_rejected() {
    let msg = b"{\"temperature\":0.0,\"temperature\":1.0,\"humidity\":50.0,\"pressure\":1013.0,\"altitude\":100.0,\"gas_resistance\":500.0}";
    assert!(decode(msg).is_err());
}

#[test]
fn unknown_field_is_rejected() {
    let msg = b"{\"temperature\":0.0,\"humidity\":50.0,\"pressure\":1013.0,\"altitude\":100.0,\"gas_resistance\":500.0,\"extra\":1}";
    assert!(decode(msg).is_err());
}

#[test]
fn trailing_garbage_is_rejected() {
    let msg = b"{\"temperature\":0.0,\"humidity\":50.0,\"pressure\":1013.0,\"altitude\":100.0,\"gas_resistance\":500.0} x";
    assert!(decode(msg).is_err());
}

#[test]
fn malformed_numbers_are_rejected() {
    assert!(decode(&full("01")).is_err());
    assert!(decode(&full("1.")).is_err());
    assert!(decode(&full(".5")).is_err());
    assert!(decode(&full("+5")).is_err());
    assert!(decode(&full("--1")).is_err());
    assert!(decode(&full("1e")).is_err());
    assert!(decode(&full("1e-")).is_err());
    assert!(decode(&full("nan")).is_err());
}

#[test]
fn values_out_of_the_supported_range_are_rejected() {
    // Mantissa past 10^15.
    assert!(decode(&full("10000000000000000")).is_err());
    // The bound itself is fine.
    assert!(decode(&full("1000000000000000")).is_ok());
    // Finer than 10^-9.
    assert!(decode(&full("0.0000000001")).is_err());
    assert!(decode(&full("0.000000001")).is_ok());
    // A nonzero value with an overwhelming exponent.
    assert!(decode(&full("1e999999")).is_err());
    assert!(decode(&full("2e1000001")).is_err());
}

#[test]
fn value_eq_distinguishes_values() {
    let a = Decimal::new(320, -1);
    let b = Decimal::new(32, 0);
    let c = Decimal::new(33, 0);
    assert!(a.value_eq(b));
    assert!(!a.value_eq(c));
    assert!(!b.value_eq(c));
}
