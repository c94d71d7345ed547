use esp32_logger::Collector;
use esp32_logger::Decimal;

fn msg(temp: &str) -> Vec<u8> {
    format!(
        "{{\"temperature\":{},\"humidity\":50.0,\"pressure\":1013.0,\"altitude\":100.0,\"gas_resistance\":500.0}}",
        temp
    )
    .into_bytes()
}

#[test]
fn new_collector_is_running_and_empty() {
    let mut c = Collector::new();
    assert!(c.is_running());
    c.on_shutdown();
    let records = c.finalize();
    assert_eq!(records.len(), 0);
}

#[test]
fn scenario_d_three_messages_then_shutdown() {
    let mut c = Collector::new();
    assert!(c.on_datagram(&msg("0.0")).is_ok());
    assert!(c.on_datagram(&msg("100.0")).is_ok());
    assert!(c.on_datagram(&msg("-40")).is_ok());
    c.on_shutdown();
    assert!(!c.is_running());
    let records = c.finalize();
    assert_eq!(records.len(), 3);
    // Receipt order is kept.
    assert!(records[0].temperature.value_eq(Decimal { mantissa: 32, exponent: 0 }));
    assert!(records[1].temperature.value_eq(Decimal { mantissa: 212, exponent: 0 }));
    assert!(records[2].temperature.value_eq(Decimal { mantissa: -40, exponent: 0 }));
}

#[test]
fn scenario_c_malformed_datagram_does_not_stop_ingestion() {
    let mut c = Collector::new();
    assert!(c.on_datagram(&msg("0.0")).is_ok());
    assert!(c.on_datagram(b"not json at all").is_err());
    assert!(c.is_running());
    assert!(c.on_datagram(&msg("100.0")).is_ok());
    c.on_shutdown();
    let records = c.finalize();
    assert_eq!(records.len(), 2);
    assert!(records[0].temperature.value_eq(Decimal { mantissa: 32, exponent: 0 }));
    assert!(records[1].temperature.value_eq(Decimal { mantissa: 212, exponent: 0 }));
}

#[test]
fn shutdown_never_drops_a_recorded_reading() {
    let mut c = Collector::new();
    let published = c.on_datagram(&msg("25")).unwrap();
    c.on_shutdown();
    let records = c.finalize();
    assert_eq!(records.len(), 1);
    assert_eq!(records[0], published);
}

#[test]
fn repeated_shutdown_requests_are_idempotent() {
    let mut once = Collector::new();
    assert!(once.on_datagram(&msg("1.5")).is_ok());
    once.on_shutdown();

    let mut twice = Collector::new();
    assert!(twice.on_datagram(&msg("1.5")).is_ok());
    twice.on_shutdown();
    twice.on_shutdown();
    twice.on_shutdown();

    assert_eq!(once.is_running(), twice.is_running());
    let once_records = once.finalize();
    let twice_records = twice.finalize();
    assert_eq!(once_records, twice_records);
}

#[test]
fn ingest_all_counts_and_records_in_order() {
    let mut c = Collector::new();
    let batch = vec![
        msg("0.0"),
        b"garbage".to_vec(),
        msg("100.0"),
        msg("0.5"),
    ];
    let accepted = c.ingest_all(&batch);
    assert_eq!(accepted, 3);
    c.on_shutdown();
    let records = c.finalize();
    assert_eq!(records.len(), 3);
    assert!(records[0].temperature.value_eq(Decimal { mantissa: 32, exponent: 0 }));
    assert!(records[1].temperature.value_eq(Decimal { mantissa: 212, exponent: 0 }));
    // 0.5 C = 32.9 F, exactly.
    assert!(records[2].temperature.value_eq(Decimal { mantissa: 329, exponent: -1 }));
}
