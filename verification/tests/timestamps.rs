use twilight_dispatch::models::{DeliveryOpcode, FormattedDateTime};

#[test]
fn stored_text_reads_as_utc() {
    let t = FormattedDateTime::parse("2021-03-04T05:06:07.89").unwrap();
    assert_eq!(t.nanos, 1614834367890000000);
}

#[test]
fn instants_are_written_with_their_fraction() {
    let t = FormattedDateTime { nanos: 1614834367890000000 };
    assert_eq!(t.format().unwrap(), "2021-03-04T05:06:07.89");
    let epoch = FormattedDateTime { nanos: 0 };
    assert_eq!(epoch.format().unwrap(), "1970-01-01T00:00:00.0");
}

#[test]
fn written_text_reads_back() {
    for nanos in [0i128, 1, 1614834367890000000, -1_000_000_123, 253_402_300_799_999_999_999] {
        let t = FormattedDateTime { nanos };
        let text = t.format().unwrap();
        assert_eq!(FormattedDateTime::parse(&text).unwrap().nanos, nanos);
    }
}

#[test]
fn unreadable_text_is_rejected() {
    assert!(FormattedDateTime::parse("yesterday").is_none());
    assert!(FormattedDateTime::parse("2021-03-04T05:06:07").is_none());
}

#[test]
fn out_of_range_instant_has_no_text() {
    let t = FormattedDateTime { nanos: 253_402_300_800_000_000_000 };
    assert!(t.format().is_none());
}

#[test]
fn arithmetic_on_instants() {
    let t = FormattedDateTime { nanos: 5_000_000 };
    assert_eq!(t.add_millis(3).nanos, 8_000_000);
    assert_eq!(t.add_millis(-5).nanos, 0);
    assert_eq!(t.sub_millis(2).nanos, 3_000_000);
    assert_eq!(t.since(&FormattedDateTime { nanos: 6_000_000 }), -1_000_000);
}

#[test]
fn now_is_recent_and_readable() {
    let now = FormattedDateTime::now();
    assert!(now.nanos > 1_600_000_000_000_000_000);
    let text = now.format().unwrap();
    assert_eq!(FormattedDateTime::parse(&text).unwrap().nanos, now.nanos);
}

#[test]
fn delivery_opcodes_by_number() {
    assert_eq!(DeliveryOpcode::from_u8(0), Some(DeliveryOpcode::Send));
    assert_eq!(DeliveryOpcode::from_u8(1), Some(DeliveryOpcode::Reconnect));
    assert_eq!(DeliveryOpcode::from_u8(2), None);
    assert_eq!(DeliveryOpcode::Send.to_u8(), 0);
    assert_eq!(DeliveryOpcode::Reconnect.to_u8(), 1);
}

#[test]
fn every_instant_in_range_reads_back() {
    for nanos in [
        -377_705_116_800_000_000_000i128,
        -62_167_219_200_000_000_001,
        -1,
        0,
        1,
        1_614_834_367_890_000_000,
        1_614_834_367_000_000_007,
        253_402_300_799_999_999_999,
    ] {
        let text = FormattedDateTime { nanos }.format().unwrap();
        assert_eq!(FormattedDateTime::parse(text.as_str()), Some(FormattedDateTime { nanos }), "{}", text);
    }
}
