use twilight_dispatch::models::{FormattedDateTime, SessionInfo, StatusInfo};
use twilight_dispatch::status::{
    last_ack_in_range, latency_gauge, session_entries, sort_statuses, stage_counts, status_info, ShardSnapshot, ShardStage,
};

fn snapshot(shard: u64, stage: ShardStage) -> ShardSnapshot {
    ShardSnapshot {
        shard,
        stage,
        latest_latency_millis: None,
        last_ack_elapsed_millis: None,
        session_id: None,
        sequence: 0,
    }
}

#[test]
fn stage_names() {
    assert_eq!(ShardStage::Connected.name(), "Connected");
    assert_eq!(ShardStage::Disconnected.name(), "Disconnected");
    assert_eq!(ShardStage::Handshaking.name(), "Handshaking");
    assert_eq!(ShardStage::Identifying.name(), "Identifying");
    assert_eq!(ShardStage::Resuming.name(), "Resuming");
}

#[test]
fn status_of_a_shard() {
    let now = FormattedDateTime { nanos: 10_000_000_000 };
    let mut s = snapshot(4, ShardStage::Connected);
    s.latest_latency_millis = Some(42);
    s.last_ack_elapsed_millis = Some(1500);
    let status = status_info(&s, &now);
    assert_eq!(status, StatusInfo {
        shard: 4,
        status: "Connected".into(),
        latency: 42,
        last_ack: FormattedDateTime { nanos: 8_500_000_000 },
    });
}

#[test]
fn status_before_first_heartbeat() {
    let now = FormattedDateTime { nanos: 7 };
    let status = status_info(&snapshot(1, ShardStage::Identifying), &now);
    assert_eq!(status.latency, 0);
    assert_eq!(status.last_ack, now);
    assert_eq!(status.status, "Identifying");
}

#[test]
fn huge_latency_keeps_low_bits() {
    let now = FormattedDateTime { nanos: 0 };
    let mut s = snapshot(1, ShardStage::Connected);
    s.latest_latency_millis = Some((1u128 << 64) + 5);
    assert_eq!(status_info(&s, &now).latency, 5);
    assert_eq!(latency_gauge(Some((1u128 << 64) + 5)), 5);
    assert_eq!(latency_gauge(Some(u64::MAX as u128)), -1);
    assert_eq!(latency_gauge(None), 0);
}

fn status(shard: u64, name: &str) -> StatusInfo {
    StatusInfo { shard, status: name.into(), latency: 0, last_ack: FormattedDateTime { nanos: 0 } }
}

#[test]
fn statuses_sorted_by_shard_stably() {
    let sorted = sort_statuses(vec![status(3, "a"), status(1, "b"), status(3, "c"), status(0, "d"), status(1, "e")]);
    assert_eq!(sorted, vec![status(0, "d"), status(1, "b"), status(1, "e"), status(3, "a"), status(3, "c")]);
    assert!(sort_statuses(vec![]).is_empty());
}

#[test]
fn sessions_by_shard_number() {
    let mut a = snapshot(2, ShardStage::Connected);
    a.session_id = Some("abc".into());
    a.sequence = 9;
    let b = snapshot(10, ShardStage::Resuming);
    assert_eq!(session_entries(&vec![a, b]), vec![
        ("2".to_string(), SessionInfo { session_id: "abc".into(), sequence: 9 }),
        ("10".to_string(), SessionInfo { session_id: "".into(), sequence: 0 }),
    ]);
}

#[test]
fn shards_counted_per_stage() {
    let stages = vec![ShardStage::Connected, ShardStage::Resuming, ShardStage::Connected, ShardStage::Identifying];
    assert_eq!(stage_counts(&stages), vec![
        (ShardStage::Connected, 2),
        (ShardStage::Disconnected, 0),
        (ShardStage::Handshaking, 0),
        (ShardStage::Identifying, 1),
        (ShardStage::Resuming, 1),
    ]);
    let total: i64 = stage_counts(&stages).iter().map(|c| c.1).sum();
    assert_eq!(total, 4);
}

#[test]
fn last_ack_range_check() {
    let now = FormattedDateTime { nanos: 5_000_000_000 };
    let mut shard = snapshot(0, ShardStage::Connected);
    assert!(last_ack_in_range(&shard, &now));
    shard.last_ack_elapsed_millis = Some(2_000);
    assert!(last_ack_in_range(&shard, &now));
    shard.last_ack_elapsed_millis = Some(400_000_000_000_000_000);
    assert!(!last_ack_in_range(&shard, &now));
    let first = FormattedDateTime { nanos: -377_705_116_800_000_000_000 };
    shard.last_ack_elapsed_millis = Some(1);
    assert!(!last_ack_in_range(&shard, &first));
    shard.last_ack_elapsed_millis = None;
    assert!(last_ack_in_range(&shard, &first));
}
