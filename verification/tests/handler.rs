use twilight_dispatch::cluster::ShardRange;
use twilight_dispatch::constants::{DISCONNECT_COLOR, JOIN_COLOR, LEAVE_COLOR, READY_COLOR};
use twilight_dispatch::handler::{
    guild_join_report, guild_leave_report, payload_route, route_delivery, shard_report, updates_state,
    DeliveryAction, DiscordLog, ShardEvent,
};
use twilight_dispatch::models::DeliveryOpcode;

#[test]
fn ready_is_logged_posted_and_counted() {
    let report = shard_report(3, &ShardEvent::Ready { session_id: "abc".into() });
    assert_eq!(report.log.as_deref(), Some("[Shard 3] Ready (session: abc)"));
    assert_eq!(report.discord, Some(DiscordLog { color: READY_COLOR, message: "[Shard 3] Ready".into() }));
    assert_eq!(report.metric, Some("Ready"));
}

#[test]
fn disconnects_with_and_without_reason() {
    let event = ShardEvent::ShardDisconnected { code: Some(4000), reason: Some("bye".into()) };
    assert_eq!(shard_report(0, &event).log.as_deref(), Some("[Shard 0] Disconnected (code: 4000, reason: bye)"));
    let event = ShardEvent::ShardDisconnected { code: Some(4000), reason: Some("".into()) };
    assert_eq!(shard_report(0, &event).log.as_deref(), Some("[Shard 0] Disconnected (code: 4000)"));
    let event = ShardEvent::ShardDisconnected { code: None, reason: None };
    let report = shard_report(0, &event);
    assert_eq!(report.log.as_deref(), Some("[Shard 0] Disconnected"));
    assert_eq!(report.discord.unwrap().color, DISCONNECT_COLOR);
}

#[test]
fn other_shard_events() {
    assert_eq!(shard_report(1, &ShardEvent::GatewayHello { heartbeat_interval: 41250 }).log.as_deref(), Some("[Shard 1] Hello (heartbeat interval: 41250)"));
    assert_eq!(shard_report(1, &ShardEvent::GatewayInvalidateSession { resumable: false }).log.as_deref(), Some("[Shard 1] Invalid Session (resumable: false)"));
    assert_eq!(shard_report(1, &ShardEvent::Resumed { session_id: None }).log.as_deref(), Some("[Shard 1] Resumed"));
    assert_eq!(shard_report(1, &ShardEvent::Resumed { session_id: Some("x".into()) }).log.as_deref(), Some("[Shard 1] Resumed (session: x)"));
    let report = shard_report(1, &ShardEvent::ShardConnecting { gateway: "wss://g".into() });
    assert_eq!(report.log.as_deref(), Some("[Shard 1] Connecting (url: wss://g)"));
    assert_eq!(report.discord, None);
    assert_eq!(report.metric, Some("Connecting"));
    assert_eq!(shard_report(1, &ShardEvent::ShardResuming { sequence: 77 }).log.as_deref(), Some("[Shard 1] Resuming (sequence: 77)"));
    assert_eq!(shard_report(1, &ShardEvent::ShardIdentifying).metric, Some("Identifying"));
    assert_eq!(shard_report(1, &ShardEvent::ShardReconnecting).metric, Some("Reconnecting"));
    let report = shard_report(1, &ShardEvent::Other);
    assert!(report.log.is_none() && report.discord.is_none() && report.metric.is_none());
}

#[test]
fn state_is_updated_from_payloads_only() {
    assert!(updates_state(true, true));
    assert!(!updates_state(true, false));
    assert!(!updates_state(false, true));
    assert!(!updates_state(false, false));
}

#[test]
fn guild_join_only_when_not_cached() {
    let report = guild_join_report(false, "Test", 5).unwrap();
    assert_eq!((report.color, report.title, report.message.as_str()), (JOIN_COLOR, "Guild Join", "Test (5)"));
    assert!(guild_join_report(true, "Test", 5).is_none());
}

#[test]
fn guild_leave_names_the_cached_guild() {
    let report = guild_leave_report(false, Some("Test".into()), Some("5".into())).unwrap();
    assert_eq!((report.color, report.title, report.message.as_str()), (LEAVE_COLOR, "Guild Leave", "Test (5)"));
    let report = guild_leave_report(false, None, None).unwrap();
    assert_eq!(report.message, "Unknown (0)");
    assert!(guild_leave_report(true, None, None).is_none());
}

#[test]
fn payloads_route_by_event_name() {
    let route = payload_route(Some("MESSAGE_CREATE".into()), 12).unwrap();
    assert_eq!(route.routing_key, "MESSAGE_CREATE");
    assert_eq!(route.shard_label, "12");
    assert!(payload_route(None, 12).is_none());
}

#[test]
fn deliveries_routed_to_the_cluster_of_the_shard() {
    let clusters = vec![ShardRange { from: 0, to: 4 }, ShardRange { from: 5, to: 9 }];
    assert_eq!(route_delivery(DeliveryOpcode::Send, 7, &clusters), DeliveryAction::Send { cluster: 1, shard: 7 });
    assert_eq!(route_delivery(DeliveryOpcode::Reconnect, 0, &clusters), DeliveryAction::Reconnect { cluster: 0, shard: 0 });
    assert_eq!(route_delivery(DeliveryOpcode::Send, 10, &clusters), DeliveryAction::InvalidShard { shard: 10 });
}
