//! What the gateway does with each event of a shard, besides updating the
//! cache: the log line, the Discord log message and the metric of
//! connection events, guild join and leave reports, where a dispatch is
//! published; and where a command from the send queue goes.
use vstd::prelude::*;
use crate::cluster::{ShardRange, find_cluster};
use crate::constants::{CONNECT_COLOR, DISCONNECT_COLOR, JOIN_COLOR, LEAVE_COLOR, READY_COLOR, RESUME_COLOR};
use crate::decimal::{decimal, u64_to_decimal};
use crate::models::DeliveryOpcode;

verus! {

/// A gateway event as the handler sees it, with the values it reports.
#[derive(Clone, Debug, PartialEq, Eq)]
pub enum ShardEvent {
    GatewayHello { heartbeat_interval: u64 },
    GatewayInvalidateSession { resumable: bool },
    Ready { session_id: String },
    Resumed { session_id: Option<String> },
    ShardConnected,
    ShardConnecting { gateway: String },
    ShardDisconnected { code: Option<u16>, reason: Option<String> },
    ShardIdentifying,
    ShardReconnecting,
    ShardResuming { sequence: u64 },
    Other,
}

/// A message for the Discord log channel.
#[derive(Clone, Debug, PartialEq, Eq)]
pub struct DiscordLog {
    pub color: usize,
    pub message: String,
}

/// What the handler reports of a connection event.
#[derive(Clone, Debug, PartialEq, Eq)]
pub struct ShardReport {
    /// The line written to the log.
    pub log: Option<String>,
    /// The message posted to the Discord log channel.
    pub discord: Option<DiscordLog>,
    /// The label under which the shard event counter is increased.
    pub metric: Option<&'static str>,
}

/// `[Shard n] ` followed by `text`.
pub open spec fn shard_line(shard: u64, text: Seq<char>) -> Seq<char> {
    "[Shard "@ + decimal(shard as nat) + "] "@ + text
}

/// `true` or `false`.
pub open spec fn bool_text(b: bool) -> Seq<char> {
    if b { "true"@ } else { "false"@ }
}

/// The log line, Discord message and metric label of a connection event.
pub open spec fn shard_report_spec(shard: u64, event: ShardEvent) -> (Option<Seq<char>>, Option<(usize, Seq<char>)>, Option<Seq<char>>) {
    match event {
        ShardEvent::GatewayHello { heartbeat_interval } => (
            Some(shard_line(shard, "Hello (heartbeat interval: "@ + decimal(heartbeat_interval as nat) + ")"@)),
            None,
            None,
        ),
        ShardEvent::GatewayInvalidateSession { resumable } => (
            Some(shard_line(shard, "Invalid Session (resumable: "@ + bool_text(resumable) + ")"@)),
            None,
            None,
        ),
        ShardEvent::Ready { session_id } => (
            Some(shard_line(shard, "Ready (session: "@ + session_id@ + ")"@)),
            Some((READY_COLOR, shard_line(shard, "Ready"@))),
            Some("Ready"@),
        ),
        ShardEvent::Resumed { session_id } => (
            Some(match session_id {
                Some(id) => shard_line(shard, "Resumed (session: "@ + id@ + ")"@),
                None => shard_line(shard, "Resumed"@),
            }),
            Some((RESUME_COLOR, shard_line(shard, "Resumed"@))),
            Some("Resumed"@),
        ),
        ShardEvent::ShardConnected => (
            Some(shard_line(shard, "Connected"@)),
            Some((CONNECT_COLOR, shard_line(shard, "Connected"@))),
            Some("Connected"@),
        ),
        ShardEvent::ShardConnecting { gateway } => (
            Some(shard_line(shard, "Connecting (url: "@ + gateway@ + ")"@)),
            None,
            Some("Connecting"@),
        ),
        ShardEvent::ShardDisconnected { code, reason } => (
            Some(match code {
                Some(c) => match reason {
                    Some(r) => if r@.len() > 0 {
                        shard_line(shard, "Disconnected (code: "@ + decimal(c as nat) + ", reason: "@ + r@ + ")"@)
                    } else {
                        shard_line(shard, "Disconnected (code: "@ + decimal(c as nat) + ")"@)
                    },
                    None => shard_line(shard, "Disconnected (code: "@ + decimal(c as nat) + ")"@),
                },
                None => shard_line(shard, "Disconnected"@),
            }),
            Some((DISCONNECT_COLOR, shard_line(shard, "Disconnected"@))),
            Some("Disconnected"@),
        ),
        ShardEvent::ShardIdentifying => (Some(shard_line(shard, "Identifying"@)), None, Some("Identifying"@)),
        ShardEvent::ShardReconnecting => (Some(shard_line(shard, "Reconnecting"@)), None, Some("Reconnecting"@)),
        ShardEvent::ShardResuming { sequence } => (
            Some(shard_line(shard, "Resuming (sequence: "@ + decimal(sequence as nat) + ")"@)),
            None,
            Some("Resuming"@),
        ),
        ShardEvent::Other => (None, None, None),
    }
}

pub open spec fn opt_text(s: Option<String>) -> Option<Seq<char>> {
    match s {
        Some(t) => Some(t@),
        None => None,
    }
}

pub open spec fn opt_static(s: Option<&'static str>) -> Option<Seq<char>> {
    match s {
        Some(t) => Some(t@),
        None => None,
    }
}

pub open spec fn opt_discord(d: Option<DiscordLog>) -> Option<(usize, Seq<char>)> {
    match d {
        Some(l) => Some((l.color, l.message@)),
        None => None,
    }
}

/// `[Shard n] text`.
fn shard_text(shard: u64, text: String) -> (line: String)
    ensures
        line@ == shard_line(shard, text@),
{
    String::from_str("[Shard ").concat(u64_to_decimal(shard).as_str()).concat("] ").concat(text.as_str())
}

/// `prefix` + `value` + `)`.
fn parenthesized(prefix: &str, value: &str) -> (text: String)
    ensures
        text@ == prefix@ + value@ + ")"@,
{
    String::from_str(prefix).concat(value).concat(")")
}

fn discord(color: usize, message: String) -> (log: Option<DiscordLog>)
    ensures
        opt_discord(log) == Some((color, message@)),
{
    Some(DiscordLog { color, message })
}

/// What the handler logs, posts and counts for a connection event of a
/// shard.
pub fn shard_report(shard: u64, event: &ShardEvent) -> (report: ShardReport)
    ensures
        (opt_text(report.log), opt_discord(report.discord), opt_static(report.metric)) == shard_report_spec(shard, *event),
{
    match event {
        ShardEvent::GatewayHello { heartbeat_interval } => {
            let text = parenthesized("Hello (heartbeat interval: ", u64_to_decimal(*heartbeat_interval).as_str());
            ShardReport { log: Some(shard_text(shard, text)), discord: None, metric: None }
        },
        ShardEvent::GatewayInvalidateSession { resumable } => {
            let flag = if *resumable { "true" } else { "false" };
            let text = parenthesized("Invalid Session (resumable: ", flag);
            ShardReport { log: Some(shard_text(shard, text)), discord: None, metric: None }
        },
        ShardEvent::Ready { session_id } => {
            let text = parenthesized("Ready (session: ", session_id.as_str());
            ShardReport {
                log: Some(shard_text(shard, text)),
                discord: discord(READY_COLOR, shard_text(shard, String::from_str("Ready"))),
                metric: Some("Ready"),
            }
        },
        ShardEvent::Resumed { session_id } => {
            let log = match session_id {
                Some(id) => shard_text(shard, parenthesized("Resumed (session: ", id.as_str())),
                None => shard_text(shard, String::from_str("Resumed")),
            };
            ShardReport {
                log: Some(log),
                discord: discord(RESUME_COLOR, shard_text(shard, String::from_str("Resumed"))),
                metric: Some("Resumed"),
            }
        },
        ShardEvent::ShardConnected => ShardReport {
            log: Some(shard_text(shard, String::from_str("Connected"))),
            discord: discord(CONNECT_COLOR, shard_text(shard, String::from_str("Connected"))),
            metric: Some("Connected"),
        },
        ShardEvent::ShardConnecting { gateway } => {
            let text = parenthesized("Connecting (url: ", gateway.as_str());
            ShardReport { log: Some(shard_text(shard, text)), discord: None, metric: Some("Connecting") }
        },
        ShardEvent::ShardDisconnected { code, reason } => {
            let log = match code {
                Some(c) => {
                    let code_text = u64_to_decimal(*c as u64);
                    let with_reason = match reason {
                        Some(r) => if r.unicode_len() > 0 {
                            Some(String::from_str("Disconnected (code: ").concat(code_text.as_str()).concat(", reason: ").concat(
                                r.as_str(),
                            ).concat(")"))
                        } else {
                            None
                        },
                        None => None,
                    };
                    match with_reason {
                        Some(t) => shard_text(shard, t),
                        None => shard_text(shard, parenthesized("Disconnected (code: ", code_text.as_str())),
                    }
                },
                None => shard_text(shard, String::from_str("Disconnected")),
            };
            ShardReport {
                log: Some(log),
                discord: discord(DISCONNECT_COLOR, shard_text(shard, String::from_str("Disconnected"))),
                metric: Some("Disconnected"),
            }
        },
        ShardEvent::ShardIdentifying => ShardReport {
            log: Some(shard_text(shard, String::from_str("Identifying"))),
            discord: None,
            metric: Some("Identifying"),
        },
        ShardEvent::ShardReconnecting => ShardReport {
            log: Some(shard_text(shard, String::from_str("Reconnecting"))),
            discord: None,
            metric: Some("Reconnecting"),
        },
        ShardEvent::ShardResuming { sequence } => {
            let text = parenthesized("Resuming (sequence: ", u64_to_decimal(*sequence).as_str());
            ShardReport { log: Some(shard_text(shard, text)), discord: None, metric: Some("Resuming") }
        },
        ShardEvent::Other => ShardReport { log: None, discord: None, metric: None },
    }
}

/// Whether the cache is updated for an event: when state is kept, from each
/// dispatch payload, so that the payload published for it carries the
/// previous state; the parsed copy of the same dispatch leaves the cache
/// alone, as it would be a second update.
pub fn updates_state(state_enabled: bool, is_payload: bool) -> (update: bool)
    ensures
        update == (state_enabled && is_payload),
{
    state_enabled && is_payload
}

/// A report of a guild joined or left, for the guild log channel.
#[derive(Clone, Debug, PartialEq, Eq)]
pub struct GuildReport {
    pub color: usize,
    pub title: &'static str,
    pub message: String,
}

/// `name (id)`.
pub open spec fn guild_line(name: Seq<char>, id: Seq<char>) -> Seq<char> {
    name + " ("@ + id + ")"@
}

/// The report of a guild that arrives: a join when the cache held no
/// guild before (a guild that was cached is coming back, not joining).
pub fn guild_join_report(was_cached: bool, name: &str, id: u64) -> (report: Option<GuildReport>)
    ensures
        was_cached ==> report is None,
        !was_cached ==> (report matches Some(r) && r.color == JOIN_COLOR && r.title@ == "Guild Join"@
            && r.message@ == guild_line(name@, decimal(id as nat))),
{
    if was_cached {
        None
    } else {
        let message = String::from_str(name).concat(" (").concat(u64_to_decimal(id).as_str()).concat(")");
        Some(GuildReport { color: JOIN_COLOR, title: "Guild Join", message })
    }
}

/// The report of a guild that is deleted: a leave unless the guild only
/// became unavailable, named by its cached name and id (`Unknown` and `0`
/// when the cache did not have them).
pub fn guild_leave_report(unavailable: bool, cached_name: Option<String>, cached_id: Option<String>) -> (report: Option<GuildReport>)
    ensures
        unavailable ==> report is None,
        !unavailable ==> (report matches Some(r) && r.color == LEAVE_COLOR && r.title@ == "Guild Leave"@
            && r.message@ == guild_line(
                match cached_name { Some(n) => n@, None => "Unknown"@ },
                match cached_id { Some(i) => i@, None => "0"@ },
            )),
{
    if unavailable {
        return None;
    }
    let name = match cached_name {
        Some(n) => n,
        None => String::from_str("Unknown"),
    };
    let id = match cached_id {
        Some(i) => i,
        None => String::from_str("0"),
    };
    let message = name.concat(" (").concat(id.as_str()).concat(")");
    Some(GuildReport { color: LEAVE_COLOR, title: "Guild Leave", message })
}

/// Where a dispatch payload goes: published to the exchange under its event
/// name as routing key, and counted under that name and the shard number.
/// A payload without an event name is dropped.
#[derive(Clone, Debug, PartialEq, Eq)]
pub struct PayloadRoute {
    pub routing_key: String,
    pub shard_label: String,
}

pub fn payload_route(event_name: Option<String>, shard: u64) -> (route: Option<PayloadRoute>)
    ensures
        event_name is None ==> route is None,
        event_name matches Some(t) ==> (route matches Some(r) && r.routing_key@ == t@ && r.shard_label@ == decimal(shard as nat)),
{
    match event_name {
        Some(t) => Some(PayloadRoute { routing_key: t, shard_label: u64_to_decimal(shard) }),
        None => None,
    }
}

/// What to do with a command from the send queue.
#[derive(Clone, Copy, Debug, PartialEq, Eq)]
pub enum DeliveryAction {
    /// Send the payload through the shard, on the cluster at this index.
    Send { cluster: usize, shard: u64 },
    /// Shut the shard down so that it reconnects, on the cluster at this index.
    Reconnect { cluster: usize, shard: u64 },
    /// No cluster runs the shard.
    InvalidShard { shard: u64 },
}

/// The action for a command: its opcode on the first cluster that runs the
/// shard, or a warning when none does.
pub fn route_delivery(op: DeliveryOpcode, shard: u64, clusters: &Vec<ShardRange>) -> (action: DeliveryAction)
    ensures
        match action {
            DeliveryAction::Send { cluster, shard: s } => op == DeliveryOpcode::Send && s == shard,
            DeliveryAction::Reconnect { cluster, shard: s } => op == DeliveryOpcode::Reconnect && s == shard,
            DeliveryAction::InvalidShard { shard: s } => s == shard,
        },
        match action {
            DeliveryAction::Send { cluster, .. } | DeliveryAction::Reconnect { cluster, .. } =>
                cluster < clusters@.len() && clusters@[cluster as int].from <= shard <= clusters@[cluster as int].to
                && forall|j: int| 0 <= j < cluster ==> !((#[trigger] clusters@[j]).from <= shard <= clusters@[j].to),
            DeliveryAction::InvalidShard { .. } =>
                forall|j: int| 0 <= j < clusters@.len() ==> !((#[trigger] clusters@[j]).from <= shard <= clusters@[j].to),
        },
{
    match find_cluster(clusters, shard) {
        Some(cluster) => match op {
            DeliveryOpcode::Send => DeliveryAction::Send { cluster, shard },
            DeliveryOpcode::Reconnect => DeliveryAction::Reconnect { cluster, shard },
        },
        None => DeliveryAction::InvalidShard { shard },
    }
}

/// Whether a connection event is posted to the Discord log channel.
pub open spec fn posted(event: ShardEvent) -> bool {
    ||| event is Ready
    ||| event is Resumed
    ||| event is ShardConnected
    ||| event is ShardDisconnected
}

/// What is posted to the Discord log channel for a connection event: a
/// shard that is ready, resumes, connects or disconnects is announced as
/// `[Shard n] Ready`, `Resumed`, `Connected` or `Disconnected`, in green,
/// blue, green and red; nothing else is posted. The announcement names
/// the shard event it is counted under, and every event that is counted
/// or posted is also logged.
pub proof fn law_shard_announcements(shard: u64, event: ShardEvent, session: String)
    ensures
        shard_report_spec(shard, ShardEvent::Ready { session_id: session }).1
            == Some((READY_COLOR, "[Shard "@ + decimal(shard as nat) + "] Ready"@)),
        (shard_report_spec(shard, ShardEvent::Resumed { session_id: None }).1
            == Some((RESUME_COLOR, "[Shard "@ + decimal(shard as nat) + "] Resumed"@))),
        shard_report_spec(shard, ShardEvent::ShardConnected).1
            == Some((CONNECT_COLOR, "[Shard "@ + decimal(shard as nat) + "] Connected"@)),
        shard_report_spec(shard, ShardEvent::ShardDisconnected { code: None, reason: None }).1
            == Some((DISCONNECT_COLOR, "[Shard "@ + decimal(shard as nat) + "] Disconnected"@)),
        READY_COLOR == 0x00FF00 && CONNECT_COLOR == 0x00FF00 && RESUME_COLOR == 0x1E90FF && DISCONNECT_COLOR == 0xFF0000,
        shard_report_spec(shard, event).1 is Some <==> posted(event),
        posted(event) ==> shard_report_spec(shard, event).2 is Some,
        posted(event) ==> shard_report_spec(shard, event).1.unwrap().1
            == "[Shard "@ + decimal(shard as nat) + "] "@ + shard_report_spec(shard, event).2.unwrap(),
        (shard_report_spec(shard, event).1 is Some || shard_report_spec(shard, event).2 is Some)
            ==> shard_report_spec(shard, event).0 is Some,
{
    reveal_strlit("] ");
    reveal_strlit("Ready");
    reveal_strlit("] Ready");
    reveal_strlit("Resumed");
    reveal_strlit("] Resumed");
    reveal_strlit("Connected");
    reveal_strlit("] Connected");
    reveal_strlit("Disconnected");
    reveal_strlit("] Disconnected");
    assert(shard_line(shard, "Ready"@) =~= "[Shard "@ + decimal(shard as nat) + "] Ready"@);
    assert(shard_line(shard, "Resumed"@) =~= "[Shard "@ + decimal(shard as nat) + "] Resumed"@);
    assert(shard_line(shard, "Connected"@) =~= "[Shard "@ + decimal(shard as nat) + "] Connected"@);
    assert(shard_line(shard, "Disconnected"@) =~= "[Shard "@ + decimal(shard as nat) + "] Disconnected"@);
    match event {
        ShardEvent::Ready { .. } => assert(shard_line(shard, "Ready"@) =~= "[Shard "@ + decimal(shard as nat) + "] "@ + "Ready"@),
        ShardEvent::Resumed { .. } => assert(shard_line(shard, "Resumed"@) =~= "[Shard "@ + decimal(shard as nat) + "] "@ + "Resumed"@),
        ShardEvent::ShardConnected => assert(shard_line(shard, "Connected"@) =~= "[Shard "@ + decimal(shard as nat) + "] "@ + "Connected"@),
        ShardEvent::ShardDisconnected { .. } => assert(shard_line(shard, "Disconnected"@) =~= "[Shard "@ + decimal(shard as nat) + "] "@ + "Disconnected"@),
        _ => {},
    }
}

} // verus!
