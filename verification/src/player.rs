//! The music player side of the dispatcher: its queue and cache names, and
//! how each player event is published, counted and kept in the cache.
use vstd::prelude::*;
use crate::constants::key1;
use crate::decimal::{decimal, u64_to_decimal};

verus! {

pub const EXCHANGE: &'static str = "player";
pub const QUEUE_RECV: &'static str = "player.recv";
pub const QUEUE_SEND: &'static str = "player.send";

pub const PLAYER_BUFFER: usize = 300000;
pub const PLAYER_EXPIRY: usize = 30000;

pub const PLAYER_KEY: &'static str = "player";
pub const PLAYER_ID_KEY: &'static str = "player_id";
pub const PLAYER_STATS_KEY: &'static str = "player_stats";

/// `player:guild_id`: the player state of a guild.
pub fn player_key(guild: u64) -> (key: String)
    ensures
        key@ == key1(PLAYER_KEY@, guild),
{
    crate::constants::make_key1(PLAYER_KEY, guild)
}

/// The state of a player that a player update reports.
#[derive(Clone, Copy, Debug, PartialEq, Eq)]
pub struct PlayerState {
    pub time: i64,
    pub position: Option<i64>,
    pub paused: bool,
    pub volume: i64,
}

/// The player stored for a guild: the guild and the reported state. Its
/// audio filters, a type of the player node's client, travel with it as the
/// update gives them.
#[derive(Clone, Copy, Debug, PartialEq, Eq)]
pub struct Player {
    pub guild_id: u64,
    pub time: i64,
    pub position: Option<i64>,
    pub paused: bool,
    pub volume: i64,
}

/// An event of the player node, with the values the dispatcher uses.
#[derive(Clone, Copy, Debug, PartialEq, Eq)]
pub enum PlayerEvent {
    PlayerUpdate { guild: u64, state: PlayerState },
    Stats,
    TrackEnd,
    TrackStart,
    TrackException,
    TrackStuck,
    WebsocketClose { code: u64 },
    PlayerDestroy { guild: u64 },
}

/// The name an event is published and counted under.
pub open spec fn event_name(event: PlayerEvent) -> Seq<char> {
    match event {
        PlayerEvent::PlayerUpdate { .. } => "PLAYER_UPDATE"@,
        PlayerEvent::Stats => "STATS"@,
        PlayerEvent::TrackEnd => "TRACK_END"@,
        PlayerEvent::TrackStart => "TRACK_START"@,
        PlayerEvent::TrackException => "TRACK_EXCEPTION"@,
        PlayerEvent::TrackStuck => "TRACK_STUCK"@,
        PlayerEvent::WebsocketClose { .. } => "WEBSOCKET_CLOSE"@,
        PlayerEvent::PlayerDestroy { .. } => "PLAYER_DESTROY"@,
    }
}

/// The routing key and metric label of an event.
pub fn op_name(event: &PlayerEvent) -> (name: &'static str)
    ensures
        name@ == event_name(*event),
{
    match event {
        PlayerEvent::PlayerUpdate { .. } => "PLAYER_UPDATE",
        PlayerEvent::Stats => "STATS",
        PlayerEvent::TrackEnd => "TRACK_END",
        PlayerEvent::TrackStart => "TRACK_START",
        PlayerEvent::TrackException => "TRACK_EXCEPTION",
        PlayerEvent::TrackStuck => "TRACK_STUCK",
        PlayerEvent::WebsocketClose { .. } => "WEBSOCKET_CLOSE",
        PlayerEvent::PlayerDestroy { .. } => "PLAYER_DESTROY",
    }
}

/// What the cache update of the player does for an event.
#[derive(Clone, Debug, PartialEq, Eq)]
pub enum PlayerOp {
    /// Store the player under the key.
    StorePlayer { key: String, player: Player },
    /// Store the node statistics of the event under the key.
    StoreStats { key: String },
    /// Expire the key after the given seconds.
    Expire { key: String, seconds: u64 },
    /// Delete the key.
    Delete { key: String },
    /// Decode the started track and count it by title and length.
    CountTrack,
    /// Count a voice connection close under its close code.
    CountClose { code: String },
}

/// A player step by its keys' characters.
pub enum PlayerOpView {
    StorePlayer(Seq<char>, Player),
    StoreStats(Seq<char>),
    Expire(Seq<char>, u64),
    Delete(Seq<char>),
    CountTrack,
    CountClose(Seq<char>),
}

impl View for PlayerOp {
    type V = PlayerOpView;

    open spec fn view(&self) -> PlayerOpView {
        match self {
            PlayerOp::StorePlayer { key, player } => PlayerOpView::StorePlayer(key@, *player),
            PlayerOp::StoreStats { key } => PlayerOpView::StoreStats(key@),
            PlayerOp::Expire { key, seconds } => PlayerOpView::Expire(key@, *seconds),
            PlayerOp::Delete { key } => PlayerOpView::Delete(key@),
            PlayerOp::CountTrack => PlayerOpView::CountTrack,
            PlayerOp::CountClose { code } => PlayerOpView::CountClose(code@),
        }
    }
}

/// The player state lives `PLAYER_EXPIRY` milliseconds, in whole seconds.
pub open spec fn player_expiry_seconds() -> u64 {
    (PLAYER_EXPIRY / 1000) as u64
}

/// The player that an update of `guild` with `state` stores.
pub open spec fn player_of(guild: u64, state: PlayerState) -> Player {
    Player {
        guild_id: guild,
        time: state.time,
        position: state.position,
        paused: state.paused,
        volume: state.volume,
    }
}

/// The steps of the player cache update for an event: a player update is
/// stored, as the guild and its reported state, under the guild's player
/// key and expires after 30 seconds, the
/// node statistics are stored, a started track is counted, a voice close
/// is counted by code, and a destroyed player is deleted.
pub open spec fn player_plan_spec(event: PlayerEvent) -> Seq<PlayerOpView> {
    match event {
        PlayerEvent::PlayerUpdate { guild, state } => seq![
            PlayerOpView::StorePlayer(key1(PLAYER_KEY@, guild), player_of(guild, state)),
            PlayerOpView::Expire(key1(PLAYER_KEY@, guild), player_expiry_seconds()),
        ],
        PlayerEvent::Stats => seq![PlayerOpView::StoreStats(PLAYER_STATS_KEY@)],
        PlayerEvent::TrackStart => seq![PlayerOpView::CountTrack],
        PlayerEvent::WebsocketClose { code } => seq![PlayerOpView::CountClose(decimal(code as nat))],
        PlayerEvent::PlayerDestroy { guild } => seq![PlayerOpView::Delete(key1(PLAYER_KEY@, guild))],
        _ => Seq::empty(),
    }
}

pub fn player_plan(event: &PlayerEvent) -> (ops: Vec<PlayerOp>)
    ensures
        ops@.map_values(|op: PlayerOp| op@) == player_plan_spec(*event),
{
    let mut ops: Vec<PlayerOp> = Vec::new();
    match event {
        PlayerEvent::PlayerUpdate { guild, state } => {
            let player = Player {
                guild_id: *guild,
                time: state.time,
                position: state.position,
                paused: state.paused,
                volume: state.volume,
            };
            ops.push(PlayerOp::StorePlayer { key: player_key(*guild), player });
            ops.push(PlayerOp::Expire { key: player_key(*guild), seconds: (PLAYER_EXPIRY / 1000) as u64 });
        },
        PlayerEvent::Stats => {
            ops.push(PlayerOp::StoreStats { key: String::from_str(PLAYER_STATS_KEY) });
        },
        PlayerEvent::TrackStart => {
            ops.push(PlayerOp::CountTrack);
        },
        PlayerEvent::WebsocketClose { code } => {
            ops.push(PlayerOp::CountClose { code: u64_to_decimal(*code) });
        },
        PlayerEvent::PlayerDestroy { guild } => {
            ops.push(PlayerOp::Delete { key: player_key(*guild) });
        },
        _ => {},
    }
    assert(ops@.map_values(|op: PlayerOp| op@) =~= player_plan_spec(*event));
    ops
}

/// A player update stores the guild's player under `player:guild_id`, with
/// the reported time, position, pause and volume, and lets it expire after
/// 30 seconds; a destroyed player is deleted from the same key, and the
/// node statistics go to `player_stats`.
pub proof fn law_player_cache(guild: u64, state: PlayerState)
    ensures
        player_plan_spec(PlayerEvent::PlayerUpdate { guild, state })[0] matches PlayerOpView::StorePlayer(key, player)
            && key == key1(PLAYER_KEY@, guild) && player.guild_id == guild && player.time == state.time
            && player.position == state.position && player.paused == state.paused && player.volume == state.volume,
        player_plan_spec(PlayerEvent::PlayerUpdate { guild, state }).last() == PlayerOpView::Expire(key1(PLAYER_KEY@, guild), 30),
        player_plan_spec(PlayerEvent::PlayerDestroy { guild }) == seq![PlayerOpView::Delete(key1(PLAYER_KEY@, guild))],
        player_plan_spec(PlayerEvent::Stats) == seq![PlayerOpView::StoreStats(PLAYER_STATS_KEY@)],
{
}

} // verus!
