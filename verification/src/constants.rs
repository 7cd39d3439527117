//! Names of the message queues, of the state-cache keys and of the helper
//! keys, and the functions that build the cache key of each kind of object.
//!
//! A cache key is a kind name followed by one or two decimal snowflake ids,
//! all separated by `':'`, such as `member:guild_id:user_id`.
use vstd::prelude::*;
use crate::decimal::{decimal, u64_to_decimal};

verus! {

pub const EXCHANGE: &'static str = "gateway";
pub const QUEUE_RECV: &'static str = "gateway.recv";
pub const QUEUE_SEND: &'static str = "gateway.send";

pub const SESSIONS_KEY: &'static str = "gateway_sessions";
pub const STATUSES_KEY: &'static str = "gateway_statuses";
pub const STARTED_KEY: &'static str = "gateway_started";
pub const SHARDS_KEY: &'static str = "gateway_shards";

pub const BOT_USER_KEY: &'static str = "bot_user";
pub const GUILD_KEY: &'static str = "guild";
pub const CHANNEL_KEY: &'static str = "channel";
pub const MESSAGE_KEY: &'static str = "message";
pub const ROLE_KEY: &'static str = "role";
pub const EMOJI_KEY: &'static str = "emoji";
pub const MEMBER_KEY: &'static str = "member";
pub const PRESENCE_KEY: &'static str = "presence";
pub const VOICE_KEY: &'static str = "voice";

pub const KEYS_SUFFIX: &'static str = "_keys";
pub const EXPIRY_KEYS: &'static str = "expiry_keys";

pub const CACHE_JOB_INTERVAL: usize = 1000;
pub const METRICS_JOB_INTERVAL: usize = 1000;

pub const CONNECT_COLOR: usize = 0x00FF00;
pub const DISCONNECT_COLOR: usize = 0xFF0000;
pub const READY_COLOR: usize = 0x00FF00;
pub const RESUME_COLOR: usize = 0x1E90FF;
pub const JOIN_COLOR: usize = 0x00FF00;
pub const LEAVE_COLOR: usize = 0xFF0000;

/// The separator between the parts of a key, as a sequence.
pub open spec fn colon() -> Seq<char> {
    seq![':']
}

/// `a` and `b` joined by one `':'`.
pub open spec fn join(a: Seq<char>, b: Seq<char>) -> Seq<char> {
    a + colon() + b
}

/// The key `kind:id`.
pub open spec fn key1(kind: Seq<char>, id: u64) -> Seq<char> {
    join(kind, decimal(id as nat))
}

/// The key `kind:first:second`.
pub open spec fn key2(kind: Seq<char>, first: u64, second: u64) -> Seq<char> {
    join(join(kind, decimal(first as nat)), decimal(second as nat))
}

pub open spec fn spec_channel_key(guild: Option<u64>, channel: u64) -> Seq<char> {
    match guild {
        Some(g) => key2(CHANNEL_KEY@, g, channel),
        None => key1(CHANNEL_KEY@, channel),
    }
}

/// The kind names of the keys, and the separators, as their characters.
pub proof fn lemma_key_names()
    ensures
        GUILD_KEY@ == seq!['g', 'u', 'i', 'l', 'd'],
        CHANNEL_KEY@ == seq!['c', 'h', 'a', 'n', 'n', 'e', 'l'],
        MESSAGE_KEY@ == seq!['m', 'e', 's', 's', 'a', 'g', 'e'],
        ROLE_KEY@ == seq!['r', 'o', 'l', 'e'],
        EMOJI_KEY@ == seq!['e', 'm', 'o', 'j', 'i'],
        MEMBER_KEY@ == seq!['m', 'e', 'm', 'b', 'e', 'r'],
        PRESENCE_KEY@ == seq!['p', 'r', 'e', 's', 'e', 'n', 'c', 'e'],
        VOICE_KEY@ == seq!['v', 'o', 'i', 'c', 'e'],
        KEYS_SUFFIX@ == seq!['_', 'k', 'e', 'y', 's'],
        ":"@ == colon(),
{
    reveal_strlit("guild");
    reveal_strlit("channel");
    reveal_strlit("message");
    reveal_strlit("role");
    reveal_strlit("emoji");
    reveal_strlit("member");
    reveal_strlit("presence");
    reveal_strlit("voice");
    reveal_strlit("_keys");
    reveal_strlit(":");
}

/// `kind:id` for a kind name and a snowflake id.
pub(crate) fn make_key1(kind: &str, id: u64) -> (key: String)
    ensures
        key@ == key1(kind@, id),
{
    proof {
        lemma_key_names();
    }
    String::from_str(kind).concat(":").concat(u64_to_decimal(id).as_str())
}

/// `kind:first:second` for a kind name and two snowflake ids.
pub(crate) fn make_key2(kind: &str, first: u64, second: u64) -> (key: String)
    ensures
        key@ == key2(kind@, first, second),
{
    proof {
        lemma_key_names();
    }
    make_key1(kind, first).concat(":").concat(u64_to_decimal(second).as_str())
}

/// `guild:guild_id`: a guild.
pub fn guild_key(guild: u64) -> (key: String)
    ensures
        key@ == key1(GUILD_KEY@, guild),
{
    make_key1(GUILD_KEY, guild)
}

/// `channel:guild_id:channel_id` for a guild channel, `channel:channel_id`
/// for a private one.
pub fn channel_key(guild: Option<u64>, channel: u64) -> (key: String)
    ensures
        key@ == spec_channel_key(guild, channel),
{
    match guild {
        Some(g) => guild_channel_key(g, channel),
        None => private_channel_key(channel),
    }
}

/// `channel:guild_id:channel_id`: a channel of a guild.
pub fn guild_channel_key(guild: u64, channel: u64) -> (key: String)
    ensures
        key@ == key2(CHANNEL_KEY@, guild, channel),
{
    make_key2(CHANNEL_KEY, guild, channel)
}

/// `channel:channel_id`: a private channel, and where every channel is
/// stored.
pub fn private_channel_key(channel: u64) -> (key: String)
    ensures
        key@ == key1(CHANNEL_KEY@, channel),
{
    make_key1(CHANNEL_KEY, channel)
}

/// `message:channel_id:message_id`: a message of a channel.
pub fn message_key(channel: u64, message: u64) -> (key: String)
    ensures
        key@ == key2(MESSAGE_KEY@, channel, message),
{
    make_key2(MESSAGE_KEY, channel, message)
}

/// `role:guild_id:role_id`: a role of a guild.
pub fn role_key(guild: u64, role: u64) -> (key: String)
    ensures
        key@ == key2(ROLE_KEY@, guild, role),
{
    make_key2(ROLE_KEY, guild, role)
}

/// `emoji:guild_id:emoji_id`: an emoji of a guild.
pub fn emoji_key(guild: u64, emoji: u64) -> (key: String)
    ensures
        key@ == key2(EMOJI_KEY@, guild, emoji),
{
    make_key2(EMOJI_KEY, guild, emoji)
}

/// `member:guild_id:user_id`: a member of a guild.
pub fn member_key(guild: u64, member: u64) -> (key: String)
    ensures
        key@ == key2(MEMBER_KEY@, guild, member),
{
    make_key2(MEMBER_KEY, guild, member)
}

/// `presence:guild_id:user_id`: the presence of a member of a guild.
pub fn presence_key(guild: u64, member: u64) -> (key: String)
    ensures
        key@ == key2(PRESENCE_KEY@, guild, member),
{
    make_key2(PRESENCE_KEY, guild, member)
}

/// `voice:guild_id:user_id`: the voice state of a member of a guild.
pub fn voice_key(guild: u64, member: u64) -> (key: String)
    ensures
        key@ == key2(VOICE_KEY@, guild, member),
{
    make_key2(VOICE_KEY, guild, member)
}

} // verus!
