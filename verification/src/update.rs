//! How a gateway event changes the state cache: the operations that the
//! cache update performs for each kind of event, under the configured
//! state options, and the decisions taken on what the cache returns.
use vstd::prelude::*;
use crate::cache::{
    str_eq, guild_keys_set, guild_owned_kind, index_entries, stored_key, law_guild_object_index,
    law_guild_channel_index, law_top_level_index,
};
use crate::decimal::u64_to_decimal;
use crate::utils::{split_colon, get_keys};
use crate::constants::{
    KEYS_SUFFIX,
    key1, key2, spec_channel_key, BOT_USER_KEY, CHANNEL_KEY, EMOJI_KEY, GUILD_KEY, MEMBER_KEY, MESSAGE_KEY,
    PRESENCE_KEY, ROLE_KEY, VOICE_KEY, channel_key, emoji_key, guild_key, member_key, message_key, presence_key, private_channel_key, role_key,
    voice_key,
};

verus! {

/// Which state is kept in the cache, and for how long (milliseconds).
#[derive(Clone, Copy, Debug, PartialEq, Eq)]
pub struct StateConfig {
    pub state_member: bool,
    pub state_member_ttl: u64,
    pub state_message: bool,
    pub state_message_ttl: u64,
    pub state_presence: bool,
    pub state_emoji: bool,
    pub state_voice: bool,
    pub state_old: bool,
}

/// The kind of an object that a guild arrives with.
#[derive(Clone, Copy, Debug, PartialEq, Eq)]
pub enum ItemKind {
    Guild,
    Channel,
    Role,
    Emoji,
    Voice,
    Member,
    Presence,
}

/// What part of an event a stored value is.
#[derive(Clone, Copy, Debug, PartialEq, Eq)]
pub enum Payload {
    /// The object the event carries.
    Event,
    /// The role of a role event.
    Role,
    /// The bot user of the ready event.
    User,
    /// The object at an index of a list of the event: the guilds of the
    /// ready event, the members of a member chunk, the emojis of an emoji
    /// update, or one of the lists of a guild. For a guild that arrives, the
    /// lists are those that `merge::split_guild` takes out of it (each
    /// channel carrying the guild's id), and `Item(Guild, 0)` is the guild
    /// that it leaves, with every list empty.
    Item(ItemKind, usize),
}

/// An event as the cache update sees it: its kind and the ids it names.
#[derive(Clone, Debug, PartialEq, Eq)]
pub enum CacheEvent {
    ChannelCreate { guild: Option<u64>, channel: u64 },
    ChannelDelete { guild: Option<u64>, channel: u64 },
    ChannelPinsUpdate { guild: Option<u64>, channel: u64 },
    ChannelUpdate { guild: Option<u64>, channel: u64 },
    GuildCreate {
        guild: u64,
        channels: Vec<u64>,
        roles: Vec<u64>,
        emojis: Vec<u64>,
        voice_users: Vec<u64>,
        members: Vec<u64>,
        presence_users: Vec<u64>,
    },
    GuildDelete { guild: u64 },
    GuildEmojisUpdate { guild: u64, emojis: Vec<u64> },
    GuildUpdate { guild: u64 },
    MemberAdd { guild: u64, user: u64 },
    MemberRemove { guild: u64, user: u64 },
    MemberUpdate { guild: u64, user: u64 },
    MemberChunk { guild: u64, users: Vec<u64> },
    MessageCreate { channel: u64, message: u64 },
    MessageDelete { channel: u64, message: u64 },
    MessageDeleteBulk { channel: u64, messages: Vec<u64> },
    MessageUpdate { channel: u64, message: u64 },
    PresenceUpdate { guild: u64, user: u64 },
    Ready { guilds: Vec<u64> },
    RoleCreate { guild: u64, role: u64 },
    RoleDelete { guild: u64, role: u64 },
    RoleUpdate { guild: u64, role: u64 },
    UnavailableGuild { guild: u64 },
    UserUpdate,
    VoiceStateUpdate { guild: Option<u64>, user: u64, in_channel: bool },
    Other,
}

/// One step of a cache update, in the order the steps run.
#[derive(Clone, Debug, PartialEq, Eq)]
pub enum CacheOp {
    /// Read the object under the key; it becomes the previous state.
    ReadOld { key: String },
    /// Store a value under the key, with the helper-set bookkeeping.
    Store { key: String, value: Payload },
    /// Store values under their keys, with the helper-set bookkeeping.
    StoreAll { items: Vec<(String, Payload)> },
    /// Delete the key, with the helper-set bookkeeping.
    Delete { key: String },
    /// Read the objects under the keys; those found, as a list, become the
    /// previous state when `keep_old`.
    ReadAllOld { keys: Vec<String>, keep_old: bool },
    /// Delete the keys, with the helper-set bookkeeping.
    DeleteAll { keys: Vec<String> },
    /// Expire the key after the given milliseconds.
    Expire { key: String, ttl: u64 },
    /// Expire each key after its milliseconds.
    ExpireAll { items: Vec<(String, u64)> },
    /// Delete every key listed under the guild and then the guild itself,
    /// the keys of `guild_clear_keys`; the guild as it was cached becomes
    /// the previous state.
    ClearGuild { guild: u64 },
    /// Read the object under the key and take the steps of
    /// `merge::merge_steps`: nothing when nothing is cached there; else the
    /// object becomes the previous state when `keep_old`, is changed as the
    /// event says, is stored again and, with a time to live, expired after
    /// it. The change is that of `merge::merge_pins` for a pins update,
    /// `merge::merge_member` for a member update and `merge::merge_message`
    /// for a message update.
    Merge { key: String, keep_old: bool, ttl: Option<u64> },
    /// Delete the cached emojis of the guild that the event no longer has,
    /// store the ones it has, and, when `keep_old`, make the cached emojis
    /// the previous state.
    ReplaceEmojis { guild: u64, items: Vec<(String, Payload)>, keep_old: bool },
}

/// A step of a cache update by its keys' characters.
pub enum OpView {
    ReadOld(Seq<char>),
    Store(Seq<char>, Payload),
    StoreAll(Seq<(Seq<char>, Payload)>),
    Delete(Seq<char>),
    ReadAllOld(Seq<Seq<char>>, bool),
    DeleteAll(Seq<Seq<char>>),
    Expire(Seq<char>, u64),
    ExpireAll(Seq<(Seq<char>, u64)>),
    ClearGuild(u64),
    Merge(Seq<char>, bool, Option<u64>),
    ReplaceEmojis(u64, Seq<(Seq<char>, Payload)>, bool),
}

pub open spec fn items_view(items: Seq<(String, Payload)>) -> Seq<(Seq<char>, Payload)> {
    items.map_values(|p: (String, Payload)| (p.0@, p.1))
}

pub open spec fn ttl_items_view(items: Seq<(String, u64)>) -> Seq<(Seq<char>, u64)> {
    items.map_values(|p: (String, u64)| (p.0@, p.1))
}

pub open spec fn keys_view(keys: Seq<String>) -> Seq<Seq<char>> {
    keys.map_values(|k: String| k@)
}

impl View for CacheOp {
    type V = OpView;

    open spec fn view(&self) -> OpView {
        match self {
            CacheOp::ReadOld { key } => OpView::ReadOld(key@),
            CacheOp::Store { key, value } => OpView::Store(key@, *value),
            CacheOp::StoreAll { items } => OpView::StoreAll(items_view(items@)),
            CacheOp::Delete { key } => OpView::Delete(key@),
            CacheOp::ReadAllOld { keys, keep_old } => OpView::ReadAllOld(keys_view(keys@), *keep_old),
            CacheOp::DeleteAll { keys } => OpView::DeleteAll(keys_view(keys@)),
            CacheOp::Expire { key, ttl } => OpView::Expire(key@, *ttl),
            CacheOp::ExpireAll { items } => OpView::ExpireAll(ttl_items_view(items@)),
            CacheOp::ClearGuild { guild } => OpView::ClearGuild(*guild),
            CacheOp::Merge { key, keep_old, ttl } => OpView::Merge(key@, *keep_old, *ttl),
            CacheOp::ReplaceEmojis { guild, items, keep_old } => OpView::ReplaceEmojis(*guild, items_view(items@), *keep_old),
        }
    }
}

pub open spec fn ops_view(ops: Seq<CacheOp>) -> Seq<OpView> {
    ops.map_values(|op: CacheOp| op@)
}

/// `seq![op]` when `cond` holds, empty otherwise.
pub open spec fn when(cond: bool, op: OpView) -> Seq<OpView> {
    if cond { seq![op] } else { Seq::empty() }
}

/// The keys `kind:owner:id` of the ids kept (all when `keep_all`, else only
/// `bot`), each with the item of its index.
pub open spec fn keyed_items(kind: Seq<char>, item: ItemKind, owner: u64, ids: Seq<u64>, keep_all: bool, bot: u64) -> Seq<(Seq<char>, Payload)>
    decreases ids.len(),
{
    if ids.len() == 0 {
        Seq::empty()
    } else {
        let rest = keyed_items(kind, item, owner, ids.drop_last(), keep_all, bot);
        if keep_all || ids.last() == bot {
            rest.push((key2(kind, owner, ids.last()), Payload::Item(item, (ids.len() - 1) as usize)))
        } else {
            rest
        }
    }
}

/// The keys `guild:id` of the guilds, each with the guild of its index.
pub open spec fn guild_items(ids: Seq<u64>) -> Seq<(Seq<char>, Payload)> {
    Seq::new(ids.len(), |i: int| (key1(GUILD_KEY@, ids[i]), Payload::Item(ItemKind::Guild, i as usize)))
}

/// The keys `kind:owner:id` of the ids, each with the time to live `ttl`.
pub open spec fn ttl_items(kind: Seq<char>, owner: u64, ids: Seq<u64>, ttl: u64) -> Seq<(Seq<char>, u64)> {
    Seq::new(ids.len(), |i: int| (key2(kind, owner, ids[i]), ttl))
}

/// The keys `kind:owner:id` of the ids.
pub open spec fn id_keys(kind: Seq<char>, owner: u64, ids: Seq<u64>) -> Seq<Seq<char>> {
    Seq::new(ids.len(), |i: int| key2(kind, owner, ids[i]))
}

/// The objects a guild arrives with, as `GuildCreate` stores them: its
/// channels and roles, its emojis, voice states and presences when those
/// are kept, its members when they are kept (else only the bot's own
/// member), and last the guild itself.
pub open spec fn guild_create_items(
    guild: u64,
    channels: Seq<u64>,
    roles: Seq<u64>,
    emojis: Seq<u64>,
    voice_users: Seq<u64>,
    members: Seq<u64>,
    presence_users: Seq<u64>,
    config: StateConfig,
    bot: u64,
) -> Seq<(Seq<char>, Payload)> {
    keyed_items(CHANNEL_KEY@, ItemKind::Channel, guild, channels, true, bot)
        + keyed_items(ROLE_KEY@, ItemKind::Role, guild, roles, true, bot)
        + (if config.state_emoji { keyed_items(EMOJI_KEY@, ItemKind::Emoji, guild, emojis, true, bot) } else { Seq::empty() })
        + (if config.state_voice { keyed_items(VOICE_KEY@, ItemKind::Voice, guild, voice_users, true, bot) } else { Seq::empty() })
        + keyed_items(MEMBER_KEY@, ItemKind::Member, guild, members, config.state_member, bot)
        + (if config.state_presence { keyed_items(PRESENCE_KEY@, ItemKind::Presence, guild, presence_users, true, bot) } else { Seq::empty() })
        + seq![(key1(GUILD_KEY@, guild), Payload::Item(ItemKind::Guild, 0))]
}

/// The steps that a cache update takes for an event.
pub open spec fn planned_ops(event: CacheEvent, config: StateConfig, bot: u64) -> Seq<OpView> {
    let old = config.state_old;
    match event {
        CacheEvent::ChannelCreate { guild, channel } => seq![OpView::Store(spec_channel_key(guild, channel), Payload::Event)],
        // A channel is read and changed where it is stored, `channel:id`;
        // it is written and deleted by the key that also names its guild,
        // so that the guild's helper set is kept.
        CacheEvent::ChannelDelete { guild, channel } => {
            when(old, OpView::ReadOld(key1(CHANNEL_KEY@, channel))) + seq![OpView::Delete(spec_channel_key(guild, channel))]
        },
        CacheEvent::ChannelPinsUpdate { guild, channel } => seq![OpView::Merge(key1(CHANNEL_KEY@, channel), false, None)],
        CacheEvent::ChannelUpdate { guild, channel } => {
            when(old, OpView::ReadOld(key1(CHANNEL_KEY@, channel))) + seq![OpView::Store(spec_channel_key(guild, channel), Payload::Event)]
        },
        CacheEvent::GuildCreate { guild, channels, roles, emojis, voice_users, members, presence_users } => {
            seq![
                OpView::ClearGuild(guild),
                OpView::StoreAll(guild_create_items(guild, channels@, roles@, emojis@, voice_users@, members@, presence_users@, config, bot)),
            ] + when(config.state_member, OpView::ExpireAll(ttl_items(MEMBER_KEY@, guild, members@, config.state_member_ttl)))
        },
        CacheEvent::GuildDelete { guild } => seq![OpView::ClearGuild(guild)],
        CacheEvent::GuildEmojisUpdate { guild, emojis } => when(
            config.state_emoji,
            OpView::ReplaceEmojis(guild, keyed_items(EMOJI_KEY@, ItemKind::Emoji, guild, emojis@, true, bot), old),
        ),
        CacheEvent::GuildUpdate { guild } => {
            let key = key1(GUILD_KEY@, guild);
            when(old, OpView::ReadOld(key)) + seq![OpView::Store(key, Payload::Event)]
        },
        CacheEvent::MemberAdd { guild, user } => {
            let key = key2(MEMBER_KEY@, guild, user);
            if config.state_member {
                seq![OpView::Store(key, Payload::Event), OpView::Expire(key, config.state_member_ttl)]
            } else {
                Seq::empty()
            }
        },
        CacheEvent::MemberRemove { guild, user } => {
            let key = key2(MEMBER_KEY@, guild, user);
            (if config.state_member {
                when(old, OpView::ReadOld(key)) + seq![OpView::Delete(key)]
            } else {
                Seq::empty()
            }) + when(config.state_presence, OpView::Delete(key2(PRESENCE_KEY@, guild, user)))
        },
        CacheEvent::MemberUpdate { guild, user } => when(
            config.state_member || user == bot,
            OpView::Merge(key2(MEMBER_KEY@, guild, user), old, Some(config.state_member_ttl)),
        ),
        CacheEvent::MemberChunk { guild, users } => if config.state_member {
            seq![
                OpView::StoreAll(keyed_items(MEMBER_KEY@, ItemKind::Member, guild, users@, true, bot)),
                OpView::ExpireAll(ttl_items(MEMBER_KEY@, guild, users@, config.state_member_ttl)),
            ]
        } else {
            Seq::empty()
        },
        CacheEvent::MessageCreate { channel, message } => {
            let key = key2(MESSAGE_KEY@, channel, message);
            if config.state_message {
                seq![OpView::Store(key, Payload::Event), OpView::Expire(key, config.state_message_ttl)]
            } else {
                Seq::empty()
            }
        },
        CacheEvent::MessageDelete { channel, message } => {
            let key = key2(MESSAGE_KEY@, channel, message);
            if config.state_message {
                when(old, OpView::ReadOld(key)) + seq![OpView::Delete(key)]
            } else {
                Seq::empty()
            }
        },
        CacheEvent::MessageDeleteBulk { channel, messages } => {
            let keys = id_keys(MESSAGE_KEY@, channel, messages@);
            if config.state_message {
                seq![OpView::ReadAllOld(keys, old), OpView::DeleteAll(keys)]
            } else {
                Seq::empty()
            }
        },
        CacheEvent::MessageUpdate { channel, message } => when(
            config.state_message,
            OpView::Merge(key2(MESSAGE_KEY@, channel, message), old, Some(config.state_message_ttl)),
        ),
        CacheEvent::PresenceUpdate { guild, user } => {
            let key = key2(PRESENCE_KEY@, guild, user);
            if config.state_presence {
                when(old, OpView::ReadOld(key)) + seq![OpView::Store(key, Payload::Event)]
            } else {
                Seq::empty()
            }
        },
        CacheEvent::Ready { guilds } => seq![
            OpView::Store(BOT_USER_KEY@, Payload::User),
            OpView::StoreAll(guild_items(guilds@)),
        ],
        CacheEvent::RoleCreate { guild, role } => seq![OpView::Store(key2(ROLE_KEY@, guild, role), Payload::Role)],
        CacheEvent::RoleDelete { guild, role } => {
            let key = key2(ROLE_KEY@, guild, role);
            when(old, OpView::ReadOld(key)) + seq![OpView::Delete(key)]
        },
        CacheEvent::RoleUpdate { guild, role } => {
            let key = key2(ROLE_KEY@, guild, role);
            when(old, OpView::ReadOld(key)) + seq![OpView::Store(key, Payload::Role)]
        },
        CacheEvent::UnavailableGuild { guild } => seq![
            OpView::ClearGuild(guild),
            OpView::Store(key1(GUILD_KEY@, guild), Payload::Event),
        ],
        CacheEvent::UserUpdate => when(old, OpView::ReadOld(BOT_USER_KEY@)) + seq![OpView::Store(BOT_USER_KEY@, Payload::Event)],
        CacheEvent::VoiceStateUpdate { guild, user, in_channel } => match guild {
            Some(g) => if config.state_voice {
                let key = key2(VOICE_KEY@, g, user);
                when(old, OpView::ReadOld(key)) + seq![if in_channel { OpView::Store(key, Payload::Event) } else { OpView::Delete(key) }]
            } else {
                Seq::empty()
            },
            None => Seq::empty(),
        },
        CacheEvent::Other => Seq::empty(),
    }
}

/// Appends the keys `kind:owner:id` of the kept ids, with their items.
fn push_keyed_items(
    items: &mut Vec<(String, Payload)>,
    kind: &str,
    item: ItemKind,
    owner: u64,
    ids: &Vec<u64>,
    keep_all: bool,
    bot: u64,
)
    ensures
        items_view(final(items)@) == items_view(old(items)@) + keyed_items(kind@, item, owner, ids@, keep_all, bot),
{
    let ghost start = items_view(items@);
    let mut i: usize = 0;
    assert(ids@.take(0) =~= Seq::<u64>::empty());
    assert(start + Seq::empty() =~= start);
    while i < ids.len()
        invariant
            i <= ids@.len(),
            items_view(items@) == start + keyed_items(kind@, item, owner, ids@.take(i as int), keep_all, bot),
        decreases ids@.len() - i,
    {
        let ghost before = items_view(items@);
        proof {
            assert(ids@.take(i + 1).drop_last() =~= ids@.take(i as int));
            assert(ids@.take(i + 1).last() == ids@[i as int]);
            assert(ids@.take(i + 1).len() - 1 == i);
        }
        if keep_all || ids[i] == bot {
            let key = crate::constants::make_key2(kind, owner, ids[i]);
            items.push((key, Payload::Item(item, i)));
            assert(items_view(items@) =~= before.push((key@, Payload::Item(item, i))));
        }
        i = i + 1;
    }
    assert(ids@.take(ids@.len() as int) =~= ids@);
}

/// The keys `guild:id` of the guilds, with their items.
fn make_guild_items(ids: &Vec<u64>) -> (items: Vec<(String, Payload)>)
    ensures
        items_view(items@) == guild_items(ids@),
{
    let mut items: Vec<(String, Payload)> = Vec::new();
    let mut i: usize = 0;
    while i < ids.len()
        invariant
            i <= ids@.len(),
            items_view(items@) =~= guild_items(ids@.take(i as int)),
        decreases ids@.len() - i,
    {
        proof {
            assert forall|j: int| 0 <= j < i + 1 implies #[trigger] ids@.take(i + 1)[j] == ids@[j] by {}
            assert forall|j: int| 0 <= j < i implies #[trigger] ids@.take(i as int)[j] == ids@[j] by {}
        }
        let ghost before = items_view(items@);
        let key = guild_key(ids[i]);
        items.push((key, Payload::Item(ItemKind::Guild, i)));
        assert(items_view(items@) =~= before.push((key@, Payload::Item(ItemKind::Guild, i))));
        assert(guild_items(ids@.take(i + 1)) =~= guild_items(ids@.take(i as int)).push((key@, Payload::Item(ItemKind::Guild, i))));
        i = i + 1;
    }
    assert(ids@.take(ids@.len() as int) =~= ids@);
    items
}

/// The keys `kind:owner:id` of the ids, each with the time to live `ttl`.
fn make_ttl_items(kind: &str, owner: u64, ids: &Vec<u64>, ttl: u64) -> (items: Vec<(String, u64)>)
    ensures
        ttl_items_view(items@) == ttl_items(kind@, owner, ids@, ttl),
{
    let mut items: Vec<(String, u64)> = Vec::new();
    let mut i: usize = 0;
    while i < ids.len()
        invariant
            i <= ids@.len(),
            ttl_items_view(items@) =~= ttl_items(kind@, owner, ids@.take(i as int), ttl),
        decreases ids@.len() - i,
    {
        proof {
            assert forall|j: int| 0 <= j < i + 1 implies #[trigger] ids@.take(i + 1)[j] == ids@[j] by {}
            assert forall|j: int| 0 <= j < i implies #[trigger] ids@.take(i as int)[j] == ids@[j] by {}
        }
        let ghost before = ttl_items_view(items@);
        let key = crate::constants::make_key2(kind, owner, ids[i]);
        items.push((key, ttl));
        assert(ttl_items_view(items@) =~= before.push((key@, ttl)));
        assert(ttl_items(kind@, owner, ids@.take(i + 1), ttl) =~= ttl_items(kind@, owner, ids@.take(i as int), ttl).push((key@, ttl)));
        i = i + 1;
    }
    assert(ids@.take(ids@.len() as int) =~= ids@);
    items
}

/// The keys `kind:owner:id` of the ids.
fn make_id_keys(kind: &str, owner: u64, ids: &Vec<u64>) -> (keys: Vec<String>)
    ensures
        keys_view(keys@) == id_keys(kind@, owner, ids@),
{
    let mut keys: Vec<String> = Vec::new();
    let mut i: usize = 0;
    while i < ids.len()
        invariant
            i <= ids@.len(),
            keys_view(keys@) =~= id_keys(kind@, owner, ids@.take(i as int)),
        decreases ids@.len() - i,
    {
        proof {
            assert forall|j: int| 0 <= j < i + 1 implies #[trigger] ids@.take(i + 1)[j] == ids@[j] by {}
            assert forall|j: int| 0 <= j < i implies #[trigger] ids@.take(i as int)[j] == ids@[j] by {}
        }
        let ghost before = keys_view(keys@);
        let key = crate::constants::make_key2(kind, owner, ids[i]);
        keys.push(key);
        assert(keys_view(keys@) =~= before.push(key@));
        assert(id_keys(kind@, owner, ids@.take(i + 1)) =~= id_keys(kind@, owner, ids@.take(i as int)).push(key@));
        i = i + 1;
    }
    assert(ids@.take(ids@.len() as int) =~= ids@);
    keys
}

/// Reads the previous state under `key` first when `keep_old`.
fn push_read_old(ops: &mut Vec<CacheOp>, keep_old: bool, key: &String)
    ensures
        ops_view(final(ops)@) == ops_view(old(ops)@) + when(keep_old, OpView::ReadOld(key@)),
{
    let ghost before = ops_view(ops@);
    if keep_old {
        ops.push(CacheOp::ReadOld { key: key.clone() });
        assert(ops_view(ops@) =~= before + seq![OpView::ReadOld(key@)]);
    } else {
        assert(ops_view(ops@) =~= before + Seq::empty());
    }
}

/// The steps of the cache update for an event, in order.
pub fn update_plan(event: &CacheEvent, config: &StateConfig, bot: u64) -> (ops: Vec<CacheOp>)
    ensures
        ops_view(ops@) == planned_ops(*event, *config, bot),
{
    let mut ops: Vec<CacheOp> = Vec::new();
    let old = config.state_old;
    assert(ops_view(ops@) =~= Seq::empty());
    match event {
        CacheEvent::ChannelCreate { guild, channel } => {
            ops.push(CacheOp::Store { key: channel_key(*guild, *channel), value: Payload::Event });
        },
        CacheEvent::ChannelDelete { guild, channel } => {
            push_read_old(&mut ops, old, &private_channel_key(*channel));
            ops.push(CacheOp::Delete { key: channel_key(*guild, *channel) });
        },
        CacheEvent::ChannelPinsUpdate { guild, channel } => {
            ops.push(CacheOp::Merge { key: private_channel_key(*channel), keep_old: false, ttl: None });
        },
        CacheEvent::ChannelUpdate { guild, channel } => {
            push_read_old(&mut ops, old, &private_channel_key(*channel));
            ops.push(CacheOp::Store { key: channel_key(*guild, *channel), value: Payload::Event });
        },
        CacheEvent::GuildCreate { guild, channels, roles, emojis, voice_users, members, presence_users } => {
            let g = *guild;
            ops.push(CacheOp::ClearGuild { guild: g });
            let mut items: Vec<(String, Payload)> = Vec::new();
            let ghost i0 = items_view(items@);
            push_keyed_items(&mut items, CHANNEL_KEY, ItemKind::Channel, g, channels, true, bot);
            push_keyed_items(&mut items, ROLE_KEY, ItemKind::Role, g, roles, true, bot);
            let ghost i2 = items_view(items@);
            if config.state_emoji {
                push_keyed_items(&mut items, EMOJI_KEY, ItemKind::Emoji, g, emojis, true, bot);
            } else {
                assert(items_view(items@) =~= i2 + Seq::empty());
            }
            let ghost i3 = items_view(items@);
            if config.state_voice {
                push_keyed_items(&mut items, VOICE_KEY, ItemKind::Voice, g, voice_users, true, bot);
            } else {
                assert(items_view(items@) =~= i3 + Seq::empty());
            }
            push_keyed_items(&mut items, MEMBER_KEY, ItemKind::Member, g, members, config.state_member, bot);
            let ghost i5 = items_view(items@);
            if config.state_presence {
                push_keyed_items(&mut items, PRESENCE_KEY, ItemKind::Presence, g, presence_users, true, bot);
            } else {
                assert(items_view(items@) =~= i5 + Seq::empty());
            }
            let ghost i6 = items_view(items@);
            items.push((guild_key(g), Payload::Item(ItemKind::Guild, 0)));
            proof {
                assert(i0 =~= Seq::empty());
                assert(items_view(items@) =~= i6.push((key1(GUILD_KEY@, g), Payload::Item(ItemKind::Guild, 0))));
                assert(items_view(items@) =~= guild_create_items(
                    g, channels@, roles@, emojis@, voice_users@, members@, presence_users@, *config, bot,
                ));
            }
            ops.push(CacheOp::StoreAll { items });
            let ghost o2 = ops_view(ops@);
            if config.state_member {
                ops.push(CacheOp::ExpireAll { items: make_ttl_items(MEMBER_KEY, g, members, config.state_member_ttl) });
                assert(ops_view(ops@) =~= o2 + seq![ops_view(ops@).last()]);
            } else {
                assert(ops_view(ops@) =~= o2 + Seq::empty());
            }
        },
        CacheEvent::GuildDelete { guild } => {
            ops.push(CacheOp::ClearGuild { guild: *guild });
        },
        CacheEvent::GuildEmojisUpdate { guild, emojis } => {
            if config.state_emoji {
                let mut items: Vec<(String, Payload)> = Vec::new();
                assert(items_view(items@) =~= Seq::empty());
                push_keyed_items(&mut items, EMOJI_KEY, ItemKind::Emoji, *guild, emojis, true, bot);
                assert(items_view(items@) =~= keyed_items(EMOJI_KEY@, ItemKind::Emoji, *guild, emojis@, true, bot));
                ops.push(CacheOp::ReplaceEmojis { guild: *guild, items, keep_old: old });
            }
        },
        CacheEvent::GuildUpdate { guild } => {
            let key = guild_key(*guild);
            push_read_old(&mut ops, old, &key);
            ops.push(CacheOp::Store { key, value: Payload::Event });
        },
        CacheEvent::MemberAdd { guild, user } => {
            if config.state_member {
                let key = member_key(*guild, *user);
                ops.push(CacheOp::Store { key: key.clone(), value: Payload::Event });
                ops.push(CacheOp::Expire { key, ttl: config.state_member_ttl });
            }
        },
        CacheEvent::MemberRemove { guild, user } => {
            if config.state_member {
                let key = member_key(*guild, *user);
                push_read_old(&mut ops, old, &key);
                ops.push(CacheOp::Delete { key });
            }
            let ghost o1 = ops_view(ops@);
            if config.state_presence {
                ops.push(CacheOp::Delete { key: presence_key(*guild, *user) });
                assert(ops_view(ops@) =~= o1 + seq![ops_view(ops@).last()]);
            } else {
                assert(ops_view(ops@) =~= o1 + Seq::empty());
            }
        },
        CacheEvent::MemberUpdate { guild, user } => {
            if config.state_member || *user == bot {
                ops.push(CacheOp::Merge { key: member_key(*guild, *user), keep_old: old, ttl: Some(config.state_member_ttl) });
            }
        },
        CacheEvent::MemberChunk { guild, users } => {
            if config.state_member {
                let mut items: Vec<(String, Payload)> = Vec::new();
                assert(items_view(items@) =~= Seq::empty());
                push_keyed_items(&mut items, MEMBER_KEY, ItemKind::Member, *guild, users, true, bot);
                assert(items_view(items@) =~= keyed_items(MEMBER_KEY@, ItemKind::Member, *guild, users@, true, bot));
                ops.push(CacheOp::StoreAll { items });
                ops.push(CacheOp::ExpireAll { items: make_ttl_items(MEMBER_KEY, *guild, users, config.state_member_ttl) });
            }
        },
        CacheEvent::MessageCreate { channel, message } => {
            if config.state_message {
                let key = message_key(*channel, *message);
                ops.push(CacheOp::Store { key: key.clone(), value: Payload::Event });
                ops.push(CacheOp::Expire { key, ttl: config.state_message_ttl });
            }
        },
        CacheEvent::MessageDelete { channel, message } => {
            if config.state_message {
                let key = message_key(*channel, *message);
                push_read_old(&mut ops, old, &key);
                ops.push(CacheOp::Delete { key });
            }
        },
        CacheEvent::MessageDeleteBulk { channel, messages } => {
            if config.state_message {
                let keys = make_id_keys(MESSAGE_KEY, *channel, messages);
                ops.push(CacheOp::ReadAllOld { keys: keys.clone(), keep_old: old });
                ops.push(CacheOp::DeleteAll { keys });
            }
        },
        CacheEvent::MessageUpdate { channel, message } => {
            if config.state_message {
                ops.push(CacheOp::Merge { key: message_key(*channel, *message), keep_old: old, ttl: Some(config.state_message_ttl) });
            }
        },
        CacheEvent::PresenceUpdate { guild, user } => {
            if config.state_presence {
                let key = presence_key(*guild, *user);
                push_read_old(&mut ops, old, &key);
                ops.push(CacheOp::Store { key, value: Payload::Event });
            }
        },
        CacheEvent::Ready { guilds } => {
            proof {
                reveal_strlit("bot_user");
            }
            ops.push(CacheOp::Store { key: String::from_str(BOT_USER_KEY), value: Payload::User });
            ops.push(CacheOp::StoreAll { items: make_guild_items(guilds) });
        },
        CacheEvent::RoleCreate { guild, role } => {
            ops.push(CacheOp::Store { key: role_key(*guild, *role), value: Payload::Role });
        },
        CacheEvent::RoleDelete { guild, role } => {
            let key = role_key(*guild, *role);
            push_read_old(&mut ops, old, &key);
            ops.push(CacheOp::Delete { key });
        },
        CacheEvent::RoleUpdate { guild, role } => {
            let key = role_key(*guild, *role);
            push_read_old(&mut ops, old, &key);
            ops.push(CacheOp::Store { key, value: Payload::Role });
        },
        CacheEvent::UnavailableGuild { guild } => {
            ops.push(CacheOp::ClearGuild { guild: *guild });
            ops.push(CacheOp::Store { key: guild_key(*guild), value: Payload::Event });
        },
        CacheEvent::UserUpdate => {
            let key = String::from_str(BOT_USER_KEY);
            push_read_old(&mut ops, old, &key);
            ops.push(CacheOp::Store { key, value: Payload::Event });
        },
        CacheEvent::VoiceStateUpdate { guild, user, in_channel } => {
            if config.state_voice {
                if let Some(g) = guild {
                    let key = voice_key(*g, *user);
                    push_read_old(&mut ops, old, &key);
                    if *in_channel {
                        ops.push(CacheOp::Store { key, value: Payload::Event });
                    } else {
                        ops.push(CacheOp::Delete { key });
                    }
                }
            }
        },
        CacheEvent::Other => {},
    }
    assert(ops_view(ops@) =~= planned_ops(*event, *config, bot));
    ops
}

/// The keys of the cached emojis of a guild that an emoji update no longer
/// lists, to be deleted: `emoji:guild_id:emoji_id` of each id of `cached`
/// that `current` lacks, in order.
pub fn stale_emoji_keys(guild: u64, cached: &Vec<u64>, current: &Vec<u64>) -> (keys: Vec<String>)
    ensures
        keys_view(keys@) == stale(cached@, current@).map_values(|id: u64| key2(EMOJI_KEY@, guild, id)),
{
    let gone = stale_ids(cached, current);
    let mut keys: Vec<String> = Vec::new();
    let mut i: usize = 0;
    while i < gone.len()
        invariant
            i <= gone@.len(),
            keys_view(keys@) == gone@.take(i as int).map_values(|id: u64| key2(EMOJI_KEY@, guild, id)),
        decreases gone@.len() - i,
    {
        let ghost before = keys@;
        keys.push(emoji_key(guild, gone[i]));
        proof {
            assert(gone@.take(i + 1) =~= gone@.take(i as int).push(gone@[i as int]));
            assert(keys_view(keys@) =~= keys_view(before).push(key2(EMOJI_KEY@, guild, gone@[i as int])));
            assert(gone@.take(i + 1).map_values(|id: u64| key2(EMOJI_KEY@, guild, id)) =~= gone@.take(i as int).map_values(
                |id: u64| key2(EMOJI_KEY@, guild, id),
            ).push(key2(EMOJI_KEY@, guild, gone@[i as int])));
        }
        i = i + 1;
    }
    assert(gone@.take(gone@.len() as int) =~= gone@);
    keys
}

/// The helper set `guild_keys:guild_id` that lists the keys of a guild,
/// read and emptied when the guild is cleared.
pub fn guild_keys_key(guild: u64) -> (key: String)
    ensures
        key@ == guild_keys_set(guild),
{
    proof {
        crate::constants::lemma_key_names();
    }
    String::from_str(GUILD_KEY).concat(KEYS_SUFFIX).concat(":").concat(u64_to_decimal(guild).as_str())
}

/// The keys that clearing a guild deletes: every key listed under the
/// guild (`listed`, as read from `guild_keys:guild_id`), in order, and last
/// the guild itself, whose cached value is read first as the previous
/// state.
pub fn guild_clear_keys(guild: u64, listed: &Vec<String>) -> (keys: Vec<String>)
    ensures
        keys_view(keys@) == keys_view(listed@).push(key1(GUILD_KEY@, guild)),
{
    let mut keys: Vec<String> = Vec::new();
    let mut i: usize = 0;
    while i < listed.len()
        invariant
            i <= listed@.len(),
            keys_view(keys@) == keys_view(listed@.take(i as int)),
        decreases listed@.len() - i,
    {
        proof {
            assert(listed@.take(i + 1) =~= listed@.take(i as int).push(listed@[i as int]));
            assert(keys_view(listed@.take(i + 1)) =~= keys_view(listed@.take(i as int)).push(listed@[i as int]@));
        }
        let ghost before = keys@;
        keys.push(listed[i].clone());
        proof {
            assert(keys@ == before.push(listed@[i as int]));
            assert(keys_view(keys@) =~= keys_view(before).push(listed@[i as int]@));
        }
        i = i + 1;
    }
    proof {
        assert(listed@.take(listed@.len() as int) =~= listed@);
    }
    let ghost before = keys@;
    keys.push(guild_key(guild));
    proof {
        assert(keys_view(keys@) =~= keys_view(before).push(key1(GUILD_KEY@, guild)));
    }
    keys
}

/// The keys of `keys` whose kind (the part before the first `':'`) is
/// `kind`, in order.
pub open spec fn keys_of_kind(keys: Seq<Seq<char>>, kind: Seq<char>) -> Seq<Seq<char>>
    decreases keys.len(),
{
    if keys.len() == 0 {
        Seq::empty()
    } else {
        let rest = keys_of_kind(keys.drop_last(), kind);
        if split_colon(keys.last())[0] == kind {
            rest.push(keys.last())
        } else {
            rest
        }
    }
}

/// The keys of a kind among the keys listed under a guild, such as its
/// emojis.
pub fn filter_kind(keys: &Vec<String>, kind: &str) -> (found: Vec<String>)
    ensures
        found.deep_view() == keys_of_kind(keys.deep_view(), kind@),
{
    let ghost kv = keys.deep_view();
    let mut found: Vec<String> = Vec::new();
    let mut i: usize = 0;
    assert(kv.take(0) =~= Seq::<Seq<char>>::empty());
    assert(found.deep_view() =~= Seq::<Seq<char>>::empty());
    while i < keys.len()
        invariant
            i <= keys@.len(),
            kv == keys.deep_view(),
            found.deep_view() == keys_of_kind(kv.take(i as int), kind@),
        decreases keys@.len() - i,
    {
        let ghost before = found.deep_view();
        assert(kv.take(i + 1).drop_last() =~= kv.take(i as int));
        assert(kv.take(i + 1).last() == keys@[i as int]@);
        let parts = get_keys(keys[i].as_str());
        proof {
            crate::utils::lemma_split_nonempty(keys@[i as int]@);
            assert(parts.deep_view()[0] == parts@[0]@);
        }
        if str_eq(parts[0].as_str(), kind) {
            found.push(keys[i].clone());
            assert(found.deep_view() =~= before.push(keys@[i as int]@));
        }
        i = i + 1;
    }
    assert(kv.take(keys@.len() as int) =~= kv);
    found
}

/// The ids of `cached` that are not in `current`, in order.
pub open spec fn stale(cached: Seq<u64>, current: Seq<u64>) -> Seq<u64>
    decreases cached.len(),
{
    if cached.len() == 0 {
        Seq::empty()
    } else {
        let rest = stale(cached.drop_last(), current);
        if current.contains(cached.last()) {
            rest
        } else {
            rest.push(cached.last())
        }
    }
}

/// The cached objects that an update no longer lists, such as the emojis
/// of a guild that were deleted.
pub fn stale_ids(cached: &Vec<u64>, current: &Vec<u64>) -> (gone: Vec<u64>)
    ensures
        gone@ == stale(cached@, current@),
{
    let mut gone: Vec<u64> = Vec::new();
    let mut i: usize = 0;
    assert(cached@.take(0) =~= Seq::<u64>::empty());
    while i < cached.len()
        invariant
            i <= cached@.len(),
            gone@ == stale(cached@.take(i as int), current@),
        decreases cached@.len() - i,
    {
        assert(cached@.take(i + 1).drop_last() =~= cached@.take(i as int));
        assert(cached@.take(i + 1).last() == cached@[i as int]);
        let id = cached[i];
        let mut j: usize = 0;
        let mut present = false;
        while j < current.len()
            invariant
                j <= current@.len(),
                present == exists|k: int| 0 <= k < j && current@[k] == id,
            decreases current@.len() - j,
        {
            if current[j] == id {
                present = true;
            }
            j = j + 1;
        }
        if !present {
            gone.push(id);
        }
        i = i + 1;
    }
    assert(cached@.take(cached@.len() as int) =~= cached@);
    gone
}

/// A key given to the cache is listed in the helper set of the guild.
pub open spec fn listed_under_guild(key: Seq<char>, guild: u64) -> bool {
    index_entries(key).contains((guild_keys_set(guild), stored_key(key)))
}

proof fn lemma_keyed_items_listed(kind: Seq<char>, item: ItemKind, guild: u64, ids: Seq<u64>, keep_all: bool, bot: u64)
    requires
        guild_owned_kind(kind) || kind == CHANNEL_KEY@,
    ensures
        forall|k: int| 0 <= k < keyed_items(kind, item, guild, ids, keep_all, bot).len()
            ==> listed_under_guild(#[trigger] keyed_items(kind, item, guild, ids, keep_all, bot)[k].0, guild),
    decreases ids.len(),
{
    if ids.len() > 0 {
        lemma_keyed_items_listed(kind, item, guild, ids.drop_last(), keep_all, bot);
        let rest = keyed_items(kind, item, guild, ids.drop_last(), keep_all, bot);
        let key = key2(kind, guild, ids.last());
        if guild_owned_kind(kind) {
            law_guild_object_index(kind, guild, ids.last());
        } else {
            law_guild_channel_index(guild, ids.last());
        }
        assert(index_entries(key)[1] == (guild_keys_set(guild), stored_key(key)));
        assert(listed_under_guild(key, guild));
        let all = keyed_items(kind, item, guild, ids, keep_all, bot);
        assert forall|k: int| 0 <= k < all.len() implies listed_under_guild(#[trigger] all[k].0, guild) by {
            if k < rest.len() {
                assert(all[k] == rest[k]);
            }
        }
    }
}

proof fn lemma_listed_concat(a: Seq<(Seq<char>, Payload)>, b: Seq<(Seq<char>, Payload)>, guild: u64)
    requires
        forall|k: int| 0 <= k < a.len() ==> listed_under_guild(#[trigger] a[k].0, guild),
        forall|k: int| 0 <= k < b.len() ==> listed_under_guild(#[trigger] b[k].0, guild),
    ensures
        forall|k: int| 0 <= k < (a + b).len() ==> listed_under_guild(#[trigger] (a + b)[k].0, guild),
{
    assert forall|k: int| 0 <= k < (a + b).len() implies listed_under_guild(#[trigger] (a + b)[k].0, guild) by {
        if k < a.len() {
            assert((a + b)[k] == a[k]);
        } else {
            assert((a + b)[k] == b[k - a.len()]);
        }
    }
}

/// Everything that `GuildCreate` stores for a guild, but the guild itself,
/// is listed under `guild_keys:guild_id`, so that clearing the guild (on a
/// later create, delete or outage) removes all of it.
pub proof fn law_guild_create_items_cleared_with_guild(
    guild: u64,
    channels: Seq<u64>,
    roles: Seq<u64>,
    emojis: Seq<u64>,
    voice_users: Seq<u64>,
    members: Seq<u64>,
    presence_users: Seq<u64>,
    config: StateConfig,
    bot: u64,
)
    ensures
        ({
            let items = guild_create_items(guild, channels, roles, emojis, voice_users, members, presence_users, config, bot);
            &&& items.last() == (key1(GUILD_KEY@, guild), Payload::Item(ItemKind::Guild, 0))
            &&& forall|k: int| 0 <= k < items.len() - 1 ==> listed_under_guild(#[trigger] items[k].0, guild)
        }),
{
    crate::constants::lemma_key_names();
    let empty = Seq::<(Seq<char>, Payload)>::empty();
    let c = keyed_items(CHANNEL_KEY@, ItemKind::Channel, guild, channels, true, bot);
    let r = keyed_items(ROLE_KEY@, ItemKind::Role, guild, roles, true, bot);
    let e = if config.state_emoji { keyed_items(EMOJI_KEY@, ItemKind::Emoji, guild, emojis, true, bot) } else { empty };
    let v = if config.state_voice { keyed_items(VOICE_KEY@, ItemKind::Voice, guild, voice_users, true, bot) } else { empty };
    let m = keyed_items(MEMBER_KEY@, ItemKind::Member, guild, members, config.state_member, bot);
    let p = if config.state_presence { keyed_items(PRESENCE_KEY@, ItemKind::Presence, guild, presence_users, true, bot) } else { empty };
    lemma_keyed_items_listed(CHANNEL_KEY@, ItemKind::Channel, guild, channels, true, bot);
    lemma_keyed_items_listed(ROLE_KEY@, ItemKind::Role, guild, roles, true, bot);
    lemma_keyed_items_listed(EMOJI_KEY@, ItemKind::Emoji, guild, emojis, true, bot);
    lemma_keyed_items_listed(VOICE_KEY@, ItemKind::Voice, guild, voice_users, true, bot);
    lemma_keyed_items_listed(MEMBER_KEY@, ItemKind::Member, guild, members, config.state_member, bot);
    lemma_keyed_items_listed(PRESENCE_KEY@, ItemKind::Presence, guild, presence_users, true, bot);
    lemma_listed_concat(c, r, guild);
    lemma_listed_concat(c + r, e, guild);
    lemma_listed_concat(c + r + e, v, guild);
    lemma_listed_concat(c + r + e + v, m, guild);
    lemma_listed_concat(c + r + e + v + m, p, guild);
    let body = c + r + e + v + m + p;
    let items = guild_create_items(guild, channels, roles, emojis, voice_users, members, presence_users, config, bot);
    assert(items =~= body + seq![(key1(GUILD_KEY@, guild), Payload::Item(ItemKind::Guild, 0))]);
    assert forall|k: int| 0 <= k < items.len() - 1 implies listed_under_guild(#[trigger] items[k].0, guild) by {
        assert(items[k] == body[k]);
    }
}

/// A channel is read (for its previous state) and merged (on a pins
/// update) under the key where its create and update events store it.
pub proof fn law_channel_read_where_stored(guild: Option<u64>, channel: u64, config: StateConfig, bot: u64)
    ensures
        stored_key(spec_channel_key(guild, channel)) == key1(CHANNEL_KEY@, channel),
        planned_ops(CacheEvent::ChannelPinsUpdate { guild, channel }, config, bot)
            == seq![OpView::Merge(stored_key(spec_channel_key(guild, channel)), false, None)],
        config.state_old ==> planned_ops(CacheEvent::ChannelUpdate { guild, channel }, config, bot)
            == seq![
                OpView::ReadOld(stored_key(spec_channel_key(guild, channel))),
                OpView::Store(spec_channel_key(guild, channel), Payload::Event),
            ],
        config.state_old ==> planned_ops(CacheEvent::ChannelDelete { guild, channel }, config, bot)
            == seq![
                OpView::ReadOld(stored_key(spec_channel_key(guild, channel))),
                OpView::Delete(spec_channel_key(guild, channel)),
            ],
{
    match guild {
        Some(g) => law_guild_channel_index(g, channel),
        None => law_top_level_index(CHANNEL_KEY@, channel),
    }
    assert(when(true, OpView::ReadOld(key1(CHANNEL_KEY@, channel))) =~= seq![OpView::ReadOld(key1(CHANNEL_KEY@, channel))]);
}

/// The key that a step stores a value under, if it stores one.
pub open spec fn stored_by(op: OpView) -> Option<Seq<char>> {
    match op {
        OpView::Store(key, _) => Some(key),
        _ => None,
    }
}

/// The plan stores a value under `key`.
pub open spec fn stores_at(ops: Seq<OpView>, key: Seq<char>) -> bool {
    exists|i: int| 0 <= i < ops.len() && #[trigger] stored_by(ops[i]) == Some(key)
}

/// The plan deletes `key`.
pub open spec fn deletes_at(ops: Seq<OpView>, key: Seq<char>) -> bool {
    exists|i: int| 0 <= i < ops.len() && #[trigger] ops[i] == OpView::Delete(key)
}

/// A step that makes an object's cached value the previous state; the
/// guild cleared by a guild create or delete is not counted, as its
/// previous state is always read (it tells a join from a return).
pub open spec fn keeps_old(op: OpView) -> bool {
    match op {
        OpView::ReadOld(_) => true,
        OpView::ReadAllOld(_, keep) => keep,
        OpView::Merge(_, keep, _) => keep,
        OpView::ReplaceEmojis(_, _, keep) => keep,
        _ => false,
    }
}

/// A deleted object leaves the cache: the plan of its delete event ends by
/// deleting it and never stores it.
pub proof fn law_deleted_objects_leave_the_cache(
    guild: u64,
    id: u64,
    channel_guild: Option<u64>,
    messages: Vec<u64>,
    config: StateConfig,
    bot: u64,
)
    ensures
        planned_ops(CacheEvent::RoleDelete { guild, role: id }, config, bot).last() == OpView::Delete(key2(ROLE_KEY@, guild, id)),
        !stores_at(planned_ops(CacheEvent::RoleDelete { guild, role: id }, config, bot), key2(ROLE_KEY@, guild, id)),
        planned_ops(CacheEvent::ChannelDelete { guild: channel_guild, channel: id }, config, bot).last()
            == OpView::Delete(spec_channel_key(channel_guild, id)),
        !stores_at(planned_ops(CacheEvent::ChannelDelete { guild: channel_guild, channel: id }, config, bot), spec_channel_key(channel_guild, id)),
        config.state_message ==> planned_ops(CacheEvent::MessageDelete { channel: guild, message: id }, config, bot).last()
            == OpView::Delete(key2(MESSAGE_KEY@, guild, id)),
        !stores_at(planned_ops(CacheEvent::MessageDelete { channel: guild, message: id }, config, bot), key2(MESSAGE_KEY@, guild, id)),
        config.state_message ==> (planned_ops(CacheEvent::MessageDeleteBulk { channel: guild, messages }, config, bot).last()
            matches OpView::DeleteAll(keys) && keys.len() == messages@.len()
            && forall|i: int| 0 <= i < keys.len() ==> #[trigger] keys[i] == key2(MESSAGE_KEY@, guild, messages@[i])),
        config.state_member ==> deletes_at(planned_ops(CacheEvent::MemberRemove { guild, user: id }, config, bot), key2(MEMBER_KEY@, guild, id)),
        config.state_presence ==> planned_ops(CacheEvent::MemberRemove { guild, user: id }, config, bot).last()
            == OpView::Delete(key2(PRESENCE_KEY@, guild, id)),
        !stores_at(planned_ops(CacheEvent::MemberRemove { guild, user: id }, config, bot), key2(MEMBER_KEY@, guild, id)),
        config.state_voice ==> planned_ops(CacheEvent::VoiceStateUpdate { guild: Some(guild), user: id, in_channel: false }, config, bot).last()
            == OpView::Delete(key2(VOICE_KEY@, guild, id)),
        planned_ops(CacheEvent::GuildDelete { guild }, config, bot).last() == OpView::ClearGuild(guild),
        !stores_at(planned_ops(CacheEvent::GuildDelete { guild }, config, bot), key1(GUILD_KEY@, guild)),
{
    let old = config.state_old;
    let ops = planned_ops(CacheEvent::MemberRemove { guild, user: id }, config, bot);
    if config.state_member {
        let at: int = if old { 1 } else { 0 };
        assert(ops[at] == OpView::Delete(key2(MEMBER_KEY@, guild, id)));
    }
}

/// An object that an event creates or changes is stored under its key,
/// as the last step for its key; members and messages then expire after
/// their time to live.
pub proof fn law_written_objects_are_stored(
    guild: u64,
    id: u64,
    channel_guild: Option<u64>,
    guilds: Vec<u64>,
    config: StateConfig,
    bot: u64,
)
    ensures
        planned_ops(CacheEvent::ChannelCreate { guild: channel_guild, channel: id }, config, bot).last()
            == OpView::Store(spec_channel_key(channel_guild, id), Payload::Event),
        planned_ops(CacheEvent::ChannelUpdate { guild: channel_guild, channel: id }, config, bot).last()
            == OpView::Store(spec_channel_key(channel_guild, id), Payload::Event),
        planned_ops(CacheEvent::RoleCreate { guild, role: id }, config, bot).last() == OpView::Store(key2(ROLE_KEY@, guild, id), Payload::Role),
        planned_ops(CacheEvent::RoleUpdate { guild, role: id }, config, bot).last() == OpView::Store(key2(ROLE_KEY@, guild, id), Payload::Role),
        planned_ops(CacheEvent::GuildUpdate { guild }, config, bot).last() == OpView::Store(key1(GUILD_KEY@, guild), Payload::Event),
        planned_ops(CacheEvent::UnavailableGuild { guild }, config, bot).last() == OpView::Store(key1(GUILD_KEY@, guild), Payload::Event),
        planned_ops(CacheEvent::UserUpdate, config, bot).last() == OpView::Store(BOT_USER_KEY@, Payload::Event),
        planned_ops(CacheEvent::Ready { guilds }, config, bot)[0] == OpView::Store(BOT_USER_KEY@, Payload::User),
        config.state_presence ==> planned_ops(CacheEvent::PresenceUpdate { guild, user: id }, config, bot).last()
            == OpView::Store(key2(PRESENCE_KEY@, guild, id), Payload::Event),
        config.state_voice ==> planned_ops(CacheEvent::VoiceStateUpdate { guild: Some(guild), user: id, in_channel: true }, config, bot).last()
            == OpView::Store(key2(VOICE_KEY@, guild, id), Payload::Event),
        config.state_member ==> stores_at(planned_ops(CacheEvent::MemberAdd { guild, user: id }, config, bot), key2(MEMBER_KEY@, guild, id)),
        config.state_member ==> planned_ops(CacheEvent::MemberAdd { guild, user: id }, config, bot).last()
            == OpView::Expire(key2(MEMBER_KEY@, guild, id), config.state_member_ttl),
        config.state_message ==> stores_at(planned_ops(CacheEvent::MessageCreate { channel: guild, message: id }, config, bot), key2(MESSAGE_KEY@, guild, id)),
        config.state_message ==> planned_ops(CacheEvent::MessageCreate { channel: guild, message: id }, config, bot).last()
            == OpView::Expire(key2(MESSAGE_KEY@, guild, id), config.state_message_ttl),
        config.state_member || id == bot ==> planned_ops(CacheEvent::MemberUpdate { guild, user: id }, config, bot).last()
            == OpView::Merge(key2(MEMBER_KEY@, guild, id), config.state_old, Some(config.state_member_ttl)),
        config.state_message ==> planned_ops(CacheEvent::MessageUpdate { channel: guild, message: id }, config, bot).last()
            == OpView::Merge(key2(MESSAGE_KEY@, guild, id), config.state_old, Some(config.state_message_ttl)),
{
    let add = planned_ops(CacheEvent::MemberAdd { guild, user: id }, config, bot);
    let create = planned_ops(CacheEvent::MessageCreate { channel: guild, message: id }, config, bot);
    if config.state_member {
        assert(stored_by(add[0]) == Some(key2(MEMBER_KEY@, guild, id)));
    }
    if config.state_message {
        assert(stored_by(create[0]) == Some(key2(MESSAGE_KEY@, guild, id)));
    }
}

/// With the old-state option off, no step of any plan keeps a previous
/// state.
#[verifier::rlimit(50)]
pub proof fn law_no_previous_state_unless_kept(event: CacheEvent, config: StateConfig, bot: u64)
    requires
        !config.state_old,
    ensures
        forall|i: int| 0 <= i < planned_ops(event, config, bot).len()
            ==> !keeps_old(#[trigger] planned_ops(event, config, bot)[i]),
{
    let ops = planned_ops(event, config, bot);
    assert forall|i: int| 0 <= i < ops.len() implies !keeps_old(#[trigger] ops[i]) by {
        match event {
            CacheEvent::GuildCreate { guild, channels, roles, emojis, voice_users, members, presence_users } => {
                if i >= 2 {
                    assert(ops[i] == OpView::ExpireAll(ttl_items(MEMBER_KEY@, guild, members@, config.state_member_ttl)));
                }
            },
            CacheEvent::MemberRemove { guild, user } => {
                if config.state_member && i == 0 {
                    assert(ops[i] == OpView::Delete(key2(MEMBER_KEY@, guild, user)));
                }
            },
            _ => {},
        }
    }
}

/// With the old-state option on, an object that an event changes or
/// deletes is first read as the previous state, where it is stored.
pub proof fn law_previous_state_read_first(guild: u64, id: u64, channel_guild: Option<u64>, config: StateConfig, bot: u64)
    requires
        config.state_old,
    ensures
        planned_ops(CacheEvent::RoleDelete { guild, role: id }, config, bot)[0] == OpView::ReadOld(key2(ROLE_KEY@, guild, id)),
        planned_ops(CacheEvent::RoleUpdate { guild, role: id }, config, bot)[0] == OpView::ReadOld(key2(ROLE_KEY@, guild, id)),
        planned_ops(CacheEvent::ChannelDelete { guild: channel_guild, channel: id }, config, bot)[0]
            == OpView::ReadOld(key1(CHANNEL_KEY@, id)),
        planned_ops(CacheEvent::ChannelUpdate { guild: channel_guild, channel: id }, config, bot)[0]
            == OpView::ReadOld(key1(CHANNEL_KEY@, id)),
        planned_ops(CacheEvent::GuildUpdate { guild }, config, bot)[0] == OpView::ReadOld(key1(GUILD_KEY@, guild)),
        planned_ops(CacheEvent::UserUpdate, config, bot)[0] == OpView::ReadOld(BOT_USER_KEY@),
        config.state_message ==> planned_ops(CacheEvent::MessageDelete { channel: guild, message: id }, config, bot)[0]
            == OpView::ReadOld(key2(MESSAGE_KEY@, guild, id)),
        config.state_member ==> planned_ops(CacheEvent::MemberRemove { guild, user: id }, config, bot)[0]
            == OpView::ReadOld(key2(MEMBER_KEY@, guild, id)),
        config.state_presence ==> planned_ops(CacheEvent::PresenceUpdate { guild, user: id }, config, bot)[0]
            == OpView::ReadOld(key2(PRESENCE_KEY@, guild, id)),
        config.state_voice ==> planned_ops(CacheEvent::VoiceStateUpdate { guild: Some(guild), user: id, in_channel: true }, config, bot)[0]
            == OpView::ReadOld(key2(VOICE_KEY@, guild, id)),
{
}

/// State that is not kept is left alone: with its option off, an event of
/// that kind plans nothing (but the bot's own member, which is kept).
pub proof fn law_disabled_state_is_left_alone(guild: u64, id: u64, ids: Vec<u64>, in_channel: bool, config: StateConfig, bot: u64)
    ensures
        !config.state_message ==> planned_ops(CacheEvent::MessageCreate { channel: guild, message: id }, config, bot).len() == 0,
        !config.state_message ==> planned_ops(CacheEvent::MessageDelete { channel: guild, message: id }, config, bot).len() == 0,
        !config.state_message ==> planned_ops(CacheEvent::MessageDeleteBulk { channel: guild, messages: ids }, config, bot).len() == 0,
        !config.state_message ==> planned_ops(CacheEvent::MessageUpdate { channel: guild, message: id }, config, bot).len() == 0,
        !config.state_presence ==> planned_ops(CacheEvent::PresenceUpdate { guild, user: id }, config, bot).len() == 0,
        !config.state_voice ==> planned_ops(CacheEvent::VoiceStateUpdate { guild: Some(guild), user: id, in_channel }, config, bot).len() == 0,
        !config.state_emoji ==> planned_ops(CacheEvent::GuildEmojisUpdate { guild, emojis: ids }, config, bot).len() == 0,
        !config.state_member ==> planned_ops(CacheEvent::MemberAdd { guild, user: id }, config, bot).len() == 0,
        !config.state_member ==> planned_ops(CacheEvent::MemberChunk { guild, users: ids }, config, bot).len() == 0,
        !config.state_member && id != bot ==> planned_ops(CacheEvent::MemberUpdate { guild, user: id }, config, bot).len() == 0,
        !config.state_member && !config.state_presence ==> planned_ops(CacheEvent::MemberRemove { guild, user: id }, config, bot).len() == 0,
{
}

/// The item of an id, by its key and index, is among the keyed items
/// exactly when ids of that kind are all kept or the id is the bot's.
pub proof fn law_keyed_items_kept(kind: Seq<char>, item: ItemKind, owner: u64, ids: Seq<u64>, keep_all: bool, bot: u64, i: int)
    requires
        0 <= i < ids.len(),
        ids.len() <= usize::MAX,
    ensures
        keyed_items(kind, item, owner, ids, keep_all, bot).contains((key2(kind, owner, ids[i]), Payload::Item(item, i as usize)))
            <==> (keep_all || ids[i] == bot),
    decreases ids.len(),
{
    let rest_ids = ids.drop_last();
    let rest = keyed_items(kind, item, owner, rest_ids, keep_all, bot);
    let all = keyed_items(kind, item, owner, ids, keep_all, bot);
    let x = (key2(kind, owner, ids[i]), Payload::Item(item, i as usize));
    let last = ids.len() - 1;
    if i < last {
        law_keyed_items_kept(kind, item, owner, rest_ids, keep_all, bot, i);
        assert(rest_ids[i] == ids[i]);
        if keep_all || ids.last() == bot {
            let pushed = (key2(kind, owner, ids.last()), Payload::Item(item, last as usize));
            assert(all == rest.push(pushed));
            assert(pushed != x);
            if rest.contains(x) {
                let k = choose|k: int| 0 <= k < rest.len() && rest[k] == x;
                assert(all[k] == x);
            }
            if all.contains(x) {
                let k = choose|k: int| 0 <= k < all.len() && all[k] == x;
                assert(k < rest.len());
                assert(rest[k] == x);
            }
        }
    } else {
        assert(ids.last() == ids[i]);
        if keep_all || ids[i] == bot {
            assert(all[rest.len() as int] == x);
        } else {
            assert(all == rest);
            if rest.contains(x) {
                lemma_keyed_items_indices(kind, item, owner, rest_ids, keep_all, bot);
                let k = choose|k: int| 0 <= k < rest.len() && rest[k] == x;
            }
        }
    }
}

/// Every keyed item has the index of an id before the end of the list.
proof fn lemma_keyed_items_indices(kind: Seq<char>, item: ItemKind, owner: u64, ids: Seq<u64>, keep_all: bool, bot: u64)
    requires
        ids.len() <= usize::MAX,
    ensures
        forall|k: int| 0 <= k < keyed_items(kind, item, owner, ids, keep_all, bot).len()
            ==> ((#[trigger] keyed_items(kind, item, owner, ids, keep_all, bot)[k]).1 matches Payload::Item(it, idx)
                && it == item && idx < ids.len()),
    decreases ids.len(),
{
    if ids.len() > 0 {
        lemma_keyed_items_indices(kind, item, owner, ids.drop_last(), keep_all, bot);
    }
}

proof fn lemma_contains_add<A>(a: Seq<A>, b: Seq<A>, x: A)
    ensures
        (a + b).contains(x) <==> a.contains(x) || b.contains(x),
{
    if a.contains(x) {
        let k = choose|k: int| 0 <= k < a.len() && a[k] == x;
        assert((a + b)[k] == x);
    }
    if b.contains(x) {
        let k = choose|k: int| 0 <= k < b.len() && b[k] == x;
        assert((a + b)[a.len() + k] == x);
    }
    if (a + b).contains(x) {
        let k = choose|k: int| 0 <= k < (a + b).len() && (a + b)[k] == x;
        if k < a.len() {
            assert(a[k] == x);
        } else {
            assert(b[k - a.len()] == x);
        }
    }
}

/// Items of another kind than `item` are not keyed items of `item`.
proof fn lemma_keyed_items_kind(kind: Seq<char>, item: ItemKind, owner: u64, ids: Seq<u64>, keep_all: bool, bot: u64, x: (Seq<char>, Payload), other: ItemKind, idx: usize)
    requires
        ids.len() <= usize::MAX,
        x.1 == Payload::Item(other, idx),
        other != item,
    ensures
        !keyed_items(kind, item, owner, ids, keep_all, bot).contains(x),
{
    lemma_keyed_items_indices(kind, item, owner, ids, keep_all, bot);
    if keyed_items(kind, item, owner, ids, keep_all, bot).contains(x) {
        let k = choose|k: int| 0 <= k < keyed_items(kind, item, owner, ids, keep_all, bot).len()
            && keyed_items(kind, item, owner, ids, keep_all, bot)[k] == x;
    }
}

/// A guild that arrives is cleared first, and then stored with all its
/// channels, each under its key, and of its members all when members are
/// kept and else only the bot's own; the guild itself is stored last.
pub proof fn law_guild_create_stores(
    guild: u64,
    channels: Vec<u64>,
    roles: Vec<u64>,
    emojis: Vec<u64>,
    voice_users: Vec<u64>,
    members: Vec<u64>,
    presence_users: Vec<u64>,
    config: StateConfig,
    bot: u64,
    i: int,
)
    requires
        channels@.len() <= usize::MAX,
        roles@.len() <= usize::MAX,
        emojis@.len() <= usize::MAX,
        voice_users@.len() <= usize::MAX,
        members@.len() <= usize::MAX,
        presence_users@.len() <= usize::MAX,
    ensures
        ({
            let ops = planned_ops(
                CacheEvent::GuildCreate { guild, channels, roles, emojis, voice_users, members, presence_users },
                config,
                bot,
            );
            let items = guild_create_items(guild, channels@, roles@, emojis@, voice_users@, members@, presence_users@, config, bot);
            &&& ops[0] == OpView::ClearGuild(guild)
            &&& ops[1] == OpView::StoreAll(items)
            &&& items.last() == (key1(GUILD_KEY@, guild), Payload::Item(ItemKind::Guild, 0))
            &&& 0 <= i < channels@.len() ==> items.contains(
                (key2(CHANNEL_KEY@, guild, channels@[i]), Payload::Item(ItemKind::Channel, i as usize)),
            )
            &&& 0 <= i < members@.len() ==> (items.contains(
                (key2(MEMBER_KEY@, guild, members@[i]), Payload::Item(ItemKind::Member, i as usize)),
            ) <==> (config.state_member || members@[i] == bot))
        }),
{
    let ch = keyed_items(CHANNEL_KEY@, ItemKind::Channel, guild, channels@, true, bot);
    let ro = keyed_items(ROLE_KEY@, ItemKind::Role, guild, roles@, true, bot);
    let em = if config.state_emoji { keyed_items(EMOJI_KEY@, ItemKind::Emoji, guild, emojis@, true, bot) } else { Seq::empty() };
    let vo = if config.state_voice { keyed_items(VOICE_KEY@, ItemKind::Voice, guild, voice_users@, true, bot) } else { Seq::empty() };
    let me = keyed_items(MEMBER_KEY@, ItemKind::Member, guild, members@, config.state_member, bot);
    let pr = if config.state_presence { keyed_items(PRESENCE_KEY@, ItemKind::Presence, guild, presence_users@, true, bot) } else { Seq::empty() };
    let gi = seq![(key1(GUILD_KEY@, guild), Payload::Item(ItemKind::Guild, 0))];
    let items = guild_create_items(guild, channels@, roles@, emojis@, voice_users@, members@, presence_users@, config, bot);
    assert(items == ch + ro + em + vo + me + pr + gi);
    if 0 <= i < channels@.len() {
        let x = (key2(CHANNEL_KEY@, guild, channels@[i]), Payload::Item(ItemKind::Channel, i as usize));
        law_keyed_items_kept(CHANNEL_KEY@, ItemKind::Channel, guild, channels@, true, bot, i);
        lemma_contains_add(ch, ro, x);
        lemma_contains_add(ch + ro, em, x);
        lemma_contains_add(ch + ro + em, vo, x);
        lemma_contains_add(ch + ro + em + vo, me, x);
        lemma_contains_add(ch + ro + em + vo + me, pr, x);
        lemma_contains_add(ch + ro + em + vo + me + pr, gi, x);
    }
    if 0 <= i < members@.len() {
        let x = (key2(MEMBER_KEY@, guild, members@[i]), Payload::Item(ItemKind::Member, i as usize));
        law_keyed_items_kept(MEMBER_KEY@, ItemKind::Member, guild, members@, config.state_member, bot, i);
        lemma_keyed_items_kind(CHANNEL_KEY@, ItemKind::Channel, guild, channels@, true, bot, x, ItemKind::Member, i as usize);
        lemma_keyed_items_kind(ROLE_KEY@, ItemKind::Role, guild, roles@, true, bot, x, ItemKind::Member, i as usize);
        lemma_keyed_items_kind(EMOJI_KEY@, ItemKind::Emoji, guild, emojis@, true, bot, x, ItemKind::Member, i as usize);
        lemma_keyed_items_kind(VOICE_KEY@, ItemKind::Voice, guild, voice_users@, true, bot, x, ItemKind::Member, i as usize);
        lemma_keyed_items_kind(PRESENCE_KEY@, ItemKind::Presence, guild, presence_users@, true, bot, x, ItemKind::Member, i as usize);
        assert(!gi.contains(x)) by {
            if gi.contains(x) {
                let k = choose|k: int| 0 <= k < gi.len() && gi[k] == x;
                assert(gi[0] == x);
            }
        }
        lemma_contains_add(ch, ro, x);
        lemma_contains_add(ch + ro, em, x);
        lemma_contains_add(ch + ro + em, vo, x);
        lemma_contains_add(ch + ro + em + vo, me, x);
        lemma_contains_add(ch + ro + em + vo + me, pr, x);
        lemma_contains_add(ch + ro + em + vo + me + pr, gi, x);
    }
}

} // verus!
