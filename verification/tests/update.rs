use twilight_dispatch::update::{
    filter_kind, guild_keys_key, stale_ids, update_plan, CacheEvent, CacheOp, ItemKind, Payload, StateConfig,
};

fn s(text: &str) -> String {
    text.to_string()
}

fn config(all: bool) -> StateConfig {
    StateConfig {
        state_member: all,
        state_member_ttl: 600000,
        state_message: all,
        state_message_ttl: 3600000,
        state_presence: all,
        state_emoji: all,
        state_voice: all,
        state_old: all,
    }
}

#[test]
fn channel_delete_reads_old_then_deletes() {
    let ops = update_plan(&CacheEvent::ChannelDelete { guild: Some(1), channel: 2 }, &config(true), 99);
    assert_eq!(ops, vec![CacheOp::ReadOld { key: s("channel:2") }, CacheOp::Delete { key: s("channel:1:2") }]);
    let ops = update_plan(&CacheEvent::ChannelDelete { guild: None, channel: 2 }, &config(false), 99);
    assert_eq!(ops, vec![CacheOp::Delete { key: s("channel:2") }]);
}

#[test]
fn channel_pins_update_merges_where_the_channel_is_stored() {
    let ops = update_plan(&CacheEvent::ChannelPinsUpdate { guild: Some(1), channel: 2 }, &config(true), 99);
    assert_eq!(ops, vec![CacheOp::Merge { key: s("channel:2"), keep_old: false, ttl: None }]);
}

#[test]
fn channel_update_reads_old_where_the_channel_is_stored() {
    let ops = update_plan(&CacheEvent::ChannelUpdate { guild: Some(1), channel: 2 }, &config(true), 99);
    assert_eq!(ops, vec![CacheOp::ReadOld { key: s("channel:2") }, CacheOp::Store { key: s("channel:1:2"), value: Payload::Event }]);
}

#[test]
fn guild_create_stores_its_objects_and_itself_last() {
    let event = CacheEvent::GuildCreate {
        guild: 1,
        channels: vec![10],
        roles: vec![20, 21],
        emojis: vec![30],
        voice_users: vec![40],
        members: vec![50, 99],
        presence_users: vec![60],
    };
    let ops = update_plan(&event, &config(false), 99);
    assert_eq!(ops, vec![
        CacheOp::ClearGuild { guild: 1 },
        CacheOp::StoreAll { items: vec![
            (s("channel:1:10"), Payload::Item(ItemKind::Channel, 0)),
            (s("role:1:20"), Payload::Item(ItemKind::Role, 0)),
            (s("role:1:21"), Payload::Item(ItemKind::Role, 1)),
            (s("member:1:99"), Payload::Item(ItemKind::Member, 1)),
            (s("guild:1"), Payload::Item(ItemKind::Guild, 0)),
        ] },
    ]);
    let ops = update_plan(&event, &config(true), 99);
    assert_eq!(ops, vec![
        CacheOp::ClearGuild { guild: 1 },
        CacheOp::StoreAll { items: vec![
            (s("channel:1:10"), Payload::Item(ItemKind::Channel, 0)),
            (s("role:1:20"), Payload::Item(ItemKind::Role, 0)),
            (s("role:1:21"), Payload::Item(ItemKind::Role, 1)),
            (s("emoji:1:30"), Payload::Item(ItemKind::Emoji, 0)),
            (s("voice:1:40"), Payload::Item(ItemKind::Voice, 0)),
            (s("member:1:50"), Payload::Item(ItemKind::Member, 0)),
            (s("member:1:99"), Payload::Item(ItemKind::Member, 1)),
            (s("presence:1:60"), Payload::Item(ItemKind::Presence, 0)),
            (s("guild:1"), Payload::Item(ItemKind::Guild, 0)),
        ] },
        CacheOp::ExpireAll { items: vec![(s("member:1:50"), 600000), (s("member:1:99"), 600000)] },
    ]);
}

#[test]
fn member_events() {
    let c = config(true);
    assert_eq!(update_plan(&CacheEvent::MemberAdd { guild: 1, user: 2 }, &c, 9), vec![
        CacheOp::Store { key: s("member:1:2"), value: Payload::Event },
        CacheOp::Expire { key: s("member:1:2"), ttl: 600000 },
    ]);
    assert_eq!(update_plan(&CacheEvent::MemberRemove { guild: 1, user: 2 }, &c, 9), vec![
        CacheOp::ReadOld { key: s("member:1:2") },
        CacheOp::Delete { key: s("member:1:2") },
        CacheOp::Delete { key: s("presence:1:2") },
    ]);
    assert_eq!(update_plan(&CacheEvent::MemberUpdate { guild: 1, user: 9 }, &config(false), 9), vec![
        CacheOp::Merge { key: s("member:1:9"), keep_old: false, ttl: Some(600000) },
    ]);
    assert!(update_plan(&CacheEvent::MemberUpdate { guild: 1, user: 2 }, &config(false), 9).is_empty());
    assert_eq!(update_plan(&CacheEvent::MemberChunk { guild: 1, users: vec![3] }, &c, 9), vec![
        CacheOp::StoreAll { items: vec![(s("member:1:3"), Payload::Item(ItemKind::Member, 0))] },
        CacheOp::ExpireAll { items: vec![(s("member:1:3"), 600000)] },
    ]);
}

#[test]
fn message_events() {
    let c = config(true);
    assert_eq!(update_plan(&CacheEvent::MessageCreate { channel: 5, message: 6 }, &c, 0), vec![
        CacheOp::Store { key: s("message:5:6"), value: Payload::Event },
        CacheOp::Expire { key: s("message:5:6"), ttl: 3600000 },
    ]);
    assert_eq!(update_plan(&CacheEvent::MessageDeleteBulk { channel: 5, messages: vec![6, 7] }, &c, 0), vec![
        CacheOp::ReadAllOld { keys: vec![s("message:5:6"), s("message:5:7")], keep_old: true },
        CacheOp::DeleteAll { keys: vec![s("message:5:6"), s("message:5:7")] },
    ]);
    assert_eq!(update_plan(&CacheEvent::MessageUpdate { channel: 5, message: 6 }, &c, 0), vec![
        CacheOp::Merge { key: s("message:5:6"), keep_old: true, ttl: Some(3600000) },
    ]);
    assert!(update_plan(&CacheEvent::MessageDelete { channel: 5, message: 6 }, &config(false), 0).is_empty());
}

#[test]
fn ready_roles_voice_and_users() {
    let c = config(true);
    assert_eq!(update_plan(&CacheEvent::Ready { guilds: vec![1, 2] }, &c, 0), vec![
        CacheOp::Store { key: s("bot_user"), value: Payload::User },
        CacheOp::StoreAll { items: vec![
            (s("guild:1"), Payload::Item(ItemKind::Guild, 0)),
            (s("guild:2"), Payload::Item(ItemKind::Guild, 1)),
        ] },
    ]);
    assert_eq!(update_plan(&CacheEvent::RoleUpdate { guild: 1, role: 3 }, &config(false), 0), vec![
        CacheOp::Store { key: s("role:1:3"), value: Payload::Role },
    ]);
    assert_eq!(update_plan(&CacheEvent::VoiceStateUpdate { guild: Some(1), user: 4, in_channel: false }, &c, 0), vec![
        CacheOp::ReadOld { key: s("voice:1:4") },
        CacheOp::Delete { key: s("voice:1:4") },
    ]);
    assert!(update_plan(&CacheEvent::VoiceStateUpdate { guild: None, user: 4, in_channel: true }, &c, 0).is_empty());
    assert_eq!(update_plan(&CacheEvent::UserUpdate, &c, 0), vec![
        CacheOp::ReadOld { key: s("bot_user") },
        CacheOp::Store { key: s("bot_user"), value: Payload::Event },
    ]);
    assert_eq!(update_plan(&CacheEvent::UnavailableGuild { guild: 8 }, &c, 0), vec![
        CacheOp::ClearGuild { guild: 8 },
        CacheOp::Store { key: s("guild:8"), value: Payload::Event },
    ]);
    assert!(update_plan(&CacheEvent::Other, &c, 0).is_empty());
}

#[test]
fn emoji_replacement() {
    assert_eq!(update_plan(&CacheEvent::GuildEmojisUpdate { guild: 1, emojis: vec![7] }, &config(true), 0), vec![
        CacheOp::ReplaceEmojis { guild: 1, items: vec![(s("emoji:1:7"), Payload::Item(ItemKind::Emoji, 0))], keep_old: true },
    ]);
    let listed = vec![s("emoji:1:7"), s("role:1:2"), s("emoji:1:8"), s("emojis:1:9")];
    assert_eq!(filter_kind(&listed, "emoji"), vec![s("emoji:1:7"), s("emoji:1:8")]);
    assert_eq!(stale_ids(&vec![7, 8, 9], &vec![9, 7]), vec![8]);
    assert_eq!(guild_keys_key(1), "guild_keys:1");
}
