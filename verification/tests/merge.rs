use twilight_dispatch::merge::{
    merge_member, merge_message, merge_pins, merge_steps, split_guild, GuildChannel, GuildLists, MemberFields, MergeStep,
    MessageFields, MessagePatch,
};
use twilight_dispatch::update::{guild_clear_keys, stale_emoji_keys};

fn message() -> MessageFields<u8, u16, u32, u64, i64> {
    MessageFields {
        attachments: vec![1],
        content: "hello".to_string(),
        edited_timestamp: None,
        embeds: vec![2],
        mention_everyone: false,
        mention_roles: vec![4],
        mentions: vec![3],
        pinned: false,
        timestamp: 100,
        tts: false,
    }
}

fn empty_patch() -> MessagePatch<u8, u16, u32, u64, i64> {
    MessagePatch {
        attachments: None,
        content: None,
        edited_timestamp: None,
        embeds: None,
        mention_everyone: None,
        mention_roles: None,
        mentions: None,
        pinned: None,
        timestamp: None,
        tts: None,
    }
}

#[test]
fn message_update_overwrites_only_what_it_carries() {
    let mut patch = empty_patch();
    patch.content = Some("edited".to_string());
    patch.edited_timestamp = Some(200);
    patch.pinned = Some(true);
    let merged = merge_message(message(), patch);
    let mut expected = message();
    expected.content = "edited".to_string();
    expected.edited_timestamp = Some(200);
    expected.pinned = true;
    assert_eq!(merged, expected);
}

#[test]
fn empty_message_update_keeps_the_message() {
    let mut current = message();
    current.edited_timestamp = Some(150);
    assert_eq!(merge_message(current.clone(), empty_patch()), current);
}

#[test]
fn every_field_of_a_message_update_is_taken() {
    let patch = MessagePatch {
        attachments: Some(vec![9]),
        content: Some(String::new()),
        edited_timestamp: Some(5),
        embeds: Some(vec![]),
        mention_everyone: Some(true),
        mention_roles: Some(vec![7, 8]),
        mentions: Some(vec![]),
        pinned: Some(true),
        timestamp: Some(6),
        tts: Some(true),
    };
    let merged = merge_message(message(), patch);
    assert_eq!(merged, MessageFields {
        attachments: vec![9],
        content: String::new(),
        edited_timestamp: Some(5),
        embeds: vec![],
        mention_everyone: true,
        mention_roles: vec![7, 8],
        mentions: vec![],
        pinned: true,
        timestamp: 6,
        tts: true,
    });
}

#[test]
fn guild_lists_are_taken_and_channels_get_the_guild() {
    let mut lists = GuildLists {
        channels: vec![
            GuildChannel { guild_id: None, channel: "general" },
            GuildChannel { guild_id: Some(9), channel: "voice" },
        ],
        roles: vec![1u64, 2],
        emojis: vec![3u64],
        voice_states: vec![4u64],
        members: vec![5u64, 6],
        presences: vec![7u64],
    };
    let items = split_guild(42, &mut lists);
    assert_eq!(items.channels, vec![
        GuildChannel { guild_id: Some(42), channel: "general" },
        GuildChannel { guild_id: Some(42), channel: "voice" },
    ]);
    assert_eq!(items.roles, vec![1, 2]);
    assert_eq!(items.emojis, vec![3]);
    assert_eq!(items.voice_states, vec![4]);
    assert_eq!(items.members, vec![5, 6]);
    assert_eq!(items.presences, vec![7]);
    assert!(lists.channels.is_empty() && lists.roles.is_empty() && lists.emojis.is_empty());
    assert!(lists.voice_states.is_empty() && lists.members.is_empty() && lists.presences.is_empty());
}

#[test]
fn clearing_a_guild_deletes_its_keys_then_itself() {
    let listed = vec!["role:1:2".to_string(), "channel:3".to_string()];
    assert_eq!(guild_clear_keys(1, &listed), vec!["role:1:2", "channel:3", "guild:1"]);
    assert_eq!(guild_clear_keys(7, &vec![]), vec!["guild:7"]);
}

#[test]
fn nothing_cached_means_nothing_merged() {
    assert!(merge_steps(false, true, Some(1000)).is_empty());
    assert!(merge_steps(false, false, None).is_empty());
}

#[test]
fn a_cached_object_is_kept_stored_and_expired() {
    assert_eq!(merge_steps(true, true, Some(1000)), vec![
        MergeStep::KeepOld,
        MergeStep::Store,
        MergeStep::Expire { ttl: 1000 },
    ]);
    assert_eq!(merge_steps(true, false, None), vec![MergeStep::Store]);
}

#[test]
fn pins_update_sets_the_last_pin_time() {
    assert_eq!(merge_pins(Some(5), Some(9)), Some(9));
    assert_eq!(merge_pins(Some(5), None), None);
    assert_eq!(merge_pins(None, Some(3)), Some(3));
}

#[test]
fn member_update_sets_its_fields() {
    let current = MemberFields { joined_at: 1, nick: Some("old".to_string()), premium_since: Some(2), roles: vec![3], user: "a" };
    let update = MemberFields { joined_at: 1, nick: None, premium_since: None, roles: vec![4, 5], user: "a" };
    assert_eq!(merge_member(current, update.clone()), update);
}

#[test]
fn emojis_no_longer_listed_are_deleted() {
    assert_eq!(stale_emoji_keys(1, &vec![10, 11, 12], &vec![11]), vec!["emoji:1:10", "emoji:1:12"]);
    assert!(stale_emoji_keys(1, &vec![10], &vec![10, 13]).is_empty());
}
