use twilight_dispatch::constants::{
    channel_key, emoji_key, guild_channel_key, guild_key, member_key, message_key, presence_key,
    private_channel_key, role_key, voice_key,
};
use twilight_dispatch::utils::{get_channel_key, get_keys};

#[test]
fn guild_key_is_kind_and_id() {
    assert_eq!(guild_key(41771983423143937), "guild:41771983423143937");
}

#[test]
fn member_key_has_guild_and_user() {
    assert_eq!(member_key(1, 2), "member:1:2");
}

#[test]
fn channel_keys_of_guild_and_private_channels() {
    assert_eq!(channel_key(Some(41771983423143937), 127121515262115840), "channel:41771983423143937:127121515262115840");
    assert_eq!(channel_key(None, 127121515262115840), "channel:127121515262115840");
    assert_eq!(guild_channel_key(3, 4), "channel:3:4");
    assert_eq!(private_channel_key(4), "channel:4");
    assert_eq!(get_channel_key(Some(3), 4), "channel:3:4");
    assert_eq!(get_channel_key(None, 4), "channel:4");
}

#[test]
fn keys_of_every_kind() {
    assert_eq!(message_key(10, 20), "message:10:20");
    assert_eq!(role_key(1, 0), "role:1:0");
    assert_eq!(emoji_key(7, 8), "emoji:7:8");
    assert_eq!(presence_key(7, 9), "presence:7:9");
    assert_eq!(voice_key(7, u64::MAX), "voice:7:18446744073709551615");
}

#[test]
fn get_keys_splits_on_colons() {
    assert_eq!(get_keys("member:1:2"), vec!["member", "1", "2"]);
    assert_eq!(get_keys("bot_user"), vec!["bot_user"]);
    assert_eq!(get_keys(""), vec![""]);
    assert_eq!(get_keys("a::b:"), vec!["a", "", "b", ""]);
}

#[test]
fn key_parts_read_back() {
    let key = presence_key(123, 456);
    assert_eq!(get_keys(&key), vec!["presence", "123", "456"]);
    let key = guild_key(0);
    assert_eq!(get_keys(&key), vec!["guild", "0"]);
}
