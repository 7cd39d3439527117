use twilight_dispatch::cache::{
    del_all_plan, expire_all_plan, expired_keys, expiry_in_range, index_key, set_all_plan, str_eq, MemberSet,
};
use twilight_dispatch::models::FormattedDateTime;

fn s(text: &str) -> String {
    text.to_string()
}

fn set(key: &str, members: &[&str]) -> MemberSet {
    MemberSet { key: s(key), members: members.iter().map(|m| s(m)).collect() }
}

#[test]
fn guild_channel_is_stored_as_channel() {
    let (stored, entries) = index_key("channel:1:2");
    assert_eq!(stored, "channel:2");
    assert_eq!(entries, vec![(s("channel_keys"), s("channel:2")), (s("guild_keys:1"), s("channel:2"))]);
}

#[test]
fn message_is_listed_under_its_channel() {
    let (stored, entries) = index_key("message:5:6");
    assert_eq!(stored, "message:5:6");
    assert_eq!(entries, vec![(s("message_keys"), s("message:5:6")), (s("channel_keys:5"), s("message:5:6"))]);
}

#[test]
fn guild_object_is_listed_under_its_guild() {
    let (stored, entries) = index_key("member:1:2");
    assert_eq!(stored, "member:1:2");
    assert_eq!(entries, vec![(s("member_keys"), s("member:1:2")), (s("guild_keys:1"), s("member:1:2"))]);
}

#[test]
fn top_level_keys() {
    assert_eq!(index_key("guild:9"), (s("guild:9"), vec![(s("guild_keys"), s("guild:9"))]));
    assert_eq!(index_key("channel:9"), (s("channel:9"), vec![(s("channel_keys"), s("channel:9"))]));
    assert_eq!(index_key("bot_user"), (s("bot_user"), vec![]));
}

#[test]
fn set_all_groups_helper_sets() {
    let plan = set_all_plan(vec![
        (s("member:1:2"), s("a")),
        (s("member:1:3"), s("b")),
        (s("role:1:4"), s("c")),
        (s("channel:1:5"), s("d")),
    ]);
    assert_eq!(plan.values, vec![
        (s("member:1:2"), s("a")),
        (s("member:1:3"), s("b")),
        (s("role:1:4"), s("c")),
        (s("channel:5"), s("d")),
    ]);
    assert_eq!(plan.members, vec![
        set("member_keys", &["member:1:2", "member:1:3"]),
        set("guild_keys:1", &["member:1:2", "member:1:3", "role:1:4", "channel:5"]),
        set("role_keys", &["role:1:4"]),
        set("channel_keys", &["channel:5"]),
    ]);
}

#[test]
fn delete_removes_what_set_added() {
    let keys = vec![s("message:3:4"), s("guild:3"), s("emoji:3:7")];
    let written = set_all_plan(keys.iter().map(|k| (k.clone(), s("{}"))).collect());
    let deleted = del_all_plan(keys.clone());
    assert_eq!(deleted.keys, keys);
    assert_eq!(written.members, deleted.members);
}

#[test]
fn empty_batches_plan_nothing() {
    let plan = set_all_plan(vec![]);
    assert!(plan.values.is_empty() && plan.members.is_empty());
    let plan = del_all_plan(vec![]);
    assert!(plan.keys.is_empty() && plan.members.is_empty());
}

#[test]
fn text_equality() {
    assert!(str_eq("emoji", "emoji"));
    assert!(!str_eq("emoji", "emojis"));
    assert!(!str_eq("", "a"));
}

#[test]
fn expiry_is_ttl_after_now() {
    let now = FormattedDateTime { nanos: 1_000_000_000 };
    let plan = expire_all_plan(&now, &vec![(s("member:1:2"), 1500), (s("message:1:2"), 0)]);
    assert_eq!(plan, vec![
        (s("member:1:2"), FormattedDateTime { nanos: 2_500_000_000 }),
        (s("message:1:2"), FormattedDateTime { nanos: 1_000_000_000 }),
    ]);
}

#[test]
fn huge_ttl_wraps_to_the_past() {
    let now = FormattedDateTime { nanos: 0 };
    let plan = expire_all_plan(&now, &vec![(s("k"), u64::MAX)]);
    assert_eq!(plan[0].1.nanos, -1_000_000);
}

#[test]
fn only_past_expiries_are_cleaned() {
    let now = FormattedDateTime { nanos: 100 };
    let entries = vec![
        (s("a"), Some(FormattedDateTime { nanos: 99 })),
        (s("b"), Some(FormattedDateTime { nanos: 100 })),
        (s("c"), None),
        (s("d"), Some(FormattedDateTime { nanos: -5 })),
        (s("e"), Some(FormattedDateTime { nanos: 101 })),
    ];
    assert_eq!(expired_keys(&entries, &now), vec![s("a"), s("d")]);
}

#[test]
fn expiry_range_check() {
    let now = FormattedDateTime { nanos: 1_000_000_000 };
    assert!(expiry_in_range(&now, 60_000));
    assert!(expiry_in_range(&now, u64::MAX));
    let last = FormattedDateTime { nanos: 253_402_300_799_999_999_999 };
    assert!(!expiry_in_range(&last, 1));
    assert!(expiry_in_range(&last, 0));
    let edge = FormattedDateTime { nanos: i128::MAX };
    assert!(!expiry_in_range(&edge, 1));
}
