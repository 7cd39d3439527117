//! What an event changes in the objects it stores or updates: the steps of
//! a merge into a cached object, the fields that a pins, member or message
//! update overwrites, and how a guild that arrives is split into its lists
//! and the bare guild.
use vstd::prelude::*;

verus! {

/// A step of a merge into a cached object, once its key has been read.
#[derive(Clone, Copy, Debug, PartialEq, Eq)]
pub enum MergeStep {
    /// The object as it was cached becomes the previous state.
    KeepOld,
    /// The object, changed as the event says, is stored again.
    Store,
    /// The key expires after the given milliseconds.
    Expire { ttl: u64 },
}

/// The steps of a merge: nothing at all when nothing is cached under the
/// key; else the cached object becomes the previous state when `keep_old`,
/// the changed object is stored, and it expires after `ttl` when it has
/// one.
pub open spec fn merge_steps_spec(found: bool, keep_old: bool, ttl: Option<u64>) -> Seq<MergeStep> {
    if found {
        (if keep_old { seq![MergeStep::KeepOld] } else { Seq::empty() }) + seq![MergeStep::Store] + match ttl {
            Some(t) => seq![MergeStep::Expire { ttl: t }],
            None => Seq::empty(),
        }
    } else {
        Seq::empty()
    }
}

pub fn merge_steps(found: bool, keep_old: bool, ttl: Option<u64>) -> (steps: Vec<MergeStep>)
    ensures
        steps@ == merge_steps_spec(found, keep_old, ttl),
{
    let mut steps: Vec<MergeStep> = Vec::new();
    if found {
        if keep_old {
            steps.push(MergeStep::KeepOld);
        }
        steps.push(MergeStep::Store);
        match ttl {
            Some(t) => steps.push(MergeStep::Expire { ttl: t }),
            None => {},
        }
    }
    assert(steps@ =~= merge_steps_spec(found, keep_old, ttl));
    steps
}

/// A merge into a cached object always stores the changed object, once,
/// whatever the old-state option and the time to live: keeping the old
/// state only adds a first step, a time to live only a last one. With
/// nothing cached, nothing at all is done.
pub proof fn law_merge_stores_once(found: bool, keep_old: bool, ttl: Option<u64>)
    ensures
        !found ==> merge_steps_spec(found, keep_old, ttl).len() == 0,
        found ==> exists|i: int| #![trigger merge_steps_spec(found, keep_old, ttl)[i]]
            0 <= i < merge_steps_spec(found, keep_old, ttl).len()
            && merge_steps_spec(found, keep_old, ttl)[i] == MergeStep::Store
            && forall|j: int| 0 <= j < merge_steps_spec(found, keep_old, ttl).len() && j != i
                ==> merge_steps_spec(found, keep_old, ttl)[j] != MergeStep::Store,
        found ==> merge_steps_spec(found, keep_old, ttl).len() == 1 + (if keep_old { 1int } else { 0int })
            + (if ttl is Some { 1int } else { 0int }),
        found && keep_old ==> merge_steps_spec(found, keep_old, ttl)[0] == MergeStep::KeepOld,
        found && !keep_old ==> merge_steps_spec(found, keep_old, ttl)[0] == MergeStep::Store,
        found ==> (ttl matches Some(t) ==> merge_steps_spec(found, keep_old, ttl).last() == MergeStep::Expire { ttl: t }),
        found ==> (ttl is None ==> merge_steps_spec(found, keep_old, ttl).last() == MergeStep::Store),
{
    let steps = merge_steps_spec(found, keep_old, ttl);
    if found {
        let i: int = if keep_old { 1 } else { 0 };
        assert(steps[i] == MergeStep::Store);
    }
}

/// The last pin time of a cached channel after a pins update: the
/// update's, also when it has none (no message is pinned any more).
pub fn merge_pins<Time>(_current: Option<Time>, update: Option<Time>) -> (merged: Option<Time>)
    ensures
        merged == update,
{
    update
}

/// The fields of a cached member that a member update sets; the other
/// fields of the member stay as they are.
#[derive(Clone, Debug, PartialEq, Eq)]
pub struct MemberFields<Time, Role, User> {
    pub joined_at: Time,
    pub nick: Option<String>,
    pub premium_since: Option<Time>,
    pub roles: Vec<Role>,
    pub user: User,
}

/// A cached member after a member update: its join time, nick, boost time,
/// roles and user are the update's, each of them, also an absent nick or
/// boost time.
pub fn merge_member<T, R, U>(_current: MemberFields<T, R, U>, update: MemberFields<T, R, U>) -> (merged: MemberFields<T, R, U>)
    ensures
        merged == update,
{
    update
}

/// The fields of a cached message that a message update can change; the
/// other fields of the message stay as they are.
#[derive(Clone, Debug, PartialEq, Eq)]
pub struct MessageFields<Attachment, Embed, Mention, Role, Time> {
    pub attachments: Vec<Attachment>,
    pub content: String,
    pub edited_timestamp: Option<Time>,
    pub embeds: Vec<Embed>,
    pub mention_everyone: bool,
    pub mention_roles: Vec<Role>,
    pub mentions: Vec<Mention>,
    pub pinned: bool,
    pub timestamp: Time,
    pub tts: bool,
}

/// A message update: each field it carries, `None` where it has none.
#[derive(Clone, Debug, PartialEq, Eq)]
pub struct MessagePatch<Attachment, Embed, Mention, Role, Time> {
    pub attachments: Option<Vec<Attachment>>,
    pub content: Option<String>,
    pub edited_timestamp: Option<Time>,
    pub embeds: Option<Vec<Embed>>,
    pub mention_everyone: Option<bool>,
    pub mention_roles: Option<Vec<Role>>,
    pub mentions: Option<Vec<Mention>>,
    pub pinned: Option<bool>,
    pub timestamp: Option<Time>,
    pub tts: Option<bool>,
}

/// The value of a field after an update: the update's where it carries
/// one, else the current one.
pub open spec fn patched<T>(current: T, update: Option<T>) -> T {
    match update {
        Some(value) => value,
        None => current,
    }
}

/// A field that an update carries takes the update's value, and a field
/// that it does not carry keeps the current one.
pub proof fn law_patched_fields<T>(current: T, value: T)
    ensures
        patched(current, Some(value)) == value,
        patched(current, None::<T>) == current,
{
}

fn pick<T>(current: T, update: Option<T>) -> (value: T)
    ensures
        value == patched(current, update),
{
    match update {
        Some(value) => value,
        None => current,
    }
}

/// A cached message after a message update: every field that the update
/// carries is overwritten, and every other field is kept; an edit time
/// that the update carries becomes the message's edit time.
pub fn merge_message<A, E, M, R, T>(
    current: MessageFields<A, E, M, R, T>,
    update: MessagePatch<A, E, M, R, T>,
) -> (merged: MessageFields<A, E, M, R, T>)
    ensures
        merged.attachments == patched(current.attachments, update.attachments),
        merged.content == patched(current.content, update.content),
        merged.edited_timestamp == match update.edited_timestamp {
            Some(t) => Some(t),
            None => current.edited_timestamp,
        },
        merged.embeds == patched(current.embeds, update.embeds),
        merged.mention_everyone == patched(current.mention_everyone, update.mention_everyone),
        merged.mention_roles == patched(current.mention_roles, update.mention_roles),
        merged.mentions == patched(current.mentions, update.mentions),
        merged.pinned == patched(current.pinned, update.pinned),
        merged.timestamp == patched(current.timestamp, update.timestamp),
        merged.tts == patched(current.tts, update.tts),
{
    let edited_timestamp = match update.edited_timestamp {
        Some(t) => Some(t),
        None => current.edited_timestamp,
    };
    MessageFields {
        attachments: pick(current.attachments, update.attachments),
        content: pick(current.content, update.content),
        edited_timestamp,
        embeds: pick(current.embeds, update.embeds),
        mention_everyone: pick(current.mention_everyone, update.mention_everyone),
        mention_roles: pick(current.mention_roles, update.mention_roles),
        mentions: pick(current.mentions, update.mentions),
        pinned: pick(current.pinned, update.pinned),
        timestamp: pick(current.timestamp, update.timestamp),
        tts: pick(current.tts, update.tts),
    }
}

/// A channel with the guild id it carries.
#[derive(Clone, Debug, PartialEq, Eq)]
pub struct GuildChannel<Channel> {
    pub guild_id: Option<u64>,
    pub channel: Channel,
}

/// The lists that a guild arrives with.
#[derive(Clone, Debug, PartialEq, Eq)]
pub struct GuildLists<Channel, Role, Emoji, Voice, Member, Presence> {
    pub channels: Vec<GuildChannel<Channel>>,
    pub roles: Vec<Role>,
    pub emojis: Vec<Emoji>,
    pub voice_states: Vec<Voice>,
    pub members: Vec<Member>,
    pub presences: Vec<Presence>,
}

/// Every channel of `before`, in order, now carrying the guild id `guild`.
pub open spec fn channels_of_guild<C>(before: Seq<GuildChannel<C>>, after: Seq<GuildChannel<C>>, guild: u64) -> bool {
    &&& after.len() == before.len()
    &&& forall|i: int| 0 <= i < before.len() ==> (#[trigger] after[i]) == (GuildChannel {
        guild_id: Some(guild),
        channel: before[i].channel,
    })
}

/// Takes the lists out of the guild `guild` as it arrives, each channel
/// given the guild's id: the lists are stored one by one, and the guild is
/// stored with every list empty.
pub fn split_guild<C, R, E, V, M, P>(guild: u64, lists: &mut GuildLists<C, R, E, V, M, P>) -> (items: GuildLists<C, R, E, V, M, P>)
    ensures
        channels_of_guild(old(lists).channels@, items.channels@, guild),
        items.roles@ == old(lists).roles@,
        items.emojis@ == old(lists).emojis@,
        items.voice_states@ == old(lists).voice_states@,
        items.members@ == old(lists).members@,
        items.presences@ == old(lists).presences@,
        final(lists).channels@.len() == 0,
        final(lists).roles@.len() == 0,
        final(lists).emojis@.len() == 0,
        final(lists).voice_states@.len() == 0,
        final(lists).members@.len() == 0,
        final(lists).presences@.len() == 0,
{
    let mut channels: Vec<GuildChannel<C>> = Vec::new();
    std::mem::swap(&mut channels, &mut lists.channels);
    let mut roles: Vec<R> = Vec::new();
    std::mem::swap(&mut roles, &mut lists.roles);
    let mut emojis: Vec<E> = Vec::new();
    std::mem::swap(&mut emojis, &mut lists.emojis);
    let mut voice_states: Vec<V> = Vec::new();
    std::mem::swap(&mut voice_states, &mut lists.voice_states);
    let mut members: Vec<M> = Vec::new();
    std::mem::swap(&mut members, &mut lists.members);
    let mut presences: Vec<P> = Vec::new();
    std::mem::swap(&mut presences, &mut lists.presences);

    let ghost before = channels@;
    let mut owned: Vec<GuildChannel<C>> = Vec::new();
    let mut rest = channels;
    while rest.len() > 0
        invariant
            owned@.len() + rest@.len() == before.len(),
            rest@ == before.subrange(owned@.len() as int, before.len() as int),
            forall|i: int| 0 <= i < owned@.len() ==> (#[trigger] owned@[i]) == (GuildChannel {
                guild_id: Some(guild),
                channel: before[i].channel,
            }),
        decreases rest@.len(),
    {
        let first = rest.remove(0);
        owned.push(GuildChannel { guild_id: Some(guild), channel: first.channel });
    }
    GuildLists { channels: owned, roles, emojis, voice_states, members, presences }
}

} // verus!
