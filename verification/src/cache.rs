//! The bookkeeping of the state cache: under which key an object is
//! stored, and in which helper sets (`member_keys`, `guild_keys:guild_id`,
//! `channel_keys:channel_id`, ...) its key is listed, so that a batch of
//! writes or deletes can be sent to the store together with the matching
//! set updates.
use vstd::prelude::*;
use crate::constants::{
    colon, join, key1, key2, CHANNEL_KEY, EMOJI_KEY, GUILD_KEY, KEYS_SUFFIX, MEMBER_KEY, MESSAGE_KEY, PRESENCE_KEY,
    ROLE_KEY, VOICE_KEY, lemma_key_names,
};
use crate::decimal::decimal;
use crate::utils::{split_colon, get_keys, lemma_split_key1, lemma_split_key2};
use crate::models::{FormattedDateTime, in_range, MAX_UNIX_NANOS, MIN_UNIX_NANOS, NANOS_PER_MILLI};

verus! {

/// A helper set of the cache and the keys to add to it or remove from it.
#[derive(Clone, Debug, PartialEq, Eq)]
pub struct MemberSet {
    pub key: String,
    pub members: Vec<String>,
}

impl View for MemberSet {
    type V = (Seq<char>, Seq<Seq<char>>);

    open spec fn view(&self) -> (Seq<char>, Seq<Seq<char>>) {
        (self.key@, self.members.deep_view())
    }
}

/// The values to write, under their stored keys, and the helper sets to
/// list those keys in.
#[derive(Clone, Debug, PartialEq, Eq)]
pub struct SetPlan {
    pub values: Vec<(String, String)>,
    pub members: Vec<MemberSet>,
}

/// The stored keys to delete and the helper sets to remove them from.
#[derive(Clone, Debug, PartialEq, Eq)]
pub struct DelPlan {
    pub keys: Vec<String>,
    pub members: Vec<MemberSet>,
}

pub open spec fn sets_view(sets: Seq<MemberSet>) -> Seq<(Seq<char>, Seq<Seq<char>>)> {
    sets.map_values(|m: MemberSet| m@)
}

pub open spec fn pairs_view(pairs: Seq<(String, String)>) -> Seq<(Seq<char>, Seq<char>)> {
    pairs.map_values(|p: (String, String)| (p.0@, p.1@))
}

/// The key under which an object given under `key` is stored: a guild
/// channel `channel:guild_id:channel_id` is stored as `channel:channel_id`,
/// like a private one; every other key is stored as it is.
pub open spec fn stored_key(key: Seq<char>) -> Seq<char> {
    let parts = split_colon(key);
    if parts.len() > 2 && parts[0] == CHANNEL_KEY@ {
        join(parts[0], parts[2])
    } else {
        key
    }
}

/// The helper sets that list an object given under `key`, each with the
/// stored key it lists: `kind_keys` for a key with an id, and for a key with
/// two ids also `guild_keys:first_id`, or `channel_keys:first_id` for a
/// message.
pub open spec fn index_entries(key: Seq<char>) -> Seq<(Seq<char>, Seq<char>)> {
    let parts = split_colon(key);
    let stored = stored_key(key);
    let by_kind = if parts.len() > 1 {
        seq![(parts[0] + KEYS_SUFFIX@, stored)]
    } else {
        Seq::empty()
    };
    let by_owner = if parts.len() > 2 {
        if parts[0] != MESSAGE_KEY@ {
            seq![(join(GUILD_KEY@ + KEYS_SUFFIX@, parts[1]), stored)]
        } else {
            seq![(join(CHANNEL_KEY@ + KEYS_SUFFIX@, parts[1]), stored)]
        }
    } else {
        Seq::empty()
    };
    by_kind + by_owner
}

/// The helper-set entries of a batch of keys, in the order of the keys.
pub open spec fn batch_entries(keys: Seq<Seq<char>>) -> Seq<(Seq<char>, Seq<char>)>
    decreases keys.len(),
{
    if keys.len() == 0 {
        Seq::empty()
    } else {
        batch_entries(keys.drop_last()) + index_entries(keys.last())
    }
}

/// The members that `entries` gives the helper set `set`, in order.
pub open spec fn members_of(entries: Seq<(Seq<char>, Seq<char>)>, set: Seq<char>) -> Seq<Seq<char>>
    decreases entries.len(),
{
    if entries.len() == 0 {
        Seq::empty()
    } else {
        let rest = members_of(entries.drop_last(), set);
        if entries.last().0 == set {
            rest.push(entries.last().1)
        } else {
            rest
        }
    }
}

/// `groups` is `entries` grouped by helper set: each set once, each with
/// all of its members in the order of `entries`, and no set without an
/// entry.
pub open spec fn grouped(
    groups: Seq<(Seq<char>, Seq<Seq<char>>)>,
    entries: Seq<(Seq<char>, Seq<char>)>,
) -> bool {
    &&& forall|i: int, j: int|
        0 <= i < groups.len() && 0 <= j < groups.len() && i != j ==> groups[i].0 != groups[j].0
    &&& forall|i: int| 0 <= i < groups.len() ==> #[trigger] groups[i].1 == members_of(entries, groups[i].0)
    &&& forall|i: int| 0 <= i < groups.len() ==> #[trigger] groups[i].1.len() > 0
    &&& forall|k: int| 0 <= k < entries.len() ==> exists|i: int|
        0 <= i < groups.len() && groups[i].0 == (#[trigger] entries[k]).0
}

/// The sets that a batch of keys touches, with their members.
pub open spec fn batch_members(keys: Seq<Seq<char>>, groups: Seq<(Seq<char>, Seq<Seq<char>>)>) -> bool {
    grouped(groups, batch_entries(keys))
}

/// Whether the texts `a` and `b` are equal, character by character.
pub fn str_eq(a: &str, b: &str) -> (eq: bool)
    ensures
        eq == (a@ == b@),
{
    let n = a.unicode_len();
    if n != b.unicode_len() {
        return false;
    }
    let mut i: usize = 0;
    while i < n
        invariant
            i <= n,
            n == a@.len(),
            n == b@.len(),
            forall|j: int| 0 <= j < i ==> a@[j] == b@[j],
        decreases n - i,
    {
        if a.get_char(i) != b.get_char(i) {
            return false;
        }
        i = i + 1;
    }
    assert(a@ =~= b@);
    true
}

/// The stored key of `key` and the helper-set entries that list it.
pub fn index_key(key: &str) -> (res: (String, Vec<(String, String)>))
    ensures
        res.0@ == stored_key(key@),
        pairs_view(res.1@) == index_entries(key@),
{
    proof {
        lemma_key_names();
    }
    let parts = get_keys(key);
    let ghost pv = parts.deep_view();
    assert(pv.len() == parts.len());
    let n = parts.len();
    let stored = if n > 2 && str_eq(parts[0].as_str(), CHANNEL_KEY) {
        assert(pv[0] == parts[0]@ && pv[2] == parts[2]@);
        String::from_str(parts[0].as_str()).concat(":").concat(parts[2].as_str())
    } else {
        String::from_str(key)
    };
    let mut entries: Vec<(String, String)> = Vec::new();
    if n > 1 {
        assert(pv[0] == parts[0]@);
        let set = String::from_str(parts[0].as_str()).concat(KEYS_SUFFIX);
        entries.push((set, stored.clone()));
    }
    let ghost by_kind = pairs_view(entries@);
    if n > 2 {
        assert(pv[0] == parts[0]@ && pv[1] == parts[1]@);
        let set = if !str_eq(parts[0].as_str(), MESSAGE_KEY) {
            String::from_str(GUILD_KEY).concat(KEYS_SUFFIX).concat(":").concat(parts[1].as_str())
        } else {
            String::from_str(CHANNEL_KEY).concat(KEYS_SUFFIX).concat(":").concat(parts[1].as_str())
        };
        entries.push((set, stored.clone()));
        assert(pairs_view(entries@) =~= by_kind + seq![(set@, stored@)]);
    } else {
        assert(pairs_view(entries@) =~= by_kind + Seq::empty());
    }
    proof {
        if n > 1 {
            assert(by_kind =~= seq![(pv[0] + KEYS_SUFFIX@, stored@)]);
        } else {
            assert(by_kind =~= Seq::empty());
        }
    }
    (stored, entries)
}

proof fn lemma_deep_view_push(v: Seq<String>, s: String)
    ensures
        v.push(s).map_values(|x: String| x@) == v.map_values(|x: String| x@).push(s@),
{
    assert(v.push(s).map_values(|x: String| x@) =~= v.map_values(|x: String| x@).push(s@));
}

proof fn lemma_members_of_push(entries: Seq<(Seq<char>, Seq<char>)>, e: (Seq<char>, Seq<char>), set: Seq<char>)
    ensures
        members_of(entries.push(e), set) == if e.0 == set {
            members_of(entries, set).push(e.1)
        } else {
            members_of(entries, set)
        },
{
    assert(entries.push(e).drop_last() =~= entries);
}

proof fn lemma_members_of_absent(entries: Seq<(Seq<char>, Seq<char>)>, set: Seq<char>)
    requires
        forall|k: int| 0 <= k < entries.len() ==> (#[trigger] entries[k]).0 != set,
    ensures
        members_of(entries, set) == Seq::<Seq<char>>::empty(),
    decreases entries.len(),
{
    if entries.len() > 0 {
        let rest = entries.drop_last();
        assert forall|k: int| 0 <= k < rest.len() implies (#[trigger] rest[k]).0 != set by {
            assert(rest[k] == entries[k]);
        }
        lemma_members_of_absent(rest, set);
        assert(entries.last() == entries[entries.len() - 1]);
    }
}

/// Adds the entry `(set, member)` to the grouping of `entries`.
#[verifier::spinoff_prover]
fn add_member(groups: &mut Vec<MemberSet>, set: String, member: String, Ghost(entries): Ghost<Seq<(Seq<char>, Seq<char>)>>)
    requires
        grouped(sets_view(old(groups)@), entries),
    ensures
        grouped(sets_view(final(groups)@), entries.push((set@, member@))),
{
    let ghost e = (set@, member@);
    let ghost old_view = sets_view(groups@);
    let ghost new_entries = entries.push(e);
    let n = groups.len();
    let mut i: usize = 0;
    while i < n
        invariant
            i <= n,
            n == groups.len(),
            sets_view(groups@) == old_view,
            e == (set@, member@),
            new_entries == entries.push(e),
            grouped(old_view, entries),
            forall|j: int| 0 <= j < i ==> old_view[j].0 != set@,
        decreases n - i,
    {
        if str_eq(groups[i].key.as_str(), set.as_str()) {
            assert(old_view[i as int] == groups@[i as int]@);
            let ghost g0 = groups@;
            let ghost before = groups@[i as int];
            groups[i].members.push(member);
            proof {
                let nv = sets_view(groups@);
                assert(groups@ == g0.update(i as int, groups@[i as int]));
                assert(groups@[i as int].key == before.key);
                assert(groups@[i as int].members@ == before.members@.push(member));
                lemma_deep_view_push(before.members@, member);
                assert(before.members.deep_view() =~= before.members@.map_values(|x: String| x@));
                assert(groups@[i as int].members.deep_view() =~= groups@[i as int].members@.map_values(|x: String| x@));
                let gm = groups@[i as int].members@;
                assert(gm == before.members@.push(member));
                assert(gm.map_values(|x: String| x@) == before.members@.push(member).map_values(|x: String| x@));
                assert(e.1 == member@);
                assert(groups@[i as int].members.deep_view() == before.members.deep_view().push(e.1));
                assert(nv[i as int] == (before.key@, before.members.deep_view().push(e.1)));
                assert forall|j: int| 0 <= j < nv.len() implies #[trigger] nv[j].1 == members_of(new_entries, nv[j].0) by {
                    lemma_members_of_push(entries, e, nv[j].0);
                    if j != i {
                        assert(groups@[j] == g0[j]);
                        assert(nv[j] == old_view[j]);
                    } else {
                        assert(old_view[j].1 == members_of(entries, old_view[j].0));
                        assert(old_view[j] == before@);
                        assert(nv[j].0 == set@);
                    }
                }
                assert forall|j: int| 0 <= j < nv.len() implies #[trigger] nv[j].1.len() > 0 by {
                    if j != i {
                        assert(nv[j] == old_view[j]);
                    }
                }
                assert forall|j: int, k: int| 0 <= j < nv.len() && 0 <= k < nv.len() && j != k implies nv[j].0 != nv[k].0 by {
                    assert(nv[j].0 == old_view[j].0);
                    assert(nv[k].0 == old_view[k].0);
                }
                assert forall|k: int| 0 <= k < new_entries.len() implies exists|j: int|
                    0 <= j < nv.len() && nv[j].0 == (#[trigger] new_entries[k]).0 by {
                    if k < entries.len() {
                        assert(new_entries[k] == entries[k]);
                        let j = choose|j: int| 0 <= j < old_view.len() && old_view[j].0 == entries[k].0;
                        assert(nv[j].0 == old_view[j].0);
                    } else {
                        assert(nv[i as int].0 == set@);
                    }
                }
            }
            return;
        }
        i = i + 1;
    }
    let mut members: Vec<String> = Vec::new();
    members.push(member);
    assert(members.deep_view() =~= seq![e.1]);
    let ghost g0 = groups@;
    let ms = MemberSet { key: set, members };
    assert(ms@ == (e.0, seq![e.1]));
    groups.push(ms);
    proof {
        let nv = sets_view(groups@);
        assert(groups@ == g0.push(ms));
        assert(nv =~= old_view.push((e.0, seq![e.1])));
        assert forall|k: int| 0 <= k < entries.len() implies (#[trigger] entries[k]).0 != e.0 by {
            let j = choose|j: int| 0 <= j < old_view.len() && old_view[j].0 == entries[k].0;
        }
        lemma_members_of_absent(entries, e.0);
        assert forall|j: int| 0 <= j < nv.len() implies #[trigger] nv[j].1 == members_of(new_entries, nv[j].0) by {
            lemma_members_of_push(entries, e, nv[j].0);
            if j < n {
                assert(nv[j] == old_view[j]);
            } else {
                assert(seq![e.1] =~= Seq::<Seq<char>>::empty().push(e.1));
            }
        }
        assert forall|j: int| 0 <= j < nv.len() implies #[trigger] nv[j].1.len() > 0 by {
            if j < n {
                assert(nv[j] == old_view[j]);
            }
        }
        assert forall|k: int| 0 <= k < new_entries.len() implies exists|j: int|
            0 <= j < nv.len() && nv[j].0 == (#[trigger] new_entries[k]).0 by {
            if k < entries.len() {
                assert(new_entries[k] == entries[k]);
                let j = choose|j: int| 0 <= j < old_view.len() && old_view[j].0 == entries[k].0;
                assert(nv[j].0 == old_view[j].0);
            } else {
                assert(nv[n as int].0 == set@);
            }
        }
    }
}

/// Adds the helper-set entries of one key to a grouping.
fn add_entries(groups: &mut Vec<MemberSet>, entries: Vec<(String, String)>, Ghost(before): Ghost<Seq<(Seq<char>, Seq<char>)>>)
    requires
        grouped(sets_view(old(groups)@), before),
    ensures
        grouped(sets_view(final(groups)@), before + pairs_view(entries@)),
{
    let ghost ev = pairs_view(entries@);
    let mut rest = entries;
    let mut k: usize = 0;
    let n = rest.len();
    assert(before + ev.take(0) =~= before);
    // Entries are taken from the front to keep their order.
    let mut reversed: Vec<(String, String)> = Vec::new();
    while rest.len() > 0
        invariant
            rest.len() + reversed.len() == n,
            n == ev.len(),
            forall|j: int| 0 <= j < rest.len() ==> (rest@[j].0@, rest@[j].1@) == #[trigger] ev[j],
            forall|j: int| 0 <= j < reversed.len() ==> (reversed@[j].0@, reversed@[j].1@) == #[trigger] ev[n - 1 - j],
        decreases rest.len(),
    {
        let p = rest.pop().unwrap();
        reversed.push(p);
    }
    while reversed.len() > 0
        invariant
            k + reversed.len() == n,
            n == ev.len(),
            forall|j: int| 0 <= j < reversed.len() ==> (reversed@[j].0@, reversed@[j].1@) == #[trigger] ev[n - 1 - j],
            grouped(sets_view(groups@), before + ev.take(k as int)),
        decreases reversed.len(),
    {
        let ghost r = reversed@;
        let p = reversed.pop().unwrap();
        assert(p == r[r.len() - 1]);
        assert((p.0@, p.1@) == ev[n - 1 - (r.len() - 1)]);
        let (set, member) = p;
        assert((set@, member@) == ev[k as int]);
        assert((before + ev.take(k as int)).push(ev[k as int]) =~= before + ev.take(k + 1));
        add_member(groups, set, member, Ghost(before + ev.take(k as int)));
        k = k + 1;
    }
    assert(ev.take(n as int) =~= ev);
}

/// The plan of `set_all`: each value under the stored key of its key, and
/// every helper set that lists those keys with the keys to add to it.
pub fn set_all_plan(items: Vec<(String, String)>) -> (plan: SetPlan)
    ensures
        plan.values@.len() == items@.len(),
        forall|i: int| 0 <= i < items@.len() ==> {
            &&& (#[trigger] plan.values@[i]).0@ == stored_key(items@[i].0@)
            &&& plan.values@[i].1@ == items@[i].1@
        },
        batch_members(items@.map_values(|p: (String, String)| p.0@), sets_view(plan.members@)),
{
    let ghost keys = items@.map_values(|p: (String, String)| p.0@);
    let mut values: Vec<(String, String)> = Vec::new();
    let mut members: Vec<MemberSet> = Vec::new();
    let n = items.len();
    let mut i: usize = 0;
    assert(keys.take(0) =~= Seq::<Seq<char>>::empty());
    assert(batch_entries(keys.take(0)) =~= Seq::empty());
    while i < n
        invariant
            i <= n,
            n == items@.len(),
            keys == items@.map_values(|p: (String, String)| p.0@),
            values@.len() == i,
            forall|j: int| 0 <= j < i ==> {
                &&& (#[trigger] values@[j]).0@ == stored_key(items@[j].0@)
                &&& values@[j].1@ == items@[j].1@
            },
            grouped(sets_view(members@), batch_entries(keys.take(i as int))),
        decreases n - i,
    {
        let (stored, entries) = index_key(items[i].0.as_str());
        let ghost before = batch_entries(keys.take(i as int));
        add_entries(&mut members, entries, Ghost(before));
        proof {
            assert(keys.take(i + 1).drop_last() =~= keys.take(i as int));
            assert(keys.take(i + 1).last() == items@[i as int].0@);
        }
        values.push((stored, items[i].1.clone()));
        i = i + 1;
    }
    assert(keys.take(n as int) =~= keys);
    SetPlan { values, members }
}

/// The plan of `del_all`: the stored keys to delete, and every helper set
/// that lists them with the keys to remove from it.
pub fn del_all_plan(keys: Vec<String>) -> (plan: DelPlan)
    ensures
        plan.keys@.len() == keys@.len(),
        forall|i: int| 0 <= i < keys@.len() ==> (#[trigger] plan.keys@[i])@ == stored_key(keys@[i]@),
        batch_members(keys.deep_view(), sets_view(plan.members@)),
{
    let ghost kv = keys.deep_view();
    let mut stored_keys: Vec<String> = Vec::new();
    let mut members: Vec<MemberSet> = Vec::new();
    let n = keys.len();
    let mut i: usize = 0;
    assert(kv.take(0) =~= Seq::<Seq<char>>::empty());
    assert(batch_entries(kv.take(0)) =~= Seq::empty());
    while i < n
        invariant
            i <= n,
            n == keys@.len(),
            kv == keys.deep_view(),
            stored_keys@.len() == i,
            forall|j: int| 0 <= j < i ==> (#[trigger] stored_keys@[j])@ == stored_key(keys@[j]@),
            grouped(sets_view(members@), batch_entries(kv.take(i as int))),
        decreases n - i,
    {
        let (stored, entries) = index_key(keys[i].as_str());
        let ghost before = batch_entries(kv.take(i as int));
        add_entries(&mut members, entries, Ghost(before));
        proof {
            assert(kv.take(i + 1).drop_last() =~= kv.take(i as int));
            assert(kv.take(i + 1).last() == keys@[i as int]@);
        }
        stored_keys.push(stored);
        i = i + 1;
    }
    assert(kv.take(n as int) =~= kv);
    DelPlan { keys: stored_keys, members }
}

/// `x as i64`: values above `i64::MAX` wrap around to negative ones.
pub open spec fn wrap_i64(x: u64) -> int {
    if x <= i64::MAX {
        x as int
    } else {
        x - 0x1_0000_0000_0000_0000
    }
}

fn u64_as_i64(x: u64) -> (y: i64)
    ensures
        y == wrap_i64(x),
{
    let y = x as i64;
    assert(x <= 0x7fff_ffff_ffff_ffff ==> y == x) by (bit_vector)
        requires
            y == x as i64,
    ;
    assert(x > 0x7fff_ffff_ffff_ffff ==> y == x - 0x1_0000_0000_0000_0000) by (bit_vector)
        requires
            y == x as i64,
    ;
    y
}

/// When an entry given `ttl` milliseconds to live at `now` expires.
pub open spec fn expiry_nanos(now: FormattedDateTime, ttl: u64) -> int {
    now.nanos + wrap_i64(ttl) * NANOS_PER_MILLI
}

/// Whether an entry given `ttl` milliseconds to live at `now` expires at an
/// instant that a timestamp can hold, which `expire_all_plan` asks of each.
pub fn expiry_in_range(now: &FormattedDateTime, ttl: u64) -> (ok: bool)
    ensures
        ok == in_range(expiry_nanos(*now, ttl)),
{
    let millis = u64_as_i64(ttl);
    let offset: i128 = (millis as i128) * NANOS_PER_MILLI;
    match now.nanos.checked_add(offset) {
        Some(at) => MIN_UNIX_NANOS <= at && at <= MAX_UNIX_NANOS,
        None => false,
    }
}

/// The plan of `expire_all`: each key with the instant it expires, `ttl`
/// milliseconds after `now`; these go to the `expiry_keys` hash.
pub fn expire_all_plan(now: &FormattedDateTime, items: &Vec<(String, u64)>) -> (entries: Vec<(String, FormattedDateTime)>)
    requires
        forall|i: int| 0 <= i < items@.len() ==> in_range(expiry_nanos(*now, (#[trigger] items@[i]).1)),
    ensures
        entries@.len() == items@.len(),
        forall|i: int| 0 <= i < items@.len() ==> {
            &&& (#[trigger] entries@[i]).0@ == items@[i].0@
            &&& entries@[i].1.nanos == expiry_nanos(*now, items@[i].1)
        },
{
    let mut entries: Vec<(String, FormattedDateTime)> = Vec::new();
    let mut i: usize = 0;
    while i < items.len()
        invariant
            i <= items@.len(),
            entries@.len() == i,
            forall|j: int| 0 <= j < items@.len() ==> in_range(expiry_nanos(*now, (#[trigger] items@[j]).1)),
            forall|j: int| 0 <= j < i ==> {
                &&& (#[trigger] entries@[j]).0@ == items@[j].0@
                &&& entries@[j].1.nanos == expiry_nanos(*now, items@[j].1)
            },
        decreases items@.len() - i,
    {
        let millis = u64_as_i64(items[i].1);
        assert(in_range(expiry_nanos(*now, items@[i as int].1)));
        let at = now.add_millis(millis);
        entries.push((items[i].0.clone(), at));
        i = i + 1;
    }
    entries
}

/// The keys of `entries` whose expiry is before `now`, in order; an entry
/// whose expiry could not be read is kept.
pub open spec fn expired(entries: Seq<(Seq<char>, Option<i128>)>, now: i128) -> Seq<Seq<char>>
    decreases entries.len(),
{
    if entries.len() == 0 {
        Seq::empty()
    } else {
        let rest = expired(entries.drop_last(), now);
        match entries.last().1 {
            Some(at) => if at < now { rest.push(entries.last().0) } else { rest },
            None => rest,
        }
    }
}

pub open spec fn expiry_view(entries: Seq<(String, Option<FormattedDateTime>)>) -> Seq<(Seq<char>, Option<i128>)> {
    entries.map_values(|e: (String, Option<FormattedDateTime>)| (e.0@, match e.1 { Some(t) => Some(t.nanos), None => None }))
}

/// The keys that the cleanup job deletes: those whose stored expiry is
/// already past at `now`.
pub fn expired_keys(entries: &Vec<(String, Option<FormattedDateTime>)>, now: &FormattedDateTime) -> (keys: Vec<String>)
    ensures
        keys.deep_view() == expired(expiry_view(entries@), now.nanos),
{
    let ghost ev = expiry_view(entries@);
    let mut keys: Vec<String> = Vec::new();
    let mut i: usize = 0;
    assert(ev.take(0) =~= Seq::<(Seq<char>, Option<i128>)>::empty());
    assert(keys.deep_view() =~= Seq::<Seq<char>>::empty());
    while i < entries.len()
        invariant
            i <= entries@.len(),
            ev == expiry_view(entries@),
            keys.deep_view() == expired(ev.take(i as int), now.nanos),
        decreases entries@.len() - i,
    {
        let ghost before = keys.deep_view();
        assert(ev.take(i + 1).drop_last() =~= ev.take(i as int));
        assert(ev.take(i + 1).last() == ev[i as int]);
        match &entries[i].1 {
            Some(at) => {
                if at.nanos < now.nanos {
                    keys.push(entries[i].0.clone());
                    assert(keys.deep_view() =~= before.push(entries@[i as int].0@));
                }
            },
            None => {},
        }
        i = i + 1;
    }
    assert(ev.take(entries@.len() as int) =~= ev);
    keys
}

/// The kinds of object that belong to a guild and are keyed
/// `kind:guild_id:id`.
pub open spec fn guild_owned_kind(kind: Seq<char>) -> bool {
    kind == ROLE_KEY@ || kind == EMOJI_KEY@ || kind == MEMBER_KEY@ || kind == PRESENCE_KEY@ || kind == VOICE_KEY@
}

/// The helper set `guild_keys:guild_id` of the keys of a guild.
pub open spec fn guild_keys_set(guild: u64) -> Seq<char> {
    key1(GUILD_KEY@ + KEYS_SUFFIX@, guild)
}

/// The helper set `channel_keys:channel_id` of the keys of a channel.
pub open spec fn channel_keys_set(channel: u64) -> Seq<char> {
    key1(CHANNEL_KEY@ + KEYS_SUFFIX@, channel)
}

proof fn lemma_kind_names_differ()
    ensures
        forall|k: Seq<char>| guild_owned_kind(k) ==> !k.contains(':') && k != CHANNEL_KEY@ && k != MESSAGE_KEY@,
        !CHANNEL_KEY@.contains(':'),
        !MESSAGE_KEY@.contains(':'),
        !GUILD_KEY@.contains(':'),
        CHANNEL_KEY@ != MESSAGE_KEY@,
{
    lemma_key_names();
    assert(ROLE_KEY@[0] != CHANNEL_KEY@[0] && EMOJI_KEY@[0] != CHANNEL_KEY@[0] && MEMBER_KEY@[0] != CHANNEL_KEY@[0]);
    assert(PRESENCE_KEY@[0] != CHANNEL_KEY@[0] && VOICE_KEY@[0] != CHANNEL_KEY@[0]);
    assert(ROLE_KEY@[0] != MESSAGE_KEY@[0] && EMOJI_KEY@[0] != MESSAGE_KEY@[0] && PRESENCE_KEY@[0] != MESSAGE_KEY@[0]);
    assert(VOICE_KEY@[0] != MESSAGE_KEY@[0] && MEMBER_KEY@[2] != MESSAGE_KEY@[2]);
    assert(CHANNEL_KEY@[0] != MESSAGE_KEY@[0]);
    assert forall|k: Seq<char>| guild_owned_kind(k) implies !k.contains(':') by {
        if k.contains(':') {
            let i = choose|i: int| 0 <= i < k.len() && k[i] == ':';
        }
    }
    assert(!CHANNEL_KEY@.contains(':')) by {
        if CHANNEL_KEY@.contains(':') {
            let i = choose|i: int| 0 <= i < CHANNEL_KEY@.len() && CHANNEL_KEY@[i] == ':';
        }
    }
    assert(!MESSAGE_KEY@.contains(':')) by {
        if MESSAGE_KEY@.contains(':') {
            let i = choose|i: int| 0 <= i < MESSAGE_KEY@.len() && MESSAGE_KEY@[i] == ':';
        }
    }
    assert(!GUILD_KEY@.contains(':')) by {
        if GUILD_KEY@.contains(':') {
            let i = choose|i: int| 0 <= i < GUILD_KEY@.len() && GUILD_KEY@[i] == ':';
        }
    }
}

/// An object of a guild (role, emoji, member, presence, voice state) is
/// stored under its own key and listed in `kind_keys` and in
/// `guild_keys:guild_id`.
pub proof fn law_guild_object_index(kind: Seq<char>, guild: u64, id: u64)
    requires
        guild_owned_kind(kind),
    ensures
        stored_key(key2(kind, guild, id)) == key2(kind, guild, id),
        index_entries(key2(kind, guild, id)) == seq![
            (kind + KEYS_SUFFIX@, key2(kind, guild, id)),
            (guild_keys_set(guild), key2(kind, guild, id)),
        ],
{
    lemma_kind_names_differ();
    lemma_split_key2(kind, guild, id);
}

/// A guild channel, given as `channel:guild_id:channel_id`, is stored as
/// `channel:channel_id`, like a private channel, and listed in
/// `channel_keys` and in `guild_keys:guild_id`.
pub proof fn law_guild_channel_index(guild: u64, channel: u64)
    ensures
        stored_key(key2(CHANNEL_KEY@, guild, channel)) == key1(CHANNEL_KEY@, channel),
        index_entries(key2(CHANNEL_KEY@, guild, channel)) == seq![
            (CHANNEL_KEY@ + KEYS_SUFFIX@, key1(CHANNEL_KEY@, channel)),
            (guild_keys_set(guild), key1(CHANNEL_KEY@, channel)),
        ],
{
    lemma_kind_names_differ();
    lemma_split_key2(CHANNEL_KEY@, guild, channel);
}

/// A message is stored under its own key and listed in `message_keys` and
/// in `channel_keys:channel_id`.
pub proof fn law_message_index(channel: u64, message: u64)
    ensures
        stored_key(key2(MESSAGE_KEY@, channel, message)) == key2(MESSAGE_KEY@, channel, message),
        index_entries(key2(MESSAGE_KEY@, channel, message)) == seq![
            (MESSAGE_KEY@ + KEYS_SUFFIX@, key2(MESSAGE_KEY@, channel, message)),
            (channel_keys_set(channel), key2(MESSAGE_KEY@, channel, message)),
        ],
{
    lemma_kind_names_differ();
    lemma_split_key2(MESSAGE_KEY@, channel, message);
}

/// A guild, or a private channel, is stored under its own key and listed
/// only in `guild_keys`, or `channel_keys`.
pub proof fn law_top_level_index(kind: Seq<char>, id: u64)
    requires
        kind == GUILD_KEY@ || kind == CHANNEL_KEY@,
    ensures
        stored_key(key1(kind, id)) == key1(kind, id),
        index_entries(key1(kind, id)) == seq![(kind + KEYS_SUFFIX@, key1(kind, id))],
{
    lemma_kind_names_differ();
    lemma_split_key1(kind, id);
}

proof fn lemma_members_of_nonempty(entries: Seq<(Seq<char>, Seq<char>)>, set: Seq<char>)
    requires
        members_of(entries, set).len() > 0,
    ensures
        exists|k: int| 0 <= k < entries.len() && (#[trigger] entries[k]).0 == set,
    decreases entries.len(),
{
    let rest = entries.drop_last();
    if entries.last().0 == set {
        assert(entries[entries.len() - 1].0 == set);
    } else {
        lemma_members_of_nonempty(rest, set);
        let k = choose|k: int| 0 <= k < rest.len() && (#[trigger] rest[k]).0 == set;
        assert(entries[k] == rest[k]);
    }
}

/// `groups` holds the set `set` with the same members.
pub open spec fn has_set(groups: Seq<(Seq<char>, Seq<Seq<char>>)>, set: (Seq<char>, Seq<Seq<char>>)) -> bool {
    exists|j: int| 0 <= j < groups.len() && groups[j].0 == set.0 && groups[j].1 == set.1
}

/// Deleting a batch of keys removes from the helper sets exactly what
/// writing them added: the same sets, each with the same keys.
pub proof fn law_delete_undoes_index(
    keys: Seq<Seq<char>>,
    written: Seq<(Seq<char>, Seq<Seq<char>>)>,
    deleted: Seq<(Seq<char>, Seq<Seq<char>>)>,
)
    requires
        batch_members(keys, written),
        batch_members(keys, deleted),
    ensures
        written.len() == deleted.len(),
        forall|i: int| 0 <= i < written.len() ==> has_set(deleted, #[trigger] written[i]),
{
    let entries = batch_entries(keys);
    assert forall|i: int| 0 <= i < written.len() implies has_set(deleted, #[trigger] written[i]) by {
        let s = written[i].0;
        assert(written[i].1 == members_of(entries, s));
        lemma_members_of_nonempty(entries, s);
        let k = choose|k: int| 0 <= k < entries.len() && (#[trigger] entries[k]).0 == s;
        let j = choose|j: int| 0 <= j < deleted.len() && deleted[j].0 == entries[k].0;
        assert(deleted[j].1 == members_of(entries, deleted[j].0));
        assert(deleted[j].0 == written[i].0 && deleted[j].1 == written[i].1);
        assert(has_set(deleted, written[i]));
    }
    // Both list each set of the batch once, so they have as many sets.
    lemma_same_sets_len(written, deleted, entries);
}

/// Two groupings of the same entries have the same number of sets.
proof fn lemma_same_sets_len(
    a: Seq<(Seq<char>, Seq<Seq<char>>)>,
    b: Seq<(Seq<char>, Seq<Seq<char>>)>,
    entries: Seq<(Seq<char>, Seq<char>)>,
)
    requires
        grouped(a, entries),
        grouped(b, entries),
    ensures
        a.len() == b.len(),
{
    let sa = a.map_values(|g: (Seq<char>, Seq<Seq<char>>)| g.0);
    let sb = b.map_values(|g: (Seq<char>, Seq<Seq<char>>)| g.0);
    assert(sa.no_duplicates()) by {
        assert forall|i: int, j: int| 0 <= i < sa.len() && 0 <= j < sa.len() && i != j implies sa[i] != sa[j] by {
            assert(a[i].0 != a[j].0);
        }
    }
    assert(sb.no_duplicates()) by {
        assert forall|i: int, j: int| 0 <= i < sb.len() && 0 <= j < sb.len() && i != j implies sb[i] != sb[j] by {
            assert(b[i].0 != b[j].0);
        }
    }
    assert(sa.to_set() =~= sb.to_set()) by {
        assert forall|s: Seq<char>| sa.to_set().contains(s) <==> sb.to_set().contains(s) by {
            if sa.contains(s) {
                let i = choose|i: int| 0 <= i < sa.len() && sa[i] == s;
                assert(a[i].1 == members_of(entries, a[i].0));
                lemma_members_of_nonempty(entries, s);
                let k = choose|k: int| 0 <= k < entries.len() && (#[trigger] entries[k]).0 == s;
                let j = choose|j: int| 0 <= j < b.len() && b[j].0 == entries[k].0;
                assert(sb[j] == s);
            }
            if sb.contains(s) {
                let j = choose|j: int| 0 <= j < sb.len() && sb[j] == s;
                assert(b[j].1 == members_of(entries, b[j].0));
                lemma_members_of_nonempty(entries, s);
                let k = choose|k: int| 0 <= k < entries.len() && (#[trigger] entries[k]).0 == s;
                let i = choose|i: int| 0 <= i < a.len() && a[i].0 == entries[k].0;
                assert(sa[i] == s);
            }
        }
    }
    sa.unique_seq_to_set();
    sb.unique_seq_to_set();
}

/// Whether a stored expiry is before `now`.
pub open spec fn is_past(at: Option<i128>, now: i128) -> bool {
    match at {
        Some(t) => t < now,
        None => false,
    }
}

/// The cleanup deletes exactly the keys whose stored expiry is before
/// `now`, in their order; a key whose expiry could not be read, or is not
/// yet past, stays.
pub proof fn law_expired_are_past_entries(entries: Seq<(Seq<char>, Option<i128>)>, now: i128)
    ensures
        expired(entries, now) == entries.filter(|e: (Seq<char>, Option<i128>)| is_past(e.1, now)).map_values(
            |e: (Seq<char>, Option<i128>)| e.0,
        ),
    decreases entries.len(),
{
    reveal(Seq::filter);
    if entries.len() > 0 {
        law_expired_are_past_entries(entries.drop_last(), now);
        let kept = entries.drop_last().filter(|e: (Seq<char>, Option<i128>)| is_past(e.1, now));
        assert(kept.push(entries.last()).map_values(|e: (Seq<char>, Option<i128>)| e.0) =~= kept.map_values(
            |e: (Seq<char>, Option<i128>)| e.0,
        ).push(entries.last().0));
    }
}

/// An entry given `ttl` milliseconds at `now` expires `ttl` milliseconds
/// later; a time to live past `i64::MAX` milliseconds is read as negative,
/// as a 64-bit signed number.
pub proof fn law_expiry_after_ttl(now: FormattedDateTime, ttl: u64)
    ensures
        ttl <= i64::MAX ==> expiry_nanos(now, ttl) == now.nanos + ttl * 1_000_000,
        ttl > i64::MAX ==> expiry_nanos(now, ttl) == now.nanos + (ttl - 0x1_0000_0000_0000_0000) * 1_000_000,
{
}

} // verus!
