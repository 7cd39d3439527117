//! The status of each shard as dumped to the cache, the stored sessions,
//! and the per-stage counts reported as metrics.
use vstd::prelude::*;
use vstd::multiset::Multiset;
use crate::decimal::{decimal, u64_to_decimal};
use crate::models::{FormattedDateTime, SessionInfo, StatusInfo, in_range, MAX_UNIX_NANOS, MIN_UNIX_NANOS, NANOS_PER_MILLI};

verus! {

/// The connection stage of a shard.
#[derive(Clone, Copy, Debug, PartialEq, Eq)]
pub enum ShardStage {
    Connected,
    Disconnected,
    Handshaking,
    Identifying,
    Resuming,
}

/// The name of a stage, as shown in statuses and metric labels.
pub open spec fn stage_name(stage: ShardStage) -> Seq<char> {
    match stage {
        ShardStage::Connected => seq!['C', 'o', 'n', 'n', 'e', 'c', 't', 'e', 'd'],
        ShardStage::Disconnected => seq!['D', 'i', 's', 'c', 'o', 'n', 'n', 'e', 'c', 't', 'e', 'd'],
        ShardStage::Handshaking => seq!['H', 'a', 'n', 'd', 's', 'h', 'a', 'k', 'i', 'n', 'g'],
        ShardStage::Identifying => seq!['I', 'd', 'e', 'n', 't', 'i', 'f', 'y', 'i', 'n', 'g'],
        ShardStage::Resuming => seq!['R', 'e', 's', 'u', 'm', 'i', 'n', 'g'],
    }
}

impl ShardStage {
    /// The name of the stage.
    pub fn name(&self) -> (name: &'static str)
        ensures
            name@ == stage_name(*self),
    {
        proof {
            reveal_strlit("Connected");
            reveal_strlit("Disconnected");
            reveal_strlit("Handshaking");
            reveal_strlit("Identifying");
            reveal_strlit("Resuming");
        }
        match self {
            ShardStage::Connected => "Connected",
            ShardStage::Disconnected => "Disconnected",
            ShardStage::Handshaking => "Handshaking",
            ShardStage::Identifying => "Identifying",
            ShardStage::Resuming => "Resuming",
        }
    }
}

/// The stages in the order of `stage_counts`.
pub open spec fn stage_at(i: int) -> ShardStage {
    if i == 0 {
        ShardStage::Connected
    } else if i == 1 {
        ShardStage::Disconnected
    } else if i == 2 {
        ShardStage::Handshaking
    } else if i == 3 {
        ShardStage::Identifying
    } else {
        ShardStage::Resuming
    }
}

/// What the gateway knows of a shard when statuses are dumped.
#[derive(Clone, Debug, PartialEq, Eq)]
pub struct ShardSnapshot {
    pub shard: u64,
    pub stage: ShardStage,
    /// The most recent heartbeat latency, in milliseconds.
    pub latest_latency_millis: Option<u128>,
    /// The time since the last heartbeat acknowledgement, in milliseconds.
    pub last_ack_elapsed_millis: Option<u128>,
    pub session_id: Option<String>,
    pub sequence: u64,
}

/// `x as u64`: the low 64 bits.
pub open spec fn low_u64(x: u128) -> int {
    (x % 0x1_0000_0000_0000_0000) as int
}

/// `x as i64`: the low 64 bits read as a signed number.
pub open spec fn low_i64(x: u128) -> int {
    if low_u64(x) < 0x8000_0000_0000_0000 {
        low_u64(x)
    } else {
        low_u64(x) - 0x1_0000_0000_0000_0000
    }
}

fn truncate_u64(x: u128) -> (y: u64)
    ensures
        y == low_u64(x),
{
    let y = x as u64;
    assert(y == x % 0x1_0000_0000_0000_0000) by (bit_vector)
        requires
            y == x as u64,
    ;
    y
}

fn truncate_i64(x: u128) -> (y: i64)
    ensures
        y == low_i64(x),
{
    let low = truncate_u64(x);
    let y = low as i64;
    assert(low < 0x8000_0000_0000_0000 ==> y == low) by (bit_vector)
        requires
            y == low as i64,
    ;
    assert(low >= 0x8000_0000_0000_0000 ==> y == low - 0x1_0000_0000_0000_0000) by (bit_vector)
        requires
            y == low as i64,
    ;
    y
}

/// The latency of a shard as dumped: its most recent heartbeat latency in
/// whole milliseconds (low 64 bits), or 0 before the first heartbeat.
pub open spec fn status_latency(latest: Option<u128>) -> int {
    match latest {
        Some(ms) => low_u64(ms),
        None => 0,
    }
}

/// When the last heartbeat was acknowledged: `elapsed` milliseconds (low 64
/// bits, signed) before `now`, or `now` when none was.
pub open spec fn last_ack_nanos(now: FormattedDateTime, elapsed: Option<u128>) -> int {
    match elapsed {
        Some(ms) => now.nanos - low_i64(ms) * NANOS_PER_MILLI,
        None => now.nanos as int,
    }
}

/// Whether the instant of the last acknowledgement of `snapshot`, counted
/// back from `now`, is one that a timestamp can hold, which `status_info`
/// asks.
pub fn last_ack_in_range(snapshot: &ShardSnapshot, now: &FormattedDateTime) -> (ok: bool)
    ensures
        ok == in_range(last_ack_nanos(*now, snapshot.last_ack_elapsed_millis)),
{
    let at = match snapshot.last_ack_elapsed_millis {
        Some(ms) => {
            let offset: i128 = (truncate_i64(ms) as i128) * NANOS_PER_MILLI;
            now.nanos.checked_sub(offset)
        },
        None => Some(now.nanos),
    };
    match at {
        Some(at) => MIN_UNIX_NANOS <= at && at <= MAX_UNIX_NANOS,
        None => false,
    }
}

/// The status of a shard: its number, the name of its stage, its latency
/// and when its last heartbeat was acknowledged.
pub fn status_info(snapshot: &ShardSnapshot, now: &FormattedDateTime) -> (status: StatusInfo)
    requires
        now.wf(),
        in_range(last_ack_nanos(*now, snapshot.last_ack_elapsed_millis)),
    ensures
        status.shard == snapshot.shard,
        status.status@ == stage_name(snapshot.stage),
        status.latency == status_latency(snapshot.latest_latency_millis),
        status.last_ack.nanos == last_ack_nanos(*now, snapshot.last_ack_elapsed_millis),
{
    let latency = match snapshot.latest_latency_millis {
        Some(ms) => truncate_u64(ms),
        None => 0,
    };
    let last_ack = match snapshot.last_ack_elapsed_millis {
        Some(ms) => now.sub_millis(truncate_i64(ms)),
        None => *now,
    };
    StatusInfo {
        shard: snapshot.shard,
        status: String::from_str(snapshot.stage.name()),
        latency,
        last_ack,
    }
}

/// The shard numbers of a list of statuses.
pub open spec fn status_shards(statuses: Seq<StatusInfo>) -> Seq<u64> {
    statuses.map_values(|s: StatusInfo| s.shard)
}

/// A status by its fields, for comparing lists of statuses.
pub open spec fn status_view(s: StatusInfo) -> (u64, Seq<char>, u64, i128) {
    (s.shard, s.status@, s.latency, s.last_ack.nanos)
}

pub open spec fn statuses_view(statuses: Seq<StatusInfo>) -> Seq<(u64, Seq<char>, u64, i128)> {
    statuses.map_values(|s: StatusInfo| status_view(s))
}

/// Ordered by shard number.
pub open spec fn sorted_by_shard(statuses: Seq<StatusInfo>) -> bool {
    forall|i: int, j: int| 0 <= i <= j < statuses.len() ==> statuses[i].shard <= statuses[j].shard
}

/// The statuses of `s` whose shard is `shard`, in order.
pub open spec fn with_shard(s: Seq<(u64, Seq<char>, u64, i128)>, shard: u64) -> Seq<(u64, Seq<char>, u64, i128)>
    decreases s.len(),
{
    if s.len() == 0 {
        Seq::empty()
    } else {
        let rest = with_shard(s.drop_first(), shard);
        if s[0].0 == shard {
            seq![s[0]] + rest
        } else {
            rest
        }
    }
}

proof fn lemma_with_shard_prepend(x: (u64, Seq<char>, u64, i128), t: Seq<(u64, Seq<char>, u64, i128)>, shard: u64)
    ensures
        with_shard(seq![x] + t, shard) == if x.0 == shard { seq![x] + with_shard(t, shard) } else { with_shard(t, shard) },
{
    assert((seq![x] + t).drop_first() =~= t);
}

proof fn lemma_with_shard_insert(t: Seq<(u64, Seq<char>, u64, i128)>, pos: int, x: (u64, Seq<char>, u64, i128), shard: u64)
    requires
        0 <= pos <= t.len(),
        forall|j: int| 0 <= j < pos ==> t[j].0 < x.0,
    ensures
        with_shard(t.insert(pos, x), shard) == if x.0 == shard { seq![x] + with_shard(t, shard) } else { with_shard(t, shard) },
    decreases pos,
{
    if pos == 0 {
        assert(t.insert(0, x) =~= seq![x] + t);
        lemma_with_shard_prepend(x, t, shard);
    } else {
        let t0 = t.drop_first();
        lemma_with_shard_insert(t0, pos - 1, x, shard);
        assert(t.insert(pos, x) =~= seq![t[0]] + t0.insert(pos - 1, x));
        assert(t =~= seq![t[0]] + t0);
        lemma_with_shard_prepend(t[0], t0.insert(pos - 1, x), shard);
        lemma_with_shard_prepend(t[0], t0, shard);
        assert(t[0].0 < x.0);
    }
}

/// The statuses ordered by shard number, as `sort_by` on the shard orders
/// them: the same statuses, with equal shards kept in their order.
pub fn sort_statuses(statuses: Vec<StatusInfo>) -> (sorted: Vec<StatusInfo>)
    ensures
        sorted_by_shard(sorted@),
        forall|shard: u64| with_shard(statuses_view(sorted@), shard) == with_shard(statuses_view(statuses@), shard),
        statuses_view(sorted@).to_multiset() == statuses_view(statuses@).to_multiset(),
        sorted@.len() == statuses@.len(),
{
    broadcast use vstd::seq_lib::group_to_multiset_ensures, vstd::multiset::group_multiset_axioms;
    let mut sorted: Vec<StatusInfo> = Vec::new();
    let mut rest = statuses;
    let ghost input = statuses_view(rest@);
    let n = rest.len();
    assert(statuses_view(sorted@) =~= Seq::empty());
    assert(input.take(n as int) =~= input);
    assert(input.skip(n as int) =~= Seq::empty());
    assert(statuses_view(sorted@).to_multiset() =~= Multiset::empty());
    assert(input.to_multiset().add(Multiset::empty()) =~= input.to_multiset());
    // Take the statuses from the back and insert each in front of the
    // equal shards already placed, so that equal shards keep their order.
    while rest.len() > 0
        invariant
            rest@.len() + sorted@.len() == n,
            n == input.len(),
            sorted_by_shard(sorted@),
            statuses_view(rest@).to_multiset().add(statuses_view(sorted@).to_multiset()) == input.to_multiset(),
            statuses_view(rest@) == input.take(rest@.len() as int),
            forall|shard: u64| with_shard(statuses_view(sorted@), shard) == with_shard(input.skip(rest@.len() as int), shard),
        decreases rest.len(),
    {
        let ghost before_rest = rest@;
        let ghost before_sorted = sorted@;
        let s = rest.pop().unwrap();
        assert(before_rest =~= rest@.push(s));
        let mut pos: usize = 0;
        while pos < sorted.len() && sorted[pos].shard < s.shard
            invariant
                pos <= sorted@.len(),
                sorted@ == before_sorted,
                forall|j: int| 0 <= j < pos ==> sorted@[j].shard < s.shard,
            decreases sorted@.len() - pos,
        {
            pos = pos + 1;
        }
        sorted.insert(pos, s);
        proof {
            assert(sorted@ == before_sorted.insert(pos as int, s));
            assert forall|i: int, j: int| 0 <= i <= j < sorted@.len() implies sorted@[i].shard <= sorted@[j].shard by {
                if i < pos && j > pos {
                    assert(sorted@[i] == before_sorted[i]);
                    assert(sorted@[j] == before_sorted[j - 1]);
                } else if i < pos && j == pos {
                    assert(sorted@[i] == before_sorted[i]);
                } else if i == pos && j > pos {
                    assert(sorted@[j] == before_sorted[j - 1]);
                    if pos < before_sorted.len() {
                        assert(before_sorted[pos as int].shard >= s.shard);
                    }
                } else if i > pos {
                    assert(sorted@[i] == before_sorted[i - 1]);
                    assert(sorted@[j] == before_sorted[j - 1]);
                } else if j < pos {
                    assert(sorted@[i] == before_sorted[i]);
                    assert(sorted@[j] == before_sorted[j]);
                }
            }
            assert(statuses_view(before_rest) =~= statuses_view(rest@).push(status_view(s)));
            assert(statuses_view(sorted@) =~= statuses_view(before_sorted).insert(pos as int, status_view(s)));
            let v = status_view(s);
            let k = rest@.len() as int;
            assert(before_rest[k] == s);
            assert(statuses_view(before_rest)[k] == v);
            assert(input.take(k + 1) =~= statuses_view(before_rest));
            assert(input.take(k + 1)[k] == input[k]);
            assert(input[k] == v);
            assert(input.skip(k) =~= seq![v] + input.skip(k + 1));
            assert forall|shard: u64| with_shard(statuses_view(sorted@), shard) == with_shard(input.skip(k), shard) by {
                lemma_with_shard_insert(statuses_view(before_sorted), pos as int, v, shard);
                lemma_with_shard_prepend(v, input.skip(k + 1), shard);
            }
            assert(statuses_view(rest@) =~= input.take(k));
            vstd::seq_lib::to_multiset_build(statuses_view(rest@), v);
            vstd::seq_lib::to_multiset_insert(statuses_view(before_sorted), pos as int, v);
            assert(statuses_view(before_rest).to_multiset() == statuses_view(rest@).to_multiset().insert(v));
            assert(statuses_view(sorted@).to_multiset() == statuses_view(before_sorted).to_multiset().insert(v));
            assert(statuses_view(rest@).to_multiset().add(statuses_view(sorted@).to_multiset())
                =~= statuses_view(before_rest).to_multiset().add(statuses_view(before_sorted).to_multiset()));
        }
    }
    proof {
        assert(statuses_view(rest@) =~= Seq::empty());
        assert(input.skip(0) =~= input);
        assert(statuses_view(rest@).to_multiset() =~= Multiset::empty());
        assert(statuses_view(sorted@).to_multiset() =~= input.to_multiset());
    }
    sorted
}

/// The session id of a snapshot, or the empty text when it has none.
pub open spec fn session_id_text(id: Option<String>) -> Seq<char> {
    match id {
        Some(s) => s@,
        None => Seq::empty(),
    }
}

/// The sessions dumped to `gateway_sessions`: for each shard, under its
/// decimal number, its session id (empty when it has none) and sequence.
pub fn session_entries(snapshots: &Vec<ShardSnapshot>) -> (entries: Vec<(String, SessionInfo)>)
    ensures
        entries@.len() == snapshots@.len(),
        forall|i: int| 0 <= i < snapshots@.len() ==> {
            &&& (#[trigger] entries@[i]).0@ == decimal(snapshots@[i].shard as nat)
            &&& entries@[i].1.session_id@ == session_id_text(snapshots@[i].session_id)
            &&& entries@[i].1.sequence == snapshots@[i].sequence
        },
{
    let mut entries: Vec<(String, SessionInfo)> = Vec::new();
    let mut i: usize = 0;
    while i < snapshots.len()
        invariant
            i <= snapshots@.len(),
            entries@.len() == i,
            forall|j: int| 0 <= j < i ==> {
                &&& (#[trigger] entries@[j]).0@ == decimal(snapshots@[j].shard as nat)
                &&& entries@[j].1.session_id@ == session_id_text(snapshots@[j].session_id)
                &&& entries@[j].1.sequence == snapshots@[j].sequence
            },
        decreases snapshots@.len() - i,
    {
        let snapshot = &snapshots[i];
        let session_id = match &snapshot.session_id {
            Some(id) => id.clone(),
            None => String::new(),
        };
        entries.push((u64_to_decimal(snapshot.shard), SessionInfo { session_id, sequence: snapshot.sequence }));
        i = i + 1;
    }
    entries
}

/// How many of `stages` are `stage`.
pub open spec fn count_stage(stages: Seq<ShardStage>, stage: ShardStage) -> nat
    decreases stages.len(),
{
    if stages.len() == 0 {
        0
    } else {
        count_stage(stages.drop_last(), stage) + if stages.last() == stage { 1nat } else { 0nat }
    }
}

proof fn lemma_count_stage_bound(stages: Seq<ShardStage>, stage: ShardStage)
    ensures
        count_stage(stages, stage) <= stages.len(),
    decreases stages.len(),
{
    if stages.len() > 0 {
        lemma_count_stage_bound(stages.drop_last(), stage);
    }
}

/// The number of shards in each stage, for every stage in the order
/// Connected, Disconnected, Handshaking, Identifying, Resuming; a stage
/// without shards counts 0.
pub fn stage_counts(stages: &Vec<ShardStage>) -> (counts: Vec<(ShardStage, i64)>)
    requires
        stages@.len() <= i64::MAX,
    ensures
        counts@.len() == 5,
        forall|i: int| 0 <= i < 5 ==> (#[trigger] counts@[i]).0 == stage_at(i)
            && counts@[i].1 == count_stage(stages@, stage_at(i)),
{
    let mut connected: i64 = 0;
    let mut disconnected: i64 = 0;
    let mut handshaking: i64 = 0;
    let mut identifying: i64 = 0;
    let mut resuming: i64 = 0;
    let mut i: usize = 0;
    while i < stages.len()
        invariant
            i <= stages@.len(),
            stages@.len() <= i64::MAX,
            connected == count_stage(stages@.take(i as int), ShardStage::Connected),
            disconnected == count_stage(stages@.take(i as int), ShardStage::Disconnected),
            handshaking == count_stage(stages@.take(i as int), ShardStage::Handshaking),
            identifying == count_stage(stages@.take(i as int), ShardStage::Identifying),
            resuming == count_stage(stages@.take(i as int), ShardStage::Resuming),
        decreases stages@.len() - i,
    {
        let ghost prefix = stages@.take(i + 1);
        proof {
            assert(prefix.drop_last() =~= stages@.take(i as int));
            assert(prefix.last() == stages@[i as int]);
            lemma_count_stage_bound(stages@.take(i as int), ShardStage::Connected);
            lemma_count_stage_bound(stages@.take(i as int), ShardStage::Disconnected);
            lemma_count_stage_bound(stages@.take(i as int), ShardStage::Handshaking);
            lemma_count_stage_bound(stages@.take(i as int), ShardStage::Identifying);
            lemma_count_stage_bound(stages@.take(i as int), ShardStage::Resuming);
        }
        match stages[i] {
            ShardStage::Connected => connected = connected + 1,
            ShardStage::Disconnected => disconnected = disconnected + 1,
            ShardStage::Handshaking => handshaking = handshaking + 1,
            ShardStage::Identifying => identifying = identifying + 1,
            ShardStage::Resuming => resuming = resuming + 1,
        }
        i = i + 1;
    }
    assert(stages@.take(stages@.len() as int) =~= stages@);
    let mut counts: Vec<(ShardStage, i64)> = Vec::new();
    counts.push((ShardStage::Connected, connected));
    counts.push((ShardStage::Disconnected, disconnected));
    counts.push((ShardStage::Handshaking, handshaking));
    counts.push((ShardStage::Identifying, identifying));
    counts.push((ShardStage::Resuming, resuming));
    counts
}

/// The latency gauge of a shard: its most recent heartbeat latency in
/// milliseconds (low 64 bits, signed), or 0 before the first heartbeat.
pub fn latency_gauge(latest: Option<u128>) -> (gauge: i64)
    ensures
        gauge == match latest {
            Some(ms) => low_i64(ms),
            None => 0,
        },
{
    match latest {
        Some(ms) => truncate_i64(ms),
        None => 0,
    }
}

/// Every shard is counted in exactly one stage: the counts add up to the
/// number of shards.
pub proof fn law_stage_counts_total(stages: Seq<ShardStage>)
    ensures
        count_stage(stages, ShardStage::Connected) + count_stage(stages, ShardStage::Disconnected)
            + count_stage(stages, ShardStage::Handshaking) + count_stage(stages, ShardStage::Identifying)
            + count_stage(stages, ShardStage::Resuming) == stages.len(),
    decreases stages.len(),
{
    if stages.len() > 0 {
        law_stage_counts_total(stages.drop_last());
    }
}

/// The count of a stage is the number of shards in that stage: the length
/// of the shards kept by the test "is in this stage".
pub proof fn law_stage_count_is_shards_in_stage(stages: Seq<ShardStage>, stage: ShardStage)
    ensures
        count_stage(stages, stage) == stages.filter(|s: ShardStage| s == stage).len(),
    decreases stages.len(),
{
    reveal(Seq::filter);
    if stages.len() > 0 {
        law_stage_count_is_shards_in_stage(stages.drop_last(), stage);
    }
}

/// Adding a shard adds one to the count of its own stage and leaves the
/// count of every other stage as it was; with no shards every count is 0.
pub proof fn law_stage_count_of_one_more_shard(stages: Seq<ShardStage>, shard: ShardStage, stage: ShardStage)
    ensures
        count_stage(Seq::empty(), stage) == 0,
        count_stage(stages.push(shard), stage) == count_stage(stages, stage) + if shard == stage { 1int } else { 0int },
{
    assert(stages.push(shard).drop_last() =~= stages);
}

/// The counts are reported for the five stages, each once, in the order
/// Connected, Disconnected, Handshaking, Identifying, Resuming, and under
/// the names the gateway gives them.
pub proof fn law_stage_order_and_names()
    ensures
        stage_at(0) == ShardStage::Connected,
        stage_at(1) == ShardStage::Disconnected,
        stage_at(2) == ShardStage::Handshaking,
        stage_at(3) == ShardStage::Identifying,
        stage_at(4) == ShardStage::Resuming,
        stage_name(ShardStage::Connected) == "Connected"@,
        stage_name(ShardStage::Disconnected) == "Disconnected"@,
        stage_name(ShardStage::Handshaking) == "Handshaking"@,
        stage_name(ShardStage::Identifying) == "Identifying"@,
        stage_name(ShardStage::Resuming) == "Resuming"@,
{
    reveal_strlit("Connected");
    reveal_strlit("Disconnected");
    reveal_strlit("Handshaking");
    reveal_strlit("Identifying");
    reveal_strlit("Resuming");
    assert(stage_name(ShardStage::Connected) =~= "Connected"@);
    assert(stage_name(ShardStage::Disconnected) =~= "Disconnected"@);
    assert(stage_name(ShardStage::Handshaking) =~= "Handshaking"@);
    assert(stage_name(ShardStage::Identifying) =~= "Identifying"@);
    assert(stage_name(ShardStage::Resuming) =~= "Resuming"@);
}

/// A shard's dumped latency is its most recent heartbeat latency in
/// milliseconds, 0 before the first; its last acknowledgement is that many
/// milliseconds before now, or now when there was none.
pub proof fn law_status_values(now: FormattedDateTime, ms: u128)
    ensures
        ms < 0x1_0000_0000_0000_0000 ==> status_latency(Some(ms)) == ms,
        status_latency(None) == 0,
        ms < 0x8000_0000_0000_0000 ==> last_ack_nanos(now, Some(ms)) == now.nanos - ms * 1_000_000,
        last_ack_nanos(now, None) == now.nanos,
{
}

} // verus!
