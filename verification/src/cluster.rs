//! How the configured shards are spread over clusters, which stored
//! sessions are resumed, which cluster a command for a shard goes to, and
//! which identify bucket a shard waits in.
use vstd::prelude::*;
use crate::decimal::{parse_u64, parse_unsigned};
use crate::models::SessionInfo;
use std::collections::HashMap;

verus! {

broadcast use vstd::std_specs::hash::group_hash_axioms;

/// What `get_clusters` reports: how many clusters and shards were started
/// and how many sessions are resumed.
#[derive(Clone, Debug, PartialEq, Eq)]
pub struct ClusterInfo {
    pub clusters: u64,
    pub shards: u64,
    pub resumes: u64,
}

/// The shards `from..=to` of one cluster; a cluster with no shard has
/// `from == to + 1`.
#[derive(Clone, Copy, Debug, PartialEq, Eq)]
pub struct ShardRange {
    pub from: u64,
    pub to: u64,
}

/// The smaller of `a` and `b`.
pub open spec fn min(a: int, b: int) -> int {
    if a <= b { a } else { b }
}

/// The number of shards `start..=end`.
pub open spec fn shard_count(start: u64, end: u64) -> int {
    end - start + 1
}

/// The first shard of cluster `i` when `shards` shards starting at `start`
/// are spread over `clusters` clusters: every cluster gets
/// `shards / clusters` shards and the first `shards % clusters` clusters one
/// more.
pub open spec fn cluster_start(start: int, shards: int, clusters: int, i: int) -> int {
    start + i * (shards / clusters) + min(i, shards % clusters)
}

/// The number of shards of cluster `i`.
pub open spec fn cluster_size(shards: int, clusters: int, i: int) -> int {
    shards / clusters + if i < shards % clusters { 1int } else { 0int }
}

/// The shard ranges of `clusters` clusters over the shards `start..=end`,
/// in order.
pub open spec fn spreads(ranges: Seq<ShardRange>, start: u64, end: u64, clusters: u64) -> bool {
    let shards = shard_count(start, end);
    &&& ranges.len() == clusters
    &&& forall|i: int| 0 <= i < clusters ==> {
        &&& (#[trigger] ranges[i]).from == cluster_start(start as int, shards, clusters as int, i)
        &&& ranges[i].to + 1 == cluster_start(start as int, shards, clusters as int, i + 1)
    }
}

proof fn lemma_cluster_start_step(start: int, shards: int, clusters: int, i: int)
    requires
        clusters > 0,
        shards >= 0,
        0 <= i,
    ensures
        cluster_start(start, shards, clusters, i + 1) == cluster_start(start, shards, clusters, i)
            + cluster_size(shards, clusters, i),
{
    let base = shards / clusters;
    assert((i + 1) * base == i * base + base) by (nonlinear_arith);
}

proof fn lemma_cluster_start_bounds(start: int, shards: int, clusters: int, i: int)
    requires
        clusters > 0,
        shards >= 0,
        0 <= i <= clusters,
    ensures
        start <= cluster_start(start, shards, clusters, i) <= start + shards,
        cluster_start(start, shards, clusters, clusters) == start + shards,
{
    let base = shards / clusters;
    let extra = shards % clusters;
    assert(0 <= i * base <= clusters * base) by (nonlinear_arith)
        requires
            0 <= i <= clusters,
            base >= 0,
    ;
    assert(clusters * base + extra == shards) by (nonlinear_arith)
        requires
            base == shards / clusters,
            extra == shards % clusters,
            clusters > 0,
    ;
    assert(0 <= extra < clusters);
    if i < clusters {
        assert(i * base + min(i, extra) <= clusters * base + extra);
    }
}

/// The shard ranges of the clusters: the shards `start..=end` in order,
/// the first `shards % clusters` clusters with one shard more than the
/// others.
pub fn shard_ranges(start: u64, end: u64, clusters: u64) -> (ranges: Vec<ShardRange>)
    requires
        clusters > 0,
        start <= end,
        end - start < u64::MAX,
        // past the last shard there is no room for a cluster without shards
        end == u64::MAX ==> shard_count(start, end) >= clusters,
    ensures
        spreads(ranges@, start, end, clusters),
{
    let shards = end - start + 1;
    let base = shards / clusters;
    let extra = shards % clusters;
    let ghost s = start as int;
    let ghost n = shards as int;
    let ghost c = clusters as int;
    let mut ranges: Vec<ShardRange> = Vec::new();
    let mut last_index = start;
    let mut i: u64 = 0;
    proof {
        lemma_cluster_start_bounds(s, n, c, 0);
        assert(cluster_start(s, n, c, 0) == s) by {
            assert(0 * (n / c) == 0);
        }
    }
    while i < clusters
        invariant
            i <= clusters,
            clusters > 0,
            start <= end,
            end - start < u64::MAX,
            end == u64::MAX ==> shard_count(start, end) >= clusters,
            shards == end - start + 1,
            s == start,
            n == shards,
            c == clusters,
            base == shards / clusters,
            extra == shards % clusters,
            i < clusters ==> last_index == cluster_start(s, n, c, i as int),
            ranges@.len() == i,
            forall|j: int| 0 <= j < i ==> {
                &&& (#[trigger] ranges@[j]).from == cluster_start(s, n, c, j)
                &&& ranges@[j].to + 1 == cluster_start(s, n, c, j + 1)
            },
        decreases clusters - i,
    {
        proof {
            assert(last_index == cluster_start(s, n, c, i as int));
            assert(n >= 1);
            lemma_cluster_start_step(s, n, c, i as int);
            lemma_cluster_start_bounds(s, n, c, i as int);
            lemma_cluster_start_bounds(s, n, c, i + 1);
            if i >= extra && base == 0 {
                // A cluster without shards comes after the first one, so its
                // first shard is past `start`, or past 0 at least.
                assert(extra > 0) by (nonlinear_arith)
                    requires
                        base == shards / clusters,
                        extra == shards % clusters,
                        base == 0,
                        clusters > 0,
                        shards >= 1,
                ;
                assert(last_index >= s + extra);
            }
        }
        let index = if i < extra {
            last_index + base
        } else if base > 0 {
            last_index + (base - 1)
        } else {
            last_index - 1
        };
        ranges.push(ShardRange { from: last_index, to: index });
        if i + 1 < clusters {
            proof {
                // The next cluster has a first shard: it has shards, or it
                // starts no later than the last shard.
                lemma_cluster_start_step(s, n, c, i + 1);
                lemma_cluster_start_bounds(s, n, c, i + 2);
                if end == u64::MAX {
                    assert(base >= 1) by {
                        assert(n >= c);
                        assert(n / c >= 1) by (nonlinear_arith)
                            requires
                                n >= c,
                                c > 0,
                        ;
                    }
                }
            }
            last_index = index + 1;
        }
        i = i + 1;
    }
    ranges
}

/// Every shard of `start..=end` is in the range of exactly one cluster.
pub proof fn law_every_shard_in_one_cluster(ranges: Seq<ShardRange>, start: u64, end: u64, clusters: u64, shard: u64)
    requires
        clusters > 0,
        start <= end,
        end - start < u64::MAX,
        spreads(ranges, start, end, clusters),
        start <= shard <= end,
    ensures
        exists|i: int| 0 <= i < clusters && (#[trigger] ranges[i]).from <= shard <= ranges[i].to,
        forall|i: int, j: int|
            0 <= i < clusters && 0 <= j < clusters && (#[trigger] ranges[i]).from <= shard <= ranges[i].to
                && (#[trigger] ranges[j]).from <= shard <= ranges[j].to ==> i == j,
{
    let s = start as int;
    let n = shard_count(start, end);
    let c = clusters as int;
    // The first shards of the clusters increase with the cluster.
    assert forall|i: int, j: int| 0 <= i <= j <= c implies cluster_start(s, n, c, i) <= cluster_start(s, n, c, j) by {
        let base = n / c;
        assert(i * base <= j * base) by (nonlinear_arith)
            requires
                0 <= i <= j,
                base >= 0,
        ;
    }
    lemma_cluster_start_bounds(s, n, c, 0);
    lemma_cluster_start_bounds(s, n, c, c);
    assert(cluster_start(s, n, c, 0) == s) by {
        assert(0 * (n / c) == 0);
    }
    // The cluster of the shard: the last one whose first shard is not past it.
    let k = choose_cluster(s, n, c, shard as int, c);
    assert(0 <= k < c);
    assert(ranges[k].from <= shard <= ranges[k].to);
    assert forall|i: int, j: int|
        0 <= i < clusters && 0 <= j < clusters && (#[trigger] ranges[i]).from <= shard <= ranges[i].to
            && (#[trigger] ranges[j]).from <= shard <= ranges[j].to implies i == j by {
        if i < j {
            assert(cluster_start(s, n, c, i + 1) <= cluster_start(s, n, c, j));
        } else if j < i {
            assert(cluster_start(s, n, c, j + 1) <= cluster_start(s, n, c, i));
        }
    }
}

/// The last cluster among the first `m` whose first shard is at most `x`.
proof fn choose_cluster(s: int, n: int, c: int, x: int, m: int) -> (k: int)
    requires
        c > 0,
        n >= 0,
        1 <= m <= c,
        cluster_start(s, n, c, 0) <= x < cluster_start(s, n, c, m),
        forall|i: int, j: int| 0 <= i <= j <= c ==> cluster_start(s, n, c, i) <= cluster_start(s, n, c, j),
    ensures
        0 <= k < m,
        cluster_start(s, n, c, k) <= x < cluster_start(s, n, c, k + 1),
    decreases m,
{
    if cluster_start(s, n, c, m - 1) <= x {
        m - 1
    } else {
        choose_cluster(s, n, c, x, m - 1)
    }
}

/// Each cluster has `shards / clusters` shards, or one more: the clusters
/// differ by at most one shard, the larger ones first; the first starts at
/// the first shard, each next one right after the one before, and the last
/// ends at the last shard.
pub proof fn law_balanced_clusters(ranges: Seq<ShardRange>, start: u64, end: u64, clusters: u64, i: int)
    requires
        clusters > 0,
        start <= end,
        end - start < u64::MAX,
        spreads(ranges, start, end, clusters),
        0 <= i < clusters,
    ensures
        ranges[i].to + 1 - ranges[i].from == cluster_size(shard_count(start, end), clusters as int, i),
        shard_count(start, end) / (clusters as int) <= ranges[i].to + 1 - ranges[i].from
            <= shard_count(start, end) / (clusters as int) + 1,
        ranges[0].from == start,
        ranges[clusters - 1].to == end,
        i + 1 < clusters ==> ranges[i + 1].from == ranges[i].to + 1,
        i + 1 < clusters ==> ranges[i].to + 1 - ranges[i].from >= ranges[i + 1].to + 1 - ranges[i + 1].from,
{
    let s = start as int;
    let n = shard_count(start, end);
    let c = clusters as int;
    lemma_cluster_start_step(s, n, c, i);
    lemma_cluster_start_step(s, n, c, i + 1);
    lemma_cluster_start_bounds(s, n, c, c);
    assert(cluster_start(s, n, c, 0) == s) by {
        assert(0 * (n / c) == 0);
    }
}

/// Whether the shards are identified one at a time through a single queue
/// (`true`) or through one bucket per allowed concurrent identify.
pub fn use_local_queue(concurrency: u64) -> (local: bool)
    ensures
        local == (concurrency == 1),
{
    concurrency == 1
}

/// The identify bucket of a shard among `buckets` buckets.
pub fn queue_bucket(shard: u64, buckets: usize) -> (bucket: usize)
    requires
        buckets > 0,
    ensures
        bucket == shard % (buckets as u64),
        bucket < buckets,
{
    (shard % (buckets as u64)) as usize
}

/// The index of the first cluster whose shards include `shard`, as the
/// cluster that a command for that shard is sent to.
pub fn find_cluster(ranges: &Vec<ShardRange>, shard: u64) -> (found: Option<usize>)
    ensures
        match found {
            Some(i) => i < ranges@.len() && ranges@[i as int].from <= shard <= ranges@[i as int].to
                && forall|j: int| 0 <= j < i ==> !((#[trigger] ranges@[j]).from <= shard <= ranges@[j].to),
            None => forall|j: int| 0 <= j < ranges@.len() ==> !((#[trigger] ranges@[j]).from <= shard <= ranges@[j].to),
        },
{
    let mut i: usize = 0;
    while i < ranges.len()
        invariant
            i <= ranges@.len(),
            forall|j: int| 0 <= j < i ==> !((#[trigger] ranges@[j]).from <= shard <= ranges@[j].to),
        decreases ranges@.len() - i,
    {
        if ranges[i].from <= shard && shard <= ranges[i].to {
            return Some(i);
        }
        i = i + 1;
    }
    None
}

/// Whether the stored sessions are resumed: only when resuming is enabled
/// and the stored shard total is the configured one.
pub open spec fn resumes_sessions(resume: bool, stored_total: Option<u64>, total: u64) -> bool {
    resume && stored_total == Some(total)
}

/// The stored sessions by shard: each session, in order, under the shard
/// number its key gives, a later one replacing an earlier one of the same
/// shard.
pub open spec fn resume_map(sessions: Seq<(String, SessionInfo)>) -> Map<u64, SessionInfo>
    decreases sessions.len(),
{
    if sessions.len() == 0 {
        Map::empty()
    } else {
        resume_map(sessions.drop_last()).insert(parse_unsigned(sessions.last().0@).unwrap(), sessions.last().1)
    }
}

/// The sessions to resume, by shard: every stored session under the shard
/// number its key gives; where two keys give the same shard the later one
/// wins. Empty when resuming is off or the stored shard total differs.
pub fn resume_sessions(
    resume: bool,
    stored_total: Option<u64>,
    total: u64,
    sessions: &Vec<(String, SessionInfo)>,
) -> (resumes: HashMap<u64, SessionInfo>)
    requires
        resumes_sessions(resume, stored_total, total) ==> forall|i: int|
            0 <= i < sessions@.len() ==> parse_unsigned((#[trigger] sessions@[i]).0@) is Some,
    ensures
        resumes@ == if resumes_sessions(resume, stored_total, total) {
            resume_map(sessions@)
        } else {
            Map::<u64, SessionInfo>::empty()
        },
        !resume ==> resumes@ == Map::<u64, SessionInfo>::empty(),
        stored_total != Some(total) ==> resumes@ == Map::<u64, SessionInfo>::empty(),
        resume && stored_total == Some(total) ==> resumes@ == resume_map(sessions@),
{
    let mut resumes: HashMap<u64, SessionInfo> = HashMap::new();
    if !(resume && stored_total == Some(total)) {
        return resumes;
    }
    let mut i: usize = 0;
    while i < sessions.len()
        invariant
            i <= sessions@.len(),
            forall|j: int| 0 <= j < sessions@.len() ==> parse_unsigned((#[trigger] sessions@[j]).0@) is Some,
            resumes@ == resume_map(sessions@.take(i as int)),
        decreases sessions@.len() - i,
    {
        let shard = parse_u64(sessions[i].0.as_str()).unwrap();
        let entry = SessionInfo { session_id: sessions[i].1.session_id.clone(), sequence: sessions[i].1.sequence };
        proof {
            let prefix = sessions@.take(i + 1);
            assert(prefix.drop_last() =~= sessions@.take(i as int));
            assert(prefix.last() == sessions@[i as int]);
            assert(entry == sessions@[i as int].1);
        }
        resumes.insert(shard, entry);
        i = i + 1;
    }
    assert(sessions@.take(sessions@.len() as int) =~= sessions@);
    resumes
}

/// The stored sessions by shard hold exactly the shards that the keys
/// name.
pub proof fn law_resumes_only_stored_shards(sessions: Seq<(String, SessionInfo)>, shard: u64)
    requires
        forall|i: int| 0 <= i < sessions.len() ==> parse_unsigned((#[trigger] sessions[i]).0@) is Some,
    ensures
        resume_map(sessions).contains_key(shard) <==> exists|i: int|
            0 <= i < sessions.len() && parse_unsigned((#[trigger] sessions[i]).0@) == Some(shard),
    decreases sessions.len(),
{
    if sessions.len() > 0 {
        let rest = sessions.drop_last();
        assert forall|i: int| 0 <= i < rest.len() implies parse_unsigned((#[trigger] rest[i]).0@) is Some by {
            assert(rest[i] == sessions[i]);
        }
        law_resumes_only_stored_shards(rest, shard);
        let last = sessions.len() - 1;
        assert(sessions[last] == sessions.last());
        if exists|i: int| 0 <= i < rest.len() && parse_unsigned((#[trigger] rest[i]).0@) == Some(shard) {
            let i = choose|i: int| 0 <= i < rest.len() && parse_unsigned((#[trigger] rest[i]).0@) == Some(shard);
            assert(sessions[i] == rest[i]);
        }
        if exists|i: int| 0 <= i < sessions.len() && parse_unsigned((#[trigger] sessions[i]).0@) == Some(shard) {
            let i = choose|i: int| 0 <= i < sessions.len() && parse_unsigned((#[trigger] sessions[i]).0@) == Some(shard);
            if i < last {
                assert(rest[i] == sessions[i]);
            }
        }
    }
}

/// A shard resumes its last stored session: the session at `i` is the one
/// resumed for its shard when no later key names the same shard.
pub proof fn law_resumes_last_session(sessions: Seq<(String, SessionInfo)>, i: int)
    requires
        forall|j: int| 0 <= j < sessions.len() ==> parse_unsigned((#[trigger] sessions[j]).0@) is Some,
        0 <= i < sessions.len(),
        forall|j: int| i < j < sessions.len() ==> parse_unsigned((#[trigger] sessions[j]).0@) != parse_unsigned(sessions[i].0@),
    ensures
        resume_map(sessions).contains_key(parse_unsigned(sessions[i].0@).unwrap()),
        resume_map(sessions)[parse_unsigned(sessions[i].0@).unwrap()] == sessions[i].1,
    decreases sessions.len(),
{
    let last = sessions.len() - 1;
    assert(sessions[last] == sessions.last());
    if i < last {
        let rest = sessions.drop_last();
        assert forall|j: int| 0 <= j < rest.len() implies parse_unsigned((#[trigger] rest[j]).0@) is Some by {
            assert(rest[j] == sessions[j]);
        }
        assert forall|j: int| i < j < rest.len() implies parse_unsigned((#[trigger] rest[j]).0@) != parse_unsigned(rest[i].0@) by {
            assert(rest[j] == sessions[j]);
        }
        assert(rest[i] == sessions[i]);
        law_resumes_last_session(rest, i);
        assert(parse_unsigned(sessions[last].0@) != parse_unsigned(sessions[i].0@));
        assert(parse_unsigned(sessions[last].0@).unwrap() != parse_unsigned(sessions[i].0@).unwrap());
    }
}

/// What `get_clusters` reports for the given shard ranges and resumes.
pub fn cluster_info(clusters: u64, start: u64, end: u64, resumes: usize) -> (info: ClusterInfo)
    requires
        start <= end,
        end - start < u64::MAX,
    ensures
        info.clusters == clusters,
        info.shards == shard_count(start, end),
        info.resumes == resumes,
{
    ClusterInfo { clusters, shards: end - start + 1, resumes: resumes as u64 }
}

} // verus!
