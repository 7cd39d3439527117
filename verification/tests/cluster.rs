use twilight_dispatch::cluster::{
    cluster_info, find_cluster, queue_bucket, resume_sessions, shard_ranges, use_local_queue, ClusterInfo,
    ShardRange,
};
use std::collections::HashMap;
use twilight_dispatch::models::SessionInfo;

fn r(from: u64, to: u64) -> ShardRange {
    ShardRange { from, to }
}

#[test]
fn shards_spread_evenly() {
    assert_eq!(shard_ranges(0, 9, 3), vec![r(0, 3), r(4, 6), r(7, 9)]);
    assert_eq!(shard_ranges(10, 19, 2), vec![r(10, 14), r(15, 19)]);
    assert_eq!(shard_ranges(0, 0, 1), vec![r(0, 0)]);
}

#[test]
fn shards_up_to_the_last_number() {
    let max = u64::MAX;
    assert_eq!(shard_ranges(max - 9, max, 3), vec![r(max - 9, max - 6), r(max - 5, max - 3), r(max - 2, max)]);
    assert_eq!(shard_ranges(1, max, 1), vec![r(1, max)]);
    assert_eq!(cluster_info(1, 1, max, 0), ClusterInfo { clusters: 1, shards: max, resumes: 0 });
}

#[test]
fn more_clusters_than_shards_leaves_some_empty() {
    assert_eq!(shard_ranges(5, 6, 3), vec![r(5, 5), r(6, 6), r(7, 6)]);
}

#[test]
fn every_shard_has_one_cluster() {
    let ranges = shard_ranges(3, 103, 7);
    for shard in 3..=103u64 {
        let owners = ranges.iter().filter(|c| c.from <= shard && shard <= c.to).count();
        assert_eq!(owners, 1);
    }
    let sizes: Vec<u64> = ranges.iter().map(|c| c.to + 1 - c.from).collect();
    assert_eq!(sizes, vec![15, 15, 15, 14, 14, 14, 14]);
}

#[test]
fn commands_go_to_the_first_cluster_of_the_shard() {
    let ranges = vec![r(0, 3), r(4, 6), r(7, 9)];
    assert_eq!(find_cluster(&ranges, 0), Some(0));
    assert_eq!(find_cluster(&ranges, 5), Some(1));
    assert_eq!(find_cluster(&ranges, 9), Some(2));
    assert_eq!(find_cluster(&ranges, 10), None);
    assert_eq!(find_cluster(&vec![r(7, 6), r(6, 8)], 7), Some(1));
}

#[test]
fn identify_buckets() {
    assert!(use_local_queue(1));
    assert!(!use_local_queue(16));
    assert_eq!(queue_bucket(17, 16), 1);
    assert_eq!(queue_bucket(3, 16), 3);
}

fn session(id: &str, sequence: u64) -> SessionInfo {
    SessionInfo { session_id: id.to_string(), sequence }
}

#[test]
fn sessions_are_resumed_by_shard() {
    let stored = vec![(String::from("0"), session("a", 5)), (String::from("3"), session("b", 7))];
    let resumes = resume_sessions(true, Some(4), 4, &stored);
    assert_eq!(resumes, HashMap::from([(0, session("a", 5)), (3, session("b", 7))]));
}

#[test]
fn later_session_of_a_shard_wins() {
    let stored = vec![(String::from("1"), session("old", 1)), (String::from("+01"), session("new", 2))];
    let resumes = resume_sessions(true, Some(2), 2, &stored);
    assert_eq!(resumes, HashMap::from([(1, session("new", 2))]));
}

#[test]
fn no_resume_when_off_or_total_changed() {
    let stored = vec![(String::from("0"), session("a", 5))];
    assert!(resume_sessions(false, Some(1), 1, &stored).is_empty());
    assert!(resume_sessions(true, Some(2), 1, &stored).is_empty());
    assert!(resume_sessions(true, None, 1, &stored).is_empty());
}

#[test]
fn cluster_info_counts_shards() {
    assert_eq!(cluster_info(3, 0, 9, 2), ClusterInfo { clusters: 3, shards: 10, resumes: 2 });
}
