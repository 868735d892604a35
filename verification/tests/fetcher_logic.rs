use op_succinct_host_utils::batches::{
    earliest_l1_head_index, header_batches, header_batches_fit, HeaderBatch, HEADER_BATCH_SIZE,
};
use op_succinct_host_utils::blocks::{block_data_range, BlockInfo};
use op_succinct_host_utils::config::{CacheMode, OPSuccinctDataFetcher, RPCConfig, RPCMode};
use op_succinct_host_utils::search::{BlockSearch, SearchAction};

fn fetcher(config: RPCConfig) -> OPSuccinctDataFetcher<&'static str, ()> {
    OPSuccinctDataFetcher { rpc_config: config, l1_provider: "l1", l2_provider: "l2", rollup_config: () }
}

#[test]
fn rpc_urls_default_to_local_endpoints() {
    let f = fetcher(RPCConfig::from_endpoints(None, None, None, None));
    assert_eq!(f.get_rpc_url(RPCMode::L1), "http://localhost:8545");
    assert_eq!(f.get_rpc_url(RPCMode::L1Beacon), "http://localhost:5052");
    assert_eq!(f.get_rpc_url(RPCMode::L2), "http://localhost:9545");
    assert_eq!(f.get_rpc_url(RPCMode::L2Node), "http://localhost:5058");
}

#[test]
fn rpc_urls_take_the_given_endpoints() {
    let f = fetcher(RPCConfig::from_endpoints(
        Some("http://l1:1".to_string()),
        None,
        Some("http://l2:2".to_string()),
        Some("http://node:3".to_string()),
    ));
    assert_eq!(f.get_rpc_url(RPCMode::L1), "http://l1:1");
    assert_eq!(f.get_rpc_url(RPCMode::L1Beacon), "http://localhost:5052");
    assert_eq!(f.get_rpc_url(RPCMode::L2), "http://l2:2");
    assert_eq!(f.get_rpc_url(RPCMode::L2Node), "http://node:3");
}

#[test]
fn providers_are_chosen_by_mode() {
    let f = fetcher(RPCConfig::from_endpoints(None, None, None, None));
    assert_eq!(*f.get_provider(RPCMode::L1), "l1");
    assert_eq!(*f.get_provider(RPCMode::L2), "l2");
}

#[test]
fn only_delete_cache_deletes() {
    assert!(CacheMode::DeleteCache.deletes_cache());
    assert!(!CacheMode::KeepCache.deletes_cache());
}

/// Runs a search to its end on a chain whose block `i` has `timestamps[i]`.
fn run_search(timestamps: &[u64], target: u64) -> (u64, bool, usize) {
    let mut search = BlockSearch::new(timestamps.len() as u64 - 1, target);
    let mut probes = 0;
    loop {
        match search.next_action() {
            SearchAction::Probe(mid) => {
                probes += 1;
                let ts = timestamps[mid as usize];
                if search.observe(ts) {
                    return (mid, true, probes);
                }
            }
            SearchAction::Settled(block) => return (block, false, probes),
        }
    }
}

#[test]
fn search_finds_a_block_with_the_exact_timestamp() {
    let timestamps = [10, 12, 14, 16, 18, 20, 22, 24, 26];
    for (i, ts) in timestamps.iter().enumerate() {
        let (block, matched, _) = run_search(&timestamps, *ts);
        assert!(matched);
        assert_eq!(block, i as u64);
    }
}

#[test]
fn search_settles_on_the_first_later_block() {
    let timestamps = [10, 12, 14, 16, 18, 20, 22, 24, 26];
    assert_eq!(run_search(&timestamps, 15), (3, false, 4));
    assert_eq!(run_search(&timestamps, 25), (8, false, 4));
    assert_eq!(run_search(&timestamps, 10).0, 0);
}

#[test]
fn search_settles_on_the_latest_block_when_every_block_is_earlier() {
    assert_eq!(run_search(&[100, 112, 124, 136], 140), (3, false, 3));
    assert_eq!(run_search(&[10, 12, 14, 16, 18, 20, 22, 24, 26], 100), (8, false, 4));
    assert_eq!(run_search(&[5], 6), (0, false, 1));
}

#[test]
fn search_settles_on_genesis_when_every_block_is_later() {
    assert_eq!(run_search(&[100, 112, 124, 136], 99), (0, false, 2));
    assert_eq!(run_search(&[5], 4), (0, false, 1));
}

#[test]
fn search_probes_at_most_the_binary_digits_of_the_block_count() {
    let timestamps: Vec<u64> = (0..1000u64).map(|i| 1000 + 2 * i).collect();
    // 1000 blocks have 10 binary digits.
    for target in 990..3010u64 {
        let (block, matched, probes) = run_search(&timestamps, target);
        assert!(probes <= 10, "{target}");
        if matched {
            assert_eq!(timestamps[block as usize], target);
        } else if target < 1000 {
            assert_eq!(block, 0);
        } else if target > 2998 {
            assert_eq!(block, 999);
        } else {
            assert!(timestamps[block as usize] > target && timestamps[block as usize - 1] < target);
        }
    }
}

#[test]
fn search_probes_the_midpoint() {
    let search = BlockSearch::new(100, 5);
    assert_eq!(search.next_action(), SearchAction::Probe(50));
    let mut search = BlockSearch::new(u64::MAX, 5);
    assert_eq!(search.next_action(), SearchAction::Probe(u64::MAX / 2));
    assert!(!search.observe(1));
    assert_eq!(search.next_action(), SearchAction::Probe(u64::MAX / 2 + 1 + (u64::MAX - u64::MAX / 2 - 1) / 2));
}

#[test]
fn search_over_every_block_number_settles_past_the_largest() {
    let mut search = BlockSearch::new(u64::MAX, 5);
    while let SearchAction::Probe(_) = search.next_action() {
        assert!(!search.observe(0));
    }
    assert_eq!(search.next_action(), SearchAction::Settled(u64::MAX));
    let mut search = BlockSearch::new(u64::MAX, 5);
    while let SearchAction::Probe(_) = search.next_action() {
        assert!(!search.observe(9));
    }
    assert_eq!(search.next_action(), SearchAction::Settled(0));
}

#[test]
fn header_batches_cover_the_range_in_chunks_of_200() {
    assert_eq!(HEADER_BATCH_SIZE, 200);
    assert_eq!(
        header_batches(0, 450),
        vec![
            HeaderBatch { first: 0, last: 199 },
            HeaderBatch { first: 200, last: 399 },
            HeaderBatch { first: 400, last: 450 },
        ]
    );
    assert_eq!(header_batches(7, 7), vec![HeaderBatch { first: 7, last: 7 }]);
    assert_eq!(
        header_batches(1000, 1399),
        vec![HeaderBatch { first: 1000, last: 1199 }, HeaderBatch { first: 1200, last: 1399 }]
    );
}

#[test]
fn header_batches_fit_only_nonempty_ranges_within_u64() {
    assert!(header_batches_fit(0, 450));
    assert!(!header_batches_fit(10, 9));
    assert!(header_batches_fit(u64::MAX - 200, u64::MAX - 200));
    assert!(!header_batches_fit(u64::MAX - 199, u64::MAX - 199));
    assert!(!header_batches_fit(0, u64::MAX));
}

#[test]
fn earliest_head_is_the_first_smallest_number() {
    assert_eq!(earliest_l1_head_index(&vec![5, 3, 9, 3]), Some(1));
    assert_eq!(earliest_l1_head_index(&vec![4]), Some(0));
    assert_eq!(earliest_l1_head_index(&vec![]), None);
    assert_eq!(earliest_l1_head_index(&vec![u64::MAX, u64::MAX]), None);
    assert_eq!(earliest_l1_head_index(&vec![u64::MAX, 8]), Some(1));
}

#[test]
fn block_data_is_numbered_from_the_range_start() {
    let data = block_data_range(10, 12, &vec![(3, 21000), (0, 0), (7, 90000)]);
    assert_eq!(
        data,
        vec![
            BlockInfo { block_number: 10, transaction_count: 3, gas_used: 21000 },
            BlockInfo { block_number: 11, transaction_count: 0, gas_used: 0 },
            BlockInfo { block_number: 12, transaction_count: 7, gas_used: 90000 },
        ]
    );
    assert!(block_data_range(5, 4, &vec![]).is_empty());
    assert_eq!(BlockInfo::new(1, 2, 3), BlockInfo { block_number: 1, transaction_count: 2, gas_used: 3 });
}
