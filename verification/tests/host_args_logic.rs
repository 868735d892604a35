use std::str::FromStr;

use op_succinct_host_utils::config::{OPSuccinctDataFetcher, RPCConfig};
use op_succinct_host_utils::host_args::{
    check_block_range, data_directory, exec_directory, l1_head_target_timestamp, verbosity_level,
    HostArgsError, ProgramType, L1_HEAD_LEAD_SECONDS,
};
use op_succinct_host_utils::output::{message_passer_address, L2Output, L2_TO_L1_MESSAGE_PASSER};
use op_succinct_host_utils::text::{decimal_text, parse_u8};

fn encoding(output: &L2Output) -> Vec<u8> {
    let mut bytes = vec![0u8; 24];
    bytes.extend_from_slice(&output.zero.to_be_bytes());
    bytes.extend_from_slice(&output.l2_state_root);
    bytes.extend_from_slice(&output.l2_storage_hash);
    bytes.extend_from_slice(&output.l2_claim_hash);
    bytes
}

#[test]
fn output_root_is_the_hash_of_the_four_words() {
    let output = L2Output::new([1u8; 32], [2u8; 32], [3u8; 32]);
    assert_eq!(output.zero, 0);
    let expected = alloy_primitives::keccak256(encoding(&output)).0;
    assert_eq!(output.root(), expected);
    assert_ne!(output.root(), [3u8; 32]);
    let other = L2Output::new([1u8; 32], [2u8; 32], [4u8; 32]);
    assert_ne!(other.root(), output.root());
}

#[test]
fn output_root_of_zeros_is_the_hash_of_128_zero_bytes() {
    let output = L2Output::new([0u8; 32], [0u8; 32], [0u8; 32]);
    assert_eq!(output.root(), alloy_primitives::keccak256([0u8; 128]).0);
    assert_ne!(output.root(), alloy_primitives::keccak256([0u8; 96]).0);
}

#[test]
fn message_passer_address_is_the_predeploy() {
    assert_eq!(L2_TO_L1_MESSAGE_PASSER, "0x4200000000000000000000000000000000000016");
    let mut expected = [0u8; 20];
    expected[0] = 0x42;
    expected[19] = 0x16;
    assert_eq!(message_passer_address(), expected);
    assert_eq!(
        message_passer_address(),
        alloy_primitives::Address::from_str(L2_TO_L1_MESSAGE_PASSER).unwrap().0 .0
    );
}

#[test]
fn block_range_must_be_increasing() {
    assert_eq!(check_block_range(1, 2), Ok(()));
    assert_eq!(check_block_range(2, 2), Err(HostArgsError::InvalidBlockRange { start: 2, end: 2 }));
    assert_eq!(check_block_range(9, 3), Err(HostArgsError::InvalidBlockRange { start: 9, end: 3 }));
}

#[test]
fn error_messages() {
    assert_eq!(
        HostArgsError::InvalidBlockRange { start: 20, end: 10 }.message(),
        "L2 start block is greater than or equal to L2 end block. Start: 20, End: 10"
    );
    assert_eq!(
        HostArgsError::BlockNotFound { number: 1234567 }.message(),
        "Block not found for block number 1234567"
    );
}

#[test]
fn l1_head_is_searched_ten_minutes_after_the_claim() {
    assert_eq!(L1_HEAD_LEAD_SECONDS, 600);
    assert_eq!(l1_head_target_timestamp(1_700_000_000), 1_700_000_600);
    assert_eq!(l1_head_target_timestamp(u64::MAX - 600), u64::MAX);
}

#[test]
fn directories_follow_the_program_type() {
    assert_eq!(
        data_directory("/ws", 10, 100, 200, ProgramType::Single),
        "/ws/data/10/single/200"
    );
    assert_eq!(
        data_directory("/ws", 11155420, 100, 200, ProgramType::Multi),
        "/ws/data/11155420/multi/100-200"
    );
    assert_eq!(
        exec_directory("/ws", ProgramType::Single),
        "/ws/target/release-client-lto/fault-proof"
    );
    assert_eq!(exec_directory("/ws", ProgramType::Multi), "/ws/target/release-client-lto/range");
}

#[test]
fn decimal_text_writes_like_display() {
    for n in [0u64, 7, 9, 10, 99, 100, 12345, u64::MAX] {
        assert_eq!(decimal_text(n), n.to_string());
    }
}

#[test]
fn parse_u8_reads_like_from_str() {
    for text in ["0", "7", "+7", "007", "255", "256", "", "+", "-1", "-", "1a", " 1", "999999999999999999999"] {
        assert_eq!(parse_u8(text), text.parse::<u8>().ok(), "{text}");
    }
    for n in 0..=255u8 {
        assert_eq!(parse_u8(&decimal_text(n as u64)), Some(n));
    }
}

#[test]
fn verbosity_defaults_to_zero() {
    assert_eq!(verbosity_level(None), Some(0));
    assert_eq!(verbosity_level(Some("3".to_string())), Some(3));
    assert_eq!(verbosity_level(Some("loud".to_string())), None);
}

#[test]
fn host_cli_args_are_assembled_from_the_fetched_data() {
    let fetcher = OPSuccinctDataFetcher {
        rpc_config: RPCConfig::from_endpoints(None, Some("http://beacon:1".to_string()), None, None),
        l1_provider: (),
        l2_provider: (),
        rollup_config: (),
    };
    let start_output = L2Output::new([1u8; 32], [2u8; 32], [3u8; 32]);
    let end_output = L2Output::new([4u8; 32], [5u8; 32], [6u8; 32]);
    let args = fetcher.host_cli_args(
        100,
        105,
        ProgramType::Multi,
        &start_output,
        &end_output,
        [9u8; 32],
        10,
        "/ws",
        "/ws/configs/10/rollup.json".to_string(),
        2,
    );
    assert_eq!(args.l1_head, [9u8; 32]);
    assert_eq!(args.l2_output_root, start_output.root());
    assert_eq!(args.l2_claim, end_output.root());
    assert_eq!(args.l2_block_number, 105);
    assert_eq!(args.l2_chain_id, Some(10));
    assert_eq!(args.l2_head, [3u8; 32]);
    assert_eq!(args.l2_node_address.as_deref(), Some("http://localhost:5058"));
    assert_eq!(args.l1_node_address.as_deref(), Some("http://localhost:8545"));
    assert_eq!(args.l1_beacon_address.as_deref(), Some("http://beacon:1"));
    assert_eq!(args.data_dir.as_deref(), Some("/ws/data/10/multi/100-105"));
    assert_eq!(args.exec_path.as_deref(), Some("/ws/target/release-client-lto/range"));
    assert!(!args.server);
    assert_eq!(args.rollup_config_path.as_deref(), Some("/ws/configs/10/rollup.json"));
    assert_eq!(args.v, 2);
}
