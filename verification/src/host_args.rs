//! The arguments of the native host program: the checks made before any data is
//! fetched, the directories the host works in, and the assembly of the arguments from
//! the data fetched for an L2 block range.

use vstd::prelude::*;

use crate::config::{OPSuccinctDataFetcher, RPCConfig, RPCMode};
use crate::output::{keccak256_of, l2_output_encoding, L2Output};
use crate::text::{
    decimal, decimal_text, is_digit, lemma_decimal_injective, lemma_decimal_is_digits, parsed_u8,
    parse_u8,
};

verus! {

/// Which native program the host runs: one block at a time, or a range of blocks.
#[derive(Clone, Copy, Debug, PartialEq, Eq, Structural)]
pub enum ProgramType {
    Single,
    Multi,
}

/// How far past the L2 claim block's timestamp the L1 head is chosen, in seconds, so that
/// the L1 head is always ahead of the L2 claim block.
pub const L1_HEAD_LEAD_SECONDS: u64 = 600;

/// Errors in preparing the host's arguments.
#[derive(Clone, Copy, Debug, PartialEq, Eq, Structural)]
pub enum HostArgsError {
    /// The L2 start block is not before the L2 end block.
    InvalidBlockRange { start: u64, end: u64 },
    /// The L2 endpoint has no block with this number.
    BlockNotFound { number: u64 },
}

impl HostArgsError {
    pub open spec fn message_text(self) -> Seq<char> {
        match self {
            HostArgsError::InvalidBlockRange { start, end } =>
                "L2 start block is greater than or equal to L2 end block. Start: "@
                    + decimal(start as nat) + ", End: "@ + decimal(end as nat),
            HostArgsError::BlockNotFound { number } =>
                "Block not found for block number "@ + decimal(number as nat),
        }
    }

    /// The error's message.
    pub fn message(&self) -> (text: String)
        ensures
            text@ == self.message_text(),
    {
        match self {
            HostArgsError::InvalidBlockRange { start, end } => {
                let mut text = String::from_str(
                    "L2 start block is greater than or equal to L2 end block. Start: ",
                );
                text.append(decimal_text(*start).as_str());
                text.append(", End: ");
                text.append(decimal_text(*end).as_str());
                text
            },
            HostArgsError::BlockNotFound { number } => {
                let mut text = String::from_str("Block not found for block number ");
                text.append(decimal_text(*number).as_str());
                text
            },
        }
    }
}

/// Host arguments are only prepared for a non-empty range: the start block must come
/// before the end block.
pub fn check_block_range(l2_start_block: u64, l2_end_block: u64) -> (checked: Result<(), HostArgsError>)
    ensures
        l2_start_block < l2_end_block <==> checked is Ok,
        checked is Err ==> checked == Err::<(), HostArgsError>(
            HostArgsError::InvalidBlockRange { start: l2_start_block, end: l2_end_block },
        ),
{
    if l2_start_block >= l2_end_block {
        Err(HostArgsError::InvalidBlockRange { start: l2_start_block, end: l2_end_block })
    } else {
        Ok(())
    }
}

/// The timestamp the L1 head is searched for: [`L1_HEAD_LEAD_SECONDS`] after the L2 claim
/// block's timestamp.
pub fn l1_head_target_timestamp(l2_block_timestamp: u64) -> (target: u64)
    requires
        l2_block_timestamp + L1_HEAD_LEAD_SECONDS <= u64::MAX,
    ensures
        target == l2_block_timestamp + L1_HEAD_LEAD_SECONDS,
{
    l2_block_timestamp + L1_HEAD_LEAD_SECONDS
}

pub open spec fn data_directory_text(
    workspace_root: Seq<char>,
    l2_chain_id: u64,
    l2_start_block: u64,
    l2_end_block: u64,
    multi_block: ProgramType,
) -> Seq<char> {
    match multi_block {
        ProgramType::Single => workspace_root + "/data/"@ + decimal(l2_chain_id as nat)
            + "/single/"@ + decimal(l2_end_block as nat),
        ProgramType::Multi => workspace_root + "/data/"@ + decimal(l2_chain_id as nat)
            + "/multi/"@ + decimal(l2_start_block as nat) + "-"@ + decimal(l2_end_block as nat),
    }
}

/// The Single and Multi data directories, written out: `<root>/data/<chain id>/single/<end>`
/// and `<root>/data/<chain id>/multi/<start>-<end>`, with every number in decimal. In
/// particular the Single directory depends on the end block alone, not on the start block.
pub proof fn lemma_data_directory_layout(
    workspace_root: Seq<char>,
    l2_chain_id: u64,
    l2_start_block: u64,
    l2_end_block: u64,
    other_start_block: u64,
)
    ensures
        data_directory_text(workspace_root, l2_chain_id, l2_start_block, l2_end_block, ProgramType::Single)
            =~= workspace_root + seq!['/', 'd', 'a', 't', 'a', '/'] + decimal(l2_chain_id as nat)
            + seq!['/', 's', 'i', 'n', 'g', 'l', 'e', '/'] + decimal(l2_end_block as nat),
        data_directory_text(workspace_root, l2_chain_id, l2_start_block, l2_end_block, ProgramType::Multi)
            =~= workspace_root + seq!['/', 'd', 'a', 't', 'a', '/'] + decimal(l2_chain_id as nat)
            + seq!['/', 'm', 'u', 'l', 't', 'i', '/'] + decimal(l2_start_block as nat) + seq!['-']
            + decimal(l2_end_block as nat),
        data_directory_text(workspace_root, l2_chain_id, l2_start_block, l2_end_block, ProgramType::Single)
            == data_directory_text(
            workspace_root,
            l2_chain_id,
            other_start_block,
            l2_end_block,
            ProgramType::Single,
        ),
{
    reveal_strlit("/data/");
    reveal_strlit("/single/");
    reveal_strlit("/multi/");
    reveal_strlit("-");
    assert("/data/"@ =~= seq!['/', 'd', 'a', 't', 'a', '/']);
    assert("/single/"@ =~= seq!['/', 's', 'i', 'n', 'g', 'l', 'e', '/']);
    assert("/multi/"@ =~= seq!['/', 'm', 'u', 'l', 't', 'i', '/']);
    assert("-"@ =~= seq!['-']);
}

/// The range program never shares a data directory with the single-block program: for
/// the same root and chain, no Multi directory equals any Single directory.
pub proof fn lemma_multi_and_single_directories_differ(
    workspace_root: Seq<char>,
    l2_chain_id: u64,
    single_start: u64,
    single_end: u64,
    multi_start: u64,
    multi_end: u64,
)
    ensures
        data_directory_text(workspace_root, l2_chain_id, single_start, single_end, ProgramType::Single)
            != data_directory_text(workspace_root, l2_chain_id, multi_start, multi_end, ProgramType::Multi),
{
    lemma_data_directory_layout(workspace_root, l2_chain_id, single_start, single_end, single_start);
    lemma_data_directory_layout(workspace_root, l2_chain_id, multi_start, multi_end, multi_start);
    let prefix = workspace_root + seq!['/', 'd', 'a', 't', 'a', '/'] + decimal(l2_chain_id as nat);
    let single = data_directory_text(workspace_root, l2_chain_id, single_start, single_end, ProgramType::Single);
    let multi = data_directory_text(workspace_root, l2_chain_id, multi_start, multi_end, ProgramType::Multi);
    assert(single[prefix.len() as int + 1] == 's');
    assert(multi[prefix.len() as int + 1] == 'm');
}

/// Distinct block ranges get distinct Multi data directories, and distinct end blocks get
/// distinct Single data directories (for the same root and chain).
pub proof fn lemma_data_directories_distinguish_ranges(
    workspace_root: Seq<char>,
    l2_chain_id: u64,
    start1: u64,
    end1: u64,
    start2: u64,
    end2: u64,
)
    ensures
        data_directory_text(workspace_root, l2_chain_id, start1, end1, ProgramType::Multi)
            == data_directory_text(workspace_root, l2_chain_id, start2, end2, ProgramType::Multi)
            ==> start1 == start2 && end1 == end2,
        data_directory_text(workspace_root, l2_chain_id, start1, end1, ProgramType::Single)
            == data_directory_text(workspace_root, l2_chain_id, start2, end2, ProgramType::Single)
            ==> end1 == end2,
{
    lemma_data_directory_layout(workspace_root, l2_chain_id, start1, end1, start1);
    lemma_data_directory_layout(workspace_root, l2_chain_id, start2, end2, start2);
    let prefix = workspace_root + seq!['/', 'd', 'a', 't', 'a', '/'] + decimal(l2_chain_id as nat);
    let s1 = decimal(start1 as nat);
    let s2 = decimal(start2 as nat);
    let e1 = decimal(end1 as nat);
    let e2 = decimal(end2 as nat);
    let single_prefix = prefix + seq!['/', 's', 'i', 'n', 'g', 'l', 'e', '/'];
    let single1 = data_directory_text(workspace_root, l2_chain_id, start1, end1, ProgramType::Single);
    let single2 = data_directory_text(workspace_root, l2_chain_id, start2, end2, ProgramType::Single);
    if single1 == single2 {
        assert(single1.subrange(single_prefix.len() as int, single1.len() as int) =~= e1);
        assert(single2.subrange(single_prefix.len() as int, single2.len() as int) =~= e2);
        lemma_decimal_injective(end1 as nat, end2 as nat);
    }
    let multi_prefix = prefix + seq!['/', 'm', 'u', 'l', 't', 'i', '/'];
    let multi1 = data_directory_text(workspace_root, l2_chain_id, start1, end1, ProgramType::Multi);
    let multi2 = data_directory_text(workspace_root, l2_chain_id, start2, end2, ProgramType::Multi);
    if multi1 == multi2 {
        let r1 = s1 + seq!['-'] + e1;
        let r2 = s2 + seq!['-'] + e2;
        assert(multi1.subrange(multi_prefix.len() as int, multi1.len() as int) =~= r1);
        assert(multi2.subrange(multi_prefix.len() as int, multi2.len() as int) =~= r2);
        assert(r1 == r2);
        lemma_decimal_is_digits(start1 as nat);
        lemma_decimal_is_digits(start2 as nat);
        if s1.len() < s2.len() {
            assert(r1[s1.len() as int] == '-');
            assert(r2[s1.len() as int] == s2[s1.len() as int]);
            assert(is_digit(s2[s1.len() as int]));
        } else if s2.len() < s1.len() {
            assert(r2[s2.len() as int] == '-');
            assert(r1[s2.len() as int] == s1[s2.len() as int]);
            assert(is_digit(s1[s2.len() as int]));
        }
        assert(s1 =~= r1.subrange(0, s1.len() as int));
        assert(s2 =~= r2.subrange(0, s2.len() as int));
        lemma_decimal_injective(start1 as nat, start2 as nat);
        assert(e1 =~= r1.subrange(s1.len() as int + 1, r1.len() as int));
        assert(e2 =~= r2.subrange(s2.len() as int + 1, r2.len() as int));
        lemma_decimal_injective(end1 as nat, end2 as nat);
    }
}

/// The directory the host stores its witness data in, under the workspace root:
/// `data/<chain id>/single/<end block>` for one block, or
/// `data/<chain id>/multi/<start block>-<end block>` for a range.
pub fn data_directory(
    workspace_root: &str,
    l2_chain_id: u64,
    l2_start_block: u64,
    l2_end_block: u64,
    multi_block: ProgramType,
) -> (dir: String)
    ensures
        dir@ == data_directory_text(
            workspace_root@,
            l2_chain_id,
            l2_start_block,
            l2_end_block,
            multi_block,
        ),
{
    let mut dir = String::from_str(workspace_root);
    dir.append("/data/");
    dir.append(decimal_text(l2_chain_id).as_str());
    match multi_block {
        ProgramType::Single => {
            dir.append("/single/");
            dir.append(decimal_text(l2_end_block).as_str());
        },
        ProgramType::Multi => {
            dir.append("/multi/");
            dir.append(decimal_text(l2_start_block).as_str());
            dir.append("-");
            dir.append(decimal_text(l2_end_block).as_str());
        },
    }
    dir
}

pub open spec fn exec_directory_text(workspace_root: Seq<char>, multi_block: ProgramType) -> Seq<
    char,
> {
    match multi_block {
        ProgramType::Single => workspace_root + "/target/release-client-lto/fault-proof"@,
        ProgramType::Multi => workspace_root + "/target/release-client-lto/range"@,
    }
}

/// The native program the host runs, as built with the `release-client-lto` profile:
/// `fault-proof` for one block, `range` for a range of blocks.
pub fn exec_directory(workspace_root: &str, multi_block: ProgramType) -> (dir: String)
    ensures
        dir@ == exec_directory_text(workspace_root@, multi_block),
{
    let mut dir = String::from_str(workspace_root);
    match multi_block {
        ProgramType::Single => dir.append("/target/release-client-lto/fault-proof"),
        ProgramType::Multi => dir.append("/target/release-client-lto/range"),
    }
    dir
}

/// The verbosity level given by the `VERBOSITY` setting, `0` when it is not set; `None`
/// when it is set to text that is not a `u8`.
pub fn verbosity_level(setting: Option<String>) -> (level: Option<u8>)
    ensures
        level == match setting {
            Some(s) => parsed_u8(s@),
            None => Some(0u8),
        },
{
    match setting {
        Some(s) => parse_u8(s.as_str()),
        None => Some(0),
    }
}

/// The arguments of the native host program.
#[derive(Debug, Clone)]
pub struct HostArgs {
    pub l1_head: [u8; 32],
    pub l2_output_root: [u8; 32],
    pub l2_claim: [u8; 32],
    pub l2_block_number: u64,
    pub l2_chain_id: Option<u64>,
    pub l2_head: [u8; 32],
    pub l2_node_address: Option<String>,
    pub l1_node_address: Option<String>,
    pub l1_beacon_address: Option<String>,
    pub data_dir: Option<String>,
    pub exec_path: Option<String>,
    pub server: bool,
    pub rollup_config_path: Option<String>,
    pub v: u8,
}

pub open spec fn text_of(s: Option<String>) -> Option<Seq<char>> {
    match s {
        Some(s) => Some(s@),
        None => None,
    }
}

impl<P, C> OPSuccinctDataFetcher<P, C> {
    /// The host arguments for proving the L2 blocks after `l2_start_block` up to
    /// `l2_end_block`: the output root of the start block (`l2_output`), the output root of
    /// the end block as the claim (`l2_claim_output`), the L1 head chosen for them, the L2
    /// chain, the workspace root the data and programs live under, the rollup config file
    /// and the verbosity. The host runs against this fetcher's endpoints, as a one-shot
    /// process (not a server).
    pub fn host_cli_args(
        &self,
        l2_start_block: u64,
        l2_end_block: u64,
        multi_block: ProgramType,
        l2_output: &L2Output,
        l2_claim_output: &L2Output,
        l1_head: [u8; 32],
        l2_chain_id: u64,
        workspace_root: &str,
        rollup_config_path: String,
        verbosity: u8,
    ) -> (args: HostArgs)
        ensures
            args.l1_head == l1_head,
            args.l2_output_root@ == keccak256_of(l2_output_encoding(*l2_output)),
            args.l2_claim@ == keccak256_of(l2_output_encoding(*l2_claim_output)),
            args.l2_block_number == l2_end_block,
            args.l2_chain_id == Some(l2_chain_id),
            args.l2_head == l2_output.l2_claim_hash,
            text_of(args.l2_node_address) == Some(self.rpc_config.url(RPCMode::L2Node)),
            text_of(args.l1_node_address) == Some(self.rpc_config.url(RPCMode::L1)),
            text_of(args.l1_beacon_address) == Some(self.rpc_config.url(RPCMode::L1Beacon)),
            text_of(args.data_dir) == Some(
                data_directory_text(
                    workspace_root@,
                    l2_chain_id,
                    l2_start_block,
                    l2_end_block,
                    multi_block,
                ),
            ),
            text_of(args.exec_path) == Some(exec_directory_text(workspace_root@, multi_block)),
            !args.server,
            text_of(args.rollup_config_path) == Some(rollup_config_path@),
            args.v == verbosity,
    {
        HostArgs {
            l1_head,
            l2_output_root: l2_output.root(),
            l2_claim: l2_claim_output.root(),
            l2_block_number: l2_end_block,
            l2_chain_id: Some(l2_chain_id),
            l2_head: l2_output.l2_claim_hash,
            l2_node_address: Some(self.get_rpc_url(RPCMode::L2Node)),
            l1_node_address: Some(self.get_rpc_url(RPCMode::L1)),
            l1_beacon_address: Some(self.get_rpc_url(RPCMode::L1Beacon)),
            data_dir: Some(
                data_directory(
                    workspace_root,
                    l2_chain_id,
                    l2_start_block,
                    l2_end_block,
                    multi_block,
                ),
            ),
            exec_path: Some(exec_directory(workspace_root, multi_block)),
            server: false,
            rollup_config_path: Some(rollup_config_path),
            v: verbosity,
        }
    }
}

} // verus!
