//! Per-block summaries over a range of blocks.

use vstd::prelude::*;

verus! {

/// The info to fetch for a block.
#[derive(Clone, Copy, Debug, PartialEq, Eq, Structural)]
pub struct BlockInfo {
    pub block_number: u64,
    pub transaction_count: u64,
    pub gas_used: u64,
}

/// The number of blocks in `start..=end`.
pub open spec fn range_len(start: u64, end: u64) -> int {
    if start <= end {
        end - start + 1
    } else {
        0
    }
}

impl BlockInfo {
    /// The info of block `block_number`, which holds `transaction_count` transactions and
    /// used `gas_used` gas.
    pub fn new(block_number: u64, transaction_count: usize, gas_used: u64) -> (info: BlockInfo)
        ensures
            info.block_number == block_number,
            info.transaction_count == transaction_count,
            info.gas_used == gas_used,
    {
        BlockInfo { block_number, transaction_count: transaction_count as u64, gas_used }
    }
}

/// The block data of the range `start..=end`, in block order, from the transaction count
/// and gas used of each block of the range: entry `i` describes block `start + i`.
pub fn block_data_range(start: u64, end: u64, blocks: &Vec<(usize, u64)>) -> (data: Vec<BlockInfo>)
    requires
        blocks.len() == range_len(start, end),
    ensures
        data.len() == blocks.len(),
        forall|i: int|
            0 <= i < data.len() ==> #[trigger] data@[i] == (BlockInfo {
                block_number: (start + i) as u64,
                transaction_count: blocks@[i].0 as u64,
                gas_used: blocks@[i].1,
            }),
{
    let mut data: Vec<BlockInfo> = Vec::new();
    let mut i: usize = 0;
    while i < blocks.len()
        invariant
            blocks.len() == range_len(start, end),
            i <= blocks.len(),
            data.len() == i,
            forall|j: int|
                0 <= j < i ==> #[trigger] data@[j] == (BlockInfo {
                    block_number: (start + j) as u64,
                    transaction_count: blocks@[j].0 as u64,
                    gas_used: blocks@[j].1,
                }),
        decreases blocks.len() - i,
    {
        let (transaction_count, gas_used) = blocks[i];
        data.push(BlockInfo::new(start + i as u64, transaction_count, gas_used));
        i = i + 1;
    }
    data
}

} // verus!
