//! Planning of header requests: the batches in which a range of L1 headers is fetched,
//! and the choice of the earliest L1 head among a batch of boot infos.

use vstd::prelude::*;

verus! {

/// The most headers requested at once (the node rate limits at 300 requests per second).
pub const HEADER_BATCH_SIZE: u64 = 200;

/// The pause after each batch of header requests, in milliseconds.
pub const HEADER_BATCH_PAUSE_MILLIS: u64 = 1500;

/// An inclusive range of block numbers whose headers are requested together.
#[derive(Clone, Copy, Debug, PartialEq, Eq, Structural)]
pub struct HeaderBatch {
    pub first: u64,
    pub last: u64,
}

/// The number of batches that cover `start..=end`.
pub open spec fn batch_count(start: int, end: int) -> int {
    (end - start) / (HEADER_BATCH_SIZE as int) + 1
}

/// The first block of batch `k`.
pub open spec fn batch_first(start: int, k: int) -> int {
    start + (HEADER_BATCH_SIZE as int) * k
}

/// The last block of batch `k`: a full batch, cut at `end`.
pub open spec fn batch_last(start: int, end: int, k: int) -> int {
    let full = batch_first(start, k) + HEADER_BATCH_SIZE - 1;
    if full < end {
        full
    } else {
        end
    }
}

/// The batch that holds block `n`.
pub open spec fn batch_of(start: int, n: int) -> int {
    (n - start) / (HEADER_BATCH_SIZE as int)
}

/// The batches of `start..=end` are computed in 64-bit block numbers: the range is not
/// empty, and stepping one batch past the last batch's first block does not overflow.
pub open spec fn batches_fit(start: u64, end: u64) -> bool {
    &&& start <= end
    &&& batch_first(start as int, batch_count(start as int, end as int) - 1) + HEADER_BATCH_SIZE
        <= u64::MAX
}

proof fn lemma_batch_index_bound(start: int, end: int, k: int)
    requires
        0 <= start <= end,
        0 <= k,
    ensures
        batch_first(start, k) <= end <==> k < batch_count(start, end),
{
    let q = (end - start) / 200;
    assert(200 * q <= end - start < 200 * q + 200) by (nonlinear_arith)
        requires
            q == (end - start) / 200,
            end - start >= 0,
    ;
    if k < q + 1 {
        assert(200 * k <= 200 * q) by (nonlinear_arith)
            requires
                k <= q,
        ;
    } else {
        assert(200 * k >= 200 * (q + 1)) by (nonlinear_arith)
            requires
                k >= q + 1,
        ;
    }
}

/// Whether the batches of `start..=end` can be planned (see [`batches_fit`]).
pub fn header_batches_fit(start: u64, end: u64) -> (fits: bool)
    ensures
        fits == batches_fit(start, end),
{
    if start > end {
        return false;
    }
    let full_batches = (end - start) / HEADER_BATCH_SIZE;
    assert(HEADER_BATCH_SIZE * full_batches <= end - start) by (nonlinear_arith)
        requires
            full_batches == (end - start) / 200,
            end >= start,
    ;
    let last_first = start + HEADER_BATCH_SIZE * full_batches;
    last_first <= u64::MAX - HEADER_BATCH_SIZE
}

/// Whether the headers of a range can be fetched depends only on 64-bit overflow, never on
/// the length of the range: every non-empty range that ends at least one batch below
/// `u64::MAX` fits, however long; a range fits exactly when it is non-empty and stepping
/// one batch past the first block of its last batch (the largest `start + 200 * k` not past
/// `end`) stays within `u64`; and a range that fits is non-empty and ends below `u64::MAX`.
pub proof fn lemma_batches_fit_only_limits_overflow(start: u64, end: u64)
    ensures
        start <= end && end as int + HEADER_BATCH_SIZE <= u64::MAX ==> batches_fit(start, end),
        batches_fit(start, end) <==> start <= end && start + 200 * ((end - start) / 200) + 200
            <= u64::MAX,
        batches_fit(start, end) ==> start <= end && end < u64::MAX,
{
    if start <= end {
        let q = (end - start) / 200;
        assert(200 * q <= end - start < 200 * q + 200) by (nonlinear_arith)
            requires
                q == (end - start) / 200,
                end - start >= 0,
        ;
        assert(batch_first(start as int, batch_count(start as int, end as int) - 1) == start + 200
            * q);
    }
}

/// The batches in which the headers of `start..=end` are fetched, in order: batch `k`
/// starts at `start + 200 * k` and holds 200 blocks, the last one cut at `end`.
pub fn header_batches(start: u64, end: u64) -> (batches: Vec<HeaderBatch>)
    requires
        batches_fit(start, end),
    ensures
        batches.len() == batch_count(start as int, end as int),
        forall|k: int|
            0 <= k < batches.len() ==> #[trigger] batches@[k] == (HeaderBatch {
                first: batch_first(start as int, k) as u64,
                last: batch_last(start as int, end as int, k) as u64,
            }),
{
    let ghost count = batch_count(start as int, end as int);
    let mut batches: Vec<HeaderBatch> = Vec::new();
    let mut block_number: u64 = start;
    while block_number <= end
        invariant
            batches_fit(start, end),
            count == batch_count(start as int, end as int),
            block_number == batch_first(start as int, batches.len() as int),
            batches.len() <= count,
            forall|k: int|
                0 <= k < batches.len() ==> #[trigger] batches@[k] == (HeaderBatch {
                    first: batch_first(start as int, k) as u64,
                    last: batch_last(start as int, end as int, k) as u64,
                }),
        decreases end - block_number + HEADER_BATCH_SIZE,
    {
        proof {
            lemma_batch_index_bound(start as int, end as int, batches.len() as int);
            assert(batches.len() <= count - 1);
            assert(batch_first(start as int, batches.len() as int) <= batch_first(
                start as int,
                count - 1,
            )) by (nonlinear_arith)
                requires
                    batches.len() <= count - 1,
            ;
        }
        let batch_end = block_number + HEADER_BATCH_SIZE - 1;
        let last = if batch_end < end {
            batch_end
        } else {
            end
        };
        batches.push(HeaderBatch { first: block_number, last });
        block_number = block_number + HEADER_BATCH_SIZE;
    }
    proof {
        lemma_batch_index_bound(start as int, end as int, batches.len() as int);
    }
    assert(batches.len() == count);
    batches
}

/// The batches of `start..=end` cover exactly that range, in order and without overlap:
/// the first starts at `start`, the last ends at `end`, each one begins right after the
/// one before, none is empty, none holds more than [`HEADER_BATCH_SIZE`] blocks, and
/// block `n` lies in batch `(n - start) / 200`.
pub proof fn lemma_batches_partition_range(start: u64, end: u64)
    requires
        start <= end,
    ensures
        batch_first(start as int, 0) == start,
        batch_last(start as int, end as int, batch_count(start as int, end as int) - 1) == end,
        forall|k: int|
            0 <= k < batch_count(start as int, end as int) - 1 ==> #[trigger] batch_last(
                start as int,
                end as int,
                k,
            ) + 1 == batch_first(start as int, k + 1),
        forall|k: int|
            0 <= k < batch_count(start as int, end as int) ==> batch_first(start as int, k)
                <= #[trigger] batch_last(start as int, end as int, k) < batch_first(
                start as int,
                k,
            ) + HEADER_BATCH_SIZE,
        forall|n: int|
            start <= n <= end ==> {
                &&& 0 <= #[trigger] batch_of(start as int, n) < batch_count(start as int, end as int)
                &&& batch_first(start as int, batch_of(start as int, n)) <= n <= batch_last(
                    start as int,
                    end as int,
                    batch_of(start as int, n),
                )
            },
{
    let s = start as int;
    let e = end as int;
    let count = batch_count(s, e);
    lemma_batch_index_bound(s, e, count - 1);
    lemma_batch_index_bound(s, e, count);
    assert forall|k: int| 0 <= k < count - 1 implies #[trigger] batch_last(s, e, k) + 1
        == batch_first(s, k + 1) by {
        lemma_batch_index_bound(s, e, k + 1);
    }
    assert forall|k: int| 0 <= k < count implies batch_first(s, k) <= #[trigger] batch_last(
        s,
        e,
        k,
    ) < batch_first(s, k) + HEADER_BATCH_SIZE by {
        lemma_batch_index_bound(s, e, k);
    }
    assert forall|n: int| s <= n <= e implies {
        &&& 0 <= #[trigger] batch_of(s, n) < count
        &&& batch_first(s, batch_of(s, n)) <= n <= batch_last(s, e, batch_of(s, n))
    } by {
        let k = batch_of(s, n);
        assert(200 * k <= n - s < 200 * k + 200 && 0 <= k) by (nonlinear_arith)
            requires
                k == (n - s) / 200,
                n - s >= 0,
        ;
        lemma_batch_index_bound(s, e, k);
    }
}

/// `numbers[index]` is the earliest block number below `u64::MAX`, and no earlier entry
/// has it.
pub open spec fn is_first_earliest(numbers: Seq<u64>, index: int) -> bool {
    &&& 0 <= index < numbers.len()
    &&& numbers[index] < u64::MAX
    &&& forall|j: int| 0 <= j < numbers.len() ==> numbers[index] <= numbers[j]
    &&& forall|j: int| 0 <= j < index ==> numbers[index] < numbers[j]
}

/// The position of the earliest L1 head among the block numbers of the L1 heads of a batch
/// of boot infos: the first one with the smallest number. There is none when the batch is
/// empty or every number is `u64::MAX`.
pub fn earliest_l1_head_index(numbers: &Vec<u64>) -> (index: Option<usize>)
    ensures
        match index {
            Some(i) => is_first_earliest(numbers@, i as int),
            None => forall|j: int| 0 <= j < numbers.len() ==> numbers[j] == u64::MAX,
        },
{
    let mut earliest_block_num: u64 = u64::MAX;
    let mut earliest: Option<usize> = None;
    let mut i: usize = 0;
    while i < numbers.len()
        invariant
            i <= numbers.len(),
            match earliest {
                Some(k) => {
                    &&& k < i
                    &&& earliest_block_num == numbers[k as int]
                    &&& earliest_block_num < u64::MAX
                    &&& forall|j: int| 0 <= j < i ==> earliest_block_num <= numbers[j]
                    &&& forall|j: int| 0 <= j < k ==> earliest_block_num < numbers[j]
                },
                None => {
                    &&& earliest_block_num == u64::MAX
                    &&& forall|j: int| 0 <= j < i ==> numbers[j] == u64::MAX
                },
            },
        decreases numbers.len() - i,
    {
        if numbers[i] < earliest_block_num {
            earliest_block_num = numbers[i];
            earliest = Some(i);
        }
        i = i + 1;
    }
    earliest
}

} // verus!
