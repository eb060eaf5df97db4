//! The ids of a search and their split over the workers.

use crate::country::CountryCode;
use crate::error::ConfigurationError;
use crate::models::WorkerRequest;
use vstd::prelude::*;

verus! {

/// The ids `start`, `start + 1`, ..., `end`. A range with `start > end` holds
/// no id.
#[derive(Clone, Copy, Debug, PartialEq, Eq, Structural)]
pub struct IdRange {
    pub start: u32,
    pub end: u32,
}

impl IdRange {
    /// The range from `start` to `end`, both included.
    pub fn new(start: u32, end: u32) -> (range: IdRange)
        ensures
            range == (IdRange { start, end }),
    {
        IdRange { start, end }
    }

    /// How many ids the range holds.
    pub open spec fn count(self) -> nat {
        if self.start <= self.end {
            (self.end - self.start + 1) as nat
        } else {
            0
        }
    }

    /// The ids of the range, in increasing order.
    pub open spec fn ids(self) -> Seq<u32> {
        Seq::new(self.count(), |i: int| (self.start + i) as u32)
    }
}

/// The ids from `start` to `end`, in increasing order.
pub open spec fn id_seq(start: u32, end: u32) -> Seq<u32> {
    (IdRange { start, end }).ids()
}

/// Build the list of ids from the start value to the end value.
pub fn build_data(start: u32, end: u32) -> (data: Vec<u32>)
    ensures
        data@ == id_seq(start, end),
{
    let mut data: Vec<u32> = Vec::new();
    if start > end {
        assert(data@ =~= id_seq(start, end));
        return data;
    }
    let mut n: u32 = start;
    while n < end
        invariant
            start <= n <= end,
            data@.len() == n - start,
            forall|i: int| 0 <= i < data@.len() ==> data@[i] == start + i,
        decreases end - n,
    {
        data.push(n);
        n += 1;
    }
    data.push(end);
    assert(data@ =~= id_seq(start, end));
    data
}

/// The size of every chunk but the last, when `len` ids go to `workers`
/// workers: the whole part of `len / workers`, and 1 where that is 0.
pub open spec fn chunk_size(len: nat, workers: nat) -> nat
    recommends
        workers >= 1,
{
    if len / workers == 0 {
        1
    } else {
        len / workers
    }
}

/// The number of chunks: one for each worker, or, where there are fewer ids
/// than workers, one for each id.
pub open spec fn chunk_count(len: nat, workers: nat) -> nat
    recommends
        workers >= 1,
{
    if len / workers == 0 {
        len
    } else {
        workers
    }
}

/// Where chunk `i` starts in the list of ids.
pub open spec fn chunk_start(len: nat, workers: nat, i: int) -> int {
    i * chunk_size(len, workers)
}

/// Where chunk `i` ends in the list of ids (the index after its last id): the
/// last chunk runs to the end of the list and so takes what the division left
/// over.
pub open spec fn chunk_end(len: nat, workers: nat, i: int) -> int {
    if i + 1 == chunk_count(len, workers) {
        len as int
    } else {
        (i + 1) * chunk_size(len, workers)
    }
}

/// Chunk `i` of `ids` for `workers` workers.
pub open spec fn chunk(ids: Seq<u32>, workers: nat, i: int) -> Seq<u32> {
    ids.subrange(chunk_start(ids.len(), workers, i), chunk_end(ids.len(), workers, i))
}

/// The chunks of `ids` for `workers` workers, in order.
pub open spec fn partition_spec(ids: Seq<u32>, workers: nat) -> Seq<Seq<u32>> {
    Seq::new(chunk_count(ids.len(), workers), |i: int| chunk(ids, workers, i))
}

/// Every chunk lies within the list, and each starts where the one before
/// it ended.
pub proof fn lemma_chunk_bounds(len: nat, workers: nat, i: int)
    requires
        workers >= 1,
        0 <= i < chunk_count(len, workers),
    ensures
        0 <= chunk_start(len, workers, i) <= chunk_end(len, workers, i) <= len,
        chunk_end(len, workers, i) - chunk_start(len, workers, i) >= chunk_size(len, workers),
        i + 1 < chunk_count(len, workers) ==> chunk_end(len, workers, i) == chunk_start(
            len,
            workers,
            i + 1,
        ),
        i + 1 < chunk_count(len, workers) ==> chunk_end(len, workers, i) == chunk_start(
            len,
            workers,
            i,
        ) + chunk_size(len, workers),
        chunk_start(len, workers, 0) == 0,
{
    let size = chunk_size(len, workers) as int;
    let count = chunk_count(len, workers) as int;
    let q = (len / workers) as int;
    assert(count * size <= len) by (nonlinear_arith)
        requires
            workers >= 1,
            q == (len / workers) as int,
            q == 0 ==> size == 1 && count == len,
            q != 0 ==> size == q && count == workers,
    {
        if q != 0 {
            assert(workers * (len / workers) <= len);
        }
    }
    assert((i + 1) * size <= count * size && i * size + size == (i + 1) * size && 0 <= i * size)
        by (nonlinear_arith)
        requires
            0 <= i,
            i + 1 <= count,
            size >= 1,
    ;
}

/// Split the ids of `range` over `worker_count` workers of `country_code`.
///
/// The ids are cut, in order, into `worker_count` chunks of
/// `len / worker_count` ids each, and the last chunk also takes the ids that
/// the division leaves over. Where there are fewer ids than workers, each id
/// is a chunk of its own. No worker at all is refused.
pub fn partition(country_code: CountryCode, range: IdRange, worker_count: usize) -> (r: Result<
    Vec<WorkerRequest>,
    ConfigurationError,
>)
    ensures
        worker_count == 0 <==> r is Err,
        r matches Err(e) ==> e == ConfigurationError::NoWorkers,
        r matches Ok(requests) ==> {
            &&& range.count() <= usize::MAX
            &&& requests@.len() == chunk_count(range.count(), worker_count as nat)
            &&& forall|i: int|
                0 <= i < requests@.len() ==> (#[trigger] requests@[i]).country_code
                    == country_code && requests@[i].data@ == chunk(
                    range.ids(),
                    worker_count as nat,
                    i,
                )
            &&& chunks_of(requests@) == partition_spec(range.ids(), worker_count as nat)
        },
{
    if worker_count == 0 {
        return Err(ConfigurationError::NoWorkers);
    }
    let data = build_data(range.start, range.end);
    let len = data.len();
    let ghost ids = range.ids();
    let ghost workers = worker_count as nat;
    let base = len / worker_count;
    let size: usize = if base == 0 {
        1
    } else {
        base
    };
    let count: usize = if base == 0 {
        len
    } else {
        worker_count
    };
    assert(size == chunk_size(ids.len(), workers));
    assert(count == chunk_count(ids.len(), workers));
    let mut requests: Vec<WorkerRequest> = Vec::new();
    let mut i: usize = 0;
    let mut lo: usize = 0;
    while i < count
        invariant
            workers >= 1,
            data@ == ids,
            len == ids.len(),
            size == chunk_size(ids.len(), workers),
            count == chunk_count(ids.len(), workers),
            0 <= i <= count,
            requests@.len() == i,
            i < count ==> lo == chunk_start(ids.len(), workers, i as int),
            forall|k: int|
                0 <= k < i ==> (#[trigger] requests@[k]).country_code == country_code
                    && requests@[k].data@ == chunk(ids, workers, k),
        decreases count - i,
    {
        proof {
            lemma_chunk_bounds(ids.len(), workers, i as int);
        }
        let hi: usize = if i + 1 == count {
            len
        } else {
            lo + size
        };
        assert(hi == chunk_end(ids.len(), workers, i as int));
        let mut part: Vec<u32> = Vec::new();
        let mut j: usize = lo;
        while j < hi
            invariant
                lo <= j <= hi <= len,
                len == data@.len(),
                part@ == data@.subrange(lo as int, j as int),
            decreases hi - j,
        {
            part.push(data[j]);
            assert(part@ =~= data@.subrange(lo as int, j + 1));
            j += 1;
        }
        requests.push(WorkerRequest::new(country_code, part));
        i += 1;
        lo = hi;
    }
    proof {
        assert(chunks_of(requests@) =~= partition_spec(ids, workers));
    }
    Ok(requests)
}

/// The ids of each request of `requests`, in order.
pub open spec fn chunks_of(requests: Seq<WorkerRequest>) -> Seq<Seq<u32>> {
    Seq::new(requests.len(), |i: int| requests[i].data@)
}

/// What the first `k` chunks hold, one after the other, is what the list
/// holds up to the start of chunk `k`.
proof fn lemma_flatten_prefix(ids: Seq<u32>, workers: nat, k: int)
    requires
        workers >= 1,
        0 <= k <= chunk_count(ids.len(), workers),
    ensures
        partition_spec(ids, workers).take(k).flatten() == ids.subrange(
            0,
            if k == chunk_count(ids.len(), workers) {
                ids.len() as int
            } else {
                chunk_start(ids.len(), workers, k)
            },
        ),
    decreases k,
{
    let parts = partition_spec(ids, workers);
    let count = chunk_count(ids.len(), workers) as int;
    if k == 0 {
        assert(parts.take(0) =~= Seq::<Seq<u32>>::empty());
        if count == 0 {
            assert(ids.subrange(0, ids.len() as int) =~= Seq::<u32>::empty());
        } else {
            lemma_chunk_bounds(ids.len(), workers, 0);
            assert(ids.subrange(0, 0) =~= Seq::<u32>::empty());
        }
        assert(parts.take(0).flatten() =~= Seq::<u32>::empty());
    } else {
        lemma_flatten_prefix(ids, workers, k - 1);
        lemma_chunk_bounds(ids.len(), workers, k - 1);
        if k < count {
            lemma_chunk_bounds(ids.len(), workers, k);
        }
        let lo = chunk_start(ids.len(), workers, k - 1);
        let hi = chunk_end(ids.len(), workers, k - 1);
        assert(parts.take(k) =~= parts.take(k - 1).push(chunk(ids, workers, k - 1)));
        parts.take(k - 1).lemma_flatten_push(chunk(ids, workers, k - 1));
        assert(ids.subrange(0, lo) + ids.subrange(lo, hi) =~= ids.subrange(0, hi));
    }
}

/// The chunks, taken one after the other, are the list of ids itself: every
/// id of the list stands in the chunks, at its own place and nowhere else.
pub proof fn lemma_partition_is_exact(ids: Seq<u32>, workers: nat)
    requires
        workers >= 1,
    ensures
        partition_spec(ids, workers).flatten() == ids,
{
    let parts = partition_spec(ids, workers);
    lemma_flatten_prefix(ids, workers, parts.len() as int);
    assert(parts.take(parts.len() as int) =~= parts);
    assert(ids.subrange(0, ids.len() as int) =~= ids);
}

/// The ids of a range are those from its start to its end, each once.
pub proof fn lemma_range_ids(range: IdRange)
    ensures
        range.ids().no_duplicates(),
        forall|id: u32| range.ids().contains(id) <==> range.start <= id <= range.end,
{
    let ids = range.ids();
    assert forall|id: u32| range.start <= id <= range.end implies ids.contains(id) by {
        assert(ids[id - range.start] == id);
    }
}

/// Chunks lie one after the other: a later chunk starts where an earlier
/// one has ended, or after it.
pub proof fn lemma_chunks_in_order(len: nat, workers: nat, i: int, j: int)
    requires
        workers >= 1,
        0 <= i < j < chunk_count(len, workers),
    ensures
        chunk_end(len, workers, i) <= chunk_start(len, workers, j),
{
    let size = chunk_size(len, workers) as int;
    assert((i + 1) * size <= j * size) by (nonlinear_arith)
        requires
            i + 1 <= j,
            size >= 0,
    ;
}

/// The place in the list of an id that stands in chunk `i` lies within the
/// bounds of that chunk.
proof fn lemma_place_of_id(range: IdRange, workers: nat, id: u32, i: int)
    requires
        workers >= 1,
        0 <= i < chunk_count(range.count(), workers),
        chunk(range.ids(), workers, i).contains(id),
    ensures
        range.start <= id <= range.end,
        chunk_start(range.count(), workers, i) <= id - range.start < chunk_end(
            range.count(),
            workers,
            i,
        ),
{
    let ids = range.ids();
    let part = chunk(ids, workers, i);
    lemma_chunk_bounds(ids.len(), workers, i);
    let k = choose|k: int| 0 <= k < part.len() && part[k] == id;
    assert(part[k] == ids[chunk_start(ids.len(), workers, i) + k]);
}

/// Every id of a range stands in one chunk of the partition, and in no
/// other.
pub proof fn lemma_id_in_one_chunk(range: IdRange, workers: nat, id: u32)
    requires
        workers >= 1,
        range.start <= id <= range.end,
    ensures
        exists|i: int|
            0 <= i < chunk_count(range.count(), workers) && #[trigger] chunk(
                range.ids(),
                workers,
                i,
            ).contains(id),
        forall|i: int, j: int|
            0 <= i < chunk_count(range.count(), workers) && 0 <= j < chunk_count(
                range.count(),
                workers,
            ) && #[trigger] chunk(range.ids(), workers, i).contains(id) && #[trigger] chunk(
                range.ids(),
                workers,
                j,
            ).contains(id) ==> i == j,
{
    let ids = range.ids();
    let len = ids.len();
    let size = chunk_size(len, workers) as int;
    let count = chunk_count(len, workers) as int;
    let place = id - range.start;
    assert(count >= 1);
    let q = place / size;
    let i = if q >= count - 1 {
        count - 1
    } else {
        q
    };
    lemma_chunk_bounds(len, workers, i);
    assert(q * size <= place < (q + 1) * size) by (nonlinear_arith)
        requires
            q == place / size,
            size >= 1,
            place >= 0,
    ;
    assert(i * size <= q * size) by (nonlinear_arith)
        requires
            0 <= i <= q,
            size >= 1,
    ;
    let lo = chunk_start(len, workers, i);
    let hi = chunk_end(len, workers, i);
    assert(lo <= place < hi);
    assert(chunk(ids, workers, i)[place - lo] == id);
    assert(chunk(ids, workers, i).contains(id));
    assert forall|a: int, b: int|
        0 <= a < count && 0 <= b < count && #[trigger] chunk(ids, workers, a).contains(id)
            && #[trigger] chunk(ids, workers, b).contains(id) implies a == b by {
        lemma_place_of_id(range, workers, id, a);
        lemma_place_of_id(range, workers, id, b);
        if a < b {
            lemma_chunks_in_order(len, workers, a, b);
        }
        if b < a {
            lemma_chunks_in_order(len, workers, b, a);
        }
    }
}

/// For every range and every number of workers from one up, the chunks of
/// the partition hold every id of the range exactly once: nothing is left
/// out, nothing comes twice.
pub proof fn lemma_partition_covers_range(range: IdRange, workers: nat)
    requires
        workers >= 1,
    ensures
        partition_spec(range.ids(), workers).flatten() == range.ids(),
        partition_spec(range.ids(), workers).flatten().no_duplicates(),
        forall|id: u32|
            partition_spec(range.ids(), workers).flatten().contains(id) <==> range.start <= id
                <= range.end,
{
    lemma_partition_is_exact(range.ids(), workers);
    lemma_range_ids(range);
}

} // verus!
