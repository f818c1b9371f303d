//! What the RPC client decides by itself: how program data is cut into the
//! chunks that are written one transaction each, how the local cluster is
//! polled until it runs, and the printing interface of transaction results.
use vstd::prelude::*;

verus! {

/// The number of bytes of program data written by one transaction.
pub const PROGRAM_DATA_CHUNK_SIZE: usize = 900;

/// The delay between two health checks of the local cluster, in milliseconds.
pub const RETRY_LOCALNET_EVERY_MILLIS: u64 = 500;

/// A piece of data to write at `offset` of an account.
pub struct DataChunk {
    pub offset: usize,
    pub bytes: Vec<u8>,
}

/// The end of a chunk in the data.
pub open spec fn chunk_end(c: DataChunk) -> int {
    c.offset + c.bytes@.len()
}

/// `chunks` cuts `data` into consecutive pieces: the first starts at 0, each
/// starts where the previous one ends, all but the last have `size` bytes,
/// the last has between 1 and `size` bytes and ends with the data, and each
/// holds the bytes of the data at its place. Empty data has no chunks.
pub open spec fn chunked(data: Seq<u8>, size: nat, chunks: Seq<DataChunk>) -> bool {
    &&& (chunks.len() == 0 <==> data.len() == 0)
    &&& chunks.len() > 0 ==> chunks[0].offset == 0
    &&& forall|i: int|
        0 <= i < chunks.len() - 1 ==> #[trigger] chunks[i + 1].offset == chunk_end(chunks[i])
    &&& forall|i: int| 0 <= i < chunks.len() - 1 ==> (#[trigger] chunks[i]).bytes@.len() == size
    &&& chunks.len() > 0 ==> 0 < chunks.last().bytes@.len() <= size && chunk_end(chunks.last())
        == data.len()
    &&& forall|i: int| 0 <= i < chunks.len() ==> chunk_end(#[trigger] chunks[i]) <= data.len()
    &&& forall|i: int|
        0 <= i < chunks.len() ==> (#[trigger] chunks[i]).bytes@ == data.subrange(
            chunks[i].offset as int,
            chunk_end(chunks[i]),
        )
}

/// The bytes of the chunks, one after another.
pub open spec fn chunks_concat(chunks: Seq<DataChunk>) -> Seq<u8>
    decreases chunks.len(),
{
    if chunks.len() == 0 {
        Seq::empty()
    } else {
        chunks_concat(chunks.drop_last()) + chunks.last().bytes@
    }
}

/// Cuts `data` into the chunks that are written one transaction each, in the
/// order of the data, `chunk_size` bytes each but the last.
pub fn data_chunks(data: &Vec<u8>, chunk_size: usize) -> (chunks: Vec<DataChunk>)
    requires
        chunk_size > 0,
    ensures
        chunked(data@, chunk_size as nat, chunks@),
{
    let n = data.len();
    let mut chunks: Vec<DataChunk> = Vec::new();
    let mut offset: usize = 0;
    while offset < n
        invariant
            n == data@.len(),
            chunk_size > 0,
            offset <= n,
            chunks@.len() == 0 <==> offset == 0,
            chunks@.len() > 0 ==> chunks@[0].offset == 0,
            chunks@.len() > 0 ==> chunk_end(chunks@.last()) == offset,
            forall|i: int|
                0 <= i < chunks@.len() - 1 ==> #[trigger] chunks@[i + 1].offset == chunk_end(
                    chunks@[i],
                ),
            forall|i: int| 0 <= i < chunks@.len() ==> (#[trigger] chunks@[i]).bytes@.len() == chunk_size,
            forall|i: int| 0 <= i < chunks@.len() ==> chunk_end(#[trigger] chunks@[i]) <= offset,
            forall|i: int|
                0 <= i < chunks@.len() ==> (#[trigger] chunks@[i]).bytes@ == data@.subrange(
                    chunks@[i].offset as int,
                    chunk_end(chunks@[i]),
                ),
        decreases n - offset,
    {
        let end = if n - offset > chunk_size {
            offset + chunk_size
        } else {
            n
        };
        let mut bytes: Vec<u8> = Vec::new();
        let mut j = offset;
        while j < end
            invariant
                offset <= j <= end <= n,
                n == data@.len(),
                bytes@ == data@.subrange(offset as int, j as int),
            decreases end - j,
        {
            bytes.push(data[j]);
            assert(data@.subrange(offset as int, j + 1) =~= data@.subrange(offset as int, j as int).push(data@[j as int]));
            j = j + 1;
        }
        let ghost before = chunks@;
        chunks.push(DataChunk { offset, bytes });
        if end < n {
            assert forall|i: int| 0 <= i < chunks@.len() implies (#[trigger] chunks@[i]).bytes@.len() == chunk_size by {
                if i < before.len() {
                    assert(chunks@[i] == before[i]);
                }
            }
        } else {
            // The data ends with this chunk; the loop stops.
            assert(chunks@.last().bytes@.len() <= chunk_size);
            assert(0 < chunks@.last().bytes@.len());
            assert(forall|i: int| 0 <= i < chunks@.len() - 1 ==> #[trigger] chunks@[i] == before[i]);
            assert(chunked(data@, chunk_size as nat, chunks@));
            return chunks;
        }
        assert forall|i: int| 0 <= i < chunks@.len() - 1 implies #[trigger] chunks@[i + 1].offset == chunk_end(chunks@[i]) by {
            if i + 1 < before.len() {
                assert(chunks@[i] == before[i]);
                assert(chunks@[i + 1] == before[i + 1]);
            } else {
                assert(chunks@[i] == before[i]);
            }
        }
        offset = end;
    }
    chunks
}

/// The chunks of data, written one after another at their offsets, give back
/// the data: nothing is lost, repeated or moved.
pub proof fn lemma_chunks_cover_data(data: Seq<u8>, size: nat, chunks: Seq<DataChunk>)
    requires
        chunked(data, size, chunks),
    ensures
        chunks_concat(chunks) == data,
{
    if chunks.len() > 0 {
        lemma_chunks_prefix(data, size, chunks, chunks.len() as int);
        assert(chunks.take(chunks.len() as int) =~= chunks);
        assert(data.take(data.len() as int) =~= data);
    } else {
        assert(data =~= Seq::<u8>::empty());
    }
}

proof fn lemma_chunks_prefix(data: Seq<u8>, size: nat, chunks: Seq<DataChunk>, k: int)
    requires
        chunked(data, size, chunks),
        0 < k <= chunks.len(),
    ensures
        chunks_concat(chunks.take(k)) == data.take(chunk_end(chunks[k - 1])),
    decreases k,
{
    let prefix = chunks.take(k);
    assert(prefix.drop_last() =~= chunks.take(k - 1));
    assert(prefix.last() == chunks[k - 1]);
    if k == 1 {
        assert(chunks.take(0) =~= Seq::<DataChunk>::empty());
        assert(data.take(chunk_end(chunks[0])) =~= data.subrange(0, chunk_end(chunks[0])));
        assert(chunks_concat(chunks.take(0)) == Seq::<u8>::empty());
        assert(chunks_concat(prefix) =~= Seq::<u8>::empty() + chunks[0].bytes@);
    } else {
        lemma_chunks_prefix(data, size, chunks, k - 1);
        let i = k - 2;
        assert(chunks[i + 1].offset == chunk_end(chunks[i]));
        assert(data.take(chunk_end(chunks[k - 1])) =~= data.take(chunk_end(chunks[k - 2])) + data.subrange(
            chunks[k - 1].offset as int,
            chunk_end(chunks[k - 1]),
        ));
    }
}

/// How many health checks of the local cluster are made: with `retry`, as
/// many as fit into the startup timeout at one check per
/// `RETRY_LOCALNET_EVERY_MILLIS`; without, one.
pub open spec fn health_checks(retry: bool, startup_timeout_millis: u64) -> nat {
    if retry {
        (startup_timeout_millis / RETRY_LOCALNET_EVERY_MILLIS) as nat
    } else {
        1
    }
}

/// Returns how many health checks of the local cluster are made before it is
/// given up.
pub fn localnet_health_checks(retry: bool, startup_timeout_millis: u64) -> (n: u64)
    ensures
        n == health_checks(retry, startup_timeout_millis),
{
    if retry {
        startup_timeout_millis / RETRY_LOCALNET_EVERY_MILLIS
    } else {
        1
    }
}

/// With `retry`, the checks of a poll, one per `RETRY_LOCALNET_EVERY_MILLIS`,
/// fill the startup timeout: their waits add up to at most the timeout, and
/// one more check would not fit.
pub proof fn lemma_health_checks_fill_timeout(startup_timeout_millis: u64)
    ensures
        health_checks(true, startup_timeout_millis) * RETRY_LOCALNET_EVERY_MILLIS
            <= startup_timeout_millis,
        startup_timeout_millis < (health_checks(true, startup_timeout_millis) + 1)
            * RETRY_LOCALNET_EVERY_MILLIS,
{
    let t = startup_timeout_millis as int;
    let q = t / 500;
    assert(q * 500 <= t < (q + 1) * 500) by (nonlinear_arith)
        requires
            t >= 0,
            q == t / 500,
    ;
}

/// What a poll of the local cluster does next.
#[derive(PartialEq, Eq, Structural, Clone, Copy, Debug)]
pub enum PollAction {
    /// Check the health of the cluster and report whether it answered.
    CheckHealth,
    /// Wait this many milliseconds, then ask for the next action.
    Wait(u64),
    /// The poll is over: whether the cluster is running.
    Done(bool),
}

/// A poll of the local cluster, which finds out whether it is running: it
/// checks its health up to a number of times, waiting between the checks
/// when it retries, and stops at the first check that is answered.
pub struct LocalnetPoll {
    retry: bool,
    checks_left: u64,
}

/// The action once a check is over and the cluster did not answer, or before
/// the first check: another check while checks are left, else the end with
/// the cluster not running.
pub open spec fn next_poll_action(checks_left: u64) -> PollAction {
    if checks_left > 0 {
        PollAction::CheckHealth
    } else {
        PollAction::Done(false)
    }
}

impl LocalnetPoll {
    /// Whether the poll waits between the checks.
    pub closed spec fn retries(&self) -> bool {
        self.retry
    }

    /// How many health checks the poll may still make.
    pub closed spec fn checks_left(&self) -> u64 {
        self.checks_left
    }

    /// Starts a poll; with `retry`, it makes as many checks as fit into the
    /// startup timeout, one every `RETRY_LOCALNET_EVERY_MILLIS`; without, one.
    pub fn new(retry: bool, startup_timeout_millis: u64) -> (poll: Self)
        ensures
            poll.retries() == retry,
            poll.checks_left() == health_checks(retry, startup_timeout_millis),
    {
        LocalnetPoll { retry, checks_left: localnet_health_checks(retry, startup_timeout_millis) }
    }

    /// The action at the start of the poll and after a wait.
    pub fn next_action(&self) -> (action: PollAction)
        ensures
            action == next_poll_action(self.checks_left()),
    {
        if self.checks_left > 0 {
            PollAction::CheckHealth
        } else {
            PollAction::Done(false)
        }
    }

    /// The action after a health check, which found the cluster `healthy` or
    /// not: a healthy cluster ends the poll; otherwise the check is used up,
    /// and the poll waits before going on when it retries.
    pub fn after_check(&mut self, healthy: bool) -> (action: PollAction)
        requires
            old(self).checks_left() > 0,
        ensures
            final(self).retries() == old(self).retries(),
            healthy ==> action == PollAction::Done(true) && final(self).checks_left()
                == old(self).checks_left(),
            !healthy ==> final(self).checks_left() == old(self).checks_left() - 1,
            !healthy && old(self).retries() ==> action == PollAction::Wait(
                RETRY_LOCALNET_EVERY_MILLIS,
            ),
            !healthy && !old(self).retries() ==> action == next_poll_action(
                final(self).checks_left(),
            ),
    {
        if healthy {
            return PollAction::Done(true);
        }
        self.checks_left = self.checks_left - 1;
        if self.retry {
            PollAction::Wait(RETRY_LOCALNET_EVERY_MILLIS)
        } else {
            self.next_action()
        }
    }
}

/// Utility trait for printing transaction results.
pub trait PrintableTransaction {
    /// Pretty print the transaction results, tagged with the given name for
    /// distinguishability.
    fn print_named(&self, name: &str);

    /// Pretty print the transaction results.
    fn print(&self) {
        self.print_named("");
    }
}

} // verus!
