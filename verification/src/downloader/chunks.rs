//! Splitting a file into the byte ranges fetched in parallel, and the retry
//! policy for fetching one range.

use vstd::prelude::*;

use crate::core_types::Chunk;
use crate::text::{decimal, push_decimal, string_from_chars};

verus! {

/// The smallest range a worker is given: 1 MiB.
pub const MIN_CHUNK_SIZE: u64 = 1048576;

/// How many times a range is requested before giving up.
pub const MAX_RETRIES: u32 = 3;

/// The size of each range when `file_size` bytes are split among `slots`
/// workers: an equal share, but at least `MIN_CHUNK_SIZE`.
pub open spec fn chunk_size_for(file_size: u64, slots: usize) -> int {
    let share = file_size as int / slots as int;
    if share >= MIN_CHUNK_SIZE {
        share
    } else {
        MIN_CHUNK_SIZE as int
    }
}

/// The first byte of range `i`.
pub open spec fn chunk_start(file_size: u64, slots: usize, i: int) -> int {
    i * chunk_size_for(file_size, slots)
}

/// The last byte of range `i`: the last byte of the file for the last range.
pub open spec fn chunk_end(file_size: u64, slots: usize, i: int) -> int {
    if i == slots - 1 {
        file_size - 1
    } else {
        chunk_start(file_size, slots, i) + chunk_size_for(file_size, slots) - 1
    }
}

/// The split can be computed: at least one worker, a non-empty file, and
/// offsets that fit in 64 bits.
pub open spec fn chunk_plan_fits(file_size: u64, slots: usize) -> bool {
    &&& slots > 0
    &&& file_size > 0
    &&& (slots - 1) * chunk_size_for(file_size, slots) <= u64::MAX
}

/// Splits `file_size` bytes into `slots` ranges, one per worker: range `i`
/// starts at `i` times the chunk size, and the last one ends at the end of
/// the file. No range holds data yet.
pub fn plan_chunks(file_size: u64, slots: usize) -> (result: Vec<Chunk>)
    requires
        chunk_plan_fits(file_size, slots),
    ensures
        result@.len() == slots,
        forall|i: int|
            0 <= i < slots ==> {
                &&& (#[trigger] result@[i]).id == i
                &&& result@[i].start == chunk_start(file_size, slots, i)
                &&& result@[i].end == chunk_end(file_size, slots, i)
                &&& result@[i].data is None
            },
{
    let share = file_size / (slots as u64);
    let chunk_size: u64 = if share >= MIN_CHUNK_SIZE {
        share
    } else {
        MIN_CHUNK_SIZE
    };
    assert(chunk_size == chunk_size_for(file_size, slots));
    let mut chunks: Vec<Chunk> = Vec::with_capacity(slots);
    let mut i: usize = 0;
    while i < slots
        invariant
            chunk_plan_fits(file_size, slots),
            chunk_size == chunk_size_for(file_size, slots),
            chunk_size >= 1,
            i <= slots,
            chunks@.len() == i,
            forall|j: int|
                0 <= j < i ==> {
                    &&& (#[trigger] chunks@[j]).id == j
                    &&& chunks@[j].start == chunk_start(file_size, slots, j)
                    &&& chunks@[j].end == chunk_end(file_size, slots, j)
                    &&& chunks@[j].data is None
                },
        decreases slots - i,
    {
        assert(i * chunk_size <= (slots - 1) * chunk_size) by (nonlinear_arith)
            requires
                i <= slots - 1,
                chunk_size >= 1,
        ;
        let start: u64 = (i as u64) * chunk_size;
        let end: u64 = if i == slots - 1 {
            file_size - 1
        } else {
            assert(start + chunk_size <= (slots - 1) * chunk_size) by (nonlinear_arith)
                requires
                    i + 1 <= slots - 1,
                    chunk_size >= 1,
                    start == i * chunk_size,
            ;
            start + chunk_size - 1
        };
        chunks.push(Chunk { id: i as u64, start, end, data: None });
        i = i + 1;
    }
    chunks
}

/// When the last range starts inside the file, the ranges cover the file
/// exactly: the first starts at byte 0, each one starts right after the one
/// before ends, none is empty, and the last ends at the last byte.
pub proof fn lemma_chunks_tile_file(file_size: u64, slots: usize)
    requires
        slots > 0,
        (slots - 1) * chunk_size_for(file_size, slots) < file_size,
    ensures
        chunk_start(file_size, slots, 0) == 0,
        forall|i: int|
            0 <= i < slots - 1 ==> chunk_end(file_size, slots, i) + 1 == #[trigger] chunk_start(
                file_size,
                slots,
                i + 1,
            ),
        forall|i: int|
            0 <= i < slots ==> #[trigger] chunk_start(file_size, slots, i) <= chunk_end(
                file_size,
                slots,
                i,
            ),
        chunk_end(file_size, slots, slots - 1) == file_size - 1,
{
    let c = chunk_size_for(file_size, slots);
    assert(c >= MIN_CHUNK_SIZE);
    assert forall|i: int| 0 <= i < slots - 1 implies chunk_end(file_size, slots, i) + 1
        == #[trigger] chunk_start(file_size, slots, i + 1) by {
        assert((i + 1) * c == i * c + c) by (nonlinear_arith);
    }
    assert forall|i: int| 0 <= i < slots implies #[trigger] chunk_start(file_size, slots, i)
        <= chunk_end(file_size, slots, i) by {
        if i < slots - 1 {
            assert(i * c <= i * c + c - 1) by (nonlinear_arith)
                requires
                    c >= 1,
            ;
        }
    }
}

/// The chunk size is the larger of the equal share `file_size / slots`
/// (rounded down) and `MIN_CHUNK_SIZE`; when the share is at least the
/// minimum, the `slots` chunks together are no longer than the file.
pub proof fn lemma_chunk_size_is_max(file_size: u64, slots: usize)
    requires
        slots > 0,
    ensures
        chunk_size_for(file_size, slots) >= file_size as int / slots as int,
        chunk_size_for(file_size, slots) >= MIN_CHUNK_SIZE,
        chunk_size_for(file_size, slots) == file_size as int / slots as int || chunk_size_for(
            file_size,
            slots,
        ) == MIN_CHUNK_SIZE,
        file_size as int / slots as int >= MIN_CHUNK_SIZE ==> chunk_size_for(file_size, slots)
            * slots <= file_size,
{
    let q = file_size as int / slots as int;
    assert(q * slots <= file_size) by (nonlinear_arith)
        requires
            q == file_size as int / slots as int,
            slots > 0,
    ;
}

/// A file of at least `MIN_CHUNK_SIZE` bytes per worker is covered exactly
/// by its ranges: the first starts at byte 0, each starts right after the
/// one before ends, none is empty, and the last ends at the last byte.
pub proof fn lemma_large_file_tiles(file_size: u64, slots: usize)
    requires
        slots > 0,
        file_size >= slots * MIN_CHUNK_SIZE,
    ensures
        chunk_start(file_size, slots, 0) == 0,
        forall|i: int|
            0 <= i < slots - 1 ==> chunk_end(file_size, slots, i) + 1 == #[trigger] chunk_start(
                file_size,
                slots,
                i + 1,
            ),
        forall|i: int|
            0 <= i < slots ==> #[trigger] chunk_start(file_size, slots, i) <= chunk_end(
                file_size,
                slots,
                i,
            ),
        chunk_end(file_size, slots, slots - 1) == file_size - 1,
{
    let q = file_size as int / slots as int;
    assert(q >= MIN_CHUNK_SIZE) by (nonlinear_arith)
        requires
            q == file_size as int / slots as int,
            slots > 0,
            file_size >= slots * MIN_CHUNK_SIZE,
    ;
    lemma_chunk_size_is_max(file_size, slots);
    let c = chunk_size_for(file_size, slots);
    assert((slots - 1) * c < file_size) by (nonlinear_arith)
        requires
            c * slots <= file_size,
            c >= 1,
            slots > 0,
    ;
    lemma_chunks_tile_file(file_size, slots);
}

/// The `Range` header value that asks for bytes `start` to `end`.
pub open spec fn range_header_text(start: u64, end: u64) -> Seq<char> {
    seq!['b', 'y', 't', 'e', 's', '='] + decimal(start as nat) + seq!['-'] + decimal(end as nat)
}

/// The pause before the request that follows failed request number
/// `attempt`: one second after the first failure, doubling after each
/// further one.
pub open spec fn backoff_seconds(attempt: nat) -> nat
    decreases attempt,
{
    if attempt <= 1 {
        1
    } else {
        2 * backoff_seconds((attempt - 1) as nat)
    }
}

/// The pause after failed request number `attempt`, in seconds.
pub fn backoff_after(attempt: u32) -> (result: u64)
    requires
        1 <= attempt <= MAX_RETRIES,
    ensures
        result == backoff_seconds(attempt as nat),
{
    let mut seconds: u64 = 1;
    let mut k: u32 = 1;
    while k < attempt
        invariant
            1 <= k <= attempt <= MAX_RETRIES,
            seconds == backoff_seconds(k as nat),
            k == 1 ==> seconds == 1,
            k == 2 ==> seconds == 2,
            k == 3 ==> seconds == 4,
        decreases attempt - k,
    {
        assert(backoff_seconds((k + 1) as nat) == 2 * backoff_seconds(k as nat));
        seconds = seconds * 2;
        k = k + 1;
    }
    seconds
}

/// Why one request for a range failed.
#[derive(Debug, Clone, Copy, PartialEq, Eq, Structural)]
pub enum ChunkFailure {
    /// No response was received.
    Connection,
    /// The response had a status outside the success range.
    HttpStatus(u16),
    /// The body of the response could not be read.
    Body,
}

/// What happened to the last request for a range.
pub enum ChunkEvent {
    /// The body of a successful response.
    Received(Vec<u8>),
    /// The request failed.
    Failed(ChunkFailure),
}

/// What to do next for a range.
pub enum ChunkAction {
    /// Hand the range, with its data, to the writer.
    Deliver(Chunk),
    /// Wait `seconds`, then request the range again.
    RetryAfterPause { seconds: u64 },
    /// Stop: every attempt failed, this being the last failure.
    GiveUp(ChunkFailure),
}

/// The fetching of one range: how many requests were made and how the last
/// one failed.
pub struct ChunkRetry {
    pub chunk: Chunk,
    pub attempt: u32,
    pub last_error: Option<ChunkFailure>,
}

impl ChunkRetry {
    /// The state before the first request for `chunk`: one attempt is being
    /// made.
    pub fn new(chunk: Chunk) -> (result: Self)
        ensures
            result.chunk == chunk,
            result.attempt == 1,
            result.last_error is None,
    {
        ChunkRetry { chunk, attempt: 1, last_error: None }
    }

    /// The `Range` header of the request: `bytes=START-END`.
    pub fn range_header(&self) -> (result: String)
        ensures
            result@ == range_header_text(self.chunk.start, self.chunk.end),
    {
        let mut text: Vec<char> = vec!['b', 'y', 't', 'e', 's', '='];
        push_decimal(&mut text, self.chunk.start);
        text.push('-');
        push_decimal(&mut text, self.chunk.end);
        assert(text@ =~= range_header_text(self.chunk.start, self.chunk.end));
        string_from_chars(&text)
    }

    /// Decides what follows a request: a received body is delivered with the
    /// range; a failure is retried, after a pause that doubles each time,
    /// while fewer than `MAX_RETRIES` requests were made, and ends the
    /// fetching otherwise.
    pub fn step(self, event: ChunkEvent) -> (result: (ChunkRetry, ChunkAction))
        requires
            1 <= self.attempt <= MAX_RETRIES,
        ensures
            match event {
                ChunkEvent::Received(data) => {
                    &&& result.1 matches ChunkAction::Deliver(c) && c.id == self.chunk.id && c.start
                        == self.chunk.start && c.end == self.chunk.end && c.data == Some(data)
                    &&& result.0.attempt == self.attempt
                    &&& result.0.last_error == self.last_error
                },
                ChunkEvent::Failed(f) => {
                    &&& result.0.last_error == Some(f)
                    &&& result.0.chunk == self.chunk
                    &&& if self.attempt < MAX_RETRIES {
                        result.1 == ChunkAction::RetryAfterPause {
                            seconds: backoff_seconds(self.attempt as nat) as u64,
                        } && result.0.attempt == self.attempt + 1
                    } else {
                        result.1 == ChunkAction::GiveUp(f) && result.0.attempt == self.attempt
                    }
                },
            },
            1 <= result.0.attempt <= MAX_RETRIES,
    {
        match event {
            ChunkEvent::Received(data) => {
                let chunk = Chunk {
                    id: self.chunk.id,
                    start: self.chunk.start,
                    end: self.chunk.end,
                    data: Some(data),
                };
                let rest = ChunkRetry {
                    chunk: Chunk {
                        id: self.chunk.id,
                        start: self.chunk.start,
                        end: self.chunk.end,
                        data: None,
                    },
                    attempt: self.attempt,
                    last_error: self.last_error,
                };
                (rest, ChunkAction::Deliver(chunk))
            },
            ChunkEvent::Failed(f) => {
                if self.attempt < MAX_RETRIES {
                    let seconds = backoff_after(self.attempt);
                    (
                        ChunkRetry { chunk: self.chunk, attempt: self.attempt + 1, last_error: Some(f) },
                        ChunkAction::RetryAfterPause { seconds },
                    )
                } else {
                    (
                        ChunkRetry { chunk: self.chunk, attempt: self.attempt, last_error: Some(f) },
                        ChunkAction::GiveUp(f),
                    )
                }
            },
        }
    }
}

} // verus!
