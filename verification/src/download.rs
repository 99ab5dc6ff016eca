//! Device-download decisions: the wait for the server's copy, the resumable
//! chunked strategy (resume checks, chunk planning, the in-order reorder buffer
//! of the parallel window, completeness checks), the retrying chunk fetch, the
//! streaming fallback, and throttled progress.
//!
//! The transfer itself (HTTP requests, the media store, timers) is driven by
//! the caller; each step's decision is made here.

use std::collections::BTreeMap;
use vstd::prelude::*;
use crate::text::{dec_digits, int_dec, push_decimal, push_int};

verus! {

/// Server-copy polls before giving up (× the interval ≈ 2 minutes).
pub const DEVICE_POLL_TRIES: u32 = 40;

/// Seconds between server-copy polls.
pub const DEVICE_POLL_INTERVAL_SECS: u64 = 3;

/// Consecutive transport-error polls that mean "offline".
pub const DEVICE_POLL_OFFLINE_GIVEUP: u32 = 5;

/// Per-chunk attempts before the download gives up.
pub const DEVICE_CHUNK_RETRIES: u32 = 5;

/// First backoff between chunk attempts (ms).
pub const DEVICE_BACKOFF_INITIAL_MS: u32 = 500;

/// Backoff ceiling (ms).
pub const DEVICE_BACKOFF_MAX_MS: u32 = 8000;

/// Bytes accumulated before a flush to storage on the streaming path.
pub const STREAM_FLUSH_BYTES: usize = 4194304;

// ── Messages ────────────────────────────────────────────────────────────────

/// "cancelled — you went offline"
pub fn msg_cancelled_offline() -> (s: String)
    ensures
        s@ == "cancelled — you went offline"@,
{
    String::from_str("cancelled — you went offline")
}

/// "you appear to be offline — can't reach the server to download"
pub fn msg_appear_offline() -> (s: String)
    ensures
        s@ == "you appear to be offline — can't reach the server to download"@,
{
    String::from_str("you appear to be offline — can't reach the server to download")
}

// ── Phase 1: waiting for the server's copy ─────────────────────────────────

/// The server's download status of the episode, as the poll reads it.
#[derive(Clone, Copy, Debug, PartialEq, Eq, Structural)]
pub enum ServerCopy {
    /// The server holds the file.
    Downloaded,
    /// A terminal server-side failure (error / unauthorized / remote not
    /// found / broken).
    Failed,
    /// Still fetching (or not started).
    Pending,
}

/// One server-copy poll's outcome.
#[derive(Clone, Copy, Debug, PartialEq, Eq, Structural)]
pub enum PollOutcome {
    Fetched(ServerCopy),
    TransportError,
}

/// Progress of the server-copy wait.
#[derive(Clone, Copy, Debug, PartialEq, Eq, Structural)]
pub struct ServerWait {
    /// Polls made so far.
    pub tries: u32,
    /// Transport errors in a row.
    pub consecutive_errors: u32,
}

/// The next step of the server-copy wait.
#[derive(Debug, PartialEq, Eq)]
pub enum WaitStep {
    /// Sleep the poll interval, then poll again.
    PollAgain,
    /// The server holds the file: go on to the byte transfer.
    Ready,
    /// Give up with this message.
    Fail(String),
}

/// The wait step after a poll and the updated progress.
pub open spec fn wait_spec(w: ServerWait, outcome: PollOutcome) -> (ServerWait, Seq<char>, int) {
    // third component: 0 = poll again, 1 = ready, 2 = fail with the message
    let tries = w.tries + 1;
    match outcome {
        PollOutcome::Fetched(ServerCopy::Downloaded) => (
            ServerWait { tries: tries as u32, consecutive_errors: 0 },
            Seq::empty(),
            1,
        ),
        PollOutcome::Fetched(ServerCopy::Failed) => (
            ServerWait { tries: tries as u32, consecutive_errors: 0 },
            "the server couldn't fetch the episode"@,
            2,
        ),
        PollOutcome::Fetched(ServerCopy::Pending) => if tries >= DEVICE_POLL_TRIES {
            (
                ServerWait { tries: tries as u32, consecutive_errors: 0 },
                "timed out waiting for the server download"@,
                2,
            )
        } else {
            (ServerWait { tries: tries as u32, consecutive_errors: 0 }, Seq::empty(), 0)
        },
        PollOutcome::TransportError => {
            let errs = w.consecutive_errors + 1;
            if errs >= DEVICE_POLL_OFFLINE_GIVEUP || tries >= DEVICE_POLL_TRIES {
                (
                    ServerWait { tries: tries as u32, consecutive_errors: errs as u32 },
                    "you appear to be offline — can't reach the server to download"@,
                    2,
                )
            } else {
                (ServerWait { tries: tries as u32, consecutive_errors: errs as u32 }, Seq::empty(), 0)
            }
        },
    }
}

impl ServerWait {
    /// A wait that has not polled yet.
    pub fn new() -> (w: ServerWait)
        ensures
            w.tries == 0 && w.consecutive_errors == 0,
    {
        ServerWait { tries: 0, consecutive_errors: 0 }
    }
}

/// Record a poll's outcome: `Ready` once the server holds the file, a failure
/// on a terminal server error, after [`DEVICE_POLL_OFFLINE_GIVEUP`] transport
/// errors in a row, or when [`DEVICE_POLL_TRIES`] polls ran out (reported as
/// offline when the last poll failed to reach the server, as a timeout
/// otherwise).
pub fn server_wait_step(w: &mut ServerWait, outcome: PollOutcome) -> (s: WaitStep)
    requires
        old(w).tries < DEVICE_POLL_TRIES,
        old(w).consecutive_errors < DEVICE_POLL_OFFLINE_GIVEUP,
    ensures
        ({
            let (nw, msg, k) = wait_spec(*old(w), outcome);
            &&& *final(w) == nw
            &&& k == 0 ==> s == WaitStep::PollAgain
            &&& k == 1 ==> s == WaitStep::Ready
            &&& k == 2 ==> (s matches WaitStep::Fail(m) && m@ == msg)
        }),
        s is PollAgain ==> final(w).tries < DEVICE_POLL_TRIES && final(w).consecutive_errors
            < DEVICE_POLL_OFFLINE_GIVEUP,
{
    w.tries = w.tries + 1;
    match outcome {
        PollOutcome::Fetched(copy) => {
            w.consecutive_errors = 0;
            match copy {
                ServerCopy::Downloaded => WaitStep::Ready,
                ServerCopy::Failed => WaitStep::Fail(
                    String::from_str("the server couldn't fetch the episode"),
                ),
                ServerCopy::Pending => {
                    if w.tries >= DEVICE_POLL_TRIES {
                        WaitStep::Fail(String::from_str("timed out waiting for the server download"))
                    } else {
                        WaitStep::PollAgain
                    }
                },
            }
        },
        PollOutcome::TransportError => {
            w.consecutive_errors = w.consecutive_errors + 1;
            if w.consecutive_errors >= DEVICE_POLL_OFFLINE_GIVEUP || w.tries >= DEVICE_POLL_TRIES {
                WaitStep::Fail(msg_appear_offline())
            } else {
                WaitStep::PollAgain
            }
        },
    }
}

// ── Progress ────────────────────────────────────────────────────────────────

/// Whole-percent progress of `downloaded` of `total` (capped at 100), or
/// `None` when the total is unknown or zero.
pub open spec fn pct_spec(downloaded: u64, total: Option<u64>) -> Option<int> {
    match total {
        Some(t) => if t > 0 {
            let p = (downloaded as int * 100) / (t as int);
            Some(if p > 100 {
                100
            } else {
                p
            })
        } else {
            None
        },
        None => None,
    }
}

/// Throttled progress: the percent to publish when it differs from the last
/// one sent (`last_pct`, -1 = none yet), updating `last_pct`; `None` when there
/// is nothing new to publish.
pub fn progress_update(downloaded: u64, total: Option<u64>, last_pct: &mut i32) -> (r: Option<u8>)
    ensures
        match pct_spec(downloaded, total) {
            Some(p) => if p != *old(last_pct) {
                r == Some(p as u8) && *final(last_pct) == p
            } else {
                r is None && *final(last_pct) == *old(last_pct)
            },
            None => r is None && *final(last_pct) == *old(last_pct),
        },
{
    match total {
        Some(t) => {
            if t == 0 {
                return None;
            }
            let d = downloaded as u128;
            let p128 = (d * 100) / (t as u128);
            let p: i32 = if p128 > 100 {
                100
            } else {
                p128 as i32
            };
            if p != *last_pct {
                *last_pct = p;
                Some(p as u8)
            } else {
                None
            }
        },
        None => None,
    }
}

// ── Chunk planning ──────────────────────────────────────────────────────────

/// The inclusive end offset of a chunk starting at `start`.
pub open spec fn chunk_end_spec(start: u64, chunk_len: u64) -> u64 {
    let e = start + chunk_len;
    let e2: int = if e > u64::MAX {
        u64::MAX as int
    } else {
        e
    };
    if e2 == 0 {
        0
    } else {
        (e2 - 1) as u64
    }
}

/// The inclusive end offset of a chunk starting at `start`
/// (`start + chunk_len - 1`, saturating).
pub fn chunk_end(start: u64, chunk_len: u64) -> (e: u64)
    ensures
        e == chunk_end_spec(start, chunk_len),
{
    let s = start.saturating_add(chunk_len);
    s.saturating_sub(1)
}

/// A failed chunk fetch.
#[derive(Debug)]
pub enum ChunkError {
    /// The response started at `served_from`, not the `requested` offset.
    OffsetMismatch { requested: u64, served_from: u64 },
    /// Any other failure, formatted for the UI.
    Other(String),
}

/// The UI message of a chunk error.
pub open spec fn chunk_error_msg(e: ChunkError) -> Seq<char> {
    match e {
        ChunkError::OffsetMismatch { requested, served_from } =>
            "server ignored the requested byte range (asked for offset "@ + dec_digits(
                requested as nat,
            ) + ", served "@ + dec_digits(served_from as nat) + ")"@,
        ChunkError::Other(m) => m@,
    }
}

impl ChunkError {
    /// The message shown for this error.
    pub fn into_message(self) -> (s: String)
        ensures
            s@ == chunk_error_msg(self),
    {
        match self {
            ChunkError::OffsetMismatch { requested, served_from } => {
                let mut s = String::from_str(
                    "server ignored the requested byte range (asked for offset ",
                );
                push_decimal(&mut s, requested);
                s.append(", served ");
                push_decimal(&mut s, served_from);
                s.append(")");
                s
            },
            ChunkError::Other(m) => m,
        }
    }
}

// ── The retrying chunk fetch ────────────────────────────────────────────────

/// A chunk response as the API reports it.
#[derive(Debug)]
pub struct AudioChunk {
    pub bytes: Vec<u8>,
    pub total: Option<u64>,
    /// The offset the body starts at (from `Content-Range`; 0 for a plain 200).
    pub served_from: u64,
    pub content_type: Option<String>,
}

/// How one chunk request ended.
#[derive(Debug)]
pub enum FetchOutcome {
    Chunk(AudioChunk),
    /// Auth / gone (401, 403, 404, 410): retrying cannot help.
    PermanentError(String),
    /// Anything else.
    Error(String),
}

/// Whether a failed chunk request's HTTP status makes retrying useless:
/// authentication refused (401, 403) or the audio gone (404, 410).
pub open spec fn permanent_status(status: u16) -> bool {
    status == 401 || status == 403 || status == 404 || status == 410
}

/// Classify a failed chunk request: `status` is the HTTP status when the
/// server answered with an error (`None` for a transport failure), `msg` the
/// failure's text. Auth and gone statuses fail fast; everything else is
/// retried with backoff.
pub fn chunk_failure(status: Option<u16>, msg: String) -> (o: FetchOutcome)
    ensures
        (status matches Some(s) && permanent_status(s)) ==> (o matches FetchOutcome::PermanentError(m)
            && m == msg),
        !(status matches Some(s) && permanent_status(s)) ==> (o matches FetchOutcome::Error(m)
            && m == msg),
{
    let permanent = match status {
        Some(s) => s == 401 || s == 403 || s == 404 || s == 410,
        None => false,
    };
    if permanent {
        FetchOutcome::PermanentError(msg)
    } else {
        FetchOutcome::Error(msg)
    }
}

/// Retry state of one chunk fetch.
#[derive(Clone, Copy, Debug, PartialEq, Eq, Structural)]
pub struct ChunkRetry {
    /// Attempts made so far.
    pub attempts: u32,
    /// Backoff before the next attempt (ms).
    pub delay_ms: u32,
}

/// What to do after a chunk attempt.
#[derive(Debug)]
pub enum RetryStep {
    /// Sleep this many ms, then try again.
    Retry(u32),
    Done(Result<AudioChunk, ChunkError>),
}

impl ChunkRetry {
    /// No attempt made yet; first backoff 500 ms.
    pub fn new() -> (r: ChunkRetry)
        ensures
            r.attempts == 0 && r.delay_ms == DEVICE_BACKOFF_INITIAL_MS,
    {
        ChunkRetry { attempts: 0, delay_ms: DEVICE_BACKOFF_INITIAL_MS }
    }
}

/// The failure of a chunk fetch made while the user is offline.
pub fn offline_chunk_error() -> (e: ChunkError)
    ensures
        e matches ChunkError::Other(m) && m@ == "cancelled — you went offline"@,
{
    ChunkError::Other(msg_cancelled_offline())
}

/// Decide after a chunk attempt requested at `start`: a response from the
/// wrong offset is an immediate `OffsetMismatch` (a peer that ignored the range
/// won't honor the next one either); a permanent error fails at once; other
/// errors retry with doubling backoff (capped at 8 s) until
/// [`DEVICE_CHUNK_RETRIES`] attempts, then fail with the last message.
pub fn chunk_retry_step(r: &mut ChunkRetry, start: u64, outcome: FetchOutcome) -> (s: RetryStep)
    requires
        old(r).attempts < DEVICE_CHUNK_RETRIES,
        old(r).delay_ms <= DEVICE_BACKOFF_MAX_MS,
    ensures
        final(r).attempts == old(r).attempts + 1,
        final(r).delay_ms <= DEVICE_BACKOFF_MAX_MS,
        match outcome {
            FetchOutcome::Chunk(c) => if c.served_from != start {
                s matches RetryStep::Done(Err(ChunkError::OffsetMismatch { requested, served_from }))
                    && requested == start && served_from == c.served_from
            } else {
                s matches RetryStep::Done(Ok(c2)) && c2 == c
            },
            FetchOutcome::PermanentError(m) => s matches RetryStep::Done(
                Err(ChunkError::Other(m2)),
            ) && m2 == m,
            FetchOutcome::Error(m) => if final(r).attempts < DEVICE_CHUNK_RETRIES {
                s == RetryStep::Retry(old(r).delay_ms) && final(r).delay_ms == (if old(r).delay_ms
                    * 2 > DEVICE_BACKOFF_MAX_MS {
                    DEVICE_BACKOFF_MAX_MS as int
                } else {
                    old(r).delay_ms * 2
                })
            } else {
                s matches RetryStep::Done(Err(ChunkError::Other(m2))) && m2 == m
            },
        },
{
    r.attempts = r.attempts + 1;
    match outcome {
        FetchOutcome::Chunk(c) => {
            if c.served_from != start {
                let sf = c.served_from;
                RetryStep::Done(Err(ChunkError::OffsetMismatch { requested: start, served_from: sf }))
            } else {
                RetryStep::Done(Ok(c))
            }
        },
        FetchOutcome::PermanentError(m) => RetryStep::Done(Err(ChunkError::Other(m))),
        FetchOutcome::Error(m) => {
            if r.attempts < DEVICE_CHUNK_RETRIES {
                let d = r.delay_ms;
                r.delay_ms = if d * 2 > DEVICE_BACKOFF_MAX_MS {
                    DEVICE_BACKOFF_MAX_MS
                } else {
                    d * 2
                };
                RetryStep::Retry(d)
            } else {
                RetryStep::Done(Err(ChunkError::Other(m)))
            }
        },
    }
}

// ── Assembling a complete range ────────────────────────────────────────────

/// The bytes of one requested range `[start, end]`, assembled from as many
/// responses as the server needs (a 206 may serve fewer bytes than asked).
pub struct RangeAssembly {
    start: u64,
    end: u64,
    want: usize,
    acc: Vec<u8>,
    total: Option<u64>,
    content_type: Option<String>,
}

impl RangeAssembly {
    /// The first offset of the range.
    pub closed spec fn start_view(self) -> u64 {
        self.start
    }

    /// The last (inclusive) offset of the range.
    pub closed spec fn end_view(self) -> u64 {
        self.end
    }

    /// The range's length in bytes.
    pub closed spec fn want_view(self) -> nat {
        self.want as nat
    }

    /// The bytes gathered so far.
    pub closed spec fn acc_view(self) -> Seq<u8> {
        self.acc@
    }

    /// The last total any response reported.
    pub closed spec fn total_view(self) -> Option<u64> {
        self.total
    }

    /// The content type of the first response that reported one.
    pub closed spec fn content_type_view(self) -> Option<String> {
        self.content_type
    }

    /// Start assembling `[start, end]`.
    pub fn new(start: u64, end: u64) -> (r: RangeAssembly)
        requires
            start <= end,
            end - start < usize::MAX,
        ensures
            r.start_view() == start,
            r.end_view() == end,
            r.want_view() == end - start + 1,
            r.acc_view() == Seq::<u8>::empty(),
            r.total_view() is None,
            r.content_type_view() is None,
    {
        RangeAssembly {
            start,
            end,
            want: (end - start + 1) as usize,
            acc: Vec::new(),
            total: None,
            content_type: None,
        }
    }

    /// Whether the whole range is gathered.
    pub fn is_complete(&self) -> (b: bool)
        ensures
            b == (self.acc_view().len() >= self.want_view()),
    {
        self.acc.len() >= self.want
    }

    /// The offset to request next (just past the bytes gathered so far).
    pub fn next_offset(&self) -> (o: u64)
        requires
            self.acc_view().len() < self.want_view(),
            self.want_view() == self.end_view() - self.start_view() + 1,
        ensures
            o == self.start_view() + self.acc_view().len(),
            o <= self.end_view(),
    {
        self.start + self.acc.len() as u64
    }

    /// Add a response for the remainder: its bytes extend the range; an empty
    /// response for bytes the server should still hold is an error.
    pub fn add(&mut self, episode_id: i32, chunk: AudioChunk) -> (r: Result<(), ChunkError>)
        ensures
            final(self).start_view() == old(self).start_view(),
            final(self).end_view() == old(self).end_view(),
            final(self).want_view() == old(self).want_view(),
            final(self).total_view() == (if chunk.total is Some {
                chunk.total
            } else {
                old(self).total_view()
            }),
            final(self).content_type_view() == (if old(self).content_type_view() is Some {
                old(self).content_type_view()
            } else {
                chunk.content_type
            }),
            chunk.bytes@.len() == 0 <==> r is Err,
            chunk.bytes@.len() == 0 ==> final(self).acc_view() == old(self).acc_view(),
            chunk.bytes@.len() > 0 ==> final(self).acc_view() == old(self).acc_view()
                + chunk.bytes@,
            r matches Err(ChunkError::Other(m)) ==> m@ == "short range read for episode "@
                + int_dec(episode_id as int) + ": got "@ + dec_digits(old(self).acc_view().len())
                + " of "@ + dec_digits(old(self).want_view()) + " bytes for ["@ + dec_digits(
                old(self).start_view() as nat,
            ) + ","@ + dec_digits(old(self).end_view() as nat) + "]"@,
            r matches Err(e) ==> e is Other,
    {
        let AudioChunk { mut bytes, total, served_from: _, content_type } = chunk;
        if total.is_some() {
            self.total = total;
        }
        if self.content_type.is_none() {
            self.content_type = content_type;
        }
        if bytes.len() == 0 {
            let mut m = String::from_str("short range read for episode ");
            push_int(&mut m, episode_id as i64);
            m.append(": got ");
            push_decimal(&mut m, self.acc.len() as u64);
            m.append(" of ");
            push_decimal(&mut m, self.want as u64);
            m.append(" bytes for [");
            push_decimal(&mut m, self.start);
            m.append(",");
            push_decimal(&mut m, self.end);
            m.append("]");
            return Err(ChunkError::Other(m));
        }
        self.acc.append(&mut bytes);
        Ok(())
    }

    /// The assembled chunk: exactly the range's bytes (an over-serving
    /// server can't desync the write cursor), served from the range start.
    pub fn finish(self) -> (c: AudioChunk)
        requires
            self.acc_view().len() >= self.want_view(),
        ensures
            c.bytes@ == self.acc_view().subrange(0, self.want_view() as int),
            c.total == self.total_view(),
            c.served_from == self.start_view(),
            c.content_type == self.content_type_view(),
    {
        let mut acc = self.acc;
        acc.truncate(self.want);
        AudioChunk {
            bytes: acc,
            total: self.total,
            served_from: self.start,
            content_type: self.content_type,
        }
    }
}

// ── Phase A: the first chunk, resume checks ───────────────────────────────

/// What the staged partial says before the first fetch.
#[derive(Clone, Copy, Debug, PartialEq, Eq, Structural)]
pub enum StagedCheck {
    /// The partial already holds the whole file.
    Complete,
    /// More bytes are staged than the file holds: discard and restart.
    Oversized,
    /// Fetch the next chunk.
    Fetch,
}

/// Classify the staged partial (`downloaded` bytes of a file of `total`).
pub fn staged_check(downloaded: u64, total: Option<u64>) -> (c: StagedCheck)
    ensures
        c == (match total {
            Some(t) => if downloaded == t {
                StagedCheck::Complete
            } else if downloaded > t {
                StagedCheck::Oversized
            } else {
                StagedCheck::Fetch
            },
            None => StagedCheck::Fetch,
        }),
{
    match total {
        Some(t) => {
            if downloaded == t {
                StagedCheck::Complete
            } else if downloaded > t {
                StagedCheck::Oversized
            } else {
                StagedCheck::Fetch
            }
        },
        None => StagedCheck::Fetch,
    }
}

/// Whether a resumed partial still matches the server copy: the first chunk
/// after the resume must report a total, equal to the staged one when a total
/// was staged. `Some(total)` continues with that total; `None` restarts from
/// byte 0.
pub fn resume_total(staged: Option<u64>, chunk_total: Option<u64>) -> (r: Option<u64>)
    ensures
        r == (match chunk_total {
            Some(ct) => if staged is None || staged == Some(ct) {
                Some(ct)
            } else {
                None
            },
            None => None,
        }),
{
    match chunk_total {
        Some(ct) => {
            match staged {
                None => Some(ct),
                Some(st) => if st == ct {
                    Some(ct)
                } else {
                    None
                },
            }
        },
        None => None,
    }
}

/// Whether a written chunk of `n` bytes was full while no total is known: the
/// server range-serves without advertising a size, so sequential pulls must
/// continue until a short or empty chunk proves the end.
pub fn full_untotaled(total: Option<u64>, n: u64, chunk_len: u64) -> (b: bool)
    ensures
        b == (total is None && n == chunk_len),
{
    total.is_none() && n == chunk_len
}

/// The completeness check before committing: a known total must be matched
/// exactly, and an empty download (or one that never opened a writer) is
/// refused.
pub open spec fn finish_spec(downloaded: u64, total: Option<u64>, writer_open: bool) -> Option<Seq<char>> {
    match total {
        Some(t) => if downloaded != t {
            Some(
                "incomplete download ("@ + dec_digits(downloaded as nat) + "/"@ + dec_digits(
                    t as nat,
                ) + " bytes)"@,
            )
        } else if !writer_open || downloaded == 0 {
            Some("empty download"@)
        } else {
            None
        },
        None => if !writer_open || downloaded == 0 {
            Some("empty download"@)
        } else {
            None
        },
    }
}

/// Check a finished transfer; `Ok` means the writer may commit.
pub fn finish_check(downloaded: u64, total: Option<u64>, writer_open: bool) -> (r: Result<(), String>)
    ensures
        match finish_spec(downloaded, total, writer_open) {
            Some(m) => r matches Err(e) && e@ == m,
            None => r is Ok,
        },
{
    if let Some(t) = total {
        if downloaded != t {
            let mut m = String::from_str("incomplete download (");
            push_decimal(&mut m, downloaded);
            m.append("/");
            push_decimal(&mut m, t);
            m.append(" bytes)");
            return Err(m);
        }
    }
    if !writer_open || downloaded == 0 {
        return Err(String::from_str("empty download"));
    }
    Ok(())
}

/// What follows a chunked attempt.
#[derive(Debug)]
pub enum AttemptNext {
    /// Report this result.
    Finish(Result<(), String>),
    /// The first attempt got bytes from the wrong offset: discard the partial
    /// and run the whole attempt again from byte 0.
    RestartFromScratch,
    /// The from-scratch attempt was mis-offset too: the peer never honors
    /// ranges; discard the partial and download by streaming.
    FallbackToStreaming,
}

/// Route a chunked attempt's result (`first` = the first attempt).
pub fn after_chunked_attempt(first: bool, result: Result<(), ChunkError>) -> (n: AttemptNext)
    ensures
        match result {
            Ok(()) => n matches AttemptNext::Finish(Ok(())),
            Err(ChunkError::OffsetMismatch { .. }) => if first {
                n is RestartFromScratch
            } else {
                n is FallbackToStreaming
            },
            Err(ChunkError::Other(m)) => n matches AttemptNext::Finish(Err(m2)) && m2 == m,
        },
{
    match result {
        Ok(()) => AttemptNext::Finish(Ok(())),
        Err(ChunkError::OffsetMismatch { .. }) => {
            if first {
                AttemptNext::RestartFromScratch
            } else {
                AttemptNext::FallbackToStreaming
            }
        },
        Err(ChunkError::Other(m)) => AttemptNext::Finish(Err(m)),
    }
}

// ── The phases of one chunked pass ─────────────────────────────────────────

/// Where a chunked pass stands.
#[derive(Clone, Copy, Debug, PartialEq, Eq, Structural)]
pub enum PassPhase {
    /// Phase A: the first chunk, fetched alone (resume verification, writer
    /// opening, learning the total).
    Head,
    /// Phase B′: the server range-serves full chunks without a total; pull
    /// sequential ranges until a short or empty one marks the end.
    Untotaled,
    /// Phase B: the rest of a file of known size, through a [`ChunkWindow`].
    Window,
    /// Nothing more to fetch: check completeness and commit.
    Finished,
}

/// What the caller does next for a chunked pass.
#[derive(Clone, Copy, Debug, PartialEq, Eq, Structural)]
pub enum PassAction {
    /// Fetch `[start, end]` (with per-chunk retries) and report the chunk to
    /// [`ChunkedPass::on_chunk`].
    Fetch { start: u64, end: u64 },
    /// Drop the writer and delete the staged partial: the pass restarts from
    /// byte 0 as a fresh download.
    DiscardPartial,
    /// Open the writer for a file of `total`: `append` continues the staged
    /// partial (with its content type), otherwise the chunk's content type.
    OpenWriter { total: Option<u64>, append: bool },
    /// Write the reported chunk's bytes and publish progress.
    Write,
    /// Fetch and write `[from, total)` through a [`ChunkWindow`], then report
    /// the write cursor to [`ChunkedPass::on_window_done`].
    RunWindow { from: u64, total: u64 },
    /// Check the transfer ([`finish_check`]) and commit.
    Finish,
}

/// The decision state of one chunked pass.
#[derive(Clone, Copy, Debug, PartialEq, Eq, Structural)]
pub struct ChunkedPass {
    pub phase: PassPhase,
    /// Bytes written (or staged) so far.
    pub downloaded: u64,
    /// The file's size, once known.
    pub total: Option<u64>,
    /// The next chunk must confirm that a resumed partial still matches the
    /// server copy.
    pub verifying_resume: bool,
    pub writer_open: bool,
    pub chunk_len: u64,
}

/// The phase after a chunk of Phase A or B′: keep pulling sequentially while
/// full chunks arrive without a total; go windowed when the size is known
/// and bytes remain; else finish.
pub open spec fn phase_after(full_untotaled: bool, downloaded: u64, total: Option<u64>) -> PassPhase {
    if full_untotaled {
        PassPhase::Untotaled
    } else if total matches Some(t) && downloaded < t {
        PassPhase::Window
    } else {
        PassPhase::Finished
    }
}

/// The state a restart from byte 0 leaves.
pub open spec fn restarted(p: ChunkedPass) -> ChunkedPass {
    ChunkedPass {
        phase: PassPhase::Head,
        downloaded: 0,
        total: None,
        verifying_resume: false,
        writer_open: false,
        ..p
    }
}

impl ChunkedPass {
    /// The phases' bounds: the windowed phase has a known size with bytes
    /// left; the untotaled phase has no size; both write through an open
    /// writer; a resume is verified only by the first chunk (or not at all,
    /// when the staged partial was already complete).
    pub open spec fn wf(self) -> bool {
        &&& self.phase is Window ==> (self.total matches Some(t) && self.downloaded < t)
            && self.writer_open
        &&& self.phase is Untotaled ==> self.total is None && self.writer_open
        &&& self.verifying_resume ==> (self.phase is Head || self.phase is Finished)
            && self.writer_open
    }

    /// Start a pass. `staged` is the durable partial (`downloaded`, size)
    /// left by an earlier attempt; an empty one does not count. Resuming opens
    /// the appending writer up front and has the first chunk verify the
    /// partial.
    pub fn begin(staged: Option<(u64, Option<u64>)>, chunk_len: u64) -> (r: (ChunkedPass, Vec<PassAction>))
        ensures
            r.0.wf(),
            r.0.phase == PassPhase::Head,
            r.0.chunk_len == chunk_len,
            match staged {
                Some((d, t)) if d > 0 => {
                    &&& r.0.downloaded == d && r.0.total == t
                    &&& r.0.verifying_resume && r.0.writer_open
                    &&& r.1@ == seq![PassAction::OpenWriter { total: t, append: true }]
                },
                _ => {
                    &&& r.0.downloaded == 0 && r.0.total is None
                    &&& !r.0.verifying_resume && !r.0.writer_open
                    &&& r.1@ == Seq::<PassAction>::empty()
                },
            },
    {
        let mut actions: Vec<PassAction> = Vec::new();
        match staged {
            Some((d, t)) => {
                if d > 0 {
                    actions.push(PassAction::OpenWriter { total: t, append: true });
                    return (
                        ChunkedPass {
                            phase: PassPhase::Head,
                            downloaded: d,
                            total: t,
                            verifying_resume: true,
                            writer_open: true,
                            chunk_len,
                        },
                        actions,
                    );
                }
            },
            None => {},
        }
        (
            ChunkedPass {
                phase: PassPhase::Head,
                downloaded: 0,
                total: None,
                verifying_resume: false,
                writer_open: false,
                chunk_len,
            },
            actions,
        )
    }

    /// The next thing to do. In Phase A the staged partial is checked first:
    /// already complete finishes, larger than the file restarts from byte 0,
    /// otherwise the chunk at the cursor is fetched. Phase B′ fetches the
    /// chunk at the cursor; Phase B runs the window over the rest.
    pub fn advance(&mut self) -> (a: PassAction)
        requires
            old(self).wf(),
        ensures
            final(self).wf(),
            match old(self).phase {
                PassPhase::Head => match staged_check_spec(old(self).downloaded, old(self).total) {
                    StagedCheck::Complete => a == PassAction::Finish && *final(self) == (
                    ChunkedPass { phase: PassPhase::Finished, ..*old(self) }),
                    StagedCheck::Oversized => a == PassAction::DiscardPartial && *final(self)
                        == restarted(*old(self)),
                    StagedCheck::Fetch => a == (PassAction::Fetch {
                        start: old(self).downloaded,
                        end: chunk_end_spec(old(self).downloaded, old(self).chunk_len),
                    }) && *final(self) == *old(self),
                },
                PassPhase::Untotaled => a == (PassAction::Fetch {
                    start: old(self).downloaded,
                    end: chunk_end_spec(old(self).downloaded, old(self).chunk_len),
                }) && *final(self) == *old(self),
                PassPhase::Window => a == (PassAction::RunWindow {
                    from: old(self).downloaded,
                    total: old(self).total->0,
                }) && *final(self) == *old(self),
                PassPhase::Finished => a == PassAction::Finish && *final(self) == *old(self),
            },
    {
        match self.phase {
            PassPhase::Head => {
                match staged_check(self.downloaded, self.total) {
                    StagedCheck::Complete => {
                        self.phase = PassPhase::Finished;
                        PassAction::Finish
                    },
                    StagedCheck::Oversized => {
                        self.downloaded = 0;
                        self.total = None;
                        self.verifying_resume = false;
                        self.writer_open = false;
                        PassAction::DiscardPartial
                    },
                    StagedCheck::Fetch => PassAction::Fetch {
                        start: self.downloaded,
                        end: chunk_end(self.downloaded, self.chunk_len),
                    },
                }
            },
            PassPhase::Untotaled => PassAction::Fetch {
                start: self.downloaded,
                end: chunk_end(self.downloaded, self.chunk_len),
            },
            PassPhase::Window => {
                let t = match self.total {
                    Some(t) => t,
                    None => 0,
                };
                PassAction::RunWindow { from: self.downloaded, total: t }
            },
            PassPhase::Finished => PassAction::Finish,
        }
    }

    /// A fetched chunk of `n` bytes arrived in Phase A or B′, reporting the
    /// file size `chunk_total`.
    ///
    /// Phase A: a resumed partial is accepted only when the server still
    /// serves the same file (else the pass restarts from byte 0); a fresh
    /// download opens its writer from this first response and learns the size
    /// from it; an empty chunk ends the phase without writing. Phase B′: a size
    /// reported mid-stream is adopted; an empty chunk ends the phase. A written
    /// chunk that is full while no size is known keeps the pass in Phase B′.
    pub fn on_chunk(&mut self, n: u64, chunk_total: Option<u64>) -> (acts: Vec<PassAction>)
        requires
            old(self).wf(),
            old(self).phase is Head || old(self).phase is Untotaled,
            old(self).downloaded + n <= u64::MAX,
        ensures
            final(self).wf(),
            final(self).chunk_len == old(self).chunk_len,
            old(self).verifying_resume && !(chunk_total matches Some(ct) && (old(self).total is None
                || old(self).total == Some(ct))) ==> acts@ == seq![PassAction::DiscardPartial]
                && *final(self) == restarted(*old(self)),
            !(old(self).verifying_resume && !(chunk_total matches Some(ct) && (old(self).total
                is None || old(self).total == Some(ct)))) ==> {
                // The size after this chunk.
                let t = if old(self).phase is Untotaled {
                    if chunk_total is Some {
                        chunk_total
                    } else {
                        old(self).total
                    }
                } else if old(self).verifying_resume {
                    chunk_total
                } else if !old(self).writer_open {
                    chunk_total
                } else {
                    old(self).total
                };
                let opens = old(self).phase is Head && !old(self).writer_open;
                let opened = if opens {
                    seq![PassAction::OpenWriter { total: chunk_total, append: false }]
                } else {
                    Seq::<PassAction>::empty()
                };
                &&& final(self).total == t
                &&& final(self).writer_open
                &&& !final(self).verifying_resume
                &&& n == 0 ==> acts@ == opened && final(self).downloaded == old(self).downloaded
                    && final(self).phase == phase_after(false, old(self).downloaded, t)
                &&& n > 0 ==> acts@ == opened.push(PassAction::Write) && final(self).downloaded
                    == old(self).downloaded + n && final(self).phase == phase_after(
                    t is None && n == old(self).chunk_len,
                    (old(self).downloaded + n) as u64,
                    t,
                )
            },
    {
        let mut acts: Vec<PassAction> = Vec::new();
        match self.phase {
            PassPhase::Untotaled => {
                if chunk_total.is_some() {
                    self.total = chunk_total;
                }
            },
            _ => {
                if self.verifying_resume {
                    self.verifying_resume = false;
                    match resume_total(self.total, chunk_total) {
                        Some(ct) => {
                            self.total = Some(ct);
                        },
                        None => {
                            self.phase = PassPhase::Head;
                            self.downloaded = 0;
                            self.total = None;
                            self.writer_open = false;
                            acts.push(PassAction::DiscardPartial);
                            return acts;
                        },
                    }
                }
                if !self.writer_open {
                    self.total = chunk_total;
                    self.writer_open = true;
                    acts.push(PassAction::OpenWriter { total: chunk_total, append: false });
                }
            },
        }
        if n == 0 {
            self.phase = if let Some(t) = self.total {
                if self.downloaded < t {
                    PassPhase::Window
                } else {
                    PassPhase::Finished
                }
            } else {
                PassPhase::Finished
            };
            return acts;
        }
        acts.push(PassAction::Write);
        self.downloaded = self.downloaded + n;
        let full = full_untotaled(self.total, n, self.chunk_len);
        self.phase = if full {
            PassPhase::Untotaled
        } else if let Some(t) = self.total {
            if self.downloaded < t {
                PassPhase::Window
            } else {
                PassPhase::Finished
            }
        } else {
            PassPhase::Finished
        };
        acts
    }

    /// The window wrote everything up to `written_to` (the file's size on
    /// success): the pass moves on to its completeness check.
    pub fn on_window_done(&mut self, written_to: u64)
        requires
            old(self).wf(),
            old(self).phase is Window,
        ensures
            *final(self) == (ChunkedPass {
                phase: PassPhase::Finished,
                downloaded: written_to,
                ..*old(self)
            }),
            final(self).wf(),
    {
        self.downloaded = written_to;
        self.phase = PassPhase::Finished;
    }
}

/// [`staged_check`]'s result.
pub open spec fn staged_check_spec(downloaded: u64, total: Option<u64>) -> StagedCheck {
    match total {
        Some(t) => if downloaded == t {
            StagedCheck::Complete
        } else if downloaded > t {
            StagedCheck::Oversized
        } else {
            StagedCheck::Fetch
        },
        None => StagedCheck::Fetch,
    }
}

/// Phase A restarts from byte 0 at most once: after a restart the cursor is
/// at byte 0 with no size staged, the next step fetches the first chunk, and
/// that chunk can no longer trigger a restart (nothing is left to verify).
pub proof fn lemma_restart_at_most_once(p: ChunkedPass)
    ensures
        ({
            let r = restarted(p);
            &&& r.wf()
            &&& staged_check_spec(r.downloaded, r.total) == StagedCheck::Fetch
            &&& !r.verifying_resume
        }),
{
}

// ── Streaming ───────────────────────────────────────────────────────────────

/// Whether a streamed resume is valid: the server range-served from exactly
/// the staged offset and, when both sides know a size, the sizes agree.
pub fn stream_resume_ok(
    downloaded: u64,
    served_from: u64,
    server_total: Option<u64>,
    staged_total: Option<u64>,
) -> (b: bool)
    ensures
        b == (served_from == downloaded && (server_total is None || staged_total is None
            || server_total == staged_total)),
{
    let size_ok = match (server_total, staged_total) {
        (Some(a), Some(b)) => a == b,
        _ => true,
    };
    served_from == downloaded && size_ok
}

/// The size a stream is checked against: the server's, else the staged one.
pub fn stream_total(server_total: Option<u64>, staged_total: Option<u64>) -> (t: Option<u64>)
    ensures
        t == (if server_total is Some {
            server_total
        } else {
            staged_total
        }),
{
    match server_total {
        Some(t) => Some(t),
        None => staged_total,
    }
}

/// A staged partial as the streaming strategy reads it: the bytes already
/// stored, the file size and content type recorded with them.
#[derive(Debug)]
pub struct StagedPartial {
    pub downloaded: u64,
    pub total: Option<u64>,
    pub content_type: Option<String>,
}

/// What follows the response to a streaming request.
#[derive(Debug)]
pub enum StreamAction {
    /// The resume no longer matches the server copy: delete the partial and
    /// request again from byte 0 (see [`StreamPass::start`]).
    RestartFromScratch,
    /// Open the writer (`append` continues the partial) and stream the body.
    OpenWriter { content_type: Option<String>, total: Option<u64>, append: bool },
}

/// The decision state of the streaming (no chunking) download: one request,
/// resumed from a staged partial at most once per download.
#[derive(Debug)]
pub struct StreamPass {
    /// A resume mismatch happened: never resume again in this download.
    pub from_scratch: bool,
    /// The partial this request resumes, if any.
    pub resume: Option<StagedPartial>,
    /// Bytes stored so far.
    pub downloaded: u64,
    /// The size the stream is checked against.
    pub total: Option<u64>,
}

impl StreamPass {
    /// A download that has not started.
    pub fn new() -> (p: StreamPass)
        ensures
            !p.from_scratch,
            p.resume is None,
            p.downloaded == 0,
            p.total is None,
    {
        StreamPass { from_scratch: false, resume: None, downloaded: 0, total: None }
    }

    /// Start a request, given the staged partial (`None` when none): it is
    /// resumed when it holds bytes and no restart happened yet, so after a
    /// restart every request starts at byte 0 and (with nothing to resume)
    /// [`StreamPass::stream_step`] cannot restart again. Returns the offset
    /// to request from.
    pub fn start(&mut self, staged: Option<StagedPartial>) -> (offset: u64)
        ensures
            final(self).from_scratch == old(self).from_scratch,
            final(self).total is None,
            offset == final(self).downloaded,
            match staged {
                Some(sp) if !old(self).from_scratch && sp.downloaded > 0 => {
                    &&& final(self).resume == Some(sp)
                    &&& final(self).downloaded == sp.downloaded
                },
                _ => final(self).resume is None && final(self).downloaded == 0,
            },
    {
        self.total = None;
        if !self.from_scratch {
            match staged {
                Some(sp) => {
                    if sp.downloaded > 0 {
                        self.downloaded = sp.downloaded;
                        self.resume = Some(sp);
                        return self.downloaded;
                    }
                },
                None => {},
            }
        }
        self.resume = None;
        self.downloaded = 0;
        0
    }

    /// The response arrived, served from `served_from` and reporting the
    /// file's size and content type. A resume is kept only when the server
    /// range-served from exactly the staged offset and the sizes agree;
    /// otherwise the download restarts from byte 0 and never resumes again.
    /// The stream is checked against the server's size, else the staged one;
    /// a resumed stream keeps the partial's content type.
    pub fn stream_step(
        &mut self,
        served_from: u64,
        server_total: Option<u64>,
        server_content_type: Option<String>,
    ) -> (a: StreamAction)
        ensures
            final(self).downloaded == old(self).downloaded,
            match old(self).resume {
                Some(sp) => if !(served_from == sp.downloaded && (server_total is None || sp.total
                    is None || server_total == sp.total)) {
                    &&& a is RestartFromScratch
                    &&& final(self).from_scratch
                    &&& final(self).resume is None
                } else {
                    &&& a matches StreamAction::OpenWriter { content_type, total, append }
                        && content_type == sp.content_type && total == (if server_total is Some {
                        server_total
                    } else {
                        sp.total
                    }) && append
                    &&& final(self).total == (if server_total is Some {
                        server_total
                    } else {
                        sp.total
                    })
                    &&& final(self).from_scratch == old(self).from_scratch
                    &&& final(self).resume == old(self).resume
                },
                None => {
                    &&& a matches StreamAction::OpenWriter { content_type, total, append }
                        && content_type == server_content_type && total == server_total && !append
                    &&& final(self).total == server_total
                    &&& final(self).from_scratch == old(self).from_scratch
                    &&& final(self).resume is None
                },
            },
    {
        match self.resume.take() {
            Some(sp) => {
                if !stream_resume_ok(sp.downloaded, served_from, server_total, sp.total) {
                    self.from_scratch = true;
                    return StreamAction::RestartFromScratch;
                }
                let total = stream_total(server_total, sp.total);
                self.total = total;
                let ct = match &sp.content_type {
                    Some(c) => Some(c.clone()),
                    None => None,
                };
                self.resume = Some(sp);
                StreamAction::OpenWriter { content_type: ct, total, append: true }
            },
            None => {
                self.total = server_total;
                StreamAction::OpenWriter { content_type: server_content_type, total: server_total, append: false }
            },
        }
    }

    /// A batch of `n` bytes was written.
    pub fn wrote(&mut self, n: u64)
        requires
            old(self).downloaded + n <= u64::MAX,
        ensures
            final(self).downloaded == old(self).downloaded + n,
            final(self).total == old(self).total,
            final(self).from_scratch == old(self).from_scratch,
            final(self).resume == old(self).resume,
    {
        self.downloaded = self.downloaded + n;
    }

    /// The body ended: the stream must match its size and hold bytes before
    /// the writer may commit.
    pub fn finish(&self) -> (r: Result<(), String>)
        ensures
            match finish_spec(self.downloaded, self.total, true) {
                Some(m) => r matches Err(e) && e@ == m,
                None => r is Ok,
            },
    {
        finish_check(self.downloaded, self.total, true)
    }
}

/// Whether the streaming batch is due for a flush to storage.
pub fn batch_due(len: usize) -> (b: bool)
    ensures
        b == (len >= STREAM_FLUSH_BYTES),
{
    len >= STREAM_FLUSH_BYTES
}

// ── Phase B: the parallel window and its in-order reorder buffer ────────────

/// The remaining chunks of a download whose total is known, fetched up to
/// `window` at a time and written strictly in byte order: chunks that complete
/// ahead of the write cursor wait in a reorder buffer.
pub struct ChunkWindow {
    total: u64,
    chunk_len: u64,
    window: usize,
    next_write: u64,
    next_fetch: u64,
    received: u64,
    inflight: Vec<(u64, u64)>,
    buffer: BTreeMap<u64, Vec<u8>>,
    fetch_error: Option<ChunkError>,
}

/// The failure recorded when a chunk reports another total size than the
/// download started with.
pub open spec fn copy_changed_msg(was: u64, now: u64) -> Seq<char> {
    "server copy changed during download (was "@ + dec_digits(was as nat) + ", now "@
        + dec_digits(now as nat) + ")"@
}

impl ChunkWindow {
    pub closed spec fn total_view(self) -> u64 {
        self.total
    }

    pub closed spec fn chunk_len_view(self) -> u64 {
        self.chunk_len
    }

    pub closed spec fn window_view(self) -> nat {
        self.window as nat
    }

    /// The next byte offset that must be written.
    pub closed spec fn next_write_view(self) -> u64 {
        self.next_write
    }

    /// The next byte offset to request.
    pub closed spec fn next_fetch_view(self) -> u64 {
        self.next_fetch
    }

    /// Bytes received in any order (drives progress).
    pub closed spec fn received_view(self) -> u64 {
        self.received
    }

    /// The `[start, end]` ranges of the requests in flight.
    pub closed spec fn inflight_view(self) -> Seq<(u64, u64)> {
        self.inflight@
    }

    /// Completed, not yet written chunks.
    pub closed spec fn buffer_view(self) -> Map<u64, Vec<u8>> {
        self.buffer@
    }

    /// Whether a chunk fetch failed for good.
    pub closed spec fn failed_view(self) -> bool {
        self.fetch_error is Some
    }

    /// The window's bounds: the write cursor never passes the fetch cursor,
    /// which never passes the total; every in-flight range and buffered chunk
    /// lies below the fetch cursor; and in-flight plus buffered chunks never
    /// exceed the window.
    pub open spec fn wf(self) -> bool {
        &&& self.next_write_view() <= self.next_fetch_view() <= self.total_view()
        &&& self.inflight_view().len() + self.buffer_view().len() <= self.window_view()
        &&& forall|i: int|
            0 <= i < self.inflight_view().len() ==> #[trigger] self.inflight_view()[i].0
                <= self.inflight_view()[i].1 < self.next_fetch_view()
        &&& forall|k: u64|
            #[trigger] self.buffer_view().contains_key(k) ==> k + self.buffer_view()[k]@.len()
                <= self.next_fetch_view()
        &&& self.window_view() >= 1
        &&& self.chunk_len_view() >= 1
    }

    /// A window over `[downloaded, total)` with `parallelism` requests at once
    /// (at least one).
    pub fn new(downloaded: u64, total: u64, chunk_len: u64, parallelism: u8) -> (w: ChunkWindow)
        requires
            downloaded < total,
            chunk_len >= 1,
        ensures
            w.wf(),
            w.total_view() == total,
            w.chunk_len_view() == chunk_len,
            w.window_view() == (if parallelism == 0 {
                1
            } else {
                parallelism as nat
            }),
            w.next_write_view() == downloaded,
            w.next_fetch_view() == downloaded,
            w.received_view() == downloaded,
            w.inflight_view() == Seq::<(u64, u64)>::empty(),
            w.buffer_view() == Map::<u64, Vec<u8>>::empty(),
            !w.failed_view(),
    {
        let window: usize = if parallelism == 0 {
            1
        } else {
            parallelism as usize
        };
        ChunkWindow {
            total,
            chunk_len,
            window,
            next_write: downloaded,
            next_fetch: downloaded,
            received: downloaded,
            inflight: Vec::new(),
            buffer: BTreeMap::new(),
            fetch_error: None,
        }
    }

    /// Whether every byte has been written.
    pub fn is_done(&self) -> (b: bool)
        ensures
            b == (self.next_write_view() >= self.total_view()),
    {
        self.next_write >= self.total
    }

    /// Whether nothing is in flight.
    pub fn idle(&self) -> (b: bool)
        ensures
            b == (self.inflight_view().len() == 0),
    {
        self.inflight.len() == 0
    }

    /// Bytes received so far.
    pub fn received(&self) -> (r: u64)
        ensures
            r == self.received_view(),
    {
        self.received
    }

    /// Issue requests until the window is full, the file is fully requested, or
    /// a fetch has failed: each range starts where the previous one ended and
    /// is at most one chunk long, never past the last byte.
    pub fn refill(&mut self) -> (ranges: Vec<(u64, u64)>)
        requires
            old(self).wf(),
        ensures
            final(self).wf(),
            final(self).total_view() == old(self).total_view(),
            final(self).chunk_len_view() == old(self).chunk_len_view(),
            final(self).window_view() == old(self).window_view(),
            final(self).next_write_view() == old(self).next_write_view(),
            final(self).received_view() == old(self).received_view(),
            final(self).buffer_view() == old(self).buffer_view(),
            final(self).failed_view() == old(self).failed_view(),
            final(self).fetch_error_view() == old(self).fetch_error_view(),
            final(self).inflight_view() == old(self).inflight_view() + ranges@,
            ranges@.len() > 0 ==> ranges@[0].0 == old(self).next_fetch_view(),
            forall|i: int|
                0 <= i < ranges@.len() ==> {
                    &&& #[trigger] ranges@[i].1 == (if chunk_end_spec(
                        ranges@[i].0,
                        old(self).chunk_len_view(),
                    ) < old(self).total_view() - 1 {
                        chunk_end_spec(ranges@[i].0, old(self).chunk_len_view())
                    } else {
                        (old(self).total_view() - 1) as u64
                    })
                    &&& ranges@[i].0 <= ranges@[i].1 < old(self).total_view()
                    &&& i + 1 < ranges@.len() ==> ranges@[i + 1].0 == ranges@[i].1 + 1
                    &&& i + 1 == ranges@.len() ==> final(self).next_fetch_view() == ranges@[i].1
                        + 1
                },
            ranges@.len() == 0 ==> final(self).next_fetch_view() == old(self).next_fetch_view(),
            final(self).failed_view() || final(self).next_fetch_view() == final(self).total_view()
                || final(self).inflight_view().len() + final(self).buffer_view().len()
                == final(self).window_view(),
    {
        let mut ranges: Vec<(u64, u64)> = Vec::new();
        let ghost old_inflight = self.inflight@;
        let ghost start0 = self.next_fetch;
        while self.fetch_error.is_none() && self.inflight.len() + self.buffer.len() < self.window
            && self.next_fetch < self.total
            invariant
                self.wf(),
                self.total == old(self).total,
                self.chunk_len == old(self).chunk_len,
                self.window == old(self).window,
                self.next_write == old(self).next_write,
                self.received == old(self).received,
                self.buffer@ == old(self).buffer@,
                self.fetch_error == old(self).fetch_error,
                self.inflight@ == old_inflight + ranges@,
                old_inflight == old(self).inflight@,
                start0 == old(self).next_fetch,
                ranges@.len() > 0 ==> ranges@[0].0 == start0,
                ranges@.len() == 0 ==> self.next_fetch == start0,
                forall|i: int|
                    0 <= i < ranges@.len() ==> {
                        &&& #[trigger] ranges@[i].1 == (if chunk_end_spec(
                            ranges@[i].0,
                            self.chunk_len,
                        ) < self.total - 1 {
                            chunk_end_spec(ranges@[i].0, self.chunk_len)
                        } else {
                            (self.total - 1) as u64
                        })
                        &&& ranges@[i].0 <= ranges@[i].1 < self.total
                        &&& i + 1 < ranges@.len() ==> ranges@[i + 1].0 == ranges@[i].1 + 1
                        &&& i + 1 == ranges@.len() ==> self.next_fetch == ranges@[i].1 + 1
                    },
            decreases self.total - self.next_fetch,
        {
            let start = self.next_fetch;
            let ce = chunk_end(start, self.chunk_len);
            let end = if ce < self.total - 1 {
                ce
            } else {
                self.total - 1
            };
            assert(start <= end);
            self.next_fetch = end + 1;
            self.inflight.push((start, end));
            ranges.push((start, end));
            proof {
                assert(self.inflight@ =~= old_inflight + ranges@);
            }
        }
        ranges
    }

    /// Index of `start` among the in-flight requests.
    fn inflight_index(&self, start: u64) -> (r: Option<usize>)
        ensures
            match r {
                Some(i) => i < self.inflight@.len() && self.inflight@[i as int].0 == start,
                None => forall|j: int| 0 <= j < self.inflight@.len() ==> self.inflight@[j].0 != start,
            },
    {
        let mut i: usize = 0;
        while i < self.inflight.len()
            invariant
                i <= self.inflight@.len(),
                forall|j: int| 0 <= j < i ==> self.inflight@[j].0 != start,
            decreases self.inflight.len() - i,
        {
            if self.inflight[i].0 == start {
                return Some(i);
            }
            i = i + 1;
        }
        None
    }

    /// Record the result of the request started at `start`: a chunk from a
    /// copy whose size changed mid-download, or a failed fetch, marks the
    /// window failed (no new requests; buffered chunks below the gap are still
    /// written); any other chunk joins the reorder buffer. A delivered chunk is
    /// never longer than its range (the range assembly truncates to it).
    pub fn deliver(&mut self, start: u64, result: Result<AudioChunk, ChunkError>)
        requires
            old(self).wf(),
            exists|i: int|
                0 <= i < old(self).inflight_view().len() && #[trigger] old(
                    self,
                ).inflight_view()[i].0 == start,
            forall|i: int|
                0 <= i < old(self).inflight_view().len() && #[trigger] old(
                    self,
                ).inflight_view()[i].0 == start ==> (result matches Ok(c) ==> start
                    + c.bytes@.len() <= old(self).inflight_view()[i].1 + 1),
        ensures
            final(self).wf(),
            final(self).total_view() == old(self).total_view(),
            final(self).chunk_len_view() == old(self).chunk_len_view(),
            final(self).window_view() == old(self).window_view(),
            final(self).next_write_view() == old(self).next_write_view(),
            final(self).next_fetch_view() == old(self).next_fetch_view(),
            final(self).inflight_view().len() == old(self).inflight_view().len() - 1,
            match result {
                Ok(c) => if c.total is Some && c.total != Some(old(self).total_view()) {
                    &&& final(self).failed_view()
                    &&& final(self).buffer_view() == old(self).buffer_view()
                    &&& final(self).received_view() == old(self).received_view()
                    &&& old(self).fetch_error_view() is Some ==> final(self).fetch_error_view()
                        == old(self).fetch_error_view()
                    &&& old(self).fetch_error_view() is None ==> (final(self).fetch_error_view() matches Some(
                        ChunkError::Other(m),
                    ) && m@ == copy_changed_msg(old(self).total_view(), c.total->0))
                } else {
                    &&& final(self).failed_view() == old(self).failed_view()
                    &&& final(self).fetch_error_view() == old(self).fetch_error_view()
                    &&& final(self).buffer_view() == old(self).buffer_view().insert(start, c.bytes)
                    &&& final(self).received_view() == (if old(self).received_view()
                        + c.bytes@.len() > u64::MAX {
                        u64::MAX as int
                    } else {
                        old(self).received_view() + c.bytes@.len()
                    })
                },
                Err(e) => {
                    &&& final(self).failed_view()
                    &&& final(self).buffer_view() == old(self).buffer_view()
                    &&& final(self).received_view() == old(self).received_view()
                    &&& final(self).fetch_error_view() == (if old(self).fetch_error_view() is Some {
                        old(self).fetch_error_view()
                    } else {
                        Some(e)
                    })
                },
            },
    {
        let idx = self.inflight_index(start);
        let i = match idx {
            Some(i) => i,
            None => {
                assert(false);
                0
            },
        };
        let (_, range_end) = self.inflight.remove(i);
        proof {
            assert(old(self).inflight@[i as int].0 == start);
            assert forall|k: int| 0 <= k < self.inflight@.len() implies #[trigger] self.inflight@[k].0
                <= self.inflight@[k].1 < self.next_fetch by {
                if k < i {
                    assert(self.inflight@[k] == old(self).inflight@[k]);
                } else {
                    assert(self.inflight@[k] == old(self).inflight@[k + 1]);
                }
            }
        }
        match result {
            Ok(c) => {
                match c.total {
                    Some(ct) => {
                        if ct != self.total {
                            if self.fetch_error.is_none() {
                                let mut m = String::from_str("server copy changed during download (was ");
                                push_decimal(&mut m, self.total);
                                m.append(", now ");
                                push_decimal(&mut m, ct);
                                m.append(")");
                                self.fetch_error = Some(ChunkError::Other(m));
                            }
                            return;
                        }
                    },
                    None => {},
                }
                let n = c.bytes.len() as u64;
                self.received = self.received.saturating_add(n);
                self.buffer.insert(start, c.bytes);
            },
            Err(e) => {
                if self.fetch_error.is_none() {
                    self.fetch_error = Some(e);
                }
            },
        }
    }

    /// The chunk to write next, when the one starting at the write cursor is
    /// buffered: it leaves the buffer and the cursor advances past it. Writes
    /// therefore happen strictly in byte order. An empty chunk ends the window
    /// (the server had nothing for an in-range request).
    pub fn take_next(&mut self) -> (r: Option<Vec<u8>>)
        requires
            old(self).wf(),
        ensures
            final(self).wf(),
            final(self).total_view() == old(self).total_view(),
            final(self).chunk_len_view() == old(self).chunk_len_view(),
            final(self).window_view() == old(self).window_view(),
            final(self).next_fetch_view() == old(self).next_fetch_view(),
            final(self).received_view() == old(self).received_view(),
            final(self).inflight_view() == old(self).inflight_view(),
            final(self).failed_view() == old(self).failed_view(),
            final(self).fetch_error_view() == old(self).fetch_error_view(),
            match r {
                Some(bytes) => {
                    &&& old(self).buffer_view().contains_key(old(self).next_write_view())
                    &&& old(self).buffer_view()[old(self).next_write_view()] == bytes
                    &&& final(self).buffer_view() == old(self).buffer_view().remove(
                        old(self).next_write_view(),
                    )
                    &&& final(self).next_write_view() == old(self).next_write_view() + bytes@.len()
                },
                None => {
                    &&& !old(self).buffer_view().contains_key(old(self).next_write_view())
                    &&& final(self).buffer_view() == old(self).buffer_view()
                    &&& final(self).next_write_view() == old(self).next_write_view()
                },
            },
    {
        let at = self.next_write;
        match self.buffer.remove(&at) {
            None => None,
            Some(bytes) => {
                assert(old(self).buffer@.contains_key(at));
                let n = bytes.len() as u64;
                self.next_write = self.next_write + n;
                Some(bytes)
            },
        }
    }

    /// The error to surface when nothing is in flight and the chunk at the
    /// write cursor never arrived: the fetch failure, or a stall report.
    pub fn stall_error(self) -> (e: ChunkError)
        ensures
            match self.fetch_error_view() {
                Some(f) => e == f,
                None => e matches ChunkError::Other(m) && m@ == "download stalled at "@
                    + dec_digits(self.next_write_view() as nat) + "/"@ + dec_digits(
                    self.total_view() as nat,
                ) + " bytes"@,
            },
    {
        match self.fetch_error {
            Some(f) => f,
            None => {
                let mut m = String::from_str("download stalled at ");
                push_decimal(&mut m, self.next_write);
                m.append("/");
                push_decimal(&mut m, self.total);
                m.append(" bytes");
                ChunkError::Other(m)
            },
        }
    }

    /// The recorded fetch failure.
    pub closed spec fn fetch_error_view(self) -> Option<ChunkError> {
        self.fetch_error
    }
}

// ── The server-side download progress poll ─────────────────────────────────

/// Poll ceiling (about 30 minutes at 1 Hz while bytes flow).
pub const SERVER_PROGRESS_POLL_TICKS: u32 = 1800;

/// Wall-clock budget (s) of not-running or failed polls before giving up.
pub const SERVER_PROGRESS_START_GRACE_SECS: u32 = 30;

/// Cap (s) on the idle-phase backoff between polls.
pub const SERVER_PROGRESS_MAX_BACKOFF_SECS: u32 = 8;

/// What one progress poll returned.
#[derive(Clone, Copy, Debug, PartialEq, Eq, Structural)]
pub enum ProgressReply {
    /// The server is downloading; the whole percent when the length is known.
    Running(Option<u8>),
    /// The server has no download in flight for the episode.
    NotRunning,
    /// The poll failed.
    Failed,
}

/// What follows a progress poll.
#[derive(Clone, Copy, Debug, PartialEq, Eq, Structural)]
pub enum PollNext {
    /// Publish `publish` when given, sleep `sleep_secs`, poll again.
    Continue { publish: Option<u8>, sleep_secs: u32 },
    /// Stop polling and refresh the episode's durable status.
    Finish,
}

/// The progress poll's state.
#[derive(Clone, Copy, Debug, PartialEq, Eq, Structural)]
pub struct ServerProgressPoll {
    /// Whether a running download was ever seen.
    pub seen: bool,
    /// Seconds spent on not-running or failed polls since bytes last flowed.
    pub idle_secs: u32,
    /// The current delay between polls (s).
    pub backoff: u32,
    /// The last percent published (-1 = none).
    pub last_pct: i32,
    /// Polls made.
    pub ticks: u32,
}

/// The idle-phase bookkeeping after a not-running or failed poll: the idle
/// time grows by the delay waited; the poll gives up once the grace budget is
/// spent, otherwise the delay doubles up to its cap.
pub open spec fn idle_step(p: ServerProgressPoll) -> (ServerProgressPoll, PollNext) {
    let idle = p.idle_secs + p.backoff;
    if idle >= SERVER_PROGRESS_START_GRACE_SECS {
        (ServerProgressPoll { idle_secs: idle as u32, ticks: (p.ticks + 1) as u32, ..p }, PollNext::Finish)
    } else {
        let b = if p.backoff * 2 < SERVER_PROGRESS_MAX_BACKOFF_SECS {
            p.backoff * 2
        } else {
            SERVER_PROGRESS_MAX_BACKOFF_SECS as int
        };
        let q = ServerProgressPoll {
            idle_secs: idle as u32,
            backoff: b as u32,
            ticks: (p.ticks + 1) as u32,
            ..p
        };
        (q, if q.ticks >= SERVER_PROGRESS_POLL_TICKS {
            PollNext::Finish
        } else {
            PollNext::Continue { publish: None, sleep_secs: b as u32 }
        })
    }
}

/// `progress_poll_step`'s transition.
pub open spec fn progress_spec(p: ServerProgressPoll, reply: ProgressReply) -> (ServerProgressPoll, PollNext) {
    match reply {
        ProgressReply::Running(pct) => {
            let publish = match pct {
                Some(x) => if x as int != p.last_pct {
                    Some(x)
                } else {
                    None
                },
                None => None,
            };
            let q = ServerProgressPoll {
                seen: true,
                idle_secs: 0,
                backoff: 1,
                last_pct: match publish {
                    Some(x) => x as i32,
                    None => p.last_pct,
                },
                ticks: (p.ticks + 1) as u32,
            };
            (q, if q.ticks >= SERVER_PROGRESS_POLL_TICKS {
                PollNext::Finish
            } else {
                PollNext::Continue { publish, sleep_secs: 1 }
            })
        },
        ProgressReply::NotRunning => if p.seen {
            (ServerProgressPoll { ticks: (p.ticks + 1) as u32, ..p }, PollNext::Finish)
        } else {
            idle_step(p)
        },
        ProgressReply::Failed => idle_step(p),
    }
}

/// Whether a poll state is one the loop can be in.
pub open spec fn poll_wf(p: ServerProgressPoll) -> bool {
    &&& 1 <= p.backoff <= SERVER_PROGRESS_MAX_BACKOFF_SECS
    &&& p.idle_secs < SERVER_PROGRESS_START_GRACE_SECS
    &&& p.ticks < SERVER_PROGRESS_POLL_TICKS
}

impl ServerProgressPoll {
    /// Nothing seen yet; the first poll comes after one second.
    pub fn new() -> (p: ServerProgressPoll)
        ensures
            poll_wf(p),
            p == (ServerProgressPoll { seen: false, idle_secs: 0, backoff: 1, last_pct: -1i32, ticks: 0 }),
    {
        ServerProgressPoll { seen: false, idle_secs: 0, backoff: 1, last_pct: -1, ticks: 0 }
    }
}

/// Record a progress poll: while bytes flow, poll at 1 Hz and publish each new
/// percent; a download that stops running after it was seen is finished; before
/// it starts (or during a blip) back off exponentially within the grace budget.
pub fn progress_poll_step(p: &mut ServerProgressPoll, reply: ProgressReply) -> (n: PollNext)
    requires
        poll_wf(*old(p)),
    ensures
        (*final(p), n) == progress_spec(*old(p), reply),
        n is Continue ==> poll_wf(*final(p)),
{
    match reply {
        ProgressReply::Running(pct) => {
            p.seen = true;
            p.idle_secs = 0;
            p.backoff = 1;
            let publish = match pct {
                Some(x) => if x as i32 != p.last_pct {
                    p.last_pct = x as i32;
                    Some(x)
                } else {
                    None
                },
                None => None,
            };
            p.ticks = p.ticks + 1;
            if p.ticks >= SERVER_PROGRESS_POLL_TICKS {
                PollNext::Finish
            } else {
                PollNext::Continue { publish, sleep_secs: 1 }
            }
        },
        ProgressReply::NotRunning if p.seen => {
            p.ticks = p.ticks + 1;
            PollNext::Finish
        },
        _ => {
            let idle = p.idle_secs + p.backoff;
            p.idle_secs = idle;
            p.ticks = p.ticks + 1;
            if idle >= SERVER_PROGRESS_START_GRACE_SECS {
                return PollNext::Finish;
            }
            let b = if p.backoff * 2 < SERVER_PROGRESS_MAX_BACKOFF_SECS {
                p.backoff * 2
            } else {
                SERVER_PROGRESS_MAX_BACKOFF_SECS
            };
            p.backoff = b;
            if p.ticks >= SERVER_PROGRESS_POLL_TICKS {
                PollNext::Finish
            } else {
                PollNext::Continue { publish: None, sleep_secs: b }
            }
        },
    }
}

/// However the server answers, the poll ends: each poll either makes progress
/// towards the tick ceiling, and a stretch without bytes flowing spends the
/// grace budget.
pub proof fn lemma_progress_poll_ticks(p: ServerProgressPoll, reply: ProgressReply)
    requires
        poll_wf(p),
    ensures
        progress_spec(p, reply).0.ticks == p.ticks + 1,
        !(reply is Running) ==> progress_spec(p, reply).0.idle_secs >= p.idle_secs + 1
            || progress_spec(p, reply).1 == PollNext::Finish,
{
}

} // verus!
