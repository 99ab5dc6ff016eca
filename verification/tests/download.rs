use halogen_ui_core::download::{ StagedPartial, StreamAction, StreamPass, chunk_failure, ChunkedPass, PassAction, PassPhase, progress_poll_step, PollNext, ProgressReply, ServerProgressPoll, };
use halogen_ui_core::download::{
    after_chunked_attempt, batch_due, chunk_end, chunk_retry_step, finish_check, full_untotaled,
    progress_update, resume_total, server_wait_step, staged_check, stream_resume_ok, stream_total,
    AttemptNext, AudioChunk, ChunkError, ChunkRetry, ChunkWindow, FetchOutcome, PollOutcome,
    RangeAssembly, RetryStep, ServerCopy, ServerWait, StagedCheck, WaitStep, DEVICE_POLL_TRIES,
    STREAM_FLUSH_BYTES,
};

fn chunk(bytes: Vec<u8>, served_from: u64, total: Option<u64>) -> AudioChunk {
    AudioChunk { bytes, total, served_from, content_type: None }
}

#[test]
fn oversized_partial_is_discarded_and_complete_one_committed() {
    assert_eq!(staged_check(60, Some(40)), StagedCheck::Oversized);
    assert_eq!(staged_check(40, Some(40)), StagedCheck::Complete);
    assert_eq!(staged_check(16, Some(40)), StagedCheck::Fetch);
    assert_eq!(staged_check(16, None), StagedCheck::Fetch);
}

#[test]
fn offset_mismatch_restarts_once_then_falls_back_to_streaming() {
    let e = || Err(ChunkError::OffsetMismatch { requested: 16, served_from: 0 });
    assert!(matches!(after_chunked_attempt(true, e()), AttemptNext::RestartFromScratch));
    assert!(matches!(after_chunked_attempt(false, e()), AttemptNext::FallbackToStreaming));
    assert!(matches!(after_chunked_attempt(true, Ok(())), AttemptNext::Finish(Ok(()))));
    match after_chunked_attempt(true, Err(ChunkError::Other("x".into()))) {
        AttemptNext::Finish(Err(m)) => assert_eq!(m, "x"),
        _ => panic!("other errors are reported"),
    }
    assert_eq!(
        ChunkError::OffsetMismatch { requested: 16, served_from: 0 }.into_message(),
        "server ignored the requested byte range (asked for offset 16, served 0)"
    );
}

#[test]
fn finish_requires_the_exact_total() {
    assert_eq!(finish_check(40, Some(40), true), Ok(()));
    assert_eq!(finish_check(30, Some(40), true), Err("incomplete download (30/40 bytes)".to_string()));
    assert!(finish_check(0, None, true).is_err());
    assert!(finish_check(10, None, false).is_err());
}

#[test]
fn resume_and_stream_totals() {
    assert_eq!(resume_total(None, Some(40)), Some(40));
    assert_eq!(resume_total(Some(40), Some(40)), Some(40));
    assert_eq!(resume_total(Some(50), Some(40)), None);
    assert_eq!(resume_total(Some(50), None), None);
    assert!(stream_resume_ok(16, 16, Some(40), Some(40)));
    assert!(!stream_resume_ok(16, 0, Some(40), Some(40)));
    assert!(!stream_resume_ok(16, 16, Some(40), Some(41)));
    assert_eq!(stream_total(None, Some(9)), Some(9));
    assert_eq!(stream_total(Some(8), Some(9)), Some(8));
    assert!(full_untotaled(None, 16, 16));
    assert!(!full_untotaled(Some(40), 16, 16));
    assert!(batch_due(STREAM_FLUSH_BYTES));
    assert!(!batch_due(STREAM_FLUSH_BYTES - 1));
    assert_eq!(chunk_end(0, 16), 15);
}

#[test]
fn progress_is_throttled_to_changes() {
    let mut last = -1;
    assert_eq!(progress_update(10, Some(40), &mut last), Some(25));
    assert_eq!(progress_update(10, Some(40), &mut last), None);
    assert_eq!(progress_update(40, Some(40), &mut last), Some(100));
    assert_eq!(progress_update(40, None, &mut last), None);
}

#[test]
fn server_wait_ready_failed_or_timed_out() {
    let mut w = ServerWait::new();
    assert_eq!(server_wait_step(&mut w, PollOutcome::Fetched(ServerCopy::Pending)), WaitStep::PollAgain);
    assert_eq!(server_wait_step(&mut w, PollOutcome::Fetched(ServerCopy::Downloaded)), WaitStep::Ready);
    let mut w = ServerWait::new();
    assert_eq!(
        server_wait_step(&mut w, PollOutcome::Fetched(ServerCopy::Failed)),
        WaitStep::Fail("the server couldn't fetch the episode".to_string())
    );
    let mut w = ServerWait::new();
    let mut last = WaitStep::PollAgain;
    for _ in 0..5 {
        last = server_wait_step(&mut w, PollOutcome::TransportError);
    }
    assert_eq!(last, WaitStep::Fail("you appear to be offline — can't reach the server to download".to_string()));
    let mut w = ServerWait::new();
    let mut last = WaitStep::PollAgain;
    for _ in 0..DEVICE_POLL_TRIES {
        last = server_wait_step(&mut w, PollOutcome::Fetched(ServerCopy::Pending));
    }
    assert_eq!(last, WaitStep::Fail("timed out waiting for the server download".to_string()));
}

#[test]
fn chunk_retries_back_off_and_mismatch_is_final() {
    let mut r = ChunkRetry::new();
    match chunk_retry_step(&mut r, 0, FetchOutcome::Error("503".into())) {
        RetryStep::Retry(ms) => assert_eq!(ms, 500),
        _ => panic!("a transient error is retried"),
    }
    match chunk_retry_step(&mut r, 0, FetchOutcome::Error("503".into())) {
        RetryStep::Retry(ms) => assert_eq!(ms, 1000),
        _ => panic!("a transient error is retried"),
    }
    match chunk_retry_step(&mut r, 16, FetchOutcome::Chunk(chunk(vec![1], 0, None))) {
        RetryStep::Done(Err(ChunkError::OffsetMismatch { requested, served_from })) => {
            assert_eq!((requested, served_from), (16, 0))
        }
        _ => panic!("a mis-offset chunk is an error"),
    }
    let mut r = ChunkRetry::new();
    match chunk_retry_step(&mut r, 0, FetchOutcome::PermanentError("gone".into())) {
        RetryStep::Done(Err(ChunkError::Other(m))) => assert_eq!(m, "gone"),
        _ => panic!("a permanent error is final"),
    }
}

#[test]
fn range_assembly_accumulates_in_order() {
    let mut a = RangeAssembly::new(0, 7);
    assert!(!a.is_complete());
    a.add(1, chunk(vec![0, 1, 2, 3], 0, Some(40))).unwrap();
    assert_eq!(a.next_offset(), 4);
    a.add(1, chunk(vec![4, 5, 6, 7, 8], 4, Some(40))).unwrap();
    assert!(a.is_complete());
    let c = a.finish();
    assert_eq!(c.bytes, vec![0, 1, 2, 3, 4, 5, 6, 7]);
    assert_eq!(c.served_from, 0);
}

#[test]
fn window_writes_strictly_in_byte_order() {
    let file: Vec<u8> = (0u8..40).collect();
    let mut w = ChunkWindow::new(0, 40, 16, 2);
    let ranges = w.refill();
    assert_eq!(ranges, vec![(0, 15), (16, 31)]);
    // The second chunk lands first: it waits in the buffer.
    w.deliver(16, Ok(chunk(file[16..32].to_vec(), 16, Some(40))));
    assert_eq!(w.take_next(), None);
    w.deliver(0, Ok(chunk(file[0..16].to_vec(), 0, Some(40))));
    let mut out = Vec::new();
    while let Some(b) = w.take_next() {
        out.extend(b);
    }
    assert_eq!(out, file[0..32].to_vec());
    let ranges = w.refill();
    assert_eq!(ranges, vec![(32, 39)]);
    w.deliver(32, Ok(chunk(file[32..40].to_vec(), 32, Some(40))));
    while let Some(b) = w.take_next() {
        out.extend(b);
    }
    assert_eq!(out, file);
    assert!(w.is_done());
    assert!(w.idle());
    assert_eq!(w.received(), 40);
}

#[test]
fn server_progress_poll_publishes_changes_and_backs_off() {
    let mut p = ServerProgressPoll::new();
    // Not started yet: back off 2, 4, 8, 8 … within the 30 s grace budget.
    assert_eq!(progress_poll_step(&mut p, ProgressReply::NotRunning), PollNext::Continue { publish: None, sleep_secs: 2 });
    assert_eq!(progress_poll_step(&mut p, ProgressReply::Failed), PollNext::Continue { publish: None, sleep_secs: 4 });
    // Bytes flow: 1 Hz, each new percent published once.
    assert_eq!(progress_poll_step(&mut p, ProgressReply::Running(Some(10))), PollNext::Continue { publish: Some(10), sleep_secs: 1 });
    assert_eq!(progress_poll_step(&mut p, ProgressReply::Running(Some(10))), PollNext::Continue { publish: None, sleep_secs: 1 });
    assert_eq!(progress_poll_step(&mut p, ProgressReply::Running(None)), PollNext::Continue { publish: None, sleep_secs: 1 });
    // Seen, then gone: finished.
    assert_eq!(progress_poll_step(&mut p, ProgressReply::NotRunning), PollNext::Finish);
    // Never started: gives up once the grace budget is spent (1+2+4+8+8+8 ≥ 30).
    let mut q = ServerProgressPoll::new();
    let mut n = 0;
    loop {
        n += 1;
        if progress_poll_step(&mut q, ProgressReply::NotRunning) == PollNext::Finish {
            break;
        }
    }
    assert_eq!(n, 6);
}

fn other_msg(e: ChunkError) -> String {
    match e {
        ChunkError::Other(m) => m,
        ChunkError::OffsetMismatch { .. } => panic!("expected a message error"),
    }
}

#[test]
fn window_keeps_the_first_fetch_failure() {
    let mut w = ChunkWindow::new(0, 40, 16, 2);
    assert_eq!(w.refill(), vec![(0, 15), (16, 31)]);
    w.deliver(16, Err(ChunkError::Other("first".into())));
    w.deliver(0, Err(ChunkError::Other("second".into())));
    // A failed window issues no new requests.
    assert!(w.refill().is_empty());
    assert!(w.idle());
    assert_eq!(other_msg(w.stall_error()), "first");
}

#[test]
fn window_fails_when_the_server_copy_changes() {
    let mut w = ChunkWindow::new(0, 40, 16, 1);
    assert_eq!(w.refill(), vec![(0, 15)]);
    w.deliver(0, Ok(chunk(vec![0; 16], 0, Some(50))));
    assert_eq!(w.take_next(), None);
    assert_eq!(
        other_msg(w.stall_error()),
        "server copy changed during download (was 40, now 50)"
    );
}

#[test]
fn chunk_failures_on_auth_or_gone_are_permanent() {
    for s in [401u16, 403, 404, 410] {
        assert!(matches!(chunk_failure(Some(s), "x".into()), FetchOutcome::PermanentError(m) if m == "x"));
    }
    for s in [400u16, 429, 500, 503] {
        assert!(matches!(chunk_failure(Some(s), "y".into()), FetchOutcome::Error(m) if m == "y"));
    }
    assert!(matches!(chunk_failure(None, "z".into()), FetchOutcome::Error(m) if m == "z"));
}

#[test]
fn fresh_chunked_pass_opens_lazily_then_goes_windowed() {
    let (mut p, acts) = ChunkedPass::begin(None, 16);
    assert!(acts.is_empty());
    assert_eq!(p.advance(), PassAction::Fetch { start: 0, end: 15 });
    assert_eq!(
        p.on_chunk(16, Some(40)),
        vec![PassAction::OpenWriter { total: Some(40), append: false }, PassAction::Write]
    );
    assert_eq!(p.phase, PassPhase::Window);
    assert_eq!(p.advance(), PassAction::RunWindow { from: 16, total: 40 });
    p.on_window_done(40);
    assert_eq!(p.advance(), PassAction::Finish);
    assert_eq!(finish_check(p.downloaded, p.total, p.writer_open), Ok(()));
}

#[test]
fn untotaled_full_chunks_keep_pulling_until_a_short_one() {
    let (mut p, _) = ChunkedPass::begin(None, 16);
    p.advance();
    p.on_chunk(16, None);
    assert_eq!(p.phase, PassPhase::Untotaled);
    assert_eq!(p.advance(), PassAction::Fetch { start: 16, end: 31 });
    assert_eq!(p.on_chunk(16, None), vec![PassAction::Write]);
    assert_eq!(p.phase, PassPhase::Untotaled);
    assert_eq!(p.on_chunk(5, None), vec![PassAction::Write]);
    assert_eq!(p.phase, PassPhase::Finished);
    assert_eq!(p.downloaded, 37);
    // A total reported mid-stream hands off to the window.
    let (mut q, _) = ChunkedPass::begin(None, 16);
    q.advance();
    q.on_chunk(16, None);
    assert_eq!(q.on_chunk(16, Some(100)), vec![PassAction::Write]);
    assert_eq!(q.phase, PassPhase::Window);
    assert_eq!(q.advance(), PassAction::RunWindow { from: 32, total: 100 });
}

#[test]
fn resume_mismatch_restarts_from_byte_zero_once() {
    let (mut p, acts) = ChunkedPass::begin(Some((20, Some(40))), 16);
    assert_eq!(acts, vec![PassAction::OpenWriter { total: Some(40), append: true }]);
    assert_eq!(p.advance(), PassAction::Fetch { start: 20, end: 35 });
    // The server copy changed size: discard and start over.
    assert_eq!(p.on_chunk(16, Some(41)), vec![PassAction::DiscardPartial]);
    assert_eq!(p.advance(), PassAction::Fetch { start: 0, end: 15 });
    assert_eq!(
        p.on_chunk(16, Some(41)),
        vec![PassAction::OpenWriter { total: Some(41), append: false }, PassAction::Write]
    );
    assert_eq!(p.phase, PassPhase::Window);
}

#[test]
fn resume_that_still_matches_continues_the_partial() {
    let (mut p, _) = ChunkedPass::begin(Some((20, Some(40))), 16);
    p.advance();
    assert_eq!(p.on_chunk(16, Some(40)), vec![PassAction::Write]);
    assert_eq!(p.downloaded, 36);
    assert_eq!(p.advance(), PassAction::RunWindow { from: 36, total: 40 });
}

#[test]
fn staged_partial_complete_or_oversized() {
    let (mut done, _) = ChunkedPass::begin(Some((40, Some(40))), 16);
    assert_eq!(done.advance(), PassAction::Finish);
    let (mut big, _) = ChunkedPass::begin(Some((60, Some(40))), 16);
    assert_eq!(big.advance(), PassAction::DiscardPartial);
    assert_eq!(big.advance(), PassAction::Fetch { start: 0, end: 15 });
    assert!(!big.writer_open);
    // An empty staged partial is no resume.
    let (fresh, acts) = ChunkedPass::begin(Some((0, Some(40))), 16);
    assert!(acts.is_empty());
    assert!(!fresh.verifying_resume);
}

#[test]
fn empty_first_chunk_opens_the_writer_but_writes_nothing() {
    let (mut p, _) = ChunkedPass::begin(None, 16);
    p.advance();
    assert_eq!(p.on_chunk(0, None), vec![PassAction::OpenWriter { total: None, append: false }]);
    assert_eq!(p.advance(), PassAction::Finish);
    assert_eq!(finish_check(p.downloaded, p.total, p.writer_open), Err("empty download".to_string()));
}

fn staged(downloaded: u64, total: Option<u64>) -> Option<StagedPartial> {
    Some(StagedPartial { downloaded, total, content_type: Some("audio/mpeg".into()) })
}

#[test]
fn stream_resume_keeps_the_staged_content_type() {
    let mut p = StreamPass::new();
    assert_eq!(p.start(staged(100, Some(400))), 100);
    match p.stream_step(100, None, Some("audio/ogg".into())) {
        StreamAction::OpenWriter { content_type, total, append } => {
            assert_eq!(content_type.as_deref(), Some("audio/mpeg"));
            assert_eq!(total, Some(400));
            assert!(append);
        }
        other => panic!("unexpected {other:?}"),
    }
    p.wrote(300);
    assert_eq!(p.finish(), Ok(()));
}

#[test]
fn stream_resume_mismatch_restarts_once_from_zero() {
    let mut p = StreamPass::new();
    assert_eq!(p.start(staged(100, Some(400))), 100);
    // The range was ignored: the body starts at byte 0.
    assert!(matches!(p.stream_step(0, Some(400), None), StreamAction::RestartFromScratch));
    assert!(p.from_scratch);
    // The partial is never resumed again.
    assert_eq!(p.start(staged(100, Some(400))), 0);
    match p.stream_step(0, Some(400), Some("audio/ogg".into())) {
        StreamAction::OpenWriter { content_type, total, append } => {
            assert_eq!(content_type.as_deref(), Some("audio/ogg"));
            assert_eq!(total, Some(400));
            assert!(!append);
        }
        other => panic!("unexpected {other:?}"),
    }
    p.wrote(399);
    assert_eq!(p.finish(), Err("incomplete download (399/400 bytes)".to_string()));
}

#[test]
fn stream_size_mismatch_restarts_and_empty_stream_fails() {
    let mut p = StreamPass::new();
    p.start(staged(100, Some(400)));
    assert!(matches!(p.stream_step(100, Some(500), None), StreamAction::RestartFromScratch));
    let mut q = StreamPass::new();
    assert_eq!(q.start(None), 0);
    q.stream_step(0, None, None);
    assert_eq!(q.finish(), Err("empty download".to_string()));
}

#[test]
fn range_assembly_keeps_the_first_content_type() {
    let mut a = RangeAssembly::new(0, 7);
    a.add(1, AudioChunk { bytes: vec![0, 1, 2, 3], total: None, served_from: 0, content_type: None }).unwrap();
    a.add(1, AudioChunk { bytes: vec![4, 5], total: Some(40), served_from: 4, content_type: Some("audio/mpeg".into()) }).unwrap();
    a.add(1, AudioChunk { bytes: vec![6, 7], total: None, served_from: 6, content_type: Some("audio/ogg".into()) }).unwrap();
    let c = a.finish();
    assert_eq!(c.content_type.as_deref(), Some("audio/mpeg"));
    assert_eq!(c.total, Some(40));
}
