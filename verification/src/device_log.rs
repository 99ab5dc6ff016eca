//! The device log: a bounded in-memory ring of captured lines (the viewer's
//! source of truth), the not-yet-persisted queue that the flush loop drains,
//! and the runtime capture filter (enabled flag + level threshold).

use std::collections::VecDeque;
use vstd::prelude::*;
use crate::level::{Level, rank, level_name, level_of_rank};
use crate::text::{dec_char, contains_seq, contains_chars, chars_of, int_dec, lowercase, push_int, to_lowercase};

verus! {

/// Maximum number of lines kept in the ring (and persisted).
pub const CAP: usize = 5000;

/// Backstop bound of the pending (not yet persisted) queue: four rings' worth.
pub const PENDING_CAP: usize = 20000;

/// One captured log line.
#[derive(Debug)]
pub struct LogLine {
    /// Unix epoch milliseconds (UTC).
    pub ts_ms: i64,
    pub level: Level,
    /// Event target (module path).
    pub target: String,
    pub msg: String,
}

impl Clone for LogLine {
    fn clone(&self) -> (r: Self)
        ensures
            r == *self,
    {
        LogLine {
            ts_ms: self.ts_ms,
            level: self.level,
            target: self.target.clone(),
            msg: self.msg.clone(),
        }
    }
}

/// The `HH:MM:SS.mmm` (UTC) rendering of an epoch-milliseconds stamp, or `None`
/// when the stamp is outside the calendar's range, as chrono computes it.
pub uninterp spec fn utc_clock_text(ts_ms: i64) -> Option<Seq<char>>;

/// `n` (0..=99) as two zero-padded digits.
pub open spec fn two_digits(n: int) -> Seq<char> {
    seq![dec_char(n / 10), dec_char(n % 10)]
}

/// The `HH:MM:SS.mmm` time of day (UTC) of an epoch-milliseconds stamp: the
/// stamp's (Euclidean) remainder modulo one day.
pub open spec fn clock_of_day(ts_ms: i64) -> Seq<char> {
    let d = (ts_ms as int) % 86_400_000;
    let ms = d % 1000;
    two_digits(d / 3_600_000) + ":"@ + two_digits((d / 60_000) % 60) + ":"@ + two_digits(
        (d / 1000) % 60,
    ) + "."@ + seq![dec_char(ms / 100), dec_char((ms / 10) % 10), dec_char(ms % 10)]
}

/// `chrono::DateTime::from_timestamp_millis` followed by
/// `format("%H:%M:%S%.3f")`: the UTC wall-clock time of `ts_ms`, or `None`
/// when chrono has no date for that stamp. The result is named by
/// [`utc_clock_text`]; when there is one, it is the stamp's time of day
/// ([`clock_of_day`]). Which stamps fall outside chrono's calendar range is
/// not restated.
#[verifier::external_body]
fn chrono_clock_text(ts_ms: i64) -> (r: Option<String>)
    ensures
        match r {
            Some(s) => utc_clock_text(ts_ms) == Some(s@) && s@ == clock_of_day(ts_ms),
            None => utc_clock_text(ts_ms) is None,
        },
{
    chrono::DateTime::from_timestamp_millis(ts_ms).map(|dt| dt.format("%H:%M:%S%.3f").to_string())
}

/// A wall-clock reading.
#[verifier::external_type_specification]
#[verifier::external_body]
pub struct ExSystemTime(std::time::SystemTime);

/// `SystemTime::now` (std): the current wall-clock time. Depends on the
/// clock: nothing is promised of it.
#[verifier::external_body]
fn system_now() -> (t: std::time::SystemTime) {
    std::time::SystemTime::now()
}

/// `SystemTime::duration_since` (std), measured from `UNIX_EPOCH`: the time
/// since the epoch, `None` when the reading lies before it. Nothing more is
/// promised.
#[verifier::external_body]
fn since_epoch(t: std::time::SystemTime) -> (d: Option<core::time::Duration>) {
    t.duration_since(std::time::UNIX_EPOCH).ok()
}

/// `Duration::as_millis` (std): the whole milliseconds of `d`. The duration
/// is opaque here, so nothing is promised of the number.
#[verifier::external_body]
fn duration_millis(d: &core::time::Duration) -> (ms: u128) {
    d.as_millis()
}

/// The current time as Unix epoch milliseconds (0 when the clock reads
/// before the epoch). Depends on the clock: nothing is promised of the value.
fn now_ms() -> (t: i64) {
    match since_epoch(system_now()) {
        Some(d) => {
            let ms = duration_millis(&d);
            #[verifier::truncate]
            (ms as i64)
        },
        None => 0,
    }
}

/// The display time of a stamp: the UTC clock text, or the raw number when the
/// stamp has no calendar date.
pub open spec fn time_text(ts_ms: i64) -> Seq<char> {
    match utc_clock_text(ts_ms) {
        Some(t) => t,
        None => int_dec(ts_ms as int),
    }
}

/// `s` left-aligned in a field five characters wide.
pub open spec fn pad5(s: Seq<char>) -> Seq<char> {
    if s.len() < 5 {
        s + Seq::new((5 - s.len()) as nat, |i: int| ' ')
    } else {
        s
    }
}

/// The single-line rendering of a log line: `time LEVEL target: msg`.
pub open spec fn formatted_spec(l: LogLine) -> Seq<char> {
    time_text(l.ts_ms) + seq![' '] + pad5(level_name(l.level)) + seq![' '] + l.target@ + seq![
        ':',
        ' ',
    ] + l.msg@
}

/// The renderings of `lines` joined by newlines.
pub open spec fn export_spec(lines: Seq<LogLine>) -> Seq<char>
    decreases lines.len(),
{
    if lines.len() == 0 {
        Seq::empty()
    } else if lines.len() == 1 {
        formatted_spec(lines[0])
    } else {
        export_spec(lines.drop_last()) + seq!['\n'] + formatted_spec(lines.last())
    }
}

/// `s` with `line` appended, dropping the oldest element when `s` already holds
/// `cap` elements.
pub open spec fn bounded_push(s: Seq<LogLine>, line: LogLine, cap: nat) -> Seq<LogLine> {
    if s.len() >= cap {
        s.drop_first().push(line)
    } else {
        s.push(line)
    }
}

/// The last `n` elements of `s` (all of `s` when it is shorter).
pub open spec fn keep_last(s: Seq<LogLine>, n: nat) -> Seq<LogLine> {
    if s.len() > n {
        s.subrange(s.len() - n, s.len() as int)
    } else {
        s
    }
}

/// Whether a line matches the lowercased query `q`: its message, target or
/// level identifier contains it, case-insensitively.
pub open spec fn line_matches(l: LogLine, q: Seq<char>) -> bool {
    contains_seq(lowercase(l.msg@), q) || contains_seq(lowercase(l.target@), q) || contains_seq(
        lowercase(level_name(l.level)),
        q,
    )
}

/// The lines of `s` that match `q`, in order.
pub open spec fn search_spec(s: Seq<LogLine>, q: Seq<char>) -> Seq<LogLine>
    decreases s.len(),
{
    if s.len() == 0 {
        Seq::empty()
    } else {
        let prev = search_spec(s.drop_last(), q);
        if line_matches(s.last(), q) {
            prev.push(s.last())
        } else {
            prev
        }
    }
}

/// The device-log state: ring, pending queue and capture filter.
pub struct DeviceLog {
    ring: VecDeque<LogLine>,
    pending: VecDeque<LogLine>,
    enabled: bool,
    level: u8,
}

impl DeviceLog {
    /// The captured lines, oldest first.
    pub closed spec fn ring_view(self) -> Seq<LogLine> {
        self.ring@
    }

    /// The lines captured but not yet handed to persistence, oldest first.
    pub closed spec fn pending_view(self) -> Seq<LogLine> {
        self.pending@
    }

    /// Whether capture is on.
    pub closed spec fn enabled_view(self) -> bool {
        self.enabled
    }

    /// The stored threshold rank.
    pub closed spec fn threshold(self) -> u8 {
        self.level
    }

    /// The bounds every device log keeps: the ring holds at most [`CAP`] lines,
    /// the pending queue at most [`PENDING_CAP`], and the stored threshold is
    /// the rank of a level.
    pub open spec fn wf(self) -> bool {
        &&& self.ring_view().len() <= CAP
        &&& self.pending_view().len() <= PENDING_CAP
        &&& self.threshold() <= 4
    }

    /// An empty log with capture `enabled` (or not) at threshold `Info`.
    pub fn new(enabled: bool) -> (log: DeviceLog)
        ensures
            log.wf(),
            log.ring_view() == Seq::<LogLine>::empty(),
            log.pending_view() == Seq::<LogLine>::empty(),
            log.enabled_view() == enabled,
            log.threshold() == 2,
    {
        DeviceLog { ring: VecDeque::new(), pending: VecDeque::new(), enabled, level: 2 }
    }
}

/// Enable/disable capture.
pub fn set_enabled(log: &mut DeviceLog, on: bool)
    ensures
        final(log).enabled_view() == on,
        final(log).ring_view() == old(log).ring_view(),
        final(log).pending_view() == old(log).pending_view(),
        final(log).threshold() == old(log).threshold(),
{
    log.enabled = on;
}

/// Whether capture is on.
pub fn enabled(log: &DeviceLog) -> (b: bool)
    ensures
        b == log.enabled_view(),
{
    log.enabled
}

/// Set the capture threshold.
pub fn set_level(log: &mut DeviceLog, level: Level)
    ensures
        final(log).threshold() as int == rank(level),
        final(log).enabled_view() == old(log).enabled_view(),
        final(log).ring_view() == old(log).ring_view(),
        final(log).pending_view() == old(log).pending_view(),
{
    log.level = level.rank_u8();
}

/// The current capture threshold (an unknown stored rank reads as `Info`).
pub fn level(log: &DeviceLog) -> (l: Level)
    ensures
        l == level_of_rank(log.threshold() as int),
{
    match log.level {
        0 => Level::Error,
        1 => Level::Warn,
        3 => Level::Debug,
        4 => Level::Trace,
        _ => Level::Info,
    }
}

/// Push a line into the ring (display) and the pending queue (persistence),
/// each dropping its oldest line when full.
fn push(log: &mut DeviceLog, line: LogLine)
    requires
        old(log).wf(),
    ensures
        final(log).wf(),
        final(log).ring_view() == bounded_push(old(log).ring_view(), line, CAP as nat),
        final(log).pending_view() == bounded_push(old(log).pending_view(), line, PENDING_CAP as nat),
        final(log).enabled_view() == old(log).enabled_view(),
        final(log).threshold() == old(log).threshold(),
{
    if log.ring.len() >= CAP {
        log.ring.pop_front();
    }
    log.ring.push_back(line.clone());
    if log.pending.len() >= PENDING_CAP {
        log.pending.pop_front();
    }
    log.pending.push_back(line);
    assert(log.ring@ =~= bounded_push(old(log).ring@, line, CAP as nat));
    assert(log.pending@ =~= bounded_push(old(log).pending@, line, PENDING_CAP as nat));
}

/// Push a line produced elsewhere (forwarded from the sync worker) into the
/// ring and the pending queue, as-is.
pub fn ingest(log: &mut DeviceLog, line: LogLine)
    requires
        old(log).wf(),
    ensures
        final(log).wf(),
        final(log).ring_view() == bounded_push(old(log).ring_view(), line, CAP as nat),
        final(log).pending_view() == bounded_push(old(log).pending_view(), line, PENDING_CAP as nat),
        final(log).enabled_view() == old(log).enabled_view(),
        final(log).threshold() == old(log).threshold(),
{
    push(log, line);
}

/// Whether a line of `level` is captured: capture is on and its
/// rank is at most the threshold.
pub open spec fn is_captured(log: DeviceLog, level: Level) -> bool {
    log.enabled_view() && rank(level) <= log.threshold()
}

/// Whether a line of `level` would be captured now (the test
/// [`capture_at`] applies; also used to skip formatting a line that would be
/// dropped).
pub fn captures(log: &DeviceLog, level: Level) -> (b: bool)
    ensures
        b == is_captured(*log, level),
{
    log.enabled && level.rank_u8() <= log.level
}

/// Record a line stamped `ts_ms`, applying the enable flag and level threshold.
pub fn capture_at(log: &mut DeviceLog, level: Level, target: &str, msg: &str, ts_ms: i64)
    requires
        old(log).wf(),
    ensures
        final(log).wf(),
        final(log).enabled_view() == old(log).enabled_view(),
        final(log).threshold() == old(log).threshold(),
        !is_captured(*old(log), level) ==> final(log).ring_view() == old(log).ring_view()
            && final(log).pending_view() == old(log).pending_view(),
        is_captured(*old(log), level) ==> exists|line: LogLine|
            {
                &&& line.ts_ms == ts_ms
                &&& line.level == level
                &&& line.target@ == target@
                &&& line.msg@ == msg@
                &&& final(log).ring_view() == bounded_push(old(log).ring_view(), line, CAP as nat)
                &&& final(log).pending_view() == bounded_push(
                    old(log).pending_view(),
                    line,
                    PENDING_CAP as nat,
                )
            },
{
    if !captures(log, level) {
        return;
    }
    let line = LogLine {
        ts_ms,
        level,
        target: String::from_str(target),
        msg: String::from_str(msg),
    };
    push(log, line);
}

/// Record a line stamped with the current wall-clock time, applying the enable
/// flag and level threshold.
pub fn capture(log: &mut DeviceLog, level: Level, target: &str, msg: &str)
    requires
        old(log).wf(),
    ensures
        final(log).wf(),
        final(log).enabled_view() == old(log).enabled_view(),
        final(log).threshold() == old(log).threshold(),
        !is_captured(*old(log), level) ==> final(log).ring_view() == old(log).ring_view()
            && final(log).pending_view() == old(log).pending_view(),
        is_captured(*old(log), level) ==> exists|line: LogLine|
            {
                &&& line.level == level
                &&& line.target@ == target@
                &&& line.msg@ == msg@
                &&& final(log).ring_view() == bounded_push(old(log).ring_view(), line, CAP as nat)
                &&& final(log).pending_view() == bounded_push(
                    old(log).pending_view(),
                    line,
                    PENDING_CAP as nat,
                )
            },
{
    let ts = now_ms();
    capture_at(log, level, target, msg, ts);
}

/// A copy of `v`.
fn clone_lines(v: &VecDeque<LogLine>) -> (r: Vec<LogLine>)
    ensures
        r@ == v@,
{
    let mut r: Vec<LogLine> = Vec::new();
    let mut i: usize = 0;
    while i < v.len()
        invariant
            i <= v@.len(),
            r@ == v@.subrange(0, i as int),
        decreases v.len() - i,
    {
        r.push(v[i].clone());
        i = i + 1;
        assert(r@ =~= v@.subrange(0, i as int));
    }
    assert(r@ =~= v@);
    r
}

/// All captured lines, oldest first.
pub fn snapshot(log: &DeviceLog) -> (v: Vec<LogLine>)
    ensures
        v@ == log.ring_view(),
{
    clone_lines(&log.ring)
}

/// Whether `l` matches the lowercased query characters `q`.
fn line_matches_exec(l: &LogLine, q: &Vec<char>) -> (b: bool)
    ensures
        b == line_matches(*l, q@),
{
    let m = to_lowercase(l.msg.as_str());
    let t = to_lowercase(l.target.as_str());
    let n = to_lowercase(l.level.as_str());
    contains_chars(&chars_of(m.as_str()), q) || contains_chars(&chars_of(t.as_str()), q)
        || contains_chars(&chars_of(n.as_str()), q)
}

/// Lines whose message, target or level identifier contains `query`
/// (case-insensitive), oldest first.
pub fn search(log: &DeviceLog, query: &str) -> (v: Vec<LogLine>)
    ensures
        v@ == search_spec(log.ring_view(), lowercase(query@)),
{
    let q = chars_of(to_lowercase(query).as_str());
    let ring = &log.ring;
    let mut r: Vec<LogLine> = Vec::new();
    let mut i: usize = 0;
    while i < ring.len()
        invariant
            i <= ring.len(),
            q@ == lowercase(query@),
            r@ == search_spec(ring@.subrange(0, i as int), q@),
        decreases ring.len() - i,
    {
        let ghost pre = ring@.subrange(0, i as int);
        if line_matches_exec(&ring[i], &q) {
            r.push(ring[i].clone());
        }
        i = i + 1;
        assert(ring@.subrange(0, i as int).drop_last() =~= pre);
    }
    assert(ring@.subrange(0, ring.len() as int) =~= ring@);
    r
}

/// Drop all captured lines and empty the pending queue.
pub fn clear(log: &mut DeviceLog)
    requires
        old(log).wf(),
    ensures
        final(log).wf(),
        final(log).ring_view() == Seq::<LogLine>::empty(),
        final(log).pending_view() == Seq::<LogLine>::empty(),
        final(log).enabled_view() == old(log).enabled_view(),
        final(log).threshold() == old(log).threshold(),
{
    log.ring.clear();
    log.pending.clear();
}

/// Take the not-yet-persisted lines, leaving the queue empty.
pub fn drain_pending(log: &mut DeviceLog) -> (v: Vec<LogLine>)
    requires
        old(log).wf(),
    ensures
        final(log).wf(),
        v@ == old(log).pending_view(),
        final(log).pending_view() == Seq::<LogLine>::empty(),
        final(log).ring_view() == old(log).ring_view(),
        final(log).enabled_view() == old(log).enabled_view(),
        final(log).threshold() == old(log).threshold(),
{
    let mut out: Vec<LogLine> = Vec::new();
    let ghost queued = log.pending@;
    while log.pending.len() > 0
        invariant
            log.ring@ == old(log).ring@,
            log.enabled == old(log).enabled,
            log.level == old(log).level,
            queued == old(log).pending@,
            out@ + log.pending@ == queued,
        decreases log.pending@.len(),
    {
        match log.pending.pop_front() {
            Some(l) => {
                out.push(l);
                assert(out@ + log.pending@ =~= queued);
            },
            None => {},
        }
    }
    assert(out@ =~= queued);
    out
}

/// Seed the ring with lines loaded from persistent storage: they go ahead of
/// the lines already captured, the oldest are dropped past [`CAP`], and they
/// are not queued for persistence again.
pub fn ingest_persisted(log: &mut DeviceLog, lines: Vec<LogLine>)
    requires
        old(log).wf(),
    ensures
        final(log).wf(),
        final(log).ring_view() == keep_last(lines@ + old(log).ring_view(), CAP as nat),
        final(log).pending_view() == old(log).pending_view(),
        final(log).enabled_view() == old(log).enabled_view(),
        final(log).threshold() == old(log).threshold(),
{
    if lines.len() == 0 {
        assert(lines@ + log.ring@ =~= log.ring@);
        return;
    }
    let r = log.ring.len();
    let room = CAP - r;
    let skip = if lines.len() > room {
        lines.len() - room
    } else {
        0
    };
    let mut fresh: VecDeque<LogLine> = VecDeque::new();
    let mut i = skip;
    while i < lines.len()
        invariant
            skip <= i <= lines.len(),
            fresh@ == lines@.subrange(skip as int, i as int),
        decreases lines.len() - i,
    {
        fresh.push_back(lines[i].clone());
        i = i + 1;
        assert(fresh@ =~= lines@.subrange(skip as int, i as int));
    }
    let mut j: usize = 0;
    while j < r
        invariant
            r == log.ring.len(),
            j <= r,
            fresh@ == lines@.subrange(skip as int, lines.len() as int) + log.ring@.subrange(
                0,
                j as int,
            ),
        decreases r - j,
    {
        fresh.push_back(log.ring[j].clone());
        j = j + 1;
        assert(fresh@ =~= lines@.subrange(skip as int, lines.len() as int) + log.ring@.subrange(
            0,
            j as int,
        ));
    }
    proof {
        let all = lines@ + old(log).ring@;
        assert(log.ring@.subrange(0, r as int) =~= log.ring@);
        if all.len() > CAP {
            assert(fresh@ =~= all.subrange(all.len() - CAP, all.len() as int));
        } else {
            assert(fresh@ =~= all);
        }
    }
    log.ring = fresh;
}

/// Append the display time of `ts_ms`.
fn push_time_text(s: &mut String, ts_ms: i64)
    ensures
        final(s)@ == old(s)@ + time_text(ts_ms),
{
    match chrono_clock_text(ts_ms) {
        Some(t) => s.append(t.as_str()),
        None => push_int(s, ts_ms),
    }
}

impl LogLine {
    /// `HH:MM:SS.mmm` (UTC) for display, or the raw stamp when it has no date.
    pub fn time_str(&self) -> (s: String)
        ensures
            s@ == time_text(self.ts_ms),
    {
        let mut s = String::new();
        push_time_text(&mut s, self.ts_ms);
        assert(s@ =~= time_text(self.ts_ms));
        s
    }

    /// Full single-line render used by the viewer and the export.
    pub fn formatted(&self) -> (s: String)
        ensures
            s@ == formatted_spec(*self),
    {
        let mut s = String::new();
        push_format(&mut s, self);
        assert(s@ =~= formatted_spec(*self));
        s
    }
}

/// Append the rendering of `l`.
fn push_format(s: &mut String, l: &LogLine)
    ensures
        final(s)@ == old(s)@ + formatted_spec(*l),
{
    proof {
        reveal_strlit(" ");
        reveal_strlit(": ");
    }
    push_time_text(s, l.ts_ms);
    s.append(" ");
    s.append(l.level.as_str());
    match l.level {
        Level::Warn | Level::Info => s.append(" "),
        _ => {},
    }
    s.append(" ");
    s.append(l.target.as_str());
    s.append(": ");
    s.append(l.msg.as_str());
    proof {
        let name = level_name(l.level);
        if name.len() < 5 {
            assert(pad5(name) =~= name + seq![' ']);
        }
        assert(final(s)@ =~= old(s)@ + formatted_spec(*l));
    }
}

/// Plain-text dump of all captured lines, one per line, newest last.
pub fn export_text(log: &DeviceLog) -> (s: String)
    ensures
        s@ == export_spec(log.ring_view()),
{
    proof {
        reveal_strlit("\n");
    }
    let ring = &log.ring;
    let mut s = String::new();
    let mut i: usize = 0;
    while i < ring.len()
        invariant
            i <= ring.len(),
            s@ == export_spec(ring@.subrange(0, i as int)),
        decreases ring.len() - i,
    {
        let ghost pre = ring@.subrange(0, i as int);
        proof {
            reveal_strlit("\n");
        }
        if i > 0 {
            s.append("\n");
        }
        push_format(&mut s, &ring[i]);
        i = i + 1;
        proof {
            let cur = ring@.subrange(0, i as int);
            assert(cur.drop_last() =~= pre);
            if i == 1 {
                assert(pre.len() == 0);
                assert(s@ =~= export_spec(cur));
            } else {
                assert(cur.len() >= 2);
                assert(cur.last() == ring@[i - 1]);
                assert(export_spec(cur) == export_spec(cur.drop_last()) + seq!['\n']
                    + formatted_spec(cur.last()));
                assert(s@ =~= export_spec(cur));
            }
        }
    }
    assert(ring@.subrange(0, ring.len() as int) =~= ring@);
    s
}

/// The ring never holds more than [`CAP`] lines, however many are pushed: a
/// push onto a full ring drops exactly the oldest line.
pub proof fn lemma_push_keeps_cap(ring: Seq<LogLine>, line: LogLine)
    requires
        ring.len() <= CAP,
    ensures
        bounded_push(ring, line, CAP as nat).len() <= CAP,
        bounded_push(ring, line, CAP as nat).last() == line,
        ring.len() == CAP ==> bounded_push(ring, line, CAP as nat) == ring.subrange(
            1,
            ring.len() as int,
        ).push(line),
{
    if ring.len() == CAP {
        assert(ring.drop_first() =~= ring.subrange(1, ring.len() as int));
    }
}

/// The capture gate and the reported threshold agree: a line is captured
/// exactly when capture is on and its level is at least as severe as
/// [`level`] reports.
pub proof fn lemma_capture_gate_matches_level(log: DeviceLog, l: Level)
    requires
        log.wf(),
    ensures
        is_captured(log, l) == (log.enabled_view() && rank(l) <= rank(
            level_of_rank(log.threshold() as int),
        )),
{
}

/// Search finds exactly the lines whose message, target or level name
/// contains the query, case-insensitively: every ring line that does is in
/// the result, and every line in the result is a ring line that does.
pub proof fn lemma_search_finds_matching_lines(ring: Seq<LogLine>, query: Seq<char>)
    ensures
        forall|i: int|
            0 <= i < ring.len() && (contains_seq(lowercase(ring[i].msg@), lowercase(query))
                || contains_seq(lowercase(ring[i].target@), lowercase(query)) || contains_seq(
                lowercase(level_name(ring[i].level)),
                lowercase(query),
            )) ==> #[trigger] search_spec(ring, lowercase(query)).contains(ring[i]),
        forall|l: LogLine|
            #[trigger] search_spec(ring, lowercase(query)).contains(l) ==> ring.contains(l) && (
            contains_seq(lowercase(l.msg@), lowercase(query)) || contains_seq(
                lowercase(l.target@),
                lowercase(query),
            ) || contains_seq(lowercase(level_name(l.level)), lowercase(query))),
    decreases ring.len(),
{
    let q = lowercase(query);
    if ring.len() > 0 {
        let prev = ring.drop_last();
        lemma_search_finds_matching_lines(prev, query);
        let r = search_spec(ring, q);
        let rp = search_spec(prev, q);
        assert forall|i: int|
            0 <= i < ring.len() && (contains_seq(lowercase(ring[i].msg@), q) || contains_seq(
                lowercase(ring[i].target@),
                q,
            ) || contains_seq(lowercase(level_name(ring[i].level)), q)) implies #[trigger] r.contains(
            ring[i],
        ) by {
            if i < ring.len() - 1 {
                assert(prev[i] == ring[i]);
                assert(rp.contains(prev[i]));
                let k = choose|k: int| 0 <= k < rp.len() && rp[k] == prev[i];
                if line_matches(ring.last(), q) {
                    assert(r == rp.push(ring.last()));
                    assert(r[k] == rp[k]);
                } else {
                    assert(r == rp);
                }
            } else {
                assert(line_matches(ring.last(), q));
                assert(r == rp.push(ring.last()));
                assert(r[rp.len() as int] == ring.last());
            }
        }
        assert forall|l: LogLine| #[trigger] r.contains(l) implies ring.contains(l) && (
        contains_seq(lowercase(l.msg@), q) || contains_seq(lowercase(l.target@), q) || contains_seq(
            lowercase(level_name(l.level)),
            q,
        )) by {
            let k = choose|k: int| 0 <= k < r.len() && r[k] == l;
            if line_matches(ring.last(), q) {
                assert(r == rp.push(ring.last()));
                if k < rp.len() {
                    assert(rp[k] == l);
                    assert(rp.contains(l));
                    let m = choose|m: int| 0 <= m < prev.len() && prev[m] == l;
                    assert(ring[m] == l);
                } else {
                    assert(l == ring.last());
                    assert(ring[ring.len() - 1] == l);
                }
            } else {
                assert(r == rp);
                assert(rp.contains(l));
                let m = choose|m: int| 0 <= m < prev.len() && prev[m] == l;
                assert(ring[m] == l);
            }
        }
    }
}

} // verus!
