//! The playback state machine: what the player does on each user intent,
//! backend event and periodic tick. The audio backend, the position/duration
//! clock and the sleep timer are driven by the caller through the returned
//! [`PlayerAction`]s; the coarse playback state, the stall guards, the
//! local-source retry budget and the play context live here.

use vstd::prelude::*;

verus! {

/// Milliseconds between ticks.
pub const TICK_INTERVAL_MS: u32 = 250;

/// Ticks the player may sit in `Loading` before the stall guard fires (~30 s).
pub const LOADING_STALL_TICKS: u32 = 120;

/// Ticks the player may sit in `Preparing` before the stall guard fires (~5 min).
pub const PREPARING_STALL_TICKS: u32 = 1200;

/// Playing ticks between cursor saves (~10 s).
pub const PERSIST_EVERY_TICKS: u32 = 40;

/// Backoff (ms) before the first local-source retry.
pub const LOCAL_RETRY_FIRST_MS: u32 = 750;

/// Backoff (ms) before the second local-source retry.
pub const LOCAL_RETRY_SECOND_MS: u32 = 2000;

/// The local-source retry budget (retries per play intent).
pub const LOCAL_RETRY_BUDGET: u32 = 2;

/// Current playback state.
#[derive(Debug)]
pub enum PlaybackState {
    /// A device download runs before playback; the play control spins.
    Preparing,
    /// Source set, waiting for the backend to start playing.
    Loading,
    Playing,
    Paused,
    Ended,
    Error(String),
}

impl Clone for PlaybackState {
    fn clone(&self) -> (r: Self)
        ensures
            r == *self,
    {
        match self {
            PlaybackState::Preparing => PlaybackState::Preparing,
            PlaybackState::Loading => PlaybackState::Loading,
            PlaybackState::Playing => PlaybackState::Playing,
            PlaybackState::Paused => PlaybackState::Paused,
            PlaybackState::Ended => PlaybackState::Ended,
            PlaybackState::Error(m) => PlaybackState::Error(m.clone()),
        }
    }
}

/// The playlist the user pressed play from (`None` = queue semantics).
#[derive(Clone, Copy, Debug, PartialEq, Eq, Structural)]
pub struct PlayContext(pub Option<i32>);

/// The projection of the player an episode row needs: which episode is
/// current and its coarse state.
#[derive(Clone, Debug)]
pub struct PlayingIdentity {
    pub episode_id: i32,
    pub state: PlaybackState,
}

impl PlayingIdentity {
    /// The identity of a now-playing record.
    pub fn from_now(n: &NowCore) -> (r: PlayingIdentity)
        ensures
            r.episode_id == n.episode_id && r.state == n.state,
    {
        PlayingIdentity { episode_id: n.episode_id, state: n.state.clone() }
    }
}

/// A backend that plays nothing and reports no events (platforms without
/// audio output).
#[derive(Clone, Copy, Debug)]
pub struct NoopPlayerBackend;

impl NoopPlayerBackend {
    /// Poll the backend: never any events.
    pub fn poll_events(&mut self) -> (evs: Vec<BackendEvent>)
        ensures
            evs@.len() == 0,
    {
        Vec::new()
    }
}

/// The coarse now-playing record (the position and duration clock is kept by
/// the caller).
#[derive(Debug)]
pub struct NowCore {
    pub episode_id: i32,
    pub state: PlaybackState,
    pub buffering: bool,
}

/// What the caller does for the player.
#[derive(Debug, PartialEq, Eq)]
pub enum PlayerAction {
    /// Auto-arm the sleep timer if the once-per-session latch allows.
    MaybeAutoArmSleep,
    /// Load the resolved source at the start cursor.
    BackendLoad,
    /// Re-apply the saved playback rate (a load resets it).
    BackendSetRate,
    BackendPlay,
    BackendPause,
    BackendStop,
    /// Poll the backend and hand its events to [`tick_events`].
    PollBackend,
    /// Poll the backend and discard its events (a retry is pending).
    DiscardEvents,
    /// Count the sleep timer down by one tick.
    AdvanceSleep,
    DisableSleep,
    /// Persist the current position as the episode's cursor.
    SetCursor { episode_id: i32 },
    MarkPlayed { episode_id: i32 },
    /// Route a fresh play of this episode (source resolution included).
    RequestPlay { episode_id: i32 },
    /// Re-resolve this episode's source and play it (a retry firing).
    PlayEpisode { episode_id: i32 },
    /// After `delay_ms`, call [`retry_fired`] with this generation.
    ScheduleRetry { episode_id: i32, delay_ms: u32, generation: u64 },
}

/// The player's decision state.
#[derive(Debug)]
pub struct Player {
    pub now: Option<NowCore>,
    pub tick_count: u32,
    pub loading_ticks: u32,
    pub preparing_ticks: u32,
    pub last_source_local: bool,
    pub local_retries: u32,
    pub retry_pending: bool,
    pub load_generation: u64,
    pub play_context: Option<i32>,
    pub sleep_auto_armed: bool,
}

/// The state of the now-playing record, if any.
pub open spec fn state_of(p: Player) -> Option<PlaybackState> {
    match p.now {
        Some(n) => Some(n.state),
        None => None,
    }
}

/// Whether a state carries a live, resumable position.
pub open spec fn persistable(s: PlaybackState) -> bool {
    !(s is Preparing || s is Error || s is Ended)
}

/// The cursor save `persist_cursor` emits for `p`, if any.
pub open spec fn persist_spec(p: Player) -> Seq<PlayerAction> {
    match p.now {
        Some(n) => if persistable(n.state) {
            seq![PlayerAction::SetCursor { episode_id: n.episode_id }]
        } else {
            Seq::empty()
        },
        None => Seq::empty(),
    }
}

/// `p` with the now-playing state replaced (no-op when nothing is loaded).
pub open spec fn with_state(p: Player, s: PlaybackState) -> Player {
    match p.now {
        Some(n) => Player { now: Some(NowCore { state: s, ..n }), ..p },
        None => p,
    }
}

/// Whether `after` is `before` with the now-playing record replaced by an
/// `Error(msg)` for the same episode (episode 0 when nothing was loaded).
pub open spec fn stalled_to_error(after: Player, before: Player, msg: Seq<char>) -> bool {
    &&& same_counters(after, before)
    &&& after.now matches Some(c) && c.state matches PlaybackState::Error(m) && m@ == msg
        && !c.buffering && c.episode_id == (match before.now {
        Some(b) => b.episode_id,
        None => 0,
    })
}

/// Whether everything but the now-playing record is unchanged.
pub open spec fn same_counters(a: Player, b: Player) -> bool {
    &&& a.tick_count == b.tick_count
    &&& a.loading_ticks == b.loading_ticks
    &&& a.preparing_ticks == b.preparing_ticks
    &&& a.last_source_local == b.last_source_local
    &&& a.local_retries == b.local_retries
    &&& a.retry_pending == b.retry_pending
    &&& a.load_generation == b.load_generation
    &&& a.play_context == b.play_context
    &&& a.sleep_auto_armed == b.sleep_auto_armed
}

impl Player {
    /// A player with nothing loaded.
    pub fn new() -> (p: Player)
        ensures
            p.now is None,
            p.tick_count == 0 && p.loading_ticks == 0 && p.preparing_ticks == 0,
            !p.last_source_local && p.local_retries == 0 && !p.retry_pending,
            p.load_generation == 0 && p.play_context is None && !p.sleep_auto_armed,
    {
        Player {
            now: None,
            tick_count: 0,
            loading_ticks: 0,
            preparing_ticks: 0,
            last_source_local: false,
            local_retries: 0,
            retry_pending: false,
            load_generation: 0,
            play_context: None,
            sleep_auto_armed: false,
        }
    }
}

/// Replace the now-playing state (no-op when nothing is loaded).
fn set_state(p: &mut Player, s: PlaybackState)
    ensures
        *final(p) == with_state(*old(p), s),
{
    match &mut p.now {
        Some(n) => {
            n.state = s;
        },
        None => {},
    }
}

/// Bump and return the load generation; any new load supersedes a pending
/// local-error retry.
pub fn bump_generation(p: &mut Player) -> (g: u64)
    ensures
        g == (if old(p).load_generation == u64::MAX {
            0
        } else {
            old(p).load_generation + 1
        }),
        *final(p) == (Player { retry_pending: false, load_generation: g, ..*old(p) }),
{
    p.retry_pending = false;
    let g = p.load_generation.wrapping_add(1);
    p.load_generation = g;
    g
}

/// Set the play context.
pub fn set_play_context(p: &mut Player, ctx: Option<i32>)
    ensures
        *final(p) == (Player { play_context: ctx, ..*old(p) }),
{
    p.play_context = ctx;
}

/// The current play context playlist id.
pub fn play_context(p: &Player) -> (c: Option<i32>)
    ensures
        c == p.play_context,
{
    p.play_context
}

/// The currently loaded episode id, if any.
pub fn current_episode(p: &Player) -> (c: Option<i32>)
    ensures
        c == (match p.now {
            Some(n) => Some(n.episode_id),
            None => None,
        }),
{
    match &p.now {
        Some(n) => Some(n.episode_id),
        None => None,
    }
}

/// Start a fresh local-error retry budget (each fresh play intent).
pub fn reset_local_retries(p: &mut Player)
    ensures
        *final(p) == (Player { local_retries: 0, ..*old(p) }),
{
    p.local_retries = 0;
}

/// Enter `Preparing` for an episode whose device download runs first.
pub fn enter_preparing(p: &mut Player, episode_id: i32)
    ensures
        *final(p) == (Player {
            now: Some(NowCore { episode_id, state: PlaybackState::Preparing, buffering: true }),
            ..*old(p)
        }),
{
    p.now = Some(NowCore { episode_id, state: PlaybackState::Preparing, buffering: true });
}

/// Reset the `Preparing` stall window (the watched download progressed).
pub fn note_preparing_progress(p: &mut Player)
    ensures
        *final(p) == (Player { preparing_ticks: 0, ..*old(p) }),
{
    p.preparing_ticks = 0;
}

/// Load a resolved source and reflect `Loading` (buffering until the first
/// frame). `local` says whether the source is the device copy.
pub fn load_and_play(p: &mut Player, episode_id: i32, local: bool) -> (a: Vec<PlayerAction>)
    ensures
        *final(p) == (Player {
            now: Some(NowCore { episode_id, state: PlaybackState::Loading, buffering: true }),
            last_source_local: local,
            ..*old(p)
        }),
        a@ == seq![
            PlayerAction::MaybeAutoArmSleep,
            PlayerAction::BackendLoad,
            PlayerAction::BackendSetRate,
            PlayerAction::BackendPlay,
        ],
{
    p.last_source_local = local;
    p.now = Some(NowCore { episode_id, state: PlaybackState::Loading, buffering: true });
    vec![
        PlayerAction::MaybeAutoArmSleep,
        PlayerAction::BackendLoad,
        PlayerAction::BackendSetRate,
        PlayerAction::BackendPlay,
    ]
}

/// Latch a terminal error for an episode.
pub fn set_error(p: &mut Player, episode_id: i32, msg: String)
    ensures
        *final(p) == (Player {
            now: Some(NowCore { episode_id, state: PlaybackState::Error(msg), buffering: false }),
            ..*old(p)
        }),
{
    p.now = Some(NowCore { episode_id, state: PlaybackState::Error(msg), buffering: false });
}

/// Persist the cursor of a live, resumable position (never for `Preparing`,
/// `Error` or `Ended`, whose positions would clobber the saved cursor).
pub fn persist_cursor(p: &Player) -> (a: Vec<PlayerAction>)
    ensures
        a@ == persist_spec(*p),
{
    match &p.now {
        Some(n) => {
            match n.state {
                PlaybackState::Preparing | PlaybackState::Error(_) | PlaybackState::Ended => {
                    Vec::new()
                },
                _ => vec![PlayerAction::SetCursor { episode_id: n.episode_id }],
            }
        },
        None => Vec::new(),
    }
}

/// Resume a paused player; from any other state nothing happens.
pub fn resume(p: &mut Player) -> (a: Vec<PlayerAction>)
    ensures
        state_of(*old(p)) matches Some(PlaybackState::Paused) ==> *final(p) == with_state(
            *old(p),
            PlaybackState::Playing,
        ) && a@ == seq![PlayerAction::BackendPlay],
        !(state_of(*old(p)) matches Some(PlaybackState::Paused)) ==> *final(p) == *old(p)
            && a@.len() == 0,
{
    let paused = match &p.now {
        Some(n) => matches!(n.state, PlaybackState::Paused),
        None => false,
    };
    if !paused {
        return Vec::new();
    }
    set_state(p, PlaybackState::Playing);
    vec![PlayerAction::BackendPlay]
}

/// Pause a playing or loading player (and persist its cursor); from any other
/// state nothing happens.
pub fn pause(p: &mut Player) -> (a: Vec<PlayerAction>)
    ensures
        (*final(p), a@) == pause_spec(*old(p)),
{
    let active = match &p.now {
        Some(n) => matches!(n.state, PlaybackState::Playing | PlaybackState::Loading),
        None => false,
    };
    if !active {
        return Vec::new();
    }
    set_state(p, PlaybackState::Paused);
    let mut a = vec![PlayerAction::BackendPause];
    let mut c = persist_cursor(p);
    a.append(&mut c);
    a
}

/// The directional "start playing" intent: `Paused` resumes, `Ended` and
/// `Error` re-play the episode, `Playing`/`Loading`/`Preparing` are left alone.
pub fn play(p: &mut Player) -> (a: Vec<PlayerAction>)
    ensures
        match old(p).now {
            Some(n) => match n.state {
                PlaybackState::Paused => *final(p) == with_state(*old(p), PlaybackState::Playing)
                    && a@ == seq![PlayerAction::BackendPlay],
                PlaybackState::Ended | PlaybackState::Error(_) => *final(p) == *old(p) && a@
                    == seq![PlayerAction::RequestPlay { episode_id: n.episode_id }],
                _ => *final(p) == *old(p) && a@.len() == 0,
            },
            None => *final(p) == *old(p) && a@.len() == 0,
        },
{
    let (id, kind) = match &p.now {
        Some(n) => (
            n.episode_id,
            match n.state {
                PlaybackState::Paused => 1u8,
                PlaybackState::Ended | PlaybackState::Error(_) => 2u8,
                _ => 0u8,
            },
        ),
        None => (0, 0u8),
    };
    if kind == 1 {
        resume(p)
    } else if kind == 2 {
        vec![PlayerAction::RequestPlay { episode_id: id }]
    } else {
        Vec::new()
    }
}

/// Play/pause toggle: `Playing`/`Loading` pause, anything else is a "play".
pub fn toggle(p: &mut Player) -> (a: Vec<PlayerAction>)
    ensures
        match old(p).now {
            Some(n) => match n.state {
                PlaybackState::Playing | PlaybackState::Loading => *final(p) == with_state(
                    *old(p),
                    PlaybackState::Paused,
                ) && a@ == seq![PlayerAction::BackendPause] + persist_spec(
                    with_state(*old(p), PlaybackState::Paused),
                ),
                PlaybackState::Paused => *final(p) == with_state(*old(p), PlaybackState::Playing)
                    && a@ == seq![PlayerAction::BackendPlay],
                PlaybackState::Ended | PlaybackState::Error(_) => *final(p) == *old(p) && a@
                    == seq![PlayerAction::RequestPlay { episode_id: n.episode_id }],
                PlaybackState::Preparing => *final(p) == *old(p) && a@.len() == 0,
            },
            None => *final(p) == *old(p) && a@.len() == 0,
        },
{
    let active = match &p.now {
        Some(n) => matches!(n.state, PlaybackState::Playing | PlaybackState::Loading),
        None => false,
    };
    if active {
        pause(p)
    } else {
        play(p)
    }
}

/// Close the player: persist the cursor, stop the backend, clear the
/// now-playing record, cancel a pending retry, reset the retry budget, the
/// play context, the sleep timer and its once-per-session latch.
pub fn stop(p: &mut Player) -> (a: Vec<PlayerAction>)
    ensures
        *final(p) == (Player {
            now: None,
            retry_pending: false,
            local_retries: 0,
            play_context: None,
            sleep_auto_armed: false,
            ..*old(p)
        }),
        a@ == persist_spec(*old(p)) + seq![PlayerAction::BackendStop, PlayerAction::DisableSleep],
{
    let mut a = persist_cursor(p);
    a.push(PlayerAction::BackendStop);
    p.now = None;
    p.retry_pending = false;
    p.local_retries = 0;
    p.play_context = None;
    a.push(PlayerAction::DisableSleep);
    p.sleep_auto_armed = false;
    a
}

/// Whether a backend error is retried: the device-copy load that failed to
/// start (`Loading`) within budget, with no retry already pending.
pub open spec fn retries_error(p: Player) -> bool {
    &&& state_of(p) matches Some(PlaybackState::Loading)
    &&& p.last_source_local
    &&& p.local_retries < LOCAL_RETRY_BUDGET
    &&& !p.retry_pending
}

/// Route a backend error: a device-copy load that failed to start gets a
/// bounded retry with a fresh source; anything else latches `Error`.
pub fn on_backend_error(p: &mut Player, msg: String) -> (a: Vec<PlayerAction>)
    ensures
        (*final(p), a@) == backend_error_spec(*old(p), msg),
{
    let (loading, id) = match &p.now {
        Some(n) => (matches!(n.state, PlaybackState::Loading), n.episode_id),
        None => (false, 0),
    };
    if loading && p.last_source_local && p.local_retries < LOCAL_RETRY_BUDGET && !p.retry_pending {
        let delay = if p.local_retries == 0 {
            LOCAL_RETRY_FIRST_MS
        } else {
            LOCAL_RETRY_SECOND_MS
        };
        p.local_retries = p.local_retries + 1;
        p.retry_pending = true;
        return vec![
            PlayerAction::ScheduleRetry {
                episode_id: id,
                delay_ms: delay,
                generation: p.load_generation,
            },
        ];
    }
    set_state(p, PlaybackState::Error(msg));
    Vec::new()
}

/// A scheduled local-error retry fires: superseded retries (a new load bumped
/// the generation or cleared the flag) do nothing; otherwise the flag clears
/// and, when the same episode is still `Loading`, its source is re-resolved.
pub fn retry_fired(p: &mut Player, episode_id: i32, generation: u64) -> (a: Vec<PlayerAction>)
    ensures
        !old(p).retry_pending || old(p).load_generation != generation ==> *final(p) == *old(p)
            && a@.len() == 0,
        old(p).retry_pending && old(p).load_generation == generation ==> {
            &&& *final(p) == (Player { retry_pending: false, ..*old(p) })
            &&& (old(p).now matches Some(n) && n.episode_id == episode_id
                && n.state is Loading) ==> a@ == seq![PlayerAction::PlayEpisode { episode_id }]
            &&& !(old(p).now matches Some(n) && n.episode_id == episode_id
                && n.state is Loading) ==> a@.len() == 0
        },
{
    if !p.retry_pending || p.load_generation != generation {
        return Vec::new();
    }
    p.retry_pending = false;
    let still = match &p.now {
        Some(n) => n.episode_id == episode_id && matches!(n.state, PlaybackState::Loading),
        None => false,
    };
    if still {
        vec![PlayerAction::PlayEpisode { episode_id }]
    } else {
        Vec::new()
    }
}

/// Whether a state is polled: not when nothing is loaded, nor in the terminal
/// `Ended`/`Error` states, nor in `Preparing` (no source loaded yet).
pub open spec fn polls(p: Player) -> bool {
    match state_of(p) {
        Some(s) => !(s is Ended || s is Error || s is Preparing),
        None => false,
    }
}

/// The first half of a tick, before the backend is polled. Returns the actions
/// and whether the caller should poll the backend and continue with
/// [`tick_events`].
pub fn tick_begin(p: &mut Player) -> (r: (Vec<PlayerAction>, bool))
    ensures
        state_of(*old(p)) matches Some(PlaybackState::Preparing) ==> !r.1 && {
            let n = if old(p).preparing_ticks == u32::MAX {
                0
            } else {
                old(p).preparing_ticks + 1
            };
            if n >= PREPARING_STALL_TICKS {
                &&& stalled_to_error(
                    *final(p),
                    Player { preparing_ticks: 0, ..*old(p) },
                    "Download timed out — couldn't prepare this episode."@,
                )
                &&& r.0@ == seq![PlayerAction::BackendStop]
            } else {
                *final(p) == (Player { preparing_ticks: n as u32, ..*old(p) }) && r.0@.len() == 0
            }
        },
        !(state_of(*old(p)) matches Some(PlaybackState::Preparing)) ==> {
            &&& old(p).retry_pending ==> *final(p) == (Player { preparing_ticks: 0, ..*old(p) })
                && r.0@ == seq![PlayerAction::DiscardEvents] && !r.1
            &&& !old(p).retry_pending ==> *final(p) == (Player { preparing_ticks: 0, ..*old(p) })
                && r.0@.len() == 0 && r.1 == polls(*old(p))
        },
{
    let preparing = match &p.now {
        Some(n) => matches!(n.state, PlaybackState::Preparing),
        None => false,
    };
    if preparing {
        let n = p.preparing_ticks.wrapping_add(1);
        p.preparing_ticks = n;
        if n >= PREPARING_STALL_TICKS {
            p.preparing_ticks = 0;
            let id = match &p.now {
                Some(c) => c.episode_id,
                None => 0,
            };
            set_error(p, id, String::from_str("Download timed out — couldn't prepare this episode."));
            return (vec![PlayerAction::BackendStop], false);
        }
        return (Vec::new(), false);
    }
    p.preparing_ticks = 0;
    if p.retry_pending {
        return (vec![PlayerAction::DiscardEvents], false);
    }
    let poll = match &p.now {
        Some(n) => !matches!(n.state, PlaybackState::Ended | PlaybackState::Error(_) | PlaybackState::Preparing),
        None => false,
    };
    (Vec::new(), poll)
}

/// A backend event, as the state machine sees it (the position and duration
/// values themselves are applied to the caller's clock).
#[derive(Debug)]
pub enum BackendEvent {
    /// The playback clock advanced (only while playback really progresses).
    TimeUpdate,
    DurationKnown,
    Buffering(bool),
    /// The element paused on its own (the OS paused it).
    Paused,
    /// The element resumed on its own.
    Playing,
    Ended,
    Error(String),
}

impl Clone for BackendEvent {
    fn clone(&self) -> (r: Self)
        ensures
            r == *self,
    {
        match self {
            BackendEvent::TimeUpdate => BackendEvent::TimeUpdate,
            BackendEvent::DurationKnown => BackendEvent::DurationKnown,
            BackendEvent::Buffering(b) => BackendEvent::Buffering(*b),
            BackendEvent::Paused => BackendEvent::Paused,
            BackendEvent::Playing => BackendEvent::Playing,
            BackendEvent::Ended => BackendEvent::Ended,
            BackendEvent::Error(m) => BackendEvent::Error(m.clone()),
        }
    }
}

/// `pause`'s transition.
pub open spec fn pause_spec(p: Player) -> (Player, Seq<PlayerAction>) {
    if state_of(p) matches Some(PlaybackState::Playing) || state_of(p) matches Some(
        PlaybackState::Loading,
    ) {
        (
            with_state(p, PlaybackState::Paused),
            seq![PlayerAction::BackendPause] + persist_spec(with_state(p, PlaybackState::Paused)),
        )
    } else {
        (p, Seq::empty())
    }
}

/// `on_backend_error`'s transition.
pub open spec fn backend_error_spec(p: Player, msg: String) -> (Player, Seq<PlayerAction>) {
    if retries_error(p) {
        (
            Player { local_retries: (p.local_retries + 1) as u32, retry_pending: true, ..p },
            seq![
                PlayerAction::ScheduleRetry {
                    episode_id: p.now->0.episode_id,
                    delay_ms: if p.local_retries == 0 {
                        LOCAL_RETRY_FIRST_MS
                    } else {
                        LOCAL_RETRY_SECOND_MS
                    },
                    generation: p.load_generation,
                },
            ],
        )
    } else {
        (with_state(p, PlaybackState::Error(msg)), Seq::empty())
    }
}

/// One event's transition: the new player, its actions, and whether the
/// track reported its end.
pub open spec fn event_spec(p: Player, ev: BackendEvent) -> (Player, Seq<PlayerAction>, bool) {
    match ev {
        BackendEvent::TimeUpdate => match p.now {
            Some(n) => {
                let was_loading = n.state is Loading;
                let n2 = NowCore {
                    state: if was_loading {
                        PlaybackState::Playing
                    } else {
                        n.state
                    },
                    buffering: false,
                    ..n
                };
                (
                    Player {
                        now: Some(n2),
                        local_retries: if was_loading {
                            0
                        } else {
                            p.local_retries
                        },
                        ..p
                    },
                    Seq::empty(),
                    false,
                )
            },
            None => (p, Seq::empty(), false),
        },
        BackendEvent::DurationKnown => (p, Seq::empty(), false),
        BackendEvent::Buffering(b) => match p.now {
            Some(n) => (Player { now: Some(NowCore { buffering: b, ..n }), ..p }, Seq::empty(), false),
            None => (p, Seq::empty(), false),
        },
        BackendEvent::Paused => if state_of(p) matches Some(PlaybackState::Playing) {
            (
                with_state(p, PlaybackState::Paused),
                persist_spec(with_state(p, PlaybackState::Paused)),
                false,
            )
        } else {
            (p, Seq::empty(), false)
        },
        BackendEvent::Playing => if state_of(p) matches Some(PlaybackState::Paused) {
            (with_state(p, PlaybackState::Playing), Seq::empty(), false)
        } else {
            (p, Seq::empty(), false)
        },
        BackendEvent::Ended => (p, Seq::empty(), true),
        BackendEvent::Error(m) => {
            let (q, a) = backend_error_spec(p, m);
            (q, a, false)
        },
    }
}

/// The events of one poll applied in order.
pub open spec fn events_spec(p: Player, evs: Seq<BackendEvent>) -> (Player, Seq<PlayerAction>, bool)
    decreases evs.len(),
{
    if evs.len() == 0 {
        (p, Seq::empty(), false)
    } else {
        let (q, a, e) = events_spec(p, evs.drop_last());
        let (r, b, f) = event_spec(q, evs.last());
        (r, a + b, e || f)
    }
}

/// `on_ended`'s transition: mark the track played, latch `Ended`, and — when
/// allowed and the setting is on — play the next item of the continuation
/// playlist.
pub open spec fn ended_spec(p: Player, allow_advance: bool, auto_advance: bool, next_up: Option<i32>) -> (
    Player,
    Seq<PlayerAction>,
) {
    let marked: Seq<PlayerAction> = match p.now {
        Some(n) => seq![PlayerAction::MarkPlayed { episode_id: n.episode_id }],
        None => Seq::empty(),
    };
    let advance: Seq<PlayerAction> = if allow_advance && auto_advance && next_up is Some {
        seq![PlayerAction::RequestPlay { episode_id: next_up->0 }]
    } else {
        Seq::empty()
    };
    (with_state(p, PlaybackState::Ended), marked + advance)
}

/// The rest of a tick after the events were applied: the loading-stall guard,
/// the sleep countdown and debounced cursor save while playing, then the
/// end-of-track handling (no auto-advance when the sleep timer expired on this
/// same tick).
pub open spec fn tick_rest_spec(
    q: Player,
    acts: Seq<PlayerAction>,
    ended: bool,
    sleep_would_expire: bool,
    auto_advance: bool,
    next_up: Option<i32>,
    after: Player,
    out: Seq<PlayerAction>,
) -> bool {
    if state_of(q) matches Some(PlaybackState::Loading) {
        let n = if q.loading_ticks == u32::MAX {
            0
        } else {
            q.loading_ticks + 1
        };
        if n >= LOADING_STALL_TICKS {
            &&& stalled_to_error(
                after,
                Player { loading_ticks: 0, ..q },
                "Playback timed out — couldn't start this episode."@,
            )
            &&& out == acts + seq![PlayerAction::BackendStop]
        } else {
            let q2 = Player { loading_ticks: n as u32, ..q };
            if ended {
                let (r, b) = ended_spec(q2, true, auto_advance, next_up);
                after == r && out == acts + b
            } else {
                after == q2 && out == acts
            }
        }
    } else {
        let q1 = Player { loading_ticks: 0, ..q };
        if state_of(q1) matches Some(PlaybackState::Playing) {
            let (q2, pa) = if sleep_would_expire {
                pause_spec(q1)
            } else {
                (q1, Seq::empty())
            };
            let c = if q2.tick_count == u32::MAX {
                0
            } else {
                q2.tick_count + 1
            };
            let q3 = Player { tick_count: c as u32, ..q2 };
            let saves = if c % (PERSIST_EVERY_TICKS as int) == 0 {
                persist_spec(q3)
            } else {
                Seq::empty()
            };
            let acts2 = acts + seq![PlayerAction::AdvanceSleep] + pa + saves;
            if ended {
                let (r, b) = ended_spec(q3, !sleep_would_expire, auto_advance, next_up);
                after == r && out == acts2 + b
            } else {
                after == q3 && out == acts2
            }
        } else {
            if ended {
                let (r, b) = ended_spec(q1, true, auto_advance, next_up);
                after == r && out == acts + b
            } else {
                after == q1 && out == acts
            }
        }
    }
}

/// Apply one backend event.
fn apply_event(p: &mut Player, ev: BackendEvent) -> (r: (Vec<PlayerAction>, bool))
    ensures
        (*final(p), r.0@, r.1) == event_spec(*old(p), ev),
{
    match ev {
        BackendEvent::TimeUpdate => {
            match &mut p.now {
                Some(n) => {
                    let was_loading = matches!(n.state, PlaybackState::Loading);
                    n.buffering = false;
                    if was_loading {
                        n.state = PlaybackState::Playing;
                        p.local_retries = 0;
                    }
                },
                None => {},
            }
            (Vec::new(), false)
        },
        BackendEvent::DurationKnown => (Vec::new(), false),
        BackendEvent::Buffering(b) => {
            match &mut p.now {
                Some(n) => {
                    n.buffering = b;
                },
                None => {},
            }
            (Vec::new(), false)
        },
        BackendEvent::Paused => {
            let playing = match &p.now {
                Some(n) => matches!(n.state, PlaybackState::Playing),
                None => false,
            };
            if playing {
                set_state(p, PlaybackState::Paused);
                (persist_cursor(p), false)
            } else {
                (Vec::new(), false)
            }
        },
        BackendEvent::Playing => {
            let paused = match &p.now {
                Some(n) => matches!(n.state, PlaybackState::Paused),
                None => false,
            };
            if paused {
                set_state(p, PlaybackState::Playing);
            }
            (Vec::new(), false)
        },
        BackendEvent::Ended => (Vec::new(), true),
        BackendEvent::Error(m) => (on_backend_error(p, m), false),
    }
}

/// Settle the track that just ended.
fn on_ended(p: &mut Player, allow_advance: bool, auto_advance: bool, next_up: Option<i32>) -> (a: Vec<
    PlayerAction,
>)
    ensures
        (*final(p), a@) == ended_spec(*old(p), allow_advance, auto_advance, next_up),
{
    let mut a: Vec<PlayerAction> = match &p.now {
        Some(n) => vec![PlayerAction::MarkPlayed { episode_id: n.episode_id }],
        None => Vec::new(),
    };
    set_state(p, PlaybackState::Ended);
    if allow_advance && auto_advance {
        match next_up {
            Some(id) => a.push(PlayerAction::RequestPlay { episode_id: id }),
            None => {},
        }
    }
    a
}

/// The second half of a tick: apply the polled `events` in order, then the
/// loading-stall guard, the sleep countdown and debounced cursor save while
/// playing, and the end-of-track handling. `sleep_would_expire` says whether
/// one more tick expires the sleep timer; `next_up` is the continuation
/// playlist's next episode after the current one.
pub fn tick_events(
    p: &mut Player,
    events: Vec<BackendEvent>,
    sleep_would_expire: bool,
    auto_advance: bool,
    next_up: Option<i32>,
) -> (out: Vec<PlayerAction>)
    ensures
        ({
            let (q, acts, ended) = events_spec(*old(p), events@);
            tick_rest_spec(q, acts, ended, sleep_would_expire, auto_advance, next_up, *final(p), out@)
        }),
{
    let mut acts: Vec<PlayerAction> = Vec::new();
    let mut ended = false;
    let mut i: usize = 0;
    while i < events.len()
        invariant
            i <= events.len(),
            (*p, acts@, ended) == events_spec(*old(p), events@.subrange(0, i as int)),
        decreases events.len() - i,
    {
        let ghost before = *p;
        let ghost pre = events@.subrange(0, i as int);
        let (mut a, e) = apply_event(p, events[i].clone());
        acts.append(&mut a);
        ended = ended || e;
        i = i + 1;
        proof {
            let cur = events@.subrange(0, i as int);
            assert(cur.drop_last() =~= pre);
            assert(cur.last() == events@[i - 1]);
        }
    }
    assert(events@.subrange(0, events.len() as int) =~= events@);
    let loading = match &p.now {
        Some(n) => matches!(n.state, PlaybackState::Loading),
        None => false,
    };
    if loading {
        let n = p.loading_ticks.wrapping_add(1);
        p.loading_ticks = n;
        if n >= LOADING_STALL_TICKS {
            p.loading_ticks = 0;
            let id = match &p.now {
                Some(c) => c.episode_id,
                None => 0,
            };
            let ghost before_stop = acts@;
            acts.push(PlayerAction::BackendStop);
            set_error(p, id, String::from_str("Playback timed out — couldn't start this episode."));
            assert(acts@ =~= before_stop + seq![PlayerAction::BackendStop]);
            return acts;
        }
        if ended {
            let mut b = on_ended(p, true, auto_advance, next_up);
            acts.append(&mut b);
        }
        return acts;
    }
    p.loading_ticks = 0;
    let playing = match &p.now {
        Some(n) => matches!(n.state, PlaybackState::Playing),
        None => false,
    };
    if playing {
        acts.push(PlayerAction::AdvanceSleep);
        if sleep_would_expire {
            let mut pa = pause(p);
            acts.append(&mut pa);
        }
        let c = p.tick_count.wrapping_add(1);
        p.tick_count = c;
        if c % PERSIST_EVERY_TICKS == 0 {
            let mut sv = persist_cursor(p);
            acts.append(&mut sv);
        }
        if ended {
            let mut b = on_ended(p, !sleep_would_expire, auto_advance, next_up);
            acts.append(&mut b);
        }
        return acts;
    }
    if ended {
        let mut b = on_ended(p, true, auto_advance, next_up);
        acts.append(&mut b);
    }
    acts
}


/// Pausing a playing player and resuming it gives back the same player.
pub proof fn lemma_pause_then_resume(p: Player)
    requires
        state_of(p) matches Some(PlaybackState::Playing),
    ensures
        state_of(pause_spec(p).0) matches Some(PlaybackState::Paused),
        with_state(pause_spec(p).0, PlaybackState::Playing) == p,
{
    let n = p.now->0;
    assert(NowCore { state: PlaybackState::Playing, ..n } == n);
}

/// One backend event never takes the local-source retry count past its budget.
pub proof fn lemma_event_keeps_retry_budget(p: Player, ev: BackendEvent)
    requires
        p.local_retries <= LOCAL_RETRY_BUDGET,
    ensures
        event_spec(p, ev).0.local_retries <= LOCAL_RETRY_BUDGET,
{
}

/// However many backend events a poll delivers, the local-source retry count
/// stays within its budget.
pub proof fn lemma_events_keep_retry_budget(p: Player, evs: Seq<BackendEvent>)
    requires
        p.local_retries <= LOCAL_RETRY_BUDGET,
    ensures
        events_spec(p, evs).0.local_retries <= LOCAL_RETRY_BUDGET,
    decreases evs.len(),
{
    if evs.len() > 0 {
        lemma_events_keep_retry_budget(p, evs.drop_last());
        let q = events_spec(p, evs.drop_last()).0;
        lemma_event_keeps_retry_budget(q, evs.last());
    }
}

/// A latched `Ended` or `Error` (and `Preparing`, and an empty player) is never
/// polled, so an ended track is marked played once and never re-settled.
pub proof fn lemma_terminal_states_are_not_polled(p: Player)
    requires
        p.now is None || state_of(p) matches Some(PlaybackState::Ended) || state_of(p) matches Some(
            PlaybackState::Error(_),
        ) || state_of(p) matches Some(PlaybackState::Preparing),
    ensures
        !polls(p),
{
}

/// No cursor is ever saved for a `Preparing`, `Ended` or `Error` player, whose
/// position would clobber the saved cursor.
pub proof fn lemma_no_cursor_for_unresumable(p: Player)
    requires
        p.now is Some,
        !persistable(p.now->0.state),
    ensures
        persist_spec(p).len() == 0,
{
}

} // verus!
