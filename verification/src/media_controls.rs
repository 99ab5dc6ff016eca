//! The OS media controls (lock screen, Bluetooth buttons): which player
//! command each control action stands for, and the registration generation
//! that keeps a superseded registration from touching the current one.

use vstd::prelude::*;
use crate::text::str_eq;

verus! {

/// A player command triggered from the OS media controls.
#[derive(Clone, Copy, Debug, PartialEq, Eq, Structural)]
pub enum TransportCommand {
    /// Play, from whatever state the player is in.
    Play,
    Pause,
    /// Seek by this many seconds (negative: backwards).
    SeekBy(i64),
    /// Play the next episode (queue continuation first, then podcast order).
    NextEpisode,
    /// Play the previous episode.
    PreviousEpisode,
}

/// The playback preferences the media controls read.
#[derive(Clone, Copy, Debug, PartialEq, Eq, Structural)]
pub struct MediaPrefs {
    /// Seconds a forward skip jumps.
    pub skip_forward: u32,
    /// Seconds a backward skip jumps.
    pub skip_backward: u32,
    /// Remap the track-change buttons to skips within the episode.
    pub next_prev_seek: bool,
}

/// The command an OS media action stands for; unknown actions stand for
/// nothing.
pub open spec fn media_command_spec(action: Seq<char>, prefs: MediaPrefs) -> Option<TransportCommand> {
    let forward = TransportCommand::SeekBy(prefs.skip_forward as i64);
    let backward = TransportCommand::SeekBy((-(prefs.skip_backward as int)) as i64);
    if action == "play"@ {
        Some(TransportCommand::Play)
    } else if action == "pause"@ {
        Some(TransportCommand::Pause)
    } else if action == "seekforward"@ {
        Some(forward)
    } else if action == "seekbackward"@ {
        Some(backward)
    } else if action == "nexttrack"@ {
        Some(
            if prefs.next_prev_seek {
                forward
            } else {
                TransportCommand::NextEpisode
            },
        )
    } else if action == "previoustrack"@ {
        Some(
            if prefs.next_prev_seek {
                backward
            } else {
                TransportCommand::PreviousEpisode
            },
        )
    } else {
        None
    }
}

/// The player command for an OS media action: play and pause go through the
/// player; the seek buttons skip by the configured intervals; the
/// track-change buttons navigate the queue, or skip within the episode when
/// the override is on.
pub fn media_command(action: &str, prefs: MediaPrefs) -> (c: Option<TransportCommand>)
    ensures
        c == media_command_spec(action@, prefs),
{
    let forward = TransportCommand::SeekBy(prefs.skip_forward as i64);
    let backward = TransportCommand::SeekBy(-(prefs.skip_backward as i64));
    if str_eq(action, "play") {
        Some(TransportCommand::Play)
    } else if str_eq(action, "pause") {
        Some(TransportCommand::Pause)
    } else if str_eq(action, "seekforward") {
        Some(forward)
    } else if str_eq(action, "seekbackward") {
        Some(backward)
    } else if str_eq(action, "nexttrack") {
        if prefs.next_prev_seek {
            Some(forward)
        } else {
            Some(TransportCommand::NextEpisode)
        }
    } else if str_eq(action, "previoustrack") {
        if prefs.next_prev_seek {
            Some(backward)
        } else {
            Some(TransportCommand::PreviousEpisode)
        }
    } else {
        None
    }
}

/// The generation of the current media-control registration. A new player
/// mount registers before the old one is torn down, so each registration
/// remembers its generation and acts (handles an action, clears the OS
/// handlers on teardown) only while it is still the current one.
#[derive(Clone, Copy, Debug, PartialEq, Eq, Structural)]
pub struct MediaSessionGen {
    pub current: u64,
}

/// The generation after `g` (wrapping).
pub open spec fn next_gen(g: u64) -> u64 {
    if g == u64::MAX {
        0
    } else {
        (g + 1) as u64
    }
}

impl MediaSessionGen {
    /// No registration yet.
    pub fn new() -> (s: MediaSessionGen)
        ensures
            s.current == 0,
    {
        MediaSessionGen { current: 0 }
    }

    /// A new registration: it becomes the current one and gets its generation.
    pub fn register(&mut self) -> (g: u64)
        ensures
            g == next_gen(old(self).current),
            final(self).current == g,
    {
        let g = self.current.wrapping_add(1);
        self.current = g;
        g
    }

    /// Whether the registration of generation `g` is still the current one.
    pub fn is_current(&self, g: u64) -> (b: bool)
        ensures
            b == (self.current == g),
    {
        self.current == g
    }
}

/// Once a newer registration took over, the older one is no longer current:
/// its handlers do nothing and its teardown leaves the newer handlers bound.
pub proof fn lemma_newer_registration_supersedes(s: MediaSessionGen)
    ensures
        next_gen(s.current) != s.current,
{
}

} // verus!
