//! Severity of a captured device-log line.

use vstd::prelude::*;
use crate::text::str_eq;

verus! {

/// Severity of a captured log line, ordered most-severe (`Error`, rank 0) to
/// least-severe (`Trace`, rank 4). A line is captured when its rank is at most
/// the configured threshold's rank.
#[derive(Clone, Copy, Debug, PartialEq, Eq, Structural)]
pub enum Level {
    Error,
    Warn,
    Info,
    Debug,
    Trace,
}

/// The numeric rank of a level (`Error` = 0 … `Trace` = 4).
pub open spec fn rank(l: Level) -> int {
    match l {
        Level::Error => 0,
        Level::Warn => 1,
        Level::Info => 2,
        Level::Debug => 3,
        Level::Trace => 4,
    }
}

/// The stable identifier of a level (its variant name).
pub open spec fn level_name(l: Level) -> Seq<char> {
    match l {
        Level::Error => seq!['E', 'r', 'r', 'o', 'r'],
        Level::Warn => seq!['W', 'a', 'r', 'n'],
        Level::Info => seq!['I', 'n', 'f', 'o'],
        Level::Debug => seq!['D', 'e', 'b', 'u', 'g'],
        Level::Trace => seq!['T', 'r', 'a', 'c', 'e'],
    }
}

/// The level whose rank is `r`; any rank other than 0, 1, 3, 4 reads as `Info`.
pub open spec fn level_of_rank(r: int) -> Level {
    if r == 0 {
        Level::Error
    } else if r == 1 {
        Level::Warn
    } else if r == 3 {
        Level::Debug
    } else if r == 4 {
        Level::Trace
    } else {
        Level::Info
    }
}

/// The level a settings value names: the level whose identifier is `s`, or
/// `Info` when none is.
pub open spec fn level_named(s: Seq<char>) -> Level {
    if s == level_name(Level::Error) {
        Level::Error
    } else if s == level_name(Level::Warn) {
        Level::Warn
    } else if s == level_name(Level::Info) {
        Level::Info
    } else if s == level_name(Level::Debug) {
        Level::Debug
    } else if s == level_name(Level::Trace) {
        Level::Trace
    } else {
        Level::Info
    }
}

impl Level {
    /// The default level (`Info`).
    pub fn default_level() -> (l: Level)
        ensures
            l == Level::Info,
    {
        Level::Info
    }

    /// Rank as a byte.
    pub fn rank_u8(&self) -> (r: u8)
        ensures
            r as int == rank(*self),
    {
        match self {
            Level::Error => 0,
            Level::Warn => 1,
            Level::Info => 2,
            Level::Debug => 3,
            Level::Trace => 4,
        }
    }

    /// All variants, most-severe first, for the settings select.
    pub fn all() -> (v: Vec<Level>)
        ensures
            v@ == seq![Level::Error, Level::Warn, Level::Info, Level::Debug, Level::Trace],
    {
        vec![Level::Error, Level::Warn, Level::Info, Level::Debug, Level::Trace]
    }

    /// Stable identifier (the variant name) for `<select>` values.
    pub fn as_str(&self) -> (s: &'static str)
        ensures
            s@ == level_name(*self),
    {
        proof {
            reveal_strlit("Error");
            reveal_strlit("Warn");
            reveal_strlit("Info");
            reveal_strlit("Debug");
            reveal_strlit("Trace");
        }
        match self {
            Level::Error => "Error",
            Level::Warn => "Warn",
            Level::Info => "Info",
            Level::Debug => "Debug",
            Level::Trace => "Trace",
        }
    }

    /// The level whose identifier is `s`, or the default (`Info`).
    pub fn from_str_or_default(s: &str) -> (l: Level)
        ensures
            l == level_named(s@),
    {
        let all = Level::all();
        let mut i: usize = 0;
        while i < all.len()
            invariant
                all@ == seq![Level::Error, Level::Warn, Level::Info, Level::Debug, Level::Trace],
                i <= all.len(),
                forall|j: int| 0 <= j < i ==> level_name(#[trigger] all@[j]) != s@,
            decreases all.len() - i,
        {
            let l = all[i];
            if str_eq(l.as_str(), s) {
                assert(forall|j: int| 0 <= j < i ==> level_name(#[trigger] all@[j]) != s@);
                assert(i == 0 ==> l == Level::Error);
                assert(i == 1 ==> l == Level::Warn && level_name(all@[0]) != s@);
                return l;
            }
            i = i + 1;
        }
        assert(level_name(all@[0]) != s@);
        assert(level_name(all@[1]) != s@);
        assert(level_name(all@[2]) != s@);
        assert(level_name(all@[3]) != s@);
        assert(level_name(all@[4]) != s@);
        Level::default_level()
    }

    /// Human label for the settings select.
    pub fn label(&self) -> (s: &'static str)
        ensures
            s@ == match *self {
                Level::Error => "Error only"@,
                Level::Warn => "Warn and above"@,
                Level::Info => "Info and above (default)"@,
                Level::Debug => "Debug and above"@,
                Level::Trace => "Trace (everything)"@,
            },
    {
        match self {
            Level::Error => "Error only",
            Level::Warn => "Warn and above",
            Level::Info => "Info and above (default)",
            Level::Debug => "Debug and above",
            Level::Trace => "Trace (everything)",
        }
    }

    /// Semantic text colour class for the viewer.
    pub fn color(&self) -> (s: &'static str)
        ensures
            s@ == match *self {
                Level::Error => "text-error"@,
                Level::Warn => "text-warning"@,
                Level::Info => "text-base-content"@,
                Level::Debug => "text-info"@,
                Level::Trace => "text-muted"@,
            },
    {
        match self {
            Level::Error => "text-error",
            Level::Warn => "text-warning",
            Level::Info => "text-base-content",
            Level::Debug => "text-info",
            Level::Trace => "text-muted",
        }
    }
}

/// Reading a level's identifier back gives the level.
pub proof fn lemma_name_roundtrip(l: Level)
    ensures
        level_named(level_name(l)) == l,
{
    assert(level_name(Level::Error) != level_name(Level::Warn));
    assert(level_name(Level::Error) != level_name(Level::Info));
    assert(level_name(Level::Error)[1] != level_name(Level::Debug)[1]);
    assert(level_name(Level::Error)[0] != level_name(Level::Trace)[0]);
    assert(level_name(Level::Warn)[0] != level_name(Level::Info)[0]);
    assert(level_name(Level::Warn) != level_name(Level::Debug));
    assert(level_name(Level::Warn) != level_name(Level::Trace));
    assert(level_name(Level::Info) != level_name(Level::Debug));
    assert(level_name(Level::Info) != level_name(Level::Trace));
    assert(level_name(Level::Debug)[0] != level_name(Level::Trace)[0]);
}

/// Storing a level by rank and reading it back gives the level.
pub proof fn lemma_rank_roundtrip(l: Level)
    ensures
        level_of_rank(rank(l)) == l,
{
}

} // verus!
