//! The lazy fetch of a detail page's entity on a cold-store miss, and the
//! placeholder the page shows while the entity is not in the pool.

use vstd::prelude::*;

verus! {

/// What `char::to_uppercase` yields for a character (one or more characters).
pub uninterp spec fn upper(c: char) -> Seq<char>;

/// Calls `char::to_uppercase` and collects the characters it yields. Its
/// contract names the result and claims nothing else.
#[verifier::external_body]
fn char_to_uppercase(c: char) -> (r: String)
    ensures
        r@ == upper(c),
{
    c.to_uppercase().collect::<String>()
}

/// `noun` with its first character upper-cased.
pub open spec fn capitalized(noun: Seq<char>) -> Seq<char> {
    if noun.len() == 0 {
        Seq::empty()
    } else {
        upper(noun[0]) + noun.drop_first()
    }
}

/// The placeholder text: "loading" until the fetch fails, then an
/// offline-aware "not synced" versus a plain "not found".
pub open spec fn placeholder_spec(load_failed: bool, is_offline: bool, noun: Seq<char>) -> Seq<char> {
    if !load_failed {
        "Loading "@ + noun + "…"@
    } else if is_offline {
        "You're offline — this "@ + noun + " hasn't been synced to this device yet."@
    } else {
        capitalized(noun) + " not found."@
    }
}

/// The placeholder a detail page shows while its entity isn't in the pool yet
/// (`noun` is the lowercase entity name, e.g. "podcast").
pub fn deep_link_placeholder(load_failed: bool, is_offline: bool, noun: &str) -> (s: String)
    ensures
        s@ == placeholder_spec(load_failed, is_offline, noun@),
{
    if !load_failed {
        let mut s = String::from_str("Loading ");
        s.append(noun);
        s.append("…");
        s
    } else if is_offline {
        let mut s = String::from_str("You're offline — this ");
        s.append(noun);
        s.append(" hasn't been synced to this device yet.");
        s
    } else {
        let n = noun.unicode_len();
        let mut s = String::new();
        if n > 0 {
            let first = noun.get_char(0);
            let up = char_to_uppercase(first);
            s.append(up.as_str());
            let rest = noun.substring_char(1, n);
            s.append(rest);
            proof {
                assert(rest@ =~= noun@.drop_first());
            }
        }
        s.append(" not found.");
        proof {
            if n == 0 {
                assert(noun@ =~= Seq::<char>::empty());
            }
        }
        s
    }
}

/// The state of a detail page's lazy fetch: whether the last attempt failed,
/// and whether one is running.
#[derive(Clone, Copy, Debug, PartialEq, Eq, Structural)]
pub struct DeepLinkFetch {
    pub load_failed: bool,
    pub in_flight: bool,
}

/// Whether a presence effect starts a load.
pub open spec fn effect_starts(f: DeepLinkFetch, present: bool) -> bool {
    !present && !f.in_flight
}

/// The state after a presence effect.
pub open spec fn after_effect(f: DeepLinkFetch, present: bool) -> DeepLinkFetch {
    if effect_starts(f, present) {
        DeepLinkFetch { load_failed: false, in_flight: true }
    } else {
        f
    }
}

/// The state after the running load finished.
pub open spec fn after_done(failed: bool) -> DeepLinkFetch {
    DeepLinkFetch { load_failed: failed, in_flight: false }
}

impl DeepLinkFetch {
    /// Nothing fetched, nothing failed.
    pub fn new() -> (f: DeepLinkFetch)
        ensures
            !f.load_failed,
            !f.in_flight,
    {
        DeepLinkFetch { load_failed: false, in_flight: false }
    }

    /// The page's presence effect ran. When the entity is missing and no load
    /// is running, a new attempt starts (returns `true`; the caller runs the
    /// load) and the previous failure is cleared, so the page shows "loading"
    /// during the retry. Otherwise nothing changes.
    pub fn on_effect(&mut self, present: bool) -> (start: bool)
        ensures
            start == effect_starts(*old(self), present),
            *final(self) == after_effect(*old(self), present),
    {
        if present || self.in_flight {
            return false;
        }
        self.load_failed = false;
        self.in_flight = true;
        true
    }

    /// The running load finished; `failed` is whether it returned an error.
    pub fn on_done(&mut self, failed: bool)
        ensures
            *final(self) == after_done(failed),
    {
        self.load_failed = failed;
        self.in_flight = false;
    }
}

/// At most one load runs at a time: while an attempt runs, presence effects
/// start nothing and change nothing; once it finished, the next miss starts
/// a fresh attempt.
pub proof fn lemma_one_load_at_a_time(f: DeepLinkFetch, present: bool, failed: bool)
    requires
        f.in_flight,
    ensures
        !effect_starts(f, present),
        after_effect(f, present) == f,
        effect_starts(after_done(failed), false),
{
}

} // verus!
