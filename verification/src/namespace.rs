//! Active-user storage namespace.
//!
//! Every per-user client store is partitioned under a segment derived from the
//! active account: `u{id}-{server:016x}` for a remote account, `e{id}` for an
//! account on the embedded server, `anon` when nobody is signed in. The ambient
//! "which account is active" record is a [`Namespace`] value owned by the caller.

use vstd::prelude::*;
use crate::text::{
    all_dec, all_hex, dec_digits, hex_fixed, int_dec, is_dec_char, is_hex_char, chars_of, push_int,
    push_hex_fixed, lemma_dec_digits_shape, lemma_hex_fixed_shape, lemma_u64_below_pow16_16,
    lemma_hex_fixed_injective,
};

verus! {

/// Sentinel meaning "no active user"; it cannot collide with a real (positive)
/// server user id.
pub const NO_USER: i32 = i32::MIN;

/// The active account: user id (or [`NO_USER`]), whether it lives on the
/// embedded server, and the remote server's hash (meaningless while signed out).
#[derive(Clone, Copy, Debug, PartialEq, Eq, Structural)]
pub struct Namespace {
    pub user: i32,
    pub embedded: bool,
    pub server: u64,
}

/// The characters of `anon`.
pub open spec fn anon_seq() -> Seq<char> {
    seq!['a', 'n', 'o', 'n']
}

/// The namespace segment for an account.
pub open spec fn segment_spec(user_id: Option<i32>, embedded: bool, server: u64) -> Seq<char> {
    match user_id {
        Some(id) => if embedded {
            seq!['e'] + int_dec(id as int)
        } else {
            seq!['u'] + int_dec(id as int) + seq!['-'] + hex_fixed(server as nat, 16)
        },
        None => anon_seq(),
    }
}

/// The id-and-optional-hash tail of an account segment: a non-empty run of
/// decimal digits, optionally followed (only when `hash` is allowed) by `-` and
/// exactly 16 hexadecimal digits of either case.
pub open spec fn digits_then_hash(rest: Seq<char>, hash: bool) -> bool {
    ||| (rest.len() > 0 && all_dec(rest))
    ||| exists|k: int|
        0 < k < rest.len() && #[trigger] rest[k] == '-' && all_dec(rest.subrange(0, k)) && hash
            && rest.len() - k - 1 == 16 && all_hex(rest.subrange(k + 1, rest.len() as int))
}

/// Whether `name` has the shape of an account namespace segment: `anon`,
/// `e{digits}`, `u{digits}` (legacy) or `u{digits}-{16 hex}`.
pub open spec fn account_segment_spec(name: Seq<char>) -> bool {
    ||| name == anon_seq()
    ||| (name.len() >= 1 && name[0] == 'e' && digits_then_hash(name.drop_first(), false))
    ||| (name.len() >= 1 && name[0] == 'u' && digits_then_hash(name.drop_first(), true))
}

/// The active user id held by a namespace record.
pub open spec fn active_spec(ns: Namespace) -> Option<i32> {
    if ns.user == NO_USER {
        None
    } else {
        Some(ns.user)
    }
}

impl Namespace {
    /// The signed-out record.
    pub fn new() -> (ns: Namespace)
        ensures
            active_spec(ns) is None,
            !ns.embedded,
            ns.server == 0,
    {
        Namespace { user: NO_USER, embedded: false, server: 0 }
    }
}

/// Set the active user id (or `None` when signed out), whether that account
/// lives on the embedded server, and its server hash.
pub fn set_active(ns: &mut Namespace, user_id: Option<i32>, embedded: bool, server: u64)
    ensures
        final(ns).user == match user_id {
            Some(id) => id,
            None => NO_USER,
        },
        final(ns).embedded == embedded,
        final(ns).server == server,
{
    ns.user = match user_id {
        Some(id) => id,
        None => NO_USER,
    };
    ns.embedded = embedded;
    ns.server = server;
}

/// The active user id, or `None` when signed out.
pub fn active(ns: &Namespace) -> (r: Option<i32>)
    ensures
        r == active_spec(*ns),
{
    if ns.user == NO_USER {
        None
    } else {
        Some(ns.user)
    }
}

/// Whether the active account is on the embedded server (`false` when signed
/// out).
pub fn active_embedded(ns: &Namespace) -> (b: bool)
    ensures
        b == (active_spec(*ns) is Some && ns.embedded),
{
    active(ns).is_some() && ns.embedded
}

/// The namespace segment of the active account.
pub fn segment(ns: &Namespace) -> (s: String)
    ensures
        s@ == segment_spec(active_spec(*ns), active_spec(*ns) is Some && ns.embedded, ns.server),
{
    segment_for(active(ns), active_embedded(ns), ns.server)
}

/// The namespace segment for a specific account: `e{id}` on the embedded
/// server, `u{id}-{server:016x}` on a remote one, `anon` when signed out.
pub fn segment_for(user_id: Option<i32>, embedded: bool, server: u64) -> (s: String)
    ensures
        s@ == segment_spec(user_id, embedded, server),
{
    match user_id {
        Some(id) => {
            proof {
                reveal_strlit("e");
                reveal_strlit("u");
                reveal_strlit("-");
            }
            let mut s = if embedded {
                String::from_str("e")
            } else {
                String::from_str("u")
            };
            push_int(&mut s, id as i64);
            if !embedded {
                s.append("-");
                push_hex_fixed(&mut s, server, 16);
            }
            s
        },
        None => {
            proof {
                reveal_strlit("anon");
            }
            String::from_str("anon")
        },
    }
}

/// Index of the first `-` in `v[from..]`, if any.
fn find_dash(v: &Vec<char>, from: usize) -> (r: Option<usize>)
    requires
        from <= v.len(),
    ensures
        match r {
            Some(k) => from <= k < v.len() && v@[k as int] == '-' && forall|j: int|
                from <= j < k ==> v@[j] != '-',
            None => forall|j: int| from <= j < v.len() ==> v@[j] != '-',
        },
{
    let mut i = from;
    while i < v.len()
        invariant
            from <= i <= v.len(),
            forall|j: int| from <= j < i ==> v@[j] != '-',
        decreases v.len() - i,
    {
        if v[i] == '-' {
            return Some(i);
        }
        i = i + 1;
    }
    None
}

/// Whether every character of `v[lo..hi]` is a decimal digit.
fn all_dec_range(v: &Vec<char>, lo: usize, hi: usize) -> (b: bool)
    requires
        lo <= hi <= v.len(),
    ensures
        b == all_dec(v@.subrange(lo as int, hi as int)),
{
    let mut i = lo;
    while i < hi
        invariant
            lo <= i <= hi <= v.len(),
            forall|j: int| lo <= j < i ==> is_dec_char(v@[j]),
        decreases hi - i,
    {
        let c = v[i];
        if !('0' <= c && c <= '9') {
            assert(v@.subrange(lo as int, hi as int)[i - lo] == c);
            return false;
        }
        i = i + 1;
    }
    assert forall|j: int| 0 <= j < hi - lo implies is_dec_char(
        #[trigger] v@.subrange(lo as int, hi as int)[j],
    ) by {
        assert(v@.subrange(lo as int, hi as int)[j] == v@[lo + j]);
    }
    true
}

/// Whether every character of `v[lo..hi]` is a hexadecimal digit.
fn all_hex_range(v: &Vec<char>, lo: usize, hi: usize) -> (b: bool)
    requires
        lo <= hi <= v.len(),
    ensures
        b == all_hex(v@.subrange(lo as int, hi as int)),
{
    let mut i = lo;
    while i < hi
        invariant
            lo <= i <= hi <= v.len(),
            forall|j: int| lo <= j < i ==> is_hex_char(v@[j]),
        decreases hi - i,
    {
        let c = v[i];
        if !(('0' <= c && c <= '9') || ('a' <= c && c <= 'f') || ('A' <= c && c <= 'F')) {
            assert(v@.subrange(lo as int, hi as int)[i - lo] == c);
            return false;
        }
        i = i + 1;
    }
    assert forall|j: int| 0 <= j < hi - lo implies is_hex_char(
        #[trigger] v@.subrange(lo as int, hi as int)[j],
    ) by {
        assert(v@.subrange(lo as int, hi as int)[j] == v@[lo + j]);
    }
    true
}

/// `digits_then_hash` over `v[1..]`.
fn digits_then_hash_exec(v: &Vec<char>, hash: bool) -> (b: bool)
    requires
        v.len() >= 1,
    ensures
        b == digits_then_hash(v@.drop_first(), hash),
{
    let ghost rest = v@.drop_first();
    let n = v.len();
    match find_dash(v, 1) {
        None => {
            let r = n > 1 && all_dec_range(v, 1, n);
            proof {
                assert(v@.subrange(1, n as int) =~= rest);
                if !r {
                    assert forall|k: int| 0 < k < rest.len() implies rest[k] != '-' by {
                        assert(rest[k] == v@[k + 1]);
                    }
                }
            }
            r
        },
        Some(d) => {
            let k = d - 1;
            let r = d > 1 && all_dec_range(v, 1, d) && hash && n - d - 1 == 16 && all_hex_range(
                v,
                d + 1,
                n,
            );
            proof {
                assert(v@.subrange(1, d as int) =~= rest.subrange(0, k as int));
                assert(v@.subrange(d + 1, n as int) =~= rest.subrange(k + 1, rest.len() as int));
                assert(rest[k as int] == '-');
                if r {
                    assert(0 < k < rest.len());
                } else {
                    // No all-digit run covers position k, and no later dash can
                    // be preceded by digits only.
                    if rest.len() > 0 && all_dec(rest) {
                        assert(is_dec_char(rest[k as int]));
                    }
                    assert forall|k2: int|
                        0 < k2 < rest.len() && #[trigger] rest[k2] == '-' && all_dec(
                            rest.subrange(0, k2),
                        ) && hash && rest.len() - k2 - 1 == 16 && all_hex(
                            rest.subrange(k2 + 1, rest.len() as int),
                        ) implies false by {
                        if k2 < k {
                            assert(v@[k2 + 1] == rest[k2]);
                        } else if k2 > k {
                            assert(rest.subrange(0, k2)[k as int] == rest[k as int]);
                        }
                    }
                }
            }
            r
        },
    }
}

/// Whether `name` is (or ever was) an account namespace segment — the reverse
/// of [`segment_for`]: `anon`, embedded `e{id}`, remote `u{id}-{16 hex}` and
/// the legacy remote `u{id}`.
pub fn is_account_segment(name: &str) -> (b: bool)
    ensures
        b == account_segment_spec(name@),
{
    let v = chars_of(name);
    if v.len() == 4 && v[0] == 'a' && v[1] == 'n' && v[2] == 'o' && v[3] == 'n' {
        assert(v@ =~= anon_seq());
        return true;
    }
    assert(v@ != anon_seq()) by {
        if v@ == anon_seq() {
            assert(v@[0] == 'a' && v@[1] == 'n' && v@[2] == 'o' && v@[3] == 'n');
        }
    }
    if v.len() == 0 {
        return false;
    }
    if v[0] == 'e' {
        digits_then_hash_exec(&v, false)
    } else if v[0] == 'u' {
        digits_then_hash_exec(&v, true)
    } else {
        false
    }
}

/// Every segment that [`segment_for`] produces for a non-negative user id is
/// recognized by [`is_account_segment`].
pub proof fn lemma_produced_segments_are_recognized(user_id: Option<i32>, embedded: bool, server: u64)
    requires
        user_id matches Some(id) ==> id >= 0,
    ensures
        account_segment_spec(segment_spec(user_id, embedded, server)),
{
    match user_id {
        None => {},
        Some(id) => {
            let d = dec_digits(id as nat);
            lemma_dec_digits_shape(id as nat);
            assert(int_dec(id as int) == d);
            if embedded {
                let name = seq!['e'] + d;
                assert(name.drop_first() =~= d);
                assert(name[0] == 'e');
            } else {
                let h = hex_fixed(server as nat, 16);
                lemma_hex_fixed_shape(server as nat, 16);
                let name = seq!['u'] + d + seq!['-'] + h;
                let rest = name.drop_first();
                assert(rest =~= d + seq!['-'] + h);
                let k = d.len() as int;
                assert(rest[k] == '-');
                assert(rest.subrange(0, k) =~= d);
                assert(rest.subrange(k + 1, rest.len() as int) =~= h);
                assert(name[0] == 'u');
            }
        },
    }
}

/// Two remote accounts with the same user id on different servers never share
/// a segment.
pub proof fn lemma_remote_segments_separate_servers(id: i32, s1: u64, s2: u64)
    requires
        s1 != s2,
    ensures
        segment_spec(Some(id), false, s1) != segment_spec(Some(id), false, s2),
{
    let p = seq!['u'] + int_dec(id as int) + seq!['-'];
    let a = p + hex_fixed(s1 as nat, 16);
    let b = p + hex_fixed(s2 as nat, 16);
    if a == b {
        lemma_hex_fixed_shape(s1 as nat, 16);
        lemma_hex_fixed_shape(s2 as nat, 16);
        assert(a.subrange(p.len() as int, a.len() as int) =~= hex_fixed(s1 as nat, 16));
        assert(b.subrange(p.len() as int, b.len() as int) =~= hex_fixed(s2 as nat, 16));
        lemma_u64_below_pow16_16(s1);
        lemma_u64_below_pow16_16(s2);
        lemma_hex_fixed_injective(s1 as nat, s2 as nat, 16);
    }
}

/// Segments partition by kind: a signed-out, an embedded and a remote account
/// never share a segment.
pub proof fn lemma_segment_kinds_disjoint(id1: i32, id2: i32, s1: u64, s2: u64)
    ensures
        segment_spec(None, false, s1) != segment_spec(Some(id1), true, s2),
        segment_spec(None, false, s1) != segment_spec(Some(id1), false, s2),
        segment_spec(Some(id1), true, s1) != segment_spec(Some(id2), false, s2),
{
    assert(segment_spec(None, false, s1)[0] == 'a');
    assert(segment_spec(Some(id1), true, s2)[0] == 'e');
    assert(segment_spec(Some(id1), false, s2)[0] == 'u');
    assert(segment_spec(Some(id1), true, s1)[0] == 'e');
    assert(segment_spec(Some(id2), false, s2)[0] == 'u');
}

/// After `set_active` with a real user id, the ambient reads give that account
/// back: `active`, `active_embedded` and `segment` all follow the write.
pub proof fn lemma_set_active_then_read(ns: Namespace, id: i32, embedded: bool, server: u64)
    requires
        id != NO_USER,
        ns.user == id,
        ns.embedded == embedded,
        ns.server == server,
    ensures
        active_spec(ns) == Some(id),
        (active_spec(ns) is Some && ns.embedded) == embedded,
        segment_spec(active_spec(ns), active_spec(ns) is Some && ns.embedded, ns.server)
            == segment_spec(Some(id), embedded, server),
{
}

} // verus!
