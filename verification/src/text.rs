//! Character-level text helpers shared by the modules: decimal and fixed-width
//! hexadecimal rendering, substring search, and character access.

use vstd::prelude::*;

verus! {

/// The decimal digit character for `d` (0..=9).
pub open spec fn dec_char(d: int) -> char {
    if d == 0 {
        '0'
    } else if d == 1 {
        '1'
    } else if d == 2 {
        '2'
    } else if d == 3 {
        '3'
    } else if d == 4 {
        '4'
    } else if d == 5 {
        '5'
    } else if d == 6 {
        '6'
    } else if d == 7 {
        '7'
    } else if d == 8 {
        '8'
    } else {
        '9'
    }
}

/// The lowercase hexadecimal digit character for `d` (0..=15).
pub open spec fn hex_char(d: int) -> char {
    if d < 10 {
        dec_char(d)
    } else if d == 10 {
        'a'
    } else if d == 11 {
        'b'
    } else if d == 12 {
        'c'
    } else if d == 13 {
        'd'
    } else if d == 14 {
        'e'
    } else {
        'f'
    }
}

/// Decimal rendering of a natural number, without leading zeros.
pub open spec fn dec_digits(n: nat) -> Seq<char>
    decreases n,
{
    if n < 10 {
        seq![dec_char(n as int)]
    } else {
        dec_digits(n / 10).push(dec_char((n % 10) as int))
    }
}

/// Decimal rendering of an integer, with a leading `-` when negative.
pub open spec fn int_dec(i: int) -> Seq<char> {
    if i < 0 {
        seq!['-'] + dec_digits((-i) as nat)
    } else {
        dec_digits(i as nat)
    }
}

/// The `k` low hexadecimal digits of `v`, zero-padded, most significant first.
pub open spec fn hex_fixed(v: nat, k: nat) -> Seq<char>
    decreases k,
{
    if k == 0 {
        Seq::empty()
    } else {
        hex_fixed(v / 16, (k - 1) as nat).push(hex_char((v % 16) as int))
    }
}

/// `16` to the power `k`.
pub open spec fn pow16(k: nat) -> nat
    decreases k,
{
    if k == 0 {
        1
    } else {
        16 * pow16((k - 1) as nat)
    }
}

/// Whether `c` is an ASCII decimal digit.
pub open spec fn is_dec_char(c: char) -> bool {
    '0' <= c && c <= '9'
}

/// Whether `c` is an ASCII hexadecimal digit (either case).
pub open spec fn is_hex_char(c: char) -> bool {
    ('0' <= c && c <= '9') || ('a' <= c && c <= 'f') || ('A' <= c && c <= 'F')
}

/// Whether every character of `s` satisfies `is_dec_char`.
pub open spec fn all_dec(s: Seq<char>) -> bool {
    forall|i: int| 0 <= i < s.len() ==> is_dec_char(#[trigger] s[i])
}

/// Whether every character of `s` satisfies `is_hex_char`.
pub open spec fn all_hex(s: Seq<char>) -> bool {
    forall|i: int| 0 <= i < s.len() ==> is_hex_char(#[trigger] s[i])
}

/// Whether `needle` occurs in `hay` starting at position `i`.
pub open spec fn occurs_at(hay: Seq<char>, needle: Seq<char>, i: int) -> bool {
    0 <= i && i + needle.len() <= hay.len() && hay.subrange(i, i + needle.len()) == needle
}

/// Whether `needle` occurs anywhere in `hay` (the empty needle always does).
pub open spec fn contains_seq(hay: Seq<char>, needle: Seq<char>) -> bool {
    exists|i: int| #[trigger] occurs_at(hay, needle, i)
}

pub proof fn lemma_dec_char_is_dec(d: int)
    requires
        0 <= d < 10,
    ensures
        is_dec_char(dec_char(d)),
        is_hex_char(dec_char(d)),
        dec_char(d) != '-',
{
}

pub proof fn lemma_hex_char_is_hex(d: int)
    requires
        0 <= d < 16,
    ensures
        is_hex_char(hex_char(d)),
        hex_char(d) != '-',
{
}

/// Decimal renderings are non-empty and made only of digits.
pub proof fn lemma_dec_digits_shape(n: nat)
    ensures
        dec_digits(n).len() >= 1,
        all_dec(dec_digits(n)),
    decreases n,
{
    if n >= 10 {
        lemma_dec_digits_shape(n / 10);
        lemma_dec_char_is_dec((n % 10) as int);
        let s = dec_digits(n / 10);
        assert forall|i: int| 0 <= i < dec_digits(n).len() implies is_dec_char(
            #[trigger] dec_digits(n)[i],
        ) by {
            if i < s.len() {
                assert(dec_digits(n)[i] == s[i]);
            }
        }
    } else {
        lemma_dec_char_is_dec(n as int);
    }
}

/// Fixed-width hexadecimal renderings have exactly `k` hexadecimal digits.
pub proof fn lemma_hex_fixed_shape(v: nat, k: nat)
    ensures
        hex_fixed(v, k).len() == k,
        all_hex(hex_fixed(v, k)),
    decreases k,
{
    if k > 0 {
        lemma_hex_fixed_shape(v / 16, (k - 1) as nat);
        lemma_hex_char_is_hex((v % 16) as int);
        let s = hex_fixed(v / 16, (k - 1) as nat);
        assert forall|i: int| 0 <= i < hex_fixed(v, k).len() implies is_hex_char(
            #[trigger] hex_fixed(v, k)[i],
        ) by {
            if i < s.len() {
                assert(hex_fixed(v, k)[i] == s[i]);
            }
        }
    }
}

proof fn lemma_hex_char_injective(a: int, b: int)
    requires
        0 <= a < 16,
        0 <= b < 16,
        hex_char(a) == hex_char(b),
    ensures
        a == b,
{
}

/// Two values below `16^k` with the same `k`-digit rendering are equal.
pub proof fn lemma_hex_fixed_injective(a: nat, b: nat, k: nat)
    requires
        a < pow16(k),
        b < pow16(k),
        hex_fixed(a, k) == hex_fixed(b, k),
    ensures
        a == b,
    decreases k,
{
    if k == 0 {
    } else {
        let sa = hex_fixed(a, k);
        let sb = hex_fixed(b, k);
        assert(sa.last() == sb.last());
        assert(sa.drop_last() =~= hex_fixed(a / 16, (k - 1) as nat));
        assert(sb.drop_last() =~= hex_fixed(b / 16, (k - 1) as nat));
        lemma_hex_char_injective((a % 16) as int, (b % 16) as int);
        assert(a / 16 < pow16((k - 1) as nat)) by (nonlinear_arith)
            requires
                a < 16 * pow16((k - 1) as nat),
        ;
        assert(b / 16 < pow16((k - 1) as nat)) by (nonlinear_arith)
            requires
                b < 16 * pow16((k - 1) as nat),
        ;
        lemma_hex_fixed_injective(a / 16, b / 16, (k - 1) as nat);
        assert(a == 16 * (a / 16) + a % 16) by (nonlinear_arith);
        assert(b == 16 * (b / 16) + b % 16) by (nonlinear_arith);
    }
}

/// Every `u64` is below `16^16`.
pub proof fn lemma_u64_below_pow16_16(v: u64)
    ensures
        (v as nat) < pow16(16),
{
    reveal_with_fuel(pow16, 17);
    assert(pow16(16) == 0x1_0000_0000_0000_0000nat);
}

/// The one-character string for decimal digit `d`.
fn dec_str(d: u64) -> (s: &'static str)
    requires
        d < 10,
    ensures
        s@ == seq![dec_char(d as int)],
{
    proof {
        reveal_strlit("0");
        reveal_strlit("1");
        reveal_strlit("2");
        reveal_strlit("3");
        reveal_strlit("4");
        reveal_strlit("5");
        reveal_strlit("6");
        reveal_strlit("7");
        reveal_strlit("8");
        reveal_strlit("9");
    }
    if d == 0 {
        "0"
    } else if d == 1 {
        "1"
    } else if d == 2 {
        "2"
    } else if d == 3 {
        "3"
    } else if d == 4 {
        "4"
    } else if d == 5 {
        "5"
    } else if d == 6 {
        "6"
    } else if d == 7 {
        "7"
    } else if d == 8 {
        "8"
    } else {
        "9"
    }
}

/// The one-character string for hexadecimal digit `d`.
fn hex_str(d: u64) -> (s: &'static str)
    requires
        d < 16,
    ensures
        s@ == seq![hex_char(d as int)],
{
    proof {
        reveal_strlit("a");
        reveal_strlit("b");
        reveal_strlit("c");
        reveal_strlit("d");
        reveal_strlit("e");
        reveal_strlit("f");
    }
    if d < 10 {
        dec_str(d)
    } else if d == 10 {
        "a"
    } else if d == 11 {
        "b"
    } else if d == 12 {
        "c"
    } else if d == 13 {
        "d"
    } else if d == 14 {
        "e"
    } else {
        "f"
    }
}

/// Append the decimal rendering of `n`.
pub fn push_decimal(s: &mut String, n: u64)
    ensures
        final(s)@ == old(s)@ + dec_digits(n as nat),
    decreases n,
{
    if n >= 10 {
        push_decimal(s, n / 10);
    }
    s.append(dec_str(n % 10));
    proof {
        if n >= 10 {
            assert(dec_digits(n as nat) == dec_digits((n / 10) as nat).push(
                dec_char((n % 10) as int),
            ));
        }
    }
    assert(s@ =~= old(s)@ + dec_digits(n as nat));
}

/// Append the decimal rendering of `i` (with a leading `-` when negative).
pub fn push_int(s: &mut String, i: i64)
    ensures
        final(s)@ == old(s)@ + int_dec(i as int),
{
    if i < 0 {
        proof {
            reveal_strlit("-");
        }
        s.append("-");
        let mag: u64 = if i == i64::MIN {
            0x8000_0000_0000_0000u64
        } else {
            (-i) as u64
        };
        assert(mag as int == -(i as int));
        push_decimal(s, mag);
        assert(s@ =~= old(s)@ + int_dec(i as int));
    } else {
        push_decimal(s, i as u64);
    }
}

/// Append the `k` low hexadecimal digits of `v`, zero-padded, lowercase.
pub fn push_hex_fixed(s: &mut String, v: u64, k: u32)
    ensures
        final(s)@ == old(s)@ + hex_fixed(v as nat, k as nat),
    decreases k,
{
    if k > 0 {
        push_hex_fixed(s, v / 16, k - 1);
        s.append(hex_str(v % 16));
        assert(s@ =~= old(s)@ + hex_fixed(v as nat, k as nat));
    } else {
        assert(s@ =~= old(s)@ + hex_fixed(v as nat, k as nat));
    }
}

/// The characters of `s`, in order.
pub fn chars_of(s: &str) -> (v: Vec<char>)
    ensures
        v@ == s@,
{
    let n = s.unicode_len();
    let mut v: Vec<char> = Vec::new();
    let mut i: usize = 0;
    while i < n
        invariant
            n == s@.len(),
            i <= n,
            v@ == s@.subrange(0, i as int),
        decreases n - i,
    {
        let c = s.get_char(i);
        v.push(c);
        i = i + 1;
        assert(v@ =~= s@.subrange(0, i as int));
    }
    assert(v@ =~= s@);
    v
}

/// Whether `needle` occurs in `hay` at position `i`.
fn matches_at(hay: &Vec<char>, needle: &Vec<char>, i: usize) -> (b: bool)
    requires
        i + needle.len() <= hay.len(),
    ensures
        b == occurs_at(hay@, needle@, i as int),
{
    let mut j: usize = 0;
    while j < needle.len()
        invariant
            i + needle.len() <= hay.len(),
            j <= needle.len(),
            forall|k: int| 0 <= k < j ==> hay@[i + k] == needle@[k],
        decreases needle.len() - j,
    {
        if hay[i + j] != needle[j] {
            assert(hay@.subrange(i as int, i + needle.len())[j as int] != needle@[j as int]);
            return false;
        }
        j = j + 1;
    }
    assert(hay@.subrange(i as int, i + needle@.len()) =~= needle@);
    true
}

/// Whether `needle` occurs anywhere in `hay`.
pub fn contains_chars(hay: &Vec<char>, needle: &Vec<char>) -> (b: bool)
    ensures
        b == contains_seq(hay@, needle@),
{
    if needle.len() > hay.len() {
        assert forall|i: int| !occurs_at(hay@, needle@, i) by {}
        return false;
    }
    let last = hay.len() - needle.len();
    let mut i: usize = 0;
    while i <= last
        invariant
            last + needle.len() == hay.len(),
            i <= last,
            forall|k: int| 0 <= k < i ==> !occurs_at(hay@, needle@, k),
        ensures
            forall|k: int| 0 <= k <= last ==> !occurs_at(hay@, needle@, k),
        decreases last + 1 - i,
    {
        if matches_at(hay, needle, i) {
            return true;
        }
        if i == last {
            break;
        }
        i = i + 1;
    }
    assert forall|k: int| !occurs_at(hay@, needle@, k) by {
        if 0 <= k <= last {
        }
    }
    false
}

/// Whether two character vectors hold the same characters.
pub fn chars_eq(a: &Vec<char>, b: &Vec<char>) -> (r: bool)
    ensures
        r == (a@ == b@),
{
    if a.len() != b.len() {
        return false;
    }
    let mut i: usize = 0;
    while i < a.len()
        invariant
            a.len() == b.len(),
            i <= a.len(),
            forall|j: int| 0 <= j < i ==> a@[j] == b@[j],
        decreases a.len() - i,
    {
        if a[i] != b[i] {
            return false;
        }
        i = i + 1;
    }
    assert(a@ =~= b@);
    true
}

/// Whether two strings hold the same characters.
pub fn str_eq(a: &str, b: &str) -> (r: bool)
    ensures
        r == (a@ == b@),
{
    let va = chars_of(a);
    let vb = chars_of(b);
    chars_eq(&va, &vb)
}

/// The lowercase form of a text, as `str::to_lowercase` computes it.
pub uninterp spec fn lowercase(s: Seq<char>) -> Seq<char>;

/// `str::to_lowercase` (std): the Unicode lowercase mapping of `s`. The
/// contract names its result by [`lowercase`]; the mapping itself is not
/// restated here.
#[verifier::external_body]
pub(crate) fn to_lowercase(s: &str) -> (r: String)
    ensures
        r@ == lowercase(s@),
{
    s.to_lowercase()
}

/// Whether `r` is a contiguous part of `s`.
pub open spec fn is_slice_of(r: Seq<char>, s: Seq<char>) -> bool {
    exists|i: int, j: int| 0 <= i <= j <= s.len() && r == s.subrange(i, j)
}

/// Whether `c` has the Unicode `White_Space` property (what
/// `char::is_whitespace` tests).
pub open spec fn is_white_space(c: char) -> bool {
    let v = c as u32;
    ||| 0x9 <= v <= 0xD
    ||| v == 0x20
    ||| v == 0x85
    ||| v == 0xA0
    ||| v == 0x1680
    ||| 0x2000 <= v <= 0x200A
    ||| v == 0x2028
    ||| v == 0x2029
    ||| v == 0x202F
    ||| v == 0x205F
    ||| v == 0x3000
}

/// `s` without its leading whitespace.
pub open spec fn trim_start_spec(s: Seq<char>) -> Seq<char>
    decreases s.len(),
{
    if s.len() > 0 && is_white_space(s[0]) {
        trim_start_spec(s.drop_first())
    } else {
        s
    }
}

/// `s` without its trailing whitespace.
pub open spec fn trim_end_spec(s: Seq<char>) -> Seq<char>
    decreases s.len(),
{
    if s.len() > 0 && is_white_space(s.last()) {
        trim_end_spec(s.drop_last())
    } else {
        s
    }
}

/// The text with leading and trailing whitespace removed (what `str::trim`
/// returns).
pub open spec fn trimmed(s: Seq<char>) -> Seq<char> {
    trim_end_spec(trim_start_spec(s))
}

/// Whether `c` is whitespace.
fn white_space(c: char) -> (b: bool)
    ensures
        b == is_white_space(c),
{
    let v = c as u32;
    (0x9 <= v && v <= 0xD) || v == 0x20 || v == 0x85 || v == 0xA0 || v == 0x1680 || (0x2000 <= v
        && v <= 0x200A) || v == 0x2028 || v == 0x2029 || v == 0x202F || v == 0x205F || v == 0x3000
}

/// `s` without its leading and trailing Unicode whitespace: a slice of `s`.
pub fn trim(s: &str) -> (r: &str)
    ensures
        r@ == trimmed(s@),
        is_slice_of(r@, s@),
{
    let n = s.unicode_len();
    let mut i: usize = 0;
    assert(s@.subrange(0, n as int) =~= s@);
    while i < n && white_space(s.get_char(i))
        invariant
            n == s@.len(),
            i <= n,
            trim_start_spec(s@) == trim_start_spec(s@.subrange(i as int, n as int)),
        decreases n - i,
    {
        let ghost rest = s@.subrange(i as int, n as int);
        assert(rest[0] == s@[i as int]);
        assert(rest.drop_first() =~= s@.subrange(i + 1, n as int));
        i = i + 1;
    }
    proof {
        let rest = s@.subrange(i as int, n as int);
        if i < n {
            assert(rest[0] == s@[i as int]);
        }
        assert(trim_start_spec(rest) == rest);
        assert(s@.subrange(0, n as int) =~= s@);
    }
    let mut j: usize = n;
    while j > i && white_space(s.get_char(j - 1))
        invariant
            n == s@.len(),
            i <= j <= n,
            trim_end_spec(s@.subrange(i as int, n as int)) == trim_end_spec(
                s@.subrange(i as int, j as int),
            ),
        decreases j - i,
    {
        let ghost cur = s@.subrange(i as int, j as int);
        assert(cur.last() == s@[j - 1]);
        assert(cur.drop_last() =~= s@.subrange(i as int, j - 1));
        j = j - 1;
    }
    proof {
        let cur = s@.subrange(i as int, j as int);
        if j > i {
            assert(cur.last() == s@[j - 1]);
        }
        assert(trim_end_spec(cur) == cur);
    }
    s.substring_char(i, j)
}

/// The first `max` characters of `s` (all of `s` when it is shorter).
pub open spec fn take_chars(s: Seq<char>, max: nat) -> Seq<char> {
    if s.len() <= max {
        s
    } else {
        s.subrange(0, max as int)
    }
}

/// Clamp a text to its first `max` characters.
pub fn clamp_chars(s: &str, max: usize) -> (r: String)
    ensures
        r@ == take_chars(s@, max as nat),
{
    let n = s.unicode_len();
    let end = if n <= max {
        n
    } else {
        max
    };
    let sub = s.substring_char(0, end);
    let r = String::from_str(sub);
    assert(n <= max ==> s@.subrange(0, end as int) =~= s@);
    r
}

} // verus!
