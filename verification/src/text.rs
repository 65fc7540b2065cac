//! Character-sequence helpers with exact specifications, following the
//! behaviour of the corresponding `str` operations of the standard library.
//! Strings are reasoned about through their views, `Seq<char>`.

use vstd::prelude::*;
use vstd::string::StrSliceExecFns;
use vstd::string::StringExecFns;

verus! {

// ─── White space and stripping ───────────────────────────────────────────────

/// Unicode `White_Space` code points: the set `char::is_whitespace` tests.
pub open spec fn is_ws(c: char) -> bool {
    let u = c as u32;
    ||| 0x9 <= u <= 0xd
    ||| u == 0x20
    ||| u == 0x85
    ||| u == 0xa0
    ||| u == 0x1680
    ||| 0x2000 <= u <= 0x200a
    ||| u == 0x2028
    ||| u == 0x2029
    ||| u == 0x202f
    ||| u == 0x205f
    ||| u == 0x3000
}

/// The characters removed by a strip: white space (`None`) or one given character.
pub open spec fn stripped(c: char, target: Option<char>) -> bool {
    match target {
        None => is_ws(c),
        Some(t) => c == t,
    }
}

/// `s` without its leading stripped characters.
pub open spec fn strip_start(s: Seq<char>, target: Option<char>) -> Seq<char>
    decreases s.len(),
{
    if s.len() > 0 && stripped(s[0], target) {
        strip_start(s.drop_first(), target)
    } else {
        s
    }
}

/// `s` without its trailing stripped characters.
pub open spec fn strip_end(s: Seq<char>, target: Option<char>) -> Seq<char>
    decreases s.len(),
{
    if s.len() > 0 && stripped(s.last(), target) {
        strip_end(s.drop_last(), target)
    } else {
        s
    }
}

/// `str::trim`: white space removed at both ends.
pub open spec fn trim(s: Seq<char>) -> Seq<char> {
    strip_end(strip_start(s, None), None)
}

/// `str::trim_matches(c)` for a single character `c`.
pub open spec fn trim_matches(s: Seq<char>, c: char) -> Seq<char> {
    strip_end(strip_start(s, Some(c)), Some(c))
}

pub fn is_whitespace(c: char) -> (r: bool)
    ensures
        r == is_ws(c),
{
    let u = c as u32;
    (0x9 <= u && u <= 0xd) || u == 0x20 || u == 0x85 || u == 0xa0 || u == 0x1680 || (0x2000 <= u
        && u <= 0x200a) || u == 0x2028 || u == 0x2029 || u == 0x202f || u == 0x205f || u == 0x3000
}

fn is_stripped(c: char, target: Option<char>) -> (r: bool)
    ensures
        r == stripped(c, target),
{
    match target {
        None => is_whitespace(c),
        Some(t) => c == t,
    }
}

proof fn lemma_strip_start_skip(s: Seq<char>, target: Option<char>, k: int)
    requires
        0 <= k <= s.len(),
        forall|i: int| 0 <= i < k ==> stripped(#[trigger] s[i], target),
        k == s.len() || !stripped(s[k], target),
    ensures
        strip_start(s, target) == s.skip(k),
    decreases k,
{
    if k == 0 {
        assert(s.skip(0) =~= s);
    } else {
        let t = s.drop_first();
        assert forall|i: int| 0 <= i < k - 1 implies stripped(#[trigger] t[i], target) by {
            assert(t[i] == s[i + 1]);
        }
        lemma_strip_start_skip(t, target, k - 1);
        assert(t.skip(k - 1) =~= s.skip(k));
    }
}

proof fn lemma_strip_end_take(s: Seq<char>, target: Option<char>, k: int)
    requires
        0 <= k <= s.len(),
        forall|i: int| k <= i < s.len() ==> stripped(#[trigger] s[i], target),
        k == 0 || !stripped(s[k - 1], target),
    ensures
        strip_end(s, target) == s.take(k),
    decreases s.len() - k,
{
    if k == s.len() {
        assert(s.take(k) =~= s);
    } else {
        let t = s.drop_last();
        assert forall|i: int| k <= i < t.len() implies stripped(#[trigger] t[i], target) by {
            assert(t[i] == s[i]);
        }
        lemma_strip_end_take(t, target, k);
        assert(t.take(k) =~= s.take(k));
    }
}

/// Removes the stripped characters at both ends of `s`.
pub fn strip_both(s: &str, target: Option<char>) -> (r: String)
    ensures
        r@ == strip_end(strip_start(s@, target), target),
{
    let n = s.unicode_len();
    let mut lo: usize = 0;
    while lo < n && is_stripped(s.get_char(lo), target)
        invariant
            n == s@.len(),
            lo <= n,
            forall|i: int| 0 <= i < lo ==> stripped(#[trigger] s@[i], target),
        decreases n - lo,
    {
        lo = lo + 1;
    }
    proof {
        lemma_strip_start_skip(s@, target, lo as int);
    }
    let ghost t = s@.skip(lo as int);
    let mut hi: usize = n;
    while hi > lo && is_stripped(s.get_char(hi - 1), target)
        invariant
            n == s@.len(),
            lo <= hi <= n,
            t == s@.skip(lo as int),
            forall|i: int| hi <= i < n ==> stripped(#[trigger] s@[i], target),
        decreases hi - lo,
    {
        hi = hi - 1;
    }
    proof {
        assert forall|i: int| hi - lo <= i < t.len() implies stripped(#[trigger] t[i], target) by {
            assert(t[i] == s@[i + lo]);
        }
        if hi > lo {
            assert(t[hi - lo - 1] == s@[hi - 1]);
        }
        lemma_strip_end_take(t, target, hi - lo);
        assert(t.take(hi - lo) =~= s@.subrange(lo as int, hi as int));
    }
    String::from_str(s.substring_char(lo, hi))
}

/// `str::trim`.
pub fn trim_str(s: &str) -> (r: String)
    ensures
        r@ == trim(s@),
{
    strip_both(s, None)
}

/// `str::trim_matches(c)`.
pub fn trim_matches_str(s: &str, c: char) -> (r: String)
    ensures
        r@ == trim_matches(s@, c),
{
    strip_both(s, Some(c))
}

// ─── Comparison and search ───────────────────────────────────────────────────

/// `p` occurs in `s` at position `i`.
pub open spec fn occurs_at(s: Seq<char>, p: Seq<char>, i: int) -> bool {
    0 <= i && i + p.len() <= s.len() && s.subrange(i, i + p.len()) == p
}

pub open spec fn starts_with(s: Seq<char>, p: Seq<char>) -> bool {
    occurs_at(s, p, 0)
}

pub open spec fn ends_with(s: Seq<char>, p: Seq<char>) -> bool {
    occurs_at(s, p, s.len() - p.len())
}

/// `str::contains` with a string pattern.
pub open spec fn contains(s: Seq<char>, p: Seq<char>) -> bool {
    exists|i: int| #[trigger] occurs_at(s, p, i)
}

/// `str::contains` with a character pattern.
pub open spec fn contains_char(s: Seq<char>, c: char) -> bool {
    exists|i: int| 0 <= i < s.len() && s[i] == c
}

pub fn str_eq(a: &str, b: &str) -> (r: bool)
    ensures
        r == (a@ == b@),
{
    let n = a.unicode_len();
    let m = b.unicode_len();
    if n != m {
        return false;
    }
    let mut i: usize = 0;
    while i < n
        invariant
            n == a@.len(),
            m == b@.len(),
            n == m,
            i <= n,
            forall|j: int| 0 <= j < i ==> a@[j] == b@[j],
        decreases n - i,
    {
        if a.get_char(i) != b.get_char(i) {
            return false;
        }
        i = i + 1;
    }
    assert(a@ =~= b@);
    true
}

pub fn occurs_at_exec(s: &str, p: &str, i: usize) -> (r: bool)
    ensures
        r == occurs_at(s@, p@, i as int),
{
    let n = s.unicode_len();
    let m = p.unicode_len();
    if i > n || m > n - i {
        return false;
    }
    let mut j: usize = 0;
    while j < m
        invariant
            n == s@.len(),
            m == p@.len(),
            i + m <= n,
            j <= m,
            forall|k: int| 0 <= k < j ==> s@[i + k] == p@[k],
        decreases m - j,
    {
        if s.get_char(i + j) != p.get_char(j) {
            assert(s@.subrange(i as int, i + m)[j as int] != p@[j as int]);
            return false;
        }
        j = j + 1;
    }
    assert(s@.subrange(i as int, i + m) =~= p@);
    true
}

pub fn starts_with_exec(s: &str, p: &str) -> (r: bool)
    ensures
        r == starts_with(s@, p@),
{
    occurs_at_exec(s, p, 0)
}

pub fn ends_with_exec(s: &str, p: &str) -> (r: bool)
    ensures
        r == ends_with(s@, p@),
{
    let n = s.unicode_len();
    let m = p.unicode_len();
    if m > n {
        return false;
    }
    occurs_at_exec(s, p, n - m)
}

pub fn contains_exec(s: &str, p: &str) -> (r: bool)
    ensures
        r == contains(s@, p@),
{
    let n = s.unicode_len();
    let m = p.unicode_len();
    if m > n {
        assert forall|i: int| !occurs_at(s@, p@, i) by {}
        return false;
    }
    let mut i: usize = 0;
    while i < n - m
        invariant
            n == s@.len(),
            m == p@.len(),
            m <= n,
            i <= n - m,
            forall|k: int| 0 <= k < i ==> !#[trigger] occurs_at(s@, p@, k),
        decreases n - m - i,
    {
        if occurs_at_exec(s, p, i) {
            return true;
        }
        i = i + 1;
    }
    if occurs_at_exec(s, p, i) {
        return true;
    }
    assert forall|k: int| !#[trigger] occurs_at(s@, p@, k) by {
        if k > i {
            assert(k + m > n);
        }
    }
    false
}

pub fn contains_char_exec(s: &str, c: char) -> (r: bool)
    ensures
        r == contains_char(s@, c),
{
    let n = s.unicode_len();
    let mut i: usize = 0;
    while i < n
        invariant
            n == s@.len(),
            i <= n,
            forall|k: int| 0 <= k < i ==> s@[k] != c,
        decreases n - i,
    {
        if s.get_char(i) == c {
            return true;
        }
        i = i + 1;
    }
    false
}

// ─── ASCII case ──────────────────────────────────────────────────────────────

pub open spec fn ascii_lower(c: char) -> char {
    if 'A' <= c <= 'Z' {
        ((c as u32) + 32) as char
    } else {
        c
    }
}

/// `str::eq_ignore_ascii_case`: equal once ASCII letters are folded to lower case.
pub open spec fn eq_ignore_ascii_case(a: Seq<char>, b: Seq<char>) -> bool {
    a.len() == b.len() && forall|i: int| 0 <= i < a.len() ==> ascii_lower(#[trigger] a[i])
        == ascii_lower(b[i])
}

pub fn ascii_lower_exec(c: char) -> (r: char)
    ensures
        r == ascii_lower(c),
{
    if 'A' <= c && c <= 'Z' {
        let u = (c as u32) + 32;
        let b = u as u8;
        assert(b as u32 == u);
        b as char
    } else {
        c
    }
}

pub fn eq_ignore_ascii_case_exec(a: &str, b: &str) -> (r: bool)
    ensures
        r == eq_ignore_ascii_case(a@, b@),
{
    let n = a.unicode_len();
    let m = b.unicode_len();
    if n != m {
        return false;
    }
    let mut i: usize = 0;
    while i < n
        invariant
            n == a@.len(),
            m == b@.len(),
            n == m,
            i <= n,
            forall|j: int| 0 <= j < i ==> ascii_lower(#[trigger] a@[j]) == ascii_lower(b@[j]),
        decreases n - i,
    {
        if ascii_lower_exec(a.get_char(i)) != ascii_lower_exec(b.get_char(i)) {
            return false;
        }
        i = i + 1;
    }
    true
}


// ─── Splitting at a character ────────────────────────────────────────────────

/// Position of the first `c` in `s`, or -1.
pub open spec fn index_of(s: Seq<char>, c: char) -> int
    decreases s.len(),
{
    if s.len() == 0 {
        -1
    } else if s[0] == c {
        0
    } else {
        let r = index_of(s.drop_first(), c);
        if r < 0 {
            -1
        } else {
            r + 1
        }
    }
}

/// Position of the last `c` in `s`, or -1.
pub open spec fn last_index_of(s: Seq<char>, c: char) -> int
    decreases s.len(),
{
    if s.len() == 0 {
        -1
    } else if s.last() == c {
        s.len() - 1
    } else {
        last_index_of(s.drop_last(), c)
    }
}

/// `str::split_once(c)`: the parts before and after the first `c`.
pub open spec fn split_once(s: Seq<char>, c: char) -> Option<(Seq<char>, Seq<char>)> {
    let i = index_of(s, c);
    if i < 0 {
        None
    } else {
        Some((s.take(i), s.skip(i + 1)))
    }
}

/// `s.split(c).next()`: everything before the first `c` (all of `s` if none).
pub open spec fn before_first(s: Seq<char>, c: char) -> Seq<char> {
    let i = index_of(s, c);
    if i < 0 {
        s
    } else {
        s.take(i)
    }
}

/// `s.split(c).next_back()`: everything after the last `c` (all of `s` if none).
pub open spec fn after_last(s: Seq<char>, c: char) -> Seq<char> {
    let i = last_index_of(s, c);
    if i < 0 {
        s
    } else {
        s.skip(i + 1)
    }
}

pub proof fn lemma_index_of(s: Seq<char>, c: char)
    ensures
        -1 <= index_of(s, c) < s.len(),
        index_of(s, c) >= 0 ==> s[index_of(s, c)] == c,
        forall|j: int| 0 <= j < s.len() && (index_of(s, c) < 0 || j < index_of(s, c)) ==> s[j]
            != c,
    decreases s.len(),
{
    if s.len() > 0 && s[0] != c {
        lemma_index_of(s.drop_first(), c);
        assert forall|j: int|
            0 <= j < s.len() && (index_of(s, c) < 0 || j < index_of(s, c)) implies s[j] != c by {
            if j > 0 {
                assert(s[j] == s.drop_first()[j - 1]);
            }
        }
    }
}

pub proof fn lemma_last_index_of(s: Seq<char>, c: char)
    ensures
        -1 <= last_index_of(s, c) < s.len(),
        last_index_of(s, c) >= 0 ==> s[last_index_of(s, c)] == c,
        forall|j: int| last_index_of(s, c) < j < s.len() ==> s[j] != c,
    decreases s.len(),
{
    if s.len() > 0 && s.last() != c {
        lemma_last_index_of(s.drop_last(), c);
        assert forall|j: int| last_index_of(s, c) < j < s.len() implies s[j] != c by {
            if j < s.len() - 1 {
                assert(s[j] == s.drop_last()[j]);
            }
        }
    }
}

proof fn lemma_index_of_is(s: Seq<char>, c: char, i: int)
    requires
        0 <= i <= s.len(),
        forall|j: int| 0 <= j < i ==> s[j] != c,
        i == s.len() || s[i] == c,
    ensures
        index_of(s, c) == (if i == s.len() { -1 } else { i }),
{
    lemma_index_of(s, c);
}

proof fn lemma_last_index_of_is(s: Seq<char>, c: char, i: int)
    requires
        -1 <= i < s.len(),
        forall|j: int| i < j < s.len() ==> s[j] != c,
        i == -1 || s[i] == c,
    ensures
        last_index_of(s, c) == i,
{
    lemma_last_index_of(s, c);
}

/// Position of the first `c`, if any.
pub fn find_char(s: &str, c: char) -> (r: Option<usize>)
    ensures
        match r {
            Some(i) => index_of(s@, c) == i as int,
            None => index_of(s@, c) == -1,
        },
{
    let n = s.unicode_len();
    let mut i: usize = 0;
    while i < n
        invariant
            n == s@.len(),
            i <= n,
            forall|j: int| 0 <= j < i ==> s@[j] != c,
        decreases n - i,
    {
        if s.get_char(i) == c {
            proof {
                lemma_index_of_is(s@, c, i as int);
            }
            return Some(i);
        }
        i = i + 1;
    }
    proof {
        lemma_index_of_is(s@, c, n as int);
    }
    None
}

/// Position of the last `c`, if any.
pub fn rfind_char(s: &str, c: char) -> (r: Option<usize>)
    ensures
        match r {
            Some(i) => last_index_of(s@, c) == i as int,
            None => last_index_of(s@, c) == -1,
        },
{
    let n = s.unicode_len();
    let mut i: usize = n;
    while i > 0
        invariant
            n == s@.len(),
            i <= n,
            forall|j: int| i <= j < n ==> s@[j] != c,
        decreases i,
    {
        if s.get_char(i - 1) == c {
            proof {
                lemma_last_index_of_is(s@, c, i - 1);
            }
            return Some(i - 1);
        }
        i = i - 1;
    }
    proof {
        lemma_last_index_of_is(s@, c, -1);
    }
    None
}

/// `str::split_once(c)`.
pub fn split_once_exec(s: &str, c: char) -> (r: Option<(String, String)>)
    ensures
        match r {
            Some((a, b)) => split_once(s@, c) == Some((a@, b@)),
            None => split_once(s@, c) is None,
        },
{
    match find_char(s, c) {
        Some(i) => {
            proof {
                lemma_index_of(s@, c);
            }
            let n = s.unicode_len();
            let a = String::from_str(s.substring_char(0, i));
            let b = String::from_str(s.substring_char(i + 1, n));
            assert(a@ =~= s@.take(i as int));
            assert(b@ =~= s@.skip(i + 1));
            Some((a, b))
        },
        None => None,
    }
}

/// `s.split(c).next()`.
pub fn before_first_exec(s: &str, c: char) -> (r: String)
    ensures
        r@ == before_first(s@, c),
{
    match find_char(s, c) {
        Some(i) => {
            proof {
                lemma_index_of(s@, c);
            }
            let a = String::from_str(s.substring_char(0, i));
            assert(a@ =~= s@.take(i as int));
            a
        },
        None => String::from_str(s),
    }
}

/// `s.split(c).next_back()`.
pub fn after_last_exec(s: &str, c: char) -> (r: String)
    ensures
        r@ == after_last(s@, c),
{
    match rfind_char(s, c) {
        Some(i) => {
            proof {
                lemma_last_index_of(s@, c);
            }
            let n = s.unicode_len();
            let a = String::from_str(s.substring_char(i + 1, n));
            assert(a@ =~= s@.skip(i + 1));
            a
        },
        None => String::from_str(s),
    }
}

// ─── Replacing ───────────────────────────────────────────────────────────────

/// `str::replace(from, to)` for a non-empty pattern: left-to-right,
/// non-overlapping occurrences of `from` are replaced by `to`.
pub open spec fn replace_all(s: Seq<char>, from: Seq<char>, to: Seq<char>) -> Seq<char>
    decreases s.len(),
{
    if from.len() == 0 || s.len() < from.len() {
        s
    } else if s.take(from.len() as int) == from {
        to + replace_all(s.skip(from.len() as int), from, to)
    } else {
        seq![s[0]] + replace_all(s.drop_first(), from, to)
    }
}

/// `str::replace(from, to)`.
pub fn replace_exec(s: &str, from: &str, to: &str) -> (r: String)
    requires
        from@.len() > 0,
    ensures
        r@ == replace_all(s@, from@, to@),
{
    let n = s.unicode_len();
    let m = from.unicode_len();
    let mut out = String::new();
    let mut i: usize = 0;
    assert(s@.skip(0) =~= s@);
    assert(out@ + replace_all(s@, from@, to@) =~= replace_all(s@, from@, to@));
    while i < n && m <= n - i
        invariant
            n == s@.len(),
            m == from@.len(),
            m > 0,
            i <= n,
            replace_all(s@, from@, to@) == out@ + replace_all(s@.skip(i as int), from@, to@),
        decreases n - i,
    {
        let ghost rest = s@.skip(i as int);
        if occurs_at_exec(s, from, i) {
            assert(rest.take(m as int) =~= s@.subrange(i as int, i + m));
            assert(rest.skip(m as int) =~= s@.skip(i + m));
            out.append(to);
            i = i + m;
        } else {
            assert(rest.take(m as int) =~= s@.subrange(i as int, i + m));
            assert(rest.drop_first() =~= s@.skip(i + 1));
            let ghost old_out = out@;
            out.append(s.substring_char(i, i + 1));
            assert(out@ =~= old_out + seq![rest[0]]);
            i = i + 1;
        }
    }
    let tail = s.substring_char(i, n);
    assert(tail@ =~= s@.skip(i as int));
    out.append(tail);
    out
}

// ─── Decimal numbers ─────────────────────────────────────────────────────────

pub open spec fn is_digit(c: char) -> bool {
    '0' <= c <= '9'
}

pub open spec fn digit_value(c: char) -> nat {
    ((c as u32) - 48) as nat
}

/// The number written by a sequence of decimal digits.
pub open spec fn digits_value(s: Seq<char>) -> nat
    decreases s.len(),
{
    if s.len() == 0 {
        0
    } else {
        digits_value(s.drop_last()) * 10 + digit_value(s.last())
    }
}

/// The digits of an unsigned literal: one optional leading `+` is skipped.
pub open spec fn unsigned_body(s: Seq<char>) -> Seq<char> {
    if s.len() > 0 && s[0] == '+' {
        s.drop_first()
    } else {
        s
    }
}

pub open spec fn all_digits(s: Seq<char>) -> bool {
    forall|i: int| 0 <= i < s.len() ==> is_digit(#[trigger] s[i])
}

/// What `str::parse` gives for an unsigned integer type whose largest value
/// is `max`: an optional `+` and at least one decimal digit, nothing else,
/// and a value that fits.
pub open spec fn parse_unsigned(s: Seq<char>, max: nat) -> Option<nat> {
    let d = unsigned_body(s);
    if d.len() > 0 && all_digits(d) && digits_value(d) <= max {
        Some(digits_value(d))
    } else {
        None
    }
}

pub open spec fn parse_u32(s: Seq<char>) -> Option<nat> {
    parse_unsigned(s, u32::MAX as nat)
}

pub open spec fn parse_u64(s: Seq<char>) -> Option<nat> {
    parse_unsigned(s, u64::MAX as nat)
}

proof fn lemma_digits_monotone(s: Seq<char>, k: int)
    requires
        0 <= k <= s.len(),
    ensures
        digits_value(s.take(k)) <= digits_value(s),
    decreases s.len() - k,
{
    if k < s.len() {
        lemma_digits_monotone(s, k + 1);
        assert(s.take(k + 1).drop_last() =~= s.take(k));
    } else {
        assert(s.take(k) =~= s);
    }
}

pub fn parse_unsigned_exec(s: &str, max: u64) -> (r: Option<u64>)
    ensures
        match r {
            Some(v) => parse_unsigned(s@, max as nat) == Some(v as nat),
            None => parse_unsigned(s@, max as nat) is None,
        },
{
    let n = s.unicode_len();
    let start: usize = if n > 0 && s.get_char(0) == '+' {
        1
    } else {
        0
    };
    let ghost d = unsigned_body(s@);
    assert(d =~= s@.skip(start as int));
    if start == n {
        return None;
    }
    let mut v: u64 = 0;
    let mut i: usize = start;
    while i < n
        invariant
            n == s@.len(),
            start <= i <= n,
            d == s@.skip(start as int),
            d == unsigned_body(s@),
            d.len() > 0,
            forall|j: int| 0 <= j < i - start ==> is_digit(#[trigger] d[j]),
            v as nat == digits_value(d.take(i - start)),
            v <= max,
        decreases n - i,
    {
        let c = s.get_char(i);
        assert(d[i - start] == c);
        if !('0' <= c && c <= '9') {
            assert(!is_digit(d[i - start]));
            return None;
        }
        let dv = (c as u32 - 48) as u64;
        assert(d.take(i - start + 1).drop_last() =~= d.take(i - start));
        let ghost k = i - start;
        assert(d.take(k + 1).last() == c);
        assert(digits_value(d.take(k + 1)) == v * 10 + dv);
        if dv > max || v > (max - dv) / 10 {
            proof {
                if dv <= max {
                    assert(v * 10 + dv > max) by (nonlinear_arith)
                        requires
                            v > (max - dv) / 10,
                            dv <= max,
                    ;
                }
                lemma_digits_monotone(d, i - start + 1);
                assert(digits_value(d) > max);
            }
            return None;
        }
        assert(v * 10 + dv <= max) by (nonlinear_arith)
            requires
                v <= (max - dv) / 10,
                dv <= max,
        ;
        v = v * 10 + dv;
        i = i + 1;
    }
    assert(d.take(n - start) =~= d);
    Some(v)
}

/// `str::parse::<u32>`.
pub fn parse_u32_exec(s: &str) -> (r: Option<u32>)
    ensures
        match r {
            Some(v) => parse_u32(s@) == Some(v as nat),
            None => parse_u32(s@) is None,
        },
{
    match parse_unsigned_exec(s, u32::MAX as u64) {
        Some(v) => Some(v as u32),
        None => None,
    }
}

/// `str::parse::<u64>`.
pub fn parse_u64_exec(s: &str) -> (r: Option<u64>)
    ensures
        match r {
            Some(v) => parse_u64(s@) == Some(v as nat),
            None => parse_u64(s@) is None,
        },
{
    parse_unsigned_exec(s, u64::MAX)
}

pub open spec fn digit_char(d: nat) -> char {
    if d == 0 {
        '0'
    } else if d == 1 {
        '1'
    } else if d == 2 {
        '2'
    } else if d == 3 {
        '3'
    } else if d == 4 {
        '4'
    } else if d == 5 {
        '5'
    } else if d == 6 {
        '6'
    } else if d == 7 {
        '7'
    } else if d == 8 {
        '8'
    } else {
        '9'
    }
}

/// The decimal notation of `n` (what `to_string` gives for an unsigned integer).
pub open spec fn decimal(n: nat) -> Seq<char>
    decreases n,
{
    if n < 10 {
        seq![digit_char(n)]
    } else {
        decimal(n / 10).push(digit_char(n % 10))
    }
}

fn digit_str(d: u64) -> (r: &'static str)
    requires
        d < 10,
    ensures
        r@ == seq![digit_char(d as nat)],
{
    let digits = "0123456789";
    proof {
        reveal_strlit("0123456789");
    }
    let r = digits.substring_char(d as usize, d as usize + 1);
    assert(r@ =~= seq![digit_char(d as nat)]);
    r
}

/// Appends the decimal notation of `n`.
pub fn append_decimal(out: &mut String, n: u64)
    ensures
        final(out)@ == old(out)@ + decimal(n as nat),
    decreases n,
{
    if n >= 10 {
        append_decimal(out, n / 10);
    }
    out.append(digit_str(n % 10));
    assert(final(out)@ =~= old(out)@ + decimal(n as nat)) by {
        if n >= 10 {
            assert(decimal(n as nat) == decimal((n / 10) as nat).push(digit_char((n % 10) as nat)));
        }
    }
}

/// `to_string` of an unsigned integer.
pub fn decimal_string(n: u64) -> (r: String)
    ensures
        r@ == decimal(n as nat),
{
    let mut out = String::new();
    append_decimal(&mut out, n);
    assert(out@ =~= decimal(n as nat));
    out
}


proof fn lemma_digit_char(d: nat)
    requires
        d < 10,
    ensures
        is_digit(digit_char(d)),
        digit_value(digit_char(d)) == d,
{
}

/// The decimal notation of `n` is digits only, and reads back as `n`.
pub proof fn lemma_decimal_reads_back(n: nat)
    ensures
        decimal(n).len() > 0,
        all_digits(decimal(n)),
        digits_value(decimal(n)) == n,
    decreases n,
{
    lemma_digit_char(n % 10);
    if n < 10 {
        assert(n % 10 == n);
        assert(decimal(n).drop_last() =~= Seq::<char>::empty());
        assert(digits_value(Seq::<char>::empty()) == 0);
    }
    if n >= 10 {
        lemma_decimal_reads_back(n / 10);
        let s = decimal(n / 10);
        let t = s.push(digit_char(n % 10));
        assert(t.drop_last() =~= s);
        assert(forall|i: int| 0 <= i < s.len() ==> t[i] == s[i]);
        assert(decimal(n) == t);
        assert(t.last() == digit_char(n % 10));
        assert(digits_value(t) == digits_value(s) * 10 + digit_value(digit_char(n % 10)));
        assert(n == (n / 10) * 10 + n % 10) by (nonlinear_arith);
    }
}

/// What is written as a decimal number is read back by `str::parse`, with
/// or without trimming.
pub proof fn decimal_parse_round_trip(n: nat, max: nat)
    requires
        n <= max,
    ensures
        trim(decimal(n)) == decimal(n),
        parse_unsigned(decimal(n), max) == Some(n),
{
    lemma_decimal_reads_back(n);
    let d = decimal(n);
    assert(is_digit(d[0]));
    assert(is_digit(d.last()));
    assert(strip_start(d, None) == d);
    assert(strip_end(d, None) == d);
    assert(unsigned_body(d) == d);
}

// ─── Searching lists of strings ──────────────────────────────────────────────

pub open spec fn views(v: Seq<String>) -> Seq<Seq<char>> {
    v.map_values(|s: String| s@)
}

/// Index of the first name equal to `t`, or -1.
pub open spec fn first_equal(names: Seq<Seq<char>>, t: Seq<char>) -> int
    decreases names.len(),
{
    if names.len() == 0 {
        -1
    } else if names[0] == t {
        0
    } else {
        let r = first_equal(names.drop_first(), t);
        if r < 0 {
            -1
        } else {
            r + 1
        }
    }
}

/// Index of the first name that contains `t`, or -1.
pub open spec fn first_containing(names: Seq<Seq<char>>, t: Seq<char>) -> int
    decreases names.len(),
{
    if names.len() == 0 {
        -1
    } else if contains(names[0], t) {
        0
    } else {
        let r = first_containing(names.drop_first(), t);
        if r < 0 {
            -1
        } else {
            r + 1
        }
    }
}

/// The usual name lookup of the registries: the first exact match, or else
/// the first name that contains `t`; -1 when neither exists.
pub open spec fn exact_or_containing(names: Seq<Seq<char>>, t: Seq<char>) -> int {
    if first_equal(names, t) >= 0 {
        first_equal(names, t)
    } else {
        first_containing(names, t)
    }
}

/// An index found in a suffix starting at `i`, as an index of the whole.
pub open spec fn shift(r: int, i: int) -> int {
    if r >= 0 {
        r + i
    } else {
        -1
    }
}

pub open spec fn index_result(i: int, r: Option<usize>) -> bool {
    match r {
        Some(k) => i == k as int,
        None => i == -1,
    }
}

proof fn lemma_first_equal_step(names: Seq<Seq<char>>, t: Seq<char>, i: int)
    requires
        0 <= i < names.len(),
        first_equal(names, t) == shift(first_equal(names.skip(i), t), i),
    ensures
        names[i] == t ==> first_equal(names, t) == i,
        names[i] != t ==> first_equal(names, t) == shift(first_equal(names.skip(i + 1), t), i + 1),
{
    assert(names.skip(i)[0] == names[i]);
    assert(names.skip(i).drop_first() =~= names.skip(i + 1));
}

pub fn find_equal(names: &Vec<String>, t: &str) -> (r: Option<usize>)
    ensures
        index_result(first_equal(views(names@), t@), r),
        r matches Some(k) ==> k < names@.len(),
{
    let ghost v = views(names@);
    let n = names.len();
    let mut i: usize = 0;
    assert(v.skip(0) =~= v);
    while i < n
        invariant
            n == names@.len(),
            v == views(names@),
            i <= n,
            first_equal(v, t@) == shift(first_equal(v.skip(i as int), t@), i as int),
        decreases n - i,
    {
        proof {
            lemma_first_equal_step(v, t@, i as int);
        }
        assert(v[i as int] == names@[i as int]@);
        if str_eq(names[i].as_str(), t) {
            return Some(i);
        }
        i = i + 1;
    }
    assert(v.skip(n as int) =~= Seq::<Seq<char>>::empty());
    None
}

proof fn lemma_first_containing_step(names: Seq<Seq<char>>, t: Seq<char>, i: int)
    requires
        0 <= i < names.len(),
        first_containing(names, t) == shift(first_containing(names.skip(i), t), i),
    ensures
        contains(names[i], t) ==> first_containing(names, t) == i,
        !contains(names[i], t) ==> first_containing(names, t) == shift(
            first_containing(names.skip(i + 1), t),
            i + 1,
        ),
{
    assert(names.skip(i)[0] == names[i]);
    assert(names.skip(i).drop_first() =~= names.skip(i + 1));
}

pub fn find_containing(names: &Vec<String>, t: &str) -> (r: Option<usize>)
    ensures
        index_result(first_containing(views(names@), t@), r),
        r matches Some(k) ==> k < names@.len(),
{
    let ghost v = views(names@);
    let n = names.len();
    let mut i: usize = 0;
    assert(v.skip(0) =~= v);
    while i < n
        invariant
            n == names@.len(),
            v == views(names@),
            i <= n,
            first_containing(v, t@) == shift(first_containing(v.skip(i as int), t@), i as int),
        decreases n - i,
    {
        proof {
            lemma_first_containing_step(v, t@, i as int);
        }
        assert(v[i as int] == names@[i as int]@);
        if contains_exec(names[i].as_str(), t) {
            return Some(i);
        }
        i = i + 1;
    }
    assert(v.skip(n as int) =~= Seq::<Seq<char>>::empty());
    None
}

pub fn find_exact_or_containing(names: &Vec<String>, t: &str) -> (r: Option<usize>)
    ensures
        index_result(exact_or_containing(views(names@), t@), r),
        r matches Some(k) ==> k < names@.len(),
{
    match find_equal(names, t) {
        Some(i) => Some(i),
        None => find_containing(names, t),
    }
}

proof fn lemma_first_equal_bounds(names: Seq<Seq<char>>, t: Seq<char>)
    ensures
        -1 <= first_equal(names, t) < names.len(),
        first_equal(names, t) >= 0 ==> names[first_equal(names, t)] == t,
    decreases names.len(),
{
    if names.len() > 0 && names[0] != t {
        lemma_first_equal_bounds(names.drop_first(), t);
    }
}

proof fn lemma_first_containing_bounds(names: Seq<Seq<char>>, t: Seq<char>)
    ensures
        -1 <= first_containing(names, t) < names.len(),
        first_containing(names, t) >= 0 ==> contains(names[first_containing(names, t)], t),
    decreases names.len(),
{
    if names.len() > 0 && !contains(names[0], t) {
        lemma_first_containing_bounds(names.drop_first(), t);
    }
}

/// A name found by the usual lookup either equals `t` or contains it.
pub proof fn lemma_exact_or_containing(names: Seq<Seq<char>>, t: Seq<char>)
    ensures
        -1 <= exact_or_containing(names, t) < names.len(),
        exact_or_containing(names, t) >= 0 ==> contains(names[exact_or_containing(names, t)], t),
        first_equal(names, t) >= 0 ==> names[exact_or_containing(names, t)] == t,
{
    lemma_first_equal_bounds(names, t);
    lemma_first_containing_bounds(names, t);
    let i = exact_or_containing(names, t);
    if first_equal(names, t) >= 0 {
        assert(names[i].subrange(0, t.len() as int) =~= t);
        assert(occurs_at(names[i], t, 0));
    }
}


/// `first_equal` is the first index holding `t`, and -1 when none does.
pub proof fn lemma_first_equal_is_first(names: Seq<Seq<char>>, t: Seq<char>)
    ensures
        -1 <= first_equal(names, t) < names.len(),
        first_equal(names, t) >= 0 ==> names[first_equal(names, t)] == t,
        forall|k: int| 0 <= k < names.len() && k < first_equal(names, t) ==> names[k] != t,
        first_equal(names, t) == -1 ==> forall|k: int| 0 <= k < names.len() ==> names[k] != t,
    decreases names.len(),
{
    if names.len() > 0 && names[0] != t {
        lemma_first_equal_is_first(names.drop_first(), t);
        assert forall|k: int| 0 < k < names.len() implies names[k] == names.drop_first()[k - 1] by {}
    }
}

// ─── Templates ───────────────────────────────────────────────────────────────

/// The pieces joined with `hole` between each two of them: a template whose
/// placeholders are `hole`, or that template filled in.
pub open spec fn fill(pieces: Seq<Seq<char>>, hole: Seq<char>) -> Seq<char>
    decreases pieces.len(),
{
    if pieces.len() == 0 {
        seq![]
    } else if pieces.len() == 1 {
        pieces[0]
    } else {
        pieces[0] + hole + fill(pieces.drop_first(), hole)
    }
}

/// No `'$'` in `s`.
pub open spec fn no_dollar(s: Seq<char>) -> bool {
    forall|i: int| 0 <= i < s.len() ==> s[i] != '$'
}

/// No piece holds a `'$'`.
pub open spec fn plain_pieces(pieces: Seq<Seq<char>>) -> bool {
    forall|i: int| 0 <= i < pieces.len() ==> no_dollar(#[trigger] pieces[i])
}

/// Text without `'$'` in front of the rest is kept as it is by a
/// replacement of a pattern that starts with `'$'`.
proof fn lemma_replace_after_plain(a: Seq<char>, t: Seq<char>, from: Seq<char>, to: Seq<char>)
    requires
        no_dollar(a),
        from.len() > 0,
        from[0] == '$',
    ensures
        replace_all(a + t, from, to) == a + replace_all(t, from, to),
    decreases a.len(),
{
    if a.len() == 0 {
        assert(a + t =~= t);
    } else {
        let s = a + t;
        if s.len() < from.len() {
            assert(replace_all(t, from, to) == t);
        } else {
            assert(s.take(from.len() as int)[0] == a[0]);
            assert(s.take(from.len() as int) != from);
            assert(s.drop_first() =~= a.drop_first() + t);
            lemma_replace_after_plain(a.drop_first(), t, from, to);
            assert(seq![s[0]] + (a.drop_first() + replace_all(t, from, to)) =~= a + replace_all(
                t,
                from,
                to,
            ));
        }
    }
}

/// Text without `'$'` is kept as it is by a replacement of a pattern that
/// starts with `'$'`.
pub proof fn lemma_replace_plain(a: Seq<char>, from: Seq<char>, to: Seq<char>)
    requires
        no_dollar(a),
        from.len() > 0,
        from[0] == '$',
    ensures
        replace_all(a, from, to) == a,
{
    lemma_replace_after_plain(a, seq![], from, to);
    assert(a + Seq::<char>::empty() =~= a);
}

/// Filling plain pieces with plain text gives plain text.
pub proof fn lemma_fill_plain(pieces: Seq<Seq<char>>, hole: Seq<char>)
    requires
        plain_pieces(pieces),
        no_dollar(hole),
    ensures
        no_dollar(fill(pieces, hole)),
    decreases pieces.len(),
{
    if pieces.len() >= 2 {
        assert(plain_pieces(pieces.drop_first())) by {
            assert forall|i: int| 0 <= i < pieces.drop_first().len() implies no_dollar(
                #[trigger] pieces.drop_first()[i],
            ) by {
                assert(pieces.drop_first()[i] == pieces[i + 1]);
            }
        }
        lemma_fill_plain(pieces.drop_first(), hole);
        let r = fill(pieces.drop_first(), hole);
        let f = pieces[0] + hole + r;
        assert(no_dollar(pieces[0]));
        assert forall|i: int| 0 <= i < f.len() implies f[i] != '$' by {
            if i < pieces[0].len() {
                assert(f[i] == pieces[0][i]);
            } else if i < pieces[0].len() + hole.len() {
                assert(f[i] == hole[i - pieces[0].len()]);
            } else {
                assert(f[i] == r[i - pieces[0].len() - hole.len()]);
            }
        }
    } else if pieces.len() == 1 {
        assert(no_dollar(pieces[0]));
    }
}

/// Replacing the placeholder of a template of plain pieces fills every
/// placeholder.
pub proof fn lemma_replace_fill(pieces: Seq<Seq<char>>, hole: Seq<char>, to: Seq<char>)
    requires
        plain_pieces(pieces),
        hole.len() > 0,
        hole[0] == '$',
    ensures
        replace_all(fill(pieces, hole), hole, to) == fill(pieces, to),
    decreases pieces.len(),
{
    if pieces.len() == 1 {
        assert(no_dollar(pieces[0]));
        lemma_replace_plain(pieces[0], hole, to);
    } else if pieces.len() >= 2 {
        assert(no_dollar(pieces[0]));
        let rest = fill(pieces.drop_first(), hole);
        assert(fill(pieces, hole) =~= pieces[0] + (hole + rest));
        lemma_replace_after_plain(pieces[0], hole + rest, hole, to);
        assert((hole + rest).take(hole.len() as int) =~= hole);
        assert((hole + rest).skip(hole.len() as int) =~= rest);
        assert(plain_pieces(pieces.drop_first())) by {
            assert forall|i: int| 0 <= i < pieces.drop_first().len() implies no_dollar(
                #[trigger] pieces.drop_first()[i],
            ) by {
                assert(pieces.drop_first()[i] == pieces[i + 1]);
            }
        }
        lemma_replace_fill(pieces.drop_first(), hole, to);
        assert(fill(pieces, to) =~= pieces[0] + (to + fill(pieces.drop_first(), to)));
    }
}

/// Replacing another placeholder, one that differs from `hole` at index
/// `d`, keeps a template of plain pieces as it is.
pub proof fn lemma_replace_fill_other(
    pieces: Seq<Seq<char>>,
    hole: Seq<char>,
    from: Seq<char>,
    to: Seq<char>,
    d: int,
)
    requires
        plain_pieces(pieces),
        hole.len() > 0,
        hole[0] == '$',
        no_dollar(hole.drop_first()),
        from.len() > 0,
        from[0] == '$',
        0 < d < hole.len(),
        d < from.len(),
        hole[d] != from[d],
    ensures
        replace_all(fill(pieces, hole), from, to) == fill(pieces, hole),
    decreases pieces.len(),
{
    if pieces.len() == 1 {
        assert(no_dollar(pieces[0]));
        lemma_replace_plain(pieces[0], from, to);
    } else if pieces.len() >= 2 {
        assert(no_dollar(pieces[0]));
        let rest = fill(pieces.drop_first(), hole);
        let hr = hole + rest;
        assert(fill(pieces, hole) =~= pieces[0] + hr);
        lemma_replace_after_plain(pieces[0], hr, from, to);
        assert(plain_pieces(pieces.drop_first())) by {
            assert forall|i: int| 0 <= i < pieces.drop_first().len() implies no_dollar(
                #[trigger] pieces.drop_first()[i],
            ) by {
                assert(pieces.drop_first()[i] == pieces[i + 1]);
            }
        }
        lemma_replace_fill_other(pieces.drop_first(), hole, from, to, d);
        if hr.len() >= from.len() {
            assert(hr.take(from.len() as int)[d] == hole[d]);
            assert(hr.take(from.len() as int) != from);
            assert(hr.drop_first() =~= hole.drop_first() + rest);
            lemma_replace_after_plain(hole.drop_first(), rest, from, to);
            assert(seq![hr[0]] + (hole.drop_first() + rest) =~= hr);
        }
    }
}

// ─── Paths ───────────────────────────────────────────────────────────────────

/// `PathBuf::join` with a relative component, on '/'-separated paths: a
/// separator is put in between unless the base is empty or already ends
/// with one.
pub open spec fn join_path(base: Seq<char>, comp: Seq<char>) -> Seq<char> {
    if base.len() == 0 {
        comp
    } else if base.last() == '/' {
        base + comp
    } else {
        base + seq!['/'] + comp
    }
}

pub fn join_path_exec(base: &str, comp: &str) -> (r: String)
    ensures
        r@ == join_path(base@, comp@),
{
    let n = base.unicode_len();
    let mut r = String::from_str(base);
    if n > 0 && base.get_char(n - 1) != '/' {
        proof {
            reveal_strlit("/");
        }
        r.append("/");
        assert("/"@ =~= seq!['/']);
    }
    r.append(comp);
    r
}

} // verus!
