//! The text lines of a byte buffer, as `BufRead::lines` yields them: the
//! buffer is cut after each `'\n'`, each piece is decoded as UTF-8 (a piece
//! that is not valid UTF-8 is left out, as a reader that skips errors does),
//! and a line that ended with `'\n'` loses it, and then a `'\r'` before it.

use vstd::prelude::*;
use vstd::string::StrSliceExecFns;
use vstd::string::StringExecFns;
use crate::downloadable::opt_view;
use crate::text::views;

verus! {

/// The text that `bytes` encode in UTF-8, `None` when they are not valid
/// UTF-8.
pub uninterp spec fn utf8_text(bytes: Seq<u8>) -> Option<Seq<char>>;

/// Each byte read as the character of that code.
pub open spec fn ascii_chars(bytes: Seq<u8>) -> Seq<char> {
    bytes.map_values(|b: u8| b as char)
}

/// `std::str::from_utf8`, the result copied into a `String`: the decoded
/// text, or `None` for bytes that are not valid UTF-8.  The text is named,
/// not stated; the contract adds only that bytes below 128 (ASCII, which
/// UTF-8 encodes as itself) decode to the characters of those codes.
#[verifier::external_body]
pub(crate) fn decode_utf8(bytes: &[u8]) -> (r: Option<String>)
    ensures
        opt_view(r) == utf8_text(bytes@),
        (forall|i: int| 0 <= i < bytes@.len() ==> bytes@[i] < 128) ==> opt_view(r) == Some(
            ascii_chars(bytes@),
        ),
{
    std::str::from_utf8(bytes).ok().map(|s| s.to_string())
}

/// Index of the first byte `x` in `s`, or -1.
pub open spec fn byte_index(s: Seq<u8>, x: u8) -> int
    decreases s.len(),
{
    if s.len() == 0 {
        -1
    } else if s[0] == x {
        0
    } else {
        let r = byte_index(s.drop_first(), x);
        if r < 0 {
            -1
        } else {
            r + 1
        }
    }
}

/// `byte_index` is the first occurrence, or -1 when there is none.
pub proof fn lemma_byte_index(s: Seq<u8>, x: u8)
    ensures
        byte_index(s, x) == -1 ==> forall|j: int| 0 <= j < s.len() ==> s[j] != x,
        byte_index(s, x) != -1 ==> 0 <= byte_index(s, x) < s.len() && s[byte_index(s, x)] == x
            && forall|j: int| 0 <= j < byte_index(s, x) ==> s[j] != x,
    decreases s.len(),
{
    if s.len() > 0 && s[0] != x {
        lemma_byte_index(s.drop_first(), x);
        assert forall|j: int| 0 < j < s.len() implies s[j] == s.drop_first()[j - 1] by {}
    }
}

/// The pieces of `b`, each up to and including a `'\n'`; the last piece,
/// when `b` does not end with `'\n'`, is what remains.
pub open spec fn raw_lines(b: Seq<u8>) -> Seq<Seq<u8>>
    decreases b.len(),
{
    if b.len() == 0 {
        seq![]
    } else {
        let k = byte_index(b, 10);
        if k < 0 {
            seq![b]
        } else {
            proof {
                lemma_byte_index(b, 10);
            }
            seq![b.take(k + 1)] + raw_lines(b.skip(k + 1))
        }
    }
}

/// A decoded piece as a line: without its final `'\n'` and, when it had
/// one, without a `'\r'` just before it.
pub open spec fn line_text(s: Seq<char>) -> Seq<char> {
    if s.len() > 0 && s.last() == '\n' {
        let t = s.drop_last();
        if t.len() > 0 && t.last() == '\r' {
            t.drop_last()
        } else {
            t
        }
    } else {
        s
    }
}

/// The lines of the pieces that are valid UTF-8, in order.
pub open spec fn decoded_lines(raw: Seq<Seq<u8>>) -> Seq<Seq<char>>
    decreases raw.len(),
{
    if raw.len() == 0 {
        seq![]
    } else {
        let rest = decoded_lines(raw.drop_first());
        match utf8_text(raw[0]) {
            Some(t) => seq![line_text(t)] + rest,
            None => rest,
        }
    }
}

/// The lines `BufRead::lines` yields from `b`, those that are not valid
/// UTF-8 left out.
pub open spec fn text_lines(b: Seq<u8>) -> Seq<Seq<char>> {
    decoded_lines(raw_lines(b))
}

/// The position of the first byte `x` at or after `from`.
fn find_byte(b: &[u8], from: usize, x: u8) -> (r: Option<usize>)
    requires
        from <= b@.len(),
    ensures
        match r {
            Some(k) => from <= k < b@.len() && b@[k as int] == x && forall|j: int|
                from <= j < k ==> b@[j] != x,
            None => forall|j: int| from <= j < b@.len() ==> b@[j] != x,
        },
{
    let n = b.len();
    let mut i = from;
    while i < n
        invariant
            n == b@.len(),
            from <= i <= n,
            forall|j: int| from <= j < i ==> b@[j] != x,
        decreases n - i,
    {
        if b[i] == x {
            return Some(i);
        }
        i = i + 1;
    }
    None
}

fn line_text_exec(t: String) -> (r: String)
    ensures
        r@ == line_text(t@),
{
    let n = t.as_str().unicode_len();
    if n > 0 && t.as_str().get_char(n - 1) == '\n' {
        let u = t.as_str().substring_char(0, n - 1);
        assert(u@ =~= t@.drop_last());
        let m = n - 1;
        if m > 0 && u.get_char(m - 1) == '\r' {
            let v = u.substring_char(0, m - 1);
            assert(v@ =~= u@.drop_last());
            String::from_str(v)
        } else {
            String::from_str(u)
        }
    } else {
        t
    }
}

/// The pieces of `b` from `start` on: the one that ends at `end`, then
/// those after it.
proof fn lemma_raw_step(b: Seq<u8>, start: int, end: int)
    requires
        0 <= start < end <= b.len(),
        forall|j: int| start <= j < end - 1 ==> b[j] != 10,
        b[end - 1] == 10 || end == b.len(),
    ensures
        raw_lines(b.skip(start)) == seq![b.subrange(start, end)] + raw_lines(b.skip(end)),
{
    let s = b.skip(start);
    lemma_byte_index(s, 10);
    let k = byte_index(s, 10);
    if b[end - 1] == 10 {
        assert(s[end - 1 - start] == 10);
        if k != -1 && k < end - 1 - start {
            assert(s[k] == b[start + k]);
        }
        assert(k == end - 1 - start);
        assert(s.take(k + 1) =~= b.subrange(start, end));
        assert(s.skip(k + 1) =~= b.skip(end));
    } else {
        if k != -1 {
            assert(s[k] == b[start + k]);
        }
        assert(k == -1);
        assert(s =~= b.subrange(start, end));
        assert(b.skip(end) =~= Seq::<u8>::empty());
        assert(raw_lines(b.skip(end)) =~= Seq::<Seq<u8>>::empty());
        assert(seq![b.subrange(start, end)] + raw_lines(b.skip(end)) =~= seq![s]);
    }
}

/// The lines of `b`, as `BufRead::lines` yields them, without those that
/// are not valid UTF-8.
pub fn text_lines_exec(b: &[u8]) -> (r: Vec<String>)
    ensures
        views(r@) == text_lines(b@),
{
    let n = b.len();
    let mut start: usize = 0;
    let mut r: Vec<String> = Vec::new();
    assert(b@.skip(0) =~= b@);
    assert(views(r@) =~= Seq::<Seq<char>>::empty());
    while start < n
        invariant
            n == b@.len(),
            start <= n,
            views(r@) + text_lines(b@.skip(start as int)) == text_lines(b@),
        decreases n - start,
    {
        let end: usize = match find_byte(b, start, 10) {
            Some(k) => k + 1,
            None => n,
        };
        proof {
            lemma_raw_step(b@, start as int, end as int);
        }
        let ghost p = b@.subrange(start as int, end as int);
        let ghost raw = raw_lines(b@.skip(start as int));
        assert(raw[0] == p);
        assert(raw.drop_first() =~= raw_lines(b@.skip(end as int)));
        let piece = vstd::slice::slice_subrange(b, start, end);
        let ghost before = views(r@);
        match decode_utf8(piece) {
            Some(t) => {
                let line = line_text_exec(t);
                r.push(line);
                assert(views(r@) =~= before.push(line@));
                assert(views(r@) + text_lines(b@.skip(end as int)) =~= before + text_lines(
                    b@.skip(start as int),
                ));
            },
            None => {},
        }
        start = end;
    }
    assert(b@.skip(n as int) =~= Seq::<u8>::empty());
    assert(views(r@) + text_lines(b@.skip(n as int)) =~= views(r@));
    r
}

} // verus!
