//! `minipot init`: keeping the generated server directory out of git.

use vstd::prelude::*;
use vstd::string::StringExecFns;
use vstd::string::StrSliceExecFns;
use crate::text::{is_ws, strip_end, strip_start, trim, trim_str};

verus! {

pub const GITIGNORE: &'static str = ".gitignore";

pub const GITIGNORE_ENTRY: &'static str = "minipot-server/";

pub const GITIGNORE_COMMENT: &'static str =
    "# minipot — generated server environment (not committed)";

/// `s[i..j]` is a line of `s`: it starts at the beginning or after a
/// newline, ends at the end or before a newline, and holds no newline.
pub open spec fn is_line(s: Seq<char>, i: int, j: int) -> bool {
    &&& 0 <= i <= j <= s.len()
    &&& (i == 0 || s[i - 1] == '\n')
    &&& (j == s.len() || s[j] == '\n')
    &&& forall|k: int| i <= k < j ==> s[k] != '\n'
}

/// Some line of `s`, trimmed, is `entry` (what `s.lines().any(|l| l.trim()
/// == entry)` tests: `lines` also drops a final empty line and a '\r'
/// before each newline, neither of which changes a trimmed comparison with
/// a non-empty entry that has no white space at its ends).
pub open spec fn has_entry_line(s: Seq<char>, entry: Seq<char>) -> bool {
    exists|i: int, j: int| #[trigger] is_line(s, i, j) && trim(s.subrange(i, j)) == entry
}

/// The text appended to a .gitignore that lacks the entry: a blank line
/// (preceded by a newline when the file does not end with one), the
/// comment, and the entry on a line of its own.
pub open spec fn gitignore_addition(current: Seq<char>) -> Seq<char> {
    let sep = if current.len() == 0 || current.last() == '\n' {
        seq![]
    } else {
        seq!['\n']
    };
    sep + seq!['\n'] + GITIGNORE_COMMENT@ + seq!['\n'] + GITIGNORE_ENTRY@ + seq!['\n']
}

/// The .gitignore to write, or `None` when it already excludes the server
/// directory.
pub open spec fn gitignore_update_spec(current: Seq<char>) -> Option<Seq<char>> {
    if has_entry_line(current, GITIGNORE_ENTRY@) {
        None
    } else {
        Some(current + gitignore_addition(current))
    }
}

fn trimmed_is(s: &str, lo: usize, hi: usize, entry: &str) -> (r: bool)
    requires
        lo <= hi <= s@.len(),
    ensures
        r == (trim(s@.subrange(lo as int, hi as int)) == entry@),
{
    let piece = s.substring_char(lo, hi);
    let t = trim_str(piece);
    crate::text::str_eq(t.as_str(), entry)
}

/// Whether some line of `s`, trimmed, is `entry`.
pub fn has_entry_line_exec(s: &str, entry: &str) -> (r: bool)
    ensures
        r == has_entry_line(s@, entry@),
{
    let n = s.unicode_len();
    let mut start: usize = 0;
    let mut k: usize = 0;
    while k < n
        invariant
            n == s@.len(),
            start <= k <= n,
            start == 0 || s@[start - 1] == '\n',
            forall|m: int| start <= m < k ==> s@[m] != '\n',
            forall|i: int, j: int| #[trigger] is_line(s@, i, j) && j < k ==> trim(s@.subrange(i, j)) != entry@,
        decreases n - k,
    {
        if s.get_char(k) == '\n' {
            if trimmed_is(s, start, k, entry) {
                assert(is_line(s@, start as int, k as int));
                return true;
            }
            assert forall|i: int, j: int| #[trigger] is_line(s@, i, j) && j < k + 1 implies trim(s@.subrange(i, j)) != entry@ by {
                if j == k {
                    if i < start {
                        assert(s@[start - 1] != '\n');
                    }
                    if i > start {
                        assert(s@[i - 1] != '\n');
                    }
                }
            }
            start = k + 1;
        } else {
            assert forall|i: int, j: int| #[trigger] is_line(s@, i, j) && j < k + 1 implies trim(s@.subrange(i, j)) != entry@ by {
                if j == k {
                    assert(s@[j] != '\n');
                }
            }
        }
        k = k + 1;
    }
    if trimmed_is(s, start, n, entry) {
        assert(is_line(s@, start as int, n as int));
        return true;
    }
    assert forall|i: int, j: int| #[trigger] is_line(s@, i, j) implies trim(s@.subrange(i, j)) != entry@ by {
        if j == n {
            if i < start {
                assert(s@[start - 1] != '\n');
            }
            if i > start {
                assert(s@[i - 1] != '\n');
            }
        }
    }
    false
}

/// The new contents of .gitignore: unchanged (`None`) when a line already
/// names the server directory, otherwise the old contents followed by the
/// entry under a comment.
pub fn gitignore_update(current: &str) -> (r: Option<String>)
    ensures
        crate::downloadable::opt_view(r) == gitignore_update_spec(current@),
{
    if has_entry_line_exec(current, GITIGNORE_ENTRY) {
        return None;
    }
    let n = current.unicode_len();
    let mut r = String::from_str(current);
    proof {
        reveal_strlit("\n");
    }
    if n > 0 && current.get_char(n - 1) != '\n' {
        r.append("\n");
    }
    r.append("\n");
    r.append(GITIGNORE_COMMENT);
    r.append("\n");
    r.append(GITIGNORE_ENTRY);
    r.append("\n");
    assert("\n"@ =~= seq!['\n']);
    assert(r@ =~= current@ + gitignore_addition(current@));
    Some(r)
}

/// Running `init` twice adds the entry once: the updated .gitignore already
/// excludes the server directory, so a second update leaves it unchanged.
pub proof fn gitignore_update_idempotent(current: Seq<char>)
    ensures
        gitignore_update_spec(current) matches Some(updated) ==> gitignore_update_spec(updated)
            is None,
{
    reveal_strlit("minipot-server/");
    if !has_entry_line(current, GITIGNORE_ENTRY@) {
        let updated = current + gitignore_addition(current);
        let e = GITIGNORE_ENTRY@;
        let j = updated.len() - 1;
        let i = j - e.len();
        assert(updated[j] == '\n');
        assert(updated.subrange(i, j) =~= e);
        assert(updated[i - 1] == '\n');
        assert forall|k: int| i <= k < j implies updated[k] != '\n' by {
            assert(updated[k] == e[k - i]);
        }
        assert(is_line(updated, i, j));
        assert(!is_ws(e[0]));
        assert(strip_start(e, None) == e);
        assert(!is_ws(e.last()));
        assert(strip_end(e, None) == e);
        assert(trim(updated.subrange(i, j)) == e);
    }
}

} // verus!
