//! `minipot sync`: deploying the freshly built plugin jar.

use vstd::prelude::*;
use vstd::string::StrSliceExecFns;
use std::io::Read;
use crate::downloadable::opt_view;
use crate::lines::{text_lines, text_lines_exec};
use crate::text::{
    ends_with, ends_with_exec, eq_ignore_ascii_case,
    eq_ignore_ascii_case_exec, trim, trim_matches, trim_matches_str, trim_str,
};

verus! {

/// A directory entry: its path, its file name and its modification time
/// (nanoseconds from the Unix epoch, negative before it; the epoch itself
/// when the time is unknown).
pub struct FileStamp {
    pub path: String,
    pub file_name: String,
    pub modified: i128,
}

/// `Path::extension() == Some("jar")` for a file name: a ".jar" suffix
/// after at least one other character.
pub open spec fn is_jar_name(name: Seq<char>) -> bool {
    ends_with(name, ".jar"@) && name.len() >= 5
}

pub fn is_jar_file_name(name: &str) -> (r: bool)
    ensures
        r == is_jar_name(name@),
{
    proof {
        reveal_strlit(".jar");
    }
    ends_with_exec(name, ".jar") && name.unicode_len() >= 5
}

/// `i` is the entry `max_by_key` picks among the jars of `es`: a jar with
/// the latest time, and the last such one.
pub open spec fn is_latest_jar(es: Seq<FileStamp>, i: int) -> bool {
    &&& 0 <= i < es.len()
    &&& is_jar_name(es[i].file_name@)
    &&& forall|j: int| 0 <= j < es.len() && is_jar_name(#[trigger] es[j].file_name@) ==> es[j].modified <= es[i].modified
    &&& forall|j: int| i < j < es.len() && is_jar_name(#[trigger] es[j].file_name@) ==> es[j].modified < es[i].modified
}

pub open spec fn has_jar(es: Seq<FileStamp>) -> bool {
    exists|j: int| 0 <= j < es.len() && is_jar_name(#[trigger] es[j].file_name@)
}

/// The most recently modified jar among the entries of a directory.
pub fn find_latest_jar(entries: &Vec<FileStamp>) -> (r: Option<usize>)
    ensures
        match r {
            Some(i) => is_latest_jar(entries@, i as int),
            None => !has_jar(entries@),
        },
{
    let n = entries.len();
    let mut best: Option<usize> = None;
    let mut i: usize = 0;
    while i < n
        invariant
            n == entries@.len(),
            i <= n,
            match best {
                Some(b) => {
                    &&& b < i
                    &&& is_jar_name(entries@[b as int].file_name@)
                    &&& forall|j: int| 0 <= j < i && is_jar_name(#[trigger] entries@[j].file_name@) ==> entries@[j].modified <= entries@[b as int].modified
                    &&& forall|j: int| b < j < i && is_jar_name(#[trigger] entries@[j].file_name@) ==> entries@[j].modified < entries@[b as int].modified
                },
                None => forall|j: int| 0 <= j < i ==> !is_jar_name(#[trigger] entries@[j].file_name@),
            },
        decreases n - i,
    {
        if is_jar_file_name(entries[i].file_name.as_str()) {
            match best {
                Some(b) => {
                    if entries[i].modified >= entries[b].modified {
                        best = Some(i);
                    }
                },
                None => {
                    best = Some(i);
                },
            }
        }
        i = i + 1;
    }
    best
}

/// The latest jar over several directories, as (directory, entry): the
/// latest jar of each directory competes with the others, the last
/// directory winning ties.
pub fn find_latest_jar_any(dirs: &Vec<Vec<FileStamp>>) -> (r: Option<(usize, usize)>)
    ensures
        match r {
            Some((d, e)) => {
                &&& d < dirs@.len()
                &&& is_latest_jar(dirs@[d as int]@, e as int)
                &&& forall|k: int| 0 <= k < dirs@.len() && has_jar(#[trigger] dirs@[k]@) ==> exists|x: int| is_latest_jar(dirs@[k]@, x) && dirs@[k]@[x].modified <= dirs@[d as int]@[e as int].modified
                &&& forall|k: int| d < k < dirs@.len() && has_jar(#[trigger] dirs@[k]@) ==> exists|x: int| is_latest_jar(dirs@[k]@, x) && dirs@[k]@[x].modified < dirs@[d as int]@[e as int].modified
            },
            None => forall|k: int| 0 <= k < dirs@.len() ==> !has_jar(#[trigger] dirs@[k]@),
        },
{
    let n = dirs.len();
    let mut best: Option<(usize, usize)> = None;
    let mut k: usize = 0;
    while k < n
        invariant
            n == dirs@.len(),
            k <= n,
            match best {
                Some((d, e)) => {
                    &&& d < k
                    &&& is_latest_jar(dirs@[d as int]@, e as int)
                    &&& forall|m: int| 0 <= m < k && has_jar(#[trigger] dirs@[m]@) ==> exists|x: int| is_latest_jar(dirs@[m]@, x) && dirs@[m]@[x].modified <= dirs@[d as int]@[e as int].modified
                    &&& forall|m: int| d < m < k && has_jar(#[trigger] dirs@[m]@) ==> exists|x: int| is_latest_jar(dirs@[m]@, x) && dirs@[m]@[x].modified < dirs@[d as int]@[e as int].modified
                },
                None => forall|m: int| 0 <= m < k ==> !has_jar(#[trigger] dirs@[m]@),
            },
        decreases n - k,
    {
        match find_latest_jar(&dirs[k]) {
            Some(x) => {
                assert(has_jar(dirs@[k as int]@));
                match best {
                    Some((d, e)) => {
                        if dirs[k][x].modified >= dirs[d][e].modified {
                            best = Some((k, x));
                            assert forall|m: int| 0 <= m < k + 1 && has_jar(#[trigger] dirs@[m]@) implies exists|y: int| is_latest_jar(dirs@[m]@, y) && dirs@[m]@[y].modified <= dirs@[k as int]@[x as int].modified by {
                                if m == k {
                                    assert(is_latest_jar(dirs@[m]@, x as int));
                                }
                            }
                        } else {
                            assert forall|m: int| 0 <= m < k + 1 && has_jar(#[trigger] dirs@[m]@) implies exists|y: int| is_latest_jar(dirs@[m]@, y) && dirs@[m]@[y].modified <= dirs@[d as int]@[e as int].modified by {
                                if m == k {
                                    assert(is_latest_jar(dirs@[m]@, x as int));
                                }
                            }
                            assert forall|m: int| d < m < k + 1 && has_jar(#[trigger] dirs@[m]@) implies exists|y: int| is_latest_jar(dirs@[m]@, y) && dirs@[m]@[y].modified < dirs@[d as int]@[e as int].modified by {
                                if m == k {
                                    assert(is_latest_jar(dirs@[m]@, x as int));
                                }
                            }
                        }
                    },
                    None => {
                        best = Some((k, x));
                        assert forall|m: int| 0 <= m < k + 1 && has_jar(#[trigger] dirs@[m]@) implies exists|y: int| is_latest_jar(dirs@[m]@, y) && dirs@[m]@[y].modified <= dirs@[k as int]@[x as int].modified by {
                            if m == k {
                                assert(is_latest_jar(dirs@[m]@, x as int));
                            }
                        }
                    },
                }
            },
            None => {},
        }
        k = k + 1;
    }
    best
}

/// Whether a line of plugin.yml starts with "name:" in any ASCII case
/// (what `to_lowercase().starts_with("name:")` tests: no other character
/// lower-cases to one of these).
pub open spec fn is_name_key(t: Seq<char>) -> bool {
    t.len() >= 5 && eq_ignore_ascii_case(t.take(5), "name:"@)
}

/// The plugin name a line of plugin.yml gives: after "name:", the value
/// trimmed, with surrounding double and then single quotes removed, trimmed
/// again; a line with an empty value gives none.
pub open spec fn name_in_line(line: Seq<char>) -> Option<Seq<char>> {
    let t = trim(line);
    if is_name_key(t) {
        let n = trim(trim_matches(trim_matches(trim(t.skip(5)), '"'), '\''));
        if n.len() == 0 {
            None
        } else {
            Some(n)
        }
    } else {
        None
    }
}

/// The first name the lines of plugin.yml give.
pub open spec fn plugin_name_spec(lines: Seq<Seq<char>>) -> Option<Seq<char>>
    decreases lines.len(),
{
    if lines.len() == 0 {
        None
    } else {
        match name_in_line(lines[0]) {
            Some(n) => Some(n),
            None => plugin_name_spec(lines.drop_first()),
        }
    }
}

fn name_in_line_exec(line: &str) -> (r: Option<String>)
    ensures
        crate::downloadable::opt_view(r) == name_in_line(line@),
{
    let t = trim_str(line);
    let n = t.as_str().unicode_len();
    if n < 5 {
        return None;
    }
    let key = t.as_str().substring_char(0, 5);
    proof {
        reveal_strlit("name:");
    }
    if !eq_ignore_ascii_case_exec(key, "name:") {
        return None;
    }
    let value = trim_str(t.as_str().substring_char(5, n));
    let a = trim_matches_str(value.as_str(), '"');
    let b = trim_matches_str(a.as_str(), '\'');
    let name = trim_str(b.as_str());
    if name.as_str().is_empty() {
        None
    } else {
        Some(name)
    }
}

/// Reads the plugin name from the lines of plugin.yml.
pub fn plugin_name_from_lines(lines: &Vec<String>) -> (r: Option<String>)
    ensures
        crate::downloadable::opt_view(r) == plugin_name_spec(crate::text::views(lines@)),
{
    let ghost v = crate::text::views(lines@);
    let n = lines.len();
    let mut i: usize = 0;
    assert(v.skip(0) =~= v);
    while i < n
        invariant
            n == lines@.len(),
            v == crate::text::views(lines@),
            i <= n,
            plugin_name_spec(v) == plugin_name_spec(v.skip(i as int)),
        decreases n - i,
    {
        assert(v.skip(i as int)[0] == lines@[i as int]@);
        assert(v.skip(i as int).drop_first() =~= v.skip(i + 1));
        match name_in_line_exec(lines[i].as_str()) {
            Some(name) => {
                return Some(name);
            },
            None => {},
        }
        i = i + 1;
    }
    None
}

/// The contents of the entry named `entry` in the zip archive `archive`, as
/// the `zip` crate reads it; `None` when the bytes are not an archive it can
/// read, hold no such entry, or the entry cannot be read back.
pub uninterp spec fn zip_entry_bytes(archive: Seq<u8>, entry: Seq<char>) -> Option<Seq<u8>>;

/// `zip::ZipArchive::new` over the bytes, then `by_name` and
/// `read_to_end`: the entry's contents, or `None` where any of them fails.
/// The contents are named, not stated: they are a function of the archive's
/// bytes and the entry's name.
#[verifier::external_body]
fn zip_entry(archive: &[u8], entry: &str) -> (r: Option<Vec<u8>>)
    ensures
        match r {
            Some(b) => zip_entry_bytes(archive@, entry@) == Some(b@),
            None => zip_entry_bytes(archive@, entry@) is None,
        },
{
    let mut zip = zip::ZipArchive::new(std::io::Cursor::new(archive)).ok()?;
    let mut file = zip.by_name(entry).ok()?;
    let mut out: Vec<u8> = Vec::new();
    file.read_to_end(&mut out).ok()?;
    Some(out)
}

/// The plugin name a jar declares: the first `name:` of its plugin.yml, read
/// line by line.  `None` when the jar has no readable plugin.yml or it names
/// no plugin.
pub fn plugin_name_from_jar(jar: &[u8]) -> (r: Option<String>)
    ensures
        opt_view(r) == match zip_entry_bytes(jar@, "plugin.yml"@) {
            Some(b) => plugin_name_spec(text_lines(b)),
            None => None,
        },
{
    match zip_entry(jar, "plugin.yml") {
        Some(bytes) => {
            let lines = text_lines_exec(bytes.as_slice());
            plugin_name_from_lines(&lines)
        },
        None => None,
    }
}

/// Two plugin names are the same plugin when they are equal up to ASCII case.
pub fn same_plugin_name(a: &str, b: &str) -> (r: bool)
    ensures
        r == eq_ignore_ascii_case(a@, b@),
{
    eq_ignore_ascii_case_exec(a, b)
}

} // verus!
