//! Which Java release a Paper server version needs.

use vstd::prelude::*;
use crate::text::{parse_u32, parse_u32_exec, split_once, split_once_exec};

verus! {

/// The pieces of `s.splitn(3, '.')`: at most three, the last one keeping any
/// further dots.
pub open spec fn splitn3_dot(s: Seq<char>) -> Seq<Seq<char>> {
    match split_once(s, '.') {
        None => seq![s],
        Some((a, rest)) => match split_once(rest, '.') {
            None => seq![a, rest],
            Some((b, c)) => seq![a, b, c],
        },
    }
}

/// The pieces that parse as `u32`, in order (the others are skipped).
pub open spec fn parsed_numbers(pieces: Seq<Seq<char>>) -> Seq<nat>
    decreases pieces.len(),
{
    if pieces.len() == 0 {
        seq![]
    } else {
        let rest = parsed_numbers(pieces.drop_first());
        match parse_u32(pieces[0]) {
            Some(v) => seq![v] + rest,
            None => rest,
        }
    }
}

/// The `k`-th number read from a version string, 0 when there is none.
pub open spec fn version_number(s: Seq<char>, k: int) -> nat {
    let nums = parsed_numbers(splitn3_dot(s));
    if 0 <= k < nums.len() {
        nums[k]
    } else {
        0
    }
}

/// The Java major version for a Minecraft `1.minor.patch` release:
/// up to 1.20.4 → 17, 1.20.5 up to 1.25.x → 21, 1.26 and later → 25.
pub open spec fn java_for(minor: nat, patch: nat) -> u32 {
    if minor >= 26 {
        25
    } else if minor >= 21 {
        21
    } else if minor == 20 && patch >= 5 {
        21
    } else {
        17
    }
}

pub open spec fn java_version_spec(paper_version: Seq<char>) -> u32 {
    java_for(version_number(paper_version, 1), version_number(paper_version, 2))
}

fn push_parsed(nums: &mut Vec<u32>, piece: &str)
    ensures
        final(nums)@.map_values(|v: u32| v as nat) == old(nums)@.map_values(|v: u32| v as nat)
            + match parse_u32(piece@) {
            Some(v) => seq![v],
            None => seq![],
        },
{
    let ghost before = nums@;
    match parse_u32_exec(piece) {
        Some(v) => {
            nums.push(v);
            assert(nums@.map_values(|v: u32| v as nat) =~= before.map_values(|v: u32| v as nat)
                + seq![v as nat]);
        },
        None => {
            assert(nums@.map_values(|v: u32| v as nat) =~= before.map_values(|v: u32| v as nat)
                + Seq::<nat>::empty());
        },
    }
}

/// Returns the Java major version required by a Paper server version string
/// such as "1.20.6".  The string is cut at its first two dots; the pieces
/// that are numbers are read in order, the second one is the minor version
/// and the third the patch version (0 when missing).
pub fn java_version_for_paper(paper_version: &str) -> (r: u32)
    ensures
        r == java_version_spec(paper_version@),
        r == 17 || r == 21 || r == 25,
{
    let mut nums: Vec<u32> = Vec::new();
    let ghost pieces = splitn3_dot(paper_version@);
    proof {
        reveal_with_fuel(parsed_numbers, 4);
    }
    match split_once_exec(paper_version, '.') {
        None => {
            push_parsed(&mut nums, paper_version);
            assert(pieces.drop_first() =~= Seq::<Seq<char>>::empty());
        },
        Some((a, rest)) => {
            push_parsed(&mut nums, a.as_str());
            match split_once_exec(rest.as_str(), '.') {
                None => {
                    push_parsed(&mut nums, rest.as_str());
                    assert(pieces.drop_first() =~= seq![rest@]);
                    assert(pieces.drop_first().drop_first() =~= Seq::<Seq<char>>::empty());
                },
                Some((b, c)) => {
                    push_parsed(&mut nums, b.as_str());
                    push_parsed(&mut nums, c.as_str());
                    assert(pieces.drop_first() =~= seq![b@, c@]);
                    assert(pieces.drop_first().drop_first() =~= seq![c@]);
                    assert(pieces.drop_first().drop_first().drop_first()
                        =~= Seq::<Seq<char>>::empty());
                },
            }
        },
    }
    assert(nums@.map_values(|v: u32| v as nat) =~= parsed_numbers(pieces));
    let minor: u32 = if nums.len() > 1 {
        nums[1]
    } else {
        0
    };
    let patch: u32 = if nums.len() > 2 {
        nums[2]
    } else {
        0
    };
    assert(nums@.map_values(|v: u32| v as nat).len() == nums@.len());
    assert(minor as nat == version_number(paper_version@, 1)) by {
        if nums.len() > 1 {
            assert(nums@.map_values(|v: u32| v as nat)[1] == nums@[1] as nat);
        }
    }
    assert(patch as nat == version_number(paper_version@, 2)) by {
        if nums.len() > 2 {
            assert(nums@.map_values(|v: u32| v as nat)[2] == nums@[2] as nat);
        }
    }
    if minor >= 26 {
        return 25;
    }
    if minor >= 21 {
        return 21;
    }
    if minor == 20 && patch >= 5 {
        return 21;
    }
    17
}

/// A later Minecraft release never needs an older Java: the mapping is
/// monotone in (minor, patch) taken in lexicographic order.
pub proof fn java_version_monotone(a: Seq<char>, b: Seq<char>)
    requires
        version_number(a, 1) < version_number(b, 1) || (version_number(a, 1) == version_number(
            b,
            1,
        ) && version_number(a, 2) <= version_number(b, 2)),
    ensures
        java_version_spec(a) <= java_version_spec(b),
{
}

} // verus!
