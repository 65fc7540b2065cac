//! Plugin registries: Modrinth, Hangar and GitHub releases.  Each module
//! holds the registry's reply types and the choices made on a reply; the
//! HTTP calls themselves are made by the command-line front end.

pub mod github;
pub mod hangar;
pub mod modrinth;

use vstd::prelude::*;
use crate::text::{parse_u64, parse_u64_exec};

verus! {

/// What to do with a registry reply given its rate-limit headers.
pub enum RateLimitAction {
    /// Go on with the reply.
    Proceed,
    /// Sleep this many seconds, then go on with the reply.
    Wait { seconds: u64 },
    /// No rate-limit header: an HTTP error status turns into an error.
    CheckStatus,
}

/// The `x-ratelimit-reset` header is not an unsigned integer.
pub struct InvalidRateLimitReset {
    pub value: String,
}

/// Reads the reset header when the remaining budget is down to "1".
fn reset_value(reset: &String) -> (r: Result<u64, InvalidRateLimitReset>)
    ensures
        match r {
            Ok(v) => parse_u64(reset@) == Some(v as nat),
            Err(e) => parse_u64(reset@) is None && e.value@ == reset@,
        },
{
    match parse_u64_exec(reset.as_str()) {
        Some(v) => Ok(v),
        None => Err(InvalidRateLimitReset { value: reset.clone() }),
    }
}

/// The decision on a rate-limit header pair.  `remaining` and `reset` are
/// the header values read as text; `reset_is_delay` tells whether the reset
/// value is a delay in seconds (Modrinth) or a Unix time (GitHub, where the
/// wait is the time left until then, 0 when it has passed).
pub open spec fn ratelimit_spec(
    remaining: Option<Seq<char>>,
    reset: Option<Seq<char>>,
    now: u64,
    reset_is_delay: bool,
) -> Option<RateLimitAction> {
    match remaining {
        None => Some(RateLimitAction::CheckStatus),
        Some(r) => if r == "1"@ {
            match parse_u64(reset.unwrap()) {
                Some(v) => Some(
                    RateLimitAction::Wait {
                        seconds: if reset_is_delay {
                            v as u64
                        } else if v >= now {
                            (v - now) as u64
                        } else {
                            0
                        },
                    },
                ),
                None => None,
            }
        } else {
            Some(RateLimitAction::Proceed)
        },
    }
}

pub open spec fn opt_chars(o: Option<String>) -> Option<Seq<char>> {
    match o {
        Some(s) => Some(s@),
        None => None,
    }
}

/// Shared by both registries; see `ratelimit_spec`.
pub fn ratelimit_action(
    remaining: &Option<String>,
    reset: &Option<String>,
    now: u64,
    reset_is_delay: bool,
) -> (r: Result<RateLimitAction, InvalidRateLimitReset>)
    requires
        (remaining matches Some(h) && h@ == "1"@) ==> reset is Some,
    ensures
        match r {
            Ok(a) => ratelimit_spec(opt_chars(*remaining), opt_chars(*reset), now, reset_is_delay)
                == Some(a),
            Err(e) => ratelimit_spec(opt_chars(*remaining), opt_chars(*reset), now, reset_is_delay)
                is None && e.value@ == reset.unwrap()@,
        },
{
    match remaining {
        None => Ok(RateLimitAction::CheckStatus),
        Some(h) => {
            if crate::text::str_eq(h.as_str(), "1") {
                match reset {
                    Some(text) => {
                        let v = reset_value(text)?;
                        if reset_is_delay {
                            Ok(RateLimitAction::Wait { seconds: v })
                        } else if v >= now {
                            Ok(RateLimitAction::Wait { seconds: v - now })
                        } else {
                            Ok(RateLimitAction::Wait { seconds: 0 })
                        }
                    },
                    None => Ok(RateLimitAction::Proceed),
                }
            } else {
                Ok(RateLimitAction::Proceed)
            }
        },
    }
}

} // verus!
