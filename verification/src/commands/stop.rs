//! `minipot stop` / `minipot restart`: finding the running server.

use vstd::prelude::*;
use vstd::string::StringExecFns;
use crate::text::{decimal, decimal_string, parse_u32, parse_u32_exec, trim, trim_str};

verus! {

/// File in which `minipot run` writes the PID of the Paper process.
pub const PID_FILE: &'static str = ".minipot.pid";

/// Marker file: when it exists as Paper stops, `minipot run` starts it again.
pub const RESTART_MARKER: &'static str = ".minipot.restart";

/// The PID file does not hold a process id.
pub struct InvalidPid {
    pub raw: String,
}

/// What `minipot run` writes to the PID file: the process id in decimal.
pub fn pid_file_contents(pid: u32) -> (r: String)
    ensures
        r@ == decimal(pid as nat),
{
    decimal_string(pid as u64)
}

/// Reads the PID file's contents: a `u32`, surrounding white space aside.
pub fn parse_pid(raw: &str) -> (r: Result<u32, InvalidPid>)
    ensures
        match r {
            Ok(pid) => parse_u32(trim(raw@)) == Some(pid as nat),
            Err(e) => parse_u32(trim(raw@)) is None && e.raw@ == raw@,
        },
{
    let t = trim_str(raw);
    match parse_u32_exec(t.as_str()) {
        Some(pid) => Ok(pid),
        None => Err(InvalidPid { raw: String::from_str(raw) }),
    }
}


/// `minipot stop` finds the process `minipot run` recorded: the contents
/// written for a PID read back as that PID.
pub proof fn pid_round_trip(pid: u32)
    ensures
        parse_u32(trim(decimal(pid as nat))) == Some(pid as nat),
{
    crate::text::decimal_parse_round_trip(pid as nat, u32::MAX as nat);
}

} // verus!
