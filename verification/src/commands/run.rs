//! `minipot run`: how the Paper server is launched, when the startup
//! commands are sent, and what happens when the process exits.

use vstd::prelude::*;
use vstd::string::StringExecFns;
use crate::text::{append_decimal, contains, contains_exec, decimal, views};

verus! {

/// Paper prints this once it is ready to take console commands.
pub const SERVER_READY_SIGNAL: &'static str = "]: Done (";

/// Written once the startup commands have run; while it exists they are not
/// run again (unless forced, or the server is removed).
pub const STARTUP_DONE_MARKER: &'static str = ".minipot.startup_done";

pub const HOT_SWAP_FLAG: &'static str = "-XX:+AllowEnhancedClassRedefinition";

pub const JDWP_PREFIX: &'static str =
    "-agentlib:jdwp=transport=dt_socket,server=n,suspend=n,address=localhost:";

/// The JDWP agent option connecting to the debugger on `port`.
pub fn jdwp_agent_arg(port: u16) -> (r: String)
    ensures
        r@ == JDWP_PREFIX@ + decimal(port as nat),
{
    let mut r = String::from_str(JDWP_PREFIX);
    append_decimal(&mut r, port as u64);
    r
}

/// The arguments after the flags of minipot.yml: hot-swap and debugger
/// options in debug mode, then `-jar paper.jar nogui`.
pub open spec fn launch_tail(debug: bool, port: u16) -> Seq<Seq<char>> {
    (if debug {
        seq![HOT_SWAP_FLAG@, JDWP_PREFIX@ + decimal(port as nat)]
    } else {
        seq![]
    }) + seq!["-jar"@, "paper.jar"@, "nogui"@]
}

/// The arguments of the `java` process.
pub fn java_launch_args(jvm_flags: &Vec<String>, debug: bool, debug_port: u16) -> (r: Vec<String>)
    ensures
        views(r@) == views(jvm_flags@) + launch_tail(debug, debug_port),
{
    let mut r: Vec<String> = Vec::new();
    let n = jvm_flags.len();
    let mut i: usize = 0;
    while i < n
        invariant
            n == jvm_flags@.len(),
            i <= n,
            views(r@) == views(jvm_flags@).take(i as int),
        decreases n - i,
    {
        let ghost before = r@;
        r.push(jvm_flags[i].clone());
        assert(views(r@) =~= views(before).push(jvm_flags@[i as int]@));
        assert(views(r@) =~= views(jvm_flags@).take(i + 1));
        i = i + 1;
    }
    assert(views(jvm_flags@).take(n as int) =~= views(jvm_flags@));
    let ghost flags = views(r@);
    if debug {
        r.push(String::from_str(HOT_SWAP_FLAG));
        r.push(jdwp_agent_arg(debug_port));
    }
    r.push(String::from_str("-jar"));
    r.push(String::from_str("paper.jar"));
    r.push(String::from_str("nogui"));
    assert(views(r@) =~= flags + launch_tail(debug, debug_port));
    r
}

/// The program to start: the JetBrains Runtime's `java` in debug mode,
/// otherwise `java` from the PATH.
pub fn java_command(jbr_bin: &Option<String>) -> (r: String)
    ensures
        r@ == match jbr_bin {
            Some(b) => b@,
            None => "java"@,
        },
{
    match jbr_bin {
        Some(b) => b.clone(),
        None => String::from_str("java"),
    }
}

/// The startup commands already ran in an earlier session and are not forced.
pub fn startup_already_run(marker_exists: bool, force: bool) -> (r: bool)
    ensures
        r == (marker_exists && !force),
{
    marker_exists && !force
}

pub const SKIPPED_NOTICE: &'static str =
    "[Minipot] Startup commands skipped —  Run `minipot run --exec-commands` or `minipot remove` to re-run the commands.";

/// What is announced before a start about the `n` startup commands.
pub open spec fn startup_notice_spec(n: nat, already_run: bool) -> Option<Seq<char>> {
    if n == 0 {
        None
    } else if already_run {
        Some(SKIPPED_NOTICE@)
    } else {
        Some(
            "[Minipot] "@ + decimal(n) + " startup command"@ + (if n == 1 {
                ""@
            } else {
                "s"@
            }) + " will run when the server is ready."@,
        )
    }
}

pub fn startup_notice(n: usize, already_run: bool) -> (r: Option<String>)
    ensures
        crate::downloadable::opt_view(r) == startup_notice_spec(n as nat, already_run),
{
    if n == 0 {
        None
    } else if already_run {
        Some(String::from_str(SKIPPED_NOTICE))
    } else {
        let mut r = String::from_str("[Minipot] ");
        append_decimal(&mut r, n as u64);
        r.append(" startup command");
        if n == 1 {
            r.append("");
        } else {
            r.append("s");
        }
        r.append(" will run when the server is ready.");
        Some(r)
    }
}

/// Watches the server's console output for the ready signal.
pub struct ConsoleWatch {
    pub commands_sent: bool,
}

/// One console line: the new state and whether to send the startup
/// commands now.  The first line that carries the ready signal ends the
/// watch; the commands go out then, if there are any to run.
pub open spec fn on_line_spec(sent: bool, line: Seq<char>, run_commands: bool) -> (bool, bool) {
    if !sent && contains(line, SERVER_READY_SIGNAL@) {
        (true, run_commands)
    } else {
        (sent, false)
    }
}

impl ConsoleWatch {
    pub fn new() -> (r: Self)
        ensures
            !r.commands_sent,
    {
        ConsoleWatch { commands_sent: false }
    }

    /// Feeds one console line; `run_commands` tells whether there are
    /// startup commands to run in this session.  Returns whether to send
    /// them now.
    pub fn on_line(&mut self, line: &str, run_commands: bool) -> (r: bool)
        ensures
            (final(self).commands_sent, r) == on_line_spec(old(self).commands_sent, line@, run_commands),
    {
        if !self.commands_sent && contains_exec(line, SERVER_READY_SIGNAL) {
            self.commands_sent = true;
            run_commands
        } else {
            false
        }
    }
}

/// Whether each line of a session triggers the commands.
pub open spec fn sends(sent: bool, lines: Seq<Seq<char>>, run_commands: bool) -> Seq<bool>
    decreases lines.len(),
{
    if lines.len() == 0 {
        seq![]
    } else {
        let (next, out) = on_line_spec(sent, lines[0], run_commands);
        seq![out] + sends(next, lines.drop_first(), run_commands)
    }
}

pub open spec fn count_true(s: Seq<bool>) -> nat
    decreases s.len(),
{
    if s.len() == 0 {
        0
    } else {
        (if s[0] {
            1nat
        } else {
            0nat
        }) + count_true(s.drop_first())
    }
}

pub open spec fn some_ready_line(lines: Seq<Seq<char>>) -> bool {
    exists|i: int| 0 <= i < lines.len() && contains(#[trigger] lines[i], SERVER_READY_SIGNAL@)
}

/// The startup commands go out exactly once in a session whose console shows
/// the ready signal, when there are commands to run; never otherwise, and
/// never again once sent.
pub proof fn startup_commands_sent_once(sent: bool, lines: Seq<Seq<char>>, run_commands: bool)
    ensures
        count_true(sends(sent, lines, run_commands)) == (if !sent && run_commands
            && some_ready_line(lines) {
            1nat
        } else {
            0nat
        }),
    decreases lines.len(),
{
    if lines.len() > 0 {
        let (next, out) = on_line_spec(sent, lines[0], run_commands);
        let rest = lines.drop_first();
        startup_commands_sent_once(next, rest, run_commands);
        assert((seq![out] + sends(next, rest, run_commands)).drop_first() =~= sends(next, rest, run_commands));
        if some_ready_line(lines) && !contains(lines[0], SERVER_READY_SIGNAL@) {
            let i = choose|i: int| 0 <= i < lines.len() && contains(#[trigger] lines[i], SERVER_READY_SIGNAL@);
            assert(rest[i - 1] == lines[i]);
        }
        if some_ready_line(rest) {
            let i = choose|i: int| 0 <= i < rest.len() && contains(#[trigger] rest[i], SERVER_READY_SIGNAL@);
            assert(lines[i + 1] == rest[i]);
        }
    }
}

/// What `minipot run` does when the server process ends.
pub enum ExitDecision {
    /// `minipot restart` asked for a new start.
    Restart,
    /// The server stopped normally.
    Finish,
    /// The server failed.
    Failed,
}

/// A restart marker wins; otherwise the exit status decides.
pub fn after_exit(restart_marker_exists: bool, success: bool) -> (r: ExitDecision)
    ensures
        restart_marker_exists ==> r is Restart,
        !restart_marker_exists && success ==> r is Finish,
        !restart_marker_exists && !success ==> r is Failed,
{
    if restart_marker_exists {
        ExitDecision::Restart
    } else if success {
        ExitDecision::Finish
    } else {
        ExitDecision::Failed
    }
}

} // verus!
