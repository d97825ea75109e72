//! Commands on the host and in the guest: how they are put, and how their results are judged.

use crate::encoding::{decode_lossy, lossy_text};
use crate::text::{chars_of, decimal, push_decimal, string_of, trim, trim_chars};
use vstd::prelude::*;

verus! {

/// The guest.
pub const VM_NAME: &'static str = "bb-test-runner";

/// The snapshot that every test starts from.
pub const SNAPSHOT_NAME: &'static str = "clean-state";

/// How often the guest is asked whether it is up.
pub const AGENT_ATTEMPTS: u32 = 120;

/// How long to wait between two questions, in seconds.
pub const AGENT_PAUSE_SECS: u64 = 2;

/// The error for a guest that does not come up.
pub const AGENT_TIMEOUT: &'static str = "VM communication agent exceeded response timeout limit.";

/// What a command left behind.
pub struct CommandOutput {
    /// Whether it succeeded.
    pub success: bool,
    /// Its exit code; none where a signal ended it.
    pub code: Option<i32>,
    /// What it wrote to standard output.
    pub stdout: Vec<u8>,
    /// What it wrote to standard error.
    pub stderr: Vec<u8>,
}

/// A signed number in decimal.
pub open spec fn signed_decimal(n: int) -> Seq<char> {
    if n < 0 {
        "-"@ + decimal((-n) as nat)
    } else {
        decimal(n as nat)
    }
}

/// Appends a signed number in decimal.
fn push_signed(out: &mut String, n: i32)
    ensures
        final(out)@ == old(out)@ + signed_decimal(n as int),
{
    if n < 0 {
        out.append("-");
        push_decimal(out, (-(n as i64)) as u64);
        assert(out@ =~= old(out)@ + signed_decimal(n as int));
    } else {
        push_decimal(out, n as u64);
    }
}

/// The exit code that is reported: -1 where there is none.
pub open spec fn reported_code(code: Option<i32>) -> int {
    match code {
        Some(n) => n as int,
        None => -1,
    }
}

/// The error of a host command that failed, in the model.
pub open spec fn host_failure(message: Seq<char>, code: Option<i32>, stderr: Seq<u8>) -> Seq<char> {
    message + " (Exit code: "@ + signed_decimal(reported_code(code)) + ")\n\n--- STDERR ---\n"@
        + trim(lossy_text(stderr))
}

/// Judges a command on the host: `outcome` is what it left behind, or why it could not be run.
pub fn execute_cmd(error_msg: &str, outcome: Result<CommandOutput, String>) -> (r: Result<
    (),
    String,
>)
    ensures
        r is Ok <==> (outcome matches Ok(output) && output.success),
        r matches Err(error) ==> error@ == match outcome {
            Ok(output) => host_failure(error_msg@, output.code, output.stderr@),
            Err(reason) => error_msg@ + ": "@ + reason@,
        },
{
    let mut error = error_msg.to_owned();
    match outcome {
        Ok(output) => {
            if output.success {
                return Ok(());
            }
            error.append(" (Exit code: ");
            let code: i32 = match output.code {
                Some(n) => n,
                None => -1,
            };
            push_signed(&mut error, code);
            error.append(")\n\n--- STDERR ---\n");
            let stderr = chars_of(decode_lossy(output.stderr.as_slice()).as_str());
            let trimmed = trim_chars(&stderr);
            error.append(string_of(trimmed.as_slice(), 0, trimmed.len()).as_str());
        },
        Err(reason) => {
            error.append(": ");
            error.append(reason.as_str());
        },
    }
    Err(error)
}

/// A command as the guest runs it, in the model: in the workspace, with the Rust tools at hand.
pub open spec fn guest_text(command: Seq<char>) -> Seq<char> {
    "source ~/.cargo/env && cd /workspace && "@ + command
}

/// A command as the guest runs it.
pub fn guest_command(command: &str) -> (r: String)
    ensures
        r@ == guest_text(command@),
{
    let mut out = "source ~/.cargo/env && cd /workspace && ".to_owned();
    out.append(command);
    out
}

/// An optional exit code as it is shown.
pub open spec fn shown_code(code: Option<i32>) -> Seq<char> {
    match code {
        Some(n) => "Some("@ + signed_decimal(n as int) + ")"@,
        None => "None"@,
    }
}

/// The error of a guest command that failed, in the model.
pub open spec fn guest_failure(code: Option<i32>, stdout: Seq<u8>, stderr: Seq<u8>) -> Seq<char> {
    "Guest command failed (Exit code: "@ + shown_code(code) + ")\n\n--- STDOUT ---\n"@
        + lossy_text(stdout) + "\n--- STDERR ---\n"@ + lossy_text(stderr)
}

/// Judges a command in the guest: `outcome` is what it left behind, or why it could not be run.
pub fn incus_exec(outcome: Result<CommandOutput, String>) -> (r: Result<(), String>)
    ensures
        r is Ok <==> (outcome matches Ok(output) && output.success),
        r matches Err(error) ==> error@ == match outcome {
            Ok(output) => guest_failure(output.code, output.stdout@, output.stderr@),
            Err(reason) => "Incus translation execution failure: "@ + reason@,
        },
{
    match outcome {
        Ok(output) => {
            if output.success {
                return Ok(());
            }
            let mut error = "Guest command failed (Exit code: ".to_owned();
            match output.code {
                Some(n) => {
                    error.append("Some(");
                    push_signed(&mut error, n);
                    error.append(")");
                    assert(error@ =~= "Guest command failed (Exit code: "@ + shown_code(
                        output.code,
                    ));
                },
                None => error.append("None"),
            }
            error.append(")\n\n--- STDOUT ---\n");
            error.append(decode_lossy(output.stdout.as_slice()).as_str());
            error.append("\n--- STDERR ---\n");
            error.append(decode_lossy(output.stderr.as_slice()).as_str());
            Err(error)
        },
        Err(reason) => {
            let mut error = "Incus translation execution failure: ".to_owned();
            error.append(reason.as_str());
            Err(error)
        },
    }
}

/// Where the wait for the guest stands.
#[derive(Clone, Copy, PartialEq, Eq, Structural)]
pub enum AgentStep {
    /// The guest is up.
    Ready,
    /// Pause, and ask again.
    Retry,
    /// The guest does not come up.
    TimedOut,
}

/// Where the wait for the guest stands, in the model.
pub open spec fn agent_step(asked: u32, ready: bool) -> AgentStep {
    if ready {
        AgentStep::Ready
    } else if asked < AGENT_ATTEMPTS {
        AgentStep::Retry
    } else {
        AgentStep::TimedOut
    }
}

/// The wait for the guest: `asked` is how often it was asked, the last answer included, and `ready`
/// is that answer.
pub fn await_guest_agent(asked: u32, ready: bool) -> (r: AgentStep)
    ensures
        r == agent_step(asked, ready),
        r == if ready {
            AgentStep::Ready
        } else if asked < AGENT_ATTEMPTS {
            AgentStep::Retry
        } else {
            AgentStep::TimedOut
        },
{
    if ready {
        AgentStep::Ready
    } else if asked < AGENT_ATTEMPTS {
        AgentStep::Retry
    } else {
        AgentStep::TimedOut
    }
}

/// A number with a sign: its digits, behind a minus where it is negative.
pub proof fn law_signed_numbers(n: nat)
    ensures
        signed_decimal(n as int) == decimal(n),
        n > 0 ==> signed_decimal(-n) == seq!['-'] + decimal(n),
{
    reveal_strlit("-");
    assert("-"@ =~= seq!['-']);
}

/// The error of a host command tells what was attempted, the exit code, and what the command had to
/// say, without the blanks around it; a command that a signal ended is told as minus one.
pub proof fn law_host_failures_tell_all(message: Seq<char>, code: Option<i32>, stderr: Seq<u8>)
    ensures
        code matches Some(n) ==> (n >= 0 ==> host_failure(message, code, stderr) == message
            + " (Exit code: "@ + decimal(n as nat) + ")\n\n--- STDERR ---\n"@ + trim(
            lossy_text(stderr),
        )),
        code matches Some(n) ==> (n < 0 ==> host_failure(message, code, stderr) == message
            + " (Exit code: "@ + (seq!['-'] + decimal((-n) as nat)) + ")\n\n--- STDERR ---\n"@ + trim(
            lossy_text(stderr),
        )),
        code is None ==> host_failure(message, code, stderr) == message + " (Exit code: "@ + (seq![
            '-',
        ] + decimal(1)) + ")\n\n--- STDERR ---\n"@ + trim(lossy_text(stderr)),
{
    match code {
        Some(n) => {
            if n < 0 {
                law_signed_numbers((-n) as nat);
            }
        },
        None => {
            law_signed_numbers(1);
        },
    }
}

/// The error of a guest command tells the exit code as it is and all that the command wrote.
pub proof fn law_guest_failures_tell_all(code: Option<i32>, stdout: Seq<u8>, stderr: Seq<u8>)
    ensures
        code matches Some(n) ==> guest_failure(code, stdout, stderr)
            == "Guest command failed (Exit code: "@ + ("Some("@ + signed_decimal(n as int) + ")"@)
            + ")\n\n--- STDOUT ---\n"@ + lossy_text(stdout) + "\n--- STDERR ---\n"@ + lossy_text(
            stderr,
        ),
        code is None ==> guest_failure(code, stdout, stderr) == "Guest command failed (Exit code: "@
            + "None"@ + ")\n\n--- STDOUT ---\n"@ + lossy_text(stdout) + "\n--- STDERR ---\n"@
            + lossy_text(stderr),
{
}

/// A guest command is run in the workspace, with the Rust tools at hand, and is not changed.
pub proof fn law_guest_commands_run_in_the_workspace(command: Seq<char>)
    ensures
        guest_text(command) == "source ~/.cargo/env && cd /workspace && "@ + command,
{
}

/// The guest is asked 120 times, every two seconds, before it is given up; an answer that it is up
/// always counts, however late.
pub proof fn law_guest_has_four_minutes(asked: u32, ready: bool)
    ensures
        AGENT_PAUSE_SECS == 2,
        agent_step(asked, ready) is Ready <==> ready,
        agent_step(asked, ready) is Retry <==> !ready && asked < 120,
        agent_step(asked, ready) is TimedOut <==> !ready && asked >= 120,
{
}

} // verus!
