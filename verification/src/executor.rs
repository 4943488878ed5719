//! Outcome classification for commands run through the interactive privilege
//! broker, and for plain command captures.
//!
//! The three failure classes stay distinguishable: an authentication denial
//! or cancellation (exit code 127 or a denial phrase on stderr), any other
//! non-zero exit, and a failure to spawn the broker at all. Each class keeps
//! its own message shape so callers can choose different handling.

use vstd::prelude::*;

use crate::model::CommandResult;
use crate::text::{contains_str, has_substring, trim, trim_ws};

verus! {

// --- Decimal rendering of exit codes ---

pub open spec fn dec_digit(d: int) -> char {
    if d == 0 {
        '0'
    } else if d == 1 {
        '1'
    } else if d == 2 {
        '2'
    } else if d == 3 {
        '3'
    } else if d == 4 {
        '4'
    } else if d == 5 {
        '5'
    } else if d == 6 {
        '6'
    } else if d == 7 {
        '7'
    } else if d == 8 {
        '8'
    } else {
        '9'
    }
}

pub open spec fn nat_dec_str(n: int) -> Seq<char>
    decreases n,
{
    if n < 10 {
        seq![dec_digit(n)]
    } else {
        nat_dec_str(n / 10) + seq![dec_digit(n % 10)]
    }
}

/// The usual decimal rendering of an integer.
pub open spec fn int_dec_str(n: int) -> Seq<char> {
    if n < 0 {
        seq!['-'] + nat_dec_str(-n)
    } else {
        nat_dec_str(n)
    }
}

fn digit_str(d: u64) -> (r: &'static str)
    requires
        d < 10,
    ensures
        r@ == seq![dec_digit(d as int)],
{
    proof {
        reveal_strlit("0");
        reveal_strlit("1");
        reveal_strlit("2");
        reveal_strlit("3");
        reveal_strlit("4");
        reveal_strlit("5");
        reveal_strlit("6");
        reveal_strlit("7");
        reveal_strlit("8");
        reveal_strlit("9");
    }
    if d == 0 {
        "0"
    } else if d == 1 {
        "1"
    } else if d == 2 {
        "2"
    } else if d == 3 {
        "3"
    } else if d == 4 {
        "4"
    } else if d == 5 {
        "5"
    } else if d == 6 {
        "6"
    } else if d == 7 {
        "7"
    } else if d == 8 {
        "8"
    } else {
        "9"
    }
}

/// Render an exit code in decimal, as `int_dec_str` describes.
pub fn i32_to_string(n: i32) -> (r: String)
    ensures
        r@ == int_dec_str(n as int),
{
    let wide: i64 = n as i64;
    let neg = wide < 0;
    let mut m: u64 = if neg {
        (-wide) as u64
    } else {
        wide as u64
    };
    let ghost mag = m as int;
    let d0 = m % 10;
    let mut acc = digit_str(d0).to_owned();
    m = m / 10;
    proof {
        if mag < 10 {
            assert(acc@ =~= nat_dec_str(mag));
        } else {
            assert(acc@ =~= nat_dec_str(mag % 10));
        }
    }
    while m > 0
        invariant
            nat_dec_str(mag) == if m > 0 {
                nat_dec_str(m as int) + acc@
            } else {
                acc@
            },
        decreases m,
    {
        let ghost m_old = m as int;
        let d = m % 10;
        acc = digit_str(d).to_owned().concat(acc.as_str());
        m = m / 10;
        proof {
            if m_old < 10 {
                assert(nat_dec_str(m_old) =~= seq![dec_digit(m_old)]);
                assert(nat_dec_str(mag) =~= acc@);
            } else {
                assert(nat_dec_str(m_old) == nat_dec_str(m_old / 10) + seq![
                    dec_digit(m_old % 10),
                ]);
                assert(nat_dec_str(mag) =~= nat_dec_str(m as int) + acc@);
            }
        }
    }
    if neg {
        let r = String::from_str("-").concat(acc.as_str());
        proof {
            reveal_strlit("-");
            assert(r@ =~= int_dec_str(n as int));
        }
        r
    } else {
        proof {
            assert(acc@ =~= int_dec_str(n as int));
        }
        acc
    }
}

// --- Broker outcome classification ---

/// The closed set of broker outcomes. Substring heuristics on stderr and the
/// broker's conventional exit code decide between a denial and an ordinary
/// command failure.
#[derive(Clone, Copy, Debug, PartialEq, Eq, Structural)]
pub enum BrokerOutcomeKind {
    Succeeded,
    AuthDenied,
    CommandFailed,
}

/// The exit code used in messages: `-1` stands for an exit without a code.
pub open spec fn effective_code(exit_code: Option<i32>) -> int {
    match exit_code {
        Some(c) => c as int,
        None => -1,
    }
}

/// Authentication denial or cancellation: the broker's conventional exit
/// code, or a denial phrase on stderr.
pub open spec fn is_auth_denial(code: int, stderr: Seq<char>) -> bool {
    has_substring(stderr, "not authorized"@) || code == 127 || has_substring(
        stderr,
        "authentication failed"@,
    )
}

pub open spec fn classify_broker_spec(exit_code: Option<i32>, stderr: Seq<char>) -> BrokerOutcomeKind {
    if exit_code == Some(0i32) {
        BrokerOutcomeKind::Succeeded
    } else if is_auth_denial(effective_code(exit_code), stderr) {
        BrokerOutcomeKind::AuthDenied
    } else {
        BrokerOutcomeKind::CommandFailed
    }
}

pub open spec fn combined_output(stdout: Seq<char>, stderr: Seq<char>) -> Seq<char> {
    stdout + "\n"@ + stderr
}

pub open spec fn denied_message(code: int) -> Seq<char> {
    "Root permission denied or cancelled by user. (Exit Code: "@ + int_dec_str(code) + ")"@
}

pub open spec fn failed_message(code: int, combined: Seq<char>) -> Seq<char> {
    "Elevated command failed (Exit Code: "@ + int_dec_str(code) + "). Output: "@ + combined
}

/// Classify a broker exit into the closed outcome set.
pub fn classify_broker_kind(exit_code: Option<i32>, stderr: &str) -> (k: BrokerOutcomeKind)
    ensures
        k == classify_broker_spec(exit_code, stderr@),
{
    let code: i32 = match exit_code {
        Some(c) => c,
        None => -1,
    };
    if match exit_code {
        Some(c) => c == 0,
        None => false,
    } {
        BrokerOutcomeKind::Succeeded
    } else if contains_str(stderr, "not authorized") || code == 127 || contains_str(
        stderr,
        "authentication failed",
    ) {
        BrokerOutcomeKind::AuthDenied
    } else {
        BrokerOutcomeKind::CommandFailed
    }
}

/// Classify the completed broker run and build its outcome: the combined
/// output on success, the denial message (with the exit code) on an
/// authentication denial, and the failure message (with code and output)
/// otherwise.
pub fn classify_broker_exit(exit_code: Option<i32>, stdout: &str, stderr: &str) -> (r:
    CommandResult)
    ensures
        r.success <==> classify_broker_spec(exit_code, stderr@) == BrokerOutcomeKind::Succeeded,
        r.success ==> r.message@ == combined_output(stdout@, stderr@),
        classify_broker_spec(exit_code, stderr@) == BrokerOutcomeKind::AuthDenied
            ==> r.message@ == denied_message(effective_code(exit_code)),
        classify_broker_spec(exit_code, stderr@) == BrokerOutcomeKind::CommandFailed
            ==> r.message@ == failed_message(
            effective_code(exit_code),
            combined_output(stdout@, stderr@),
        ),
{
    let combined = stdout.to_owned().concat("\n").concat(stderr);
    proof {
        assert(combined@ =~= combined_output(stdout@, stderr@));
    }
    match classify_broker_kind(exit_code, stderr) {
        BrokerOutcomeKind::Succeeded => CommandResult::ok(combined),
        BrokerOutcomeKind::AuthDenied => {
            let code: i32 = match exit_code {
                Some(c) => c,
                None => -1,
            };
            let msg = String::from_str("Root permission denied or cancelled by user. (Exit Code: ")
                .concat(i32_to_string(code).as_str()).concat(")");
            proof {
                assert(msg@ =~= denied_message(effective_code(exit_code)));
            }
            CommandResult::error(msg)
        },
        BrokerOutcomeKind::CommandFailed => {
            let code: i32 = match exit_code {
                Some(c) => c,
                None => -1,
            };
            let msg = String::from_str("Elevated command failed (Exit Code: ").concat(
                i32_to_string(code).as_str(),
            ).concat("). Output: ").concat(combined.as_str());
            proof {
                assert(msg@ =~= failed_message(
                    effective_code(exit_code),
                    combined_output(stdout@, stderr@),
                ));
            }
            CommandResult::error(msg)
        },
    }
}

/// The outcome when the broker process could not be spawned at all: a class
/// of its own, distinct from any execution failure.
pub fn spawn_failure_result(spawn_error: &str) -> (r: CommandResult)
    ensures
        !r.success,
        r.message@ == "Failed to spawn pkexec process: "@ + spawn_error@,
{
    CommandResult::error(
        String::from_str("Failed to spawn pkexec process: ").concat(spawn_error),
    )
}

// --- Plain command captures ---

/// Shape the capture of an ordinary (unprivileged) command: its trimmed
/// stdout on success, a message naming the command and carrying stderr on
/// failure.
pub fn command_capture_result(cmd: &str, success: bool, stdout: &str, stderr: &str) -> (r: Result<
    String,
    String,
>)
    ensures
        r is Ok <==> success,
        r matches Ok(o) ==> o@ == trim_ws(stdout@),
        r matches Err(e) ==> e@ == "Command failed: "@ + cmd@ + " "@ + stderr@,
{
    if success {
        Ok(trim(stdout).to_owned())
    } else {
        Err(String::from_str("Command failed: ").concat(cmd).concat(" ").concat(stderr))
    }
}

/// Shape a probe capture: trimmed stdout on success, trimmed stderr as the
/// error otherwise.
pub fn probe_capture_result(success: bool, stdout: &str, stderr: &str) -> (r: Result<
    String,
    String,
>)
    ensures
        r is Ok <==> success,
        r matches Ok(o) ==> o@ == trim_ws(stdout@),
        r matches Err(e) ==> e@ == trim_ws(stderr@),
{
    if success {
        Ok(trim(stdout).to_owned())
    } else {
        Err(trim(stderr).to_owned())
    }
}

} // verus!
