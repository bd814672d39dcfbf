use vstd::prelude::*;

use crate::controller::{dec_string, u32_to_decimal};

verus! {

/// The ways a one-shot script execution can fail.
#[derive(Debug)]
pub enum ScriptError {
    /// No interpreter stands at the given path.
    InterpreterMissing { path: String },
    /// No script stands at the given path.
    ScriptMissing { path: String },
    /// The command could not be executed at all.
    LaunchFailed { detail: String },
    /// The command ran and exited unsuccessfully.
    Failed { exit_code: i32, stderr: String },
}

/// The decimal rendering of a possibly negative number: a sign followed by
/// the digits of its magnitude.
pub open spec fn int_dec_string(n: int) -> Seq<char> {
    if n < 0 {
        seq!['-'] + dec_string((-n) as nat)
    } else {
        dec_string(n as nat)
    }
}

/// Renders `n` in decimal, with a sign when negative.
pub fn i32_to_decimal(n: i32) -> (s: String)
    ensures
        s@ == int_dec_string(n as int),
{
    if n < 0 {
        let magnitude: u32 = (-(n as i64)) as u32;
        let mut s = String::from_str("-");
        let digits = u32_to_decimal(magnitude);
        s.append(digits.as_str());
        proof {
            reveal_strlit("-");
            assert(s@ =~= seq!['-'] + dec_string((-(n as int)) as nat));
        }
        s
    } else {
        u32_to_decimal(n as u32)
    }
}

impl ScriptError {
    /// The message text of this error.
    pub open spec fn spec_message(self) -> Seq<char> {
        match self {
            ScriptError::InterpreterMissing { path } => {
                "Python interpreter not found at path: "@ + path@
            },
            ScriptError::ScriptMissing { path } => "Python script not found at path: "@ + path@,
            ScriptError::LaunchFailed { detail } => "Failed to execute command: "@ + detail@,
            ScriptError::Failed { exit_code, stderr } => {
                "Command failed with exit code "@ + int_dec_string(exit_code as int) + ":\n"@
                    + stderr@
            },
        }
    }

    /// Renders the user-visible message of this error.
    pub fn message(&self) -> (m: String)
        ensures
            m@ == self.spec_message(),
    {
        match self {
            ScriptError::InterpreterMissing { path } => {
                let mut m = String::from_str("Python interpreter not found at path: ");
                m.append(path.as_str());
                m
            },
            ScriptError::ScriptMissing { path } => {
                let mut m = String::from_str("Python script not found at path: ");
                m.append(path.as_str());
                m
            },
            ScriptError::LaunchFailed { detail } => {
                let mut m = String::from_str("Failed to execute command: ");
                m.append(detail.as_str());
                m
            },
            ScriptError::Failed { exit_code, stderr } => {
                let mut m = String::from_str("Command failed with exit code ");
                let code = i32_to_decimal(*exit_code);
                m.append(code.as_str());
                m.append(":\n");
                m.append(stderr.as_str());
                m
            },
        }
    }
}

/// What a completed run of the command produced, as the embedding program
/// captured it.
pub struct ExecOutcome {
    /// Whether the exit status reported success.
    pub success: bool,
    /// The exit code, where the operating system reported one.
    pub exit_code: Option<i32>,
    /// Everything the command wrote to its output stream.
    pub stdout: String,
    /// Everything the command wrote to its error stream.
    pub stderr: String,
}

/// Validates the interpreter and script paths before anything is launched:
/// the interpreter is checked first, and nothing runs unless both exist.
/// The embedding program reports whether each path exists on disk.
pub fn check_script_paths(
    python_path: &str,
    script_path: &str,
    python_exists: bool,
    script_exists: bool,
) -> (r: Result<(), ScriptError>)
    ensures
        match r {
            Ok(()) => python_exists && script_exists,
            Err(e) => match e {
                ScriptError::InterpreterMissing { path } => {
                    !python_exists && path@ == python_path@
                },
                ScriptError::ScriptMissing { path } => {
                    python_exists && !script_exists && path@ == script_path@
                },
                _ => false,
            },
        },
{
    if !python_exists {
        Err(ScriptError::InterpreterMissing { path: python_path.to_owned() })
    } else if !script_exists {
        Err(ScriptError::ScriptMissing { path: script_path.to_owned() })
    } else {
        Ok(())
    }
}

/// Classifies a completed run: a successful exit status yields the captured
/// output, an unsuccessful one the exit code — `-1` where the operating
/// system reported none — together with the captured error stream.
pub fn script_result(outcome: ExecOutcome) -> (r: Result<String, ScriptError>)
    ensures
        match r {
            Ok(out) => outcome.success && out == outcome.stdout,
            Err(e) => match e {
                ScriptError::Failed { exit_code, stderr } => {
                    &&& !outcome.success
                    &&& stderr == outcome.stderr
                    &&& match outcome.exit_code {
                        Some(c) => exit_code == c,
                        None => exit_code == -1,
                    }
                },
                _ => false,
            },
        },
{
    let ExecOutcome { success, exit_code, stdout, stderr } = outcome;
    if success {
        Ok(stdout)
    } else {
        let code: i32 = match exit_code {
            Some(c) => c,
            None => -1,
        };
        Err(ScriptError::Failed { exit_code: code, stderr })
    }
}

} // verus!
