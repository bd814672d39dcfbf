use vstd::prelude::*;

verus! {

/// The ways an operation on a polled child controller can fail: a pipe end
/// or the process handle is no longer held.
#[derive(Clone, Copy, Debug)]
pub enum ControllerError {
    StdinUnavailable,
    StdoutUnavailable,
    StderrUnavailable,
    HandleMissing,
}

impl ControllerError {
    /// The message text of this error.
    pub open spec fn spec_message(self) -> Seq<char> {
        match self {
            ControllerError::StdinUnavailable => {
                "Stdin is not available for this child process."@
            },
            ControllerError::StdoutUnavailable => {
                "Stdout is not available for this child process."@
            },
            ControllerError::StderrUnavailable => {
                "Stderr is not available for this child process."@
            },
            ControllerError::HandleMissing => {
                "Child process handle does not exist or was already taken."@
            },
        }
    }

    /// Renders the user-visible message of this error.
    pub fn message(&self) -> (m: String)
        ensures
            m@ == self.spec_message(),
    {
        match self {
            ControllerError::StdinUnavailable => {
                String::from_str("Stdin is not available for this child process.")
            },
            ControllerError::StdoutUnavailable => {
                String::from_str("Stdout is not available for this child process.")
            },
            ControllerError::StderrUnavailable => {
                String::from_str("Stderr is not available for this child process.")
            },
            ControllerError::HandleMissing => {
                String::from_str("Child process handle does not exist or was already taken.")
            },
        }
    }
}

/// How a failed pipe read was classified by the embedding program.
#[derive(Clone, Copy, Debug)]
pub enum PipeReadError {
    /// The pipe ended before the read was satisfied.
    UnexpectedEof,
    /// The other end of the pipe went away.
    BrokenPipe,
    /// Any other input/output failure.
    Other,
}

/// Whether a failed pipe read is the expected consequence of the child
/// ending and closing its pipes, rather than a genuine fault to report.
pub fn is_expected_disconnect(kind: PipeReadError) -> (r: bool)
    ensures
        r == (kind is UnexpectedEof || kind is BrokenPipe),
{
    match kind {
        PipeReadError::UnexpectedEof => true,
        PipeReadError::BrokenPipe => true,
        PipeReadError::Other => false,
    }
}

/// The state of one polled child process, as the round loop tracks it: the
/// identifier the harness chose, and which of the handle and the three pipe
/// ends are still held.
///
/// The embedding program owns the operating-system handles; every decision
/// about whether an operation may proceed, and what it sends, is taken
/// here.
pub struct ChildController {
    pub child_id: u32,
    pub stdin_available: bool,
    pub stdout_available: bool,
    pub stderr_available: bool,
    pub child_present: bool,
}

impl ChildController {
    /// The controller for a freshly spawned process: the handle and all
    /// three pipe ends were taken from the spawn and are held.
    pub fn new(id: u32) -> (c: ChildController)
        ensures
            c.child_id == id,
            c.stdin_available,
            c.stdout_available,
            c.stderr_available,
            c.child_present,
    {
        ChildController {
            child_id: id,
            stdin_available: true,
            stdout_available: true,
            stderr_available: true,
            child_present: true,
        }
    }

    /// Decides a send: while the input pipe is held, the payload to write
    /// is the command text with a line terminator appended, to be flushed
    /// at once; without the pipe the send fails.
    pub fn send_command(&self, command_text: &str) -> (r: Result<String, ControllerError>)
        ensures
            match r {
                Ok(payload) => self.stdin_available && payload@ == command_text@ + "\n"@,
                Err(e) => !self.stdin_available && e is StdinUnavailable,
            },
    {
        if self.stdin_available {
            let mut payload = command_text.to_owned();
            payload.append("\n");
            Ok(payload)
        } else {
            Err(ControllerError::StdinUnavailable)
        }
    }

    /// Decides a read of the output pipe: allowed exactly while its end is
    /// held.
    pub fn read_output(&self) -> (r: Result<(), ControllerError>)
        ensures
            match r {
                Ok(()) => self.stdout_available,
                Err(e) => !self.stdout_available && e is StdoutUnavailable,
            },
    {
        if self.stdout_available {
            Ok(())
        } else {
            Err(ControllerError::StdoutUnavailable)
        }
    }

    /// Decides a read of the error pipe: allowed exactly while its end is
    /// held.
    pub fn read_error_output(&self) -> (r: Result<(), ControllerError>)
        ensures
            match r {
                Ok(()) => self.stderr_available,
                Err(e) => !self.stderr_available && e is StderrUnavailable,
            },
    {
        if self.stderr_available {
            Ok(())
        } else {
            Err(ControllerError::StderrUnavailable)
        }
    }

    /// Decides a blocking wait for the child's exit status: allowed exactly
    /// while the process handle is held.
    pub fn wait(&self) -> (r: Result<(), ControllerError>)
        ensures
            match r {
                Ok(()) => self.child_present,
                Err(e) => !self.child_present && e is HandleMissing,
            },
    {
        if self.child_present {
            Ok(())
        } else {
            Err(ControllerError::HandleMissing)
        }
    }
}

/// The character for one decimal digit.
pub open spec fn dec_digit(d: nat) -> char {
    if d == 0 {
        '0'
    } else if d == 1 {
        '1'
    } else if d == 2 {
        '2'
    } else if d == 3 {
        '3'
    } else if d == 4 {
        '4'
    } else if d == 5 {
        '5'
    } else if d == 6 {
        '6'
    } else if d == 7 {
        '7'
    } else if d == 8 {
        '8'
    } else {
        '9'
    }
}

/// The decimal digits of `n`, most significant first, without a sign and
/// without leading zeros (except for `n == 0` itself).
pub open spec fn dec_string(n: nat) -> Seq<char>
    decreases n,
{
    if n < 10 {
        seq![dec_digit(n)]
    } else {
        dec_string(n / 10).push(dec_digit(n % 10))
    }
}

/// The string slice for one decimal digit.
fn digit_str(d: u32) -> (s: &'static str)
    requires
        d < 10,
    ensures
        s@ == seq![dec_digit(d as nat)],
{
    let s: &'static str = match d {
        0 => "0",
        1 => "1",
        2 => "2",
        3 => "3",
        4 => "4",
        5 => "5",
        6 => "6",
        7 => "7",
        8 => "8",
        _ => "9",
    };
    proof {
        reveal_strlit("0");
        reveal_strlit("1");
        reveal_strlit("2");
        reveal_strlit("3");
        reveal_strlit("4");
        reveal_strlit("5");
        reveal_strlit("6");
        reveal_strlit("7");
        reveal_strlit("8");
        reveal_strlit("9");
        assert(s@ =~= seq![dec_digit(d as nat)]);
    }
    s
}

/// Renders `n` in decimal.
pub fn u32_to_decimal(n: u32) -> (s: String)
    ensures
        s@ == dec_string(n as nat),
    decreases n,
{
    if n < 10 {
        digit_str(n).to_owned()
    } else {
        let mut s = u32_to_decimal(n / 10);
        s.append(digit_str(n % 10));
        proof {
            assert(s@ =~= dec_string((n / 10) as nat).push(dec_digit((n % 10) as nat)));
        }
        s
    }
}

/// The synthetic command line that round `query_idx` sends to the child
/// with identifier `child_id`.
pub fn query_command(query_idx: u32, child_id: u32) -> (s: String)
    ensures
        s@ == "This is query #"@ + dec_string(query_idx as nat) + " for child "@ + dec_string(
            child_id as nat,
        ),
{
    let mut s = String::from_str("This is query #");
    let q = u32_to_decimal(query_idx);
    s.append(q.as_str());
    s.append(" for child ");
    let c = u32_to_decimal(child_id);
    s.append(c.as_str());
    s
}

} // verus!
