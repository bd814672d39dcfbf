use vstd::prelude::*;

verus! {

/// The ways an operation on the process registry can fail.
///
/// Each variant carries the values that its user-visible message
/// interpolates: the offending name, or the operating-system detail text
/// that the embedding program observed.
#[derive(Debug)]
pub enum ProcError {
    /// A second process was added under a name already in use.
    AlreadyExists { name: String },
    /// The named process is not in the registry.
    NotFound { name: String },
    /// The operating system refused to create the process.
    SpawnFailed { detail: String },
    /// The spawned process came back without a readable output pipe.
    CaptureFailed,
    /// Reading the output pipe failed with an unexpected error.
    ReadFailed { detail: String },
    /// The termination request for the process failed.
    KillFailed { detail: String },
    /// Collecting the exit status of the process failed.
    WaitFailed { detail: String },
}

impl ProcError {
    /// The message text of this error, as a sequence of characters.
    pub open spec fn spec_message(self) -> Seq<char> {
        match self {
            ProcError::AlreadyExists { name } => {
                "Process with name '"@ + name@ + "' already exists"@
            },
            ProcError::NotFound { name } => "Process with name '"@ + name@ + "' not found"@,
            ProcError::SpawnFailed { detail } => "Failed to start process: "@ + detail@,
            ProcError::CaptureFailed => "Failed to capture stdout"@,
            ProcError::ReadFailed { detail } => "Failed to read stdout: "@ + detail@,
            ProcError::KillFailed { detail } => "Failed to kill process: "@ + detail@,
            ProcError::WaitFailed { detail } => "Failed to wait for process exit: "@ + detail@,
        }
    }

    /// Renders the user-visible message of this error.
    pub fn message(&self) -> (m: String)
        ensures
            m@ == self.spec_message(),
    {
        match self {
            ProcError::AlreadyExists { name } => {
                let mut m = String::from_str("Process with name '");
                m.append(name.as_str());
                m.append("' already exists");
                m
            },
            ProcError::NotFound { name } => {
                let mut m = String::from_str("Process with name '");
                m.append(name.as_str());
                m.append("' not found");
                m
            },
            ProcError::SpawnFailed { detail } => {
                let mut m = String::from_str("Failed to start process: ");
                m.append(detail.as_str());
                m
            },
            ProcError::CaptureFailed => String::from_str("Failed to capture stdout"),
            ProcError::ReadFailed { detail } => {
                let mut m = String::from_str("Failed to read stdout: ");
                m.append(detail.as_str());
                m
            },
            ProcError::KillFailed { detail } => {
                let mut m = String::from_str("Failed to kill process: ");
                m.append(detail.as_str());
                m
            },
            ProcError::WaitFailed { detail } => {
                let mut m = String::from_str("Failed to wait for process exit: ");
                m.append(detail.as_str());
                m
            },
        }
    }
}

} // verus!
