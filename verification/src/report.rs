//! What the shell tells its user when a pipeline does not run cleanly.
use vstd::prelude::*;
use vstd::string::StringExecFns;

verus! {

/// One diagnostic about a pipeline.
///
/// The first three are raised while the stages are being started; all but
/// `DirectoryChangeFailure` of those end the pipeline. The last two are raised
/// while the children are being waited for and end nothing.
#[derive(Clone, Debug, PartialEq, Eq)]
pub enum Report {
    /// A segment of the line holds no command.
    EmptyStage,
    /// `cd` stands in a line with more than one stage.
    BuiltinInPipeline,
    /// The working directory could not be changed to `target`.
    DirectoryChangeFailure { target: String, cause: String },
    /// The program `command` could not be started.
    SpawnFailure { command: String, cause: String },
    /// The exit status of `command` could not be had.
    WaitFailure { command: String, cause: String },
    /// `command` ran and did not succeed.
    NonZeroExit { command: String, status: String },
}

/// What a [`Report`] stands for.
pub enum ReportView {
    EmptyStage,
    BuiltinInPipeline,
    DirectoryChangeFailure { target: Seq<char>, cause: Seq<char> },
    SpawnFailure { command: Seq<char>, cause: Seq<char> },
    WaitFailure { command: Seq<char>, cause: Seq<char> },
    NonZeroExit { command: Seq<char>, status: Seq<char> },
}

impl ReportView {
    /// Whether a report of this kind ends the pipeline: no further stage is
    /// started after it.
    pub open spec fn aborts(self) -> bool {
        self is EmptyStage || self is BuiltinInPipeline || self is SpawnFailure
    }

    /// The report without the texts that the system supplied: what went
    /// wrong and with which command, but not the cause, the status or the
    /// directory.
    pub open spec fn class(self) -> ReportView {
        match self {
            ReportView::EmptyStage => ReportView::EmptyStage,
            ReportView::BuiltinInPipeline => ReportView::BuiltinInPipeline,
            ReportView::DirectoryChangeFailure { .. } => ReportView::DirectoryChangeFailure {
                target: Seq::empty(),
                cause: Seq::empty(),
            },
            ReportView::SpawnFailure { command, .. } => ReportView::SpawnFailure {
                command,
                cause: Seq::empty(),
            },
            ReportView::WaitFailure { command, .. } => ReportView::WaitFailure {
                command,
                cause: Seq::empty(),
            },
            ReportView::NonZeroExit { command, .. } => ReportView::NonZeroExit {
                command,
                status: Seq::empty(),
            },
        }
    }

    /// The line of text that the report is shown as.
    pub open spec fn text(self) -> Seq<char> {
        match self {
            ReportView::EmptyStage => "Error: empty command in pipeline."@,
            ReportView::BuiltinInPipeline => "'cd' cannot be part of a pipeline."@,
            ReportView::DirectoryChangeFailure { target, cause } => "Error changing directory to "@
                + target + ": "@ + cause,
            ReportView::SpawnFailure { command, cause } => "Error executing command '"@ + command
                + "': "@ + cause,
            ReportView::WaitFailure { command, cause } => "Error waiting for command '"@ + command
                + "': "@ + cause,
            ReportView::NonZeroExit { command, status } => "Command '"@ + command
                + "' failed with status: "@ + status,
        }
    }
}

impl View for Report {
    type V = ReportView;

    open spec fn view(&self) -> ReportView {
        match self {
            Report::EmptyStage => ReportView::EmptyStage,
            Report::BuiltinInPipeline => ReportView::BuiltinInPipeline,
            Report::DirectoryChangeFailure { target, cause } => ReportView::DirectoryChangeFailure {
                target: target@,
                cause: cause@,
            },
            Report::SpawnFailure { command, cause } => ReportView::SpawnFailure {
                command: command@,
                cause: cause@,
            },
            Report::WaitFailure { command, cause } => ReportView::WaitFailure {
                command: command@,
                cause: cause@,
            },
            Report::NonZeroExit { command, status } => ReportView::NonZeroExit {
                command: command@,
                status: status@,
            },
        }
    }
}

/// The view of a report that may be absent.
pub open spec fn report_view(r: Option<Report>) -> Option<ReportView> {
    match r {
        Some(r) => Some(r@),
        None => None,
    }
}

/// `head`, `first`, `middle` and `second` in one string.
fn framed(head: &str, first: &String, middle: &str, second: &String) -> (s: String)
    ensures
        s@ == head@ + first@ + middle@ + second@,
{
    let mut s = String::from_str(head);
    s.append(first.as_str());
    s.append(middle);
    s.append(second.as_str());
    s
}

impl Report {
    /// Whether this report ends the pipeline.
    pub fn aborts(&self) -> (b: bool)
        ensures
            b == self@.aborts(),
    {
        match self {
            Report::EmptyStage => true,
            Report::BuiltinInPipeline => true,
            Report::SpawnFailure { .. } => true,
            _ => false,
        }
    }

    /// The line of text to show for this report.
    pub fn message(&self) -> (s: String)
        ensures
            s@ == self@.text(),
    {
        match self {
            Report::EmptyStage => String::from_str("Error: empty command in pipeline."),
            Report::BuiltinInPipeline => String::from_str("'cd' cannot be part of a pipeline."),
            Report::DirectoryChangeFailure { target, cause } => framed(
                "Error changing directory to ",
                target,
                ": ",
                cause,
            ),
            Report::SpawnFailure { command, cause } => framed(
                "Error executing command '",
                command,
                "': ",
                cause,
            ),
            Report::WaitFailure { command, cause } => framed(
                "Error waiting for command '",
                command,
                "': ",
                cause,
            ),
            Report::NonZeroExit { command, status } => framed(
                "Command '",
                command,
                "' failed with status: ",
                status,
            ),
        }
    }
}

} // verus!
