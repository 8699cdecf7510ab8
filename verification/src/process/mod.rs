//! Processes under watch: their states, the table of their pids, and the
//! rules by which they are started, stopped and restarted.
use vstd::prelude::*;

pub mod pids;
pub mod control;
pub mod status;
pub mod check;


verus! {

/// Where a watched process stands.
#[derive(Debug)]
pub enum ProcessStatus {
    Starting,
    Running,
    Stoped,
    Failed(String),
    QuickExit,
    Unknow,
}

/// The abstract value of a `ProcessStatus`.
pub enum StatusView {
    Starting,
    Running,
    Stoped,
    Failed(Seq<char>),
    QuickExit,
    Unknow,
}

impl View for ProcessStatus {
    type V = StatusView;

    open spec fn view(&self) -> StatusView {
        match self {
            ProcessStatus::Starting => StatusView::Starting,
            ProcessStatus::Running => StatusView::Running,
            ProcessStatus::Stoped => StatusView::Stoped,
            ProcessStatus::Failed(s) => StatusView::Failed(s@),
            ProcessStatus::QuickExit => StatusView::QuickExit,
            ProcessStatus::Unknow => StatusView::Unknow,
        }
    }
}

impl ProcessStatus {
    /// A copy of this status.
    pub fn duplicate(&self) -> (r: ProcessStatus)
        ensures
            r@ == self@,
    {
        match self {
            ProcessStatus::Starting => ProcessStatus::Starting,
            ProcessStatus::Running => ProcessStatus::Running,
            ProcessStatus::Stoped => ProcessStatus::Stoped,
            ProcessStatus::Failed(s) => ProcessStatus::Failed(s.clone()),
            ProcessStatus::QuickExit => ProcessStatus::QuickExit,
            ProcessStatus::Unknow => ProcessStatus::Unknow,
        }
    }
}

/// The text that names a status in the JSON answers: the variant's name,
/// and for a failure the reason after a colon and a space.
pub open spec fn status_desc(s: StatusView) -> Seq<char> {
    match s {
        StatusView::Starting => "Starting"@,
        StatusView::Running => "Running"@,
        StatusView::Stoped => "Stoped"@,
        StatusView::Failed(reason) => "Failed: "@ + reason,
        StatusView::QuickExit => "QuickExit"@,
        StatusView::Unknow => "Unknow"@,
    }
}

pub fn to_status_desc(status: &ProcessStatus) -> (r: String)
    ensures
        r@ == status_desc(status@),
{
    match status {
        ProcessStatus::Starting => "Starting".to_owned(),
        ProcessStatus::Running => "Running".to_owned(),
        ProcessStatus::Stoped => "Stoped".to_owned(),
        ProcessStatus::Failed(reason) => {
            let mut s = "Failed: ".to_owned();
            s.append(reason.as_str());
            s
        },
        ProcessStatus::QuickExit => "QuickExit".to_owned(),
        ProcessStatus::Unknow => "Unknow".to_owned(),
    }
}

} // verus!
