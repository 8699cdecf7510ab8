//! The page that lists the watched processes.
#![allow(non_snake_case)]
use vstd::prelude::*;
use vstd::string::*;

use crate::dispatch::CDispatch;
use crate::process::status::{CStatusInfo, all_statuses};
use crate::process::StatusView;
use crate::strings::{append_int, int_text};
use crate::templates::html::{htmlEndDefine, htmlStartDefine};

verus! {

/// The script lines that show one process.
pub open spec fn entry_text(info: CStatusInfo) -> Seq<char> {
    let state = match info.status@ {
        StatusView::Stoped | StatusView::Unknow => "obj.state = 'stopped';"@
            + "obj.description = 'unknow';"@,
        _ => "obj.state = 'running';"@ + "obj.description = '"@ + "pid: "@ + int_text(
            info.pid as int,
        ) + ", runtime: "@ + info.runTime@ + "';"@,
    };
    state + "obj.name = '"@ + info.name@ + "';"@ + "create(obj);"@
}

/// The script lines that show each process, in order.
pub open spec fn entries_text(s: Seq<CStatusInfo>) -> Seq<char>
    decreases s.len(),
{
    if s.len() == 0 {
        seq![]
    } else {
        entries_text(s.drop_last()) + entry_text(s.last())
    }
}

/// The page for these statuses.
pub fn indexContent(statuses: &Vec<CStatusInfo>) -> (r: String)
    ensures
        r@ == htmlStartDefine@ + entries_text(statuses@) + htmlEndDefine@,
{
    let mut content = String::new();
    content.append(htmlStartDefine);
    let mut i: usize = 0;
    while i < statuses.len()
        invariant
            0 <= i <= statuses@.len(),
            content@ == htmlStartDefine@ + entries_text(statuses@.take(i as int)),
        decreases statuses@.len() - i,
    {
        let ghost before = content@;
        let info = &statuses[i];
        match info.status {
            crate::process::ProcessStatus::Stoped | crate::process::ProcessStatus::Unknow => {
                content.append("obj.state = 'stopped';");
                content.append("obj.description = 'unknow';");
            },
            _ => {
                content.append("obj.state = 'running';");
                content.append("obj.description = '");
                content.append("pid: ");
                append_int(&mut content, info.pid as i64);
                content.append(", runtime: ");
                content.append(info.runTime.as_str());
                content.append("';");
            },
        }
        content.append("obj.name = '");
        content.append(info.name.as_str());
        content.append("';");
        content.append("create(obj);");
        proof {
            assert(statuses@.take(i + 1).drop_last() =~= statuses@.take(i as int));
            assert(content@ =~= before + entry_text(statuses@[i as int]));
            assert(content@ =~= htmlStartDefine@ + entries_text(statuses@.take(i + 1)));
        }
        i = i + 1;
    }
    assert(statuses@.take(statuses@.len() as int) =~= statuses@);
    content.append(htmlEndDefine);
    content
}

/// Serves the page that lists the watched processes.
pub struct CIndexHandler {}

impl CIndexHandler {
    pub fn new() -> CIndexHandler {
        CIndexHandler {  }
    }

    /// The page with the status of every process.
    pub fn handler(&self, dispatch: &mut CDispatch) -> (r: String)
        requires
            old(dispatch).wf(),
        ensures
            final(dispatch).wf(),
            final(dispatch).control() == old(dispatch).control(),
            final(dispatch).spec_path() == old(dispatch).spec_path(),
            exists|s: Seq<CStatusInfo>|
                #[trigger] all_statuses(s, old(dispatch).control().processes(), old(dispatch).control().pid_map())
                    && r@ == htmlStartDefine@ + entries_text(s) + htmlEndDefine@,
    {
        match dispatch.getAllRunStatus() {
            Ok(statuses) => {
                let r = indexContent(&statuses);
                assert(all_statuses(
                    statuses@,
                    old(dispatch).control().processes(),
                    old(dispatch).control().pid_map(),
                ));
                r
            },
            Err(_) => {
                let none: Vec<CStatusInfo> = Vec::new();
                indexContent(&none)
            },
        }
    }
}

} // verus!
