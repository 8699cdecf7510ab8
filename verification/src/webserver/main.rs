//! The first web server of the watchdog: it finds processes by name in the
//! machine's process list and keeps the process list itself.
#![allow(non_snake_case)]
use vstd::prelude::*;

use super::handlers::index::{entries_text, indexContent};
use super::handlers::HttpMethod;
use crate::config::{Process, set_auto};
use crate::process::status::{CStatusInfo, dhms_text, elapsed, process_runtime_default, runTimeOf};
use crate::process::{ProcessStatus, StatusView};
use crate::strings::{contains_text, has_infix, str_eq};
use crate::sys;
use crate::templates::html::{htmlEndDefine, htmlStartDefine};

verus! {

/// The handler that serves a request.
#[derive(PartialEq, Eq, Structural, Debug, Clone, Copy)]
pub enum LegacyRoute {
    Index,
    Stop,
    Restart,
    StopAll,
    RestartAll,
    Script,
    Favicon,
    Unrouted,
}

/// The handler for a request with `method` and `url`; the page is served
/// for any GET whose URL holds `/index`.
pub open spec fn legacy_route_of(method: HttpMethod, url: Seq<char>) -> LegacyRoute {
    if method == HttpMethod::Get && has_infix(url, "/index"@) {
        LegacyRoute::Index
    } else if method == HttpMethod::Post && url == "/stop"@ {
        LegacyRoute::Stop
    } else if method == HttpMethod::Post && url == "/restart"@ {
        LegacyRoute::Restart
    } else if method == HttpMethod::Post && url == "/stop/all"@ {
        LegacyRoute::StopAll
    } else if method == HttpMethod::Post && url == "/restart/all"@ {
        LegacyRoute::RestartAll
    } else if method == HttpMethod::Get && url == "/js/jquery-3.3.1.min.js"@ {
        LegacyRoute::Script
    } else if method == HttpMethod::Get && url == "/favicon.ico"@ {
        LegacyRoute::Favicon
    } else {
        LegacyRoute::Unrouted
    }
}

/// The line of the page for configured process `name`: stopped when the
/// machine runs no process of that name, otherwise running with the pid and
/// the run time of the first one (`unknow` when the run time is out of range).
pub open spec fn legacy_entry(info: CStatusInfo, name: Seq<char>, running: Option<(i32, u64)>, now: i64) -> bool {
    &&& info.name@ == name
    &&& match running {
        None => info.status@ == StatusView::Stoped,
        Some((pid, start)) => {
            &&& info.status@ == StatusView::Running
            &&& info.pid == pid
            &&& info.runTime@ == if -crate::process::status::MAX_DURATION_SECS <= elapsed(start, now)
                <= crate::process::status::MAX_DURATION_SECS {
                dhms_text(elapsed(start, now))
            } else {
                process_runtime_default@
            }
        },
    }
}

/// The lines `s` of the page for processes `ps` at time `now`, where `run`
/// tells what the machine runs under each name: one line per process, in
/// order, as `legacy_entry` gives it.
pub open spec fn legacy_page(
    s: Seq<CStatusInfo>,
    ps: Seq<Process>,
    run: Seq<Option<(i32, u64)>>,
    now: i64,
) -> bool {
    &&& s.len() == ps.len()
    &&& run.len() == ps.len()
    &&& forall|i: int| 0 <= i < s.len() ==> legacy_entry(#[trigger] s[i], ps[i].name@, run[i], now)
}

/// The status line of configured process `name`, given what the machine
/// runs under that name.
pub fn legacyEntry(name: &str, running: Option<(i32, u64)>, now: i64) -> (r: CStatusInfo)
    ensures
        legacy_entry(r, name@, running, now),
{
    match running {
        None => CStatusInfo {
            pid: -1,
            runTime: String::new(),
            status: ProcessStatus::Stoped,
            name: name.to_owned(),
        },
        Some((pid, start)) => {
            let runTime = match runTimeOf(start, now) {
                Some(t) => t,
                None => process_runtime_default.to_owned(),
            };
            CStatusInfo { pid, runTime, status: ProcessStatus::Running, name: name.to_owned() }
        },
    }
}

/// After `POST /stop` (`auto` false) or `POST /restart` (`auto` true) for
/// `name`, processes `ps` became `qs` with answer `r`: either the first
/// process of that name was given `isAuto == auto` and the answer is
/// `success`, or nothing changed and there is no answer.
pub open spec fn legacy_answered(
    ps: Seq<Process>,
    name: Seq<char>,
    auto: bool,
    qs: Seq<Process>,
    r: Option<String>,
) -> bool {
    ||| qs == set_auto(ps, name, auto) && (r matches Some(t) && t@ == "success"@)
    ||| qs == ps && r is None
}

/// The first web server's state.
pub struct CServer {
    system: sysinfo::System,
    processes: Vec<Process>,
}

impl CServer {
    /// The configured processes.
    pub closed spec fn processes(&self) -> Seq<Process> {
        self.processes@
    }

    pub fn new(processes: Vec<Process>) -> (r: CServer)
        ensures
            r.processes() == processes@,
    {
        CServer { system: sys::system_new(), processes }
    }

    /// The handler for a request with `method` and `url`.
    pub fn route(method: HttpMethod, url: &str) -> (r: LegacyRoute)
        ensures
            r == legacy_route_of(method, url@),
    {
        if method == HttpMethod::Get && contains_text(url, "/index") {
            LegacyRoute::Index
        } else if method == HttpMethod::Post && str_eq(url, "/stop") {
            LegacyRoute::Stop
        } else if method == HttpMethod::Post && str_eq(url, "/restart") {
            LegacyRoute::Restart
        } else if method == HttpMethod::Post && str_eq(url, "/stop/all") {
            LegacyRoute::StopAll
        } else if method == HttpMethod::Post && str_eq(url, "/restart/all") {
            LegacyRoute::RestartAll
        } else if method == HttpMethod::Get && str_eq(url, "/js/jquery-3.3.1.min.js") {
            LegacyRoute::Script
        } else if method == HttpMethod::Get && str_eq(url, "/favicon.ico") {
            LegacyRoute::Favicon
        } else {
            LegacyRoute::Unrouted
        }
    }

    fn setAuto(&mut self, name: &str, isAuto: bool)
        ensures
            final(self).processes() == set_auto(old(self).processes(), name@, isAuto),
    {
        let mut index: usize = 0;
        while index < self.processes.len()
            invariant
                self.processes@ == old(self).processes(),
                0 <= index <= self.processes@.len(),
                forall|j: int| 0 <= j < index ==> (#[trigger] self.processes@[j]).name@ != name@,
            decreases self.processes@.len() - index,
        {
            if str_eq(self.processes[index].name.as_str(), name) {
                proof {
                    crate::config::lemma_first_named(self.processes@, name@, index as int);
                }
                self.processes[index].isAuto = isAuto;
                assert(self.processes@ =~= set_auto(old(self).processes(), name@, isAuto));
                return;
            }
            index = index + 1;
        }
        proof {
            crate::config::lemma_no_first_named(self.processes@, name@);
        }
    }

    /// Kills the first process of the machine whose name contains `name`:
    /// `None` when there is none, otherwise that process's name and whether
    /// the kill succeeded.
    fn killFirstByName(&self, name: &str) -> (r: Option<(String, bool)>)
        ensures
            r matches Some(k) ==> has_infix(k.0@, name@),
    {
        let found = sys::get_process_by_name(&self.system, name);
        if found.len() == 0 {
            None
        } else {
            let killed = sys::kill_process(found[0].proc, sys::Signal::Kill);
            Some((found[0].name.clone(), killed))
        }
    }

    /// The answer to `POST /stop` for `name`, given the outcome of killing
    /// the first process of that name (`None`: none runs).  A successful kill
    /// makes the process not automatic and is answered `success`; otherwise
    /// there is no answer.
    pub fn applyStop(&mut self, name: &str, outcome: Option<bool>) -> (r: Option<String>)
        ensures
            outcome == Some(true) ==> final(self).processes() == set_auto(
                old(self).processes(),
                name@,
                false,
            ) && (r matches Some(t) && t@ == "success"@),
            outcome != Some(true) ==> final(self).processes() == old(self).processes() && r is None,
    {
        match outcome {
            Some(true) => {
                self.setAuto(name, false);
                Some("success".to_owned())
            },
            _ => None,
        }
    }

    /// The answer to `POST /restart` for `name`, given the outcome of killing
    /// the first process of that name (`None`: none runs).  Unless a kill
    /// failed, the process is made automatic and the answer is `success`.
    pub fn applyRestart(&mut self, name: &str, outcome: Option<bool>) -> (r: Option<String>)
        ensures
            outcome != Some(false) ==> final(self).processes() == set_auto(
                old(self).processes(),
                name@,
                true,
            ) && (r matches Some(t) && t@ == "success"@),
            outcome == Some(false) ==> final(self).processes() == old(self).processes() && r is None,
    {
        match outcome {
            Some(false) => None,
            _ => {
                self.setAuto(name, true);
                Some("success".to_owned())
            },
        }
    }

    /// `POST /stop`: kills the first process named `name` the machine runs.
    pub fn stop(&mut self, name: &str) -> (r: Option<String>)
        ensures
            legacy_answered(old(self).processes(), name@, false, final(self).processes(), r),
    {
        sys::refresh_all(&mut self.system);
        let outcome = match self.killFirstByName(name) {
            Some((_, killed)) => Some(killed),
            None => None,
        };
        self.applyStop(name, outcome)
    }

    /// `POST /restart`: kills the first process named `name` the machine
    /// runs, and makes it automatic so that it is started again.
    pub fn restart(&mut self, name: &str) -> (r: Option<String>)
        ensures
            legacy_answered(old(self).processes(), name@, true, final(self).processes(), r),
    {
        sys::refresh_all(&mut self.system);
        let outcome = match self.killFirstByName(name) {
            Some((_, killed)) => Some(killed),
            None => None,
        };
        self.applyRestart(name, outcome)
    }

    /// The processes after `POST /stop/all`, given for each configured
    /// process the outcome of killing the first machine process of its name:
    /// each one killed is no longer automatic.
    pub fn applyStopAll(&mut self, outcomes: &Vec<Option<bool>>) -> (r: String)
        requires
            outcomes@.len() == old(self).processes().len(),
        ensures
            r@ == "success"@,
            final(self).processes().len() == old(self).processes().len(),
            forall|i: int|
                0 <= i < old(self).processes().len() ==> #[trigger] final(self).processes()[i]
                    == if outcomes@[i] == Some(true) {
                    Process { isAuto: false, ..old(self).processes()[i] }
                } else {
                    old(self).processes()[i]
                },
    {
        let mut i: usize = 0;
        while i < self.processes.len()
            invariant
                outcomes@.len() == old(self).processes().len(),
                self.processes@.len() == old(self).processes().len(),
                0 <= i <= self.processes@.len(),
                forall|k: int|
                    0 <= k < self.processes@.len() ==> #[trigger] self.processes@[k] == if k < i
                        && outcomes@[k] == Some(true) {
                        Process { isAuto: false, ..old(self).processes()[k] }
                    } else {
                        old(self).processes()[k]
                    },
            decreases self.processes@.len() - i,
        {
            match outcomes[i] {
                Some(true) => {
                    self.processes[i].isAuto = false;
                },
                _ => {},
            }
            i = i + 1;
        }
        "success".to_owned()
    }

    /// The processes after `POST /restart/all`, given for each configured
    /// process the outcome of killing the first machine process of its name:
    /// each one that does not run, or was killed, is made automatic.
    pub fn applyRestartAll(&mut self, outcomes: &Vec<Option<bool>>) -> (r: String)
        requires
            outcomes@.len() == old(self).processes().len(),
        ensures
            r@ == "success"@,
            final(self).processes().len() == old(self).processes().len(),
            forall|i: int|
                0 <= i < old(self).processes().len() ==> #[trigger] final(self).processes()[i]
                    == if outcomes@[i] != Some(false) {
                    Process { isAuto: true, ..old(self).processes()[i] }
                } else {
                    old(self).processes()[i]
                },
    {
        let mut i: usize = 0;
        while i < self.processes.len()
            invariant
                outcomes@.len() == old(self).processes().len(),
                self.processes@.len() == old(self).processes().len(),
                0 <= i <= self.processes@.len(),
                forall|k: int|
                    0 <= k < self.processes@.len() ==> #[trigger] self.processes@[k] == if k < i
                        && outcomes@[k] != Some(false) {
                        Process { isAuto: true, ..old(self).processes()[k] }
                    } else {
                        old(self).processes()[k]
                    },
            decreases self.processes@.len() - i,
        {
            match outcomes[i] {
                Some(false) => {},
                _ => {
                    self.processes[i].isAuto = true;
                },
            }
            i = i + 1;
        }
        "success".to_owned()
    }

    fn killOutcomes(&mut self) -> (r: Vec<Option<bool>>)
        ensures
            final(self).processes() == old(self).processes(),
            r@.len() == old(self).processes().len(),
    {
        sys::refresh_all(&mut self.system);
        let mut outcomes: Vec<Option<bool>> = Vec::new();
        let mut i: usize = 0;
        while i < self.processes.len()
            invariant
                self.processes@ == old(self).processes(),
                0 <= i <= self.processes@.len(),
                outcomes@.len() == i,
            decreases self.processes@.len() - i,
        {
            let o = match self.killFirstByName(self.processes[i].name.as_str()) {
                Some((_, killed)) => Some(killed),
                None => None,
            };
            outcomes.push(o);
            i = i + 1;
        }
        outcomes
    }

    /// `POST /stop/all`: kills the first machine process of each configured
    /// name; those killed are no longer automatic.
    pub fn stopAll(&mut self) -> (r: String)
        ensures
            r@ == "success"@,
            final(self).processes().len() == old(self).processes().len(),
            forall|i: int|
                0 <= i < old(self).processes().len() ==> {
                    let q = #[trigger] final(self).processes()[i];
                    let p = old(self).processes()[i];
                    q == p || q == Process { isAuto: false, ..p }
                },
    {
        let outcomes = self.killOutcomes();
        self.applyStopAll(&outcomes)
    }

    /// `POST /restart/all`: kills the first machine process of each
    /// configured name; those killed, and those not running, are made
    /// automatic.
    pub fn restartAll(&mut self) -> (r: String)
        ensures
            r@ == "success"@,
            final(self).processes().len() == old(self).processes().len(),
            forall|i: int|
                0 <= i < old(self).processes().len() ==> {
                    let q = #[trigger] final(self).processes()[i];
                    let p = old(self).processes()[i];
                    q == p || q == Process { isAuto: true, ..p }
                },
    {
        let outcomes = self.killOutcomes();
        self.applyRestartAll(&outcomes)
    }

    /// The page that lists the configured processes with what the machine
    /// runs under their names.
    pub fn indexPage(&mut self) -> (r: String)
        ensures
            final(self).processes() == old(self).processes(),
            exists|s: Seq<CStatusInfo>, run: Seq<Option<(i32, u64)>>, now: i64|
                #[trigger] legacy_page(s, old(self).processes(), run, now) && r@ == htmlStartDefine@
                    + entries_text(s) + htmlEndDefine@,
    {
        sys::refresh_all(&mut self.system);
        let now = sys::now_timestamp();
        let mut statuses: Vec<CStatusInfo> = Vec::new();
        let ghost mut run: Seq<Option<(i32, u64)>> = Seq::empty();
        let mut i: usize = 0;
        while i < self.processes.len()
            invariant
                self.processes@ == old(self).processes(),
                0 <= i <= self.processes@.len(),
                statuses@.len() == i,
                run.len() == i,
                forall|k: int|
                    0 <= k < i ==> legacy_entry(
                        #[trigger] statuses@[k],
                        self.processes@[k].name@,
                        run[k],
                        now,
                    ),
            decreases self.processes@.len() - i,
        {
            let found = sys::get_process_by_name(&self.system, self.processes[i].name.as_str());
            let running = if found.len() == 0 {
                None
            } else {
                Some((found[0].pid, found[0].start))
            };
            let info = legacyEntry(self.processes[i].name.as_str(), running, now);
            statuses.push(info);
            proof {
                run = run.push(running);
            }
            i = i + 1;
        }
        assert(legacy_page(statuses@, old(self).processes(), run, now));
        indexContent(&statuses)
    }
}

} // verus!
