//! The JSON interface: each handler acts on the core and builds its answer.
#![allow(non_snake_case)]
#![allow(non_upper_case_globals)]
use vstd::prelude::*;

use super::{
    CDefaultResponse,
    CGetAllConfigResponse,
    CGetAllProcessStatusResponse,
    CGetOneProcessStatusResponse,
    CHeader,
    CStatus,
    ReloadBody,
    answers,
    findHeader,
    header_value,
    status_body_read_error,
    status_file_rw_error,
    status_json_parse_error,
    status_ok,
    status_param_error,
    status_restart_process_error,
    status_stop_process_error,
    to_message,
};
use crate::config::Process;
use crate::dispatch::{CDispatch, reloaded, restart_effect, stop_effect};
use crate::process::control::{Restart, restarted_from, runner_names, stopped_from};
use crate::process::status::{
    CStatusInfo,
    StatusError,
    all_statuses,
    clock_reading,
    is_run_status,
    looked_up,
    start_of,
};
use crate::process::{status_desc, to_status_desc};
use crate::strings::views;

verus! {

/// The header that names the process a request is about.
pub const header_name: &'static str = "name";

/// The member of a reload request's body that holds the process list.
pub const process_list_key: &'static str = "processList";

/// The status of a report, as the JSON answers carry it.
pub open spec fn carries(c: CStatus, info: CStatusInfo) -> bool {
    &&& c.pid == info.pid
    &&& c.runTime@ == info.runTime@
    &&& c.status@ == status_desc(info.status@)
    &&& c.name@ == info.name@
}

/// What the body of a reload request is: `read` tells whether it could be
/// read, `listNull` what the `json` crate found of its `processList`
/// (`None`: the text is not JSON; `Some(true)`: the member is null or
/// absent) and `typed` the process list the text gives as a
/// `CPutReloadRequest` (`None`: it gives none).
pub open spec fn is_reload_body(r: ReloadBody, read: bool, listNull: Option<bool>, typed: Option<Vec<Process>>) -> bool {
    if !read {
        r is ReadError
    } else {
        match listNull {
            None => r is JsonError,
            Some(true) => r matches ReloadBody::Processes(ps) && ps@.len() == 0,
            Some(false) => match typed {
                None => r is JsonError,
                Some(ps) => r matches ReloadBody::Processes(q) && q@ == ps@,
            },
        }
    }
}

/// The body of a reload request, from what was read and parsed of it.
pub fn reloadBodyFrom(read: bool, listNull: Option<bool>, typed: Option<Vec<Process>>) -> (r: ReloadBody)
    ensures
        is_reload_body(r, read, listNull, typed),
{
    if !read {
        return ReloadBody::ReadError;
    }
    match listNull {
        None => ReloadBody::JsonError,
        Some(true) => ReloadBody::Processes(Vec::new()),
        Some(false) => match typed {
            None => ReloadBody::JsonError,
            Some(ps) => ReloadBody::Processes(ps),
        },
    }
}

/// The body of a reload request: `body` is its text (`None`: it could not
/// be read) and `typed` the process list that text gives as a
/// `CPutReloadRequest` (`None`: it gives none).  JSON whose `processList` is
/// null or absent is the empty list.
pub fn reloadBodyOf(body: Option<&str>, typed: Option<Vec<Process>>) -> (r: ReloadBody)
    ensures
        match body {
            None => r is ReadError,
            Some(t) => is_reload_body(r, true, crate::sys::json_member_null(t@, process_list_key@), typed),
        },
{
    match body {
        None => ReloadBody::ReadError,
        Some(t) => {
            let listNull = crate::sys::member_is_null(t, process_list_key);
            reloadBodyFrom(true, listNull, typed)
        },
    }
}

/// The status of an answer that reports on no process.
pub open spec fn is_empty_status(c: CStatus) -> bool {
    &&& c.pid == 0
    &&& c.runTime@.len() == 0
    &&& c.status@.len() == 0
    &&& c.name@.len() == 0
}

/// Handles the JSON interface.
pub struct CApiHandler {}

impl CApiHandler {
    pub fn new() -> CApiHandler {
        CApiHandler {  }
    }

    /// The value of the header `key`.
    pub fn findHeader(&self, headers: &Vec<CHeader>, key: &str) -> (r: String)
        ensures
            r@ == header_value(headers@, key@),
    {
        findHeader(headers, key)
    }

    fn toStatus(info: CStatusInfo) -> (r: CStatus)
        ensures
            carries(r, info),
    {
        let status = to_status_desc(&info.status);
        CStatus { pid: info.pid, runTime: info.runTime, status, name: info.name }
    }

    /// `DELETE /api/stop`: stops the process named by the header `name`.
    pub fn handleStopProcess<K: Fn(i32) -> bool>(
        &self,
        dispatch: &mut CDispatch,
        headers: &Vec<CHeader>,
        kill: &K,
    ) -> (r: CDefaultResponse)
        requires
            old(dispatch).wf(),
            forall|p: i32| kill.requires((p,)),
        ensures
            final(dispatch).wf(),
            final(dispatch).spec_path() == old(dispatch).spec_path(),
            final(dispatch).control().pid_map() == old(dispatch).control().pid_map(),
            ({
                let name = header_value(headers@, header_name@);
                if name.len() == 0 {
                    r.answers(status_param_error) && final(dispatch).control() == old(
                        dispatch,
                    ).control()
                } else {
                    stop_effect(
                        kill,
                        old(dispatch).control().processes(),
                        old(dispatch).control().pid_map(),
                        name,
                        r.result,
                        final(dispatch).control().processes(),
                    ) && r.answers(
                        if r.result {
                            status_ok
                        } else {
                            status_stop_process_error
                        },
                    )
                }
            }),
    {
        let name = self.findHeader(headers, header_name);
        if name.as_str().is_empty() {
            return CDefaultResponse::with_status(status_param_error);
        }
        match dispatch.stopProcess(name.as_str(), kill) {
            Ok(()) => CDefaultResponse::with_status(status_ok),
            Err(_) => CDefaultResponse::with_status(status_stop_process_error),
        }
    }

    /// `PUT /api/restart`: restarts the process named by the header `name`;
    /// also returns the names that need a new runner.
    pub fn handleRestartProcess<K: Fn(i32) -> bool>(
        &self,
        dispatch: &mut CDispatch,
        headers: &Vec<CHeader>,
        kill: &K,
    ) -> (r: (CDefaultResponse, Vec<String>))
        requires
            old(dispatch).wf(),
            forall|p: i32| kill.requires((p,)),
        ensures
            final(dispatch).wf(),
            final(dispatch).spec_path() == old(dispatch).spec_path(),
            final(dispatch).control().pid_map() == old(dispatch).control().pid_map(),
            ({
                let name = header_value(headers@, header_name@);
                if name.len() == 0 {
                    r.0.answers(status_param_error) && r.1@.len() == 0 && final(dispatch).control()
                        == old(dispatch).control()
                } else {
                    exists|x: Option<Restart>|
                        #[trigger] restart_effect(
                            kill,
                            old(dispatch).control().processes(),
                            old(dispatch).control().pid_map(),
                            name,
                            x,
                            final(dispatch).control().processes(),
                        ) && r.0.answers(
                            if x is Some {
                                status_ok
                            } else {
                                status_restart_process_error
                            },
                        ) && views(r.1@) == if x == Some(Restart::NeedsRunner) {
                            seq![name]
                        } else {
                            seq![]
                        }
                }
            }),
    {
        let name = self.findHeader(headers, header_name);
        if name.as_str().is_empty() {
            return (CDefaultResponse::with_status(status_param_error), Vec::new());
        }
        let mut starts: Vec<String> = Vec::new();
        let res = dispatch.restartProcess(name.as_str(), kill);
        let ghost x = match res {
            Ok(v) => Some(v),
            Err(_) => None,
        };
        let response = match res {
            Ok(Restart::NeedsRunner) => {
                starts.push(name);
                CDefaultResponse::with_status(status_ok)
            },
            Ok(Restart::Killed) => CDefaultResponse::with_status(status_ok),
            Err(_) => CDefaultResponse::with_status(status_restart_process_error),
        };
        assert(views(starts@) =~= if x == Some(Restart::NeedsRunner) {
            seq![header_value(headers@, header_name@)]
        } else {
            seq![]
        });
        (response, starts)
    }

    /// `DELETE /api/stop/by/alias`: stops the processes whose alias is the
    /// header `name`.
    pub fn handleStopProcessByAlias<K: Fn(i32) -> bool>(
        &self,
        dispatch: &mut CDispatch,
        headers: &Vec<CHeader>,
        kill: &K,
    ) -> (r: CDefaultResponse)
        requires
            old(dispatch).wf(),
            forall|p: i32| kill.requires((p,)),
        ensures
            final(dispatch).wf(),
            final(dispatch).spec_path() == old(dispatch).spec_path(),
            final(dispatch).control().pid_map() == old(dispatch).control().pid_map(),
            ({
                let alias = header_value(headers@, header_name@);
                if alias.len() == 0 {
                    r.answers(status_param_error) && final(dispatch).control() == old(
                        dispatch,
                    ).control()
                } else {
                    r.answers(status_ok) && stopped_from(
                        kill,
                        old(dispatch).control().processes(),
                        old(dispatch).control().pid_map(),
                        crate::config::alias_names(old(dispatch).control().processes(), alias),
                        final(dispatch).control().processes(),
                    )
                }
            }),
    {
        let alias = self.findHeader(headers, header_name);
        if alias.as_str().is_empty() {
            return CDefaultResponse::with_status(status_param_error);
        }
        match dispatch.stopProcessByAlias(alias.as_str(), kill) {
            Ok(()) => CDefaultResponse::with_status(status_ok),
            Err(_) => CDefaultResponse::with_status(status_stop_process_error),
        }
    }

    /// `PUT /api/restart/by/alias`: restarts the processes whose alias is the
    /// header `name`; also returns the names that need a new runner.
    pub fn handleRestartProcessByAlias<K: Fn(i32) -> bool>(
        &self,
        dispatch: &mut CDispatch,
        headers: &Vec<CHeader>,
        kill: &K,
    ) -> (r: (CDefaultResponse, Vec<String>))
        requires
            old(dispatch).wf(),
            forall|p: i32| kill.requires((p,)),
        ensures
            final(dispatch).wf(),
            final(dispatch).spec_path() == old(dispatch).spec_path(),
            final(dispatch).control().pid_map() == old(dispatch).control().pid_map(),
            ({
                let alias = header_value(headers@, header_name@);
                if alias.len() == 0 {
                    r.0.answers(status_param_error) && r.1@.len() == 0 && final(dispatch).control()
                        == old(dispatch).control()
                } else {
                    let l = crate::config::alias_names(old(dispatch).control().processes(), alias);
                    &&& r.0.answers(status_ok)
                    &&& restarted_from(
                        kill,
                        old(dispatch).control().processes(),
                        old(dispatch).control().pid_map(),
                        l,
                        final(dispatch).control().processes(),
                    )
                    &&& views(r.1@) == runner_names(l, old(dispatch).control().pid_map())
                }
            }),
    {
        let alias = self.findHeader(headers, header_name);
        if alias.as_str().is_empty() {
            return (CDefaultResponse::with_status(status_param_error), Vec::new());
        }
        match dispatch.restartProcessByAlias(alias.as_str(), kill) {
            Ok(v) => (CDefaultResponse::with_status(status_ok), v),
            Err(_) => (CDefaultResponse::with_status(status_restart_process_error), Vec::new()),
        }
    }

    /// `DELETE /api/stop/all`: stops every process.
    pub fn handleStopAllProcess<K: Fn(i32) -> bool>(&self, dispatch: &mut CDispatch, kill: &K) -> (r:
        CDefaultResponse)
        requires
            old(dispatch).wf(),
            forall|p: i32| kill.requires((p,)),
        ensures
            r.answers(status_ok),
            final(dispatch).wf(),
            final(dispatch).spec_path() == old(dispatch).spec_path(),
            final(dispatch).control().pid_map() == old(dispatch).control().pid_map(),
            stopped_from(
                kill,
                old(dispatch).control().processes(),
                old(dispatch).control().pid_map(),
                crate::config::names(old(dispatch).control().processes()),
                final(dispatch).control().processes(),
            ),
    {
        dispatch.stopAllProcess(kill);
        CDefaultResponse::with_status(status_ok)
    }

    /// `PUT /api/restart/all`: restarts every process; also returns the names
    /// that need a new runner.
    pub fn handleRestartAllProcess<K: Fn(i32) -> bool>(
        &self,
        dispatch: &mut CDispatch,
        kill: &K,
    ) -> (r: (CDefaultResponse, Vec<String>))
        requires
            old(dispatch).wf(),
            forall|p: i32| kill.requires((p,)),
        ensures
            r.0.answers(status_ok),
            final(dispatch).wf(),
            final(dispatch).spec_path() == old(dispatch).spec_path(),
            final(dispatch).control().pid_map() == old(dispatch).control().pid_map(),
            restarted_from(
                kill,
                old(dispatch).control().processes(),
                old(dispatch).control().pid_map(),
                crate::config::names(old(dispatch).control().processes()),
                final(dispatch).control().processes(),
            ),
            views(r.1@) == runner_names(
                crate::config::names(old(dispatch).control().processes()),
                old(dispatch).control().pid_map(),
            ),
    {
        let v = dispatch.restartAllProcess(kill);
        (CDefaultResponse::with_status(status_ok), v)
    }

    /// `GET /api/config`: the process list read from the configuration file,
    /// empty when it could not be read or has none.
    pub fn handleGetAllConfig(&self, loaded: Option<Vec<Process>>) -> (r: CGetAllConfigResponse)
        ensures
            answers(r.result, r.status, r.message@, status_ok),
            match loaded {
                Some(ps) => r.data@ == ps@,
                None => r.data@.len() == 0,
            },
    {
        let data = match loaded {
            Some(ps) => ps,
            None => Vec::new(),
        };
        CGetAllConfigResponse {
            data,
            result: true,
            status: status_ok,
            message: to_message(&status_ok),
        }
    }

    /// `PUT /api/reload`: brings in the process list of the body; also
    /// returns the names that need a new runner.
    pub fn handleReload<K: Fn(i32) -> bool>(
        &self,
        dispatch: &mut CDispatch,
        body: ReloadBody,
        kill: &K,
    ) -> (r: (CDefaultResponse, Vec<String>))
        requires
            old(dispatch).wf(),
            forall|p: i32| kill.requires((p,)),
        ensures
            final(dispatch).wf(),
            final(dispatch).spec_path() == old(dispatch).spec_path(),
            match body {
                ReloadBody::ReadError => r.0.answers(status_body_read_error) && r.1@.len() == 0
                    && final(dispatch).control() == old(dispatch).control(),
                ReloadBody::JsonError => r.0.answers(status_json_parse_error) && r.1@.len() == 0
                    && final(dispatch).control() == old(dispatch).control(),
                ReloadBody::Processes(ps) => r.0.answers(status_ok) && reloaded(
                    kill,
                    *old(dispatch),
                    ps@,
                    *final(dispatch),
                    r.1@,
                ),
            },
    {
        match body {
            ReloadBody::ReadError => (CDefaultResponse::with_status(status_body_read_error), Vec::new()),
            ReloadBody::JsonError => (CDefaultResponse::with_status(status_json_parse_error), Vec::new()),
            ReloadBody::Processes(ps) => {
                let starts = dispatch.reload(ps, kill);
                (CDefaultResponse::with_status(status_ok), starts)
            },
        }
    }

    /// `PUT /api/save/before/reload`: like `handleReload`, once the process
    /// list of the body was written to the configuration file (`saved`);
    /// when that failed nothing is reloaded.
    pub fn handleSaveBeforeReload<K: Fn(i32) -> bool>(
        &self,
        dispatch: &mut CDispatch,
        body: ReloadBody,
        saved: bool,
        kill: &K,
    ) -> (r: (CDefaultResponse, Vec<String>))
        requires
            old(dispatch).wf(),
            forall|p: i32| kill.requires((p,)),
        ensures
            final(dispatch).wf(),
            final(dispatch).spec_path() == old(dispatch).spec_path(),
            match body {
                ReloadBody::ReadError => r.0.answers(status_body_read_error) && r.1@.len() == 0
                    && final(dispatch).control() == old(dispatch).control(),
                ReloadBody::JsonError => r.0.answers(status_json_parse_error) && r.1@.len() == 0
                    && final(dispatch).control() == old(dispatch).control(),
                ReloadBody::Processes(ps) => if saved {
                    r.0.answers(status_ok) && reloaded(kill, *old(dispatch), ps@, *final(dispatch), r.1@)
                } else {
                    r.0.answers(status_file_rw_error) && r.1@.len() == 0 && final(dispatch).control()
                        == old(dispatch).control()
                },
            },
    {
        match body {
            ReloadBody::Processes(ps) => {
                if !saved {
                    return (CDefaultResponse::with_status(status_file_rw_error), Vec::new());
                }
                self.handleReload(dispatch, ReloadBody::Processes(ps), kill)
            },
            other => self.handleReload(dispatch, other, kill),
        }
    }

    /// `GET /api/one/process/status`: the status of the process named by the
    /// header `name`.
    pub fn handleGetOneStatusRequest(&self, dispatch: &mut CDispatch, headers: &Vec<CHeader>) -> (r:
        CGetOneProcessStatusResponse)
        requires
            old(dispatch).wf(),
        ensures
            final(dispatch).wf(),
            final(dispatch).control() == old(dispatch).control(),
            final(dispatch).spec_path() == old(dispatch).spec_path(),
            ({
                let name = header_value(headers@, header_name@);
                let e = crate::process::status::entry_or_stopped(
                    old(dispatch).control().pid_map(),
                    name,
                );
                if name.len() == 0 {
                    answers(r.result, r.status, r.message@, status_param_error) && is_empty_status(
                        r.data,
                    )
                } else {
                    &&& answers(r.result, r.status, r.message@, status_ok)
                    &&& exists|rep: Result<CStatusInfo, StatusError>, found: Option<(i32, u64)>, now: i64|
                        looked_up(found, e.pid) && clock_reading(now) && #[trigger] is_run_status(
                            rep,
                            e,
                            name,
                            start_of(found),
                            now,
                        ) && match rep {
                            Ok(info) => carries(r.data, info),
                            Err(_) => is_empty_status(r.data),
                        }
                }
            }),
    {
        let name = self.findHeader(headers, header_name);
        let mut res = CGetOneProcessStatusResponse::default();
        if name.as_str().is_empty() {
            res.result = false;
            res.status = status_param_error;
            res.message = to_message(&res.status);
            return res;
        }
        let rep = dispatch.getRunStatus(name.as_str());
        let ghost g = rep;
        match rep {
            Ok(info) => {
                res.data = Self::toStatus(info);
            },
            Err(_) => {},
        }
        proof {
            let e = crate::process::status::entry_or_stopped(old(dispatch).control().pid_map(), name@);
            let (found, now) = choose|found: Option<(i32, u64)>, now: i64|
                looked_up(found, e.pid) && clock_reading(now) && #[trigger] is_run_status(
                    g,
                    e,
                    name@,
                    start_of(found),
                    now,
                );
            assert(is_run_status(g, e, name@, start_of(found), now));
        }
        res
    }

    /// `GET /api/all/process/status`: the status of every process.
    pub fn handleGetAllStatusRequest(&self, dispatch: &mut CDispatch) -> (r:
        CGetAllProcessStatusResponse)
        requires
            old(dispatch).wf(),
        ensures
            final(dispatch).wf(),
            final(dispatch).control() == old(dispatch).control(),
            final(dispatch).spec_path() == old(dispatch).spec_path(),
            answers(r.result, r.status, r.message@, status_ok),
            exists|s: Seq<CStatusInfo>|
                #[trigger] all_statuses(s, old(dispatch).control().processes(), old(dispatch).control().pid_map())
                    && s.len() == r.data@.len() && forall|i: int|
                    0 <= i < s.len() ==> carries(#[trigger] r.data@[i], s[i]),
    {
        let mut res = CGetAllProcessStatusResponse::default();
        let statuses = match dispatch.getAllRunStatus() {
            Ok(s) => s,
            Err(_) => {
                return res;
            },
        };
        let ghost infos = statuses@;
        let mut statuses = statuses;
        let mut out: Vec<CStatus> = Vec::new();
        while statuses.len() > 0
            invariant
                out@.len() + statuses@.len() == infos.len(),
                statuses@ == infos.skip(out@.len() as int),
                forall|i: int| 0 <= i < out@.len() ==> carries(#[trigger] out@[i], infos[i]),
            decreases statuses@.len(),
        {
            let ghost before = statuses@;
            let info = statuses.remove(0);
            assert(info == infos[out@.len() as int]);
            let c = Self::toStatus(info);
            out.push(c);
            assert(statuses@ =~= infos.skip(out@.len() as int));
        }
        res.data = out;
        assert(all_statuses(infos, old(dispatch).control().processes(), old(dispatch).control().pid_map()));
        res
    }
}

} // verus!
