//! The buttons of the page: stop and restart by the name in the body.
#![allow(non_snake_case)]
use vstd::prelude::*;

use crate::dispatch::{CDispatch, restart_effect, stop_effect};
use crate::process::control::{Restart, restarted_from, runner_names, stopped_from};
use crate::strings::views;

verus! {

/// Serves the page's buttons.
pub struct CWebHandler {}

impl CWebHandler {
    pub fn new() -> CWebHandler {
        CWebHandler {  }
    }

    /// `POST /stop`: stops the process named by the body.
    pub fn handleStopProcess<K: Fn(i32) -> bool>(dispatch: &mut CDispatch, body: &str, kill: &K)
        requires
            old(dispatch).wf(),
            forall|p: i32| kill.requires((p,)),
        ensures
            final(dispatch).wf(),
            final(dispatch).spec_path() == old(dispatch).spec_path(),
            final(dispatch).control().pid_map() == old(dispatch).control().pid_map(),
            exists|ok: bool|
                #[trigger] stop_effect(
                    kill,
                    old(dispatch).control().processes(),
                    old(dispatch).control().pid_map(),
                    body@,
                    ok,
                    final(dispatch).control().processes(),
                ),
    {
        let r = dispatch.stopProcess(body, kill);
        assert(stop_effect(
            kill,
            old(dispatch).control().processes(),
            old(dispatch).control().pid_map(),
            body@,
            r is Ok,
            dispatch.control().processes(),
        ));
    }

    /// `POST /restart`: restarts the process named by the body; returns the
    /// names that need a new runner.
    pub fn handleRestartProcess<K: Fn(i32) -> bool>(dispatch: &mut CDispatch, body: &str, kill: &K) -> (r:
        Vec<String>)
        requires
            old(dispatch).wf(),
            forall|p: i32| kill.requires((p,)),
        ensures
            final(dispatch).wf(),
            final(dispatch).spec_path() == old(dispatch).spec_path(),
            final(dispatch).control().pid_map() == old(dispatch).control().pid_map(),
            exists|x: Option<Restart>|
                #[trigger] restart_effect(
                    kill,
                    old(dispatch).control().processes(),
                    old(dispatch).control().pid_map(),
                    body@,
                    x,
                    final(dispatch).control().processes(),
                ) && views(r@) == if x == Some(Restart::NeedsRunner) {
                    seq![body@]
                } else {
                    seq![]
                },
    {
        let mut starts: Vec<String> = Vec::new();
        let res = dispatch.restartProcess(body, kill);
        let ghost x = match res {
            Ok(v) => Some(v),
            Err(_) => None,
        };
        match res {
            Ok(Restart::NeedsRunner) => {
                starts.push(body.to_owned());
            },
            _ => {},
        }
        assert(views(starts@) =~= if x == Some(Restart::NeedsRunner) {
            seq![body@]
        } else {
            seq![]
        });
        starts
    }

    /// `POST /stop/all`: stops every process.
    pub fn handleStopAllProcess<K: Fn(i32) -> bool>(dispatch: &mut CDispatch, kill: &K)
        requires
            old(dispatch).wf(),
            forall|p: i32| kill.requires((p,)),
        ensures
            final(dispatch).wf(),
            final(dispatch).spec_path() == old(dispatch).spec_path(),
            final(dispatch).control().pid_map() == old(dispatch).control().pid_map(),
            stopped_from(
                kill,
                old(dispatch).control().processes(),
                old(dispatch).control().pid_map(),
                crate::config::names(old(dispatch).control().processes()),
                final(dispatch).control().processes(),
            ),
    {
        dispatch.stopAllProcess(kill);
    }

    /// `POST /restart/all`: restarts every process; returns the names that
    /// need a new runner.
    pub fn handleRestartAllProcess<K: Fn(i32) -> bool>(dispatch: &mut CDispatch, kill: &K) -> (r: Vec<
        String,
    >)
        requires
            old(dispatch).wf(),
            forall|p: i32| kill.requires((p,)),
        ensures
            final(dispatch).wf(),
            final(dispatch).spec_path() == old(dispatch).spec_path(),
            final(dispatch).control().pid_map() == old(dispatch).control().pid_map(),
            restarted_from(
                kill,
                old(dispatch).control().processes(),
                old(dispatch).control().pid_map(),
                crate::config::names(old(dispatch).control().processes()),
                final(dispatch).control().processes(),
            ),
            views(r@) == runner_names(
                crate::config::names(old(dispatch).control().processes()),
                old(dispatch).control().pid_map(),
            ),
    {
        dispatch.restartAllProcess(kill)
    }
}

} // verus!
