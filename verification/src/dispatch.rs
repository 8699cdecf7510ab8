//! The watchdog's core: the configuration, the process controller and the
//! status reports, and the reload that brings a new process list in.
#![allow(non_snake_case)]
use vstd::prelude::*;

use crate::config::file::CFile;
use crate::config::{Process, names, set_auto};
use crate::process::control::{
    CControl,
    Restart,
    kills_running,
    needs_runner,
    restarted_from,
    runner_names,
    stopped_from,
};
use crate::process::pids::CPidView;
use crate::process::status::{CStatus, CStatusInfo, StatusError, entry_or_stopped};
use crate::strings::{str_eq, views};
use crate::tools::compare::{
    added,
    answered_by,
    deleted,
    derefs,
    has_name,
    is_pair,
    is_last_named,
    last_index,
    processCompare,
    updated,
};

verus! {

/// Why a dispatched request failed.
#[derive(PartialEq, Eq, Structural, Debug, Clone, Copy)]
pub enum DispatchError {
    StopProcess,
    RestartProcess,
}

/// A process must be restarted on reload when its `isAuto`, program,
/// directory or arguments changed.
pub open spec fn process_changed(o: Process, n: Process) -> bool {
    ||| o.isAuto != n.isAuto
    ||| o.execute@ != n.execute@
    ||| o.directory@ != n.directory@
    ||| views(o.args@) != views(n.args@)
}

/// `updated` with `process_changed` as the test.
pub open spec fn changed_on_reload(news: Seq<Process>, olds: Seq<Process>, k: int) -> Seq<Process>
    decreases k,
{
    if k <= 0 {
        seq![]
    } else {
        let r = changed_on_reload(news, olds, k - 1);
        let n = news[k - 1];
        if is_last_named(news, k - 1) && has_name(olds, n.name@) && process_changed(
            olds[last_index(olds, n.name@)],
            n,
        ) {
            r.push(olds[last_index(olds, n.name@)])
        } else {
            r
        }
    }
}

/// `pm` without the entries of the names in `l`.
pub open spec fn remove_names(pm: Map<Seq<char>, CPidView>, l: Seq<Seq<char>>) -> Map<
    Seq<char>,
    CPidView,
>
    decreases l.len(),
{
    if l.len() == 0 {
        pm
    } else {
        remove_names(pm, l.drop_last()).remove(l.last())
    }
}

/// The effect of stopping `name` on processes `ps` with pid table `pm`:
/// `ok` tells whether it succeeded and `qs` is the process list after it.
pub open spec fn stop_effect<K: Fn(i32) -> bool>(
    kill: &K,
    ps: Seq<Process>,
    pm: Map<Seq<char>, CPidView>,
    name: Seq<char>,
    ok: bool,
    qs: Seq<Process>,
) -> bool {
    if !pm.contains_key(name) {
        !ok && qs == ps
    } else if !(pm[name].status is Running) {
        ok && qs == ps
    } else {
        exists|killed: bool|
            #[trigger] kill.ensures((pm[name].pid,), killed) && ok == killed && qs == set_auto(
                ps,
                name,
                !killed,
            )
    }
}

/// The effect of restarting `name` on processes `ps` with pid table `pm`:
/// `r` is what the restart answered (`None` for a failure) and `qs` the
/// process list after it.
pub open spec fn restart_effect<K: Fn(i32) -> bool>(
    kill: &K,
    ps: Seq<Process>,
    pm: Map<Seq<char>, CPidView>,
    name: Seq<char>,
    r: Option<Restart>,
    qs: Seq<Process>,
) -> bool {
    if needs_runner(pm, name) {
        r == Some(Restart::NeedsRunner) && qs == set_auto(ps, name, true)
    } else if pm[name].status is Running {
        qs == ps && exists|killed: bool|
            #[trigger] kill.ensures((pm[name].pid,), killed) && r == if killed {
                Some(Restart::Killed)
            } else {
                None
            }
    } else {
        r is None && qs == ps
    }
}

/// `d2` is `d` after reloading `news` with `kill`, and `starts` the names
/// that need a new runner, as `CDispatch::reload` promises: the changed
/// processes are restarted, and the removed ones whose entry says they run
/// are killed and forgotten.
pub open spec fn reloaded<K: Fn(i32) -> bool>(
    kill: &K,
    d: CDispatch,
    news: Seq<Process>,
    d2: CDispatch,
    starts: Seq<String>,
) -> bool {
    let olds = d.control().processes();
    let pm = d.control().pid_map();
    let upd = names(
        changed_on_reload(news, olds, news.len() as int),
    );
    &&& restarted_from(kill, news, pm, upd, d2.control().processes())
    &&& kills_running(kill, pm, names(deleted(news, olds, olds.len() as int)))
    &&& d2.control().pid_map() == remove_names(
        pm,
        names(deleted(news, olds, olds.len() as int)),
    )
    &&& views(starts) == names(
        added(news, olds, news.len() as int),
    ) + runner_names(upd, pm)
}

proof fn lemma_no_changes_on_same_list(ps: Seq<Process>, k: int)
    requires
        0 <= k <= ps.len(),
    ensures
        changed_on_reload(ps, ps, k) == Seq::<Process>::empty(),
    decreases k,
{
    if k > 0 {
        lemma_no_changes_on_same_list(ps, k - 1);
        if is_last_named(ps, k - 1) {
            crate::tools::compare::lemma_last_index(ps, k - 1);
            assert(views(ps[k - 1].args@) == views(ps[k - 1].args@));
        }
    }
}

/// Reloading the list that is already loaded changes nothing: the
/// processes and the pid table stay as they are, no runner starts, and no
/// process is to be restarted or removed.
pub proof fn lemma_reload_same_list<K: Fn(i32) -> bool>(
    kill: &K,
    d: CDispatch,
    d2: CDispatch,
    starts: Seq<String>,
)
    requires
        reloaded(kill, d, d.control().processes(), d2, starts),
    ensures
        d2.control().processes() == d.control().processes(),
        d2.control().pid_map() == d.control().pid_map(),
        starts.len() == 0,
        changed_on_reload(
            d.control().processes(),
            d.control().processes(),
            d.control().processes().len() as int,
        ) == Seq::<Process>::empty(),
        deleted(
            d.control().processes(),
            d.control().processes(),
            d.control().processes().len() as int,
        ) == Seq::<Process>::empty(),
{
    let ps = d.control().processes();
    let n = ps.len() as int;
    crate::tools::compare::lemma_compare_same_list(ps, n);
    lemma_no_changes_on_same_list(ps, n);
    assert(names(Seq::<Process>::empty()) =~= Seq::<Seq<char>>::empty());
    let qs = d2.control().processes();
    assert forall|i: int| 0 <= i < ps.len() implies qs[i] == ps[i] by {
        assert(!Seq::<Seq<char>>::empty().contains(ps[i].name@));
    }
    assert(qs =~= ps);
    assert(views(starts).len() == 0);
}

proof fn lemma_deleted_keeps(news: Seq<Process>, olds: Seq<Process>, li: int, k: int)
    requires
        is_last_named(olds, li),
        !has_name(news, olds[li].name@),
        li < k <= olds.len(),
    ensures
        names(deleted(news, olds, k)).contains(olds[li].name@),
    decreases k,
{
    let d = deleted(news, olds, k);
    if k - 1 == li {
        assert(d == deleted(news, olds, k - 1).push(olds[li]));
        assert(names(d)[d.len() - 1] == olds[li].name@);
    } else {
        lemma_deleted_keeps(news, olds, li, k - 1);
        let dk = deleted(news, olds, k - 1);
        let w = choose|w: int| 0 <= w < names(dk).len() && names(dk)[w] == olds[li].name@;
        assert(d.len() >= dk.len());
        assert(d[w] == dk[w]);
        assert(names(d)[w] == olds[li].name@);
    }
}

proof fn lemma_remove_names_gone(pm: Map<Seq<char>, CPidView>, l: Seq<Seq<char>>, n: Seq<char>)
    requires
        l.contains(n),
    ensures
        !remove_names(pm, l).contains_key(n),
    decreases l.len(),
{
    if l.last() != n {
        let w = choose|w: int| 0 <= w < l.len() && l[w] == n;
        assert(l.drop_last()[w] == n);
        lemma_remove_names_gone(pm, l.drop_last(), n);
    }
}

/// A process whose name a reload's new list lacks is gone for good: its
/// runner ends at its next step, and when the old list had it, its pid
/// entry is forgotten.
pub proof fn lemma_reload_ends_dropped<K: Fn(i32) -> bool>(
    kill: &K,
    d: CDispatch,
    news: Seq<Process>,
    d2: CDispatch,
    starts: Seq<String>,
    n: Seq<char>,
)
    requires
        reloaded(kill, d, news, d2, starts),
        !has_name(news, n),
    ensures
        crate::process::control::launch_ends(d2.control().processes(), n),
        has_name(d.control().processes(), n) ==> !d2.control().pid_map().contains_key(n),
{
    let qs = d2.control().processes();
    let olds = d.control().processes();
    let upd = names(changed_on_reload(news, olds, news.len() as int));
    assert forall|j: int| 0 <= j < qs.len() implies (#[trigger] qs[j]).name@ != n by {
        assert(qs[j] == news[j] || qs[j] == (Process { isAuto: true, ..news[j] }));
        if news[j].name@ == n {
            assert(has_name(news, n));
        }
    }
    crate::config::lemma_no_first_named(qs, n);
    if has_name(olds, n) {
        let w = choose|w: int| 0 <= w < olds.len() && (#[trigger] olds[w]).name@ == n;
        crate::tools::compare::lemma_last_exists(olds, n, w);
        let li = last_index(olds, n);
        lemma_deleted_keeps(news, olds, li, olds.len() as int);
        lemma_remove_names_gone(
            d.control().pid_map(),
            names(deleted(news, olds, olds.len() as int)),
            n,
        );
    }
}

fn argsEqual(a: &Vec<String>, b: &Vec<String>) -> (r: bool)
    ensures
        r == (views(a@) == views(b@)),
{
    if a.len() != b.len() {
        assert(views(a@).len() != views(b@).len());
        return false;
    }
    let mut i: usize = 0;
    while i < a.len()
        invariant
            a@.len() == b@.len(),
            0 <= i <= a@.len(),
            forall|j: int| 0 <= j < i ==> (#[trigger] a@[j])@ == b@[j]@,
        decreases a@.len() - i,
    {
        if !str_eq(a[i].as_str(), b[i].as_str()) {
            assert(views(a@)[i as int] != views(b@)[i as int]);
            return false;
        }
        i = i + 1;
    }
    assert(views(a@) =~= views(b@));
    true
}

/// Whether reloading must restart a process that was `o` and becomes `n`.
pub fn processChanged(o: &Process, n: &Process) -> (r: bool)
    ensures
        r == process_changed(*o, *n),
{
    o.isAuto != n.isAuto || !str_eq(o.execute.as_str(), n.execute.as_str()) || !str_eq(
        o.directory.as_str(),
        n.directory.as_str(),
    ) || !argsEqual(&o.args, &n.args)
}

proof fn lemma_changed_on_reload(news: Seq<Process>, olds: Seq<Process>, ans: Seq<bool>, k: int)
    requires
        0 <= k <= news.len(),
        ans.len() == news.len(),
        forall|j: int|
            0 <= j < news.len() && is_pair(news, olds, j) ==> #[trigger] ans[j] == process_changed(
                olds[last_index(olds, news[j].name@)],
                news[j],
            ),
    ensures
        updated(news, olds, ans, k) == changed_on_reload(news, olds, k),
    decreases k,
{
    if k > 0 {
        lemma_changed_on_reload(news, olds, ans, k - 1);
        if is_pair(news, olds, k - 1) {
            assert(ans[k - 1] == process_changed(
                olds[last_index(olds, news[k - 1].name@)],
                news[k - 1],
            ));
        }
    }
}

proof fn lemma_deleted_not_new(news: Seq<Process>, olds: Seq<Process>, k: int)
    ensures
        forall|j: int|
            0 <= j < deleted(news, olds, k).len() ==> !has_name(
                news,
                (#[trigger] deleted(news, olds, k)[j]).name@,
            ),
    decreases k,
{
    if k > 0 {
        lemma_deleted_not_new(news, olds, k - 1);
    }
}

fn nameList(v: &Vec<&Process>) -> (r: Vec<String>)
    ensures
        views(r@) == names(derefs(v@)),
{
    let mut r: Vec<String> = Vec::new();
    let mut i: usize = 0;
    while i < v.len()
        invariant
            0 <= i <= v@.len(),
            views(r@) == names(derefs(v@).take(i as int)),
        decreases v@.len() - i,
    {
        let ghost before = r@;
        let n = v[i].name.clone();
        r.push(n);
        assert(views(r@) =~= views(before).push(n@));
        assert(names(derefs(v@).take(i + 1)) =~= names(derefs(v@).take(i as int)).push(
            derefs(v@)[i as int].name@,
        ));
        i = i + 1;
    }
    assert(derefs(v@).take(v@.len() as int) =~= derefs(v@));
    r
}

/// The watchdog's core state.
pub struct CDispatch {
    path: String,
    fileOps: CFile,
    processCtrl: CControl,
    processStatus: CStatus,
}

impl CDispatch {
    /// The process controller.
    pub closed spec fn control(&self) -> CControl {
        self.processCtrl
    }

    /// The path of the configuration file.
    pub closed spec fn spec_path(&self) -> Seq<char> {
        self.path@
    }

    /// The core's own invariant.
    pub closed spec fn wf(&self) -> bool {
        &&& self.processCtrl.wf()
        &&& self.fileOps.spec_path() == self.path@
    }

    pub fn new(path: &str) -> (r: CDispatch)
        ensures
            r.wf(),
            r.spec_path() == path@,
            r.control().processes() == Seq::<Process>::empty(),
            r.control().pid_map() == Map::<Seq<char>, CPidView>::empty(),
    {
        let fileOps = CFile::new(path);
        let processCtrl = CControl::new(Vec::new());
        let processStatus = CStatus::new();
        CDispatch { path: path.to_owned(), fileOps, processCtrl, processStatus }
    }

    /// Starts with the process list read from the configuration file, or
    /// with nothing when it could not be read; returns the names whose
    /// runners start.
    pub fn start(&mut self, loaded: Option<Vec<Process>>) -> (r: Vec<String>)
        requires
            old(self).wf(),
        ensures
            final(self).wf(),
            final(self).spec_path() == old(self).spec_path(),
            final(self).control().pid_map() == old(self).control().pid_map(),
            match loaded {
                None => r@.len() == 0 && final(self).control().processes() == old(self).control().processes(),
                Some(ps) => final(self).control().processes() == ps@ && views(r@) == names(ps@),
            },
    {
        match loaded {
            None => Vec::new(),
            Some(ps) => {
                self.processCtrl.setProcesses(ps);
                self.processCtrl.startAllProcess()
            },
        }
    }

    /// Brings in a new process list: processes whose name is new are
    /// started, processes whose settings changed are restarted, and
    /// processes whose name is gone are stopped and forgotten.  Returns the
    /// names that need a new runner: the added ones, then the restarted ones
    /// that had no running process.
    pub fn reload<K: Fn(i32) -> bool>(&mut self, news: Vec<Process>, kill: &K) -> (r: Vec<String>)
        requires
            old(self).wf(),
            forall|p: i32| kill.requires((p,)),
        ensures
            final(self).wf(),
            final(self).spec_path() == old(self).spec_path(),
            reloaded(kill, *old(self), news@, *final(self), r@),
    {
        let ghost olds = self.processCtrl.processes();
        let ghost pm = self.processCtrl.pid_map();
        let ghost nv = news@;
        let (addNames, updateNames, deleteNames) = {
            let f = |o: &Process, n: &Process| -> (r: bool)
                ensures
                    r == process_changed(*o, *n),
                { processChanged(o, n) };
            let olds_list = self.processCtrl.processList();
            let (adds, updates, deletes) = processCompare(&news, olds_list, f);
            proof {
                let ans = choose|ans: Seq<bool>|
                    #[trigger] answered_by(f, news@, olds, ans) && derefs(updates@) == updated(
                        news@,
                        olds,
                        ans,
                        news@.len() as int,
                    );
                assert forall|j: int|
                    0 <= j < news@.len() && is_pair(news@, olds, j) implies #[trigger] ans[j]
                    == process_changed(olds[last_index(olds, news@[j].name@)], news@[j]) by {
                    assert(f.ensures((&olds[last_index(olds, news@[j].name@)], &news@[j]), ans[j]));
                }
                lemma_changed_on_reload(news@, olds, ans, news@.len() as int);
            }
            (nameList(&adds), nameList(&updates), nameList(&deletes))
        };
        self.processCtrl.setProcesses(news);
        let restartRunners = self.processCtrl.restartNames(&updateNames, kill);
        let ghost after_restart = self.processCtrl.processes();
        proof {
            lemma_deleted_not_new(nv, olds, olds.len() as int);
            assert(views(deleteNames@).len() == deleteNames@.len());
            assert(names(deleted(nv, olds, olds.len() as int)).len() == deleted(
                nv,
                olds,
                olds.len() as int,
            ).len());
            assert forall|j: int| 0 <= j < deleteNames@.len() implies !has_name(
                nv,
                (#[trigger] deleteNames@[j])@,
            ) by {
                assert(views(deleteNames@)[j] == deleteNames@[j]@);
                assert(names(deleted(nv, olds, olds.len() as int))[j] == deleted(
                    nv,
                    olds,
                    olds.len() as int,
                )[j].name@);
            }
        }
        self.processCtrl.stopNames(&deleteNames, kill);
        proof {
            let qs = self.processCtrl.processes();
            let dl = views(deleteNames@);
            assert forall|i: int| 0 <= i < after_restart.len() implies !dl.contains(
                (#[trigger] after_restart[i]).name@,
            ) by {
                if dl.contains(after_restart[i].name@) {
                    let j = choose|j: int| 0 <= j < dl.len() && dl[j] == after_restart[i].name@;
                    assert(dl[j] == deleteNames@[j]@);
                    assert(!has_name(nv, deleteNames@[j]@));
                    assert(nv[i].name@ == after_restart[i].name@);
                }
            }
            assert forall|i: int| 0 <= i < after_restart.len() implies qs[i] == after_restart[i] by {
                assert(crate::process::control::stop_outcome(kill, after_restart, pm, dl, qs[i], i));
            }
            assert(qs =~= after_restart);
        }
        let mut k: usize = 0;
        assert(views(deleteNames@).take(0) =~= Seq::<Seq<char>>::empty());
        while k < deleteNames.len()
            invariant
                self.wf(),
                self.spec_path() == old(self).spec_path(),
                0 <= k <= deleteNames@.len(),
                self.processCtrl.processes() == after_restart,
                self.processCtrl.pid_map() == remove_names(pm, views(deleteNames@).take(k as int)),
            decreases deleteNames@.len() - k,
        {
            let ghost n = deleteNames@[k as int]@;
            self.processCtrl.removeNameFromPidMapping(deleteNames[k].as_str());
            proof {
                assert(views(deleteNames@).take(k + 1).drop_last() =~= views(deleteNames@).take(
                    k as int,
                ));
                assert(views(deleteNames@).take(k + 1).last() == n);
            }
            k = k + 1;
        }
        assert(views(deleteNames@).take(deleteNames@.len() as int) =~= views(deleteNames@));
        let mut out = addNames;
        let ghost a = views(out@);
        let mut rr = restartRunners;
        let ghost b = views(rr@);
        out.append(&mut rr);
        assert(views(out@) =~= a + b);
        out
    }

    /// The status of every process.
    pub fn getAllRunStatus(&mut self) -> (r: Result<Vec<CStatusInfo>, StatusError>)
        requires
            old(self).wf(),
        ensures
            final(self).wf(),
            final(self).control() == old(self).control(),
            final(self).spec_path() == old(self).spec_path(),
            r matches Ok(v) && crate::process::status::all_statuses(
                v@,
                old(self).control().processes(),
                old(self).control().pid_map(),
            ),
    {
        self.processStatus.getAllRunStatus(&self.processCtrl)
    }

    /// The status of `name`, reading the machine's process list anew.
    pub fn getRunStatus(&mut self, name: &str) -> (r: Result<CStatusInfo, StatusError>)
        requires
            old(self).wf(),
        ensures
            final(self).wf(),
            final(self).control() == old(self).control(),
            final(self).spec_path() == old(self).spec_path(),
            r matches Ok(info) ==> info.pid == entry_or_stopped(
                old(self).control().pid_map(),
                name@,
            ).pid && info.status@ == entry_or_stopped(old(self).control().pid_map(), name@).status
                && info.name@ == name@,
            exists|found: Option<(i32, u64)>, now: i64|
                crate::process::status::looked_up(
                    found,
                    entry_or_stopped(old(self).control().pid_map(), name@).pid,
                ) && crate::process::status::clock_reading(now)
                    && #[trigger] crate::process::status::is_run_status(
                    r,
                    entry_or_stopped(old(self).control().pid_map(), name@),
                    name@,
                    crate::process::status::start_of(found),
                    now,
                ),
            entry_or_stopped(old(self).control().pid_map(), name@).pid < 0 ==> (r matches Ok(info)
                && info.runTime@ == crate::process::status::process_runtime_default@),
    {
        self.processStatus.getRunStatus(&self.processCtrl, name, false)
    }

    /// Stops every process.
    pub fn stopAllProcess<K: Fn(i32) -> bool>(&mut self, kill: &K)
        requires
            old(self).wf(),
            forall|p: i32| kill.requires((p,)),
        ensures
            final(self).wf(),
            final(self).spec_path() == old(self).spec_path(),
            final(self).control().pid_map() == old(self).control().pid_map(),
            stopped_from(
                kill,
                old(self).control().processes(),
                old(self).control().pid_map(),
                names(old(self).control().processes()),
                final(self).control().processes(),
            ),
    {
        self.processCtrl.stopAllProcess(kill);
    }

    /// Stops the process `name`; fails when it has no pid entry or the kill
    /// fails.
    pub fn stopProcess<K: Fn(i32) -> bool>(&mut self, name: &str, kill: &K) -> (r: Result<
        (),
        DispatchError,
    >)
        requires
            old(self).wf(),
            forall|p: i32| kill.requires((p,)),
        ensures
            final(self).wf(),
            final(self).spec_path() == old(self).spec_path(),
            final(self).control().pid_map() == old(self).control().pid_map(),
            r is Err ==> r == Err::<(), DispatchError>(DispatchError::StopProcess),
            stop_effect(
                kill,
                old(self).control().processes(),
                old(self).control().pid_map(),
                name@,
                r is Ok,
                final(self).control().processes(),
            ),
    {
        match self.processCtrl.stopProcess(name, kill) {
            Ok(()) => Ok(()),
            Err(_) => Err(DispatchError::StopProcess),
        }
    }

    /// Stops every process that carries `alias`.
    pub fn stopProcessByAlias<K: Fn(i32) -> bool>(&mut self, alias: &str, kill: &K) -> (r: Result<
        (),
        DispatchError,
    >)
        requires
            old(self).wf(),
            forall|p: i32| kill.requires((p,)),
        ensures
            r is Ok,
            final(self).wf(),
            final(self).spec_path() == old(self).spec_path(),
            final(self).control().pid_map() == old(self).control().pid_map(),
            stopped_from(
                kill,
                old(self).control().processes(),
                old(self).control().pid_map(),
                crate::config::alias_names(old(self).control().processes(), alias@),
                final(self).control().processes(),
            ),
    {
        match self.processCtrl.stopProcessByAlias(alias, kill) {
            Ok(()) => Ok(()),
            Err(_) => Err(DispatchError::StopProcess),
        }
    }

    /// Restarts every process; returns the names that need a new runner.
    pub fn restartAllProcess<K: Fn(i32) -> bool>(&mut self, kill: &K) -> (r: Vec<String>)
        requires
            old(self).wf(),
            forall|p: i32| kill.requires((p,)),
        ensures
            final(self).wf(),
            final(self).spec_path() == old(self).spec_path(),
            final(self).control().pid_map() == old(self).control().pid_map(),
            restarted_from(
                kill,
                old(self).control().processes(),
                old(self).control().pid_map(),
                names(old(self).control().processes()),
                final(self).control().processes(),
            ),
            views(r@) == runner_names(
                names(old(self).control().processes()),
                old(self).control().pid_map(),
            ),
    {
        self.processCtrl.restartAllProcess(kill)
    }

    /// Restarts the process `name`.
    pub fn restartProcess<K: Fn(i32) -> bool>(&mut self, name: &str, kill: &K) -> (r: Result<
        Restart,
        DispatchError,
    >)
        requires
            old(self).wf(),
            forall|p: i32| kill.requires((p,)),
        ensures
            final(self).wf(),
            final(self).spec_path() == old(self).spec_path(),
            final(self).control().pid_map() == old(self).control().pid_map(),
            r is Err ==> r == Err::<Restart, DispatchError>(DispatchError::RestartProcess),
            restart_effect(
                kill,
                old(self).control().processes(),
                old(self).control().pid_map(),
                name@,
                match r {
                    Ok(x) => Some(x),
                    Err(_) => None,
                },
                final(self).control().processes(),
            ),
    {
        match self.processCtrl.restartProcess(name, kill) {
            Ok(x) => Ok(x),
            Err(_) => Err(DispatchError::RestartProcess),
        }
    }

    /// Restarts every process that carries `alias`; returns the names that
    /// need a new runner.
    pub fn restartProcessByAlias<K: Fn(i32) -> bool>(&mut self, alias: &str, kill: &K) -> (r:
        Result<Vec<String>, DispatchError>)
        requires
            old(self).wf(),
            forall|p: i32| kill.requires((p,)),
        ensures
            final(self).wf(),
            final(self).spec_path() == old(self).spec_path(),
            final(self).control().pid_map() == old(self).control().pid_map(),
            restarted_from(
                kill,
                old(self).control().processes(),
                old(self).control().pid_map(),
                crate::config::alias_names(old(self).control().processes(), alias@),
                final(self).control().processes(),
            ),
            r matches Ok(v) && views(v@) == runner_names(
                crate::config::alias_names(old(self).control().processes(), alias@),
                old(self).control().pid_map(),
            ),
    {
        match self.processCtrl.restartProcessByAlias(alias, kill) {
            Ok(v) => Ok(v),
            Err(_) => Err(DispatchError::RestartProcess),
        }
    }

    /// The path of the configuration file.
    pub fn getConfigPath(&self) -> (r: &str)
        ensures
            r@ == self.spec_path(),
    {
        self.path.as_str()
    }

    /// The configuration file.
    pub fn fileOps(&self) -> (r: &CFile)
        requires
            self.wf(),
        ensures
            r.spec_path() == self.spec_path(),
    {
        &self.fileOps
    }

    /// The process controller.
    pub fn processCtrl(&self) -> (r: &CControl)
        ensures
            *r == self.control(),
    {
        &self.processCtrl
    }

    /// The process controller, for changes.
    pub fn processCtrlMut(&mut self) -> (r: &mut CControl)
        ensures
            *r == old(self).control(),
            final(self).control() == *final(r),
            final(self).spec_path() == old(self).spec_path(),
            old(self).wf() ==> final(r).wf() ==> final(self).wf(),
    {
        &mut self.processCtrl
    }
}

} // verus!
