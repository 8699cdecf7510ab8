//! The rules by which watched processes are started, stopped and restarted.
//!
//! `CControl` keeps the configured processes and the pid table.  Sending a
//! signal is the caller's business: the operations that kill a process take
//! the kill as a function of the pid that answers whether it succeeded.
#![allow(non_snake_case)]
use vstd::prelude::*;

use super::pids::{CPid, CPidView, PidMapping};
use super::{ProcessStatus, StatusView};
use crate::config::{
    Process,
    alias_names,
    first_named,
    has_alias,
    is_first_named,
    lemma_first_named,
    lemma_first_named_same_names,
    lemma_no_first_named,
    names,
    set_auto,
};
use crate::strings::{split_whitespace, str_eq, views};

verus! {

/// Why a control operation failed.
#[derive(PartialEq, Eq, Structural, Debug, Clone, Copy)]
pub enum ControlError {
    /// The process has no entry in the pid table.
    FindPid,
    /// The kill signal could not be delivered.
    Kill,
    /// The process is neither running nor failed, so it cannot be restarted.
    NotRunning,
}

/// What a successful restart asks of the caller.
#[derive(PartialEq, Eq, Structural, Debug, Clone, Copy)]
pub enum Restart {
    /// No runner watches the process any more: start a new one.
    NeedsRunner,
    /// The running process was killed; its runner starts it again.
    Killed,
}

/// The entry of `name` says that its process is running.
pub open spec fn is_running(pm: Map<Seq<char>, CPidView>, name: Seq<char>) -> bool {
    pm.contains_key(name) && pm[name].status is Running
}

/// Restarting `name` needs a new runner: it has no entry, or it failed, or
/// it exited too soon.
pub open spec fn needs_runner(pm: Map<Seq<char>, CPidView>, name: Seq<char>) -> bool {
    !pm.contains_key(name) || pm[name].status is Failed || pm[name].status is QuickExit
}

/// The names among `l` for which a restart needs a new runner, in order.
pub open spec fn runner_names(l: Seq<Seq<char>>, pm: Map<Seq<char>, CPidView>) -> Seq<Seq<char>>
    decreases l.len(),
{
    if l.len() == 0 {
        seq![]
    } else {
        let r = runner_names(l.drop_last(), pm);
        if needs_runner(pm, l.last()) {
            r.push(l.last())
        } else {
            r
        }
    }
}

/// The kill was asked about the pid of each name in `l` whose entry says
/// its process runs.
pub open spec fn kills_running<K: Fn(i32) -> bool>(
    kill: &K,
    pm: Map<Seq<char>, CPidView>,
    l: Seq<Seq<char>>,
) -> bool {
    forall|j: int|
        0 <= j < l.len() && is_running(pm, #[trigger] l[j]) ==> exists|killed: bool|
            #[trigger] kill.ensures((pm[l[j]].pid,), killed)
}

proof fn lemma_kills_push<K: Fn(i32) -> bool>(
    kill: &K,
    pm: Map<Seq<char>, CPidView>,
    l: Seq<Seq<char>>,
    n: Seq<char>,
)
    requires
        kills_running(kill, pm, l),
        is_running(pm, n) ==> exists|killed: bool| #[trigger] kill.ensures((pm[n].pid,), killed),
    ensures
        kills_running(kill, pm, l.push(n)),
{
    let lp = l.push(n);
    assert forall|j: int| 0 <= j < lp.len() && is_running(pm, #[trigger] lp[j]) implies exists|
        killed: bool,
    | #[trigger] kill.ensures((pm[lp[j]].pid,), killed) by {
        if j < l.len() {
            assert(lp[j] == l[j]);
        } else {
            assert(lp[j] == n);
        }
    }
}

/// What became of process `i` of `ps`, now `q`, when the processes named in
/// `l` were stopped: the first process of a name in `l` whose entry says it
/// runs was killed, and is automatic afterwards exactly when that kill (the
/// last one, when the name comes more than once) failed; any other process
/// stays as it was.
pub open spec fn stop_outcome<K: Fn(i32) -> bool>(
    kill: &K,
    ps: Seq<Process>,
    pm: Map<Seq<char>, CPidView>,
    l: Seq<Seq<char>>,
    q: Process,
    i: int,
) -> bool {
    if is_first_named(ps, ps[i].name@, i) && is_running(pm, ps[i].name@) && l.contains(ps[i].name@) {
        exists|killed: bool|
            #[trigger] kill.ensures((pm[ps[i].name@].pid,), killed) && q == Process {
                isAuto: !killed,
                ..ps[i]
            }
    } else {
        q == ps[i]
    }
}

/// `qs` is `ps` after stopping the processes named in `l`, as
/// `stop_outcome` says of each process; each of those names whose entry
/// says it runs had its pid killed.
pub open spec fn stopped_from<K: Fn(i32) -> bool>(
    kill: &K,
    ps: Seq<Process>,
    pm: Map<Seq<char>, CPidView>,
    l: Seq<Seq<char>>,
    qs: Seq<Process>,
) -> bool {
    &&& qs.len() == ps.len()
    &&& forall|i: int| 0 <= i < ps.len() ==> #[trigger] stop_outcome(kill, ps, pm, l, qs[i], i)
    &&& kills_running(kill, pm, l)
}

/// Stopping the processes named in `l` changes `isAuto` alone.
proof fn lemma_stopped_same_names<K: Fn(i32) -> bool>(
    kill: &K,
    ps: Seq<Process>,
    pm: Map<Seq<char>, CPidView>,
    l: Seq<Seq<char>>,
    qs: Seq<Process>,
)
    requires
        stopped_from(kill, ps, pm, l, qs),
    ensures
        forall|i: int|
            0 <= i < ps.len() ==> #[trigger] qs[i] == (Process { isAuto: qs[i].isAuto, ..ps[i] }),
{
    assert forall|i: int| 0 <= i < ps.len() implies #[trigger] qs[i] == Process {
        isAuto: qs[i].isAuto,
        ..ps[i]
    } by {
        assert(stop_outcome(kill, ps, pm, l, qs[i], i));
    }
}

/// One more stop, of `n`, after those of `l`: `after` is `before` as
/// `CControl::stopProcess` leaves it.
proof fn lemma_stop_step<K: Fn(i32) -> bool>(
    kill: &K,
    ps: Seq<Process>,
    pm: Map<Seq<char>, CPidView>,
    l: Seq<Seq<char>>,
    n: Seq<char>,
    before: Seq<Process>,
    after: Seq<Process>,
)
    requires
        stopped_from(kill, ps, pm, l, before),
        !is_running(pm, n) ==> after == before,
        is_running(pm, n) ==> exists|killed: bool|
            #[trigger] kill.ensures((pm[n].pid,), killed) && after == set_auto(before, n, !killed),
    ensures
        stopped_from(kill, ps, pm, l.push(n), after),
{
    lemma_kills_push(kill, pm, l, n);
    lemma_stopped_same_names(kill, ps, pm, l, before);
    assert forall|j: int| 0 <= j < ps.len() implies (#[trigger] before[j]).name@ == ps[j].name@ by {}
    lemma_first_named_same_names(before, ps, n);
    let lp = l.push(n);
    assert forall|x: Seq<char>| x != n implies #[trigger] lp.contains(x) == l.contains(x) by {
        if lp.contains(x) {
            let w = choose|w: int| 0 <= w < lp.len() && lp[w] == x;
            assert(l[w] == x);
        }
        if l.contains(x) {
            let w = choose|w: int| 0 <= w < l.len() && l[w] == x;
            assert(lp[w] == x);
        }
    }
    assert(lp[l.len() as int] == n);
    if is_running(pm, n) {
        let killed = choose|killed: bool|
            #[trigger] kill.ensures((pm[n].pid,), killed) && after == set_auto(before, n, !killed);
        lemma_set_auto_shape(before, n, !killed);
        assert forall|i: int| 0 <= i < ps.len() implies #[trigger] stop_outcome(
            kill,
            ps,
            pm,
            lp,
            after[i],
            i,
        ) by {
            assert(stop_outcome(kill, ps, pm, l, before[i], i));
            if ps[i].name@ == n && is_first_named(ps, n, i) {
                assert(kill.ensures((pm[ps[i].name@].pid,), killed));
            }
        }
    } else {
        assert forall|i: int| 0 <= i < ps.len() implies #[trigger] stop_outcome(
            kill,
            ps,
            pm,
            lp,
            after[i],
            i,
        ) by {
            assert(stop_outcome(kill, ps, pm, l, before[i], i));
        }
    }
}

/// `qs` is `ps` after restarting the processes named in `l`: the first
/// process of each name in `l` that needs a new runner is made automatic,
/// and each of those names whose entry says it runs had its pid killed.
pub open spec fn restarted_from<K: Fn(i32) -> bool>(
    kill: &K,
    ps: Seq<Process>,
    pm: Map<Seq<char>, CPidView>,
    l: Seq<Seq<char>>,
    qs: Seq<Process>,
) -> bool {
    &&& qs.len() == ps.len()
    &&& forall|i: int|
        0 <= i < ps.len() ==> #[trigger] qs[i] == if is_first_named(ps, ps[i].name@, i)
            && needs_runner(pm, ps[i].name@) && l.contains(ps[i].name@) {
            Process { isAuto: true, ..ps[i] }
        } else {
            ps[i]
        }
    &&& kills_running(kill, pm, l)
}

proof fn lemma_set_auto_shape(ps: Seq<Process>, name: Seq<char>, b: bool)
    ensures
        set_auto(ps, name, b).len() == ps.len(),
        forall|i: int|
            0 <= i < ps.len() ==> #[trigger] set_auto(ps, name, b)[i] == if is_first_named(
                ps,
                name,
                i,
            ) {
                Process { isAuto: b, ..ps[i] }
            } else {
                ps[i]
            },
{
    match first_named(ps, name) {
        Some(f) => {
            assert(is_first_named(ps, name, f));
            assert forall|i: int| 0 <= i < ps.len() implies #[trigger] set_auto(ps, name, b)[i]
                == if is_first_named(ps, name, i) {
                Process { isAuto: b, ..ps[i] }
            } else {
                ps[i]
            } by {
                if is_first_named(ps, name, i) {
                    lemma_first_named(ps, name, i);
                }
            }
        },
        None => {
            assert forall|i: int| 0 <= i < ps.len() implies !is_first_named(ps, name, i) by {
                if is_first_named(ps, name, i) {
                    lemma_first_named(ps, name, i);
                }
            }
        },
    }
}

proof fn lemma_set_auto_twice(ps: Seq<Process>, name: Seq<char>, a: bool, b: bool)
    ensures
        set_auto(set_auto(ps, name, a), name, b) == set_auto(ps, name, b),
{
    let qs = set_auto(ps, name, a);
    lemma_set_auto_shape(ps, name, a);
    lemma_first_named_same_names(ps, qs, name);
    lemma_set_auto_shape(qs, name, b);
    lemma_set_auto_shape(ps, name, b);
    assert(set_auto(qs, name, b) =~= set_auto(ps, name, b));
}

proof fn lemma_runner_names_push(l: Seq<Seq<char>>, pm: Map<Seq<char>, CPidView>, n: Seq<char>)
    ensures
        runner_names(l.push(n), pm) == if needs_runner(pm, n) {
            runner_names(l, pm).push(n)
        } else {
            runner_names(l, pm)
        },
{
    assert(l.push(n).drop_last() =~= l);
}

/// The state of one runner: the process it keeps alive and the `PATH` it
/// hands to the process, which grows by the working directory on every start.
pub struct CRunner {
    name: String,
    osPath: String,
    separator: String,
}

impl CRunner {
    /// The name of the process this runner keeps alive.
    pub closed spec fn spec_name(&self) -> Seq<char> {
        self.name@
    }

    pub fn name(&self) -> (r: &str)
        ensures
            r@ == self.spec_name(),
    {
        self.name.as_str()
    }

    /// The `PATH` the next start extends.
    pub closed spec fn os_path(&self) -> Seq<char> {
        self.osPath@
    }

    /// What separates entries of `PATH`.
    pub closed spec fn separator(&self) -> Seq<char> {
        self.separator@
    }

    pub fn new(name: &str, systemPath: &str, separator: &str) -> (r: CRunner)
        ensures
            r.spec_name() == name@,
            r.os_path() == systemPath@,
            r.separator() == separator@,
    {
        CRunner {
            name: name.to_owned(),
            osPath: systemPath.to_owned(),
            separator: separator.to_owned(),
        }
    }
}

/// How to start a process, and how long to let it run.
pub struct LaunchPlan {
    pub execute: String,
    pub args: Vec<String>,
    pub directory: String,
    /// The `PATH` of the child.
    pub path: String,
    /// When set, the runner stops waiting after this many seconds and starts
    /// the process again; otherwise it waits until the process exits.
    pub timeoutS: Option<i64>,
}

/// What a runner does next.
pub enum LaunchStep {
    /// The runner ends.
    Exit,
    /// The runner starts a process by this plan.
    Spawn(LaunchPlan),
}

/// The words of all arguments, in order.
pub open spec fn arg_words(args: Seq<String>) -> Seq<Seq<char>>
    decreases args.len(),
{
    if args.len() == 0 {
        seq![]
    } else {
        arg_words(args.drop_last()) + crate::strings::words(args.last()@)
    }
}

/// The program a process runs: `execute`, or when that is empty the first
/// word of the arguments.
pub open spec fn program_of(p: Process) -> Option<Seq<char>> {
    if p.execute@.len() == 0 {
        let w = arg_words(p.args@);
        if w.len() == 0 {
            None
        } else {
            Some(w[0])
        }
    } else {
        Some(p.execute@)
    }
}

/// The arguments a process gets: the words of `args`, without the first one
/// when that one became the program.
pub open spec fn program_args(p: Process) -> Seq<Seq<char>> {
    let w = arg_words(p.args@);
    if p.execute@.len() == 0 && w.len() > 0 {
        w.drop_first()
    } else {
        w
    }
}

/// The time after which a process is started anew: a positive `restartTimeS`.
pub open spec fn restart_timeout(p: Process) -> Option<i64> {
    match p.restartTimeS {
        Some(t) => if t > 0 {
            Some(t)
        } else {
            None
        },
        None => None,
    }
}

/// The pid table is consistent: an entry that says its process is starting,
/// failed or exited too soon has no pid (`-1`).
pub open spec fn entries_consistent(pm: Map<Seq<char>, CPidView>) -> bool {
    forall|n: Seq<char>|
        #[trigger] pm.contains_key(n) && (pm[n].status is Starting || pm[n].status is Failed
            || pm[n].status is QuickExit) ==> pm[n].pid == -1
}

/// The processes and their pid table.
pub struct CControl {
    processes: Vec<Process>,
    pids: PidMapping,
}

impl CControl {
    /// The configured processes.
    pub closed spec fn processes(&self) -> Seq<Process> {
        self.processes@
    }

    /// The pid table.
    pub closed spec fn pid_map(&self) -> Map<Seq<char>, CPidView> {
        self.pids@
    }

    /// The controller's own invariant.
    pub closed spec fn wf(&self) -> bool {
        self.pids.wf()
    }

    pub fn new(processes: Vec<Process>) -> (r: CControl)
        ensures
            r.wf(),
            r.processes() == processes@,
            r.pid_map() == Map::<Seq<char>, CPidView>::empty(),
    {
        CControl { processes, pids: PidMapping::new() }
    }

    /// The configured processes.
    pub fn processList(&self) -> (r: &Vec<Process>)
        ensures
            r@ == self.processes(),
    {
        &self.processes
    }

    /// Replaces the configured processes; the pid table stays.
    pub fn setProcesses(&mut self, processes: Vec<Process>)
        requires
            old(self).wf(),
        ensures
            final(self).wf(),
            final(self).processes() == processes@,
            final(self).pid_map() == old(self).pid_map(),
    {
        self.processes = processes;
    }

    /// The pid entry of `name`.
    pub fn findPid(&self, name: &str) -> (r: Option<CPid>)
        requires
            self.wf(),
        ensures
            match r {
                Some(c) => self.pid_map().contains_key(name@) && self.pid_map()[name@] == c@,
                None => !self.pid_map().contains_key(name@),
            },
    {
        self.pids.get(name)
    }

    /// Forgets the pid entry of `name`.
    pub fn removeNameFromPidMapping(&mut self, name: &str)
        requires
            old(self).wf(),
        ensures
            entries_consistent(old(self).pid_map()) ==> entries_consistent(final(self).pid_map()),
            final(self).wf(),
            final(self).pid_map() == old(self).pid_map().remove(name@),
            final(self).processes() == old(self).processes(),
    {
        self.pids.remove(name);
    }

    fn replacePid(&mut self, name: &str, pid: i32, status: ProcessStatus)
        requires
            old(self).wf(),
        ensures
            final(self).wf(),
            final(self).pid_map() == old(self).pid_map().insert(
                name@,
                CPidView { pid, status: status@ },
            ),
            final(self).processes() == old(self).processes(),
    {
        self.pids.insert(name, CPid { pid, status });
    }

    fn deletePid(&mut self, name: &str)
        requires
            old(self).wf(),
        ensures
            final(self).wf(),
            final(self).pid_map() == old(self).pid_map().remove(name@),
            final(self).processes() == old(self).processes(),
    {
        self.pids.remove(name);
    }

    fn firstIndex(&self, name: &str) -> (r: Option<usize>)
        ensures
            match r {
                Some(i) => first_named(self.processes(), name@) == Some(i as int),
                None => first_named(self.processes(), name@) is None,
            },
    {
        let mut i: usize = 0;
        while i < self.processes.len()
            invariant
                0 <= i <= self.processes@.len(),
                forall|j: int| 0 <= j < i ==> (#[trigger] self.processes@[j]).name@ != name@,
            decreases self.processes@.len() - i,
        {
            if str_eq(self.processes[i].name.as_str(), name) {
                proof {
                    lemma_first_named(self.processes@, name@, i as int);
                }
                return Some(i);
            }
            i = i + 1;
        }
        proof {
            lemma_no_first_named(self.processes@, name@);
        }
        None
    }

    /// Sets `isAuto` of the first process named `name`.
    pub fn cancelProcessAuto(&mut self, name: &str, isAuto: bool)
        requires
            old(self).wf(),
        ensures
            final(self).wf(),
            final(self).processes() == set_auto(old(self).processes(), name@, isAuto),
            final(self).pid_map() == old(self).pid_map(),
    {
        match self.firstIndex(name) {
            Some(i) => {
                self.processes[i].isAuto = isAuto;
                assert(self.processes@ =~= set_auto(old(self).processes(), name@, isAuto));
            },
            None => {},
        }
    }

    fn updateIsAuto(&mut self, name: &str)
        requires
            old(self).wf(),
        ensures
            final(self).wf(),
            final(self).processes() == set_auto(old(self).processes(), name@, true),
            final(self).pid_map() == old(self).pid_map(),
    {
        self.cancelProcessAuto(name, true);
    }

    /// The names of the processes, in order.
    pub fn processNames(&self) -> (r: Vec<String>)
        ensures
            views(r@) == names(self.processes()),
    {
        let mut r: Vec<String> = Vec::new();
        let mut i: usize = 0;
        while i < self.processes.len()
            invariant
                0 <= i <= self.processes@.len(),
                views(r@) == names(self.processes@.take(i as int)),
            decreases self.processes@.len() - i,
        {
            let ghost old_r = r@;
            let n = self.processes[i].name.clone();
            r.push(n);
            assert(views(r@) =~= views(old_r).push(n@));
            assert(names(self.processes@.take(i + 1)) =~= names(self.processes@.take(i as int)).push(
                self.processes@[i as int].name@,
            ));
            i = i + 1;
        }
        assert(self.processes@.take(i as int) =~= self.processes@);
        r
    }

    /// The names of the processes that carry `alias`, in order.
    pub fn findProcessNamesByAlias(&self, alias: &str) -> (r: Vec<String>)
        ensures
            views(r@) == alias_names(self.processes(), alias@),
    {
        let mut r: Vec<String> = Vec::new();
        let mut i: usize = 0;
        while i < self.processes.len()
            invariant
                0 <= i <= self.processes@.len(),
                views(r@) == alias_names(self.processes@.take(i as int), alias@),
            decreases self.processes@.len() - i,
        {
            let ghost pre = self.processes@.take(i as int);
            assert(self.processes@.take(i + 1).drop_last() =~= pre);
            let matches = match &self.processes[i].alias {
                Some(a) => str_eq(a.as_str(), alias),
                None => false,
            };
            if matches {
                let n = self.processes[i].name.clone();
                r.push(n);
                assert(views(r@) =~= alias_names(pre, alias@).push(n@));
            }
            i = i + 1;
        }
        assert(self.processes@.take(i as int) =~= self.processes@);
        r
    }

    /// The names of the processes to start when the watchdog starts.
    pub fn startAllProcess(&self) -> (r: Vec<String>)
        ensures
            views(r@) == names(self.processes()),
    {
        self.processNames()
    }

    /// Stops the process `name`: when its entry says it runs, it is no
    /// longer automatic and is killed; when the kill fails it is made
    /// automatic again.
    pub fn stopProcess<K: Fn(i32) -> bool>(&mut self, name: &str, kill: &K) -> (r: Result<
        (),
        ControlError,
    >)
        requires
            old(self).wf(),
            forall|p: i32| kill.requires((p,)),
        ensures
            final(self).wf(),
            final(self).pid_map() == old(self).pid_map(),
            !old(self).pid_map().contains_key(name@) ==> r == Err::<(), _>(ControlError::FindPid)
                && final(self).processes() == old(self).processes(),
            old(self).pid_map().contains_key(name@) && !is_running(old(self).pid_map(), name@)
                ==> r == Ok::<(), ControlError>(()) && final(self).processes() == old(self).processes(),
            is_running(old(self).pid_map(), name@) ==> exists|killed: bool|
                #[trigger] kill.ensures((old(self).pid_map()[name@].pid,), killed) && if killed {
                    r == Ok::<(), ControlError>(()) && final(self).processes() == set_auto(
                        old(self).processes(),
                        name@,
                        false,
                    )
                } else {
                    r == Err::<(), _>(ControlError::Kill) && final(self).processes() == set_auto(
                        old(self).processes(),
                        name@,
                        true,
                    )
                },
    {
        let pid = match self.findPid(name) {
            Some(p) => p,
            None => {
                return Err(ControlError::FindPid);
            },
        };
        match pid.status {
            ProcessStatus::Running => {},
            _ => {
                return Ok(());
            },
        }
        self.cancelProcessAuto(name, false);
        let killed = kill(pid.pid);
        assert(kill.ensures((pid.pid,), killed));
        assert(pid.pid == old(self).pid_map()[name@].pid);
        if !killed {
            self.cancelProcessAuto(name, true);
            proof {
                lemma_set_auto_twice(old(self).processes(), name@, false, true);
            }
            assert(self.processes() == set_auto(old(self).processes(), name@, true));
            assert(kill.ensures((old(self).pid_map()[name@].pid,), killed));
            return Err(ControlError::Kill);
        }
        Ok(())
    }

    /// Stops the processes named in `l`, in order.
    pub fn stopNames<K: Fn(i32) -> bool>(&mut self, l: &Vec<String>, kill: &K)
        requires
            old(self).wf(),
            forall|p: i32| kill.requires((p,)),
        ensures
            final(self).wf(),
            final(self).pid_map() == old(self).pid_map(),
            stopped_from(kill, old(self).processes(), old(self).pid_map(), views(l@), final(self).processes()),
    {
        let ghost ps = self.processes@;
        let ghost pm = self.pids@;
        let mut k: usize = 0;
        assert(stopped_from(kill, ps, pm, views(l@).take(0), self.processes@)) by {
            assert forall|i: int| 0 <= i < ps.len() implies #[trigger] stop_outcome(
                kill,
                ps,
                pm,
                views(l@).take(0),
                self.processes@[i],
                i,
            ) by {
                assert(!views(l@).take(0).contains(ps[i].name@));
            }
        }
        while k < l.len()
            invariant
                self.wf(),
                self.pids@ == pm,
                0 <= k <= l@.len(),
                forall|p: i32| kill.requires((p,)),
                stopped_from(kill, ps, pm, views(l@).take(k as int), self.processes@),
            decreases l@.len() - k,
        {
            let ghost before = self.processes@;
            let _ = self.stopProcess(l[k].as_str(), kill);
            let ghost n = l@[k as int]@;
            proof {
                assert(views(l@).take(k + 1) =~= views(l@).take(k as int).push(n));
                if is_running(pm, n) {
                    let killed = choose|killed: bool|
                        #[trigger] kill.ensures((pm[n].pid,), killed) && if killed {
                            self.processes@ == set_auto(before, n, false)
                        } else {
                            self.processes@ == set_auto(before, n, true)
                        };
                    assert(kill.ensures((pm[n].pid,), killed) && self.processes@ == set_auto(
                        before,
                        n,
                        !killed,
                    ));
                }
                lemma_stop_step(kill, ps, pm, views(l@).take(k as int), n, before, self.processes@);
            }
            k = k + 1;
        }
        assert(views(l@).take(l@.len() as int) =~= views(l@));
    }

    /// Stops every process.
    pub fn stopAllProcess<K: Fn(i32) -> bool>(&mut self, kill: &K)
        requires
            old(self).wf(),
            forall|p: i32| kill.requires((p,)),
        ensures
            final(self).wf(),
            final(self).pid_map() == old(self).pid_map(),
            stopped_from(
                kill,
                old(self).processes(),
                old(self).pid_map(),
                names(old(self).processes()),
                final(self).processes(),
            ),
    {
        let l = self.processNames();
        self.stopNames(&l, kill);
    }

    /// Stops every process that carries `alias`.
    pub fn stopProcessByAlias<K: Fn(i32) -> bool>(&mut self, alias: &str, kill: &K) -> (r: Result<
        (),
        ControlError,
    >)
        requires
            old(self).wf(),
            forall|p: i32| kill.requires((p,)),
        ensures
            r is Ok,
            final(self).wf(),
            final(self).pid_map() == old(self).pid_map(),
            stopped_from(
                kill,
                old(self).processes(),
                old(self).pid_map(),
                alias_names(old(self).processes(), alias@),
                final(self).processes(),
            ),
    {
        let l = self.findProcessNamesByAlias(alias);
        self.stopNames(&l, kill);
        Ok(())
    }

    /// Restarts the process `name`.  One that has no entry, failed, or exited
    /// too soon is made automatic and needs a new runner; a running one is
    /// killed, and its runner starts it again.
    pub fn restartProcess<K: Fn(i32) -> bool>(&mut self, name: &str, kill: &K) -> (r: Result<
        Restart,
        ControlError,
    >)
        requires
            old(self).wf(),
            forall|p: i32| kill.requires((p,)),
        ensures
            final(self).wf(),
            final(self).pid_map() == old(self).pid_map(),
            needs_runner(old(self).pid_map(), name@) ==> r == Ok::<Restart, ControlError>(
                Restart::NeedsRunner,
            ) && final(self).processes() == set_auto(old(self).processes(), name@, true),
            is_running(old(self).pid_map(), name@) ==> final(self).processes() == old(self).processes() && exists|killed: bool|
                #[trigger] kill.ensures((old(self).pid_map()[name@].pid,), killed) && r == if killed {
                    Ok::<Restart, ControlError>(Restart::Killed)
                } else {
                    Err::<Restart, ControlError>(ControlError::Kill)
                },
            !needs_runner(old(self).pid_map(), name@) && !is_running(old(self).pid_map(), name@)
                ==> r == Err::<Restart, ControlError>(ControlError::NotRunning) && final(self).processes() == old(self).processes(),
    {
        let pid = match self.findPid(name) {
            Some(p) => match p.status {
                ProcessStatus::Failed(_) | ProcessStatus::QuickExit => {
                    self.updateIsAuto(name);
                    return Ok(Restart::NeedsRunner);
                },
                _ => p,
            },
            None => {
                self.updateIsAuto(name);
                return Ok(Restart::NeedsRunner);
            },
        };
        match pid.status {
            ProcessStatus::Running => {},
            _ => {
                return Err(ControlError::NotRunning);
            },
        }
        let killed = kill(pid.pid);
        assert(pid.pid == old(self).pid_map()[name@].pid);
        assert(kill.ensures((old(self).pid_map()[name@].pid,), killed));
        if !killed {
            return Err(ControlError::Kill);
        }
        Ok(Restart::Killed)
    }

    /// Restarts the processes named in `l`, in order; returns the names that
    /// need a new runner.
    pub fn restartNames<K: Fn(i32) -> bool>(&mut self, l: &Vec<String>, kill: &K) -> (r: Vec<String>)
        requires
            old(self).wf(),
            forall|p: i32| kill.requires((p,)),
        ensures
            final(self).wf(),
            final(self).pid_map() == old(self).pid_map(),
            restarted_from(
                kill,
                old(self).processes(),
                old(self).pid_map(),
                views(l@),
                final(self).processes(),
            ),
            views(r@) == runner_names(views(l@), old(self).pid_map()),
    {
        let ghost ps = self.processes@;
        let ghost pm = self.pids@;
        let mut out: Vec<String> = Vec::new();
        let mut k: usize = 0;
        assert(views(l@).take(0) =~= Seq::<Seq<char>>::empty());
        assert(self.processes@ =~= ps);
        while k < l.len()
            invariant
                self.wf(),
                self.pids@ == pm,
                0 <= k <= l@.len(),
                forall|p: i32| kill.requires((p,)),
                restarted_from(kill, ps, pm, views(l@).take(k as int), self.processes@),
                views(out@) == runner_names(views(l@).take(k as int), pm),
            decreases l@.len() - k,
        {
            let ghost before = self.processes@;
            let ghost old_out = out@;
            let ghost n = l@[k as int]@;
            let res = self.restartProcess(l[k].as_str(), kill);
            match res {
                Ok(Restart::NeedsRunner) => {
                    let name = l[k].clone();
                    out.push(name);
                },
                _ => {},
            }
            proof {
                assert(views(l@).take(k + 1) =~= views(l@).take(k as int).push(n));
                lemma_runner_names_push(views(l@).take(k as int), pm, n);
                if needs_runner(pm, n) {
                    assert(views(out@) =~= views(old_out).push(n));
                }
                assert forall|j: int| 0 <= j < before.len() implies (#[trigger] before[j]).name@
                    == ps[j].name@ by {}
                lemma_set_auto_shape(before, n, true);
                lemma_first_named_same_names(before, ps, n);
                assert forall|i: int| 0 <= i < ps.len() implies #[trigger] self.processes@[i]
                    == if is_first_named(ps, ps[i].name@, i) && needs_runner(pm, ps[i].name@)
                    && views(l@).take(k + 1).contains(ps[i].name@) {
                    Process { isAuto: true, ..ps[i] }
                } else {
                    ps[i]
                } by {
                    let pre = views(l@).take(k as int);
                    let post = views(l@).take(k + 1);
                    if pre.contains(ps[i].name@) {
                        let w = choose|w: int| 0 <= w < pre.len() && pre[w] == ps[i].name@;
                        assert(post[w] == ps[i].name@);
                    }
                    if post.contains(ps[i].name@) && !pre.contains(ps[i].name@) {
                        let w = choose|w: int| 0 <= w < post.len() && post[w] == ps[i].name@;
                        if w < k {
                            assert(pre[w] == ps[i].name@);
                        }
                        assert(ps[i].name@ == n);
                    }
                    if ps[i].name@ == n {
                        assert(post[k as int] == n);
                    }
                }
            }
            k = k + 1;
        }
        assert(views(l@).take(l@.len() as int) =~= views(l@));
        out
    }

    /// Restarts every process; returns the names that need a new runner.
    pub fn restartAllProcess<K: Fn(i32) -> bool>(&mut self, kill: &K) -> (r: Vec<String>)
        requires
            old(self).wf(),
            forall|p: i32| kill.requires((p,)),
        ensures
            final(self).wf(),
            final(self).pid_map() == old(self).pid_map(),
            restarted_from(
                kill,
                old(self).processes(),
                old(self).pid_map(),
                names(old(self).processes()),
                final(self).processes(),
            ),
            views(r@) == runner_names(names(old(self).processes()), old(self).pid_map()),
    {
        let l = self.processNames();
        self.restartNames(&l, kill)
    }

    /// Restarts every process that carries `alias`; returns the names that
    /// need a new runner.
    pub fn restartProcessByAlias<K: Fn(i32) -> bool>(&mut self, alias: &str, kill: &K) -> (r:
        Result<Vec<String>, ControlError>)
        requires
            old(self).wf(),
            forall|p: i32| kill.requires((p,)),
        ensures
            final(self).wf(),
            final(self).pid_map() == old(self).pid_map(),
            restarted_from(
                kill,
                old(self).processes(),
                old(self).pid_map(),
                alias_names(old(self).processes(), alias@),
                final(self).processes(),
            ),
            r matches Ok(v) && views(v@) == runner_names(
                alias_names(old(self).processes(), alias@),
                old(self).pid_map(),
            ),
    {
        let l = self.findProcessNamesByAlias(alias);
        let r = self.restartNames(&l, kill);
        Ok(r)
    }

    fn argWords(args: &Vec<String>) -> (r: Vec<String>)
        ensures
            views(r@) == arg_words(args@),
    {
        let mut out: Vec<String> = Vec::new();
        let mut j: usize = 0;
        while j < args.len()
            invariant
                0 <= j <= args@.len(),
                views(out@) == arg_words(args@.take(j as int)),
            decreases args@.len() - j,
        {
            let ghost old_out = out@;
            let mut w = split_whitespace(args[j].as_str());
            let ghost wv = w@;
            out.append(&mut w);
            proof {
                assert(args@.take(j + 1).drop_last() =~= args@.take(j as int));
                assert(views(out@) =~= views(old_out) + views(wv));
            }
            j = j + 1;
        }
        assert(args@.take(args@.len() as int) =~= args@);
        out
    }

    /// The next step of `runner`.  Without a process of its name, or when
    /// that process is not automatic, the runner ends and the pid entry goes.
    /// Otherwise the entry says `Starting` and the runner starts the process,
    /// with the working directory added to its `PATH`; when no program can be
    /// found the entry records the failure and the runner ends.
    pub fn beginLaunch(&mut self, runner: &mut CRunner) -> (r: LaunchStep)
        requires
            old(self).wf(),
        ensures
            entries_consistent(old(self).pid_map()) ==> entries_consistent(final(self).pid_map()),
            final(self).wf(),
            final(self).processes() == old(self).processes(),
            final(runner).spec_name() == old(runner).spec_name(),
            final(runner).separator() == old(runner).separator(),
            ({
                let ps = old(self).processes();
                let pm = old(self).pid_map();
                let n = old(runner).spec_name();
                match first_named(ps, n) {
                    None => r is Exit && final(self).pid_map() == pm.remove(n) && final(runner).os_path()
                        == old(runner).os_path(),
                    Some(i) => if !ps[i].isAuto {
                        r is Exit && final(self).pid_map() == pm.remove(n) && final(runner).os_path()
                            == old(runner).os_path()
                    } else if program_of(ps[i]) is None {
                        &&& r is Exit
                        &&& final(runner).os_path() == old(runner).os_path()
                        &&& final(self).pid_map() == pm.insert(
                            n,
                            CPidView { pid: -1i32, status: StatusView::Failed("args error"@) },
                        )
                    } else {
                        &&& final(runner).os_path() == old(runner).os_path() + old(runner).separator()
                            + ps[i].directory@
                        &&& final(self).pid_map() == pm.insert(
                            n,
                            CPidView { pid: -1i32, status: StatusView::Starting },
                        )
                        &&& r matches LaunchStep::Spawn(plan) && {
                            &&& plan.execute@ == program_of(ps[i])->0
                            &&& views(plan.args@) == program_args(ps[i])
                            &&& plan.directory@ == ps[i].directory@
                            &&& plan.path@ == final(runner).os_path()
                            &&& plan.timeoutS == restart_timeout(ps[i])
                        }
                    },
                }
            }),
    {
        let i = match self.firstIndex(runner.name.as_str()) {
            Some(i) => i,
            None => {
                self.deletePid(runner.name.as_str());
                return LaunchStep::Exit;
            },
        };
        if !self.processes[i].isAuto {
            self.deletePid(runner.name.as_str());
            return LaunchStep::Exit;
        }
        self.replacePid(runner.name.as_str(), -1, ProcessStatus::Starting);
        let ghost p = self.processes@[i as int];
        let mut args = Self::argWords(&self.processes[i].args);
        let execute: String;
        if self.processes[i].execute.as_str().is_empty() {
            if args.len() == 0 {
                let reason = "args error".to_owned();
                self.replacePid(runner.name.as_str(), -1, ProcessStatus::Failed(reason));
                return LaunchStep::Exit;
            }
            let ghost old_args = args@;
            execute = args.remove(0);
            assert(views(args@) =~= views(old_args).drop_first());
        } else {
            execute = self.processes[i].execute.clone();
        }
        runner.osPath.append(runner.separator.as_str());
        runner.osPath.append(self.processes[i].directory.as_str());
        let timeoutS = match self.processes[i].restartTimeS {
            Some(t) => if t > 0 {
                Some(t)
            } else {
                None
            },
            None => None,
        };
        LaunchStep::Spawn(
            LaunchPlan {
                execute,
                args,
                directory: self.processes[i].directory.clone(),
                path: runner.osPath.clone(),
                timeoutS,
            },
        )
    }

    /// The process of `name` could not be started: its entry records why.
    pub fn spawnFailed(&mut self, name: &str, reason: String)
        requires
            old(self).wf(),
        ensures
            entries_consistent(old(self).pid_map()) ==> entries_consistent(final(self).pid_map()),
            final(self).wf(),
            final(self).processes() == old(self).processes(),
            final(self).pid_map() == old(self).pid_map().insert(
                name@,
                CPidView { pid: -1i32, status: StatusView::Failed(reason@) },
            ),
    {
        self.replacePid(name, -1, ProcessStatus::Failed(reason));
    }

    /// The process of `name` runs with pid `pid`.
    pub fn spawned(&mut self, name: &str, pid: i32)
        requires
            old(self).wf(),
        ensures
            entries_consistent(old(self).pid_map()) ==> entries_consistent(final(self).pid_map()),
            final(self).wf(),
            final(self).processes() == old(self).processes(),
            final(self).pid_map() == old(self).pid_map().insert(
                name@,
                CPidView { pid, status: StatusView::Running },
            ),
    {
        self.replacePid(name, pid, ProcessStatus::Running);
    }

    /// The process of `name`, started at `startTime`, ended at `stopTime`
    /// (in seconds).  Returns whether its runner goes on: one that ran less
    /// than three seconds is recorded as a quick exit and not started again.
    pub fn finishRun(&mut self, name: &str, pid: i32, startTime: i64, stopTime: i64) -> (again: bool)
        requires
            old(self).wf(),
        ensures
            entries_consistent(old(self).pid_map()) ==> entries_consistent(final(self).pid_map()),
            final(self).wf(),
            final(self).processes() == old(self).processes(),
            again == (stopTime - startTime >= 3),
            again ==> final(self).pid_map() == old(self).pid_map().insert(
                name@,
                CPidView { pid, status: StatusView::Stoped },
            ),
            !again ==> final(self).pid_map() == old(self).pid_map().insert(
                name@,
                CPidView { pid: -1i32, status: StatusView::QuickExit },
            ),
    {
        let ran: i128 = stopTime as i128 - startTime as i128;
        if ran < 3 {
            self.replacePid(name, -1, ProcessStatus::QuickExit);
            return false;
        }
        self.replacePid(name, pid, ProcessStatus::Stoped);
        true
    }
}

/// Whether a runner that began waiting at `start` (in seconds) for a
/// process with a restart time of `timeoutS` seconds still waits at `now`:
/// until that many seconds have passed.
pub fn keepWaiting(start: i64, now: i64, timeoutS: i64) -> (r: bool)
    ensures
        r == (now - start < timeoutS),
{
    (now as i128 - start as i128) < timeoutS as i128
}

/// A running process with command line `cmd`, whose executable lies in
/// the working directory exactly when `same_dir`, is an earlier start of a
/// program with arguments `args`: its arguments are `args`.  A process
/// without a command line is none.
pub open spec fn is_started_copy(cmd: Seq<Seq<char>>, args: Seq<Seq<char>>, same_dir: bool) -> bool {
    &&& cmd.len() >= 1
    &&& cmd.drop_first() == args
    &&& same_dir
}

/// Whether a running process is an earlier start of the program with `args`.
pub fn isStartedCopy(cmd: &Vec<String>, args: &Vec<String>, sameDir: bool) -> (r: bool)
    ensures
        r == is_started_copy(views(cmd@), views(args@), sameDir),
{
    if cmd.len() == 0 || !sameDir {
        return false;
    }
    if cmd.len() - 1 != args.len() {
        assert(views(cmd@).drop_first().len() != views(args@).len());
        return false;
    }
    let mut i: usize = 0;
    while i < args.len()
        invariant
            cmd@.len() == args@.len() + 1,
            0 <= i <= args@.len(),
            forall|j: int| 0 <= j < i ==> (#[trigger] args@[j])@ == cmd@[j + 1]@,
        decreases args@.len() - i,
    {
        if !str_eq(cmd[i + 1].as_str(), args[i].as_str()) {
            assert(views(cmd@).drop_first()[i as int] != views(args@)[i as int]);
            return false;
        }
        i = i + 1;
    }
    assert(views(cmd@).drop_first() =~= views(args@));
    true
}

/// Whether a running process with command line `cmd` and executable in
/// directory `exeDir` is an earlier start of the program with `args` run in
/// `dir`; the directories are compared as paths.
pub fn isStartedCopyIn(cmd: &Vec<String>, args: &Vec<String>, exeDir: &str, dir: &str) -> (r: bool)
    ensures
        r == is_started_copy(views(cmd@), views(args@), crate::sys::paths_equal(exeDir@, dir@)),
{
    let sameDir = crate::sys::same_path(exeDir, dir);
    isStartedCopy(cmd, args, sameDir)
}

/// A machine process with name `n`, command line `cmd` and executable in
/// directory `d` is an earlier start of the program `name` with `args` run
/// in `dir`: its name contains `name`, and it has those arguments and that
/// directory.
pub open spec fn is_copy_of(
    n: Seq<char>,
    cmd: Seq<Seq<char>>,
    d: Seq<char>,
    name: Seq<char>,
    args: Seq<Seq<char>>,
    dir: Seq<char>,
) -> bool {
    &&& crate::strings::has_infix(n, name)
    &&& is_started_copy(cmd, args, crate::sys::paths_equal(d, dir))
}

/// `q` (pid, name, command line, executable's directory) describes a
/// machine process with pid `pid` that is an earlier start of the program
/// `name` with `args` run in `dir`.
pub open spec fn is_copy_record(
    pid: i32,
    q: (i32, Seq<char>, Seq<Seq<char>>, Seq<char>),
    name: Seq<char>,
    args: Seq<Seq<char>>,
    dir: Seq<char>,
) -> bool {
    q.0 == pid && is_copy_of(q.1, q.2, q.3, name, args, dir)
}

/// `pid` is the pid of a machine process that is an earlier start of the
/// program `name` with `args` run in `dir`.
pub open spec fn is_copy_pid(pid: i32, name: Seq<char>, args: Seq<Seq<char>>, dir: Seq<char>) -> bool {
    exists|q: (i32, Seq<char>, Seq<Seq<char>>, Seq<char>)| #[trigger] is_copy_record(pid, q, name, args, dir)
}

/// What the library reads of a machine process, as plain values: pid,
/// name, command line, and executable's directory when it has one.
pub open spec fn rec_view(p: crate::sys::ProcRecord) -> (i32, Seq<char>, Seq<Seq<char>>, Option<Seq<char>>) {
    (
        p.pid,
        p.name@,
        views(p.cmd@),
        match p.exeDir {
            Some(d) => Some(d@),
            None => None,
        },
    )
}

/// The machine process `q` is an earlier start of the program with `args`
/// run in `dir`.
pub open spec fn rec_is_copy(
    q: (i32, Seq<char>, Seq<Seq<char>>, Option<Seq<char>>),
    args: Seq<Seq<char>>,
    dir: Seq<char>,
) -> bool {
    q.3 matches Some(d) && is_started_copy(q.2, args, crate::sys::paths_equal(d, dir))
}

/// The pids, in order, of the processes of `recs` that are earlier starts
/// of the program with `args` run in `dir`.
pub open spec fn copy_pids(
    recs: Seq<(i32, Seq<char>, Seq<Seq<char>>, Option<Seq<char>>)>,
    args: Seq<Seq<char>>,
    dir: Seq<char>,
) -> Seq<i32>
    decreases recs.len(),
{
    if recs.len() == 0 {
        seq![]
    } else {
        copy_pids(recs.drop_last(), args, dir) + if rec_is_copy(recs.last(), args, dir) {
            seq![recs.last().0]
        } else {
            seq![]
        }
    }
}

/// Some process of `recs` with pid `pid` is an earlier start of the
/// program with `args` run in `dir`.
pub open spec fn copy_in(
    recs: Seq<(i32, Seq<char>, Seq<Seq<char>>, Option<Seq<char>>)>,
    args: Seq<Seq<char>>,
    dir: Seq<char>,
    pid: i32,
) -> bool {
    exists|i: int| 0 <= i < recs.len() && rec_is_copy(#[trigger] recs[i], args, dir) && recs[i].0 == pid
}

/// Every process of a listing that is an earlier start of the program has
/// its pid among `copy_pids`, and every pid there is that of such a
/// process of the listing.
pub proof fn lemma_copy_pids_exact(
    recs: Seq<(i32, Seq<char>, Seq<Seq<char>>, Option<Seq<char>>)>,
    args: Seq<Seq<char>>,
    dir: Seq<char>,
)
    ensures
        forall|i: int|
            0 <= i < recs.len() && rec_is_copy(#[trigger] recs[i], args, dir) ==> copy_pids(
                recs,
                args,
                dir,
            ).contains(recs[i].0),
        forall|j: int|
            0 <= j < copy_pids(recs, args, dir).len() ==> copy_in(
                recs,
                args,
                dir,
                #[trigger] copy_pids(recs, args, dir)[j],
            ),
    decreases recs.len(),
{
    if recs.len() > 0 {
        let r0 = recs.drop_last();
        lemma_copy_pids_exact(r0, args, dir);
        let c0 = copy_pids(r0, args, dir);
        let c = copy_pids(recs, args, dir);
        let k = recs.len() - 1;
        assert forall|i: int|
            0 <= i < recs.len() && rec_is_copy(#[trigger] recs[i], args, dir) implies c.contains(
            recs[i].0,
        ) by {
            if i < k {
                assert(recs[i] == r0[i]);
                let w = choose|w: int| 0 <= w < c0.len() && c0[w] == r0[i].0;
                assert(c[w] == c0[w]);
            } else {
                assert(c[c0.len() as int] == recs[i].0);
            }
        }
        assert forall|j: int| 0 <= j < c.len() implies copy_in(recs, args, dir, #[trigger] c[j]) by {
            if j < c0.len() {
                assert(c[j] == c0[j]);
                assert(copy_in(r0, args, dir, c0[j]));
                let i = choose|i: int| 0 <= i < r0.len() && rec_is_copy(#[trigger] r0[i], args, dir) && r0[i].0 == c0[j];
                assert(recs[i] == r0[i]);
                assert(0 <= i < recs.len() && rec_is_copy(recs[i], args, dir) && recs[i].0 == c[j]);
            } else {
                assert(rec_is_copy(recs[k], args, dir));
                assert(c[j] == recs[k].0);
                assert(0 <= k < recs.len() && rec_is_copy(recs[k], args, dir) && recs[k].0 == c[j]);
            }
        }
    }
}

/// Before a program is started, kills the processes of the same name that
/// are earlier starts of it: same arguments, executable in the working
/// directory.  Returns the pids it sent the kill to, each that of a machine
/// process that is such a copy.  What runs, and whether a kill succeeds,
/// depends on the machine.
pub fn killStartedProcess(system: &mut sysinfo::System, name: &str, args: &Vec<String>, dir: &str) -> (r:
    Vec<i32>)
    ensures
        forall|i: int| 0 <= i < r@.len() ==> is_copy_pid(#[trigger] r@[i], name@, views(args@), dir@),
        exists|recs: Seq<(i32, Seq<char>, Seq<Seq<char>>, Option<Seq<char>>)>|
            (forall|i: int| 0 <= i < recs.len() ==> crate::strings::has_infix((#[trigger] recs[i]).1, name@))
                && r@ == #[trigger] copy_pids(recs, views(args@), dir@),
{
    crate::sys::refresh_all(system);
    let processes = crate::sys::get_process_by_name(system, name);
    let mut killed: Vec<i32> = Vec::new();
    let ghost recs = processes@.map_values(|p: crate::sys::ProcRecord| rec_view(p));
    assert(recs.take(0) =~= Seq::<(i32, Seq<char>, Seq<Seq<char>>, Option<Seq<char>>)>::empty());
    let mut i: usize = 0;
    while i < processes.len()
        invariant
            0 <= i <= processes@.len(),
            forall|j: int|
                0 <= j < processes@.len() ==> crate::strings::has_infix(
                    (#[trigger] processes@[j]).name@,
                    name@,
                ),
            forall|j: int|
                0 <= j < killed@.len() ==> is_copy_pid(#[trigger] killed@[j], name@, views(args@), dir@),
            recs == processes@.map_values(|p: crate::sys::ProcRecord| rec_view(p)),
            killed@ == copy_pids(recs.take(i as int), views(args@), dir@),
        decreases processes@.len() - i,
    {
        let ghost before = killed@;
        proof {
            assert(recs.take(i + 1).drop_last() =~= recs.take(i as int));
            assert(recs.take(i + 1).last() == rec_view(processes@[i as int]));
        }
        let p = &processes[i];
        match &p.exeDir {
            Some(d) => {
                if isStartedCopyIn(&p.cmd, args, d.as_str(), dir) {
                    assert(is_copy_record(
                        p.pid,
                        (p.pid, p.name@, views(p.cmd@), d@),
                        name@,
                        views(args@),
                        dir@,
                    ));
                    let _ = crate::sys::kill_process(p.proc, crate::sys::Signal::Kill);
                    killed.push(p.pid);
                    assert(forall|j: int| 0 <= j < before.len() ==> killed@[j] == before[j]);
                }
            },
            None => {},
        }
        assert(killed@ =~= copy_pids(recs.take(i + 1), views(args@), dir@));
        i = i + 1;
    }
    proof {
        assert(recs.take(i as int) =~= recs);
        assert forall|j: int| 0 <= j < recs.len() implies crate::strings::has_infix(
            (#[trigger] recs[j]).1,
            name@,
        ) by {
            assert(recs[j].1 == processes@[j].name@);
        }
    }
    killed
}

/// A runner for `name` ends at its next step: no process has that name, or
/// the first one is not automatic.
pub open spec fn launch_ends(ps: Seq<Process>, name: Seq<char>) -> bool {
    match first_named(ps, name) {
        None => true,
        Some(i) => !ps[i].isAuto,
    }
}

/// A stopped process stays stopped: once its automatic start is cancelled,
/// as a successful stop does, its runner ends instead of starting it again.
pub proof fn lemma_stop_ends_runner(ps: Seq<Process>, name: Seq<char>)
    ensures
        launch_ends(set_auto(ps, name, false), name),
{
    lemma_set_auto_shape(ps, name, false);
    let qs = set_auto(ps, name, false);
    assert forall|j: int| 0 <= j < ps.len() implies (#[trigger] ps[j]).name@ == qs[j].name@ by {}
    lemma_first_named_same_names(ps, qs, name);
    if let Some(i) = first_named(ps, name) {
        assert(is_first_named(ps, name, i));
    }
}

/// After the processes named in `l` were stopped, the runner of each one
/// that ran, and whose kill succeeded, ends at its next step instead of
/// starting it again.
pub proof fn lemma_stopped_runners_end<K: Fn(i32) -> bool>(
    kill: &K,
    ps: Seq<Process>,
    pm: Map<Seq<char>, CPidView>,
    l: Seq<Seq<char>>,
    qs: Seq<Process>,
    n: Seq<char>,
)
    requires
        stopped_from(kill, ps, pm, l, qs),
        l.contains(n),
        is_running(pm, n),
        forall|killed: bool| #[trigger] kill.ensures((pm[n].pid,), killed) ==> killed,
    ensures
        launch_ends(qs, n),
{
    lemma_stopped_same_names(kill, ps, pm, l, qs);
    assert forall|j: int| 0 <= j < ps.len() implies (#[trigger] ps[j]).name@ == qs[j].name@ by {}
    lemma_first_named_same_names(ps, qs, n);
    if let Some(i) = first_named(ps, n) {
        assert(is_first_named(ps, n, i));
        assert(stop_outcome(kill, ps, pm, l, qs[i], i));
    }
}

/// A restarted process runs again: once it is made automatic, as a restart
/// does, its runner starts it instead of ending.
pub proof fn lemma_restart_resumes_runner(ps: Seq<Process>, name: Seq<char>)
    requires
        first_named(ps, name) is Some,
    ensures
        !launch_ends(set_auto(ps, name, true), name),
{
    lemma_set_auto_shape(ps, name, true);
    let qs = set_auto(ps, name, true);
    assert forall|j: int| 0 <= j < ps.len() implies (#[trigger] ps[j]).name@ == qs[j].name@ by {}
    lemma_first_named_same_names(ps, qs, name);
    let i = first_named(ps, name)->0;
    assert(is_first_named(ps, name, i));
}

} // verus!
