//! How long watched processes have run, and the status reports built from
//! the pid table and the machine's process list.
#![allow(non_snake_case)]
#![allow(non_upper_case_globals)]
use vstd::prelude::*;

use super::control::CControl;
use super::pids::{CPid, CPidView};
use super::{ProcessStatus, StatusView};
use crate::config::{Process, names};
use crate::strings::{append_int, int_text, trunc_div, trunc_rem, views};
use crate::sys;

verus! {

/// The run time reported for a process the machine does not list.
pub const process_runtime_default: &'static str = "unknow";

/// The largest number of seconds a run time may have (`i64::MAX`
/// milliseconds, as a duration allows).
pub const MAX_DURATION_SECS: i64 = 9223372036854775;

/// The status of one watched process.
#[derive(Debug)]
pub struct CStatusInfo {
    pub pid: i32,
    pub runTime: String,
    pub status: ProcessStatus,
    pub name: String,
}

/// Why a status could not be reported.
#[derive(PartialEq, Eq, Structural, Debug, Clone, Copy)]
pub enum StatusError {
    /// The process's run time is too large to be a duration.
    RunTimeRange,
}

/// `sec` seconds written as days and hours, minutes, seconds within the
/// day: `"{d}day, {h}:{m}:{s}"`, each part rounded toward zero.
pub open spec fn dhms_text(sec: int) -> Seq<char> {
    int_text(trunc_div(sec, 86400)) + "day, "@ + int_text(trunc_rem(trunc_div(sec, 3600), 24))
        + ":"@ + int_text(trunc_rem(trunc_div(sec, 60), 60)) + ":"@ + int_text(trunc_rem(sec, 60))
}

/// Writes a duration of `sec` seconds as days, hours, minutes and seconds.
pub fn calcSec2DHMS(sec: i64) -> (r: String)
    requires
        -MAX_DURATION_SECS <= sec <= MAX_DURATION_SECS,
    ensures
        r@ == dhms_text(sec as int),
{
    let mut result = String::new();
    append_int(&mut result, sec / 86400);
    result.append("day, ");
    append_int(&mut result, (sec / 3600) % 24);
    result.append(":");
    append_int(&mut result, (sec / 60) % 60);
    result.append(":");
    append_int(&mut result, sec % 60);
    assert(result@ =~= dhms_text(sec as int));
    result
}

/// For a nonnegative number of seconds, the four parts of `calcSec2DHMS`
/// lie in their ranges and add up to the whole.
pub proof fn lemma_dhms_parts(sec: int)
    requires
        sec >= 0,
    ensures
        ({
            let d = trunc_div(sec, 86400);
            let h = trunc_rem(trunc_div(sec, 3600), 24);
            let m = trunc_rem(trunc_div(sec, 60), 60);
            let s = trunc_rem(sec, 60);
            &&& d >= 0
            &&& 0 <= h < 24
            &&& 0 <= m < 60
            &&& 0 <= s < 60
            &&& d * 86400 + h * 3600 + m * 60 + s == sec
        }),
{
    let q60 = sec / 60;
    let q3600 = sec / 3600;
    vstd::arithmetic::div_mod::lemma_div_denominator(sec, 60, 60);
    vstd::arithmetic::div_mod::lemma_div_denominator(sec, 3600, 24);
    vstd::arithmetic::div_mod::lemma_fundamental_div_mod(sec, 60);
    vstd::arithmetic::div_mod::lemma_fundamental_div_mod(q60, 60);
    vstd::arithmetic::div_mod::lemma_fundamental_div_mod(q3600, 24);
    assert(q60 / 60 == q3600);
    assert(q3600 / 24 == sec / 86400);
    assert(q60 >= 0);
    assert(q3600 >= 0);
}

/// The entry of `name`, or "no pid, stopped" when it has none.
pub open spec fn entry_or_stopped(pm: Map<Seq<char>, CPidView>, name: Seq<char>) -> CPidView {
    if pm.contains_key(name) {
        pm[name]
    } else {
        CPidView { pid: -1i32, status: StatusView::Stoped }
    }
}

/// The run time from `start` (as the machine reports it) to `now`, in
/// seconds, as the watchdog computes it.
pub open spec fn elapsed(start: u64, now: i64) -> int {
    now - (start as i64)
}

/// The run time of a process started at `start` when it is `now`, written
/// by `calcSec2DHMS`; `None` when it is too large for a duration.
pub fn runTimeOf(start: u64, now: i64) -> (r: Option<String>)
    ensures
        match r {
            Some(t) => -MAX_DURATION_SECS <= elapsed(start, now) <= MAX_DURATION_SECS && t@
                == dhms_text(elapsed(start, now)),
            None => !(-MAX_DURATION_SECS <= elapsed(start, now) <= MAX_DURATION_SECS),
        },
{
    let s = start as i64;
    let sub: i128 = now as i128 - s as i128;
    if sub < -(MAX_DURATION_SECS as i128) || sub > MAX_DURATION_SECS as i128 {
        return None;
    }
    Some(calcSec2DHMS(sub as i64))
}

/// `r` is the status report of `name` with pid entry `e`, given when the
/// machine says the process started (`None` when the machine does not list
/// it) and the current time `now`.
pub open spec fn is_run_status(
    r: Result<CStatusInfo, StatusError>,
    e: CPidView,
    name: Seq<char>,
    start: Option<u64>,
    now: i64,
) -> bool {
    match start {
        None => r matches Ok(info) && info.pid == e.pid && info.status@ == e.status && info.name@
            == name && info.runTime@ == process_runtime_default@,
        Some(s) => if -MAX_DURATION_SECS <= elapsed(s, now) <= MAX_DURATION_SECS {
            r matches Ok(info) && info.pid == e.pid && info.status@ == e.status && info.name@
                == name && info.runTime@ == dhms_text(elapsed(s, now))
        } else {
            r == Err::<CStatusInfo, StatusError>(StatusError::RunTimeRange)
        },
    }
}

/// The status report of `name` with pid entry `entry`, given when the
/// machine says the process started (`None` when the machine does not list
/// it) and the current time.
pub fn runStatusInfo(entry: CPid, name: &str, start: Option<u64>, now: i64) -> (r: Result<
    CStatusInfo,
    StatusError,
>)
    ensures
        is_run_status(r, entry@, name@, start, now),
{
    let runTime = match start {
        None => process_runtime_default.to_owned(),
        Some(s) => match runTimeOf(s, now) {
            Some(t) => t,
            None => {
                return Err(StatusError::RunTimeRange);
            },
        },
    };
    Ok(CStatusInfo { pid: entry.pid, runTime, status: entry.status, name: name.to_owned() })
}

/// `idx` picks, in increasing order, the position in `l` of the name of
/// each report in `v`.
pub open spec fn picks_in_order(idx: Seq<int>, v: Seq<CStatusInfo>, l: Seq<Seq<char>>) -> bool {
    &&& idx.len() == v.len()
    &&& forall|i: int| 0 <= i < idx.len() ==> 0 <= #[trigger] idx[i] < l.len() && v[i].name@ == l[idx[i]]
    &&& forall|i: int, j: int| 0 <= i < j < idx.len() ==> idx[i] < idx[j]
}

/// The reports in `v` are about names of `l`, in the order of `l`, each name
/// at most once.
pub open spec fn in_order_of(v: Seq<CStatusInfo>, l: Seq<Seq<char>>) -> bool {
    exists|idx: Seq<int>| #[trigger] picks_in_order(idx, v, l)
}

/// `v` reports on processes `ps` with pid table `pm`: on names of `ps`, in
/// their order and each at most once, with the pid and state of the entry
/// of each name.
pub open spec fn reports_on(v: Seq<CStatusInfo>, ps: Seq<Process>, pm: Map<Seq<char>, CPidView>) -> bool {
    &&& in_order_of(v, names(ps))
    &&& forall|i: int|
        0 <= i < v.len() ==> {
            &&& names(ps).contains((#[trigger] v[i]).name@)
            &&& v[i].pid == entry_or_stopped(pm, v[i].name@).pid
            &&& v[i].status@ == entry_or_stopped(pm, v[i].name@).status
        }
}

/// A reading the clock can give: chrono's date times lie within 9 * 10^12
/// seconds of the epoch.
pub open spec fn clock_reading(now: i64) -> bool {
    -9_000_000_000_000 <= now <= 9_000_000_000_000
}

/// A start time a machine can report for a process on a clock of chrono's
/// range: not more than 9 * 10^15 seconds (some 285 million years) after
/// the epoch.
pub open spec fn plausible_start(found: Option<(i32, u64)>) -> bool {
    found matches Some(q) ==> q.1 <= 9_000_000_000_000_000
}

/// What a lookup of `pid` in the machine's process table found: the pid
/// and start time of the process, or nothing.  A process found has the pid
/// looked up, and a negative pid finds nothing.
pub open spec fn looked_up(found: Option<(i32, u64)>, pid: i32) -> bool {
    &&& found matches Some(q) ==> q.0 == pid
    &&& pid < 0 ==> found is None
}

/// The start time of what a lookup found.
pub open spec fn start_of(found: Option<(i32, u64)>) -> Option<u64> {
    match found {
        Some(q) => Some(q.1),
        None => None,
    }
}

/// The start times of what lookups found.
pub open spec fn starts_of(fs: Seq<Option<(i32, u64)>>) -> Seq<Option<u64>> {
    fs.map_values(|f: Option<(i32, u64)>| start_of(f))
}

/// A process that started at `start` (`None`: the machine does not list
/// it) is reported at time `now`: its run time, if any, is in range.
pub open spec fn is_reported(start: Option<u64>, now: i64) -> bool {
    match start {
        None => true,
        Some(s) => -MAX_DURATION_SECS <= elapsed(s, now) <= MAX_DURATION_SECS,
    }
}

/// The abstract values of pid entries.
pub open spec fn entry_views(es: Seq<CPid>) -> Seq<CPidView> {
    es.map_values(|c: CPid| c@)
}

/// The pid entry of each name, "no pid, stopped" where there is none.
pub open spec fn entries_of(pm: Map<Seq<char>, CPidView>, ns: Seq<Seq<char>>) -> Seq<CPidView> {
    ns.map_values(|n: Seq<char>| entry_or_stopped(pm, n))
}

/// `v` reports on the processes named `ns`, with pid entries `es` and
/// machine start times `ss`, at time `now`: one report per process, in
/// order, each as `is_run_status` gives it, leaving out exactly those whose
/// run time is out of range.
pub open spec fn statuses_of(
    v: Seq<CStatusInfo>,
    es: Seq<CPidView>,
    ns: Seq<Seq<char>>,
    ss: Seq<Option<u64>>,
    now: i64,
) -> bool
    decreases ns.len(),
{
    if ns.len() == 0 {
        v.len() == 0
    } else {
        let k = ns.len() - 1;
        if is_reported(ss[k], now) {
            &&& v.len() > 0
            &&& is_run_status(Ok(v.last()), es[k], ns[k], ss[k], now)
            &&& statuses_of(v.drop_last(), es.drop_last(), ns.drop_last(), ss.drop_last(), now)
        } else {
            statuses_of(v, es.drop_last(), ns.drop_last(), ss.drop_last(), now)
        }
    }
}

/// `v` is the status report of every process of `ps` with pid table `pm`:
/// it reports on them as `reports_on` says, and it is what `statuses_of`
/// gives for the start times that lookups of each entry's pid found, at
/// some time.
pub open spec fn all_statuses(v: Seq<CStatusInfo>, ps: Seq<Process>, pm: Map<Seq<char>, CPidView>) -> bool {
    &&& reports_on(v, ps, pm)
    &&& exists|fs: Seq<Option<(i32, u64)>>, now: i64|
        lookups_of(fs, entries_of(pm, names(ps))) && clock_reading(now) && #[trigger] statuses_of(
            v,
            entries_of(pm, names(ps)),
            names(ps),
            starts_of(fs),
            now,
        )
}

/// `fs` holds one lookup for the pid of each entry of `es`.
pub open spec fn lookups_of(fs: Seq<Option<(i32, u64)>>, es: Seq<CPidView>) -> bool {
    &&& fs.len() == es.len()
    &&& forall|k: int| 0 <= k < fs.len() ==> looked_up(#[trigger] fs[k], es[k].pid)
}

/// The status reports of the processes named `names`, with pid entries
/// `entries` and machine start times `starts` (`None`: not listed), at time
/// `now`: one per process, in order, but for those whose run time is out of
/// range.
pub fn statusesFrom(entries: &Vec<CPid>, names: &Vec<String>, starts: &Vec<Option<u64>>, now: i64) -> (r:
    Vec<CStatusInfo>)
    requires
        entries@.len() == names@.len(),
        starts@.len() == names@.len(),
    ensures
        statuses_of(r@, entry_views(entries@), views(names@), starts@, now),
        exists|idx: Seq<int>|
            #[trigger] picks_in_order(idx, r@, views(names@)) && forall|i: int|
                0 <= i < idx.len() ==> r@[i].pid == entries@[idx[i]]@.pid && r@[i].status@
                    == entries@[idx[i]]@.status,
{
    let mut out: Vec<CStatusInfo> = Vec::new();
    let mut k: usize = 0;
    let ghost mut idx: Seq<int> = Seq::empty();
    assert(views(names@).take(0) =~= Seq::<Seq<char>>::empty());
    while k < names.len()
        invariant
            entries@.len() == names@.len(),
            starts@.len() == names@.len(),
            0 <= k <= names@.len(),
            statuses_of(
                out@,
                entry_views(entries@).take(k as int),
                views(names@).take(k as int),
                starts@.take(k as int),
                now,
            ),
            picks_in_order(idx, out@, views(names@)),
            forall|i: int| 0 <= i < idx.len() ==> #[trigger] idx[i] < k,
            forall|i: int|
                0 <= i < idx.len() ==> out@[i].pid == entries@[#[trigger] idx[i]]@.pid && out@[i].status@
                    == entries@[idx[i]]@.status,
        decreases names@.len() - k,
    {
        let ghost before = out@;
        let e = entries[k].duplicate();
        let rep = runStatusInfo(e, names[k].as_str(), starts[k], now);
        proof {
            let es = entry_views(entries@).take(k + 1);
            let ns = views(names@).take(k + 1);
            let ss = starts@.take(k + 1);
            assert(es.drop_last() =~= entry_views(entries@).take(k as int));
            assert(ns.drop_last() =~= views(names@).take(k as int));
            assert(ss.drop_last() =~= starts@.take(k as int));
            assert(es[k as int] == entries@[k as int]@);
            assert(ns[k as int] == names@[k as int]@);
            assert(views(names@)[k as int] == names@[k as int]@);
        }
        match rep {
            Ok(info) => {
                out.push(info);
                proof {
                    idx = idx.push(k as int);
                    assert(out@.drop_last() =~= before);
                }
            },
            Err(_) => {},
        }
        k = k + 1;
    }
    assert(entry_views(entries@).take(k as int) =~= entry_views(entries@));
    assert(views(names@).take(k as int) =~= views(names@));
    assert(starts@.take(k as int) =~= starts@);
    out
}

/// On a clock of chrono's range, a status report with a plausible machine
/// start time never fails: it carries the entry's pid and state, and a run
/// time that is `unknow` when the machine does not list the pid (always so
/// for a negative pid) and otherwise the days, hours, minutes and seconds
/// from the start to now.
pub proof fn lemma_run_status_ok(
    r: Result<CStatusInfo, StatusError>,
    e: CPidView,
    name: Seq<char>,
    found: Option<(i32, u64)>,
    now: i64,
)
    requires
        looked_up(found, e.pid),
        clock_reading(now),
        plausible_start(found),
        is_run_status(r, e, name, start_of(found), now),
    ensures
        r matches Ok(info) && {
            &&& info.pid == e.pid
            &&& info.status@ == e.status
            &&& info.name@ == name
            &&& info.runTime@ == match found {
                None => process_runtime_default@,
                Some(q) => dhms_text(now - q.1),
            }
            &&& e.pid < 0 ==> info.runTime@ == process_runtime_default@
        },
{
    if let Some(q) = found {
        assert((q.1 as i64) as int == q.1);
    }
}

/// On a clock of chrono's range and with plausible machine start times, the
/// report of every process leaves none out: one report per process, in
/// order, each with the process's name, its entry's pid and state, and its
/// run time as `lemma_run_status_ok` gives it.
pub proof fn lemma_all_reported(
    v: Seq<CStatusInfo>,
    es: Seq<CPidView>,
    ns: Seq<Seq<char>>,
    fs: Seq<Option<(i32, u64)>>,
    now: i64,
)
    requires
        es.len() == ns.len(),
        lookups_of(fs, es),
        clock_reading(now),
        forall|k: int| 0 <= k < fs.len() ==> plausible_start(#[trigger] fs[k]),
        statuses_of(v, es, ns, starts_of(fs), now),
    ensures
        v.len() == ns.len(),
        forall|i: int|
            0 <= i < v.len() ==> {
                &&& (#[trigger] v[i]).name@ == ns[i]
                &&& v[i].pid == es[i].pid
                &&& v[i].status@ == es[i].status
                &&& v[i].runTime@ == match fs[i] {
                    None => process_runtime_default@,
                    Some(q) => dhms_text(now - q.1),
                }
            },
    decreases ns.len(),
{
    if ns.len() > 0 {
        let k = ns.len() - 1;
        let fs0 = fs.drop_last();
        assert(starts_of(fs).drop_last() =~= starts_of(fs0));
        assert(starts_of(fs)[k] == start_of(fs[k]));
        assert(looked_up(fs[k], es[k].pid));
        assert(plausible_start(fs[k]));
        lemma_run_status_ok(Ok(v.last()), es[k], ns[k], fs[k], now);
        assert(lookups_of(fs0, es.drop_last()));
        lemma_all_reported(v.drop_last(), es.drop_last(), ns.drop_last(), fs0, now);
        assert forall|i: int| 0 <= i < v.len() implies {
            &&& (#[trigger] v[i]).name@ == ns[i]
            &&& v[i].pid == es[i].pid
            &&& v[i].status@ == es[i].status
            &&& v[i].runTime@ == match fs[i] {
                None => process_runtime_default@,
                Some(q) => dhms_text(now - q.1),
            }
        } by {
            if i < k {
                assert(v[i] == v.drop_last()[i]);
                assert(fs[i] == fs0[i]);
            }
        }
    }
}

/// Reports the status of watched processes from the pid table and the
/// machine's process list.
pub struct CStatus {
    system: sysinfo::System,
}

impl CStatus {
    pub fn new() -> CStatus {
        CStatus { system: sys::system_new() }
    }

    /// The pid entry of `name`, or "no pid, stopped" when it has none.
    pub fn findPidByName(ctrl: &CControl, name: &str) -> (r: CPid)
        requires
            ctrl.wf(),
        ensures
            r@ == entry_or_stopped(ctrl.pid_map(), name@),
    {
        match ctrl.findPid(name) {
            Some(pid) => pid,
            None => CPid { pid: -1, status: ProcessStatus::Stoped },
        }
    }

    /// The status of `name`.  The pid and state come from the pid table; the
    /// run time from the machine's process list, read anew unless
    /// `isRefresh` says it was just read, and the clock.
    pub fn getRunStatus(&mut self, ctrl: &CControl, name: &str, isRefresh: bool) -> (r: Result<
        CStatusInfo,
        StatusError,
    >)
        requires
            ctrl.wf(),
        ensures
            r matches Ok(info) ==> info.pid == entry_or_stopped(ctrl.pid_map(), name@).pid
                && info.status@ == entry_or_stopped(ctrl.pid_map(), name@).status && info.name@
                == name@,
            exists|found: Option<(i32, u64)>, now: i64|
                looked_up(found, entry_or_stopped(ctrl.pid_map(), name@).pid) && clock_reading(now)
                    && #[trigger] is_run_status(
                    r,
                    entry_or_stopped(ctrl.pid_map(), name@),
                    name@,
                    start_of(found),
                    now,
                ),
            entry_or_stopped(ctrl.pid_map(), name@).pid < 0 ==> (r matches Ok(info)
                && info.runTime@ == process_runtime_default@),
    {
        let pid = Self::findPidByName(ctrl, name);
        if !isRefresh {
            sys::refresh_all(&mut self.system);
        }
        let (start, found) = match sys::get_process(&self.system, pid.pid) {
            Some(q) => (Some(q.start), Ghost(Some((q.pid, q.start)))),
            None => (None, Ghost(None)),
        };
        let now = sys::now_timestamp();
        let r = runStatusInfo(pid, name, start, now);
        assert(looked_up(found@, pid.pid));
        assert(is_run_status(r, entry_or_stopped(ctrl.pid_map(), name@), name@, start_of(found@), now));
        r
    }

    /// The status of every process, in order; a process whose run time is
    /// out of range is left out.
    pub fn getAllRunStatus(&mut self, ctrl: &CControl) -> (r: Result<Vec<CStatusInfo>, StatusError>)
        requires
            ctrl.wf(),
        ensures
            r matches Ok(v) && all_statuses(v@, ctrl.processes(), ctrl.pid_map()),
    {
        sys::refresh_all(&mut self.system);
        let l = ctrl.processNames();
        let ghost ns = views(l@);
        let ghost pm = ctrl.pid_map();
        let mut entries: Vec<CPid> = Vec::new();
        let mut starts: Vec<Option<u64>> = Vec::new();
        let ghost mut fs: Seq<Option<(i32, u64)>> = Seq::empty();
        let mut k: usize = 0;
        assert(starts@ =~= starts_of(fs));
        while k < l.len()
            invariant
                ctrl.wf(),
                pm == ctrl.pid_map(),
                ns == views(l@),
                0 <= k <= l@.len(),
                entries@.len() == k,
                starts@.len() == k,
                forall|j: int| 0 <= j < k ==> (#[trigger] entries@[j])@ == entry_or_stopped(pm, ns[j]),
                fs.len() == k,
                starts@ == starts_of(fs),
                forall|j: int| 0 <= j < k ==> looked_up(#[trigger] fs[j], entries@[j]@.pid),
            decreases l@.len() - k,
        {
            let e = Self::findPidByName(ctrl, l[k].as_str());
            let (start, found) = match sys::get_process(&self.system, e.pid) {
                Some(q) => (Some(q.start), Ghost(Some((q.pid, q.start)))),
                None => (None, Ghost(None)),
            };
            assert(ns[k as int] == l@[k as int]@);
            assert(looked_up(found@, e.pid));
            entries.push(e);
            starts.push(start);
            proof {
                let fs0 = fs;
                fs = fs.push(found@);
                assert(starts_of(fs) =~= starts_of(fs0).push(start_of(found@)));
            }
            k = k + 1;
        }
        let now = sys::now_timestamp();
        let v = statusesFrom(&entries, &l, &starts, now);
        proof {
            let ps = ctrl.processes();
            assert(ns == names(ps));
            assert(entry_views(entries@) =~= entries_of(pm, names(ps)));
            assert(statuses_of(v@, entries_of(pm, names(ps)), names(ps), starts_of(fs), now));
            assert(lookups_of(fs, entries_of(pm, names(ps))));
            let idx = choose|idx: Seq<int>|
                #[trigger] picks_in_order(idx, v@, ns) && forall|i: int|
                    0 <= i < idx.len() ==> v@[i].pid == entries@[idx[i]]@.pid && v@[i].status@
                        == entries@[idx[i]]@.status;
            assert(picks_in_order(idx, v@, names(ps)));
            assert forall|i: int| 0 <= i < v@.len() implies {
                &&& names(ps).contains((#[trigger] v@[i]).name@)
                &&& v@[i].pid == entry_or_stopped(pm, v@[i].name@).pid
                &&& v@[i].status@ == entry_or_stopped(pm, v@[i].name@).status
            } by {
                let j = idx[i];
                assert(0 <= j < ns.len());
                assert(v@[i].name@ == ns[j]);
                assert(entries@[j]@ == entry_or_stopped(pm, ns[j]));
            }
        }
        Ok(v)
    }
}

} // verus!
