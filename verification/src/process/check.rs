//! A periodic check that signals the processes of each configured name and
//! starts automatic ones again.
#![allow(non_snake_case)]
use vstd::prelude::*;

use crate::config::Process;
use crate::strings::has_infix;
use crate::sys;

verus! {

/// The positions as integers.
pub open spec fn ints(s: Seq<usize>) -> Seq<int> {
    s.map_values(|x: usize| x as int)
}

/// The values of lists of outcomes.
pub open spec fn outcome_views(d: Seq<Vec<bool>>) -> Seq<Seq<bool>> {
    d.map_values(|v: Vec<bool>| v@)
}

/// Position `k` once for each delivered signal in `d`, when the process at
/// `k` is automatic; nothing otherwise.
pub open spec fn starts_in(auto: bool, k: int, d: Seq<bool>) -> Seq<int>
    decreases d.len(),
{
    if d.len() == 0 {
        seq![]
    } else {
        starts_in(auto, k, d.drop_last()) + if auto && d.last() {
            seq![k]
        } else {
            seq![]
        }
    }
}

/// The positions to start among the first `k` processes of `ps`, where
/// `d[i]` tells, for each machine process named like process `i`, whether
/// the signal sent to it was delivered: in order, position `i` once per
/// delivered signal when process `i` is automatic.
pub open spec fn start_positions(ps: Seq<Process>, d: Seq<Seq<bool>>, k: int) -> Seq<int>
    decreases k,
{
    if k <= 0 {
        seq![]
    } else {
        start_positions(ps, d, k - 1) + starts_in(ps[k - 1].isAuto, k - 1, d[k - 1])
    }
}

/// The positions of the processes to start again, given for each process
/// whether each signal sent to a machine process of its name was delivered.
pub fn startPositions(processes: &Vec<Process>, delivered: &Vec<Vec<bool>>) -> (r: Vec<usize>)
    requires
        delivered@.len() == processes@.len(),
    ensures
        ints(r@) == start_positions(processes@, outcome_views(delivered@), processes@.len() as int),
        forall|i: int|
            0 <= i < r@.len() ==> (#[trigger] r@[i]) < processes@.len() && processes@[r@[i] as int].isAuto,
        forall|i: int, j: int| 0 <= i <= j < r@.len() ==> r@[i] <= r@[j],
{
    let ghost dv = outcome_views(delivered@);
    let mut out: Vec<usize> = Vec::new();
    let mut k: usize = 0;
    while k < processes.len()
        invariant
            delivered@.len() == processes@.len(),
            dv == outcome_views(delivered@),
            0 <= k <= processes@.len(),
            ints(out@) == start_positions(processes@, dv, k as int),
            forall|i: int|
                0 <= i < out@.len() ==> (#[trigger] out@[i]) < k && processes@[out@[i] as int].isAuto,
            forall|i: int, j: int| 0 <= i <= j < out@.len() ==> out@[i] <= out@[j],
        decreases processes@.len() - k,
    {
        let ghost base = ints(out@);
        let auto = processes[k].isAuto;
        let mut j: usize = 0;
        assert(dv[k as int] == delivered@[k as int]@);
        assert(dv[k as int].take(0) =~= Seq::<bool>::empty());
        assert(base + starts_in(auto, k as int, dv[k as int].take(0)) =~= base);
        while j < delivered[k].len()
            invariant
                delivered@.len() == processes@.len(),
                dv == outcome_views(delivered@),
                dv[k as int] == delivered@[k as int]@,
                0 <= k < processes@.len(),
                auto == processes@[k as int].isAuto,
                0 <= j <= delivered@[k as int]@.len(),
                ints(out@) == base + starts_in(auto, k as int, dv[k as int].take(j as int)),
                forall|i: int|
                    0 <= i < out@.len() ==> (#[trigger] out@[i]) <= k && processes@[out@[i] as int].isAuto,
                forall|i: int, i2: int| 0 <= i <= i2 < out@.len() ==> out@[i] <= out@[i2],
            decreases delivered@[k as int]@.len() - j,
        {
            let ghost before = ints(out@);
            assert(dv[k as int].take(j + 1).drop_last() =~= dv[k as int].take(j as int));
            assert(dv[k as int].take(j + 1).last() == delivered@[k as int]@[j as int]);
            if delivered[k][j] && auto {
                out.push(k);
                assert(ints(out@) =~= before.push(k as int));
            }
            assert(ints(out@) =~= base + starts_in(auto, k as int, dv[k as int].take(j + 1)));
            j = j + 1;
        }
        assert(dv[k as int].take(j as int) =~= dv[k as int]);
        k = k + 1;
    }
    out
}

/// `d[k]` holds one outcome for each machine process that was signalled
/// for process `k` of `ps`; `named[k]` holds their names, each containing
/// the name of process `k`.
pub open spec fn signals_for(ps: Seq<Process>, d: Seq<Seq<bool>>, named: Seq<Seq<Seq<char>>>) -> bool {
    &&& d.len() == ps.len()
    &&& named.len() == ps.len()
    &&& forall|k: int| 0 <= k < ps.len() ==> (#[trigger] named[k]).len() == d[k].len()
    &&& forall|k: int, j: int|
        0 <= k < ps.len() && 0 <= j < named[k].len() ==> has_infix(#[trigger] named[k][j], ps[k].name@)
}

/// The state of the periodic process check: a snapshot of the machine and
/// the configured processes.
pub struct CCheck {
    system: sysinfo::System,
    processes: Vec<Process>,
}

impl CCheck {
    /// The configured processes.
    pub closed spec fn processes(&self) -> Seq<Process> {
        self.processes@
    }

    pub fn new(processes: Vec<Process>) -> (r: CCheck)
        ensures
            r.processes() == processes@,
    {
        CCheck { system: sys::system_new(), processes }
    }

    /// The configured processes.
    pub fn processList(&self) -> (r: &Vec<Process>)
        ensures
            r@ == self.processes(),
    {
        &self.processes
    }

    /// One round of the process check: every process of the machine named like a
    /// configured one is sent `SIGCHLD`; for each such signal that was
    /// delivered to a process of an automatic configured process, that
    /// configured process is to be started again.  Returns their positions,
    /// in order, one for each delivered signal.
    pub fn findAndStartSubProcess(&mut self) -> (r: Vec<usize>)
        ensures
            final(self).processes() == old(self).processes(),
            exists|d: Seq<Seq<bool>>, named: Seq<Seq<Seq<char>>>|
                #[trigger] signals_for(old(self).processes(), d, named) && ints(r@) == start_positions(
                    old(self).processes(),
                    d,
                    old(self).processes().len() as int,
                ),
            forall|i: int|
                0 <= i < r@.len() ==> (#[trigger] r@[i]) < old(self).processes().len()
                    && old(self).processes()[r@[i] as int].isAuto,
            forall|i: int, j: int| 0 <= i <= j < r@.len() ==> r@[i] <= r@[j],
    {
        sys::refresh_all(&mut self.system);
        let mut delivered: Vec<Vec<bool>> = Vec::new();
        let ghost mut named: Seq<Seq<Seq<char>>> = Seq::empty();
        let mut k: usize = 0;
        while k < self.processes.len()
            invariant
                self.processes@ == old(self).processes(),
                0 <= k <= self.processes@.len(),
                delivered@.len() == k,
                named.len() == k,
                forall|i: int| 0 <= i < k ==> (#[trigger] named[i]).len() == delivered@[i]@.len(),
                forall|i: int, j: int|
                    0 <= i < k && 0 <= j < named[i].len() ==> has_infix(
                        #[trigger] named[i][j],
                        self.processes@[i].name@,
                    ),
            decreases self.processes@.len() - k,
        {
            let ps = sys::get_process_by_name(&self.system, self.processes[k].name.as_str());
            let mut outcomes: Vec<bool> = Vec::new();
            let ghost mut nk: Seq<Seq<char>> = Seq::empty();
            let mut j: usize = 0;
            while j < ps.len()
                invariant
                    0 <= j <= ps@.len(),
                    nk.len() == j,
                    outcomes@.len() == j,
                    forall|i: int| 0 <= i < j ==> #[trigger] nk[i] == ps@[i].name@,
                decreases ps@.len() - j,
            {
                outcomes.push(sys::kill_process(ps[j].proc, sys::Signal::Child));
                proof {
                    nk = nk.push(ps@[j as int].name@);
                }
                j = j + 1;
            }
            proof {
                assert forall|i: int| 0 <= i < nk.len() implies has_infix(
                    #[trigger] nk[i],
                    self.processes@[k as int].name@,
                ) by {
                    assert(nk[i] == ps@[i].name@);
                }
            }
            let ghost dv = delivered@;
            delivered.push(outcomes);
            proof {
                let n0 = named;
                named = named.push(nk);
                assert forall|i: int, j2: int|
                    0 <= i < k + 1 && 0 <= j2 < named[i].len() implies has_infix(
                    #[trigger] named[i][j2],
                    self.processes@[i].name@,
                ) by {
                    if i < k {
                        assert(named[i] == n0[i]);
                    }
                }
                assert forall|i: int| 0 <= i < k + 1 implies (#[trigger] named[i]).len()
                    == delivered@[i]@.len() by {
                    if i < k {
                        assert(named[i] == n0[i]);
                        assert(delivered@[i] == dv[i]);
                    }
                }
            }
            k = k + 1;
        }
        let r = startPositions(&self.processes, &delivered);
        assert(ints(r@) == start_positions(
            old(self).processes(),
            outcome_views(delivered@),
            old(self).processes().len() as int,
        ));
        assert(signals_for(old(self).processes(), outcome_views(delivered@), named));
        r
    }
}

} // verus!
