//! The configuration model: the processes that the watchdog keeps running.
#![allow(non_snake_case)]
use vstd::prelude::*;

pub mod file;

verus! {

/// One configured process.
#[derive(Clone, Debug)]
pub struct Process {
    /// The name that tells processes apart.
    pub name: String,
    /// A second name that several processes may share.
    pub alias: Option<String>,
    /// The program to run; when empty, the first word of `args` is the program.
    pub execute: String,
    /// The command line arguments; each entry may hold several words.
    pub args: Vec<String>,
    /// The working directory, also appended to the `PATH` of the child.
    pub directory: String,
    /// Whether the process is started, and started again when it ends.
    pub isAuto: bool,
    /// When positive, the process is started anew after this many seconds.
    pub restartTimeS: Option<i64>,
}

/// The contents of the configuration file.
#[derive(Clone, Debug)]
pub struct ConfigInfo {
    pub processList: Option<Vec<Process>>,
}

} // verus!

verus! {

/// Process `i` is the first one in `ps` named `name`.
pub open spec fn is_first_named(ps: Seq<Process>, name: Seq<char>, i: int) -> bool {
    &&& 0 <= i < ps.len()
    &&& ps[i].name@ == name
    &&& forall|j: int| 0 <= j < i ==> (#[trigger] ps[j]).name@ != name
}

/// The position of the first process named `name`, if there is one.
pub open spec fn first_named(ps: Seq<Process>, name: Seq<char>) -> Option<int> {
    if exists|i: int| is_first_named(ps, name, i) {
        Some(choose|i: int| is_first_named(ps, name, i))
    } else {
        None
    }
}

/// `ps` with the first process named `name` given `isAuto == b`.
pub open spec fn set_auto(ps: Seq<Process>, name: Seq<char>, b: bool) -> Seq<Process> {
    match first_named(ps, name) {
        Some(i) => ps.update(i, Process { isAuto: b, ..ps[i] }),
        None => ps,
    }
}

/// The names of the processes, in order.
pub open spec fn names(ps: Seq<Process>) -> Seq<Seq<char>> {
    ps.map_values(|p: Process| p.name@)
}

/// Whether `p` carries the alias `alias`.
pub open spec fn has_alias(p: Process, alias: Seq<char>) -> bool {
    match p.alias {
        Some(a) => a@ == alias,
        None => false,
    }
}

/// The names of the processes that carry `alias`, in order.
pub open spec fn alias_names(ps: Seq<Process>, alias: Seq<char>) -> Seq<Seq<char>>
    decreases ps.len(),
{
    if ps.len() == 0 {
        seq![]
    } else {
        let r = alias_names(ps.drop_last(), alias);
        if has_alias(ps.last(), alias) {
            r.push(ps.last().name@)
        } else {
            r
        }
    }
}

/// A process is the first of its name exactly when the first of that name is it.
pub proof fn lemma_first_named(ps: Seq<Process>, name: Seq<char>, i: int)
    requires
        is_first_named(ps, name, i),
    ensures
        first_named(ps, name) == Some(i),
{
    let k = choose|k: int| is_first_named(ps, name, k);
    assert(is_first_named(ps, name, k));
    if k < i {
        assert(ps[k].name@ == name);
    } else if k > i {
        assert(ps[i].name@ == name);
    }
}

/// Without any process named `name` there is no first one.
pub proof fn lemma_no_first_named(ps: Seq<Process>, name: Seq<char>)
    requires
        forall|j: int| 0 <= j < ps.len() ==> (#[trigger] ps[j]).name@ != name,
    ensures
        first_named(ps, name) is None,
{
}

/// Which process is first of its name depends on the names alone.
pub proof fn lemma_first_named_same_names(ps: Seq<Process>, qs: Seq<Process>, name: Seq<char>)
    requires
        ps.len() == qs.len(),
        forall|j: int| 0 <= j < ps.len() ==> (#[trigger] ps[j]).name@ == qs[j].name@,
    ensures
        first_named(ps, name) == first_named(qs, name),
        forall|i: int| is_first_named(ps, name, i) == is_first_named(qs, name, i),
{
    assert forall|i: int| is_first_named(ps, name, i) == is_first_named(qs, name, i) by {
        if is_first_named(ps, name, i) {
            assert forall|j: int| 0 <= j < i implies (#[trigger] qs[j]).name@ != name by {
                assert(ps[j].name@ != name);
            }
        }
        if is_first_named(qs, name, i) {
            assert forall|j: int| 0 <= j < i implies (#[trigger] ps[j]).name@ != name by {
                assert(qs[j].name@ != name);
            }
        }
    }
    if let Some(i) = first_named(ps, name) {
        lemma_first_named(qs, name, i);
    } else if let Some(i) = first_named(qs, name) {
        lemma_first_named(ps, name, i);
    }
}

} // verus!
