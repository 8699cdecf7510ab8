//! Comparing a new process list with the current one by name.
//!
//! When a name occurs more than once in a list, its last process stands for
//! it.  A name only in the new list is added, a name only in the old list is
//! deleted, and a name in both is updated when `f(old, new)` says so.
#![allow(non_snake_case)]
use vstd::prelude::*;

use crate::config::Process;
use crate::strings::str_eq;

verus! {

/// Some process in `ps` is named `n`.
pub open spec fn has_name(ps: Seq<Process>, n: Seq<char>) -> bool {
    exists|j: int| 0 <= j < ps.len() && (#[trigger] ps[j]).name@ == n
}

/// No later process in `ps` has the name of process `i`.
pub open spec fn is_last_named(ps: Seq<Process>, i: int) -> bool {
    &&& 0 <= i < ps.len()
    &&& forall|j: int| i < j < ps.len() ==> (#[trigger] ps[j]).name@ != ps[i].name@
}

/// The position of the last process named `n`.
pub open spec fn last_index(ps: Seq<Process>, n: Seq<char>) -> int {
    choose|j: int| is_last_named(ps, j) && ps[j].name@ == n
}

/// The processes of `news[..k]` that stand for their name and whose name
/// `olds` lacks, in order.
pub open spec fn added(news: Seq<Process>, olds: Seq<Process>, k: int) -> Seq<Process>
    decreases k,
{
    if k <= 0 {
        seq![]
    } else {
        let r = added(news, olds, k - 1);
        if is_last_named(news, k - 1) && !has_name(olds, news[k - 1].name@) {
            r.push(news[k - 1])
        } else {
            r
        }
    }
}

/// `news[j]` stands for its name and `olds` has that name too: the
/// comparison asks about the pair.
pub open spec fn is_pair(news: Seq<Process>, olds: Seq<Process>, j: int) -> bool {
    is_last_named(news, j) && has_name(olds, news[j].name@)
}

/// For the processes of `news[..k]` that stand for their name and whose name
/// `olds` has too, the old process, when the answer `ans[j]` for the pair
/// says that it differs.
pub open spec fn updated(news: Seq<Process>, olds: Seq<Process>, ans: Seq<bool>, k: int) -> Seq<Process>
    decreases k,
{
    if k <= 0 {
        seq![]
    } else {
        let r = updated(news, olds, ans, k - 1);
        let n = news[k - 1];
        if is_pair(news, olds, k - 1) && ans[k - 1] {
            r.push(olds[last_index(olds, n.name@)])
        } else {
            r
        }
    }
}

/// The processes of `olds[..k]` that stand for their name and whose name
/// `news` lacks, in order.
pub open spec fn deleted(news: Seq<Process>, olds: Seq<Process>, k: int) -> Seq<Process>
    decreases k,
{
    if k <= 0 {
        seq![]
    } else {
        let r = deleted(news, olds, k - 1);
        if is_last_named(olds, k - 1) && !has_name(news, olds[k - 1].name@) {
            r.push(olds[k - 1])
        } else {
            r
        }
    }
}

/// The processes that a list of references points to.
pub open spec fn derefs(s: Seq<&Process>) -> Seq<Process> {
    s.map_values(|p: &Process| *p)
}

/// `ans[j]` is what `f` answered about each pair the comparison asked
/// about: the `j`-th new process and the old process of its name.
pub open spec fn answered_by<F: Fn(&Process, &Process) -> bool>(
    f: F,
    news: Seq<Process>,
    olds: Seq<Process>,
    ans: Seq<bool>,
) -> bool {
    &&& ans.len() == news.len()
    &&& forall|j: int|
        0 <= j < news.len() && is_pair(news, olds, j) ==> f.ensures(
            (&olds[last_index(olds, news[j].name@)], &news[j]),
            #[trigger] ans[j],
        )
}

pub proof fn lemma_last_index(ps: Seq<Process>, j: int)
    requires
        is_last_named(ps, j),
    ensures
        last_index(ps, ps[j].name@) == j,
{
    let n = ps[j].name@;
    assert(is_last_named(ps, j) && ps[j].name@ == n);
    let k = last_index(ps, n);
    assert(is_last_named(ps, k) && ps[k].name@ == n);
    if k < j {
        assert(ps[j].name@ == ps[k].name@);
    } else if k > j {
        assert(ps[k].name@ == ps[j].name@);
    }
}

fn isLastAt(ps: &Vec<Process>, i: usize) -> (r: bool)
    requires
        i < ps.len(),
    ensures
        r == is_last_named(ps@, i as int),
{
    let mut j: usize = i + 1;
    while j < ps.len()
        invariant
            i < j <= ps@.len(),
            forall|k: int| i < k < j ==> (#[trigger] ps@[k]).name@ != ps@[i as int].name@,
        decreases ps@.len() - j,
    {
        if str_eq(ps[j].name.as_str(), ps[i].name.as_str()) {
            return false;
        }
        j = j + 1;
    }
    true
}

fn lastPosition(ps: &Vec<Process>, name: &str) -> (r: Option<usize>)
    ensures
        match r {
            Some(j) => has_name(ps@, name@) && j as int == last_index(ps@, name@) && j < ps@.len()
                && ps@[j as int].name@ == name@,
            None => !has_name(ps@, name@),
        },
{
    let mut j: usize = ps.len();
    while j > 0
        invariant
            0 <= j <= ps@.len(),
            forall|k: int| j <= k < ps@.len() ==> (#[trigger] ps@[k]).name@ != name@,
        decreases j,
    {
        j = j - 1;
        if str_eq(ps[j].name.as_str(), name) {
            proof {
                lemma_last_index(ps@, j as int);
            }
            return Some(j);
        }
    }
    None
}

/// `updated` up to `k` reads the answers below `k` only.
proof fn lemma_updated_prefix(news: Seq<Process>, olds: Seq<Process>, a: Seq<bool>, b: Seq<bool>, k: int)
    requires
        0 <= k <= a.len(),
        k <= b.len(),
        forall|j: int| 0 <= j < k ==> a[j] == b[j],
    ensures
        updated(news, olds, a, k) == updated(news, olds, b, k),
    decreases k,
{
    if k > 0 {
        lemma_updated_prefix(news, olds, a, b, k - 1);
    }
}

/// Compares `news` with `olds`; returns the added, updated (as their old
/// processes) and deleted processes.
pub fn processCompare<'a, F: Fn(&Process, &Process) -> bool>(
    news: &'a Vec<Process>,
    olds: &'a Vec<Process>,
    f: F,
) -> (r: (Vec<&'a Process>, Vec<&'a Process>, Vec<&'a Process>))
    requires
        forall|a: &Process, b: &Process| f.requires((a, b)),
    ensures
        derefs(r.0@) == added(news@, olds@, news@.len() as int),
        exists|ans: Seq<bool>|
            #[trigger] answered_by(f, news@, olds@, ans) && derefs(r.1@) == updated(
                news@,
                olds@,
                ans,
                news@.len() as int,
            ),
        derefs(r.2@) == deleted(news@, olds@, olds@.len() as int),
{
    let mut adds: Vec<&'a Process> = Vec::new();
    let mut updates: Vec<&'a Process> = Vec::new();
    let mut deletes: Vec<&'a Process> = Vec::new();
    processCompare2(news, olds, &mut adds, &mut updates, &mut deletes, f);
    (adds, updates, deletes)
}

/// `processCompare` that appends its three answers to the given lists.
pub fn processCompare2<'a, F: Fn(&Process, &Process) -> bool>(
    news: &'a Vec<Process>,
    olds: &'a Vec<Process>,
    adds: &mut Vec<&'a Process>,
    updates: &mut Vec<&'a Process>,
    deletes: &mut Vec<&'a Process>,
    f: F,
)
    requires
        forall|a: &Process, b: &Process| f.requires((a, b)),
    ensures
        derefs(final(adds)@) == derefs(old(adds)@) + added(news@, olds@, news@.len() as int),
        exists|ans: Seq<bool>|
            #[trigger] answered_by(f, news@, olds@, ans) && derefs(final(updates)@) == derefs(
                old(updates)@,
            ) + updated(news@, olds@, ans, news@.len() as int),
        derefs(final(deletes)@) == derefs(old(deletes)@) + deleted(news@, olds@, olds@.len() as int),
{
    let ghost a0 = derefs(adds@);
    let ghost u0 = derefs(updates@);
    let ghost d0 = derefs(deletes@);
    let mut i: usize = 0;
    let ghost mut ans: Seq<bool> = Seq::empty();
    assert(a0 =~= a0 + added(news@, olds@, 0));
    assert(u0 =~= u0 + updated(news@, olds@, ans, 0));
    while i < news.len()
        invariant
            0 <= i <= news@.len(),
            forall|a: &Process, b: &Process| f.requires((a, b)),
            ans.len() == i,
            derefs(adds@) == a0 + added(news@, olds@, i as int),
            derefs(updates@) == u0 + updated(news@, olds@, ans, i as int),
            derefs(deletes@) == d0,
            forall|j: int|
                0 <= j < i && is_pair(news@, olds@, j) ==> f.ensures(
                    (&olds@[last_index(olds@, news@[j].name@)], &news@[j]),
                    #[trigger] ans[j],
                ),
        decreases news@.len() - i,
    {
        let ghost ans0 = ans;
        if isLastAt(news, i) {
            match lastPosition(olds, news[i].name.as_str()) {
                Some(j) => {
                    let changed = f(&olds[j], &news[i]);
                    proof {
                        ans = ans.push(changed);
                        assert(updated(news@, olds@, ans, i as int) == updated(news@, olds@, ans0, i as int)) by {
                            lemma_updated_prefix(news@, olds@, ans0, ans, i as int);
                        }
                    }
                    if changed {
                        let ghost before = updates@;
                        updates.push(&olds[j]);
                        assert(derefs(updates@) =~= derefs(before).push(olds@[j as int]));
                        assert(derefs(updates@) =~= u0 + updated(news@, olds@, ans, i + 1));
                    } else {
                        assert(derefs(updates@) =~= u0 + updated(news@, olds@, ans, i + 1));
                    }
                    assert(derefs(adds@) =~= a0 + added(news@, olds@, i + 1));
                },
                None => {
                    proof {
                        ans = ans.push(false);
                        lemma_updated_prefix(news@, olds@, ans0, ans, i as int);
                    }
                    let ghost before = adds@;
                    adds.push(&news[i]);
                    assert(derefs(adds@) =~= derefs(before).push(news@[i as int]));
                    assert(derefs(adds@) =~= a0 + added(news@, olds@, i + 1));
                    assert(derefs(updates@) =~= u0 + updated(news@, olds@, ans, i + 1));
                },
            }
        } else {
            proof {
                ans = ans.push(false);
                lemma_updated_prefix(news@, olds@, ans0, ans, i as int);
            }
            assert(derefs(adds@) =~= a0 + added(news@, olds@, i + 1));
            assert(derefs(updates@) =~= u0 + updated(news@, olds@, ans, i + 1));
        }
        i = i + 1;
    }
    assert(answered_by(f, news@, olds@, ans));
    let mut i: usize = 0;
    assert(d0 =~= d0 + deleted(news@, olds@, 0));
    while i < olds.len()
        invariant
            0 <= i <= olds@.len(),
            derefs(deletes@) == d0 + deleted(news@, olds@, i as int),
        decreases olds@.len() - i,
    {
        if isLastAt(olds, i) {
            match lastPosition(news, olds[i].name.as_str()) {
                Some(_) => {},
                None => {
                    let ghost before = deletes@;
                    deletes.push(&olds[i]);
                    assert(derefs(deletes@) =~= derefs(before).push(olds@[i as int]));
                },
            }
        }
        assert(derefs(deletes@) =~= d0 + deleted(news@, olds@, i + 1));
        i = i + 1;
    }
}

/// Comparing a list with itself finds nothing added and nothing deleted.
pub proof fn lemma_compare_same_list(ps: Seq<Process>, k: int)
    requires
        0 <= k <= ps.len(),
    ensures
        added(ps, ps, k) == Seq::<Process>::empty(),
        deleted(ps, ps, k) == Seq::<Process>::empty(),
    decreases k,
{
    if k > 0 {
        lemma_compare_same_list(ps, k - 1);
        assert(ps[k - 1].name@ == ps[k - 1].name@);
        assert(has_name(ps, ps[k - 1].name@));
    }
}

/// Every name is added, updated or deleted at most once over: an added
/// process's name is new, a deleted one's is gone, and an updated one's is
/// in both lists.
pub proof fn lemma_compare_partition(
    news: Seq<Process>,
    olds: Seq<Process>,
    ans: Seq<bool>,
    k: int,
    m: int,
)
    requires
        0 <= k <= news.len(),
        0 <= m <= olds.len(),
    ensures
        forall|j: int|
            0 <= j < added(news, olds, k).len() ==> has_name(
                news,
                (#[trigger] added(news, olds, k)[j]).name@,
            ) && !has_name(olds, added(news, olds, k)[j].name@),
        forall|j: int|
            0 <= j < deleted(news, olds, m).len() ==> has_name(
                olds,
                (#[trigger] deleted(news, olds, m)[j]).name@,
            ) && !has_name(news, deleted(news, olds, m)[j].name@),
        forall|j: int|
            0 <= j < updated(news, olds, ans, k).len() ==> has_name(
                olds,
                (#[trigger] updated(news, olds, ans, k)[j]).name@,
            ) && has_name(news, updated(news, olds, ans, k)[j].name@),
    decreases k + m,
{
    if k > 0 {
        lemma_compare_partition(news, olds, ans, k - 1, m);
        let n = news[k - 1];
        assert(has_name(news, n.name@)) by {
            assert(news[k - 1].name@ == n.name@);
        }
        if is_last_named(news, k - 1) && has_name(olds, n.name@) {
            let li = last_index(olds, n.name@);
            let w = choose|j: int| 0 <= j < olds.len() && (#[trigger] olds[j]).name@ == n.name@;
            lemma_last_exists(olds, n.name@, w);
            assert(has_name(olds, olds[li].name@)) by {
                assert(0 <= li < olds.len());
            }
        }
    } else if m > 0 {
        lemma_compare_partition(news, olds, ans, k, m - 1);
        assert(has_name(olds, olds[m - 1].name@)) by {
            assert(olds[m - 1].name@ == olds[m - 1].name@);
        }
    }
}

/// When some process is named `n`, a last one is.
pub proof fn lemma_last_exists(ps: Seq<Process>, n: Seq<char>, w: int)
    requires
        0 <= w < ps.len(),
        ps[w].name@ == n,
    ensures
        is_last_named(ps, last_index(ps, n)) && ps[last_index(ps, n)].name@ == n,
    decreases ps.len() - w,
{
    if is_last_named(ps, w) {
        assert(is_last_named(ps, w) && ps[w].name@ == n);
    } else {
        assert(exists|q: int| w < q < ps.len() && (#[trigger] ps[q]).name@ == ps[w].name@);
        let q2 = choose|q: int| w < q < ps.len() && (#[trigger] ps[q]).name@ == ps[w].name@;
        lemma_last_exists(ps, n, q2);
    }
}


/// Comparing the other way round swaps what is added and what is deleted:
/// the processes added from `olds` to `news` are those deleted going from
/// `news` to `olds`, and the other way round.
pub proof fn lemma_compare_swap(news: Seq<Process>, olds: Seq<Process>)
    ensures
        added(news, olds, news.len() as int) == deleted(olds, news, news.len() as int),
        deleted(news, olds, olds.len() as int) == added(olds, news, olds.len() as int),
{
    lemma_added_is_deleted(news, olds, news.len() as int);
    lemma_added_is_deleted(olds, news, olds.len() as int);
}

proof fn lemma_added_is_deleted(news: Seq<Process>, olds: Seq<Process>, k: int)
    ensures
        added(news, olds, k) == deleted(olds, news, k),
    decreases k,
{
    if k > 0 {
        lemma_added_is_deleted(news, olds, k - 1);
    }
}

/// A name is among the updated ones exactly when both lists have it and
/// the answer about the new process that stands for it says it differs.
proof fn lemma_updated_names(news: Seq<Process>, olds: Seq<Process>, ans: Seq<bool>, k: int, x: Seq<char>)
    requires
        0 <= k <= news.len(),
        ans.len() == news.len(),
    ensures
        crate::config::names(updated(news, olds, ans, k)).contains(x) <==> (exists|j: int|
            0 <= j < k && is_pair(news, olds, j) && ans[j] && #[trigger] news[j].name@ == x),
    decreases k,
{
    let u = updated(news, olds, ans, k);
    if k > 0 {
        lemma_updated_names(news, olds, ans, k - 1, x);
        let u0 = updated(news, olds, ans, k - 1);
        let n = news[k - 1];
        if is_pair(news, olds, k - 1) && ans[k - 1] {
            let w = choose|w: int| 0 <= w < olds.len() && (#[trigger] olds[w]).name@ == n.name@;
            lemma_last_exists(olds, n.name@, w);
            assert(u == u0.push(olds[last_index(olds, n.name@)]));
            assert(crate::config::names(u) =~= crate::config::names(u0).push(n.name@));
            if crate::config::names(u0).contains(x) {
                let i = choose|i: int| 0 <= i < crate::config::names(u0).len() && crate::config::names(u0)[i] == x;
                assert(crate::config::names(u)[i] == x);
            }
            if crate::config::names(u).contains(x) && !crate::config::names(u0).contains(x) {
                let i = choose|i: int| 0 <= i < crate::config::names(u).len() && crate::config::names(u)[i] == x;
                if i < crate::config::names(u0).len() {
                    assert(crate::config::names(u0)[i] == x);
                }
                assert(news[k - 1].name@ == x);
            }
            if exists|j: int| 0 <= j < k && is_pair(news, olds, j) && ans[j] && #[trigger] news[j].name@ == x {
                if news[k - 1].name@ == x {
                    assert(crate::config::names(u)[u0.len() as int] == x);
                }
            }
        } else {
            assert(u == u0);
            if exists|j: int| 0 <= j < k && is_pair(news, olds, j) && ans[j] && #[trigger] news[j].name@ == x {
                let j = choose|j: int| 0 <= j < k && is_pair(news, olds, j) && ans[j] && #[trigger] news[j].name@ == x;
                assert(j != k - 1);
            }
        }
    }
}

/// Comparing the other way round finds the same names updated, when the
/// two comparisons got the same answer about each name both lists have:
/// the name set of `updated` does not depend on the direction.
pub proof fn lemma_compare_swap_updated(
    news: Seq<Process>,
    olds: Seq<Process>,
    ans: Seq<bool>,
    ans2: Seq<bool>,
    x: Seq<char>,
)
    requires
        ans.len() == news.len(),
        ans2.len() == olds.len(),
        forall|i: int, j: int|
            is_pair(news, olds, i) && is_pair(olds, news, j) && #[trigger] news[i].name@
                == #[trigger] olds[j].name@ ==> ans[i] == ans2[j],
    ensures
        crate::config::names(updated(news, olds, ans, news.len() as int)).contains(x)
            <==> crate::config::names(updated(olds, news, ans2, olds.len() as int)).contains(x),
{
    lemma_updated_names(news, olds, ans, news.len() as int, x);
    lemma_updated_names(olds, news, ans2, olds.len() as int, x);
    if exists|j: int| 0 <= j < news.len() && is_pair(news, olds, j) && ans[j] && #[trigger] news[j].name@ == x {
        let i = choose|j: int| 0 <= j < news.len() && is_pair(news, olds, j) && ans[j] && #[trigger] news[j].name@ == x;
        let w = choose|w: int| 0 <= w < olds.len() && (#[trigger] olds[w]).name@ == x;
        lemma_last_exists(olds, x, w);
        let j = last_index(olds, x);
        assert(has_name(news, olds[j].name@)) by {
            assert(news[i].name@ == olds[j].name@);
        }
        assert(is_pair(olds, news, j));
        assert(ans[i] == ans2[j]);
        assert(0 <= j < olds.len() && is_pair(olds, news, j) && ans2[j] && olds[j].name@ == x);
    }
    if exists|j: int| 0 <= j < olds.len() && is_pair(olds, news, j) && ans2[j] && #[trigger] olds[j].name@ == x {
        let j = choose|j: int| 0 <= j < olds.len() && is_pair(olds, news, j) && ans2[j] && #[trigger] olds[j].name@ == x;
        let w = choose|w: int| 0 <= w < news.len() && (#[trigger] news[w]).name@ == x;
        lemma_last_exists(news, x, w);
        let i = last_index(news, x);
        assert(has_name(olds, news[i].name@)) by {
            assert(olds[j].name@ == news[i].name@);
        }
        assert(is_pair(news, olds, i));
        assert(ans[i] == ans2[j]);
        assert(0 <= i < news.len() && is_pair(news, olds, i) && ans[i] && news[i].name@ == x);
    }
}


/// `f` gives one answer for each pair of processes.
pub open spec fn is_deterministic<F: Fn(&Process, &Process) -> bool>(f: F) -> bool {
    forall|a: &Process, b: &Process, r1: bool, r2: bool|
        #[trigger] f.ensures((a, b), r1) && #[trigger] f.ensures((a, b), r2) ==> r1 == r2
}

proof fn lemma_updated_same_answers<F: Fn(&Process, &Process) -> bool>(
    f: F,
    news: Seq<Process>,
    olds: Seq<Process>,
    a1: Seq<bool>,
    a2: Seq<bool>,
    k: int,
)
    requires
        0 <= k <= news.len(),
        is_deterministic(f),
        answered_by(f, news, olds, a1),
        answered_by(f, news, olds, a2),
    ensures
        updated(news, olds, a1, k) == updated(news, olds, a2, k),
    decreases k,
{
    if k > 0 {
        lemma_updated_same_answers(f, news, olds, a1, a2, k - 1);
        if is_pair(news, olds, k - 1) {
            let o = &olds[last_index(olds, news[k - 1].name@)];
            let n = &news[k - 1];
            assert(f.ensures((o, n), a1[k - 1]));
            assert(f.ensures((o, n), a2[k - 1]));
        }
    }
}

/// Comparing the same lists twice with a deterministic `f` finds the same
/// updated processes, whatever answers each comparison recorded; added and
/// deleted ones are fixed by the lists alone.  So `processCompare2` started
/// from empty lists leaves what `processCompare` returns.
pub proof fn lemma_compare_same_answers<F: Fn(&Process, &Process) -> bool>(
    f: F,
    news: Seq<Process>,
    olds: Seq<Process>,
    a1: Seq<bool>,
    a2: Seq<bool>,
)
    requires
        is_deterministic(f),
        answered_by(f, news, olds, a1),
        answered_by(f, news, olds, a2),
    ensures
        updated(news, olds, a1, news.len() as int) == updated(news, olds, a2, news.len() as int),
{
    lemma_updated_same_answers(f, news, olds, a1, a2, news.len() as int);
}

} // verus!
