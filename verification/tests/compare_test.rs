use watchdog::config::Process;
use watchdog::dispatch::processChanged;
use watchdog::tools::compare::{processCompare, processCompare2};

fn proc(name: &str, execute: &str) -> Process {
    Process {
        name: name.to_string(),
        alias: None,
        execute: execute.to_string(),
        args: vec![],
        directory: ".".to_string(),
        isAuto: true,
        restartTimeS: None,
    }
}

fn names(v: &[&Process]) -> Vec<String> {
    v.iter().map(|p| p.name.clone()).collect()
}

#[test]
fn compare_adds_updates_deletes() {
    let olds = vec![proc("a", "x"), proc("b", "x"), proc("c", "x")];
    let news = vec![proc("b", "y"), proc("a", "x"), proc("d", "x")];
    let (adds, updates, deletes) = processCompare(&news, &olds, |o: &Process, n: &Process| processChanged(o, n));
    assert_eq!(names(&adds), vec!["d"]);
    assert_eq!(names(&updates), vec!["b"]);
    // The updated entry is the old process.
    assert_eq!(updates[0].execute, "x");
    assert_eq!(names(&deletes), vec!["c"]);
}

#[test]
fn compare_last_of_a_name_stands_for_it() {
    let olds = vec![proc("a", "x"), proc("a", "z")];
    let news = vec![proc("a", "z"), proc("a", "x")];
    let (adds, updates, deletes) = processCompare(&news, &olds, |o: &Process, n: &Process| o.execute != n.execute);
    assert!(adds.is_empty() && deletes.is_empty());
    // new "a" is the last one ("x"), old "a" is the last one ("z").
    assert_eq!(updates.len(), 1);
    assert_eq!(updates[0].execute, "z");
}

#[test]
fn compare_same_list_changes_nothing() {
    let ps = vec![proc("a", "x"), proc("b", "y")];
    let (adds, updates, deletes) = processCompare(&ps, &ps, |o: &Process, n: &Process| processChanged(o, n));
    assert!(adds.is_empty() && updates.is_empty() && deletes.is_empty());
}

#[test]
fn compare2_appends() {
    let olds = vec![proc("a", "x")];
    let news = vec![proc("b", "x")];
    let keep = proc("keep", "k");
    let mut adds = vec![&keep];
    let mut updates = vec![];
    let mut deletes = vec![];
    processCompare2(&news, &olds, &mut adds, &mut updates, &mut deletes, |_o: &Process, _n: &Process| true);
    assert_eq!(names(&adds), vec!["keep", "b"]);
    assert!(updates.is_empty());
    assert_eq!(names(&deletes), vec!["a"]);
}

#[test]
fn process_changed_fields() {
    let a = proc("a", "x");
    let mut b = proc("a", "x");
    assert!(!processChanged(&a, &b));
    b.alias = Some("other".to_string());
    b.restartTimeS = Some(5);
    assert!(!processChanged(&a, &b));
    b.args = vec!["-v".to_string()];
    assert!(processChanged(&a, &b));
    let mut c = proc("a", "x");
    c.isAuto = false;
    assert!(processChanged(&a, &c));
    let mut d = proc("a", "x");
    d.directory = "/tmp".to_string();
    assert!(processChanged(&a, &d));
}

#[test]
fn comparing_the_other_way_swaps_added_and_deleted() {
    let a = vec![proc("x", "1"), proc("y", "1"), proc("z", "1")];
    let b = vec![proc("y", "2"), proc("w", "1"), proc("z", "1")];
    let (add1, upd1, del1) = processCompare(&a, &b, |o: &Process, n: &Process| processChanged(o, n));
    let (add2, upd2, del2) = processCompare(&b, &a, |o: &Process, n: &Process| processChanged(n, o));
    let names = |v: &Vec<&Process>| v.iter().map(|p| p.name.clone()).collect::<Vec<_>>();
    assert_eq!(names(&add1), vec!["x"]);
    assert_eq!(names(&del1), vec!["w"]);
    assert_eq!(names(&add2), names(&del1));
    assert_eq!(names(&del2), names(&add1));
    assert_eq!(names(&upd1), vec!["y"]);
    assert_eq!(names(&upd2), names(&upd1));
}
