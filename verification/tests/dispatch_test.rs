use watchdog::webserver::handlers::api::CApiHandler;
use watchdog::webserver::handlers::CHeader;
use watchdog::config::Process;
use watchdog::dispatch::{CDispatch, DispatchError};
use watchdog::process::control::{CRunner, LaunchStep, Restart};
use watchdog::process::ProcessStatus;

fn proc(name: &str, execute: &str, auto: bool) -> Process {
    Process {
        name: name.to_string(),
        alias: Some("grp".to_string()),
        execute: execute.to_string(),
        args: vec![],
        directory: ".".to_string(),
        isAuto: auto,
        restartTimeS: None,
    }
}

#[test]
fn start_loads_and_names_runners() {
    let mut d = CDispatch::new("watchdog.json");
    assert_eq!(d.getConfigPath(), "watchdog.json");
    assert_eq!(d.fileOps().path(), "watchdog.json");
    assert!(d.start(None).is_empty());
    assert!(d.processCtrl().processList().is_empty());
    let starts = d.start(Some(vec![proc("a", "x", true), proc("b", "x", false)]));
    assert_eq!(starts, vec!["a", "b"]);
    assert_eq!(d.processCtrl().processList().len(), 2);
}

#[test]
fn reload_starts_restarts_and_stops() {
    let mut d = CDispatch::new("w.json");
    d.start(Some(vec![proc("keep", "x", true), proc("change", "x", true), proc("drop", "x", true)]));
    d.processCtrlMut().spawned("keep", 1);
    d.processCtrlMut().spawned("change", 2);
    d.processCtrlMut().spawned("drop", 3);
    let killed = std::cell::RefCell::new(Vec::new());
    let starts = d.reload(
        vec![proc("keep", "x", true), proc("change", "y", true), proc("new", "x", true)],
        &|p: i32| { killed.borrow_mut().push(p); true },
    );
    // "new" is added; "change" was running, so it is killed and its runner restarts it.
    assert_eq!(starts, vec!["new"]);
    assert_eq!(*killed.borrow(), vec![2, 3]);
    assert!(d.processCtrl().findPid("drop").is_none());
    let names: Vec<String> = d.processCtrl().processList().iter().map(|p| p.name.clone()).collect();
    assert_eq!(names, vec!["keep", "change", "new"]);
}

#[test]
fn reload_restart_of_failed_needs_runner() {
    let mut d = CDispatch::new("w.json");
    d.start(Some(vec![proc("a", "x", true)]));
    d.processCtrlMut().spawnFailed("a", "no such file".to_string());
    let starts = d.reload(vec![proc("a", "y", false)], &|_p: i32| true);
    assert_eq!(starts, vec!["a"]);
    // A restart makes the process automatic again.
    assert!(d.processCtrl().processList()[0].isAuto);
}

#[test]
fn reload_same_list_does_nothing() {
    let mut d = CDispatch::new("w.json");
    d.start(Some(vec![proc("a", "x", true)]));
    d.processCtrlMut().spawned("a", 8);
    let starts = d.reload(vec![proc("a", "x", true)], &|_p: i32| panic!("no kill"));
    assert!(starts.is_empty());
    assert_eq!(d.processCtrl().findPid("a").unwrap().pid, 8);
}

#[test]
fn dispatch_errors() {
    let mut d = CDispatch::new("w.json");
    d.start(Some(vec![proc("a", "x", true)]));
    assert_eq!(d.stopProcess("a", &|_p: i32| true), Err(DispatchError::StopProcess));
    assert_eq!(d.restartProcess("a", &|_p: i32| true), Ok(Restart::NeedsRunner));
    let mut r = CRunner::new("a", "", ":");
    assert!(matches!(d.processCtrlMut().beginLaunch(&mut r), LaunchStep::Spawn(_)));
    d.processCtrlMut().spawned("a", 4);
    assert_eq!(d.restartProcess("a", &|_p: i32| false), Err(DispatchError::RestartProcess));
    assert_eq!(d.stopProcess("a", &|_p: i32| true), Ok(()));
    assert_eq!(d.stopProcessByAlias("grp", &|_p: i32| true), Ok(()));
    assert_eq!(d.restartProcessByAlias("grp", &|_p: i32| true), Ok(vec![]));
    assert!(d.restartAllProcess(&|_p: i32| true).is_empty());
    d.stopAllProcess(&|_p: i32| true);
    assert!(!d.processCtrl().processList()[0].isAuto);
}

#[test]
fn status_of_unknown_process() {
    let mut d = CDispatch::new("w.json");
    d.start(Some(vec![proc("a", "x", true)]));
    // No entry: pid -1 and stopped; a pid this machine does not run has run time "unknow".
    let s = d.getRunStatus("a").unwrap();
    assert_eq!(s.pid, -1);
    assert!(matches!(s.status, ProcessStatus::Stoped));
    assert_eq!(s.name, "a");
    assert_eq!(s.runTime, "unknow");
    let all = d.getAllRunStatus().unwrap();
    assert_eq!(all.len(), 1);
    assert_eq!(all[0].name, "a");
}

#[test]
fn reload_ends_runners_of_dropped_processes() {
    let mut d = CDispatch::new("w.json");
    d.start(Some(vec![proc("keep", "x", true), proc("drop", "x", true)]));
    d.processCtrlMut().spawned("drop", 3);
    let starts = d.reload(vec![proc("keep", "x", true)], &|_p: i32| true);
    assert!(starts.is_empty());
    assert!(d.processCtrl().findPid("drop").is_none());
    let mut r = CRunner::new("drop", "", ":");
    assert!(matches!(d.processCtrlMut().beginLaunch(&mut r), LaunchStep::Exit));
    let mut r = CRunner::new("keep", "", ":");
    assert!(matches!(d.processCtrlMut().beginLaunch(&mut r), LaunchStep::Spawn(_)));
}

#[test]
fn one_status_answer_carries_the_report() {
    let mut d = CDispatch::new("w.json");
    d.start(Some(vec![proc("a", "x", true)]));
    let api = CApiHandler::new();
    // No name: a parameter error with empty data.
    let r = api.handleGetOneStatusRequest(&mut d, &vec![]);
    assert!(!r.result && r.status == 1 && r.message == "param error");
    assert!(r.data.pid == 0 && r.data.runTime.is_empty() && r.data.status.is_empty() && r.data.name.is_empty());
    // A process without an entry: no pid, stopped, and a run time the
    // machine cannot give.
    let h = vec![CHeader { field: "Name".to_string(), value: "a".to_string() }];
    let r = api.handleGetOneStatusRequest(&mut d, &h);
    assert!(r.result && r.status == 0);
    assert_eq!((r.data.pid, r.data.status.as_str(), r.data.name.as_str(), r.data.runTime.as_str()), (-1, "Stoped", "a", "unknow"));
}
