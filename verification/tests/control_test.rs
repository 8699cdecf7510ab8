use sysinfo::SystemExt;
use watchdog::process::check::startPositions;
use watchdog::config::Process;
use watchdog::process::control::{
    isStartedCopy, isStartedCopyIn, CControl, CRunner, ControlError, LaunchStep, Restart,
};
use watchdog::process::pids::{CPid, PidMapping};
use watchdog::process::ProcessStatus;

fn proc(name: &str, alias: Option<&str>, execute: &str, args: &[&str], auto: bool) -> Process {
    Process {
        name: name.to_string(),
        alias: alias.map(|a| a.to_string()),
        execute: execute.to_string(),
        args: args.iter().map(|a| a.to_string()).collect(),
        directory: ".".to_string(),
        isAuto: auto,
        restartTimeS: Some(0),
    }
}

fn is_status(c: &Option<CPid>, pid: i32, running: bool) -> bool {
    match c {
        Some(c) => c.pid == pid && (matches!(c.status, ProcessStatus::Running) == running),
        None => false,
    }
}

#[test]
fn pid_mapping_is_a_map() {
    let mut m = PidMapping::new();
    assert!(m.get("a").is_none());
    assert!(!m.insert("a", CPid { pid: 1, status: ProcessStatus::Running }));
    assert!(!m.insert("b", CPid { pid: 2, status: ProcessStatus::Stoped }));
    assert!(m.insert("a", CPid { pid: 3, status: ProcessStatus::QuickExit }));
    let a = m.get("a").unwrap();
    assert_eq!(a.pid, 3);
    assert!(matches!(a.status, ProcessStatus::QuickExit));
    assert_eq!(m.get("b").unwrap().pid, 2);
    assert!(m.remove("a"));
    assert!(!m.remove("a"));
    assert!(m.get("a").is_none());
    assert_eq!(m.get("b").unwrap().pid, 2);
}

#[test]
fn cancel_process_auto_touches_first_of_name() {
    let mut c = CControl::new(vec![
        proc("a", None, "x", &[], true),
        proc("b", None, "x", &[], true),
        proc("a", None, "y", &[], true),
    ]);
    c.cancelProcessAuto("a", false);
    let ps = c.processList();
    assert!(!ps[0].isAuto && ps[1].isAuto && ps[2].isAuto);
    c.cancelProcessAuto("zzz", false);
    assert!(c.processList()[1].isAuto);
}

#[test]
fn alias_names_in_order() {
    let c = CControl::new(vec![
        proc("a", Some("g"), "x", &[], true),
        proc("b", None, "x", &[], true),
        proc("c", Some("g"), "x", &[], true),
        proc("d", Some("h"), "x", &[], true),
    ]);
    assert_eq!(c.findProcessNamesByAlias("g"), vec!["a", "c"]);
    assert!(c.findProcessNamesByAlias("zz").is_empty());
    assert_eq!(c.processNames(), vec!["a", "b", "c", "d"]);
    assert_eq!(c.startAllProcess(), vec!["a", "b", "c", "d"]);
}

#[test]
fn stop_process_cases() {
    let mut c = CControl::new(vec![proc("a", None, "x", &[], true), proc("b", None, "x", &[], true)]);
    // No pid entry.
    assert_eq!(c.stopProcess("a", &|_p: i32| true), Err(ControlError::FindPid));
    // An entry that is not running: nothing happens.
    c.spawnFailed("b", "boom".to_string());
    assert_eq!(c.stopProcess("b", &|_p: i32| panic!("no kill")), Ok(()));
    assert!(c.processList()[1].isAuto);
    // A running process is killed and no longer automatic.
    c.spawned("a", 77);
    let killed = std::cell::Cell::new(0);
    assert_eq!(c.stopProcess("a", &|p: i32| { killed.set(p); true }), Ok(()));
    assert_eq!(killed.get(), 77);
    assert!(!c.processList()[0].isAuto);
    // A failed kill leaves it automatic.
    assert_eq!(c.stopProcess("a", &|_p: i32| false), Err(ControlError::Kill));
    assert!(c.processList()[0].isAuto);
    assert!(is_status(&c.findPid("a"), 77, true));
}

#[test]
fn restart_process_cases() {
    let mut c = CControl::new(vec![proc("a", None, "x", &[], false), proc("b", None, "x", &[], true)]);
    // No entry: a new runner is needed and the process becomes automatic.
    assert_eq!(c.restartProcess("a", &|_p: i32| panic!("no kill")), Ok(Restart::NeedsRunner));
    assert!(c.processList()[0].isAuto);
    // Failed and quick exits need a runner too.
    c.spawnFailed("b", "e".to_string());
    assert_eq!(c.restartProcess("b", &|_p: i32| panic!("no kill")), Ok(Restart::NeedsRunner));
    assert!(!c.finishRun("b", 5, 100, 101));
    assert_eq!(c.restartProcess("b", &|_p: i32| panic!("no kill")), Ok(Restart::NeedsRunner));
    // A stopped one cannot be restarted.
    assert!(c.finishRun("b", 5, 100, 200));
    assert_eq!(c.restartProcess("b", &|_p: i32| true), Err(ControlError::NotRunning));
    // A running one is killed.
    c.spawned("b", 9);
    assert_eq!(c.restartProcess("b", &|p: i32| p == 9), Ok(Restart::Killed));
    assert_eq!(c.restartProcess("b", &|_p: i32| false), Err(ControlError::Kill));
}

#[test]
fn all_and_alias_operations() {
    let mut c = CControl::new(vec![
        proc("a", Some("g"), "x", &[], true),
        proc("b", Some("g"), "x", &[], false),
        proc("c", None, "x", &[], true),
    ]);
    c.spawned("a", 1);
    c.spawned("c", 3);
    c.stopAllProcess(&|_p: i32| true);
    let ps = c.processList();
    assert!(!ps[0].isAuto && !ps[1].isAuto && !ps[2].isAuto);
    // b has no entry: restarting everything asks for a runner for b only.
    assert_eq!(c.restartAllProcess(&|_p: i32| true), vec!["b"]);
    assert!(c.processList()[1].isAuto);
    assert!(!c.processList()[0].isAuto);
    assert_eq!(c.stopProcessByAlias("g", &|_p: i32| true), Ok(()));
    assert_eq!(c.restartProcessByAlias("g", &|_p: i32| true), Ok(vec!["b".to_string()]));
    c.removeNameFromPidMapping("a");
    assert!(c.findPid("a").is_none());
}

fn spawn_plan(step: LaunchStep) -> (String, Vec<String>, String, String, Option<i64>) {
    match step {
        LaunchStep::Spawn(p) => (p.execute, p.args, p.directory, p.path, p.timeoutS),
        LaunchStep::Exit => panic!("expected a spawn"),
    }
}

#[test]
fn launch_steps() {
    let mut timed = proc("t", None, "prog", &["-port 50005", " -v "], true);
    timed.restartTimeS = Some(30);
    timed.directory = "/srv".to_string();
    let mut c = CControl::new(vec![
        timed,
        proc("e", None, "", &["run  fast"], true),
        proc("one", None, "", &["solo"], true),
        proc("empty", None, "", &["   "], true),
        proc("off", None, "x", &[], false),
    ]);
    // Not configured: the runner ends and the entry goes.
    c.spawned("gone", 4);
    let mut r = CRunner::new("gone", "/bin", ":");
    assert!(matches!(c.beginLaunch(&mut r), LaunchStep::Exit));
    assert!(c.findPid("gone").is_none());
    // Not automatic.
    let mut r = CRunner::new("off", "/bin", ":");
    assert!(matches!(c.beginLaunch(&mut r), LaunchStep::Exit));
    assert!(c.findPid("off").is_none());
    // No program at all.
    let mut r = CRunner::new("empty", "/bin", ":");
    assert!(matches!(c.beginLaunch(&mut r), LaunchStep::Exit));
    match c.findPid("empty").unwrap().status {
        ProcessStatus::Failed(s) => assert_eq!(s, "args error"),
        _ => panic!("expected a failure"),
    }
    // A program and split arguments; PATH grows on every start.
    let mut r = CRunner::new("t", "/bin", ":");
    let (e, a, d, p, t) = spawn_plan(c.beginLaunch(&mut r));
    assert_eq!((e.as_str(), d.as_str(), p.as_str(), t), ("prog", "/srv", "/bin:/srv", Some(30)));
    assert_eq!(a, vec!["-port", "50005", "-v"]);
    assert!(matches!(c.findPid("t").unwrap().status, ProcessStatus::Starting));
    let (_, _, _, p, _) = spawn_plan(c.beginLaunch(&mut r));
    assert_eq!(p, "/bin:/srv:/srv");
    // The first word is the program when `execute` is empty.
    let mut r = CRunner::new("e", "", ";");
    let (e, a, _, p, t) = spawn_plan(c.beginLaunch(&mut r));
    assert_eq!((e.as_str(), p.as_str(), t), ("run", ";.", None));
    assert_eq!(a, vec!["fast"]);
    // With a single word it is the program, and there are no arguments.
    let mut r = CRunner::new("one", "", ":");
    let (e, a, _, _, _) = spawn_plan(c.beginLaunch(&mut r));
    assert_eq!(e, "solo");
    assert!(a.is_empty());
}

#[test]
fn finish_run_quick_exit() {
    let mut c = CControl::new(vec![proc("a", None, "x", &[], true)]);
    c.spawned("a", 10);
    assert!(!c.finishRun("a", 10, 1000, 1002));
    let e = c.findPid("a").unwrap();
    assert!(e.pid == -1 && matches!(e.status, ProcessStatus::QuickExit));
    assert!(c.finishRun("a", 10, 1000, 1003));
    let e = c.findPid("a").unwrap();
    assert!(e.pid == 10 && matches!(e.status, ProcessStatus::Stoped));
    assert!(!c.finishRun("a", 10, i64::MAX, i64::MIN));
}

#[test]
fn stopped_process_is_not_relaunched() {
    let mut c = CControl::new(vec![proc("a", None, "x", &[], true)]);
    c.spawned("a", 5);
    assert_eq!(c.stopProcess("a", &|_p: i32| true), Ok(()));
    let mut r = CRunner::new("a", "", ":");
    assert!(matches!(c.beginLaunch(&mut r), LaunchStep::Exit));
    assert!(c.findPid("a").is_none());
    assert_eq!(c.restartProcess("a", &|_p: i32| true), Ok(Restart::NeedsRunner));
    assert!(matches!(c.beginLaunch(&mut r), LaunchStep::Spawn(_)));
}

#[test]
fn started_copy_matches_arguments_and_directory() {
    let cmd = vec!["/srv/prog".to_string(), "-v".to_string()];
    assert!(isStartedCopy(&cmd, &vec!["-v".to_string()], true));
    assert!(!isStartedCopy(&cmd, &vec!["-v".to_string()], false));
    assert!(!isStartedCopy(&cmd, &vec![], true));
    assert!(!isStartedCopy(&vec![], &vec![], true));
    assert!(isStartedCopy(&vec!["p".to_string()], &vec![], true));
}

#[test]
fn started_copy_compares_directories_as_paths() {
    let cmd = vec!["/srv/app/prog".to_string(), "-v".to_string()];
    let args = vec!["-v".to_string()];
    assert!(isStartedCopyIn(&cmd, &args, "/srv/app/", "/srv/app"));
    assert!(isStartedCopyIn(&cmd, &args, "/srv/./app", "/srv/app"));
    assert!(!isStartedCopyIn(&cmd, &args, "/srv/app2", "/srv/app"));
    assert!(!isStartedCopyIn(&cmd, &vec![], "/srv/app", "/srv/app"));
}

#[test]
fn stop_all_ends_runners_whose_kill_succeeded() {
    let mut c = CControl::new(vec![
        proc("a", None, "x", &[], true),
        proc("b", None, "x", &[], true),
        proc("c", None, "x", &[], true),
    ]);
    c.spawned("a", 1);
    c.spawned("b", 2);
    // The kill of b fails: b stays automatic; c has no entry and is untouched.
    c.stopAllProcess(&|p: i32| p != 2);
    let ps = c.processList();
    assert!(!ps[0].isAuto && ps[1].isAuto && ps[2].isAuto);
    let mut r = CRunner::new("a", "", ":");
    assert!(matches!(c.beginLaunch(&mut r), LaunchStep::Exit));
    let mut r = CRunner::new("b", "", ":");
    assert!(matches!(c.beginLaunch(&mut r), LaunchStep::Spawn(_)));
}

#[test]
#[allow(non_snake_case)]
fn startNewProcessTest() {
    let process = Process {
        name: "test".to_string(),
        alias: None,
        execute: String::new(),
        args: Vec::new(),
        directory: ".".to_string(),
        isAuto: true,
        restartTimeS: None,
    };
    let mut ctrl = CControl::new(vec![process]);
    // The runner of "test" finds no program to start: its entry records
    // the failure and the runner ends.
    let mut runner = CRunner::new("test", "/bin", ":");
    assert!(matches!(ctrl.beginLaunch(&mut runner), LaunchStep::Exit));
    match ctrl.findPid("test").unwrap().status {
        ProcessStatus::Failed(s) => assert_eq!(s, "args error"),
        _ => panic!("expected a failure"),
    }
}

#[test]
fn start_positions_one_per_delivered_signal_of_automatic_processes() {
    let ps = vec![
        proc("a", None, "x", &[], true),
        proc("b", None, "x", &[], false),
        proc("c", None, "x", &[], true),
    ];
    let delivered = vec![vec![true, false, true], vec![true], vec![false, true]];
    assert_eq!(startPositions(&ps, &delivered), vec![0, 0, 2]);
    assert!(startPositions(&ps, &vec![vec![], vec![], vec![]]).is_empty());
}

#[test]
fn keep_waiting_until_the_restart_time_has_passed() {
    use_keep_waiting();
}

fn use_keep_waiting() {
    assert!(watchdog::process::control::keepWaiting(100, 129, 30));
    assert!(!watchdog::process::control::keepWaiting(100, 130, 30));
    assert!(!watchdog::process::control::keepWaiting(i64::MIN, i64::MAX, 30));
    assert!(watchdog::process::control::keepWaiting(i64::MAX, i64::MIN, 1));
}

#[test]
fn nothing_is_killed_without_an_earlier_start() {
    let mut system = sysinfo::System::new();
    let killed = watchdog::process::control::killStartedProcess(
        &mut system,
        "no-such-program-4f1c9e",
        &vec!["-x".to_string()],
        "/no/such/dir",
    );
    assert!(killed.is_empty());
}

#[test]
fn check_starts_nothing_for_names_the_machine_lacks() {
    let mut check = watchdog::process::check::CCheck::new(vec![proc("no-such-program-4f1c9e", None, "x", &[], true)]);
    assert!(check.findAndStartSubProcess().is_empty());
}
