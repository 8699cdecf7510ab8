use watchdog::process::pids::CPid;
use watchdog::process::status::{calcSec2DHMS, runStatusInfo, runTimeOf, StatusError, MAX_DURATION_SECS};
use watchdog::process::{to_status_desc, ProcessStatus};

#[test]
fn dhms_formats() {
    assert_eq!(calcSec2DHMS(0), "0day, 0:0:0");
    assert_eq!(calcSec2DHMS(59), "0day, 0:0:59");
    assert_eq!(calcSec2DHMS(3600), "0day, 1:0:0");
    assert_eq!(calcSec2DHMS(90061), "1day, 1:1:1");
    assert_eq!(calcSec2DHMS(86399), "0day, 23:59:59");
    // Negative durations round toward zero in every part.
    assert_eq!(calcSec2DHMS(-3661), "0day, -1:-1:-1");
    assert_eq!(calcSec2DHMS(-90061), "-1day, -1:-1:-1");
    assert_eq!(calcSec2DHMS(MAX_DURATION_SECS), "106751991167day, 7:12:55");
}

#[test]
fn run_time_range() {
    assert_eq!(runTimeOf(100, 190).unwrap(), "0day, 0:1:30");
    assert_eq!(runTimeOf(200, 100).unwrap(), "0day, 0:-1:-40");
    assert!(runTimeOf(0, i64::MAX).is_none());
    // A start time beyond i64 wraps as the cast does.
    assert!(runTimeOf(u64::MAX, 0).is_some());
}

#[test]
fn run_status_info_cases() {
    let e = CPid { pid: 12, status: ProcessStatus::Running };
    let i = runStatusInfo(e, "svc", None, 1000).unwrap();
    assert_eq!((i.pid, i.runTime.as_str(), i.name.as_str()), (12, "unknow", "svc"));
    assert!(matches!(i.status, ProcessStatus::Running));
    let e = CPid { pid: 12, status: ProcessStatus::Running };
    let i = runStatusInfo(e, "svc", Some(1000), 1061).unwrap();
    assert_eq!(i.runTime, "0day, 0:1:1");
    let e = CPid { pid: 12, status: ProcessStatus::Running };
    assert!(matches!(runStatusInfo(e, "svc", Some(0), i64::MAX), Err(StatusError::RunTimeRange)));
}

#[test]
fn status_descriptions() {
    assert_eq!(to_status_desc(&ProcessStatus::Starting), "Starting");
    assert_eq!(to_status_desc(&ProcessStatus::Running), "Running");
    assert_eq!(to_status_desc(&ProcessStatus::Stoped), "Stoped");
    assert_eq!(to_status_desc(&ProcessStatus::Failed("args error".to_string())), "Failed: args error");
    assert_eq!(to_status_desc(&ProcessStatus::QuickExit), "QuickExit");
    assert_eq!(to_status_desc(&ProcessStatus::Unknow), "Unknow");
    assert!(matches!(ProcessStatus::Failed("x".to_string()).duplicate(), ProcessStatus::Failed(s) if s == "x"));
}

#[test]
fn statuses_from_reports_each_process_in_order() {
    let entries = vec![
        CPid { pid: 7, status: ProcessStatus::Running },
        CPid { pid: -1, status: ProcessStatus::Stoped },
        CPid { pid: 9, status: ProcessStatus::Running },
    ];
    let names = vec!["a".to_string(), "b".to_string(), "c".to_string()];
    // c's start time gives a run time out of range: it alone is left out.
    let starts = vec![Some(1000), None, Some(1u64 << 63)];
    let v = watchdog::process::status::statusesFrom(&entries, &names, &starts, 1061);
    assert_eq!(v.len(), 2);
    assert_eq!((v[0].name.as_str(), v[0].pid, v[0].runTime.as_str()), ("a", 7, "0day, 0:1:1"));
    assert_eq!((v[1].name.as_str(), v[1].pid, v[1].runTime.as_str()), ("b", -1, "unknow"));
    let v = watchdog::process::status::statusesFrom(&entries, &names, &starts, i64::MAX);
    assert_eq!(v.iter().map(|s| s.name.as_str()).collect::<Vec<_>>(), vec!["b"]);
}
