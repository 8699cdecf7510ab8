use watchdog::config::file::{CFile, DEFAULT_CONFIG};
use watchdog::config::Process;
use watchdog::process::check::CCheck;

#[test]
fn config_file_path() {
    let f = CFile::new("watchdog.json");
    assert_eq!(f.path(), "watchdog.json");
    assert!(DEFAULT_CONFIG.contains("\"name\": \"test1\""));
    assert!(DEFAULT_CONFIG.contains("\"restartTimeS\": 0"));
}

#[test]
fn check_keeps_its_processes() {
    let p = Process {
        name: "no-such-process-name-here".to_string(),
        alias: None,
        execute: String::new(),
        args: vec![],
        directory: ".".to_string(),
        isAuto: true,
        restartTimeS: None,
    };
    let mut c = CCheck::new(vec![p]);
    assert_eq!(c.processList().len(), 1);
    assert!(c.findAndStartSubProcess().is_empty());
}
