use watchdog::config::Process;
use watchdog::process::status::CStatusInfo;
use watchdog::process::ProcessStatus;
use watchdog::templates::html::{htmlEndDefine, htmlStartDefine};
use watchdog::webserver::handlers::index::{indexContent, CIndexHandler};
use watchdog::webserver::handlers::HttpMethod;
use watchdog::webserver::main::{legacyEntry, CServer, LegacyRoute};
use watchdog::dispatch::CDispatch;

fn proc(name: &str, auto: bool) -> Process {
    Process {
        name: name.to_string(),
        alias: None,
        execute: "x".to_string(),
        args: vec![],
        directory: ".".to_string(),
        isAuto: auto,
        restartTimeS: None,
    }
}

#[test]
fn index_content_lines() {
    let statuses = vec![
        CStatusInfo { pid: 42, runTime: "0day, 0:1:0".to_string(), status: ProcessStatus::Running, name: "web".to_string() },
        CStatusInfo { pid: -1, runTime: "unknow".to_string(), status: ProcessStatus::Stoped, name: "db".to_string() },
    ];
    let page = indexContent(&statuses);
    let expected = format!(
        "{}{}{}{}",
        htmlStartDefine,
        "obj.state = 'running';obj.description = 'pid: 42, runtime: 0day, 0:1:0';obj.name = 'web';create(obj);",
        "obj.state = 'stopped';obj.description = 'unknow';obj.name = 'db';create(obj);",
        htmlEndDefine
    );
    assert_eq!(page, expected);
    assert_eq!(indexContent(&vec![]), format!("{}{}", htmlStartDefine, htmlEndDefine));
}

#[test]
fn index_handler_lists_every_process() {
    let mut d = CDispatch::new("w.json");
    d.start(Some(vec![proc("web", true)]));
    let page = CIndexHandler::new().handler(&mut d);
    assert!(page.starts_with(htmlStartDefine) && page.ends_with(htmlEndDefine));
    assert!(page.contains("obj.state = 'stopped';obj.description = 'unknow';obj.name = 'web';create(obj);"));
}

#[test]
fn legacy_routes() {
    assert_eq!(CServer::route(HttpMethod::Get, "/index?pwd=1"), LegacyRoute::Index);
    assert_eq!(CServer::route(HttpMethod::Get, "/a/index"), LegacyRoute::Index);
    assert_eq!(CServer::route(HttpMethod::Post, "/stop"), LegacyRoute::Stop);
    assert_eq!(CServer::route(HttpMethod::Post, "/restart"), LegacyRoute::Restart);
    assert_eq!(CServer::route(HttpMethod::Post, "/stop/all"), LegacyRoute::StopAll);
    assert_eq!(CServer::route(HttpMethod::Post, "/restart/all"), LegacyRoute::RestartAll);
    assert_eq!(CServer::route(HttpMethod::Get, "/js/jquery-3.3.1.min.js"), LegacyRoute::Script);
    assert_eq!(CServer::route(HttpMethod::Get, "/favicon.ico"), LegacyRoute::Favicon);
    assert_eq!(CServer::route(HttpMethod::Put, "/stop"), LegacyRoute::Unrouted);
}

#[test]
fn legacy_stop_and_restart() {
    let mut s = CServer::new(vec![proc("a", true), proc("b", false)]);
    assert!(s.applyStop("a", None).is_none());
    assert!(s.applyStop("a", Some(false)).is_none());
    assert_eq!(s.applyStop("a", Some(true)).unwrap(), "success");
    assert_eq!(s.applyRestart("b", None).unwrap(), "success");
    assert!(s.applyRestart("a", Some(false)).is_none());
    assert_eq!(s.applyStopAll(&vec![Some(true), None]), "success");
    assert_eq!(s.applyRestartAll(&vec![Some(false), Some(true)]), "success");
    // a: stopped, restart failed, stopped by stop/all, kill failed on restart/all.
    // b: restarted, untouched by stop/all, restarted.
    let mut s2 = CServer::new(vec![proc("a", true)]);
    assert_eq!(s2.applyRestartAll(&vec![None]), "success");
    let page = s2.indexPage();
    assert!(page.contains("obj.name = 'a';"));
}

#[test]
fn legacy_entry_lines() {
    let e = legacyEntry("a", None, 10);
    assert!(matches!(e.status, ProcessStatus::Stoped));
    assert_eq!(e.name, "a");
    let e = legacyEntry("a", Some((7, 100)), 3700);
    assert!(matches!(e.status, ProcessStatus::Running));
    assert_eq!((e.pid, e.runTime.as_str()), (7, "0day, 1:0:0"));
    let e = legacyEntry("a", Some((7, 0)), i64::MAX);
    assert_eq!(e.runTime, "unknow");
}
