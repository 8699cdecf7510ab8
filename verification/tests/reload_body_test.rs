use watchdog::config::Process;
use watchdog::webserver::handlers::api::{reloadBodyFrom, reloadBodyOf};
use watchdog::webserver::handlers::ReloadBody;

fn process(name: &str) -> Process {
    Process {
        name: name.to_string(),
        alias: None,
        execute: "run".to_string(),
        args: Vec::new(),
        directory: ".".to_string(),
        isAuto: true,
        restartTimeS: None,
    }
}

fn names(body: &ReloadBody) -> Option<Vec<String>> {
    match body {
        ReloadBody::Processes(ps) => Some(ps.iter().map(|p| p.name.clone()).collect()),
        _ => None,
    }
}

#[test]
fn unread_body_is_a_read_error() {
    assert!(matches!(reloadBodyFrom(false, Some(false), Some(vec![process("a")])), ReloadBody::ReadError));
    assert!(matches!(reloadBodyOf(None, None), ReloadBody::ReadError));
}

#[test]
fn text_that_is_not_json_is_a_json_error() {
    assert!(matches!(reloadBodyFrom(true, None, Some(vec![process("a")])), ReloadBody::JsonError));
    assert!(matches!(reloadBodyOf(Some("not json"), None), ReloadBody::JsonError));
    assert!(matches!(reloadBodyOf(Some("{\"processList\": "), None), ReloadBody::JsonError));
}

#[test]
fn null_or_absent_list_is_the_empty_list() {
    assert_eq!(names(&reloadBodyFrom(true, Some(true), Some(vec![process("a")]))), Some(vec![]));
    assert_eq!(names(&reloadBodyOf(Some("{\"processList\": null}"), None)), Some(vec![]));
    assert_eq!(names(&reloadBodyOf(Some("{}"), None)), Some(vec![]));
    assert_eq!(names(&reloadBodyOf(Some("[1, 2]"), None)), Some(vec![]));
}

#[test]
fn present_list_is_the_typed_list() {
    let typed = vec![process("a"), process("b")];
    assert_eq!(names(&reloadBodyFrom(true, Some(false), Some(typed.clone()))), Some(vec!["a".to_string(), "b".to_string()]));
    assert!(matches!(reloadBodyFrom(true, Some(false), None), ReloadBody::JsonError));
    let body = "{\"processList\": [{\"name\": \"a\"}]}";
    assert_eq!(names(&reloadBodyOf(Some(body), Some(typed))), Some(vec!["a".to_string(), "b".to_string()]));
    assert!(matches!(reloadBodyOf(Some(body), None), ReloadBody::JsonError));
}
