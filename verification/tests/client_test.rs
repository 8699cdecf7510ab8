use watchdog::client::{
    allProcessStatusRequest, requestUrl, restartAllRequest, restartByAliasRequest,
    restartRequest, stopAllRequest, stopByAliasRequest, stopRequest,
};
use watchdog::webserver::handlers::HttpMethod;

#[test]
fn client_requests() {
    let r = stopAllRequest("127.0.0.1:51891");
    assert!(r.method == HttpMethod::Delete && r.url == "http://127.0.0.1:51891/api/stop/all" && r.name.is_none());
    let r = stopRequest("h:1", "web");
    assert!(r.method == HttpMethod::Delete && r.url == "http://h:1/api/stop" && r.name.as_deref() == Some("web"));
    let r = stopByAliasRequest("h:1", "grp");
    assert!(r.url == "http://h:1/api/stop/by/alias" && r.name.as_deref() == Some("grp"));
    let r = restartAllRequest("h:1");
    assert!(r.method == HttpMethod::Put && r.url == "http://h:1/api/restart/all");
    let r = restartRequest("h:1", "web");
    assert!(r.method == HttpMethod::Put && r.url == "http://h:1/api/restart" && r.name.as_deref() == Some("web"));
    let r = allProcessStatusRequest("h:1");
    assert!(r.method == HttpMethod::Get && r.url == "http://h:1/api/all/process/status");
    assert_eq!(requestUrl("a", "/b"), "http://a/b");
}

#[test]
fn restart_by_alias_percent_encodes() {
    let r = restartByAliasRequest("h:1", "my group/é");
    assert_eq!(r.url, "http://h:1/api/restart/by/alias");
    assert_eq!(r.name.as_deref(), Some("my%20group%2F%C3%A9"));
    let r = restartByAliasRequest("h:1", "a-b_c.d~9");
    assert_eq!(r.name.as_deref(), Some("a-b_c.d~9"));
}

#[test]
fn status_report_lays_out_the_answer() {
    let body = "{\"a\":1,\"b\":\"x, y\"}".as_bytes().to_vec();
    assert_eq!(
        watchdog::client::statusReport(body),
        Some("{\n  \"a\":1,\n  \"b\":\"x, y\"\n}".to_string())
    );
    assert_eq!(watchdog::client::statusReport(Vec::new()), Some(String::new()));
}

#[test]
fn status_report_refuses_bytes_that_are_not_utf8() {
    assert_eq!(watchdog::client::statusReport(vec![0x7b, 0xff, 0x7d]), None);
}
