use watchdog::webserver::handlers::{
    findHeader, to_message, CDefaultResponse, CGetAllConfigResponse,
    CGetAllProcessStatusResponse, CGetOneProcessStatusResponse, CHeader, CPutReloadRequest,
    status_body_read_error, status_file_rw_error, status_json_parse_error, status_ok,
    status_param_error, status_restart_process_error, status_stop_process_error,
};

fn header(f: &str, v: &str) -> CHeader {
    CHeader { field: f.to_string(), value: v.to_string() }
}

#[test]
fn to_message_names_every_status() {
    assert_eq!(to_message(&status_ok), "ok");
    assert_eq!(to_message(&status_param_error), "param error");
    assert_eq!(to_message(&status_json_parse_error), "json parse error");
    assert_eq!(to_message(&status_body_read_error), "body read error");
    assert_eq!(to_message(&status_file_rw_error), "file rw error");
    assert_eq!(to_message(&status_stop_process_error), "stop process error");
    assert_eq!(to_message(&status_restart_process_error), "restart process error");
    assert_eq!(to_message(&7), "");
    assert_eq!(to_message(&-1), "");
}

#[test]
fn defaults_answer_ok() {
    let d = CDefaultResponse::default();
    assert!(d.result);
    assert_eq!(d.status, 0);
    assert_eq!(d.message, "ok");
    let c = CGetAllConfigResponse::default();
    assert!(c.data.is_empty() && c.result && c.status == 0 && c.message == "ok");
    let o = CGetOneProcessStatusResponse::default();
    assert!(o.result && o.status == 0 && o.message == "ok" && o.data.pid == 0 && o.data.name.is_empty());
    let a = CGetAllProcessStatusResponse::default();
    assert!(a.data.is_empty() && a.result && a.status == 0);
    assert!(CPutReloadRequest::default().processList.is_empty());
    let e = CDefaultResponse::with_status(status_stop_process_error);
    assert!(!e.result);
    assert_eq!(e.message, "stop process error");
}

#[test]
fn find_header_ignores_ascii_case_and_takes_first() {
    let hs = vec![header("Host", "x"), header("NAME", "first"), header("name", "second")];
    assert_eq!(findHeader(&hs, "name"), "first");
    assert_eq!(findHeader(&hs, "host"), "x");
    assert_eq!(findHeader(&hs, "alias"), "");
    assert_eq!(findHeader(&Vec::new(), "name"), "");
}
