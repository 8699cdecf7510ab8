use watchdog::webserver::handlers::HttpMethod;
use watchdog::webserver::server::{joinAddr, route, signalAction, Route, SignalAction, SIGINT, SIGQUIT, SIGTERM};

#[test]
fn routes_of_the_documented_interface() {
    assert_eq!(route(HttpMethod::Get, "/index"), Route::Index);
    assert_eq!(route(HttpMethod::Post, "/stop"), Route::WebStop);
    assert_eq!(route(HttpMethod::Post, "/restart"), Route::WebRestart);
    assert_eq!(route(HttpMethod::Post, "/stop/all"), Route::WebStopAll);
    assert_eq!(route(HttpMethod::Post, "/restart/all"), Route::WebRestartAll);
    assert_eq!(route(HttpMethod::Delete, "/api/stop"), Route::ApiStop);
    assert_eq!(route(HttpMethod::Put, "/api/restart"), Route::ApiRestart);
    assert_eq!(route(HttpMethod::Delete, "/api/stop/by/alias"), Route::ApiStopByAlias);
    assert_eq!(route(HttpMethod::Put, "/api/restart/by/alias"), Route::ApiRestartByAlias);
    assert_eq!(route(HttpMethod::Delete, "/api/stop/all"), Route::ApiStopAll);
    assert_eq!(route(HttpMethod::Put, "/api/restart/all"), Route::ApiRestartAll);
    assert_eq!(route(HttpMethod::Get, "/api/config"), Route::ApiConfig);
    assert_eq!(route(HttpMethod::Put, "/api/reload"), Route::ApiReload);
    assert_eq!(route(HttpMethod::Put, "/api/save/before/reload"), Route::ApiSaveBeforeReload);
    assert_eq!(route(HttpMethod::Get, "/api/one/process/status"), Route::ApiOneStatus);
    assert_eq!(route(HttpMethod::Get, "/api/all/process/status"), Route::ApiAllStatus);
    assert_eq!(route(HttpMethod::Get, "/js/jquery-3.3.1.min.js"), Route::Script);
    assert_eq!(route(HttpMethod::Get, "/favicon.ico"), Route::Favicon);
}

#[test]
fn wrong_method_or_url_is_unrouted() {
    assert_eq!(route(HttpMethod::Post, "/index"), Route::Unrouted);
    assert_eq!(route(HttpMethod::Get, "/index?x=1"), Route::Unrouted);
    assert_eq!(route(HttpMethod::Get, "/api/stop"), Route::Unrouted);
    assert_eq!(route(HttpMethod::Other, "/favicon.ico"), Route::Unrouted);
}

#[test]
fn address_and_signals() {
    assert_eq!(joinAddr("0.0.0.0", 51000), "0.0.0.0:51000");
    assert_eq!(joinAddr("", 0), ":0");
    assert_eq!(signalAction(0), SignalAction::Wait);
    assert_eq!(signalAction(SIGTERM), SignalAction::StopAll);
    assert_eq!(signalAction(SIGINT), SignalAction::StopAll);
    assert_eq!(signalAction(SIGQUIT), SignalAction::StopAll);
}
