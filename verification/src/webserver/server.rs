//! The web server's decisions: which handler serves a request, the address
//! it listens on, and what a termination signal does.
#![allow(non_snake_case)]
use vstd::prelude::*;

use super::handlers::HttpMethod;
use crate::strings::{append_int, int_text, str_eq};

verus! {

/// The handler that serves a request.
#[derive(PartialEq, Eq, Structural, Debug, Clone, Copy)]
pub enum Route {
    Index,
    WebStop,
    WebRestart,
    WebStopAll,
    WebRestartAll,
    ApiStop,
    ApiRestart,
    ApiStopByAlias,
    ApiRestartByAlias,
    ApiStopAll,
    ApiRestartAll,
    ApiConfig,
    ApiReload,
    ApiSaveBeforeReload,
    ApiOneStatus,
    ApiAllStatus,
    Script,
    Favicon,
    /// No handler: the request gets no answer.
    Unrouted,
}

/// The handler for a request with `method` and `url`.
pub open spec fn route_of(method: HttpMethod, url: Seq<char>) -> Route {
    if method == HttpMethod::Get && url == "/index"@ {
        Route::Index
    } else if method == HttpMethod::Post && url == "/stop"@ {
        Route::WebStop
    } else if method == HttpMethod::Post && url == "/restart"@ {
        Route::WebRestart
    } else if method == HttpMethod::Post && url == "/stop/all"@ {
        Route::WebStopAll
    } else if method == HttpMethod::Post && url == "/restart/all"@ {
        Route::WebRestartAll
    } else if method == HttpMethod::Delete && url == "/api/stop"@ {
        Route::ApiStop
    } else if method == HttpMethod::Put && url == "/api/restart"@ {
        Route::ApiRestart
    } else if method == HttpMethod::Delete && url == "/api/stop/by/alias"@ {
        Route::ApiStopByAlias
    } else if method == HttpMethod::Put && url == "/api/restart/by/alias"@ {
        Route::ApiRestartByAlias
    } else if method == HttpMethod::Delete && url == "/api/stop/all"@ {
        Route::ApiStopAll
    } else if method == HttpMethod::Put && url == "/api/restart/all"@ {
        Route::ApiRestartAll
    } else if method == HttpMethod::Get && url == "/api/config"@ {
        Route::ApiConfig
    } else if method == HttpMethod::Put && url == "/api/reload"@ {
        Route::ApiReload
    } else if method == HttpMethod::Put && url == "/api/save/before/reload"@ {
        Route::ApiSaveBeforeReload
    } else if method == HttpMethod::Get && url == "/api/one/process/status"@ {
        Route::ApiOneStatus
    } else if method == HttpMethod::Get && url == "/api/all/process/status"@ {
        Route::ApiAllStatus
    } else if method == HttpMethod::Get && url == "/js/jquery-3.3.1.min.js"@ {
        Route::Script
    } else if method == HttpMethod::Get && url == "/favicon.ico"@ {
        Route::Favicon
    } else {
        Route::Unrouted
    }
}

/// The handler for a request with `method` and `url`.
pub fn route(method: HttpMethod, url: &str) -> (r: Route)
    ensures
        r == route_of(method, url@),
{
    if method == HttpMethod::Get && str_eq(url, "/index") {
        Route::Index
    } else if method == HttpMethod::Post && str_eq(url, "/stop") {
        Route::WebStop
    } else if method == HttpMethod::Post && str_eq(url, "/restart") {
        Route::WebRestart
    } else if method == HttpMethod::Post && str_eq(url, "/stop/all") {
        Route::WebStopAll
    } else if method == HttpMethod::Post && str_eq(url, "/restart/all") {
        Route::WebRestartAll
    } else if method == HttpMethod::Delete && str_eq(url, "/api/stop") {
        Route::ApiStop
    } else if method == HttpMethod::Put && str_eq(url, "/api/restart") {
        Route::ApiRestart
    } else if method == HttpMethod::Delete && str_eq(url, "/api/stop/by/alias") {
        Route::ApiStopByAlias
    } else if method == HttpMethod::Put && str_eq(url, "/api/restart/by/alias") {
        Route::ApiRestartByAlias
    } else if method == HttpMethod::Delete && str_eq(url, "/api/stop/all") {
        Route::ApiStopAll
    } else if method == HttpMethod::Put && str_eq(url, "/api/restart/all") {
        Route::ApiRestartAll
    } else if method == HttpMethod::Get && str_eq(url, "/api/config") {
        Route::ApiConfig
    } else if method == HttpMethod::Put && str_eq(url, "/api/reload") {
        Route::ApiReload
    } else if method == HttpMethod::Put && str_eq(url, "/api/save/before/reload") {
        Route::ApiSaveBeforeReload
    } else if method == HttpMethod::Get && str_eq(url, "/api/one/process/status") {
        Route::ApiOneStatus
    } else if method == HttpMethod::Get && str_eq(url, "/api/all/process/status") {
        Route::ApiAllStatus
    } else if method == HttpMethod::Get && str_eq(url, "/js/jquery-3.3.1.min.js") {
        Route::Script
    } else if method == HttpMethod::Get && str_eq(url, "/favicon.ico") {
        Route::Favicon
    } else {
        Route::Unrouted
    }
}

/// The address `host:port` the server listens on.
pub fn joinAddr(host: &str, port: u32) -> (r: String)
    ensures
        r@ == host@ + ":"@ + int_text(port as int),
{
    let mut addr = host.to_owned();
    addr.append(":");
    append_int(&mut addr, port as i64);
    addr
}

/// The POSIX numbers of the signals that end the watchdog.
pub const SIGINT: usize = 2;
pub const SIGQUIT: usize = 3;
pub const SIGTERM: usize = 15;

/// What the signal listener does.
#[derive(PartialEq, Eq, Structural, Debug, Clone, Copy)]
pub enum SignalAction {
    /// No signal came: keep listening.
    Wait,
    /// A termination signal came: stop every process and end.
    StopAll,
}

/// What to do on the signal `term` (`0` when none came yet).
pub fn signalAction(term: usize) -> (r: SignalAction)
    requires
        term == 0 || term == SIGTERM || term == SIGQUIT || term == SIGINT,
    ensures
        r == if term == 0 {
            SignalAction::Wait
        } else {
            SignalAction::StopAll
        },
{
    if term == 0 {
        SignalAction::Wait
    } else {
        SignalAction::StopAll
    }
}

} // verus!
