//! The requests of the command line client.
#![allow(non_snake_case)]
#![allow(non_upper_case_globals)]
use vstd::prelude::*;
use vstd::string::*;

use crate::sys::{url_encode, url_encoded};
use crate::webserver::handlers::HttpMethod;

verus! {

/// The header that names the process a request is about.
pub const header_name: &'static str = "name";
pub const stop_all_url: &'static str = "/api/stop/all";
pub const stop_url: &'static str = "/api/stop";
pub const stop_by_alias_url: &'static str = "/api/stop/by/alias";
pub const restart_all_url: &'static str = "/api/restart/all";
pub const restart_url: &'static str = "/api/restart";
pub const restart_by_alias_url: &'static str = "/api/restart/by/alias";
pub const all_process_status_url: &'static str = "/api/all/process/status";

/// A request for the watchdog's server.
pub struct ClientRequest {
    pub method: HttpMethod,
    pub url: String,
    /// The value of the header `name`, when the request has one.
    pub name: Option<String>,
}

/// The request has this method, URL and `name` header.
pub open spec fn is_request(r: ClientRequest, method: HttpMethod, url: Seq<char>, name: Option<Seq<char>>) -> bool {
    &&& r.method == method
    &&& r.url@ == url
    &&& match r.name {
        Some(n) => name == Some(n@),
        None => name is None,
    }
}

/// `http://{addr}{path}`.
pub fn requestUrl(addr: &str, path: &str) -> (r: String)
    ensures
        r@ == "http://"@ + addr@ + path@,
{
    let mut url = "http://".to_owned();
    url.append(addr);
    url.append(path);
    url
}

/// The request that stops every process.
pub fn stopAllRequest(addr: &str) -> (r: ClientRequest)
    ensures
        is_request(r, HttpMethod::Delete, "http://"@ + addr@ + stop_all_url@, None),
{
    ClientRequest { method: HttpMethod::Delete, url: requestUrl(addr, stop_all_url), name: None }
}

/// The request that stops the process `name`.
pub fn stopRequest(addr: &str, name: &str) -> (r: ClientRequest)
    ensures
        is_request(r, HttpMethod::Delete, "http://"@ + addr@ + stop_url@, Some(name@)),
{
    ClientRequest {
        method: HttpMethod::Delete,
        url: requestUrl(addr, stop_url),
        name: Some(name.to_owned()),
    }
}

/// The request that stops the processes with alias `alias`.
pub fn stopByAliasRequest(addr: &str, alias: &str) -> (r: ClientRequest)
    ensures
        is_request(r, HttpMethod::Delete, "http://"@ + addr@ + stop_by_alias_url@, Some(alias@)),
{
    ClientRequest {
        method: HttpMethod::Delete,
        url: requestUrl(addr, stop_by_alias_url),
        name: Some(alias.to_owned()),
    }
}

/// The request that restarts every process.
pub fn restartAllRequest(addr: &str) -> (r: ClientRequest)
    ensures
        is_request(r, HttpMethod::Put, "http://"@ + addr@ + restart_all_url@, None),
{
    ClientRequest { method: HttpMethod::Put, url: requestUrl(addr, restart_all_url), name: None }
}

/// The request that restarts the process `name`.
pub fn restartRequest(addr: &str, name: &str) -> (r: ClientRequest)
    ensures
        is_request(r, HttpMethod::Put, "http://"@ + addr@ + restart_url@, Some(name@)),
{
    ClientRequest {
        method: HttpMethod::Put,
        url: requestUrl(addr, restart_url),
        name: Some(name.to_owned()),
    }
}

/// The request that restarts the processes with alias `alias`; the alias
/// travels percent-encoded.
pub fn restartByAliasRequest(addr: &str, alias: &str) -> (r: ClientRequest)
    ensures
        is_request(
            r,
            HttpMethod::Put,
            "http://"@ + addr@ + restart_by_alias_url@,
            Some(url_encoded(alias.spec_bytes())),
        ),
{
    ClientRequest {
        method: HttpMethod::Put,
        url: requestUrl(addr, restart_by_alias_url),
        name: Some(url_encode(alias)),
    }
}

/// The request for the status of every process.
pub fn allProcessStatusRequest(addr: &str) -> (r: ClientRequest)
    ensures
        is_request(r, HttpMethod::Get, "http://"@ + addr@ + all_process_status_url@, None),
{
    ClientRequest {
        method: HttpMethod::Get,
        url: requestUrl(addr, all_process_status_url),
        name: None,
    }
}

/// A valid UTF-8 encoding has no more characters than bytes.
proof fn lemma_decoded_len(bytes: Seq<u8>)
    requires
        vstd::utf8::valid_utf8(bytes),
    ensures
        vstd::utf8::decode_utf8(bytes).len() <= bytes.len(),
    decreases bytes.len(),
{
    if bytes.len() != 0 {
        let rest = vstd::utf8::pop_first_scalar(bytes);
        assert(rest.len() < bytes.len());
        lemma_decoded_len(rest);
    }
}

/// The report of the answer to the status request: `None` when the answer
/// is not UTF-8 text, otherwise that text as `json_pretty` lays it out.
pub fn statusReport(body: Vec<u8>) -> (r: Option<String>)
    requires
        body@.len() < 0x4000_0000,
    ensures
        match r {
            None => !vstd::utf8::valid_utf8(body@),
            Some(t) => vstd::utf8::valid_utf8(body@) && t@ == crate::sys::json_pretty_text(
                vstd::utf8::decode_utf8(body@),
            ),
        },
{
    let ghost bytes = body@;
    match crate::sys::string_from_utf8(body) {
        None => None,
        Some(text) => {
            proof {
                lemma_decoded_len(bytes);
            }
            Some(crate::sys::json_pretty(text.as_str()))
        },
    }
}

} // verus!
