//! The answers of the web server's handlers, and what they read of a request.
#![allow(non_upper_case_globals)]
#![allow(non_snake_case)]
use vstd::prelude::*;

use crate::config::Process;
use crate::strings::{eq_ignore_ascii_case, equal_ignoring_ascii_case};

pub mod api;
pub mod auth;
pub mod index;
pub mod web;

verus! {

/// The request succeeded.
pub const status_ok: i32 = 0;
/// A required header or parameter was missing.
pub const status_param_error: i32 = 1;
/// The request body was not valid JSON for the expected shape.
pub const status_json_parse_error: i32 = 2;
/// The request body could not be read.
pub const status_body_read_error: i32 = 3;
/// The configuration file could not be written.
pub const status_file_rw_error: i32 = 4;
/// Stopping a process failed.
pub const status_stop_process_error: i32 = 5;
/// Restarting a process failed.
pub const status_restart_process_error: i32 = 6;

/// The message that accompanies a status code in every response.
pub open spec fn status_message(status: i32) -> Seq<char> {
    if status == status_ok {
        "ok"@
    } else if status == status_param_error {
        "param error"@
    } else if status == status_json_parse_error {
        "json parse error"@
    } else if status == status_body_read_error {
        "body read error"@
    } else if status == status_file_rw_error {
        "file rw error"@
    } else if status == status_stop_process_error {
        "stop process error"@
    } else if status == status_restart_process_error {
        "restart process error"@
    } else {
        ""@
    }
}

/// The message of a status code.
pub fn to_message(status: &i32) -> (r: String)
    ensures
        r@ == status_message(*status),
{
    if *status == status_ok {
        "ok".to_owned()
    } else if *status == status_param_error {
        "param error".to_owned()
    } else if *status == status_json_parse_error {
        "json parse error".to_owned()
    } else if *status == status_body_read_error {
        "body read error".to_owned()
    } else if *status == status_file_rw_error {
        "file rw error".to_owned()
    } else if *status == status_stop_process_error {
        "stop process error".to_owned()
    } else if *status == status_restart_process_error {
        "restart process error".to_owned()
    } else {
        "".to_owned()
    }
}

/// The method of a request.
#[derive(PartialEq, Eq, Structural, Debug, Clone, Copy)]
pub enum HttpMethod {
    Get,
    Post,
    Put,
    Delete,
    Other,
}

/// One header of a request.
pub struct CHeader {
    pub field: String,
    pub value: String,
}

/// The value of the first header whose field is `key` up to ASCII case, or
/// the empty text when there is none.
pub open spec fn header_value(hs: Seq<CHeader>, key: Seq<char>) -> Seq<char>
    decreases hs.len(),
{
    if hs.len() == 0 {
        seq![]
    } else if eq_ignore_ascii_case(hs[0].field@, key) {
        hs[0].value@
    } else {
        header_value(hs.drop_first(), key)
    }
}

/// The value of the header `key` (fields compared up to ASCII case), or the
/// empty text.
pub fn findHeader(headers: &Vec<CHeader>, key: &str) -> (r: String)
    ensures
        r@ == header_value(headers@, key@),
{
    let mut i: usize = 0;
    assert(headers@.skip(0) =~= headers@);
    while i < headers.len()
        invariant
            0 <= i <= headers@.len(),
            header_value(headers@.skip(i as int), key@) == header_value(headers@, key@),
        decreases headers@.len() - i,
    {
        assert(headers@.skip(i as int).drop_first() =~= headers@.skip(i + 1));
        assert(headers@.skip(i as int)[0] == headers@[i as int]);
        if equal_ignoring_ascii_case(headers[i].field.as_str(), key) {
            return headers[i].value.clone();
        }
        i = i + 1;
    }
    assert(headers@.skip(i as int).len() == 0);
    String::new()
}

/// `r` answers with `status`: it succeeded exactly when the status is ok,
/// and the message is the status's message.
pub open spec fn answers(result: bool, status: i32, message: Seq<char>, s: i32) -> bool {
    &&& result == (s == status_ok)
    &&& status == s
    &&& message == status_message(s)
}

/// The answer of a request that acts on processes.
#[derive(Debug)]
pub struct CDefaultResponse {
    pub result: bool,
    pub status: i32,
    pub message: String,
}

impl CDefaultResponse {
    /// This response answers with `s`.
    pub open spec fn answers(&self, s: i32) -> bool {
        answers(self.result, self.status, self.message@, s)
    }

    /// The response that answers with `status`.
    pub fn with_status(status: i32) -> (r: CDefaultResponse)
        ensures
            r.answers(status),
    {
        CDefaultResponse { result: status == status_ok, status, message: to_message(&status) }
    }
}

impl std::default::Default for CDefaultResponse {
    fn default() -> (r: Self)
        ensures
            r.answers(status_ok),
    {
        CDefaultResponse::with_status(status_ok)
    }
}

/// The answer to a request for the configured processes.
#[derive(Debug)]
pub struct CGetAllConfigResponse {
    pub data: Vec<Process>,
    pub result: bool,
    pub status: i32,
    pub message: String,
}

impl std::default::Default for CGetAllConfigResponse {
    fn default() -> (r: Self)
        ensures
            r.data@.len() == 0,
            answers(r.result, r.status, r.message@, status_ok),
    {
        CGetAllConfigResponse {
            data: Vec::new(),
            result: true,
            status: status_ok,
            message: to_message(&status_ok),
        }
    }
}

/// The status of one process as the JSON answers carry it.
#[derive(Debug)]
pub struct CStatus {
    pub pid: i32,
    pub runTime: String,
    pub status: String,
    pub name: String,
}

impl std::default::Default for CStatus {
    fn default() -> (r: Self)
        ensures
            r.pid == 0,
            r.runTime@.len() == 0,
            r.status@.len() == 0,
            r.name@.len() == 0,
    {
        CStatus { pid: 0, runTime: String::new(), status: String::new(), name: String::new() }
    }
}

/// The answer to a request for one process's status.
#[derive(Debug)]
pub struct CGetOneProcessStatusResponse {
    pub data: CStatus,
    pub result: bool,
    pub status: i32,
    pub message: String,
}

impl std::default::Default for CGetOneProcessStatusResponse {
    fn default() -> (r: Self)
        ensures
            r.data.pid == 0,
            r.data.runTime@.len() == 0,
            r.data.status@.len() == 0,
            r.data.name@.len() == 0,
            answers(r.result, r.status, r.message@, status_ok),
    {
        CGetOneProcessStatusResponse {
            data: CStatus::default(),
            result: true,
            status: status_ok,
            message: to_message(&status_ok),
        }
    }
}

/// The answer to a request for every process's status.
#[derive(Debug)]
pub struct CGetAllProcessStatusResponse {
    pub data: Vec<CStatus>,
    pub result: bool,
    pub status: i32,
    pub message: String,
}

impl std::default::Default for CGetAllProcessStatusResponse {
    fn default() -> (r: Self)
        ensures
            r.data@.len() == 0,
            answers(r.result, r.status, r.message@, status_ok),
    {
        CGetAllProcessStatusResponse {
            data: Vec::new(),
            result: true,
            status: status_ok,
            message: to_message(&status_ok),
        }
    }
}

/// The body of a reload request.
pub struct CPutReloadRequest {
    pub processList: Vec<Process>,
}

impl std::default::Default for CPutReloadRequest {
    fn default() -> (r: Self)
        ensures
            r.processList@.len() == 0,
    {
        CPutReloadRequest { processList: Vec::new() }
    }
}

/// What the server made of the body of a reload request.
pub enum ReloadBody {
    /// The body could not be read.
    ReadError,
    /// The body is not JSON, or not a process list.
    JsonError,
    /// The process list; an absent or null `processList` is the empty list.
    Processes(Vec<Process>),
}

} // verus!
