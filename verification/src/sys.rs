//! The calls into other crates and into std that the library makes, each
//! with what its documentation or source promises.
use vstd::prelude::*;

use sysinfo::{ProcessExt, SystemExt};
use sysinfo::Process as SysProc;
use vstd::string::*;

use crate::strings::has_infix;

verus! {

/// `sysinfo::System`: a snapshot of the machine's processes.
#[verifier::external_type_specification]
#[verifier::external_body]
pub struct ExSystem(sysinfo::System);

/// `sysinfo::Process`: one process in a snapshot.
#[verifier::external_type_specification]
#[verifier::external_body]
pub struct ExSysProcess(SysProc);

/// `sysinfo::System::new` (through `SystemExt`): an empty snapshot.
/// Nothing is claimed of it.
#[verifier::external_body]
pub(crate) fn system_new() -> sysinfo::System {
    sysinfo::System::new()
}

/// `SystemExt::refresh_all`: reads the machine's processes anew.  What it
/// reads depends on the machine; nothing is claimed of it.
#[verifier::external_body]
pub(crate) fn refresh_all(system: &mut sysinfo::System) {
    system.refresh_all();
}

/// What the library reads of one process of a snapshot: the process
/// itself (to signal it), its pid, name, start time in seconds since the
/// epoch, command line, and the directory of its executable when it has one.
pub struct ProcRecord<'a> {
    pub proc: &'a SysProc,
    pub pid: i32,
    pub name: String,
    pub start: u64,
    pub cmd: Vec<String>,
    pub exeDir: Option<String>,
}

/// `SystemExt::get_process`, read into a record: the process with pid
/// `pid` in the snapshot, if any.  sysinfo keeps its processes in a table
/// keyed by the pid each process was read under, so a process found has pid
/// `pid`; the keys are the pids under `/proc`, so a negative pid is never
/// found.  Which processes the snapshot holds depends on the machine.
#[verifier::external_body]
pub(crate) fn get_process<'a>(system: &'a sysinfo::System, pid: i32) -> (r: Option<ProcRecord<'a>>)
    ensures
        r matches Some(q) ==> q.pid == pid,
        pid < 0 ==> r is None,
{
    match system.get_process(pid as sysinfo::Pid) {
        Some(p) => Some(ProcRecord {
            proc: p,
            pid: p.pid() as i32,
            name: p.name().to_owned(),
            start: p.start_time(),
            cmd: p.cmd().to_vec(),
            exeDir: p.exe().parent().map(|d| d.to_string_lossy().into_owned()),
        }),
        None => None,
    }
}

/// `SystemExt::get_process_by_name`, read into records: the processes of
/// the snapshot whose name contains `name`, as sysinfo's source keeps them.
/// Which processes there are, and their order, depend on the machine.
#[verifier::external_body]
pub(crate) fn get_process_by_name<'a>(system: &'a sysinfo::System, name: &str) -> (r: Vec<ProcRecord<'a>>)
    ensures
        forall|i: int| 0 <= i < r@.len() ==> has_infix((#[trigger] r@[i]).name@, name@),
{
    system.get_process_by_name(name).into_iter().map(|p| ProcRecord {
        proc: p,
        pid: p.pid() as i32,
        name: p.name().to_owned(),
        start: p.start_time(),
        cmd: p.cmd().to_vec(),
        exeDir: p.exe().parent().map(|d| d.to_string_lossy().into_owned()),
    }).collect()
}

/// The signals the library sends through sysinfo.
pub enum Signal {
    Kill,
    Child,
}

/// `ProcessExt::kill`: sends `signal`; answers whether it was delivered,
/// which depends on the machine, so nothing is claimed of the answer.
#[verifier::external_body]
pub(crate) fn kill_process(process: &SysProc, signal: Signal) -> bool {
    match signal {
        Signal::Kill => process.kill(sysinfo::Signal::Kill),
        Signal::Child => process.kill(sysinfo::Signal::Child),
    }
}

/// `chrono::Local::now().timestamp()`: the current time in seconds since the
/// epoch.  It depends on the clock; what is claimed is the range every
/// chrono date time lies in: its date is between January 1 of 262144 BCE and
/// December 31 of 262142 CE (`NaiveDate::MIN` and `MAX`), so its timestamp
/// is within 9 * 10^12 seconds of the epoch either way.
#[verifier::external_body]
pub(crate) fn now_timestamp() -> (r: i64)
    ensures
        -9_000_000_000_000 <= r <= 9_000_000_000_000,
{
    chrono::Local::now().timestamp()
}

/// What `base64::decode` (standard alphabet, padding required) gives for
/// these bytes: the decoded bytes, or `None` where it reports an error.
pub uninterp spec fn base64_decoded(input: Seq<u8>) -> Option<Seq<u8>>;

/// `base64::decode`: decodes the bytes of `input`.  The result is the name
/// `base64_decoded` applied to those bytes; nothing more is claimed.
#[verifier::external_body]
pub(crate) fn base64_decode(input: &str) -> (r: Option<Vec<u8>>)
    ensures
        match r {
            Some(v) => base64_decoded(input.spec_bytes()) == Some(v@),
            None => base64_decoded(input.spec_bytes()) is None,
        },
{
    match base64::decode(input) {
        Ok(v) => Some(v),
        Err(_) => None,
    }
}

/// `String::from_utf8`: the text the bytes encode, when they are valid
/// UTF-8; otherwise `None`, as std documents.
#[verifier::external_body]
pub(crate) fn string_from_utf8(bytes: Vec<u8>) -> (r: Option<String>)
    ensures
        match r {
            Some(s) => vstd::utf8::valid_utf8(bytes@) && s@ == vstd::utf8::decode_utf8(bytes@),
            None => !vstd::utf8::valid_utf8(bytes@),
        },
{
    match String::from_utf8(bytes) {
        Ok(s) => Some(s),
        Err(_) => None,
    }
}

/// Whether std's `Path` comparison, which compares paths component by
/// component, finds these two paths equal.
pub uninterp spec fn paths_equal(a: Seq<char>, b: Seq<char>) -> bool;

/// `Path::new(a) == Path::new(b)`.  The answer is the name `paths_equal`
/// applied to the two texts.
#[verifier::external_body]
pub(crate) fn same_path(a: &str, b: &str) -> (r: bool)
    ensures
        r == paths_equal(a@, b@),
{
    std::path::Path::new(a) == std::path::Path::new(b)
}

/// A byte that `urlencoding` leaves as it is: an ASCII letter or digit, or
/// one of `-`, `.`, `_`, `~`.
pub open spec fn url_safe(b: u8) -> bool {
    ||| 0x30 <= b <= 0x39
    ||| 0x41 <= b <= 0x5a
    ||| 0x61 <= b <= 0x7a
    ||| b == 0x2d
    ||| b == 0x2e
    ||| b == 0x5f
    ||| b == 0x7e
}

/// The upper-case hexadecimal digit for `d` in `0..16`.
pub open spec fn hex_digit(d: int) -> char {
    if d < 10 {
        (48 + d) as char
    } else {
        (55 + d) as char
    }
}

/// What `urlencoding::encode` makes of these bytes: safe bytes stay, every
/// other byte becomes `%` and its two upper-case hexadecimal digits.
pub open spec fn url_encoded(bytes: Seq<u8>) -> Seq<char>
    decreases bytes.len(),
{
    if bytes.len() == 0 {
        seq![]
    } else {
        let b = bytes.last();
        url_encoded(bytes.drop_last()) + if url_safe(b) {
            seq![b as char]
        } else {
            seq!['%', hex_digit(b as int / 16), hex_digit(b as int % 16)]
        }
    }
}

/// `urlencoding::encode`: percent-encodes the bytes of `data` as
/// `url_encoded` states.
#[verifier::external_body]
pub(crate) fn url_encode(data: &str) -> (r: String)
    ensures
        r@ == url_encoded(data.spec_bytes()),
{
    urlencoding::encode(data).into_owned()
}

/// What the `json` crate makes of a text: `None` when `json::parse` reports
/// an error, otherwise whether the member `key` of the parsed value is null
/// (a value that is not an object, or has no such member, reads as null).
pub uninterp spec fn json_member_null(text: Seq<char>, key: Seq<char>) -> Option<bool>;

/// `json::parse`, then `JsonValue::is_null` on the member `key`.  The
/// result is the name `json_member_null` applied to the text and the key;
/// nothing more is claimed.
#[verifier::external_body]
pub(crate) fn member_is_null(text: &str, key: &str) -> (r: Option<bool>)
    ensures
        r == json_member_null(text@, key@),
{
    match json::parse(text) {
        Ok(jv) => Some(jv[key].is_null()),
        Err(_) => None,
    }
}

/// What `json_pretty` lays out of a text with its default indent of two
/// spaces.
pub uninterp spec fn json_pretty_text(text: Seq<char>) -> Seq<char>;

/// `json_pretty::PrettyFormatter::from_str(text).pretty()`.  The result is
/// the name `json_pretty_text` applied to the text; nothing more is claimed.
/// The formatter keeps its indent in an `i32` that grows by two for each
/// `{`; below 2^30 characters it stays in range.
#[verifier::external_body]
pub(crate) fn json_pretty(text: &str) -> (r: String)
    requires
        text@.len() < 0x4000_0000,
    ensures
        r@ == json_pretty_text(text@),
{
    json_pretty::PrettyFormatter::from_str(text).pretty()
}

} // verus!
