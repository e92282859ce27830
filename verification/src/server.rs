//! Authenticated HTTP mapping of the existing trusted services.
pub mod access;
pub mod conduct;
pub mod console;
pub mod details;
pub mod history;
pub mod journal;
pub mod laws;
pub mod logs;
pub mod monitoring;
pub mod outlook;
pub mod pages;
pub mod paging;
pub mod plugins;
pub mod repairs;
pub mod requests;
pub mod showing;
pub mod views;

use crate::faults::{earliest, earliest_sticks};
use crate::json::values::{empty_object, object, text_value, with};
use crate::json::{group_json, with_member, Json, Tree};
use crate::paths::{is_under, under, Location, LocationView};
use crate::recovery::approval::ApprovalError;
use crate::recovery::workflow::WorkflowError;
use crate::text::{
    byte_len, characters, closes, contains, copied, ends_with, is_name_char, joined, name_char, same, utf8_len,
};
use logs::{sources_fault, sources_of, validate_sources, LogSourceConfig};
use vstd::prelude::*;

verus! {

broadcast use group_json;

pub const BAD_REQUEST: u16 = 400;

pub const UNAUTHORIZED: u16 = 401;

pub const FORBIDDEN: u16 = 403;

pub const NOT_FOUND: u16 = 404;

pub const CONFLICT: u16 = 409;

pub const TOO_MANY_REQUESTS: u16 = 429;

pub const SERVICE_UNAVAILABLE: u16 = 503;

/// Bytes that a configuration file may have.
pub const MAX_CONFIG_BYTES: usize = 65536;

#[derive(Debug)]
pub struct ApiError {
    pub status: u16,
    pub code: &'static str,
    pub message: String,
}

pub struct Refusal {
    pub status: u16,
    pub code: Seq<char>,
    pub message: Seq<char>,
}

impl View for ApiError {
    type V = Refusal;

    open spec fn view(&self) -> Refusal {
        Refusal { status: self.status, code: self.code@, message: self.message@ }
    }
}

pub open spec fn refusal(status: u16, code: Seq<char>, message: Seq<char>) -> Refusal {
    Refusal { status, code, message }
}

pub open spec fn bad_request(message: Seq<char>) -> Refusal {
    refusal(BAD_REQUEST, "invalid_request"@, message)
}

pub open spec fn unavailable(message: Seq<char>) -> Refusal {
    refusal(SERVICE_UNAVAILABLE, "unavailable"@, message)
}

pub open spec fn conflicting(message: Seq<char>) -> Refusal {
    refusal(CONFLICT, "conflict"@, message)
}

pub open spec fn missing(message: Seq<char>) -> Refusal {
    refusal(NOT_FOUND, "not_found"@, message)
}

/// What an answer to a refused request holds.
pub open spec fn refusal_tree(f: Refusal) -> Tree {
    let inner = with_member(with_member(empty_object(), "code"@, Tree::Text(f.code)), "message"@, Tree::Text(f.message));
    with_member(with_member(empty_object(), "error"@, inner), "auto_retry"@, Tree::Bool(false))
}

impl ApiError {
    pub fn new(status: u16, code: &'static str, message: &str) -> (e: Self)
        ensures
            e@ == refusal(status, code@, message@),
    {
        ApiError { status, code, message: copied(message) }
    }

    pub fn invalid(message: &str) -> (e: Self)
        ensures
            e@ == bad_request(message@),
    {
        ApiError::new(BAD_REQUEST, "invalid_request", message)
    }

    pub fn unavailable(message: &str) -> (e: Self)
        ensures
            e@ == unavailable(message@),
    {
        ApiError::new(SERVICE_UNAVAILABLE, "unavailable", message)
    }

    pub fn conflict(message: &str) -> (e: Self)
        ensures
            e@ == conflicting(message@),
    {
        ApiError::new(CONFLICT, "conflict", message)
    }

    pub fn missing(message: &str) -> (e: Self)
        ensures
            e@ == missing(message@),
    {
        ApiError::new(NOT_FOUND, "not_found", message)
    }

    /// The text shown for this failure.
    pub fn message(&self) -> (r: String)
        ensures
            r@ == self@.code + ": "@ + self@.message,
    {
        let mut r = joined(self.code, ": ");
        r.append(self.message.as_str());
        r
    }

    /// What an answer to a refused request holds.
    pub fn body(&self) -> (r: Json)
        ensures
            r@ == refusal_tree(self@),
    {
        let inner = with(with(object(), "code", text_value(self.code)), "message", text_value(&self.message));
        with(with(object(), "error", inner), "auto_retry", Json::Bool(false))
    }
}

/// How a workflow's failure is answered: conflicts are told apart from bad requests, and an
/// unknown outcome stays one.
pub open spec fn answered(f: crate::recovery::workflow::Fault) -> Refusal {
    let message = crate::recovery::workflow::fault_message(f);
    match f {
        crate::recovery::workflow::Fault::Approval(a) => match a {
            crate::recovery::approval::Fault::Conflict
            | crate::recovery::approval::Fault::InvalidState(_)
            | crate::recovery::approval::Fault::Expired
            | crate::recovery::approval::Fault::TargetBusy => conflicting(message),
            crate::recovery::approval::Fault::NotFound => missing(message),
            _ => bad_request(message),
        },
        crate::recovery::workflow::Fault::OutcomeUnknown { request_id: _, message: _ } => refusal(
            CONFLICT,
            "unknown"@,
            message,
        ),
        _ => bad_request(message),
    }
}

pub fn answer(error: &WorkflowError) -> (e: ApiError)
    ensures
        e@ == answered(error@),
{
    let message = error.message();
    match error {
        WorkflowError::Approval(a) => match a {
            ApprovalError::Conflict | ApprovalError::InvalidState(_) | ApprovalError::Expired | ApprovalError::TargetBusy => {
                ApiError::conflict(&message)
            },
            ApprovalError::NotFound => ApiError::missing(&message),
            _ => ApiError::invalid(&message),
        },
        WorkflowError::OutcomeUnknown { request_id: _, message: _ } => ApiError::new(CONFLICT, "unknown", &message),
        _ => ApiError::invalid(&message),
    }
}

/// Reports exactly the first broken rule.
pub open spec fn reports(r: Result<(), ApiError>, fault: Option<Refusal>) -> bool {
    match r {
        Ok(_) => fault is None,
        Err(e) => fault == Some(e@),
    }
}

pub open spec fn is_id_char(c: char) -> bool {
    is_name_char(c) || c == ':'
}

/// Between 1 and 128 letters, digits, `-`, `_`, `.` and `:`.
pub open spec fn is_id(text: Seq<char>) -> bool {
    &&& text.len() > 0
    &&& byte_len(text) <= 128
    &&& forall|i: int| 0 <= i < text.len() ==> is_id_char(#[trigger] text[i])
}

pub fn valid_id(text: &str) -> (r: bool)
    ensures
        r == is_id(text@),
{
    if text.is_empty() || utf8_len(text) > 128 {
        return false;
    }
    let v = characters(text);
    let mut i: usize = 0;
    while i < v.len()
        invariant
            i <= v.len(),
            v@ == text@,
            forall|j: int| 0 <= j < i ==> is_id_char(#[trigger] text@[j]),
        decreases v.len() - i,
    {
        if !name_char(v[i]) && v[i] != ':' {
            assert(!is_id_char(text@[i as int]));
            return false;
        }
        i = i + 1;
    }
    true
}

pub open spec fn is_permission(text: Seq<char>) -> bool {
    ||| text == "harness.run"@
    ||| text == "harness.projects"@
    ||| text == "repair.run"@
    ||| text == "approval.decide"@
    ||| text == "approval.apply"@
    ||| text == "approval.reconcile"@
    ||| text == "simulation.run"@
    ||| text == "logs.read"@
    ||| text == "operation.cancel"@
    ||| text == "extension.read"@
    ||| text == "monitor.read"@
    ||| text == "incident.read"@
    ||| text == "incident.acknowledge"@
}

/// Whether an operator can be given this permission.
pub fn known_permission(text: &str) -> (r: bool)
    ensures
        r == is_permission(text@),
{
    same(text, "harness.run") || same(text, "harness.projects") || same(text, "repair.run") || same(
        text,
        "approval.decide",
    ) || same(text, "approval.apply") || same(text, "approval.reconcile") || same(text, "simulation.run")
        || same(text, "logs.read") || same(text, "operation.cancel") || same(text, "extension.read") || same(
        text,
        "monitor.read",
    ) || same(text, "incident.read") || same(text, "incident.acknowledge")
}

/// Paths are texts; `listen` is an address.
pub struct ServerConfig {
    pub schema_version: u32,
    pub listen: String,
    pub token_file: String,
    pub operator: String,
    pub permissions: Vec<String>,
    pub allowed_origins: Vec<String>,
    pub data_dir: String,
    pub harness_config: Option<String>,
    pub extensions_config: Option<String>,
    pub repair_config: Option<String>,
    pub monitors_config: Option<String>,
    pub log_sources: Vec<LogSourceConfig>,
}

pub open spec fn origin_valid(o: Seq<char>) -> bool {
    byte_len(o) <= 256 && !o.contains('*') && !ends_with(o, "/"@)
}

/// A configuration that a server can be started with.
pub open spec fn config_valid(c: ServerConfig, loopback: bool) -> bool {
    &&& c.schema_version == 1
    &&& loopback
    &&& is_id(c.operator@)
    &&& forall|i: int| 0 <= i < c.permissions@.len() ==> is_permission((#[trigger] c.permissions@[i])@)
    &&& c.allowed_origins@.len() <= 16
    &&& forall|i: int| 0 <= i < c.allowed_origins@.len() ==> origin_valid((#[trigger] c.allowed_origins@[i])@)
}

/// The first broken rule of a configuration; `loopback` says whether the listener is one.
pub open spec fn config_fault(c: ServerConfig, loopback: bool) -> Option<Refusal> {
    match sources_fault(sources_of(c.log_sources@)) {
        Some(f) => Some(f),
        None => if config_valid(c, loopback) {
            None
        } else {
            Some(bad_request("invalid schema, operator, permissions, origin or non-loopback listener"@))
        },
    }
}

impl ServerConfig {
    pub fn check(&self, loopback: bool) -> (r: Result<(), ApiError>)
        ensures
            reports(r, config_fault(*self, loopback)),
    {
        if let Err(e) = validate_sources(&self.log_sources) {
            return Err(e);
        }
        let mut ok = self.schema_version == 1 && loopback && valid_id(&self.operator) && self.allowed_origins.len() <= 16;
        let mut i: usize = 0;
        while i < self.permissions.len()
            invariant
                i <= self.permissions.len(),
                ok ==> self.schema_version == 1 && loopback && is_id(self.operator@) && self.allowed_origins@.len() <= 16 && (
                forall|j: int| 0 <= j < i ==> is_permission((#[trigger] self.permissions@[j])@)),
                !ok ==> !config_valid(*self, loopback),
            decreases self.permissions.len() - i,
        {
            if !known_permission(&self.permissions[i]) {
                ok = false;
            }
            i = i + 1;
        }
        let mut i: usize = 0;
        while i < self.allowed_origins.len()
            invariant
                i <= self.allowed_origins.len(),
                ok ==> self.schema_version == 1 && loopback && is_id(self.operator@) && self.allowed_origins@.len() <= 16 && (
                forall|j: int| 0 <= j < self.permissions@.len() ==> is_permission((#[trigger] self.permissions@[j])@)) && (
                forall|j: int| 0 <= j < i ==> origin_valid((#[trigger] self.allowed_origins@[j])@)),
                !ok ==> !config_valid(*self, loopback),
            decreases self.allowed_origins.len() - i,
        {
            let o = &self.allowed_origins[i];
            if utf8_len(o) > 256 || contains(o, '*') || closes(o, "/") {
                assert(!origin_valid(self.allowed_origins@[i as int]@));
                ok = false;
            }
            i = i + 1;
        }
        if ok {
            Ok(())
        } else {
            Err(ApiError::invalid("invalid schema, operator, permissions, origin or non-loopback listener"))
        }
    }
}

/// What stands at a step on the way to a path.
#[derive(Debug, Clone, Copy, PartialEq, Eq, Structural)]
pub enum Step {
    Plain,
    Symlink,
    Reparse,
}

pub open spec fn step_fault(s: Step) -> Option<Refusal> {
    match s {
        Step::Plain => None,
        Step::Symlink => Some(bad_request("runtime path contains symlink"@)),
        Step::Reparse => Some(bad_request("runtime path contains reparse point"@)),
    }
}

/// Why a path cannot be used; `steps` goes from it to its root.
pub open spec fn external_fault(absolute: bool, steps: Seq<Step>) -> Option<Refusal> {
    if !absolute {
        Some(bad_request("absolute external path required"@))
    } else {
        earliest(steps.len(), |i: int| step_fault(steps[i]))
    }
}

pub fn check_external(absolute: bool, steps: &Vec<Step>) -> (r: Result<(), ApiError>)
    ensures
        reports(r, external_fault(absolute, steps@)),
{
    if !absolute {
        return Err(ApiError::invalid("absolute external path required"));
    }
    let ghost fault = |i: int| step_fault(steps@[i]);
    let mut i: usize = 0;
    while i < steps.len()
        invariant
            i <= steps.len(),
            absolute,
            fault == |i: int| step_fault(steps@[i]),
            earliest(i as nat, fault) is None,
        decreases steps.len() - i,
    {
        match steps[i] {
            Step::Plain => {},
            Step::Symlink => {
                proof {
                    assert(fault(i as int) == Some(bad_request("runtime path contains symlink"@)));
                    earliest_sticks((i + 1) as nat, steps@.len(), fault);
                }
                return Err(ApiError::invalid("runtime path contains symlink"));
            },
            Step::Reparse => {
                proof {
                    assert(fault(i as int) == Some(bad_request("runtime path contains reparse point"@)));
                    earliest_sticks((i + 1) as nat, steps@.len(), fault);
                }
                return Err(ApiError::invalid("runtime path contains reparse point"));
            },
        }
        i = i + 1;
    }
    Ok(())
}

/// Active configuration and data must not lie in the project's source.
pub open spec fn outside_fault(resolved: LocationView, source: Option<LocationView>) -> Option<Refusal> {
    if source is Some && is_under(resolved.parts, source->0.parts) {
        Some(bad_request("active configuration and data must be outside project source"@))
    } else {
        None
    }
}

pub fn check_outside(resolved: &Location, source: Option<&Location>) -> (r: Result<(), ApiError>)
    ensures
        reports(
            r,
            outside_fault(
                resolved@,
                match source {
                    Some(s) => Some(s@),
                    None => None,
                },
            ),
        ),
{
    match source {
        Some(s) => if under(&resolved.parts, &s.parts) {
            Err(ApiError::invalid("active configuration and data must be outside project source"))
        } else {
            Ok(())
        },
        None => Ok(()),
    }
}

pub fn check_config_size(bytes: usize) -> (r: Result<(), ApiError>)
    ensures
        reports(
            r,
            if bytes > MAX_CONFIG_BYTES { Some(bad_request("configuration exceeds 64 KiB"@)) } else { None },
        ),
{
    if bytes > MAX_CONFIG_BYTES {
        return Err(ApiError::invalid("configuration exceeds 64 KiB"));
    }
    Ok(())
}

/// A token as it stands in its file, without the line ends behind it.
pub open spec fn unended(bytes: Seq<u8>) -> Seq<u8>
    decreases bytes.len(),
{
    if bytes.len() > 0 && (bytes.last() == 10 || bytes.last() == 13) { unended(bytes.drop_last()) } else { bytes }
}

pub open spec fn token_valid(token: Seq<u8>) -> bool {
    &&& 32 <= token.len() <= 256
    &&& forall|i: int| 0 <= i < token.len() ==> 0x21 <= #[trigger] token[i] <= 0x7e
}

/// Reads the token out of its file's bytes.
pub fn read_token(bytes: Vec<u8>) -> (r: Result<Vec<u8>, ApiError>)
    ensures
        match r {
            Ok(token) => token@ == unended(bytes@) && token_valid(token@),
            Err(e) => !token_valid(unended(bytes@)) && e@ == bad_request("token must contain 32..256 ASCII graphic bytes"@),
        },
{
    let ghost all = bytes@;
    let mut token = bytes;
    while token.len() > 0 && (token[token.len() - 1] == 10 || token[token.len() - 1] == 13)
        invariant
            unended(token@) == unended(all),
        decreases token.len(),
    {
        let ghost before = token@;
        token.pop();
        assert(token@ =~= before.drop_last());
    }
    let mut ok = 32 <= token.len() && token.len() <= 256;
    let mut i: usize = 0;
    while i < token.len()
        invariant
            i <= token.len(),
            ok ==> 32 <= token@.len() <= 256 && (forall|j: int| 0 <= j < i ==> 0x21 <= #[trigger] token@[j] <= 0x7e),
            !ok ==> !token_valid(token@),
        decreases token.len() - i,
    {
        if token[i] < 0x21 || token[i] > 0x7e {
            assert(!(0x21 <= token@[i as int] <= 0x7e));
            ok = false;
        }
        i = i + 1;
    }
    if ok {
        Ok(token)
    } else {
        Err(ApiError::invalid("token must contain 32..256 ASCII graphic bytes"))
    }
}

} // verus!
