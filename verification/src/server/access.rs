//! Who may ask, and from where.
use super::{refusal, reports, ApiError, Refusal, FORBIDDEN, UNAUTHORIZED};
use crate::text::{joined, listed, opt, same, starts_with, strip, texts};
use vstd::prelude::*;

verus! {

/// Whether an origin is the server itself.
pub open spec fn own_origin(origin: Seq<char>, host: Option<Seq<char>>) -> bool {
    host is Some && (origin == "http://"@ + host->0 || origin == "https://"@ + host->0)
}

/// Why a request's origin is refused. Requests that name none come from no page.
pub open spec fn origin_fault(origin: Option<Seq<char>>, host: Option<Seq<char>>, allowed: Seq<Seq<char>>) -> Option<Refusal> {
    match origin {
        None => None,
        Some(o) => if own_origin(o, host) || allowed.contains(o) {
            None
        } else {
            Some(refusal(FORBIDDEN, "origin_denied"@, "origin is not allowed"@))
        },
    }
}

pub fn check_origin(origin: &Option<String>, host: &Option<String>, allowed: &Vec<String>) -> (r: Result<(), ApiError>)
    ensures
        reports(r, origin_fault(opt(*origin), opt(*host), texts(allowed@))),
{
    match origin {
        None => Ok(()),
        Some(o) => {
            let own = match host {
                Some(h) => same(o, &joined("http://", h)) || same(o, &joined("https://", h)),
                None => false,
            };
            if own || listed(allowed, o) {
                Ok(())
            } else {
                Err(ApiError::new(FORBIDDEN, "origin_denied", "origin is not allowed"))
            }
        },
    }
}

/// The token that a request carries.
pub open spec fn bearer(header: Option<Seq<char>>) -> Seq<char> {
    match header {
        None => Seq::empty(),
        Some(h) => if starts_with(h, "Bearer "@) { h.subrange("Bearer "@.len() as int, h.len() as int) } else { Seq::empty() },
    }
}

pub fn supplied_token(header: &Option<String>) -> (r: String)
    ensures
        r@ == bearer(opt(*header)),
{
    match header {
        None => {
            let r = String::new();
            assert(r@ =~= Seq::<char>::empty());
            r
        },
        Some(h) => match strip(h, "Bearer ") {
            Some(t) => t,
            None => {
                let r = String::new();
                assert(r@ =~= Seq::<char>::empty());
                r
            },
        },
    }
}

/// Compares all of the secret, wherever the two first differ.
pub fn matches_secret(supplied: &Vec<u8>, secret: &Vec<u8>) -> (r: bool)
    ensures
        r == (supplied@ == secret@),
{
    let mut mismatch: bool = supplied.len() != secret.len();
    let mut i: usize = 0;
    while i < secret.len()
        invariant
            i <= secret.len(),
            !mismatch ==> supplied.len() == secret.len() && (forall|j: int|
                0 <= j < i ==> #[trigger] supplied@[j] == secret@[j]),
            mismatch ==> supplied@ != secret@,
        decreases secret.len() - i,
    {
        let other: u8 = if i < supplied.len() { supplied[i] } else { 0 };
        if secret[i] != other {
            mismatch = true;
        }
        i = i + 1;
    }
    if !mismatch {
        assert(supplied@ =~= secret@);
    }
    !mismatch
}

pub fn authenticate(supplied: &Vec<u8>, secret: &Vec<u8>) -> (r: Result<(), ApiError>)
    ensures
        reports(
            r,
            if supplied@ == secret@ {
                None
            } else {
                Some(refusal(UNAUTHORIZED, "unauthorized"@, "valid Bearer token required"@))
            },
        ),
{
    if matches_secret(supplied, secret) {
        Ok(())
    } else {
        Err(ApiError::new(UNAUTHORIZED, "unauthorized", "valid Bearer token required"))
    }
}

/// What an answer that the transport itself refused becomes: refusals are always JSON.
pub fn transport_refusal(status: u16, json: bool) -> (r: Option<ApiError>)
    ensures
        match r {
            Some(e) => 400 <= status < 500 && !json && e@ == refusal(
                status,
                "invalid_request"@,
                "request path, content type or JSON body was rejected"@,
            ),
            None => !(400 <= status < 500) || json,
        },
{
    if 400 <= status && status < 500 && !json {
        Some(ApiError::new(status, "invalid_request", "request path, content type or JSON body was rejected"))
    } else {
        None
    }
}

} // verus!
