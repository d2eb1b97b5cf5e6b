use actix_web::http::header::HeaderMap;
use vstd::prelude::*;
use vstd::string::StringSliceAdditionalSpecFns;

use crate::headers::{first_entry, first_header_value, header_entries};
use crate::path::{is_protected, is_protected_path};
use crate::token::{grants, is_text, token_grants, trim, SCHEME_LEN};

verus! {

/// Status of the answer given in place of a rejected request.
pub const REJECTION_STATUS: u16 = 401;

/// Plain-text body of the answer given in place of a rejected request.
pub const REJECTION_MESSAGE: &'static str = "Only prometheus can use me !";

/// What the guard does with one request.
#[derive(Clone, Copy, Debug, PartialEq, Eq, Structural)]
pub enum Decision {
    /// Hand the request to the next service and return its answer unchanged.
    Forward,
    /// Answer `401` with `REJECTION_MESSAGE`; the next service is not called.
    Reject,
}

/// The lower-case name of the header that carries the credential.
pub open spec fn authorization_name() -> Seq<char> {
    seq!['a', 'u', 't', 'h', 'o', 'r', 'i', 'z', 'a', 't', 'i', 'o', 'n']
}

/// The first `Authorization` value among a request's headers.
pub open spec fn authorization_of(entries: Map<Seq<char>, Seq<Seq<u8>>>) -> Option<Seq<u8>> {
    first_entry(entries, authorization_name())
}

/// The decision for a request with this path and this first
/// `Authorization` value, under `credential`.
pub open spec fn decision(
    credential: Seq<u8>,
    path: Seq<u8>,
    authorization: Option<Seq<u8>>,
) -> Decision {
    if !is_protected(path) {
        Decision::Forward
    } else {
        match authorization {
            Some(v) => if grants(credential, v) {
                Decision::Forward
            } else {
                Decision::Reject
            },
            None => Decision::Reject,
        }
    }
}

/// The bytes of an optional byte string.
pub open spec fn bytes_of(v: Option<&[u8]>) -> Option<Seq<u8>> {
    match v {
        Some(b) => Some(b@),
        None => None,
    }
}

/// The decision for a request with this path, whose first `Authorization`
/// value is `authorization`, under `credential`.
pub fn decide_request(credential: &[u8], path: &str, authorization: Option<&[u8]>) -> (r: Decision)
    ensures
        r == decision(credential@, path.spec_bytes(), bytes_of(authorization)),
{
    if !is_protected_path(path) {
        return Decision::Forward;
    }
    match authorization {
        Some(v) => if token_grants(credential, v) {
            Decision::Forward
        } else {
            Decision::Reject
        },
        None => Decision::Reject,
    }
}

/// A guard that lets a request whose path holds `/metrics` through only
/// when it carries the configured credential.
pub struct Authentification {
    credential: Vec<u8>,
}

impl View for Authentification {
    type V = Seq<u8>;

    /// The credential, as bytes.
    closed spec fn view(&self) -> Seq<u8> {
        self.credential@
    }
}

/// The bytes of `bearer_token`, the credential of a default guard.
pub open spec fn default_credential() -> Seq<u8> {
    seq![98u8, 101u8, 97u8, 114u8, 101u8, 114u8, 95u8, 116u8, 111u8, 107u8, 101u8, 110u8]
}

impl Authentification {
    /// A guard that asks for `credential`.
    pub fn new(credential: &str) -> (r: Self)
        ensures
            r@ == credential.spec_bytes(),
    {
        Authentification { credential: vstd::slice::slice_to_vec(credential.as_bytes()) }
    }

    /// The guard set in front of `service`.
    pub fn new_transform<S>(&self, service: S) -> (r: AuthentificationMiddleware<S>)
        ensures
            r.credential() == self@,
            r.inner() == service,
    {
        AuthentificationMiddleware { credential: self.credential.clone(), service }
    }
}

impl Default for Authentification {
    /// A guard that asks for `bearer_token`.
    fn default() -> (r: Self)
        ensures
            r@ == default_credential(),
    {
        let credential: Vec<u8> = vec![98u8, 101u8, 97u8, 114u8, 101u8, 114u8, 95u8, 116u8, 111u8, 107u8, 101u8, 110u8];
        assert(credential@ =~= default_credential());
        Authentification { credential }
    }
}

/// A service guarded by `Authentification`.
pub struct AuthentificationMiddleware<S> {
    credential: Vec<u8>,
    service: S,
}

impl<S> AuthentificationMiddleware<S> {
    /// The credential that the guard asks for.
    pub closed spec fn credential(&self) -> Seq<u8> {
        self.credential@
    }

    /// The service behind the guard.
    pub closed spec fn inner(&self) -> S {
        self.service
    }

    /// The service behind the guard.
    pub fn service(&self) -> (r: &S)
        ensures
            *r == self.inner(),
    {
        &self.service
    }

    /// The decision for a request with this path and these headers.
    pub fn decide(&self, path: &str, headers: &HeaderMap) -> (r: Decision)
        ensures
            r == decision(self.credential(), path.spec_bytes(), authorization_of(header_entries(*headers))),
    {
        let name: &str = "authorization";
        proof {
            reveal_strlit("authorization");
            assert(name@ =~= authorization_name());
        }
        let value = first_header_value(headers, name);
        match value {
            Some(v) => decide_request(self.credential.as_slice(), path, Some(v.as_slice())),
            None => decide_request(self.credential.as_slice(), path, None),
        }
    }
}

/// A request whose path does not hold `/metrics` is forwarded, whatever its
/// headers.
pub proof fn lemma_unprotected_path_forwarded(
    credential: Seq<u8>,
    path: Seq<u8>,
    authorization: Option<Seq<u8>>,
)
    requires
        !is_protected(path),
    ensures
        decision(credential, path, authorization) == Decision::Forward,
{
}

/// A request to a protected path without an `Authorization` header is
/// rejected.
pub proof fn lemma_missing_authorization_rejected(credential: Seq<u8>, path: Seq<u8>)
    requires
        is_protected(path),
    ensures
        decision(credential, path, None) == Decision::Reject,
{
}

/// A request to a protected path whose `Authorization` value reads as text
/// and, once its first six bytes are dropped and the rest is trimmed, equals
/// the credential, is forwarded.
pub proof fn lemma_matching_token_forwarded(credential: Seq<u8>, path: Seq<u8>, value: Seq<u8>)
    requires
        is_protected(path),
        is_text(value),
        value.len() >= SCHEME_LEN,
        trim(value.subrange(SCHEME_LEN as int, value.len() as int)) == credential,
    ensures
        decision(credential, path, Some(value)) == Decision::Forward,
{
}

/// A request to a protected path whose `Authorization` value is shorter than
/// six bytes is rejected.
pub proof fn lemma_short_value_rejected(credential: Seq<u8>, path: Seq<u8>, value: Seq<u8>)
    requires
        is_protected(path),
        value.len() < SCHEME_LEN,
    ensures
        decision(credential, path, Some(value)) == Decision::Reject,
{
}

/// A request to a protected path whose `Authorization` value, once its first
/// six bytes are dropped and the rest is trimmed, differs from the
/// credential (in case too) is rejected.
pub proof fn lemma_mismatched_token_rejected(credential: Seq<u8>, path: Seq<u8>, value: Seq<u8>)
    requires
        is_protected(path),
        value.len() >= SCHEME_LEN,
        trim(value.subrange(SCHEME_LEN as int, value.len() as int)) != credential,
    ensures
        decision(credential, path, Some(value)) == Decision::Reject,
{
}

/// A request to a protected path whose `Authorization` value does not read
/// as text is rejected.
pub proof fn lemma_undecodable_value_rejected(credential: Seq<u8>, path: Seq<u8>, value: Seq<u8>)
    requires
        is_protected(path),
        !is_text(value),
    ensures
        decision(credential, path, Some(value)) == Decision::Reject,
{
}

/// The decision depends on the credential, the path and the request's
/// headers alone: the same request, handed to a guard with the same
/// credential any number of times, gets the same decision.
pub proof fn lemma_decision_repeatable<S, T>(
    first: AuthentificationMiddleware<S>,
    second: AuthentificationMiddleware<T>,
    path: Seq<u8>,
    headers: HeaderMap,
)
    requires
        first.credential() == second.credential(),
    ensures
        decision(first.credential(), path, authorization_of(header_entries(headers)))
            == decision(second.credential(), path, authorization_of(header_entries(headers))),
{
}

} // verus!
