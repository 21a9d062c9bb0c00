//! The per-request pipeline: authenticate, route, forward, relay, stopping at
//! the first failing stage with a fixed status code.

use vstd::prelude::*;
use vstd::slice::{slice_subrange, slice_to_vec};
use vstd::utf8::{decode_utf8, encode_utf8, valid_utf8};
use crate::auth::{accepted_claims, verify_token_at, AuthError};
use crate::forward::{
    build_outbound, forwarded_headers, header_name_is, headers_model, name_matches, relay_response,
    status_ok, BackendOutcome, ForwardError, GatewayResponse, HeaderField, OutboundRequest,
    MAX_BODY_BYTES,
};
use crate::registry::ServiceRegistry;
use crate::target::target_uri;

verus! {

/// The header that carries a bearer token.
pub const AUTHORIZATION_HEADER: &'static str = "authorization";

/// The form payload of the form-field token convention.
pub struct ProxyRequest {
    pub token: String,
}

/// Where the pipeline looks for the caller's token.
#[derive(Debug, Clone, Copy, PartialEq, Eq, Structural)]
pub enum TokenSource {
    /// `Authorization: Bearer <token>`; the recommended convention.
    BearerHeader,
    /// A path segment before the service name; legacy, leaks the token into logs.
    PathSegment,
    /// A `token` field of a form body; legacy.
    FormField,
}

/// Why a request failed; each kind has one status code.
#[derive(Debug, Clone, Copy, PartialEq, Eq, Structural)]
pub enum Failure {
    Unauthorized,
    NotFound,
    BadRequest,
    BadGateway,
    InternalError,
}

/// The status code of each failure.
pub open spec fn failure_status(f: Failure) -> u16 {
    match f {
        Failure::Unauthorized => 401,
        Failure::NotFound => 404,
        Failure::BadRequest => 400,
        Failure::BadGateway => 502,
        Failure::InternalError => 500,
    }
}

/// The failure that each forwarding error becomes.
pub open spec fn forward_failure(e: ForwardError) -> Failure {
    match e {
        ForwardError::BodyTooLarge => Failure::BadRequest,
        ForwardError::Unreachable => Failure::BadGateway,
        ForwardError::ReconstructionFailed => Failure::InternalError,
    }
}

impl Failure {
    /// The HTTP status code for this failure.
    pub fn status_code(&self) -> (r: u16)
        ensures
            r == failure_status(*self),
    {
        match self {
            Failure::Unauthorized => 401,
            Failure::NotFound => 404,
            Failure::BadRequest => 400,
            Failure::BadGateway => 502,
            Failure::InternalError => 500,
        }
    }

    /// Every authentication error is `Unauthorized`.
    pub fn from_auth(e: AuthError) -> (r: Failure)
        ensures
            r == Failure::Unauthorized,
    {
        Failure::Unauthorized
    }

    /// The failure for a forwarding error.
    pub fn from_forward(e: ForwardError) -> (r: Failure)
        ensures
            r == forward_failure(e),
    {
        match e {
            ForwardError::BodyTooLarge => Failure::BadRequest,
            ForwardError::Unreachable => Failure::BadGateway,
            ForwardError::ReconstructionFailed => Failure::InternalError,
        }
    }
}

/// An inbound request as the transport hands it over.
pub struct GatewayRequest {
    /// The logical service name (first path segment after any token segment).
    pub service: String,
    /// The remainder of the path, unmodified.
    pub subpath: String,
    pub method: String,
    pub headers: Vec<HeaderField>,
    /// The body, or `None` where it could not be read within `MAX_BODY_BYTES`.
    pub body: Option<Vec<u8>>,
    /// The token path segment, where the route has one.
    pub path_token: Option<String>,
    /// The decoded form payload, where the body was a form.
    pub form: Option<ProxyRequest>,
}

/// The bytes `Bearer ` that open a bearer authorization value.
pub open spec fn bearer_prefix() -> Seq<u8> {
    seq![66u8, 101u8, 97u8, 114u8, 101u8, 114u8, 32u8]
}

/// The value of the first header named `authorization`, in any ASCII case.
pub open spec fn authorization_value(hs: Seq<(Seq<char>, Seq<u8>)>) -> Option<Seq<u8>>
    decreases hs.len(),
{
    if hs.len() == 0 {
        None
    } else if header_name_is(hs[0].0, AUTHORIZATION_HEADER@) {
        Some(hs[0].1)
    } else {
        authorization_value(hs.drop_first())
    }
}

/// The token of a `Bearer <token>` authorization value whose token is UTF-8.
pub open spec fn bearer_token(hs: Seq<(Seq<char>, Seq<u8>)>) -> Option<Seq<char>> {
    match authorization_value(hs) {
        Some(v) => {
            let p = bearer_prefix();
            if p.len() <= v.len() && v.subrange(0, p.len() as int) == p
                && valid_utf8(v.subrange(p.len() as int, v.len() as int)) {
                Some(decode_utf8(v.subrange(p.len() as int, v.len() as int)))
            } else {
                None
            }
        },
        None => None,
    }
}

/// The subject of the claims that verification at `now` accepts.
pub open spec fn accepted_subject(token: Seq<char>, secret: Seq<char>, now: int) -> Seq<char> {
    match accepted_claims(token, secret, now) {
        Some(c) => c.0,
        None => Seq::empty(),
    }
}

/// The token that `source` selects from `req`.
pub open spec fn token_of(source: TokenSource, req: GatewayRequest) -> Option<Seq<char>> {
    match source {
        TokenSource::BearerHeader => bearer_token(headers_model(req.headers@)),
        TokenSource::PathSegment => match req.path_token {
            Some(t) => Some(t@),
            None => None,
        },
        TokenSource::FormField => match req.form {
            Some(f) => Some(f.token@),
            None => None,
        },
    }
}

/// Relies on String::from_utf8: the bytes as a string where they are valid
/// UTF-8, and an error otherwise.
#[verifier::external_body]
fn utf8_string(bytes: Vec<u8>) -> (r: Option<String>)
    ensures
        r is Some <==> valid_utf8(bytes@),
        r matches Some(s) ==> s@ == decode_utf8(bytes@),
{
    String::from_utf8(bytes).ok()
}

proof fn lemma_authorization_skip(hs: Seq<(Seq<char>, Seq<u8>)>, i: int)
    requires
        0 <= i <= hs.len(),
        forall|k: int| 0 <= k < i ==> !header_name_is(#[trigger] hs[k].0, AUTHORIZATION_HEADER@),
    ensures
        authorization_value(hs) == authorization_value(hs.subrange(i, hs.len() as int)),
    decreases i,
{
    if i == 0 {
        assert(hs.subrange(0, hs.len() as int) =~= hs);
    } else {
        let rest = hs.drop_first();
        assert forall|k: int| 0 <= k < i - 1 implies !header_name_is(#[trigger] rest[k].0, AUTHORIZATION_HEADER@) by {
            assert(rest[k] == hs[k + 1]);
        }
        lemma_authorization_skip(rest, i - 1);
        assert(rest.subrange(i - 1, rest.len() as int) =~= hs.subrange(i, hs.len() as int));
        assert(!header_name_is(hs[0].0, AUTHORIZATION_HEADER@));
    }
}

/// The token of the first `authorization` header, where it reads `Bearer <token>`.
pub fn extract_bearer(headers: &Vec<HeaderField>) -> (r: Option<String>)
    ensures
        r matches Some(t) ==> bearer_token(headers_model(headers@)) == Some(t@),
        r is None ==> bearer_token(headers_model(headers@)) is None,
{
    let ghost hs = headers_model(headers@);
    let n = headers.len();
    let mut i: usize = 0;
    while i < n
        invariant
            n == headers@.len(),
            hs == headers_model(headers@),
            i <= n,
            forall|k: int| 0 <= k < i ==> !header_name_is(#[trigger] hs[k].0, AUTHORIZATION_HEADER@),
        decreases n - i,
    {
        if name_matches(&headers[i].name, AUTHORIZATION_HEADER) {
            proof {
                lemma_authorization_skip(hs, i as int);
                assert(hs.subrange(i as int, hs.len() as int)[0] == hs[i as int]);
            }
            let v = headers[i].value.as_slice();
            assert(headers_model(headers@)[i as int] == (headers@[i as int].name@, headers@[i as int].value@));
            assert(authorization_value(hs) == Some(v@));
            let prefix: [u8; 7] = [66u8, 101u8, 97u8, 114u8, 101u8, 114u8, 32u8];
            if v.len() < 7 {
                return None;
            }
            let mut j: usize = 0;
            while j < 7
                invariant
                    authorization_value(hs) == Some(v@),
                    hs == headers_model(headers@),
                    v@.len() >= 7,
                    j <= 7,
                    prefix@ == bearer_prefix(),
                    forall|k: int| 0 <= k < j ==> v@[k] == bearer_prefix()[k],
                decreases 7 - j,
            {
                if v[j] != prefix[j] {
                    assert(prefix@[j as int] == bearer_prefix()[j as int]);
                    assert(bearer_prefix().len() == 7);
                    assert(v@.subrange(0, 7)[j as int] != bearer_prefix()[j as int]);
                    assert(v@.subrange(0, 7) != bearer_prefix());
                    return None;
                }
                j = j + 1;
            }
            assert(v@.subrange(0, 7) =~= bearer_prefix());
            let rest = slice_to_vec(slice_subrange(v, 7, v.len()));
            return utf8_string(rest);
        }
        i = i + 1;
    }
    proof {
        lemma_authorization_skip(hs, n as int);
    }
    None
}

/// The token that `source` selects from `req`.
pub fn extract_token(source: TokenSource, req: &GatewayRequest) -> (r: Option<String>)
    ensures
        r matches Some(t) ==> token_of(source, *req) == Some(t@),
        r is None ==> token_of(source, *req) is None,
{
    match source {
        TokenSource::BearerHeader => extract_bearer(&req.headers),
        TokenSource::PathSegment => match &req.path_token {
            Some(t) => Some(t.clone()),
            None => None,
        },
        TokenSource::FormField => match &req.form {
            Some(f) => Some(f.token.clone()),
            None => None,
        },
    }
}

/// Runs the pipeline up to the outbound request: authenticate the token that
/// `source` selects under `secret` at time `now`, resolve the service, and
/// build the request for its backend. Each stage is reached only where the
/// ones before it succeeded.
pub fn prepare(
    registry: &ServiceRegistry,
    secret: &str,
    now: u64,
    source: TokenSource,
    req: GatewayRequest,
) -> (r: Result<OutboundRequest, Failure>)
    requires
        registry.wf(),
    ensures
        ({
            let token = token_of(source, req);
            let authenticated = token matches Some(t) && accepted_claims(t, secret@, now as int) is Some;
            let routed = authenticated && registry.base_url_of(req.service@) is Some;
            let sized = req.body matches Some(b) && b@.len() <= MAX_BODY_BYTES;
            &&& !authenticated ==> r == Err::<OutboundRequest, Failure>(Failure::Unauthorized)
            &&& authenticated && !routed ==> r == Err::<OutboundRequest, Failure>(Failure::NotFound)
            &&& routed && !sized ==> r == Err::<OutboundRequest, Failure>(Failure::BadRequest)
            &&& routed && sized ==> (r matches Ok(o) && {
                let subject = accepted_subject(token->0, secret@, now as int);
                &&& o.method@ == req.method@
                &&& o.url@ == target_uri(registry.base_url_of(req.service@)->0, req.subpath@)
                &&& o.body@ == req.body->0@
                &&& headers_model(o.headers@) == forwarded_headers(headers_model(req.headers@), encode_utf8(subject))
            })
        }),
{
    let token = match extract_token(source, &req) {
        Some(t) => t,
        None => return Err(Failure::Unauthorized),
    };
    let claims = match verify_token_at(token.as_str(), secret, now) {
        Ok(c) => c,
        Err(e) => return Err(Failure::from_auth(e)),
    };
    let base_url = match registry.resolve(req.service.as_str()) {
        Some(u) => u,
        None => return Err(Failure::NotFound),
    };
    let GatewayRequest { subpath, method, headers, body, .. } = req;
    match build_outbound(base_url.as_str(), subpath.as_str(), method, headers, body, claims.sub.as_str()) {
        Ok(o) => Ok(o),
        Err(e) => Err(Failure::from_forward(e)),
    }
}

/// The response for a failure: its status code, no headers, an empty body.
pub fn failure_response(f: Failure) -> (r: GatewayResponse)
    ensures
        r.status == failure_status(f),
        r.headers@.len() == 0,
        r.body@.len() == 0,
{
    GatewayResponse { status: f.status_code(), headers: Vec::new(), body: Vec::new() }
}

/// Finishes the pipeline once the backend has been tried: its response
/// verbatim, or the response for the failure.
pub fn complete(outcome: BackendOutcome) -> (r: GatewayResponse)
    ensures
        match outcome {
            BackendOutcome::Unreachable => r.status == 502 && r.headers@.len() == 0 && r.body@.len() == 0,
            BackendOutcome::Replied { status, headers, body } => {
                if status_ok(status) && body is Some {
                    r.status == status && r.headers@ == headers@ && r.body@ == body->0@
                } else {
                    r.status == 500 && r.headers@.len() == 0 && r.body@.len() == 0
                }
            },
        },
{
    match relay_response(outcome) {
        Ok(resp) => resp,
        Err(e) => failure_response(Failure::from_forward(e)),
    }
}

} // verus!
