//! The request forwarder's decisions: what goes out to a backend, and what
//! comes back to the caller.

use vstd::prelude::*;
use vstd::slice::slice_to_vec;
use vstd::string::StringSliceAdditionalSpecFns;
use crate::target::{join_target, target_uri};

verus! {

/// The largest inbound body that is forwarded, in bytes.
pub const MAX_BODY_BYTES: usize = 5 * 1024 * 1024;

/// The header that carries the authenticated subject to the backend.
pub const USER_ID_HEADER: &'static str = "x-user-id";

/// One header: its name and its raw value.
#[derive(Debug)]
pub struct HeaderField {
    pub name: String,
    pub value: Vec<u8>,
}

/// A header as plain values.
pub open spec fn field_model(h: HeaderField) -> (Seq<char>, Seq<u8>) {
    (h.name@, h.value@)
}

/// Headers as plain values.
pub open spec fn headers_model(hs: Seq<HeaderField>) -> Seq<(Seq<char>, Seq<u8>)> {
    hs.map_values(|h: HeaderField| field_model(h))
}

/// The request sent to the backend.
#[derive(Debug)]
pub struct OutboundRequest {
    pub method: String,
    pub url: String,
    pub headers: Vec<HeaderField>,
    pub body: Vec<u8>,
}

/// The response handed back to the caller.
#[derive(Debug)]
pub struct GatewayResponse {
    pub status: u16,
    pub headers: Vec<HeaderField>,
    pub body: Vec<u8>,
}

/// What the transport reports after dispatching an outbound request.
#[derive(Debug)]
pub enum BackendOutcome {
    /// No response arrived: connection refused, DNS failure, timeout.
    Unreachable,
    /// A response arrived; `body` is `None` where reading it failed.
    Replied { status: u16, headers: Vec<HeaderField>, body: Option<Vec<u8>> },
}

/// Why forwarding failed.
#[derive(Debug, Clone, Copy, PartialEq, Eq, Structural)]
pub enum ForwardError {
    /// The inbound body exceeds `MAX_BODY_BYTES` or could not be read.
    BodyTooLarge,
    /// The backend could not be reached.
    Unreachable,
    /// The backend's response could not be turned into a gateway response.
    ReconstructionFailed,
}

/// `c` is `lower`, or its ASCII upper-case form.
pub open spec fn ascii_eq_ignore_case(c: char, lower: char) -> bool {
    c == lower || ('A' <= c <= 'Z' && c as u32 + 32 == lower as u32)
}

/// `name` is `lower` in any ASCII case.
pub open spec fn header_name_is(name: Seq<char>, lower: Seq<char>) -> bool {
    name.len() == lower.len()
        && forall|i: int| 0 <= i < name.len() ==> ascii_eq_ignore_case(#[trigger] name[i], lower[i])
}

/// `name` is the identity header's name, in any ASCII case.
pub open spec fn is_identity_header(name: Seq<char>) -> bool {
    header_name_is(name, USER_ID_HEADER@)
}

/// Every byte may stand in a header value: visible ASCII, space or tab.
pub open spec fn header_value_ok(v: Seq<u8>) -> bool {
    forall|i: int| 0 <= i < v.len() ==> (32 <= #[trigger] v[i] < 127 || v[i] == 9)
}

/// `hs` without the headers named like the identity header.
pub open spec fn without_identity(hs: Seq<(Seq<char>, Seq<u8>)>) -> Seq<(Seq<char>, Seq<u8>)>
    decreases hs.len(),
{
    if hs.len() == 0 {
        hs
    } else if is_identity_header(hs[0].0) {
        without_identity(hs.drop_first())
    } else {
        seq![hs[0]] + without_identity(hs.drop_first())
    }
}

/// The outbound headers: the inbound ones with any caller-supplied identity
/// header dropped, then the identity header carrying `subject`, where the
/// subject's bytes may stand in a header value.
pub open spec fn forwarded_headers(hs: Seq<(Seq<char>, Seq<u8>)>, subject: Seq<u8>) -> Seq<(Seq<char>, Seq<u8>)> {
    if header_value_ok(subject) {
        without_identity(hs).push((USER_ID_HEADER@, subject))
    } else {
        without_identity(hs)
    }
}

/// A status code in the range that HTTP allows.
pub open spec fn status_ok(status: u16) -> bool {
    100 <= status <= 999
}

/// Whether `name` is `lower` in any ASCII case.
pub fn name_matches(name: &String, lower: &str) -> (r: bool)
    ensures
        r == header_name_is(name@, lower@),
{
    let n: usize = name.as_str().unicode_len();
    let m: usize = lower.unicode_len();
    if n != m {
        return false;
    }
    let mut i: usize = 0;
    while i < n
        invariant
            n == name@.len(),
            m == lower@.len(),
            n == m,
            i <= n,
            forall|k: int| 0 <= k < i ==> ascii_eq_ignore_case(#[trigger] name@[k], lower@[k]),
        decreases n - i,
    {
        let c = name.as_str().get_char(i);
        let l = lower.get_char(i);
        if !(c == l || ('A' <= c && c <= 'Z' && c as u32 + 32 == l as u32)) {
            return false;
        }
        i = i + 1;
    }
    true
}

fn is_header_value(v: &[u8]) -> (r: bool)
    ensures
        r == header_value_ok(v@),
{
    let mut i: usize = 0;
    while i < v.len()
        invariant
            i <= v@.len(),
            forall|k: int| 0 <= k < i ==> (32 <= #[trigger] v@[k] < 127 || v@[k] == 9),
        decreases v@.len() - i,
    {
        let b = v[i];
        if !((32 <= b && b < 127) || b == 9) {
            return false;
        }
        i = i + 1;
    }
    true
}

proof fn lemma_without_identity_append(hs: Seq<(Seq<char>, Seq<u8>)>, h: (Seq<char>, Seq<u8>))
    ensures
        without_identity(hs.push(h)) == if is_identity_header(h.0) {
            without_identity(hs)
        } else {
            without_identity(hs).push(h)
        },
    decreases hs.len(),
{
    if hs.len() == 0 {
        assert(hs.push(h).drop_first() =~= hs);
        assert(seq![h] + hs =~= hs.push(h));
    } else {
        assert(hs.push(h).drop_first() =~= hs.drop_first().push(h));
        lemma_without_identity_append(hs.drop_first(), h);
        if !is_identity_header(hs[0].0) {
            assert(seq![hs[0]] + without_identity(hs.drop_first()).push(h)
                =~= (seq![hs[0]] + without_identity(hs.drop_first())).push(h));
        }
    }
}

/// The inbound headers with every identity header dropped, then the identity
/// header for `subject` where its bytes may stand in a header value.
pub fn rewrite_headers(headers: Vec<HeaderField>, subject: &str) -> (r: Vec<HeaderField>)
    ensures
        headers_model(r@) == forwarded_headers(headers_model(headers@), subject.spec_bytes()),
{
    let mut out: Vec<HeaderField> = Vec::new();
    let mut rest = headers;
    let ghost orig = headers_model(headers@);
    let ghost mut taken: int = 0;
    while rest.len() > 0
        invariant
            0 <= taken <= orig.len(),
            taken + rest@.len() == orig.len(),
            headers_model(rest@) == orig.subrange(taken, orig.len() as int),
            headers_model(out@) == without_identity(orig.subrange(0, taken)),
        decreases rest@.len(),
    {
        let ghost rest_before = rest@;
        let h = rest.remove(0);
        proof {
            assert(headers_model(rest_before)[0] == orig.subrange(taken, orig.len() as int)[0]);
            assert(field_model(h) == orig[taken]);
            assert(orig.subrange(0, taken + 1) =~= orig.subrange(0, taken).push(orig[taken]));
            lemma_without_identity_append(orig.subrange(0, taken), orig[taken]);
            assert forall|k: int| 0 <= k < rest@.len() implies headers_model(rest@)[k]
                == orig.subrange(taken + 1, orig.len() as int)[k] by {
                assert(rest@[k] == rest_before[k + 1]);
                assert(headers_model(rest_before)[k + 1] == orig.subrange(taken, orig.len() as int)[k + 1]);
            }
            assert(headers_model(rest@) =~= orig.subrange(taken + 1, orig.len() as int));
        }
        if !name_matches(&h.name, USER_ID_HEADER) {
            let ghost before = out@;
            out.push(h);
            proof {
                assert(headers_model(out@) =~= headers_model(before).push(field_model(h)));
            }
        }
        proof {
            taken = taken + 1;
        }
    }
    proof {
        assert(orig.subrange(0, orig.len() as int) =~= orig);
    }
    let bytes = subject.as_bytes();
    if is_header_value(bytes) {
        out.push(HeaderField { name: String::from_str(USER_ID_HEADER), value: slice_to_vec(bytes) });
        proof {
            assert(headers_model(out@) =~= forwarded_headers(orig, subject.spec_bytes()));
        }
    }
    out
}

/// Builds the request for the backend at `base_url`: the target URI, the
/// caller's method and body, and the rewritten headers. A body that is
/// missing (it could not be read within the cap) or longer than
/// `MAX_BODY_BYTES` is refused before anything is sent.
pub fn build_outbound(
    base_url: &str,
    subpath: &str,
    method: String,
    headers: Vec<HeaderField>,
    body: Option<Vec<u8>>,
    subject: &str,
) -> (r: Result<OutboundRequest, ForwardError>)
    ensures
        r is Err <==> (body is None || body->0@.len() > MAX_BODY_BYTES),
        r is Err ==> r->Err_0 == ForwardError::BodyTooLarge,
        r matches Ok(o) ==> {
            &&& o.method@ == method@
            &&& o.url@ == target_uri(base_url@, subpath@)
            &&& headers_model(o.headers@) == forwarded_headers(headers_model(headers@), subject.spec_bytes())
            &&& o.body@ == body->0@
        },
{
    let body = match body {
        Some(b) => b,
        None => return Err(ForwardError::BodyTooLarge),
    };
    if body.len() > MAX_BODY_BYTES {
        return Err(ForwardError::BodyTooLarge);
    }
    let url = join_target(base_url, subpath);
    let headers = rewrite_headers(headers, subject);
    Ok(OutboundRequest { method, url, headers, body })
}

/// Turns what the backend sent into the caller's response, verbatim.
pub fn relay_response(outcome: BackendOutcome) -> (r: Result<GatewayResponse, ForwardError>)
    ensures
        match outcome {
            BackendOutcome::Unreachable => r == Err::<GatewayResponse, ForwardError>(ForwardError::Unreachable),
            BackendOutcome::Replied { status, headers, body } => {
                if status_ok(status) && body is Some {
                    r matches Ok(resp) && resp.status == status && resp.headers@ == headers@
                        && resp.body@ == body->0@
                } else {
                    r == Err::<GatewayResponse, ForwardError>(ForwardError::ReconstructionFailed)
                }
            },
        },
{
    match outcome {
        BackendOutcome::Unreachable => Err(ForwardError::Unreachable),
        BackendOutcome::Replied { status, headers, body } => {
            if status < 100 || status > 999 {
                return Err(ForwardError::ReconstructionFailed);
            }
            match body {
                Some(body) => Ok(GatewayResponse { status, headers, body }),
                None => Err(ForwardError::ReconstructionFailed),
            }
        },
    }
}

} // verus!
