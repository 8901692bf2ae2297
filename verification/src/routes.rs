//! The HTTP-facing contracts: liveness, greeting, and the subscription
//! handler's mapping of outcomes to status codes.
//!
//! The subscription handler is a per-request state machine: parse the
//! body (a failure is answered `400` at once, with no store call), then
//! delegate to the store, then map its outcome (`200` on success, `500`
//! on any store failure). Responses carry no internal error detail.

use vstd::prelude::*;
use vstd::string::StringExecFns;
use crate::form::{FormData, parse_form, parse_form_spec};
use crate::store::StoreError;

verus! {

/// An HTTP response of this service: a status code and a body.
pub struct Response {
    pub status: u16,
    pub body: String,
}

/// GET /health_check: always `200 OK` with an empty body, whatever state
/// the process is in.
pub fn health_check() -> (r: Response)
    ensures
        r.status == 200,
        r.body@ == Seq::<char>::empty(),
{
    Response { status: 200, body: String::new() }
}

/// GET / and GET /{name}: `200 OK` with body `Hello {name}`, or
/// `Hello World` when no path segment names the caller.
pub fn greet(name: Option<&str>) -> (r: Response)
    ensures
        r.status == 200,
        match name {
            Some(n) => r.body@ == "Hello "@ + n@,
            None => r.body@ == "Hello World"@,
        },
{
    match name {
        Some(n) => {
            let mut s = String::from_str("Hello ");
            s.append(n);
            Response { status: 200, body: s }
        },
        None => Response { status: 200, body: String::from_str("Hello World") },
    }
}

/// The one content type a submission may carry.
pub open spec fn form_content_type() -> Seq<char> {
    "application/x-www-form-urlencoded"@
}

/// What POST /subscriptions answers for a request of content type `ct`
/// and body `body`: `400` when the content type is wrong or the body
/// does not parse (the store is never reached), otherwise `200` when the
/// one store insert succeeds and `500` when it fails.
pub open spec fn subscribe_status(ct: Seq<char>, body: Seq<u8>, store_ok: bool) -> u16 {
    if ct == form_content_type() && parse_form_spec(body) is Ok {
        if store_ok {
            200
        } else {
            500
        }
    } else {
        400
    }
}

/// The handler's decision after parsing: answer `400` at once, or hand
/// the parsed form on to the store.
pub enum SubscribeStep {
    /// The body was rejected; this response goes out and no store call
    /// is made.
    Reject(Response),
    /// The body parsed; the store insert is next.
    Proceed(FormData),
}

/// First half of POST /subscriptions: check the content type and parse
/// the submitted body.
pub fn subscribe_request(content_type: &str, body: &[u8]) -> (r: SubscribeStep)
    ensures
        match r {
            SubscribeStep::Reject(resp) => (content_type@ != form_content_type()
                || parse_form_spec(body@) is Err) && resp.status == 400 && resp.body@
                == Seq::<char>::empty(),
            SubscribeStep::Proceed(form) => content_type@ == form_content_type()
                && parse_form_spec(body@) is Ok && form.name@ == parse_form_spec(body@)->Ok_0.0
                && form.email@ == parse_form_spec(body@)->Ok_0.1,
        },
{
    let ct = String::from_str(content_type);
    let expected = String::from_str("application/x-www-form-urlencoded");
    if !ct.eq(&expected) {
        return SubscribeStep::Reject(Response { status: 400, body: String::new() });
    }
    match parse_form(body) {
        Ok(form) => SubscribeStep::Proceed(form),
        Err(_) => SubscribeStep::Reject(Response { status: 400, body: String::new() }),
    }
}

/// Second half of POST /subscriptions: map the store's outcome. The body
/// is empty either way: the cause inside a [`StoreError`] is for logs and
/// never reaches the client.
pub fn subscribe_response(store: Result<(), StoreError>) -> (r: Response)
    ensures
        store is Ok ==> r.status == 200,
        store is Err ==> r.status == 500,
        r.body@ == Seq::<char>::empty(),
{
    match store {
        Ok(_) => Response { status: 200, body: String::new() },
        Err(_) => Response { status: 500, body: String::new() },
    }
}

/// A well-formed submission — the right content type, both required keys
/// present, every escape well formed — is accepted: the store is called,
/// and when its insert succeeds the request is answered `200`, the
/// stored row carrying exactly the decoded name and email (see
/// `store::new_subscription_row`).
pub proof fn law_valid_submission_accepted(ct: Seq<char>, body: Seq<u8>)
    requires
        ct == form_content_type(),
        parse_form_spec(body) is Ok,
    ensures
        subscribe_status(ct, body, true) == 200,
{
}

/// A submission that does not parse — a required key missing, the
/// encoding malformed, or the content type wrong — is answered `400`,
/// whatever the store would have done: no insert is attempted.
pub proof fn law_rejected_submission_never_stored(ct: Seq<char>, body: Seq<u8>, store_ok: bool)
    requires
        ct != form_content_type() || parse_form_spec(body) is Err,
    ensures
        subscribe_status(ct, body, store_ok) == 400,
{
}

} // verus!
