//! The two handlers of the service, as functions from plain request data to
//! a status code with a response body. The surrounding HTTP server hands the
//! request body in and writes the reply out; everything decided here is
//! verified.

use vstd::prelude::*;
use crate::crypto;
use crate::exposition;
use crate::json;

verus! {

/// A reply: an HTTP status code and the bytes of the response body.
pub struct HttpReply {
    pub status: u16,
    pub body: Vec<u8>,
}

/// The body of the reply to a failed metrics request.
pub open spec fn spec_metrics_error_body() -> Seq<u8> {
    seq![
        0x6du8, 0x65, 0x74, 0x72, 0x69, 0x63, 0x73, 0x20,
        0x65, 0x6e, 0x63, 0x6f, 0x64, 0x69, 0x6e, 0x67,
        0x20, 0x66, 0x61, 0x69, 0x6c, 0x65, 0x64,
    ]
}

/// The reply owed to a request body: for a well-formed body, a 200 with the
/// rendered response holding the base64 ciphertext of the password; for a
/// malformed one, a 400 with the error body that names what was wrong.
pub open spec fn spec_encrypt_reply_ok(body: Seq<u8>, status: u16, reply: Seq<u8>) -> bool {
    match json::spec_parse_request(body) {
        Ok(pw) => status == 200 && reply == json::spec_render_response(crypto::spec_token(pw)),
        Err(e) => status == 400 && reply == json::spec_render_error(e),
    }
}

/// The `/encrypt` handler on a request body: parses it, encrypts the
/// password under the fixed key and initialization vector, and answers with
/// the base64 ciphertext, or with the error the body earns. Never panics and
/// never answers anything but 200 or 400.
pub fn encrypt(body: &[u8]) -> (r: HttpReply)
    ensures
        spec_encrypt_reply_ok(body@, r.status, r.body@),
        r.status == 200 || r.status == 400,
{
    match json::parse_request(body) {
        Ok(pw) => {
            let token = crypto::encrypt_token(pw.as_slice());
            let out = json::render_response(token.as_slice());
            HttpReply { status: 200, body: out }
        },
        Err(e) => HttpReply { status: 400, body: json::render_error(e) },
    }
}

/// The reply to a request body that the HTTP layer could not even read as
/// text: the same client error a malformed body earns.
pub fn invalid_body_reply() -> (r: HttpReply)
    ensures
        r.status == 400,
        r.body@ == json::spec_render_error(json::ReqError::InvalidJson),
{
    HttpReply { status: 400, body: json::render_error(json::ReqError::InvalidJson) }
}

/// The reply a `/metrics` request gets for a given encoding outcome: the
/// exposition text with a 200 where encoding succeeded, a 500 with a short
/// diagnostic where it failed.
pub fn metrics_response(encoded: Result<Vec<u8>, ()>) -> (r: HttpReply)
    ensures
        (encoded matches Ok(text) ==> r.status == 200 && r.body@ == text@),
        (encoded is Err ==> r.status == 500 && r.body@ == spec_metrics_error_body()),
{
    match encoded {
        Ok(text) => HttpReply { status: 200, body: text },
        Err(_) => {
            let body: Vec<u8> = vec![
                0x6du8, 0x65, 0x74, 0x72, 0x69, 0x63, 0x73, 0x20,
                0x65, 0x6e, 0x63, 0x6f, 0x64, 0x69, 0x6e, 0x67,
                0x20, 0x66, 0x61, 0x69, 0x6c, 0x65, 0x64,
            ];
            proof {
                assert(body@ =~= spec_metrics_error_body());
            }
            HttpReply { status: 500, body }
        },
    }
}

/// The `/metrics` handler: renders a snapshot of the process-wide metrics
/// registry in the plaintext exposition format. Which snapshot is gathered
/// depends on the registry's state, but every 200 body is the exposition of
/// some family snapshot — the encoding itself is a function of the families
/// alone, so equal snapshots render to equal bodies. A snapshot the encoder
/// cannot render (an untyped family holding a metric, or one it refuses) is
/// answered with a 500.
pub fn metrics() -> (r: HttpReply)
    ensures
        r.status == 200 || r.status == 500,
        r.status == 500 ==> r.body@ == spec_metrics_error_body(),
        r.status == 200 ==> exists|families: Seq<prometheus::proto::MetricFamily>|
            exposition::exposition_of(families) == Ok::<Seq<u8>, ()>(r.body@),
{
    let families = exposition::gather_families();
    let encoded: Result<Vec<u8>, ()> = if exposition::check_encodable(&families) {
        exposition::encode_families(&families)
    } else {
        Err(())
    };
    let ghost was_ok = encoded is Ok;
    let ghost ok_view: Seq<u8> = if encoded is Ok {
        encoded->Ok_0@
    } else {
        Seq::empty()
    };
    let r = metrics_response(encoded);
    proof {
        if r.status == 200 {
            assert(was_ok);
            assert(r.body@ == ok_view);
            assert(exposition::exposition_of(families@) == Ok::<Seq<u8>, ()>(r.body@));
        }
    }
    r
}

} // verus!
