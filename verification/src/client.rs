//! The exchange client: request building, signing and response
//! classification.
//!
//! The client owns the immutable credentials. Building a request is a
//! pure computation: capture a timestamp, serialize the parameters
//! canonically, concatenate the pre-signature string, sign it, and
//! assemble the headers. Sending is left to the caller's transport; the
//! classification of what comes back is again pure.

use crate::consts;
use crate::exceptions::BitgetApiError;
use crate::exceptions::BitgetError;
use crate::exceptions::envelope_of;
use crate::params::ParamMap;
use crate::params::str_cmp;
use crate::utils;
use crate::utils::SignScheme;
use crate::utils::header_model;
use crate::utils::header_views;
use crate::utils::json_body_of;
use crate::utils::prehash_of;
use crate::utils::query_string_of;
use crate::utils::signature_of;
use vstd::prelude::*;

verus! {

/// A fully built, signed request, ready to be sent exactly once: the
/// body, when present, is the very string the signature covers.
pub struct SignedRequest {
    pub method: String,
    pub url: String,
    pub headers: Vec<(String, String)>,
    pub body: Option<String>,
}

/// Client for the exchange's REST API, holding the account credentials.
pub struct BitgetClient {
    /// API key, sent in the `ACCESS-KEY` header.
    pub api_key: String,
    /// API secret, used only to derive signatures; never sent.
    pub api_secret_key: String,
    /// API passphrase, sent in the `ACCESS-PASSPHRASE` header.
    pub passphrase: String,
    /// Whether timestamps should come from the server clock.
    pub use_server_time: bool,
    /// Whether this is the client's first request (kept for diagnostics).
    pub first: bool,
    /// Base URL requests are sent to.
    pub base_url: String,
}

/// What it means for a signed request to be correctly built from a
/// client, method, path, canonical parameter entries and timestamp:
/// the URL carries the query exactly for GET, the body is the canonical
/// JSON object exactly for POST, and the headers carry the signature of
/// the pre-signature string over those same path and body bytes.
pub open spec fn signed_request_ok(
    client: BitgetClient,
    method: Seq<char>,
    request_path: Seq<char>,
    entries: Seq<(Seq<char>, Seq<char>)>,
    timestamp: Seq<char>,
    r: SignedRequest,
) -> bool {
    let full_path = if method == "GET"@ {
        request_path + query_string_of(entries)
    } else {
        request_path
    };
    let body = if method == "POST"@ {
        json_body_of(entries)
    } else {
        Seq::<char>::empty()
    };
    &&& r.method@ == method
    &&& r.url@ == client.base_url@ + full_path
    &&& header_views(r.headers@) == header_model(
        client.api_key@,
        signature_of(client.api_secret_key@, prehash_of(timestamp, method, full_path, body)),
        timestamp,
        client.passphrase@,
    )
    &&& if method == "POST"@ {
        r.body matches Some(b) && b@ == json_body_of(entries)
    } else {
        r.body is None
    }
}

impl BitgetClient {
    /// Create a client holding the given credentials, pointed at the
    /// exchange's fixed base URL.
    pub fn new(
        api_key: String,
        api_secret_key: String,
        passphrase: String,
        use_server_time: bool,
        first: bool,
    ) -> (r: BitgetClient)
        ensures
            r.api_key == api_key,
            r.api_secret_key == api_secret_key,
            r.passphrase == passphrase,
            r.use_server_time == use_server_time,
            r.first == first,
            r.base_url@ == consts::API_URL@,
    {
        BitgetClient {
            api_key,
            api_secret_key,
            passphrase,
            use_server_time,
            first,
            base_url: String::from_str(consts::API_URL),
        }
    }

    /// Assemble the authentication headers for a request: sign the
    /// pre-signature string of the given timestamp, method, full path
    /// and body under the default scheme, and lay out the fixed header
    /// set. All credential-derived headers are always present.
    pub fn build_headers(
        &self,
        method: &str,
        full_path: &str,
        body: &str,
        timestamp: &str,
    ) -> (r: Result<Vec<(String, String)>, BitgetError>)
        ensures
            r is Ok,
            r matches Ok(h) ==> header_views(h@) == header_model(
                self.api_key@,
                signature_of(
                    self.api_secret_key@,
                    prehash_of(timestamp@, method@, full_path@, body@),
                ),
                timestamp@,
                self.passphrase@,
            ),
    {
        let prehash = utils::pre_hash(timestamp, method, full_path, body);
        let signature = match utils::sign_with_scheme(
            SignScheme::HmacSha256,
            prehash.as_str(),
            self.api_secret_key.as_str(),
        ) {
            Ok(s) => s,
            Err(e) => {
                return Err(e);
            },
        };
        Ok(
            utils::get_header(
                self.api_key.as_str(),
                signature.as_str(),
                timestamp,
                self.passphrase.as_str(),
            ),
        )
    }

    /// Build a signed request for a given timestamp. Succeeds exactly
    /// for the methods GET and POST; anything else is a configuration
    /// error, reported before any network activity. For GET the query
    /// is part of the URL and of the signed path; for POST the body is
    /// the canonical JSON object and the very string that was signed.
    pub fn build_signed_request(
        &self,
        method: &str,
        request_path: &str,
        params: &ParamMap,
        timestamp: &str,
    ) -> (r: Result<SignedRequest, BitgetError>)
        requires
            params.wf(),
        ensures
            r is Ok <==> (method@ == "GET"@ || method@ == "POST"@),
            r matches Ok(sr) ==> signed_request_ok(
                *self,
                method@,
                request_path@,
                params.entries_view(),
                timestamp@,
                sr,
            ),
            r matches Err(e) ==> e matches BitgetError::UnsupportedMethod(m) && m@ == method@,
    {
        let is_get = str_cmp(method, consts::GET) == 0;
        let is_post = str_cmp(method, consts::POST) == 0;
        if !is_get && !is_post {
            return Err(BitgetError::UnsupportedMethod(String::from_str(method)));
        }
        let mut full_path = String::from_str(request_path);
        if is_get {
            full_path.append(utils::parse_params_to_str(params).as_str());
        }
        let body = if is_post {
            utils::params_to_json(params)
        } else {
            String::new()
        };
        let headers = match self.build_headers(
            method,
            full_path.as_str(),
            body.as_str(),
            timestamp,
        ) {
            Ok(h) => h,
            Err(e) => {
                return Err(e);
            },
        };
        let mut url = self.base_url.clone();
        url.append(full_path.as_str());
        Ok(
            SignedRequest {
                method: String::from_str(method),
                url,
                headers,
                body: if is_post {
                    Some(body)
                } else {
                    None
                },
            },
        )
    }

    /// Build a signed request stamped with the current time. The
    /// timestamp is captured here, at header-build time, so the value in
    /// the headers is the one the signature covers.
    pub fn prepare_request(&self, method: &str, request_path: &str, params: &ParamMap) -> (r:
        Result<SignedRequest, BitgetError>)
        requires
            params.wf(),
        ensures
            r is Ok <==> (method@ == "GET"@ || method@ == "POST"@),
            r matches Ok(sr) ==> exists|ts: Seq<char>|
                #[trigger] signed_request_ok(
                    *self,
                    method@,
                    request_path@,
                    params.entries_view(),
                    ts,
                    sr,
                ),
            r matches Err(e) ==> e matches BitgetError::UnsupportedMethod(m) && m@ == method@,
    {
        let timestamp = utils::get_timestamp();
        let r = self.build_signed_request(method, request_path, params, timestamp.as_str());
        proof {
            if r is Ok {
                assert(signed_request_ok(
                    *self,
                    method@,
                    request_path@,
                    params.entries_view(),
                    timestamp@,
                    r->Ok_0,
                ));
            }
        }
        r
    }
}

/// How a completed exchange of request and response ends: a success
/// payload, a well-formed rejection from the exchange, or a transport
/// failure. The three are disjoint by construction.
pub enum RequestOutcome {
    /// A success (2xx) response whose body carries no error envelope;
    /// the raw body, for endpoint-specific parsing by the caller.
    Succeeded(String),
    /// A success-status response carrying an explicit error envelope.
    ExchangeRejected(BitgetApiError),
    /// A non-success HTTP status, with the raw status and body.
    TransportFailed { status: u16, body: String },
}

impl RequestOutcome {
    /// Collapse an outcome into the discriminated result callers branch
    /// on: a transport failure and an exchange rejection become their
    /// separate error classes, never conflated.
    pub fn into_result(self) -> (r: Result<String, BitgetError>)
        ensures
            self matches RequestOutcome::Succeeded(p) ==> r matches Ok(t) && t == p,
            self matches RequestOutcome::ExchangeRejected(e) ==> r == Err::<String, BitgetError>(
                BitgetError::Exchange(e),
            ),
            self matches RequestOutcome::TransportFailed { status, body } ==> r == Err::<
                String,
                BitgetError,
            >(BitgetError::Transport { status, body }),
    {
        match self {
            RequestOutcome::Succeeded(p) => Ok(p),
            RequestOutcome::ExchangeRejected(e) => Err(BitgetError::Exchange(e)),
            RequestOutcome::TransportFailed { status, body } => Err(
                BitgetError::Transport { status, body },
            ),
        }
    }
}

/// Sort a response's HTTP status and body into an outcome: any status
/// outside 2xx is a transport failure whatever the body says; a 2xx body
/// carrying an error envelope is an exchange rejection with the
/// envelope's fields verbatim; every other 2xx body passes through as an
/// opaque success payload.
pub fn classify_response(status: u16, body: String) -> (r: RequestOutcome)
    ensures
        !(200 <= status < 300) ==> (r matches RequestOutcome::TransportFailed {
            status: st,
            body: b,
        } && st == status && b@ == body@),
        200 <= status < 300 ==> match envelope_of(body@) {
            Some(e) => {
                if e.0 != "00000"@ {
                    r matches RequestOutcome::ExchangeRejected(err) && err.code@ == e.0
                        && err.msg@ == e.1 && err.request_id@ == e.2
                } else {
                    r matches RequestOutcome::Succeeded(p) && p@ == body@
                }
            },
            None => r matches RequestOutcome::Succeeded(p) && p@ == body@,
        },
{
    if status < 200 || status >= 300 {
        return RequestOutcome::TransportFailed { status, body };
    }
    match crate::exceptions::parse_error_response(body.as_str()) {
        Some(err) => RequestOutcome::ExchangeRejected(err),
        None => RequestOutcome::Succeeded(body),
    }
}

/// Gate a response on its HTTP status, as the dispatcher does: a 2xx
/// status hands the raw body through, anything else is a transport
/// error carrying status and body. Exchange-level envelopes are left to
/// the error classifier.
pub fn check_status(status: u16, body: String) -> (r: Result<String, BitgetError>)
    ensures
        r is Ok <==> 200 <= status < 300,
        r matches Ok(t) ==> t@ == body@,
        r matches Err(e) ==> e matches BitgetError::Transport { status: st, body: b }
            && st == status && b@ == body@,
{
    if status >= 200 && status < 300 {
        Ok(body)
    } else {
        Err(BitgetError::Transport { status, body })
    }
}

} // verus!
