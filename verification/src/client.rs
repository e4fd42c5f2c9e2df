//! Coordinator Client: the configuration, request targets and response
//! shapes of the three HTTP operations (login, room creation), plus the
//! user-id convenience decode. The HTTP transfer itself is left to the
//! embedding application; everything here is the protocol content of those
//! calls.

use vstd::prelude::*;
use vstd::string::StringExecFns;
use crate::errors::HathoraError;
use crate::json::field_value;
use crate::json::object_bytes;
use crate::json::plain_field_key;
use crate::json::state_id_key;
use crate::json::token_key;
use crate::json::bytes_to_string;
use crate::json::parse_string_field;
use crate::token::extract_user_id;
use crate::token::user_id_result;

verus! {

/// The coordinator host used when none is configured.
pub open spec fn default_coordinator_host() -> Seq<char> {
    "coordinator.hathora.dev"@
}

/// The default coordinator host, as a value.
pub fn default_host() -> (r: String)
    ensures
        r@ == default_coordinator_host(),
{
    "coordinator.hathora.dev".to_owned()
}

/// The URL of a login POST: `https://{host}/{app_id}/login/{method}`.
pub open spec fn login_url_spec(host: Seq<char>, app_id: Seq<char>, method: Seq<char>) -> Seq<
    char,
> {
    "https://"@ + host + "/"@ + app_id + "/login/"@ + method
}

/// The URL of a create POST: `https://{host}/{app_id}/create`.
pub open spec fn create_url_spec(host: Seq<char>, app_id: Seq<char>) -> Seq<char> {
    "https://"@ + host + "/"@ + app_id + "/create"@
}

/// A successful login response body: `{"token": <token>}`.
#[derive(Clone, Debug, PartialEq, Eq)]
pub struct LoginResponse {
    pub token: String,
}

/// What parsing a response body for one string field yields: the decoded
/// field value when the body is the expected JSON shape with a UTF-8
/// value, and `Protocol` otherwise.
pub open spec fn string_field_result(body: Seq<u8>, key: Seq<u8>) -> Result<
    Seq<char>,
    HathoraError,
> {
    match field_value(body, key) {
        Some(v) => if vstd::utf8::valid_utf8(v) {
            Ok(vstd::utf8::decode_utf8(v))
        } else {
            Err(HathoraError::Protocol)
        },
        None => Err(HathoraError::Protocol),
    }
}

/// Everything a create POST carries, fixed by the contract of
/// [`HathoraClient::create_request`]; the HTTP layer only has to send it.
pub struct CreateRequest {
    /// The request target.
    pub url: String,
    /// The `Authorization` header value: the raw bearer token.
    pub authorization: String,
    /// The `Content-Type` header value.
    pub content_type: String,
    /// The opaque room-configuration payload.
    pub body: Vec<u8>,
}

/// The client-side configuration of one coordinator application:
/// the application id and the coordinator host.
pub struct HathoraClient {
    app_id: String,
    coordinator_host: String,
}

impl HathoraClient {
    /// The configured application id.
    pub closed spec fn spec_app_id(self) -> Seq<char> {
        self.app_id@
    }

    /// The configured coordinator host.
    pub closed spec fn spec_host(self) -> Seq<char> {
        self.coordinator_host@
    }

    /// Configure a client for one application, with the default
    /// coordinator host when none is given.
    pub fn new(app_id: String, coordinator_host: Option<String>) -> (r: HathoraClient)
        ensures
            r.spec_app_id() == app_id@,
            match coordinator_host {
                Some(h) => r.spec_host() == h@,
                None => r.spec_host() == default_coordinator_host(),
            },
    {
        let host = match coordinator_host {
            Some(h) => h,
            None => "coordinator.hathora.dev".to_owned(),
        };
        HathoraClient { app_id, coordinator_host: host }
    }

    /// The configured application id.
    pub fn app_id(&self) -> (r: &str)
        ensures
            r@ == self.spec_app_id(),
    {
        self.app_id.as_str()
    }

    /// The configured coordinator host (the default one when none was
    /// given).
    pub fn coordinator_host(&self) -> (r: &str)
        ensures
            r@ == self.spec_host(),
    {
        self.coordinator_host.as_str()
    }

    fn login_url(&self, method: &str) -> (r: String)
        ensures
            r@ == login_url_spec(self.spec_host(), self.spec_app_id(), method@),
    {
        let mut url = String::new();
        url.append("https://");
        url.append(self.coordinator_host.as_str());
        url.append("/");
        url.append(self.app_id.as_str());
        url.append("/login/");
        url.append(method);
        proof {
            assert(url@ =~= login_url_spec(self.spec_host(), self.spec_app_id(), method@));
        }
        url
    }

    /// The target of an anonymous login.
    pub fn login_anonymous_url(&self) -> (r: String)
        ensures
            r@ == login_url_spec(self.spec_host(), self.spec_app_id(), "anonymous"@),
    {
        self.login_url("anonymous")
    }

    /// The target of a nickname login.
    pub fn login_nickname_url(&self) -> (r: String)
        ensures
            r@ == login_url_spec(self.spec_host(), self.spec_app_id(), "nickname"@),
    {
        self.login_url("nickname")
    }

    /// The target of a federated (Google) login.
    pub fn login_google_url(&self) -> (r: String)
        ensures
            r@ == login_url_spec(self.spec_host(), self.spec_app_id(), "google"@),
    {
        self.login_url("google")
    }

    /// The target of a room-creation POST.
    pub fn create_url(&self) -> (r: String)
        ensures
            r@ == create_url_spec(self.spec_host(), self.spec_app_id()),
    {
        let mut url = String::new();
        url.append("https://");
        url.append(self.coordinator_host.as_str());
        url.append("/");
        url.append(self.app_id.as_str());
        url.append("/create");
        proof {
            assert(url@ =~= create_url_spec(self.spec_host(), self.spec_app_id()));
        }
        url
    }

    /// Assemble the create POST: the target URL, an `Authorization`
    /// header carrying the raw token, a `Content-Type` of
    /// `application/octet-stream`, and the caller's opaque body, passed
    /// through unchanged.
    pub fn create_request(&self, token: &str, body: Vec<u8>) -> (r: CreateRequest)
        ensures
            r.url@ == create_url_spec(self.spec_host(), self.spec_app_id()),
            r.authorization@ == token@,
            r.content_type@ == "application/octet-stream"@,
            r.body@ == body@,
    {
        CreateRequest {
            url: self.create_url(),
            authorization: token.to_owned(),
            content_type: "application/octet-stream".to_owned(),
            body,
        }
    }

    /// Decode the user id from a bearer token, display-only; see
    /// [`crate::token::extract_user_id`].
    pub fn get_user_from_token(token: &str) -> (r: Result<String, HathoraError>)
        ensures
            ({
                let t = vstd::utf8::encode_utf8(token@);
                match r {
                    Ok(id) => user_id_result(t) matches Ok(v) && id@ == v,
                    Err(e) => user_id_result(t) matches Err(e2) && e == e2,
                }
            }),
    {
        extract_user_id(token)
    }
}

fn token_key_exec() -> (r: Vec<u8>)
    ensures
        r@ == token_key(),
{
    let mut k: Vec<u8> = Vec::new();
    k.push(116);  // t
    k.push(111);  // o
    k.push(107);  // k
    k.push(101);  // e
    k.push(110);  // n
    proof {
        assert(k@ =~= token_key());
    }
    k
}

fn state_id_key_exec() -> (r: Vec<u8>)
    ensures
        r@ == state_id_key(),
{
    let mut k: Vec<u8> = Vec::new();
    k.push(115);  // s
    k.push(116);  // t
    k.push(97);  // a
    k.push(116);  // t
    k.push(101);  // e
    k.push(73);  // I
    k.push(100);  // d
    proof {
        assert(k@ =~= state_id_key());
    }
    k
}

/// Parse a login response body `{"token": t}`: exactly
/// [`string_field_result`] on the `token` field, with `Protocol` for any
/// body of another shape (extra members included; the response is
/// documented as this one field).
pub fn parse_login_response(body: &[u8]) -> (r: Result<LoginResponse, HathoraError>)
    ensures
        match r {
            Ok(lr) => string_field_result(body@, token_key()) matches Ok(t) && lr.token@ == t,
            Err(e) => string_field_result(body@, token_key()) matches Err(e2) && e == e2,
        },
{
    let key = token_key_exec();
    match parse_string_field(body, key.as_slice()) {
        None => Err(HathoraError::Protocol),
        Some(v) => match bytes_to_string(v) {
            None => Err(HathoraError::Protocol),
            Some(token) => Ok(LoginResponse { token }),
        },
    }
}

/// Parse a create response body `{"stateId": s}`: exactly
/// [`string_field_result`] on the `stateId` field, with `Protocol` for any
/// body of another shape.
pub fn parse_create_response(body: &[u8]) -> (r: Result<String, HathoraError>)
    ensures
        match r {
            Ok(sid) => string_field_result(body@, state_id_key()) matches Ok(s) && sid@ == s,
            Err(e) => string_field_result(body@, state_id_key()) matches Err(e2) && e == e2,
        },
{
    let key = state_id_key_exec();
    match parse_string_field(body, key.as_slice()) {
        None => Err(HathoraError::Protocol),
        Some(v) => match bytes_to_string(v) {
            None => Err(HathoraError::Protocol),
            Some(state_id) => Ok(state_id),
        },
    }
}

/// Law: for every token string `t`, a login response that is the
/// canonical serialization of `{"token": t}` parses back to exactly `t`.
pub proof fn lemma_login_response_round_trip(t: Seq<char>)
    ensures
        string_field_result(
            object_bytes(token_key(), vstd::utf8::encode_utf8(t)),
            token_key(),
        ) == Ok::<Seq<char>, HathoraError>(t),
{
    broadcast use vstd::utf8::encode_utf8_valid_utf8, vstd::utf8::encode_utf8_decode_utf8;

    assert(plain_field_key(token_key()));
    crate::json::lemma_field_round_trip(token_key(), vstd::utf8::encode_utf8(t));
}

/// Law: for every session identifier `s`, a create response that is the
/// canonical serialization of `{"stateId": s}` parses back to exactly `s`,
/// whatever request body the create call carried.
pub proof fn lemma_create_response_round_trip(s: Seq<char>)
    ensures
        string_field_result(
            object_bytes(state_id_key(), vstd::utf8::encode_utf8(s)),
            state_id_key(),
        ) == Ok::<Seq<char>, HathoraError>(s),
{
    broadcast use vstd::utf8::encode_utf8_valid_utf8, vstd::utf8::encode_utf8_decode_utf8;

    assert(plain_field_key(state_id_key()));
    crate::json::lemma_field_round_trip(state_id_key(), vstd::utf8::encode_utf8(s));
}

} // verus!
