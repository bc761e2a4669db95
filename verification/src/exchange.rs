//! The token-refresh exchange: building the form-encoded request body from
//! resolved parameters, and interpreting the response body.
use vstd::prelude::*;
use crate::errors::RefreshError;
use crate::params::ParameterMap;
use crate::request::EventBridgePayload;
use crate::token::Token;

verus! {

/// What one HTTP exchange came back with: a response body, or no response
/// at all. The status code is observed for logging only and does not gate
/// how the body is interpreted.
pub enum HttpOutcome {
    Response(String),
    TransportFailure,
}

/// The form-url-encoding of the four refresh-request pairs `client_id`,
/// `scope`, `refresh_token` and `grant_type=refresh_token`, as a function
/// of the three variable values.
pub uninterp spec fn refresh_form_encoding(
    client_id: Seq<char>,
    scope: Seq<char>,
    refresh_token: Seq<char>,
) -> Seq<char>;

/// Relies on serde_urlencoded::to_string: the encoding depends on the pairs
/// alone, and pairs of plain strings always serialize (the error arm is
/// unreachable for them).
#[verifier::external_body]
pub(crate) fn encode_refresh_form(client_id: &str, scope: &str, refresh_token: &str) -> (r: String)
    ensures
        r@ == refresh_form_encoding(client_id@, scope@, refresh_token@),
{
    let pairs = [
        ("client_id", client_id),
        ("scope", scope),
        ("refresh_token", refresh_token),
        ("grant_type", "refresh_token"),
    ];
    match serde_urlencoded::to_string(pairs) {
        Ok(s) => s,
        Err(_) => String::new(),
    }
}

/// What serde_json makes of a refresh response body: the three token fields
/// when the body is a JSON object carrying all three as strings, nothing
/// otherwise.
pub uninterp spec fn parsed_token_fields(body: Seq<char>) -> Option<
    (Seq<char>, Seq<char>, Seq<char>),
>;

/// Relies on serde_json: parsing is a function of the body text alone, and
/// yields the fields exactly when the body is a JSON object with string
/// fields `access_token`, `refresh_token` and `id_token`.
#[verifier::external_body]
fn parse_token_body(body: &str) -> (r: Option<Token>)
    ensures
        match r {
            Some(t) => parsed_token_fields(body@) == Some(
                (t.access_token@, t.refresh_token@, t.id_token@),
            ),
            None => parsed_token_fields(body@) is None,
        },
{
    let v: serde_json::Value = match serde_json::from_str(body) {
        Ok(v) => v,
        Err(_) => return None,
    };
    let access_token = v.get("access_token")?.as_str()?.to_owned();
    let refresh_token = v.get("refresh_token")?.as_str()?.to_owned();
    let id_token = v.get("id_token")?.as_str()?.to_owned();
    Some(Token { access_token, refresh_token, id_token })
}

/// One planned refresh exchange: the endpoint, the three resolved values,
/// and the form-encoded request body built from them.
pub struct RefreshCall {
    pub endpoint: String,
    pub client_id: String,
    pub scope: String,
    pub refresh_token: String,
    pub body: String,
}

/// Plan the single refresh exchange of an invocation from the resolved
/// parameters: the three dependency values are read at the configured keys,
/// and missing any of them is a fatal configuration error, reported for the
/// first missing key in the order client id, scope, refresh token.
pub fn plan_refresh(request: &EventBridgePayload, params: &ParameterMap) -> (r: Result<
    RefreshCall,
    RefreshError,
>)
    requires
        params.wf(),
    ensures
        r is Ok <==> (params@.contains_key(request.cid_path@) && params@.contains_key(
            request.scope_path@,
        ) && params@.contains_key(request.r_tok_path@)),
        r matches Ok(c) ==> c.endpoint@ == request.app_endpoint@ && c.client_id@
            == params@[request.cid_path@] && c.scope@ == params@[request.scope_path@]
            && c.refresh_token@ == params@[request.r_tok_path@] && c.body@
            == refresh_form_encoding(
            params@[request.cid_path@],
            params@[request.scope_path@],
            params@[request.r_tok_path@],
        ),
        !params@.contains_key(request.cid_path@) ==> (r matches Err(e) && e matches
            RefreshError::Config(k) && k@ == request.cid_path@),
        params@.contains_key(request.cid_path@) && !params@.contains_key(request.scope_path@) ==> (
        r matches Err(e) && e matches RefreshError::Config(k) && k@ == request.scope_path@),
        params@.contains_key(request.cid_path@) && params@.contains_key(request.scope_path@)
            && !params@.contains_key(request.r_tok_path@) ==> (r matches Err(e) && e matches
            RefreshError::Config(k) && k@ == request.r_tok_path@),
{
    let client_id = match params.get(request.cid_path.as_str()) {
        Some(v) => v.clone(),
        None => {
            return Err(RefreshError::Config(request.cid_path.clone()));
        },
    };
    let scope = match params.get(request.scope_path.as_str()) {
        Some(v) => v.clone(),
        None => {
            return Err(RefreshError::Config(request.scope_path.clone()));
        },
    };
    let refresh_token = match params.get(request.r_tok_path.as_str()) {
        Some(v) => v.clone(),
        None => {
            return Err(RefreshError::Config(request.r_tok_path.clone()));
        },
    };
    let body = encode_refresh_form(client_id.as_str(), scope.as_str(), refresh_token.as_str());
    Ok(
        RefreshCall {
            endpoint: request.app_endpoint.clone(),
            client_id,
            scope,
            refresh_token,
            body,
        },
    )
}

/// Interpret the outcome of the refresh exchange. A transport failure and a
/// body that does not parse into the three token fields both signal
/// `Exchange`; a well-formed body yields the invocation's only token set.
pub fn interpret_refresh_response(outcome: HttpOutcome) -> (r: Result<Token, RefreshError>)
    ensures
        outcome is TransportFailure ==> (r matches Err(e) && e is Exchange),
        outcome matches HttpOutcome::Response(b) ==> match r {
            Ok(t) => parsed_token_fields(b@) == Some(
                (t.access_token@, t.refresh_token@, t.id_token@),
            ),
            Err(e) => e is Exchange && parsed_token_fields(b@) is None,
        },
{
    match outcome {
        HttpOutcome::TransportFailure => Err(RefreshError::Exchange),
        HttpOutcome::Response(b) => match parse_token_body(b.as_str()) {
            Some(t) => Ok(t),
            None => Err(RefreshError::Exchange),
        },
    }
}

} // verus!
