//! Outbound API-call path: route resolution, request assembly and response
//! interpretation.

use vstd::prelude::*;

use crate::json::{JVal, JsonValue};
use crate::registry::Registry;
use crate::structs::{BotId, BotIdV};
use vstd::string::StringExecFns;

verus! {

/// Typed failure of an API call. `NotFound` also covers "no registry route
/// for this bot", kept apart from every transport concern.
#[derive(Debug, PartialEq)]
pub enum CallApiError {
    BadRequest,
    Unauthorized,
    Forbidden,
    NotFound,
    MethodNotAllowed,
    ServerError(u16),
    DeserializeFailed(String),
}

/// Mathematical view of an API-call error.
pub ghost enum CallApiErrorV {
    BadRequest,
    Unauthorized,
    Forbidden,
    NotFound,
    MethodNotAllowed,
    ServerError(u16),
    DeserializeFailed(Seq<char>),
}

impl View for CallApiError {
    type V = CallApiErrorV;

    open spec fn view(&self) -> CallApiErrorV {
        match self {
            CallApiError::BadRequest => CallApiErrorV::BadRequest,
            CallApiError::Unauthorized => CallApiErrorV::Unauthorized,
            CallApiError::Forbidden => CallApiErrorV::Forbidden,
            CallApiError::NotFound => CallApiErrorV::NotFound,
            CallApiError::MethodNotAllowed => CallApiErrorV::MethodNotAllowed,
            CallApiError::ServerError(c) => CallApiErrorV::ServerError(*c),
            CallApiError::DeserializeFailed(s) => CallApiErrorV::DeserializeFailed(s@),
        }
    }
}

/// HTTP status code that reports an API-call error to an HTTP caller.
pub open spec fn into_resp_spec(e: CallApiErrorV) -> u16 {
    match e {
        CallApiErrorV::BadRequest => 400,
        CallApiErrorV::Unauthorized => 401,
        CallApiErrorV::Forbidden => 403,
        CallApiErrorV::NotFound => 404,
        CallApiErrorV::MethodNotAllowed => 405,
        CallApiErrorV::ServerError(c) => c,
        CallApiErrorV::DeserializeFailed(_) => 400,
    }
}

impl CallApiError {
    /// The HTTP status and body with which this error answers an HTTP
    /// caller: the mapped status code and an empty body.
    pub fn into_resp(self) -> (r: (u16, String))
        ensures
            r.0 == into_resp_spec(self@),
            r.1@ == Seq::<char>::empty(),
    {
        let code: u16 = match &self {
            CallApiError::BadRequest => 400,
            CallApiError::Unauthorized => 401,
            CallApiError::Forbidden => 403,
            CallApiError::NotFound => 404,
            CallApiError::MethodNotAllowed => 405,
            CallApiError::ServerError(c) => *c,
            CallApiError::DeserializeFailed(_) => 400,
        };
        (code, String::new())
    }
}

/// An assembled outbound API request: POST to
/// `http://{host}:{port}/v1/{api}` with these headers and JSON body. The
/// transport outside this crate performs it verbatim.
#[derive(Debug, PartialEq)]
pub struct ApiRequest {
    pub host: String,
    pub port: u16,
    pub api: String,
    pub headers: Vec<(String, String)>,
    pub body: JsonValue,
}

/// Mathematical view of an assembled request.
pub ghost struct ApiRequestV {
    pub host: Seq<char>,
    pub port: u16,
    pub api: Seq<char>,
    pub headers: Seq<(Seq<char>, Seq<char>)>,
    pub body: JVal,
}

impl View for ApiRequest {
    type V = ApiRequestV;

    open spec fn view(&self) -> ApiRequestV {
        ApiRequestV {
            host: self.host@,
            port: self.port,
            api: self.api@,
            headers: self.headers.deep_view(),
            body: self.body@,
        }
    }
}

/// The headers an outbound call carries: the caller's identity, and the
/// route's bearer credential when it has one.
pub open spec fn request_headers_spec(bot: BotIdV, authorize: Option<Seq<char>>) -> Seq<
    (Seq<char>, Seq<char>),
> {
    let base = seq![
        ("Content-Type"@, "application/json"@),
        ("X-Platform"@, bot.platform),
        ("X-Self-ID"@, bot.id),
    ];
    match authorize {
        Some(token) => base + seq![("Authorization"@, "Bearer "@ + token)],
        None => base,
    }
}

/// Resolve a bot and assemble the outbound request for one API call.
///
/// An unregistered bot fails with `NotFound` before any request exists, so
/// no transport work can happen for it. For a registered bot the request
/// carries `X-Self-ID` and `X-Platform` from the bot identity and, when the
/// route is credentialed, `Authorization: Bearer {token}`.
pub fn prepare_call(reg: &Registry, api: &str, bot: &BotId, data: JsonValue) -> (r: Result<
    ApiRequest,
    CallApiError,
>)
    ensures
        match r {
            Ok(req) => {
                &&& reg.find(bot@) matches Some((ow, route)) && req@ == (ApiRequestV {
                    host: route.host,
                    port: route.port,
                    api: api@,
                    headers: request_headers_spec(bot@, route.authorize),
                    body: data@,
                })
            },
            Err(e) => reg.find(bot@) is None && e@ == CallApiErrorV::NotFound,
        },
{
    let route = match reg.lookup(bot) {
        Some(c) => c,
        None => {
            return Err(CallApiError::NotFound);
        },
    };
    let mut headers: Vec<(String, String)> = Vec::new();
    headers.push((String::from_str("Content-Type"), String::from_str("application/json")));
    headers.push((String::from_str("X-Platform"), bot.platform.clone()));
    headers.push((String::from_str("X-Self-ID"), bot.id.clone()));
    match &route.authorize {
        Some(token) => {
            let bearer = String::from_str("Bearer ").concat(token.as_str());
            headers.push((String::from_str("Authorization"), bearer));
            proof {
                assert(headers.deep_view() =~= request_headers_spec(bot@, route@.authorize));
            }
        },
        None => {
            proof {
                assert(headers.deep_view() =~= request_headers_spec(bot@, route@.authorize));
            }
        },
    }
    Ok(
        ApiRequest {
            host: route.host.clone(),
            port: route.port,
            api: String::from_str(api),
            headers,
            body: data,
        },
    )
}

/// Interpretation of the remote status: 200 returns the body; every other
/// status maps to the typed error taxonomy.
pub open spec fn response_error_spec(status: u16) -> CallApiErrorV {
    if status == 400 {
        CallApiErrorV::BadRequest
    } else if status == 401 {
        CallApiErrorV::Unauthorized
    } else if status == 403 {
        CallApiErrorV::Forbidden
    } else if status == 404 {
        CallApiErrorV::NotFound
    } else if status == 405 {
        CallApiErrorV::MethodNotAllowed
    } else {
        CallApiErrorV::ServerError(status)
    }
}

/// Interpret the remote answer to an API call: a 200 succeeds with the raw
/// body for the caller to decode; any other status is the typed error for
/// that status, if and only if the status is not 200.
pub fn interpret_response(status: u16, body: String) -> (r: Result<String, CallApiError>)
    ensures
        match r {
            Ok(s) => status == 200 && s@ == body@,
            Err(e) => status != 200 && e@ == response_error_spec(status),
        },
{
    if status == 200 {
        Ok(body)
    } else if status == 400 {
        Err(CallApiError::BadRequest)
    } else if status == 401 {
        Err(CallApiError::Unauthorized)
    } else if status == 403 {
        Err(CallApiError::Forbidden)
    } else if status == 404 {
        Err(CallApiError::NotFound)
    } else if status == 405 {
        Err(CallApiError::MethodNotAllowed)
    } else {
        Err(CallApiError::ServerError(status))
    }
}

} // verus!
