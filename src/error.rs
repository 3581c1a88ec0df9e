//! The library's error value and its kinds.
use vstd::prelude::*;
use vstd::string::StringExecFns;

verus! {

/// The kind of an error.
#[non_exhaustive]
#[derive(Debug, Clone, Copy, PartialEq, Eq)]
pub enum ErrorType {
    ApiError,
    Timeout,
    RateLimit,
    APIConnection,
    InvalidRequest,
    Authentication,
    ServiceUnavailable,
    DeserializationError,
    FileError,
    ReqwestError,
    SerializationError,
    Tokenizer,
    PolarsError,
    ParseError,
    SaveError,
    ParamError,
    Other,
}

impl ErrorType {
    /// The text that names the kind.
    pub open spec fn spec_str(self) -> Seq<char> {
        match self {
            ErrorType::ApiError => "API Error"@,
            ErrorType::Timeout => "Timeout"@,
            ErrorType::RateLimit => "Rate limit reached"@,
            ErrorType::APIConnection => "Issue connecting to API"@,
            ErrorType::InvalidRequest => "Invalid Request"@,
            ErrorType::Authentication => "Authentication"@,
            ErrorType::ServiceUnavailable => "Service Unavailable"@,
            ErrorType::ParseError => "Parse Error"@,
            ErrorType::SaveError => "Save Error"@,
            ErrorType::DeserializationError => "Deserialization Error"@,
            ErrorType::FileError => "File Error"@,
            ErrorType::ReqwestError => "Reqwest Error"@,
            ErrorType::SerializationError => "Serialization Error"@,
            ErrorType::Tokenizer => "Tokenizer Error"@,
            ErrorType::PolarsError => "Polars Error"@,
            ErrorType::ParamError => "Parameter Error"@,
            ErrorType::Other => "Other Error"@,
        }
    }

    pub fn to_str(&self) -> (r: &'static str)
        ensures
            r@ == self.spec_str(),
    {
        match self {
            ErrorType::ApiError => "API Error",
            ErrorType::Timeout => "Timeout",
            ErrorType::RateLimit => "Rate limit reached",
            ErrorType::APIConnection => "Issue connecting to API",
            ErrorType::InvalidRequest => "Invalid Request",
            ErrorType::Authentication => "Authentication",
            ErrorType::ServiceUnavailable => "Service Unavailable",
            ErrorType::ParseError => "Parse Error",
            ErrorType::SaveError => "Save Error",
            ErrorType::DeserializationError => "Deserialization Error",
            ErrorType::FileError => "File Error",
            ErrorType::ReqwestError => "Reqwest Error",
            ErrorType::SerializationError => "Serialization Error",
            ErrorType::Tokenizer => "Tokenizer Error",
            ErrorType::PolarsError => "Polars Error",
            ErrorType::ParamError => "Parameter Error",
            ErrorType::Other => "Other Error",
        }
    }

    /// The text that names the kind, as an owned string.
    pub fn to_string(&self) -> (r: String)
        ensures
            r@ == self.spec_str(),
    {
        self.to_str().to_owned()
    }
}

/// An error as the service reports it, or as this library reports its own.
#[derive(Debug, Clone, PartialEq, Eq)]
pub struct OairsError {
    pub message: String,
    pub error_type: String,
    pub param: Option<String>,
    pub code: Option<String>,
}

impl OairsError {
    pub fn new(message: String, error_type: ErrorType, param: Option<String>, code: Option<String>) -> (r: OairsError)
        ensures
            r.message == message,
            r.error_type@ == error_type.spec_str(),
            r.param == param,
            r.code == code,
    {
        OairsError { message, error_type: error_type.to_string(), param, code }
    }
}

/// How the service wraps an error in the body of a failed request.
#[derive(Debug, Clone, PartialEq, Eq)]
pub struct InvalidRequest {
    pub error: OairsError,
}

/// What the service said went wrong, added to the start of a message.
fn with_api_message(prefix: &str, message: &String) -> (r: String)
    ensures
        r@ == prefix@ + message@,
{
    let mut s = prefix.to_owned();
    s.append(message.as_str());
    s
}

/// The message of a rate-limit error that is not an exhausted request quota.
pub const OVERLOADED_MESSAGE: &'static str = "Status code 429 indicates that either the engine is currently overloaded or you have exceeded your current quota. Check your plan and billing. If you have not exceeded your quota, please try again later. If issue persists, please contact OpenAI support. API message: ";

/// The error for a request that the service refused with `status`.
/// `status_text` is the status as text (`429 Too Many Requests`), `message`,
/// `param` and `api_code` are what the service's body says, and
/// `remaining_requests` and `reset_requests` are the rate-limit headers.
pub fn api_error(
    status: u16,
    status_text: &str,
    message: String,
    param: Option<String>,
    api_code: Option<String>,
    remaining_requests: Option<u32>,
    reset_requests: Option<String>,
) -> (r: OairsError)
    ensures
        r.code matches Some(c) && c@ == status_text@ + " "@ + (match api_code {
            Some(a) => a@,
            None => Seq::<char>::empty(),
        }),
        status == 429 && remaining_requests == Some(0u32) ==> r.error_type@ == ErrorType::RateLimit.spec_str()
            && r.message@ == "Rate limit exceeded. API message: "@ + message@ && r.param == reset_requests,
        status == 429 && (remaining_requests matches Some(n) && n != 0) ==> r.error_type@
            == ErrorType::RateLimit.spec_str() && r.message@ == OVERLOADED_MESSAGE@ + message@ && r.param
            == param,
        status == 429 && remaining_requests is None ==> r.error_type@ == ErrorType::RateLimit.spec_str()
            && r.message@ == "429 - Rate Limit. API message: "@ + message@ && r.param == param,
        status == 503 ==> r.error_type@ == ErrorType::ServiceUnavailable.spec_str() && r.message@
            == "Service Unavailable. API message: "@ + message@ && r.param == param,
        status == 401 ==> r.error_type@ == ErrorType::Authentication.spec_str() && r.param == param
            && r.message@ == (if message@ == "Invalid authorization header"@ {
            "Invalid authorization header. Did you forget to enter your API key?"@
        } else {
            message@
        }),
        status == 404 ==> r.error_type@ == ErrorType::InvalidRequest.spec_str() && r.message == message
            && r.param == param,
        status != 429 && status != 503 && status != 401 && status != 404 ==> r.error_type@
            == ErrorType::Other.spec_str() && r.message == message && r.param == param,
{
    let mut code = status_text.to_owned();
    code.append(" ");
    match &api_code {
        Some(a) => code.append(a.as_str()),
        None => {},
    }
    assert(code@ == status_text@ + " "@ + (match api_code {
        Some(a) => a@,
        None => Seq::<char>::empty(),
    })) by {
        if api_code is None {
            assert(status_text@ + " "@ + Seq::<char>::empty() =~= status_text@ + " "@);
        }
    }
    if status == 429 {
        match remaining_requests {
            Some(0) => OairsError::new(
                with_api_message("Rate limit exceeded. API message: ", &message),
                ErrorType::RateLimit,
                reset_requests,
                Some(code),
            ),
            Some(_) => OairsError::new(
                with_api_message(OVERLOADED_MESSAGE, &message),
                ErrorType::RateLimit,
                param,
                Some(code),
            ),
            None => OairsError::new(
                with_api_message("429 - Rate Limit. API message: ", &message),
                ErrorType::RateLimit,
                param,
                Some(code),
            ),
        }
    } else if status == 503 {
        OairsError::new(
            with_api_message("Service Unavailable. API message: ", &message),
            ErrorType::ServiceUnavailable,
            param,
            Some(code),
        )
    } else if status == 401 {
        let message = if crate::models::str_eq(message.as_str(), "Invalid authorization header") {
            "Invalid authorization header. Did you forget to enter your API key?".to_owned()
        } else {
            message
        };
        OairsError::new(message, ErrorType::Authentication, param, Some(code))
    } else if status == 404 {
        OairsError::new(message, ErrorType::InvalidRequest, param, Some(code))
    } else {
        OairsError::new(message, ErrorType::Other, param, Some(code))
    }
}

/// The service's own error, with `status` as its code when it gives none.
pub fn with_status_code(error: OairsError, status: String) -> (r: OairsError)
    ensures
        error.code is None ==> r == (OairsError { code: Some(status), ..error }),
        error.code is Some ==> r == error,
{
    match error.code {
        None => OairsError { code: Some(status), ..error },
        Some(_) => error,
    }
}

} // verus!
