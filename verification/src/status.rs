//! The closed registry of HTTP status codes and their reason phrases
//! (the IANA registry subset in the 100-511 range, WebDAV and rate-limit
//! codes included).

use vstd::prelude::*;

verus! {

/// A registered HTTP status, each with a fixed numeric code and a fixed
/// reason phrase.
#[derive(Debug, Clone, Copy)]
pub enum Status {
    Continue,
    SwitchingProtocols,
    Processing,
    EarlyHints,
    Okay,
    Created,
    Accepted,
    NonAuthoritativeInformation,
    NoContent,
    ResetContent,
    PartialContent,
    MultiStatus,
    AlreadyReported,
    IMUsed,
    MultipleChoices,
    MovedPermanently,
    Found,
    SeeOther,
    NotModified,
    UseProxy,
    TemporaryRedirect,
    PermanentRedirect,
    BadRequest,
    Unauthorized,
    PaymentRequired,
    Forbidden,
    NotFound,
    MethodNotAllowed,
    NotAcceptable,
    ProxyAuthRequired,
    RequestTimeout,
    Conflict,
    Gone,
    LengthRequired,
    PreconditionFailed,
    RequestEntityTooLarge,
    RequestURITooLong,
    UnsupportedMediaType,
    RequestedRangeNotSatisfiable,
    ExpectationFailed,
    Teapot,
    MisdirectedRequest,
    UnprocessableEntity,
    Locked,
    FailedDependency,
    TooEarly,
    UpgradeRequired,
    PreconditionRequired,
    TooManyRequests,
    RequestHeaderFieldsTooLarge,
    UnavailableForLegalReasons,
    InternalServerError,
    NotImplemented,
    BadGateway,
    ServiceUnavailable,
    GatewayTimeout,
    HTTPVersionNotSupported,
    VariantAlsoNegotiates,
    InsufficientStorage,
    LoopDetected,
    NotExtended,
    NetworkAuthenticationRequired,
}

/// The exact IANA numeric code of each status.
pub open spec fn status_code(s: Status) -> u16 {
    match s {
        Status::Continue => 100,
        Status::SwitchingProtocols => 101,
        Status::Processing => 102,
        Status::EarlyHints => 103,
        Status::Okay => 200,
        Status::Created => 201,
        Status::Accepted => 202,
        Status::NonAuthoritativeInformation => 203,
        Status::NoContent => 204,
        Status::ResetContent => 205,
        Status::PartialContent => 206,
        Status::MultiStatus => 207,
        Status::AlreadyReported => 208,
        Status::IMUsed => 226,
        Status::MultipleChoices => 300,
        Status::MovedPermanently => 301,
        Status::Found => 302,
        Status::SeeOther => 303,
        Status::NotModified => 304,
        Status::UseProxy => 305,
        Status::TemporaryRedirect => 307,
        Status::PermanentRedirect => 308,
        Status::BadRequest => 400,
        Status::Unauthorized => 401,
        Status::PaymentRequired => 402,
        Status::Forbidden => 403,
        Status::NotFound => 404,
        Status::MethodNotAllowed => 405,
        Status::NotAcceptable => 406,
        Status::ProxyAuthRequired => 407,
        Status::RequestTimeout => 408,
        Status::Conflict => 409,
        Status::Gone => 410,
        Status::LengthRequired => 411,
        Status::PreconditionFailed => 412,
        Status::RequestEntityTooLarge => 413,
        Status::RequestURITooLong => 414,
        Status::UnsupportedMediaType => 415,
        Status::RequestedRangeNotSatisfiable => 416,
        Status::ExpectationFailed => 417,
        Status::Teapot => 418,
        Status::MisdirectedRequest => 421,
        Status::UnprocessableEntity => 422,
        Status::Locked => 423,
        Status::FailedDependency => 424,
        Status::TooEarly => 425,
        Status::UpgradeRequired => 426,
        Status::PreconditionRequired => 428,
        Status::TooManyRequests => 429,
        Status::RequestHeaderFieldsTooLarge => 431,
        Status::UnavailableForLegalReasons => 451,
        Status::InternalServerError => 500,
        Status::NotImplemented => 501,
        Status::BadGateway => 502,
        Status::ServiceUnavailable => 503,
        Status::GatewayTimeout => 504,
        Status::HTTPVersionNotSupported => 505,
        Status::VariantAlsoNegotiates => 506,
        Status::InsufficientStorage => 507,
        Status::LoopDetected => 508,
        Status::NotExtended => 510,
        Status::NetworkAuthenticationRequired => 511,
    }
}

/// The canonical reason phrase of each status.
pub open spec fn status_text(s: Status) -> Seq<char> {
    match s {
        Status::Continue => "Continue"@,
        Status::SwitchingProtocols => "Switching Protocols"@,
        Status::Processing => "Processing"@,
        Status::EarlyHints => "Early Hints"@,
        Status::Okay => "OK"@,
        Status::Created => "Created"@,
        Status::Accepted => "Accepted"@,
        Status::NonAuthoritativeInformation => "Non-Authoritative Information"@,
        Status::NoContent => "No Content"@,
        Status::ResetContent => "Reset Content"@,
        Status::PartialContent => "Partial Content"@,
        Status::MultiStatus => "Multi-Status"@,
        Status::AlreadyReported => "Already Reported"@,
        Status::IMUsed => "IM Used"@,
        Status::MultipleChoices => "Multiple Choices"@,
        Status::MovedPermanently => "Moved Permanently"@,
        Status::Found => "Found"@,
        Status::SeeOther => "See Other"@,
        Status::NotModified => "Not Modified"@,
        Status::UseProxy => "Use Proxy"@,
        Status::TemporaryRedirect => "Temporary Redirect"@,
        Status::PermanentRedirect => "Permanent Redirect"@,
        Status::BadRequest => "Bad Request"@,
        Status::Unauthorized => "Unauthorized"@,
        Status::PaymentRequired => "Payment Required"@,
        Status::Forbidden => "Forbidden"@,
        Status::NotFound => "Not Found"@,
        Status::MethodNotAllowed => "Method Not Allowed"@,
        Status::NotAcceptable => "Not Acceptable"@,
        Status::ProxyAuthRequired => "Proxy Auth Required"@,
        Status::RequestTimeout => "Request Timeout"@,
        Status::Conflict => "Conflict"@,
        Status::Gone => "Gone"@,
        Status::LengthRequired => "Length Required"@,
        Status::PreconditionFailed => "Precondition Failed"@,
        Status::RequestEntityTooLarge => "Request Entity Too Large"@,
        Status::RequestURITooLong => "Request URI Too Long"@,
        Status::UnsupportedMediaType => "Unsupported Media Type"@,
        Status::RequestedRangeNotSatisfiable => "Requested Range Not Satisfiable"@,
        Status::ExpectationFailed => "Expectation Failed"@,
        Status::Teapot => "I'm a teapot"@,
        Status::MisdirectedRequest => "Misdirected Request"@,
        Status::UnprocessableEntity => "Unprocessable Entity"@,
        Status::Locked => "Locked"@,
        Status::FailedDependency => "Failed Dependency"@,
        Status::TooEarly => "Too Early"@,
        Status::UpgradeRequired => "Upgrade Required"@,
        Status::PreconditionRequired => "Precondition Required"@,
        Status::TooManyRequests => "TooMany Requests"@,
        Status::RequestHeaderFieldsTooLarge => "Request Header Fields Too Large"@,
        Status::UnavailableForLegalReasons => "Unavailable For Legal Reasons"@,
        Status::InternalServerError => "Internal Server Error"@,
        Status::NotImplemented => "Not Implemented"@,
        Status::BadGateway => "Bad Gateway"@,
        Status::ServiceUnavailable => "Service Unavailable"@,
        Status::GatewayTimeout => "Gateway Timeout"@,
        Status::HTTPVersionNotSupported => "HTTP Version Not Supported"@,
        Status::VariantAlsoNegotiates => "Variant Also Negotiates"@,
        Status::InsufficientStorage => "Insufficient Storage"@,
        Status::LoopDetected => "Loop Detected"@,
        Status::NotExtended => "Not Extended"@,
        Status::NetworkAuthenticationRequired => "Network Authentication Required"@,
    }
}

impl Status {
    /// The numeric code: a total, infallible lookup in the closed registry.
    pub fn code(&self) -> (r: u16)
        ensures
            r == status_code(*self),
    {
        match self {
            Status::Continue => 100,
            Status::SwitchingProtocols => 101,
            Status::Processing => 102,
            Status::EarlyHints => 103,
            Status::Okay => 200,
            Status::Created => 201,
            Status::Accepted => 202,
            Status::NonAuthoritativeInformation => 203,
            Status::NoContent => 204,
            Status::ResetContent => 205,
            Status::PartialContent => 206,
            Status::MultiStatus => 207,
            Status::AlreadyReported => 208,
            Status::IMUsed => 226,
            Status::MultipleChoices => 300,
            Status::MovedPermanently => 301,
            Status::Found => 302,
            Status::SeeOther => 303,
            Status::NotModified => 304,
            Status::UseProxy => 305,
            Status::TemporaryRedirect => 307,
            Status::PermanentRedirect => 308,
            Status::BadRequest => 400,
            Status::Unauthorized => 401,
            Status::PaymentRequired => 402,
            Status::Forbidden => 403,
            Status::NotFound => 404,
            Status::MethodNotAllowed => 405,
            Status::NotAcceptable => 406,
            Status::ProxyAuthRequired => 407,
            Status::RequestTimeout => 408,
            Status::Conflict => 409,
            Status::Gone => 410,
            Status::LengthRequired => 411,
            Status::PreconditionFailed => 412,
            Status::RequestEntityTooLarge => 413,
            Status::RequestURITooLong => 414,
            Status::UnsupportedMediaType => 415,
            Status::RequestedRangeNotSatisfiable => 416,
            Status::ExpectationFailed => 417,
            Status::Teapot => 418,
            Status::MisdirectedRequest => 421,
            Status::UnprocessableEntity => 422,
            Status::Locked => 423,
            Status::FailedDependency => 424,
            Status::TooEarly => 425,
            Status::UpgradeRequired => 426,
            Status::PreconditionRequired => 428,
            Status::TooManyRequests => 429,
            Status::RequestHeaderFieldsTooLarge => 431,
            Status::UnavailableForLegalReasons => 451,
            Status::InternalServerError => 500,
            Status::NotImplemented => 501,
            Status::BadGateway => 502,
            Status::ServiceUnavailable => 503,
            Status::GatewayTimeout => 504,
            Status::HTTPVersionNotSupported => 505,
            Status::VariantAlsoNegotiates => 506,
            Status::InsufficientStorage => 507,
            Status::LoopDetected => 508,
            Status::NotExtended => 510,
            Status::NetworkAuthenticationRequired => 511,
        }
    }

    /// The reason phrase: a total, infallible lookup in the closed registry.
    pub fn text(&self) -> (r: String)
        ensures
            r@ == status_text(*self),
    {
        match self {
            Status::Continue => String::from_str("Continue"),
            Status::SwitchingProtocols => String::from_str("Switching Protocols"),
            Status::Processing => String::from_str("Processing"),
            Status::EarlyHints => String::from_str("Early Hints"),
            Status::Okay => String::from_str("OK"),
            Status::Created => String::from_str("Created"),
            Status::Accepted => String::from_str("Accepted"),
            Status::NonAuthoritativeInformation => String::from_str("Non-Authoritative Information"),
            Status::NoContent => String::from_str("No Content"),
            Status::ResetContent => String::from_str("Reset Content"),
            Status::PartialContent => String::from_str("Partial Content"),
            Status::MultiStatus => String::from_str("Multi-Status"),
            Status::AlreadyReported => String::from_str("Already Reported"),
            Status::IMUsed => String::from_str("IM Used"),
            Status::MultipleChoices => String::from_str("Multiple Choices"),
            Status::MovedPermanently => String::from_str("Moved Permanently"),
            Status::Found => String::from_str("Found"),
            Status::SeeOther => String::from_str("See Other"),
            Status::NotModified => String::from_str("Not Modified"),
            Status::UseProxy => String::from_str("Use Proxy"),
            Status::TemporaryRedirect => String::from_str("Temporary Redirect"),
            Status::PermanentRedirect => String::from_str("Permanent Redirect"),
            Status::BadRequest => String::from_str("Bad Request"),
            Status::Unauthorized => String::from_str("Unauthorized"),
            Status::PaymentRequired => String::from_str("Payment Required"),
            Status::Forbidden => String::from_str("Forbidden"),
            Status::NotFound => String::from_str("Not Found"),
            Status::MethodNotAllowed => String::from_str("Method Not Allowed"),
            Status::NotAcceptable => String::from_str("Not Acceptable"),
            Status::ProxyAuthRequired => String::from_str("Proxy Auth Required"),
            Status::RequestTimeout => String::from_str("Request Timeout"),
            Status::Conflict => String::from_str("Conflict"),
            Status::Gone => String::from_str("Gone"),
            Status::LengthRequired => String::from_str("Length Required"),
            Status::PreconditionFailed => String::from_str("Precondition Failed"),
            Status::RequestEntityTooLarge => String::from_str("Request Entity Too Large"),
            Status::RequestURITooLong => String::from_str("Request URI Too Long"),
            Status::UnsupportedMediaType => String::from_str("Unsupported Media Type"),
            Status::RequestedRangeNotSatisfiable => String::from_str("Requested Range Not Satisfiable"),
            Status::ExpectationFailed => String::from_str("Expectation Failed"),
            Status::Teapot => String::from_str("I'm a teapot"),
            Status::MisdirectedRequest => String::from_str("Misdirected Request"),
            Status::UnprocessableEntity => String::from_str("Unprocessable Entity"),
            Status::Locked => String::from_str("Locked"),
            Status::FailedDependency => String::from_str("Failed Dependency"),
            Status::TooEarly => String::from_str("Too Early"),
            Status::UpgradeRequired => String::from_str("Upgrade Required"),
            Status::PreconditionRequired => String::from_str("Precondition Required"),
            Status::TooManyRequests => String::from_str("TooMany Requests"),
            Status::RequestHeaderFieldsTooLarge => String::from_str("Request Header Fields Too Large"),
            Status::UnavailableForLegalReasons => String::from_str("Unavailable For Legal Reasons"),
            Status::InternalServerError => String::from_str("Internal Server Error"),
            Status::NotImplemented => String::from_str("Not Implemented"),
            Status::BadGateway => String::from_str("Bad Gateway"),
            Status::ServiceUnavailable => String::from_str("Service Unavailable"),
            Status::GatewayTimeout => String::from_str("Gateway Timeout"),
            Status::HTTPVersionNotSupported => String::from_str("HTTP Version Not Supported"),
            Status::VariantAlsoNegotiates => String::from_str("Variant Also Negotiates"),
            Status::InsufficientStorage => String::from_str("Insufficient Storage"),
            Status::LoopDetected => String::from_str("Loop Detected"),
            Status::NotExtended => String::from_str("Not Extended"),
            Status::NetworkAuthenticationRequired => String::from_str("Network Authentication Required"),
        }
    }
}

} // verus!
