use http_message::Status;

#[test]
fn status_registry_codes_and_phrases() {
    assert_eq!(Status::Continue.code(), 100);
    assert_eq!(Status::Continue.text(), "Continue");
    assert_eq!(Status::SwitchingProtocols.code(), 101);
    assert_eq!(Status::SwitchingProtocols.text(), "Switching Protocols");
    assert_eq!(Status::Processing.code(), 102);
    assert_eq!(Status::Processing.text(), "Processing");
    assert_eq!(Status::EarlyHints.code(), 103);
    assert_eq!(Status::EarlyHints.text(), "Early Hints");
    assert_eq!(Status::Okay.code(), 200);
    assert_eq!(Status::Okay.text(), "OK");
    assert_eq!(Status::Created.code(), 201);
    assert_eq!(Status::Created.text(), "Created");
    assert_eq!(Status::Accepted.code(), 202);
    assert_eq!(Status::Accepted.text(), "Accepted");
    assert_eq!(Status::NonAuthoritativeInformation.code(), 203);
    assert_eq!(Status::NonAuthoritativeInformation.text(), "Non-Authoritative Information");
    assert_eq!(Status::NoContent.code(), 204);
    assert_eq!(Status::NoContent.text(), "No Content");
    assert_eq!(Status::ResetContent.code(), 205);
    assert_eq!(Status::ResetContent.text(), "Reset Content");
    assert_eq!(Status::PartialContent.code(), 206);
    assert_eq!(Status::PartialContent.text(), "Partial Content");
    assert_eq!(Status::MultiStatus.code(), 207);
    assert_eq!(Status::MultiStatus.text(), "Multi-Status");
    assert_eq!(Status::AlreadyReported.code(), 208);
    assert_eq!(Status::AlreadyReported.text(), "Already Reported");
    assert_eq!(Status::IMUsed.code(), 226);
    assert_eq!(Status::IMUsed.text(), "IM Used");
    assert_eq!(Status::MultipleChoices.code(), 300);
    assert_eq!(Status::MultipleChoices.text(), "Multiple Choices");
    assert_eq!(Status::MovedPermanently.code(), 301);
    assert_eq!(Status::MovedPermanently.text(), "Moved Permanently");
    assert_eq!(Status::Found.code(), 302);
    assert_eq!(Status::Found.text(), "Found");
    assert_eq!(Status::SeeOther.code(), 303);
    assert_eq!(Status::SeeOther.text(), "See Other");
    assert_eq!(Status::NotModified.code(), 304);
    assert_eq!(Status::NotModified.text(), "Not Modified");
    assert_eq!(Status::UseProxy.code(), 305);
    assert_eq!(Status::UseProxy.text(), "Use Proxy");
    assert_eq!(Status::TemporaryRedirect.code(), 307);
    assert_eq!(Status::TemporaryRedirect.text(), "Temporary Redirect");
    assert_eq!(Status::PermanentRedirect.code(), 308);
    assert_eq!(Status::PermanentRedirect.text(), "Permanent Redirect");
    assert_eq!(Status::BadRequest.code(), 400);
    assert_eq!(Status::BadRequest.text(), "Bad Request");
    assert_eq!(Status::Unauthorized.code(), 401);
    assert_eq!(Status::Unauthorized.text(), "Unauthorized");
    assert_eq!(Status::PaymentRequired.code(), 402);
    assert_eq!(Status::PaymentRequired.text(), "Payment Required");
    assert_eq!(Status::Forbidden.code(), 403);
    assert_eq!(Status::Forbidden.text(), "Forbidden");
    assert_eq!(Status::NotFound.code(), 404);
    assert_eq!(Status::NotFound.text(), "Not Found");
    assert_eq!(Status::MethodNotAllowed.code(), 405);
    assert_eq!(Status::MethodNotAllowed.text(), "Method Not Allowed");
    assert_eq!(Status::NotAcceptable.code(), 406);
    assert_eq!(Status::NotAcceptable.text(), "Not Acceptable");
    assert_eq!(Status::ProxyAuthRequired.code(), 407);
    assert_eq!(Status::ProxyAuthRequired.text(), "Proxy Auth Required");
    assert_eq!(Status::RequestTimeout.code(), 408);
    assert_eq!(Status::RequestTimeout.text(), "Request Timeout");
    assert_eq!(Status::Conflict.code(), 409);
    assert_eq!(Status::Conflict.text(), "Conflict");
    assert_eq!(Status::Gone.code(), 410);
    assert_eq!(Status::Gone.text(), "Gone");
    assert_eq!(Status::LengthRequired.code(), 411);
    assert_eq!(Status::LengthRequired.text(), "Length Required");
    assert_eq!(Status::PreconditionFailed.code(), 412);
    assert_eq!(Status::PreconditionFailed.text(), "Precondition Failed");
    assert_eq!(Status::RequestEntityTooLarge.code(), 413);
    assert_eq!(Status::RequestEntityTooLarge.text(), "Request Entity Too Large");
    assert_eq!(Status::RequestURITooLong.code(), 414);
    assert_eq!(Status::RequestURITooLong.text(), "Request URI Too Long");
    assert_eq!(Status::UnsupportedMediaType.code(), 415);
    assert_eq!(Status::UnsupportedMediaType.text(), "Unsupported Media Type");
    assert_eq!(Status::RequestedRangeNotSatisfiable.code(), 416);
    assert_eq!(Status::RequestedRangeNotSatisfiable.text(), "Requested Range Not Satisfiable");
    assert_eq!(Status::ExpectationFailed.code(), 417);
    assert_eq!(Status::ExpectationFailed.text(), "Expectation Failed");
    assert_eq!(Status::Teapot.code(), 418);
    assert_eq!(Status::Teapot.text(), "I'm a teapot");
    assert_eq!(Status::MisdirectedRequest.code(), 421);
    assert_eq!(Status::MisdirectedRequest.text(), "Misdirected Request");
    assert_eq!(Status::UnprocessableEntity.code(), 422);
    assert_eq!(Status::UnprocessableEntity.text(), "Unprocessable Entity");
    assert_eq!(Status::Locked.code(), 423);
    assert_eq!(Status::Locked.text(), "Locked");
    assert_eq!(Status::FailedDependency.code(), 424);
    assert_eq!(Status::FailedDependency.text(), "Failed Dependency");
    assert_eq!(Status::TooEarly.code(), 425);
    assert_eq!(Status::TooEarly.text(), "Too Early");
    assert_eq!(Status::UpgradeRequired.code(), 426);
    assert_eq!(Status::UpgradeRequired.text(), "Upgrade Required");
    assert_eq!(Status::PreconditionRequired.code(), 428);
    assert_eq!(Status::PreconditionRequired.text(), "Precondition Required");
    assert_eq!(Status::TooManyRequests.code(), 429);
    assert_eq!(Status::TooManyRequests.text(), "TooMany Requests");
    assert_eq!(Status::RequestHeaderFieldsTooLarge.code(), 431);
    assert_eq!(Status::RequestHeaderFieldsTooLarge.text(), "Request Header Fields Too Large");
    assert_eq!(Status::UnavailableForLegalReasons.code(), 451);
    assert_eq!(Status::UnavailableForLegalReasons.text(), "Unavailable For Legal Reasons");
    assert_eq!(Status::InternalServerError.code(), 500);
    assert_eq!(Status::InternalServerError.text(), "Internal Server Error");
    assert_eq!(Status::NotImplemented.code(), 501);
    assert_eq!(Status::NotImplemented.text(), "Not Implemented");
    assert_eq!(Status::BadGateway.code(), 502);
    assert_eq!(Status::BadGateway.text(), "Bad Gateway");
    assert_eq!(Status::ServiceUnavailable.code(), 503);
    assert_eq!(Status::ServiceUnavailable.text(), "Service Unavailable");
    assert_eq!(Status::GatewayTimeout.code(), 504);
    assert_eq!(Status::GatewayTimeout.text(), "Gateway Timeout");
    assert_eq!(Status::HTTPVersionNotSupported.code(), 505);
    assert_eq!(Status::HTTPVersionNotSupported.text(), "HTTP Version Not Supported");
    assert_eq!(Status::VariantAlsoNegotiates.code(), 506);
    assert_eq!(Status::VariantAlsoNegotiates.text(), "Variant Also Negotiates");
    assert_eq!(Status::InsufficientStorage.code(), 507);
    assert_eq!(Status::InsufficientStorage.text(), "Insufficient Storage");
    assert_eq!(Status::LoopDetected.code(), 508);
    assert_eq!(Status::LoopDetected.text(), "Loop Detected");
    assert_eq!(Status::NotExtended.code(), 510);
    assert_eq!(Status::NotExtended.text(), "Not Extended");
    assert_eq!(Status::NetworkAuthenticationRequired.code(), 511);
    assert_eq!(Status::NetworkAuthenticationRequired.text(), "Network Authentication Required");
}

#[test]
fn status_teapot_and_rate_limit_phrases() {
    assert_eq!(Status::Teapot.code(), 418);
    assert_eq!(Status::Teapot.text(), "I'm a teapot");
    assert_eq!(Status::TooManyRequests.code(), 429);
    assert_eq!(Status::TooManyRequests.text(), "TooMany Requests");
}
