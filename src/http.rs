use vstd::prelude::*;

verus! {

/// Response status codes that the server emits.
#[derive(Clone, Copy, Debug, PartialEq, Eq, Structural)]
pub enum StatusCode {
    Continue,
    SwitchingProtocols,
    Processing,
    EarlyHints,
    OK,
    Created,
    Accepted,
    NonAuthoritativeInformation,
    NoContent,
    ResetContent,
    PartialContent,
    MovedPermanently,
    Found,
    SeeOther,
    NotModified,
    TemporaryRedirect,
    PermanentRedirect,
    BadRequest,
    Unauthorized,
    PaymentRequired,
    Forbidden,
    NotFound,
    MethodNotAllowed,
    NotAcceptable,
    ProxyAuthenticationRequired,
    RequestTimeout,
    Conflict,
    Gone,
    LengthRequired,
    PreconditionFailed,
    ContentTooLarge,
    URITooLong,
    UnsupportedMediaType,
    TooManyRequests,
    InternalServerError,
    NotImplemented,
    BadGateway,
    ServiceUnavailable,
    GatewayTimeout,
    HTTPVersionNotSupported,
}

/// The numeric code of each status.
pub open spec fn status_number(s: StatusCode) -> u16 {
    match s {
        StatusCode::Continue => 100,
        StatusCode::SwitchingProtocols => 101,
        StatusCode::Processing => 102,
        StatusCode::EarlyHints => 103,
        StatusCode::OK => 200,
        StatusCode::Created => 201,
        StatusCode::Accepted => 202,
        StatusCode::NonAuthoritativeInformation => 203,
        StatusCode::NoContent => 204,
        StatusCode::ResetContent => 205,
        StatusCode::PartialContent => 206,
        StatusCode::MovedPermanently => 301,
        StatusCode::Found => 302,
        StatusCode::SeeOther => 303,
        StatusCode::NotModified => 304,
        StatusCode::TemporaryRedirect => 307,
        StatusCode::PermanentRedirect => 308,
        StatusCode::BadRequest => 400,
        StatusCode::Unauthorized => 401,
        StatusCode::PaymentRequired => 402,
        StatusCode::Forbidden => 403,
        StatusCode::NotFound => 404,
        StatusCode::MethodNotAllowed => 405,
        StatusCode::NotAcceptable => 406,
        StatusCode::ProxyAuthenticationRequired => 407,
        StatusCode::RequestTimeout => 408,
        StatusCode::Conflict => 409,
        StatusCode::Gone => 410,
        StatusCode::LengthRequired => 411,
        StatusCode::PreconditionFailed => 412,
        StatusCode::ContentTooLarge => 413,
        StatusCode::URITooLong => 414,
        StatusCode::UnsupportedMediaType => 415,
        StatusCode::TooManyRequests => 429,
        StatusCode::InternalServerError => 500,
        StatusCode::NotImplemented => 501,
        StatusCode::BadGateway => 502,
        StatusCode::ServiceUnavailable => 503,
        StatusCode::GatewayTimeout => 504,
        StatusCode::HTTPVersionNotSupported => 505,
    }
}

/// The status whose numeric code is `n`, if the table has one.
pub open spec fn status_of_number(n: u16) -> Option<StatusCode> {
    if n == 100 {
        Some(StatusCode::Continue)
    } else if n == 101 {
        Some(StatusCode::SwitchingProtocols)
    } else if n == 102 {
        Some(StatusCode::Processing)
    } else if n == 103 {
        Some(StatusCode::EarlyHints)
    } else if n == 200 {
        Some(StatusCode::OK)
    } else if n == 201 {
        Some(StatusCode::Created)
    } else if n == 202 {
        Some(StatusCode::Accepted)
    } else if n == 203 {
        Some(StatusCode::NonAuthoritativeInformation)
    } else if n == 204 {
        Some(StatusCode::NoContent)
    } else if n == 205 {
        Some(StatusCode::ResetContent)
    } else if n == 206 {
        Some(StatusCode::PartialContent)
    } else if n == 301 {
        Some(StatusCode::MovedPermanently)
    } else if n == 302 {
        Some(StatusCode::Found)
    } else if n == 303 {
        Some(StatusCode::SeeOther)
    } else if n == 304 {
        Some(StatusCode::NotModified)
    } else if n == 307 {
        Some(StatusCode::TemporaryRedirect)
    } else if n == 308 {
        Some(StatusCode::PermanentRedirect)
    } else if n == 400 {
        Some(StatusCode::BadRequest)
    } else if n == 401 {
        Some(StatusCode::Unauthorized)
    } else if n == 402 {
        Some(StatusCode::PaymentRequired)
    } else if n == 403 {
        Some(StatusCode::Forbidden)
    } else if n == 404 {
        Some(StatusCode::NotFound)
    } else if n == 405 {
        Some(StatusCode::MethodNotAllowed)
    } else if n == 406 {
        Some(StatusCode::NotAcceptable)
    } else if n == 407 {
        Some(StatusCode::ProxyAuthenticationRequired)
    } else if n == 408 {
        Some(StatusCode::RequestTimeout)
    } else if n == 409 {
        Some(StatusCode::Conflict)
    } else if n == 410 {
        Some(StatusCode::Gone)
    } else if n == 411 {
        Some(StatusCode::LengthRequired)
    } else if n == 412 {
        Some(StatusCode::PreconditionFailed)
    } else if n == 413 {
        Some(StatusCode::ContentTooLarge)
    } else if n == 414 {
        Some(StatusCode::URITooLong)
    } else if n == 415 {
        Some(StatusCode::UnsupportedMediaType)
    } else if n == 429 {
        Some(StatusCode::TooManyRequests)
    } else if n == 500 {
        Some(StatusCode::InternalServerError)
    } else if n == 501 {
        Some(StatusCode::NotImplemented)
    } else if n == 502 {
        Some(StatusCode::BadGateway)
    } else if n == 503 {
        Some(StatusCode::ServiceUnavailable)
    } else if n == 504 {
        Some(StatusCode::GatewayTimeout)
    } else if n == 505 {
        Some(StatusCode::HTTPVersionNotSupported)
    } else {
        None
    }
}

impl StatusCode {
    /// The numeric code of this status.
    pub fn code(&self) -> (r: u16)
        ensures
            r == status_number(*self),
    {
        match self {
            StatusCode::Continue => 100,
            StatusCode::SwitchingProtocols => 101,
            StatusCode::Processing => 102,
            StatusCode::EarlyHints => 103,
            StatusCode::OK => 200,
            StatusCode::Created => 201,
            StatusCode::Accepted => 202,
            StatusCode::NonAuthoritativeInformation => 203,
            StatusCode::NoContent => 204,
            StatusCode::ResetContent => 205,
            StatusCode::PartialContent => 206,
            StatusCode::MovedPermanently => 301,
            StatusCode::Found => 302,
            StatusCode::SeeOther => 303,
            StatusCode::NotModified => 304,
            StatusCode::TemporaryRedirect => 307,
            StatusCode::PermanentRedirect => 308,
            StatusCode::BadRequest => 400,
            StatusCode::Unauthorized => 401,
            StatusCode::PaymentRequired => 402,
            StatusCode::Forbidden => 403,
            StatusCode::NotFound => 404,
            StatusCode::MethodNotAllowed => 405,
            StatusCode::NotAcceptable => 406,
            StatusCode::ProxyAuthenticationRequired => 407,
            StatusCode::RequestTimeout => 408,
            StatusCode::Conflict => 409,
            StatusCode::Gone => 410,
            StatusCode::LengthRequired => 411,
            StatusCode::PreconditionFailed => 412,
            StatusCode::ContentTooLarge => 413,
            StatusCode::URITooLong => 414,
            StatusCode::UnsupportedMediaType => 415,
            StatusCode::TooManyRequests => 429,
            StatusCode::InternalServerError => 500,
            StatusCode::NotImplemented => 501,
            StatusCode::BadGateway => 502,
            StatusCode::ServiceUnavailable => 503,
            StatusCode::GatewayTimeout => 504,
            StatusCode::HTTPVersionNotSupported => 505,
        }
    }

    /// The status with numeric code `n`, if the table has one.
    pub fn from_code(n: u16) -> (r: Option<StatusCode>)
        ensures
            r == status_of_number(n),
            r matches Some(s) ==> status_number(s) == n,
    {
        if n == 100 {
            Some(StatusCode::Continue)
        } else if n == 101 {
            Some(StatusCode::SwitchingProtocols)
        } else if n == 102 {
            Some(StatusCode::Processing)
        } else if n == 103 {
            Some(StatusCode::EarlyHints)
        } else if n == 200 {
            Some(StatusCode::OK)
        } else if n == 201 {
            Some(StatusCode::Created)
        } else if n == 202 {
            Some(StatusCode::Accepted)
        } else if n == 203 {
            Some(StatusCode::NonAuthoritativeInformation)
        } else if n == 204 {
            Some(StatusCode::NoContent)
        } else if n == 205 {
            Some(StatusCode::ResetContent)
        } else if n == 206 {
            Some(StatusCode::PartialContent)
        } else if n == 301 {
            Some(StatusCode::MovedPermanently)
        } else if n == 302 {
            Some(StatusCode::Found)
        } else if n == 303 {
            Some(StatusCode::SeeOther)
        } else if n == 304 {
            Some(StatusCode::NotModified)
        } else if n == 307 {
            Some(StatusCode::TemporaryRedirect)
        } else if n == 308 {
            Some(StatusCode::PermanentRedirect)
        } else if n == 400 {
            Some(StatusCode::BadRequest)
        } else if n == 401 {
            Some(StatusCode::Unauthorized)
        } else if n == 402 {
            Some(StatusCode::PaymentRequired)
        } else if n == 403 {
            Some(StatusCode::Forbidden)
        } else if n == 404 {
            Some(StatusCode::NotFound)
        } else if n == 405 {
            Some(StatusCode::MethodNotAllowed)
        } else if n == 406 {
            Some(StatusCode::NotAcceptable)
        } else if n == 407 {
            Some(StatusCode::ProxyAuthenticationRequired)
        } else if n == 408 {
            Some(StatusCode::RequestTimeout)
        } else if n == 409 {
            Some(StatusCode::Conflict)
        } else if n == 410 {
            Some(StatusCode::Gone)
        } else if n == 411 {
            Some(StatusCode::LengthRequired)
        } else if n == 412 {
            Some(StatusCode::PreconditionFailed)
        } else if n == 413 {
            Some(StatusCode::ContentTooLarge)
        } else if n == 414 {
            Some(StatusCode::URITooLong)
        } else if n == 415 {
            Some(StatusCode::UnsupportedMediaType)
        } else if n == 429 {
            Some(StatusCode::TooManyRequests)
        } else if n == 500 {
            Some(StatusCode::InternalServerError)
        } else if n == 501 {
            Some(StatusCode::NotImplemented)
        } else if n == 502 {
            Some(StatusCode::BadGateway)
        } else if n == 503 {
            Some(StatusCode::ServiceUnavailable)
        } else if n == 504 {
            Some(StatusCode::GatewayTimeout)
        } else if n == 505 {
            Some(StatusCode::HTTPVersionNotSupported)
        } else {
            None
        }
    }
}

} // verus!
