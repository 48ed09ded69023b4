//! HTTP status codes, and the family (1xx through 5xx) each belongs to.

use vstd::prelude::*;

use crate::error::WgetError;
use crate::text::{dec_chars, dec_val, all_dec_digits, parse_u16_dec, u16_to_dec_string};

verus! {

#[derive(Debug, Clone, Copy, PartialEq, Eq, Structural)]
pub enum HttpStatusFamily {
    Informational,
    Successful,
    Redirection,
    ClientError,
    ServerError,
}

/// The family of a status code, by its leading digit. Every known code lies
/// in 100..=599, so the catch-all low branch is never reached by one.
pub open spec fn family_of(code: u16) -> HttpStatusFamily {
    if code < 200 {
        HttpStatusFamily::Informational
    } else if code < 300 {
        HttpStatusFamily::Successful
    } else if code < 400 {
        HttpStatusFamily::Redirection
    } else if code < 500 {
        HttpStatusFamily::ClientError
    } else {
        HttpStatusFamily::ServerError
    }
}

#[derive(Debug, Clone, Copy, PartialEq, Eq, Structural)]
pub enum HttpStatusCode {
    Continue,
    SwitchingProtocols,
    OK,
    Created,
    Accepted,
    NonAuthoritativeInformation,
    NoContent,
    ResetContent,
    PartialContent,
    MultipleChoices,
    MovedPermanently,
    Found,
    SeeOther,
    NotModified,
    TemporaryRedirect,
    PermanentRedirect,
    BadRequest,
    Unauthorized,
    PaymentRequired,
    Forbidden,
    NotFound,
    MethodNotAllowed,
    NotAcceptable,
    ProxyAuthenticationRequired,
    RequestTimeout,
    Conflict,
    Gone,
    LengthRequired,
    PreconditionFailed,
    PayloadTooLarge,
    UriTooLong,
    UnsupportedMediaType,
    RangeNotSatisfiable,
    ExpectationFailed,
    ImATeapot,
    UnprocessableEntity,
    TooEarly,
    UpgradeRequired,
    PreconditionRequired,
    TooManyRequests,
    RequestHeaderFieldsTooLarge,
    UnavailableForLegalReasons,
    InternalServerError,
    NotImplemented,
    BadGateway,
    ServiceUnavailable,
    GatewayTimeout,
    HttpVersionNotSupported,
    VariantAlsoNegotiates,
    InsufficientStorage,
    LoopDetected,
    NotExtended,
    NetworkAuthenticationRequired,
}

/// The known status code carrying a numeric value, if there is one.
pub open spec fn spec_status_of(value: u16) -> Option<HttpStatusCode> {
    if value == 100 {
        Some(HttpStatusCode::Continue)
    } else if value == 101 {
        Some(HttpStatusCode::SwitchingProtocols)
    } else if value == 200 {
        Some(HttpStatusCode::OK)
    } else if value == 201 {
        Some(HttpStatusCode::Created)
    } else if value == 202 {
        Some(HttpStatusCode::Accepted)
    } else if value == 203 {
        Some(HttpStatusCode::NonAuthoritativeInformation)
    } else if value == 204 {
        Some(HttpStatusCode::NoContent)
    } else if value == 205 {
        Some(HttpStatusCode::ResetContent)
    } else if value == 206 {
        Some(HttpStatusCode::PartialContent)
    } else if value == 300 {
        Some(HttpStatusCode::MultipleChoices)
    } else if value == 301 {
        Some(HttpStatusCode::MovedPermanently)
    } else if value == 302 {
        Some(HttpStatusCode::Found)
    } else if value == 303 {
        Some(HttpStatusCode::SeeOther)
    } else if value == 304 {
        Some(HttpStatusCode::NotModified)
    } else if value == 307 {
        Some(HttpStatusCode::TemporaryRedirect)
    } else if value == 308 {
        Some(HttpStatusCode::PermanentRedirect)
    } else if value == 400 {
        Some(HttpStatusCode::BadRequest)
    } else if value == 401 {
        Some(HttpStatusCode::Unauthorized)
    } else if value == 402 {
        Some(HttpStatusCode::PaymentRequired)
    } else if value == 403 {
        Some(HttpStatusCode::Forbidden)
    } else if value == 404 {
        Some(HttpStatusCode::NotFound)
    } else if value == 405 {
        Some(HttpStatusCode::MethodNotAllowed)
    } else if value == 406 {
        Some(HttpStatusCode::NotAcceptable)
    } else if value == 407 {
        Some(HttpStatusCode::ProxyAuthenticationRequired)
    } else if value == 408 {
        Some(HttpStatusCode::RequestTimeout)
    } else if value == 409 {
        Some(HttpStatusCode::Conflict)
    } else if value == 410 {
        Some(HttpStatusCode::Gone)
    } else if value == 411 {
        Some(HttpStatusCode::LengthRequired)
    } else if value == 412 {
        Some(HttpStatusCode::PreconditionFailed)
    } else if value == 413 {
        Some(HttpStatusCode::PayloadTooLarge)
    } else if value == 414 {
        Some(HttpStatusCode::UriTooLong)
    } else if value == 415 {
        Some(HttpStatusCode::UnsupportedMediaType)
    } else if value == 416 {
        Some(HttpStatusCode::RangeNotSatisfiable)
    } else if value == 417 {
        Some(HttpStatusCode::ExpectationFailed)
    } else if value == 418 {
        Some(HttpStatusCode::ImATeapot)
    } else if value == 422 {
        Some(HttpStatusCode::UnprocessableEntity)
    } else if value == 425 {
        Some(HttpStatusCode::TooEarly)
    } else if value == 426 {
        Some(HttpStatusCode::UpgradeRequired)
    } else if value == 428 {
        Some(HttpStatusCode::PreconditionRequired)
    } else if value == 429 {
        Some(HttpStatusCode::TooManyRequests)
    } else if value == 431 {
        Some(HttpStatusCode::RequestHeaderFieldsTooLarge)
    } else if value == 451 {
        Some(HttpStatusCode::UnavailableForLegalReasons)
    } else if value == 500 {
        Some(HttpStatusCode::InternalServerError)
    } else if value == 501 {
        Some(HttpStatusCode::NotImplemented)
    } else if value == 502 {
        Some(HttpStatusCode::BadGateway)
    } else if value == 503 {
        Some(HttpStatusCode::ServiceUnavailable)
    } else if value == 504 {
        Some(HttpStatusCode::GatewayTimeout)
    } else if value == 505 {
        Some(HttpStatusCode::HttpVersionNotSupported)
    } else if value == 506 {
        Some(HttpStatusCode::VariantAlsoNegotiates)
    } else if value == 507 {
        Some(HttpStatusCode::InsufficientStorage)
    } else if value == 508 {
        Some(HttpStatusCode::LoopDetected)
    } else if value == 510 {
        Some(HttpStatusCode::NotExtended)
    } else if value == 511 {
        Some(HttpStatusCode::NetworkAuthenticationRequired)
    } else {
        None
    }
}

impl HttpStatusCode {
    /// The numeric value of the code.
    pub open spec fn spec_code(self) -> u16 {
        match self {
            HttpStatusCode::Continue => 100,
            HttpStatusCode::SwitchingProtocols => 101,
            HttpStatusCode::OK => 200,
            HttpStatusCode::Created => 201,
            HttpStatusCode::Accepted => 202,
            HttpStatusCode::NonAuthoritativeInformation => 203,
            HttpStatusCode::NoContent => 204,
            HttpStatusCode::ResetContent => 205,
            HttpStatusCode::PartialContent => 206,
            HttpStatusCode::MultipleChoices => 300,
            HttpStatusCode::MovedPermanently => 301,
            HttpStatusCode::Found => 302,
            HttpStatusCode::SeeOther => 303,
            HttpStatusCode::NotModified => 304,
            HttpStatusCode::TemporaryRedirect => 307,
            HttpStatusCode::PermanentRedirect => 308,
            HttpStatusCode::BadRequest => 400,
            HttpStatusCode::Unauthorized => 401,
            HttpStatusCode::PaymentRequired => 402,
            HttpStatusCode::Forbidden => 403,
            HttpStatusCode::NotFound => 404,
            HttpStatusCode::MethodNotAllowed => 405,
            HttpStatusCode::NotAcceptable => 406,
            HttpStatusCode::ProxyAuthenticationRequired => 407,
            HttpStatusCode::RequestTimeout => 408,
            HttpStatusCode::Conflict => 409,
            HttpStatusCode::Gone => 410,
            HttpStatusCode::LengthRequired => 411,
            HttpStatusCode::PreconditionFailed => 412,
            HttpStatusCode::PayloadTooLarge => 413,
            HttpStatusCode::UriTooLong => 414,
            HttpStatusCode::UnsupportedMediaType => 415,
            HttpStatusCode::RangeNotSatisfiable => 416,
            HttpStatusCode::ExpectationFailed => 417,
            HttpStatusCode::ImATeapot => 418,
            HttpStatusCode::UnprocessableEntity => 422,
            HttpStatusCode::TooEarly => 425,
            HttpStatusCode::UpgradeRequired => 426,
            HttpStatusCode::PreconditionRequired => 428,
            HttpStatusCode::TooManyRequests => 429,
            HttpStatusCode::RequestHeaderFieldsTooLarge => 431,
            HttpStatusCode::UnavailableForLegalReasons => 451,
            HttpStatusCode::InternalServerError => 500,
            HttpStatusCode::NotImplemented => 501,
            HttpStatusCode::BadGateway => 502,
            HttpStatusCode::ServiceUnavailable => 503,
            HttpStatusCode::GatewayTimeout => 504,
            HttpStatusCode::HttpVersionNotSupported => 505,
            HttpStatusCode::VariantAlsoNegotiates => 506,
            HttpStatusCode::InsufficientStorage => 507,
            HttpStatusCode::LoopDetected => 508,
            HttpStatusCode::NotExtended => 510,
            HttpStatusCode::NetworkAuthenticationRequired => 511,
        }
    }

    pub fn code(&self) -> (r: u16)
        ensures
            r == self.spec_code(),
    {
        match self {
            HttpStatusCode::Continue => 100,
            HttpStatusCode::SwitchingProtocols => 101,
            HttpStatusCode::OK => 200,
            HttpStatusCode::Created => 201,
            HttpStatusCode::Accepted => 202,
            HttpStatusCode::NonAuthoritativeInformation => 203,
            HttpStatusCode::NoContent => 204,
            HttpStatusCode::ResetContent => 205,
            HttpStatusCode::PartialContent => 206,
            HttpStatusCode::MultipleChoices => 300,
            HttpStatusCode::MovedPermanently => 301,
            HttpStatusCode::Found => 302,
            HttpStatusCode::SeeOther => 303,
            HttpStatusCode::NotModified => 304,
            HttpStatusCode::TemporaryRedirect => 307,
            HttpStatusCode::PermanentRedirect => 308,
            HttpStatusCode::BadRequest => 400,
            HttpStatusCode::Unauthorized => 401,
            HttpStatusCode::PaymentRequired => 402,
            HttpStatusCode::Forbidden => 403,
            HttpStatusCode::NotFound => 404,
            HttpStatusCode::MethodNotAllowed => 405,
            HttpStatusCode::NotAcceptable => 406,
            HttpStatusCode::ProxyAuthenticationRequired => 407,
            HttpStatusCode::RequestTimeout => 408,
            HttpStatusCode::Conflict => 409,
            HttpStatusCode::Gone => 410,
            HttpStatusCode::LengthRequired => 411,
            HttpStatusCode::PreconditionFailed => 412,
            HttpStatusCode::PayloadTooLarge => 413,
            HttpStatusCode::UriTooLong => 414,
            HttpStatusCode::UnsupportedMediaType => 415,
            HttpStatusCode::RangeNotSatisfiable => 416,
            HttpStatusCode::ExpectationFailed => 417,
            HttpStatusCode::ImATeapot => 418,
            HttpStatusCode::UnprocessableEntity => 422,
            HttpStatusCode::TooEarly => 425,
            HttpStatusCode::UpgradeRequired => 426,
            HttpStatusCode::PreconditionRequired => 428,
            HttpStatusCode::TooManyRequests => 429,
            HttpStatusCode::RequestHeaderFieldsTooLarge => 431,
            HttpStatusCode::UnavailableForLegalReasons => 451,
            HttpStatusCode::InternalServerError => 500,
            HttpStatusCode::NotImplemented => 501,
            HttpStatusCode::BadGateway => 502,
            HttpStatusCode::ServiceUnavailable => 503,
            HttpStatusCode::GatewayTimeout => 504,
            HttpStatusCode::HttpVersionNotSupported => 505,
            HttpStatusCode::VariantAlsoNegotiates => 506,
            HttpStatusCode::InsufficientStorage => 507,
            HttpStatusCode::LoopDetected => 508,
            HttpStatusCode::NotExtended => 510,
            HttpStatusCode::NetworkAuthenticationRequired => 511,
        }
    }

    /// The family the code's leading digit puts it in.
    pub fn family(&self) -> (r: HttpStatusFamily)
        ensures
            r == family_of(self.spec_code()),
    {
        let code = self.code();
        if code < 200 {
            HttpStatusFamily::Informational
        } else if code < 300 {
            HttpStatusFamily::Successful
        } else if code < 400 {
            HttpStatusFamily::Redirection
        } else if code < 500 {
            HttpStatusFamily::ClientError
        } else {
            HttpStatusFamily::ServerError
        }
    }

    /// The known code for a numeric value; any other value is rejected as an
    /// invalid status code.
    pub fn try_from(value: u16) -> (r: Result<HttpStatusCode, WgetError>)
        ensures
            match spec_status_of(value) {
                Some(c) => r == Ok::<HttpStatusCode, WgetError>(c),
                None => r == Err::<HttpStatusCode, WgetError>(WgetError::InvalidStatusCode(value)),
            },
    {
        match value {
            100 => Ok(HttpStatusCode::Continue),
            101 => Ok(HttpStatusCode::SwitchingProtocols),
            200 => Ok(HttpStatusCode::OK),
            201 => Ok(HttpStatusCode::Created),
            202 => Ok(HttpStatusCode::Accepted),
            203 => Ok(HttpStatusCode::NonAuthoritativeInformation),
            204 => Ok(HttpStatusCode::NoContent),
            205 => Ok(HttpStatusCode::ResetContent),
            206 => Ok(HttpStatusCode::PartialContent),
            300 => Ok(HttpStatusCode::MultipleChoices),
            301 => Ok(HttpStatusCode::MovedPermanently),
            302 => Ok(HttpStatusCode::Found),
            303 => Ok(HttpStatusCode::SeeOther),
            304 => Ok(HttpStatusCode::NotModified),
            307 => Ok(HttpStatusCode::TemporaryRedirect),
            308 => Ok(HttpStatusCode::PermanentRedirect),
            400 => Ok(HttpStatusCode::BadRequest),
            401 => Ok(HttpStatusCode::Unauthorized),
            402 => Ok(HttpStatusCode::PaymentRequired),
            403 => Ok(HttpStatusCode::Forbidden),
            404 => Ok(HttpStatusCode::NotFound),
            405 => Ok(HttpStatusCode::MethodNotAllowed),
            406 => Ok(HttpStatusCode::NotAcceptable),
            407 => Ok(HttpStatusCode::ProxyAuthenticationRequired),
            408 => Ok(HttpStatusCode::RequestTimeout),
            409 => Ok(HttpStatusCode::Conflict),
            410 => Ok(HttpStatusCode::Gone),
            411 => Ok(HttpStatusCode::LengthRequired),
            412 => Ok(HttpStatusCode::PreconditionFailed),
            413 => Ok(HttpStatusCode::PayloadTooLarge),
            414 => Ok(HttpStatusCode::UriTooLong),
            415 => Ok(HttpStatusCode::UnsupportedMediaType),
            416 => Ok(HttpStatusCode::RangeNotSatisfiable),
            417 => Ok(HttpStatusCode::ExpectationFailed),
            418 => Ok(HttpStatusCode::ImATeapot),
            422 => Ok(HttpStatusCode::UnprocessableEntity),
            425 => Ok(HttpStatusCode::TooEarly),
            426 => Ok(HttpStatusCode::UpgradeRequired),
            428 => Ok(HttpStatusCode::PreconditionRequired),
            429 => Ok(HttpStatusCode::TooManyRequests),
            431 => Ok(HttpStatusCode::RequestHeaderFieldsTooLarge),
            451 => Ok(HttpStatusCode::UnavailableForLegalReasons),
            500 => Ok(HttpStatusCode::InternalServerError),
            501 => Ok(HttpStatusCode::NotImplemented),
            502 => Ok(HttpStatusCode::BadGateway),
            503 => Ok(HttpStatusCode::ServiceUnavailable),
            504 => Ok(HttpStatusCode::GatewayTimeout),
            505 => Ok(HttpStatusCode::HttpVersionNotSupported),
            506 => Ok(HttpStatusCode::VariantAlsoNegotiates),
            507 => Ok(HttpStatusCode::InsufficientStorage),
            508 => Ok(HttpStatusCode::LoopDetected),
            510 => Ok(HttpStatusCode::NotExtended),
            511 => Ok(HttpStatusCode::NetworkAuthenticationRequired),
            _ => Err(WgetError::InvalidStatusCode(value)),
        }
    }

    /// Parses the numeric field of a status line: the digits must form a
    /// `u16`, and the value must be a known code.
    pub fn from_str(s: &str) -> (r: Result<HttpStatusCode, WgetError>)
        ensures
            !(s@.len() > 0 && all_dec_digits(s@) && dec_val(s@) <= u16::MAX) ==> r matches Err(
                WgetError::ParsingError(_),
            ),
            (s@.len() > 0 && all_dec_digits(s@) && dec_val(s@) <= u16::MAX) ==> match spec_status_of(
                dec_val(s@) as u16,
            ) {
                Some(c) => r == Ok::<HttpStatusCode, WgetError>(c),
                None => r == Err::<HttpStatusCode, WgetError>(
                    WgetError::InvalidStatusCode(dec_val(s@) as u16),
                ),
            },
    {
        match parse_u16_dec(s) {
            Some(v) => HttpStatusCode::try_from(v),
            None => {
                let mut msg = String::new();
                msg.append("Status Code not a number: ");
                msg.append(s);
                Err(WgetError::ParsingError(msg))
            },
        }
    }

    /// The decimal rendering of the code, as diagnostics display it.
    pub fn code_string(&self) -> (r: String)
        ensures
            r@ == dec_chars(self.spec_code() as nat),
    {
        u16_to_dec_string(self.code())
    }
}

/// Every known status code lies in a family bucket: 100..=599.
pub proof fn lemma_known_codes_in_range(c: HttpStatusCode)
    ensures
        100 <= c.spec_code() < 600,
{
}

} // verus!
