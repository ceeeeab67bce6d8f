//! Errors of the API and the HTTP responses they become.

use vstd::prelude::*;
use vstd::string::StringExecFns;
use crate::json::Json;

verus! {

/// Error body returned for every 4xx/5xx response but a conflict.
pub struct ErrorResponse {
    pub error: String,
}

/// An error of the API.
pub enum AppError {
    /// A database failure, with its message.
    Database(String),
    NotFound,
    Unauthorized(String),
    Forbidden(String),
    InvalidRelType(String),
    BadRequest(String),
    /// A conflict whose body is the given JSON document.
    Conflict(Json),
    /// The notes service refused the request with its own status and message.
    TackUpstream(u16, String),
    /// The notes service could not be reached.
    TackUnreachable(String),
    /// Inconsistent stored data.
    Internal(String),
}

/// The body of an error response.
pub enum ErrorBody {
    /// `{"error": message}`.
    Message(ErrorResponse),
    /// A free-form JSON body.
    Document(Json),
}

/// The status code of an error.
pub open spec fn status_of(e: AppError) -> u16 {
    match e {
        AppError::Database(_) => 500,
        AppError::NotFound => 404,
        AppError::Unauthorized(_) => 401,
        AppError::Forbidden(_) => 403,
        AppError::InvalidRelType(_) => 400,
        AppError::BadRequest(_) => 400,
        AppError::Conflict(_) => 409,
        AppError::TackUpstream(code, _) => if code == 401 {
            502
        } else if 100 <= code <= 999 {
            code
        } else {
            500
        },
        AppError::TackUnreachable(_) => 502,
        AppError::Internal(_) => 500,
    }
}

/// The message of an error that has a message body.
pub open spec fn message_of(e: AppError) -> Seq<char> {
    match e {
        AppError::Database(m) => m@,
        AppError::NotFound => "Not found"@,
        AppError::Unauthorized(m) => m@,
        AppError::Forbidden(m) => m@,
        AppError::InvalidRelType(m) => m@,
        AppError::BadRequest(m) => m@,
        AppError::Conflict(_) => Seq::empty(),
        AppError::TackUpstream(code, m) => if code == 401 {
            "notes service rejected the request"@
        } else {
            m@
        },
        AppError::TackUnreachable(m) => m@,
        AppError::Internal(m) => m@,
    }
}

impl AppError {
    /// The response of an error: a conflict answers 409 with its own JSON
    /// body; every other error answers `{"error": message}`. A 401 of the
    /// notes service is a gateway failure (502), not the caller's session
    /// ending; its other statuses are relayed when they are valid HTTP
    /// statuses (100 to 999), else 500.
    pub fn into_response_parts(self) -> (r: (u16, ErrorBody))
        ensures
            r.0 == status_of(self),
            match self {
                AppError::Conflict(j) => r.1 == ErrorBody::Document(j),
                _ => r.1 matches ErrorBody::Message(m) && m.error@ == message_of(self),
            },
    {
        let status = self.status();
        match self {
            AppError::Conflict(j) => (status, ErrorBody::Document(j)),
            AppError::Database(m) => (status, ErrorBody::Message(ErrorResponse { error: m })),
            AppError::NotFound => (status, ErrorBody::Message(ErrorResponse { error: "Not found".to_owned() })),
            AppError::Unauthorized(m) => (status, ErrorBody::Message(ErrorResponse { error: m })),
            AppError::Forbidden(m) => (status, ErrorBody::Message(ErrorResponse { error: m })),
            AppError::InvalidRelType(m) => (status, ErrorBody::Message(ErrorResponse { error: m })),
            AppError::BadRequest(m) => (status, ErrorBody::Message(ErrorResponse { error: m })),
            AppError::TackUpstream(code, m) => if code == 401 {
                (status, ErrorBody::Message(ErrorResponse { error: "notes service rejected the request".to_owned() }))
            } else {
                (status, ErrorBody::Message(ErrorResponse { error: m }))
            },
            AppError::TackUnreachable(m) => (status, ErrorBody::Message(ErrorResponse { error: m })),
            AppError::Internal(m) => (status, ErrorBody::Message(ErrorResponse { error: m })),
        }
    }

    /// The status code of the error.
    pub fn status(&self) -> (r: u16)
        ensures
            r == status_of(*self),
    {
        match self {
            AppError::Database(_) => 500,
            AppError::NotFound => 404,
            AppError::Unauthorized(_) => 401,
            AppError::Forbidden(_) => 403,
            AppError::InvalidRelType(_) => 400,
            AppError::BadRequest(_) => 400,
            AppError::Conflict(_) => 409,
            AppError::TackUpstream(code, _) => if *code == 401 {
                502
            } else if 100 <= *code && *code <= 999 {
                *code
            } else {
                500
            },
            AppError::TackUnreachable(_) => 502,
            AppError::Internal(_) => 500,
        }
    }
}

/// The decimal digits of a natural number.
pub open spec fn decimal(n: nat) -> Seq<char>
    decreases n,
{
    if n < 10 {
        seq![(48 + n) as char]
    } else {
        decimal(n / 10).push((48 + n % 10) as char)
    }
}

/// The decimal form of an unsigned number.
pub fn decimal_string(n: u64) -> (r: String)
    ensures
        r@ == decimal(n as nat),
    decreases n,
{
    let d: u8 = (n % 10) as u8;
    let digit = crate::text::digit_str(d);
    if n < 10 {
        digit
    } else {
        let mut s = decimal_string(n / 10);
        s.append(digit.as_str());
        s
    }
}

/// The decimal form of a signed number, with `-` before a negative one.
pub fn signed_decimal_string(n: i64) -> (r: String)
    ensures
        r@ == (if n < 0 { seq!['-'] + decimal((-n) as nat) } else { decimal(n as nat) }),
{
    if n < 0 {
        let m: u64 = (-(n as i128)) as u64;
        let mut s = String::from_str("-");
        let digits = decimal_string(m);
        s.append(digits.as_str());
        proof {
            reveal_strlit("-");
            assert(s@ =~= seq!['-'] + decimal((-n) as nat));
        }
        s
    } else {
        decimal_string(n as u64)
    }
}

/// The error of a refused notes-service request: its status, and the
/// `error` string of its JSON body, or a generic message when the body has
/// none.
pub fn tack_upstream_error(status: u16, body: Option<&Json>) -> (r: AppError)
    ensures
        r matches AppError::TackUpstream(code, m) && code == status && m@ == (match body {
            Some(j) => match crate::json::field_of(*j, "error"@) {
                Some(Json::Str(e)) => e@,
                _ => "tack-server request failed"@,
            },
            None => "tack-server request failed"@,
        }),
{
    let msg = match body {
        Some(j) => match crate::json::str_field(j, "error") {
            Some(e) => e.to_owned(),
            None => "tack-server request failed".to_owned(),
        },
        None => "tack-server request failed".to_owned(),
    };
    AppError::TackUpstream(status, msg)
}

} // verus!
