use vstd::prelude::*;

verus! {

/// Why a credential was rejected: no credential at all, a credential whose
/// signature is valid but whose expiry has elapsed, or anything else
/// (malformed header, bad signature, undecodable payload). Clients react
/// differently to each, so the three are kept apart.
#[derive(Debug)]
pub enum UnauthorizedKind {
    TokenMissing,
    TokenExpired,
    Generic(String),
}

/// The error taxonomy of the authentication core. Every fallible operation
/// of the library reports one of these; the variant (not the message) is
/// what callers branch on.
#[derive(Debug)]
pub enum AuthError {
    Unauthorized(UnauthorizedKind),
    Forbidden(String),
    NotFound(String),
    Unprocessable(String),
    Internal(String),
}

/// The credential was missing altogether.
pub open spec fn spec_token_missing(e: AuthError) -> bool {
    e matches AuthError::Unauthorized(UnauthorizedKind::TokenMissing)
}

/// The credential's signature was valid but its expiry had elapsed.
pub open spec fn spec_token_expired(e: AuthError) -> bool {
    e matches AuthError::Unauthorized(UnauthorizedKind::TokenExpired)
}

/// The credential was rejected for a reason other than expiry.
pub open spec fn spec_unauthorized_generic(e: AuthError) -> bool {
    e matches AuthError::Unauthorized(UnauthorizedKind::Generic(_))
}

/// A lookup failed; `what` names the missing thing ("user" or "token").
pub open spec fn spec_not_found(e: AuthError, what: Seq<char>) -> bool {
    e matches AuthError::NotFound(m) && m@ == what
}

/// A generic unauthorized rejection carrying exactly this message.
pub open spec fn spec_generic_msg(e: AuthError, m: Seq<char>) -> bool {
    e matches AuthError::Unauthorized(UnauthorizedKind::Generic(s)) && s@ == m
}

pub open spec fn spec_internal(e: AuthError) -> bool {
    e matches AuthError::Internal(_)
}

pub open spec fn spec_forbidden(e: AuthError) -> bool {
    e matches AuthError::Forbidden(_)
}

pub open spec fn spec_unprocessable(e: AuthError) -> bool {
    e matches AuthError::Unprocessable(_)
}

impl AuthError {
    /// The HTTP-style status this error maps to; internal detail is never
    /// part of the mapping.
    pub fn get_status(&self) -> (s: u16)
        ensures
            s == self.spec_status(),
    {
        match self {
            AuthError::Unauthorized(_) => 401,
            AuthError::Forbidden(_) => 403,
            AuthError::NotFound(_) => 404,
            AuthError::Unprocessable(_) => 422,
            AuthError::Internal(_) => 500,
        }
    }

    pub open spec fn spec_status(&self) -> u16 {
        match self {
            AuthError::Unauthorized(_) => 401,
            AuthError::Forbidden(_) => 403,
            AuthError::NotFound(_) => 404,
            AuthError::Unprocessable(_) => 422,
            AuthError::Internal(_) => 500,
        }
    }

    /// A human-readable label for the error kind, for logs and responses.
    pub fn kind_label(&self) -> (m: String)
        ensures
            self matches AuthError::Unauthorized(UnauthorizedKind::TokenMissing) ==> m@
                == "token missing"@,
            self matches AuthError::Unauthorized(UnauthorizedKind::TokenExpired) ==> m@
                == "token expired"@,
            self matches AuthError::Unauthorized(UnauthorizedKind::Generic(_)) ==> m@
                == "unauthorized"@,
            self matches AuthError::Forbidden(_) ==> m@ == "forbidden"@,
            self matches AuthError::NotFound(_) ==> m@ == "not found"@,
            self matches AuthError::Unprocessable(_) ==> m@ == "unprocessable"@,
            self matches AuthError::Internal(_) ==> m@ == "internal error"@,
    {
        match self {
            AuthError::Unauthorized(UnauthorizedKind::TokenMissing) => String::from_str(
                "token missing",
            ),
            AuthError::Unauthorized(UnauthorizedKind::TokenExpired) => String::from_str(
                "token expired",
            ),
            AuthError::Unauthorized(UnauthorizedKind::Generic(_)) => String::from_str(
                "unauthorized",
            ),
            AuthError::Forbidden(_) => String::from_str("forbidden"),
            AuthError::NotFound(_) => String::from_str("not found"),
            AuthError::Unprocessable(_) => String::from_str("unprocessable"),
            AuthError::Internal(_) => String::from_str("internal error"),
        }
    }
}

} // verus!
