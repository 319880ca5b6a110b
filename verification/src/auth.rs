//! Who is asking: the user behind a request, read from its authorization header and the
//! claims of its token.

use crate::outside::{parse_uuid, uuid_number};
use crate::text::{begins_with, starts_with};
use crate::user::UserRole;
use vstd::prelude::*;

verus! {

/// Why a request is not let in.
#[derive(Clone, Copy, Debug, PartialEq, Eq, Structural)]
pub enum AuthError {
    MissingToken,
    InvalidToken,
    UserNotFound,
}

impl AuthError {
    /// The error in words.
    pub open spec fn text(self) -> Seq<char> {
        match self {
            AuthError::MissingToken => "Missing authorization token"@,
            AuthError::InvalidToken => "Invalid or expired token"@,
            AuthError::UserNotFound => "User not found"@,
        }
    }

    /// The error in words.
    pub fn message(&self) -> (r: String)
        ensures
            r@ == self.text(),
    {
        match self {
            AuthError::MissingToken => String::from_str("Missing authorization token"),
            AuthError::InvalidToken => String::from_str("Invalid or expired token"),
            AuthError::UserNotFound => String::from_str("User not found"),
        }
    }

    /// The status that answers the request: every one of these errors is 401.
    pub fn status_code(&self) -> (r: u16)
        ensures
            r == 401,
    {
        401
    }
}

/// The claims of an access token.
#[derive(Clone, Debug, PartialEq, Eq)]
pub struct LocalAuthClaims {
    /// The user's id.
    pub sub: String,
    pub username: String,
    /// `admin` or `user`.
    pub role: String,
    /// When the token runs out, in seconds since the epoch.
    pub exp: i64,
    /// When the token was issued.
    pub iat: i64,
}

/// The claims of a refresh token.
#[derive(Clone, Debug, PartialEq, Eq)]
pub struct RefreshTokenClaims {
    /// The user's id.
    pub sub: String,
    pub exp: i64,
    pub iat: i64,
    pub token_type: String,
}

/// How long an access token is good for: a quarter of an hour, in seconds.
pub const ACCESS_TOKEN_EXPIRY_SECS: i64 = 900;

/// How long a refresh token is good for: seven days, in seconds.
pub const REFRESH_TOKEN_EXPIRY_SECS: i64 = 604800;

/// What is wrong with the claims of a token.
#[derive(Clone, Debug, PartialEq, Eq)]
pub enum TokenClaimsError {
    /// The token says not when it runs out.
    MissingExpiration,
    /// The token says not whose it is.
    MissingSubject,
    /// The subject of the token is no UUID; the text is the subject.
    InvalidSubject(String),
    /// The token is not of the kind asked for.
    InvalidToken,
}

/// The time that the claim of a token gives for its end.
pub fn expiration_of(exp: Option<i64>) -> (r: Result<i64, TokenClaimsError>)
    ensures
        r == (match exp {
            Some(time) => Ok::<i64, TokenClaimsError>(time),
            None => Err(TokenClaimsError::MissingExpiration),
        }),
{
    match exp {
        Some(time) => Ok(time),
        None => Err(TokenClaimsError::MissingExpiration),
    }
}

/// The user that the claim of a token names as its subject.
pub fn subject_of(sub: Option<String>) -> (r: Result<u128, TokenClaimsError>)
    ensures
        match sub {
            None => r == Err::<u128, TokenClaimsError>(TokenClaimsError::MissingSubject),
            Some(text) => match uuid_number(text@) {
                Some(id) => r == Ok::<u128, TokenClaimsError>(id),
                None => r matches Err(TokenClaimsError::InvalidSubject(subject)) && subject@
                    == text@,
            },
        },
{
    match sub {
        None => Err(TokenClaimsError::MissingSubject),
        Some(text) => match parse_uuid(text.as_str()) {
            Some(id) => Ok(id),
            None => Err(TokenClaimsError::InvalidSubject(text)),
        },
    }
}

impl LocalAuthClaims {
    /// The claims of an access token issued at `now` that is good for `expires_in_secs`.
    pub fn issue(sub: String, username: String, role: String, now: i64, expires_in_secs: i64) -> (r:
        Self)
        requires
            i64::MIN <= now + expires_in_secs <= i64::MAX,
        ensures
            r.sub@ == sub@,
            r.username@ == username@,
            r.role@ == role@,
            r.iat == now,
            r.exp == now + expires_in_secs,
    {
        LocalAuthClaims { sub, username, role, exp: now + expires_in_secs, iat: now }
    }
}

impl RefreshTokenClaims {
    /// The claims of a refresh token issued at `now` that is good for `expires_in_secs`.
    pub fn issue(sub: String, now: i64, expires_in_secs: i64) -> (r: Self)
        requires
            i64::MIN <= now + expires_in_secs <= i64::MAX,
        ensures
            r.sub@ == sub@,
            r.iat == now,
            r.exp == now + expires_in_secs,
            r.token_type@ == "refresh"@,
    {
        RefreshTokenClaims {
            sub,
            exp: now + expires_in_secs,
            iat: now,
            token_type: String::from_str("refresh"),
        }
    }

    /// Tells whether the claims are those of a refresh token.
    pub fn is_refresh(&self) -> (r: bool)
        ensures
            r == (self.token_type@ == "refresh"@),
    {
        self.token_type == String::from_str("refresh")
    }

    /// Refuses claims that are not those of a refresh token.
    pub fn check_type(&self) -> (r: Result<(), TokenClaimsError>)
        ensures
            r == (if self.token_type@ == "refresh"@ {
                Ok::<(), TokenClaimsError>(())
            } else {
                Err(TokenClaimsError::InvalidToken)
            }),
    {
        if self.is_refresh() {
            Ok(())
        } else {
            Err(TokenClaimsError::InvalidToken)
        }
    }
}

/// The user behind a request.
#[derive(Clone, Debug, PartialEq, Eq)]
pub struct AuthUser {
    pub id: u128,
    pub username: String,
    pub role: UserRole,
}

/// What stands before the token in an authorization header.
pub open spec fn bearer_prefix() -> Seq<char> {
    "Bearer "@
}

/// The token that the authorization header carries, and the error where it carries none.
pub open spec fn token_of_header(header: Option<Seq<char>>) -> Result<Seq<char>, AuthError> {
    match header {
        None => Err(AuthError::MissingToken),
        Some(value) => if begins_with(value, bearer_prefix()) {
            Ok(value.skip(bearer_prefix().len() as int))
        } else {
            Err(AuthError::InvalidToken)
        },
    }
}

impl AuthUser {
    /// Tells whether the user is an administrator.
    pub fn is_admin(&self) -> (r: bool)
        ensures
            r == (self.role == UserRole::Admin),
    {
        self.role == UserRole::Admin
    }

    /// Takes the token out of the authorization header. A request without the header has no
    /// token; a header that does not begin with `Bearer ` has an invalid one.
    pub fn bearer_token(header: Option<&str>) -> (r: Result<String, AuthError>)
        ensures
            match token_of_header(
                match header {
                    Some(value) => Some(value@),
                    None => None,
                },
            ) {
                Ok(token) => r matches Ok(found) && found@ == token,
                Err(error) => r == Err::<String, AuthError>(error),
            },
    {
        match header {
            None => Err(AuthError::MissingToken),
            Some(value) => {
                if starts_with(value, "Bearer ") {
                    proof {
                        reveal_strlit("Bearer ");
                    }
                    let n = value.unicode_len();
                    let token = value.substring_char(7, n);
                    assert(token@ =~= value@.skip(7));
                    Ok(String::from_str(token))
                } else {
                    Err(AuthError::InvalidToken)
                }
            },
        }
    }

    /// The user that valid claims speak of. Claims whose subject is no UUID, or whose role is
    /// none, make the token invalid.
    pub fn from_claims(claims: &LocalAuthClaims) -> (r: Result<AuthUser, AuthError>)
        ensures
            match (uuid_number(claims.sub@), UserRole::named_by(claims.role@)) {
                (Some(id), Some(role)) => r matches Ok(user) && user.id == id && user.username@
                    == claims.username@ && user.role == role,
                _ => r == Err::<AuthUser, AuthError>(AuthError::InvalidToken),
            },
    {
        let id = match parse_uuid(claims.sub.as_str()) {
            Some(id) => id,
            None => {
                return Err(AuthError::InvalidToken);
            },
        };
        let role = match UserRole::parse(claims.role.as_str()) {
            Ok(role) => role,
            Err(_) => {
                return Err(AuthError::InvalidToken);
            },
        };
        Ok(AuthUser { id, username: claims.username.clone(), role })
    }
}

} // verus!
