//! Users, their roles and their sessions.

use crate::text::{lowercased, to_lowercase};
use vstd::prelude::*;

verus! {

/// What a user may do.
#[derive(Clone, Copy, Debug, PartialEq, Eq, Structural)]
pub enum UserRole {
    Admin,
    User,
}

impl UserRole {
    /// The role as it is written.
    pub open spec fn text(self) -> Seq<char> {
        match self {
            UserRole::Admin => "admin"@,
            UserRole::User => "user"@,
        }
    }

    /// The role that `text` names, in any mix of upper and lower case.
    pub open spec fn named_by(text: Seq<char>) -> Option<UserRole> {
        if lowercased(text) == "admin"@ {
            Some(UserRole::Admin)
        } else if lowercased(text) == "user"@ {
            Some(UserRole::User)
        } else {
            None
        }
    }

    /// Writes the role.
    pub fn as_text(&self) -> (r: String)
        ensures
            r@ == self.text(),
    {
        match self {
            UserRole::Admin => String::from_str("admin"),
            UserRole::User => String::from_str("user"),
        }
    }

    /// Reads a role. A text that names none is refused, and the error says which text.
    pub fn parse(text: &str) -> (r: Result<UserRole, String>)
        ensures
            match UserRole::named_by(text@) {
                Some(role) => r == Ok::<UserRole, String>(role),
                None => r matches Err(reason) && reason@ == "Invalid role: "@ + text@,
            },
    {
        let lower = to_lowercase(text);
        if lower == String::from_str("admin") {
            Ok(UserRole::Admin)
        } else if lower == String::from_str("user") {
            Ok(UserRole::User)
        } else {
            Err(String::from_str("Invalid role: ").concat(text))
        }
    }

    /// The role of the first user to register is `Admin`; everyone after is a `User`.
    pub fn for_registration(user_count: i64) -> (r: UserRole)
        ensures
            r == (if user_count == 0 {
                UserRole::Admin
            } else {
                UserRole::User
            }),
    {
        if user_count == 0 {
            UserRole::Admin
        } else {
            UserRole::User
        }
    }
}

/// A user as recorded. Times are seconds since the epoch.
#[derive(Clone, Debug, PartialEq, Eq)]
pub struct User {
    pub id: u128,
    pub username: String,
    pub email: Option<String>,
    pub password_hash: String,
    pub role: String,
    pub created_at: i64,
    pub updated_at: i64,
}

impl User {
    /// The role that the record names, and `User` where it names none.
    pub open spec fn role_of(role: Seq<char>) -> UserRole {
        match UserRole::named_by(role) {
            Some(role) => role,
            None => UserRole::User,
        }
    }

    /// The user's role; a record that names no role makes a `User`.
    pub fn role_enum(&self) -> (r: UserRole)
        ensures
            r == User::role_of(self.role@),
    {
        match UserRole::parse(self.role.as_str()) {
            Ok(role) => role,
            Err(_) => UserRole::User,
        }
    }

    /// Tells whether the user is an administrator.
    pub fn is_admin(&self) -> (r: bool)
        ensures
            r == (User::role_of(self.role@) == UserRole::Admin),
    {
        self.role_enum() == UserRole::Admin
    }
}

/// A user without what must not leave the server.
#[derive(Clone, Debug, PartialEq, Eq)]
pub struct UserPublic {
    pub id: u128,
    pub username: String,
    pub email: Option<String>,
    pub role: String,
    pub created_at: i64,
}

impl From<User> for UserPublic {
    /// The public part of a user.
    fn from(user: User) -> (r: Self) {
        UserPublic {
            id: user.id,
            username: user.username,
            email: user.email,
            role: user.role,
            created_at: user.created_at,
        }
    }
}

impl vstd::std_specs::convert::FromSpecImpl<User> for UserPublic {
    open spec fn obeys_from_spec() -> bool {
        true
    }

    open spec fn from_spec(user: User) -> UserPublic {
        UserPublic {
            id: user.id,
            username: user.username,
            email: user.email,
            role: user.role,
            created_at: user.created_at,
        }
    }
}

/// What is needed to record a user.
#[derive(Clone, Debug, PartialEq, Eq)]
pub struct CreateUser {
    pub username: String,
    pub email: Option<String>,
    pub password: String,
}

/// What may be changed of a user. A field left out keeps what is recorded.
#[derive(Clone, Debug, PartialEq, Eq)]
pub struct UpdateUser {
    pub email: Option<String>,
    pub role: Option<String>,
}

impl UpdateUser {
    /// The email after the update: the new one where one is given, else the recorded one.
    pub fn merged_email(&self, recorded: Option<String>) -> (r: Option<String>)
        ensures
            r.deep_view() == (if self.email is Some {
                self.email.deep_view()
            } else {
                recorded.deep_view()
            }),
    {
        match &self.email {
            Some(email) => Some(email.clone()),
            None => recorded,
        }
    }

    /// The role after the update: the new one where one is given, else the recorded one.
    pub fn merged_role(&self, recorded: String) -> (r: String)
        ensures
            r@ == (match self.role {
                Some(role) => role@,
                None => recorded@,
            }),
    {
        match &self.role {
            Some(role) => role.clone(),
            None => recorded,
        }
    }
}

/// A session that a refresh token belongs to. Times are seconds since the epoch.
#[derive(Clone, Debug, PartialEq, Eq)]
pub struct UserSession {
    pub id: u128,
    pub user_id: u128,
    pub refresh_token: String,
    pub expires_at: i64,
    pub created_at: i64,
}

impl UserSession {
    /// Tells whether the session has run out at the time `now`.
    pub fn is_expired(&self, now: i64) -> (r: bool)
        ensures
            r == (self.expires_at < now),
    {
        self.expires_at < now
    }
}

} // verus!
