//! What clients send to register, to log in and to manage users, with the rules that such
//! requests have to meet.

use crate::user::UserRole;
use vstd::prelude::*;
use vstd::utf8::encode_utf8;

verus! {

/// What is wrong with a user name and a password, if anything: the name needs three bytes,
/// the password eight.
pub open spec fn credentials_fault(username: Seq<char>, password: Seq<char>) -> Option<Seq<char>> {
    if encode_utf8(username).len() < 3 {
        Some("Username must be at least 3 characters"@)
    } else if encode_utf8(password).len() < 8 {
        Some("Password must be at least 8 characters"@)
    } else {
        None
    }
}

/// What is wrong with a new password, if anything: it needs eight bytes.
pub open spec fn password_fault(password: Seq<char>) -> Option<Seq<char>> {
    if encode_utf8(password).len() < 8 {
        Some("Password must be at least 8 characters"@)
    } else {
        None
    }
}

/// Checks a user name and a password against the rules for new accounts.
pub fn check_credentials(username: &str, password: &str) -> (r: Result<(), String>)
    ensures
        match credentials_fault(username@, password@) {
            Some(fault) => r matches Err(reason) && reason@ == fault,
            None => r is Ok,
        },
{
    if username.as_bytes().len() < 3 {
        return Err(String::from_str("Username must be at least 3 characters"));
    }
    if password.as_bytes().len() < 8 {
        return Err(String::from_str("Password must be at least 8 characters"));
    }
    Ok(())
}

/// Checks a new password against the rule for passwords.
pub fn check_password(password: &str) -> (r: Result<(), String>)
    ensures
        match password_fault(password@) {
            Some(fault) => r matches Err(reason) && reason@ == fault,
            None => r is Ok,
        },
{
    if password.as_bytes().len() < 8 {
        return Err(String::from_str("Password must be at least 8 characters"));
    }
    Ok(())
}

/// A request to register.
#[derive(Clone, Debug, PartialEq, Eq)]
pub struct RegisterRequest {
    pub username: String,
    pub password: String,
    pub email: Option<String>,
}

impl RegisterRequest {
    /// Checks the request against the rules for new accounts.
    pub fn validate(&self) -> (r: Result<(), String>)
        ensures
            match credentials_fault(self.username@, self.password@) {
                Some(fault) => r matches Err(reason) && reason@ == fault,
                None => r is Ok,
            },
    {
        check_credentials(self.username.as_str(), self.password.as_str())
    }
}

/// A request to log in.
#[derive(Clone, Debug, PartialEq, Eq)]
pub struct LoginRequest {
    pub username: String,
    pub password: String,
}

/// A request for new tokens, or to log out.
#[derive(Clone, Debug, PartialEq, Eq)]
pub struct RefreshRequest {
    pub refresh_token: String,
}

/// Whether the first account has still to be made.
#[derive(Clone, Copy, Debug, PartialEq, Eq, Structural)]
pub struct SetupStatusResponse {
    pub setup_required: bool,
    pub user_count: i64,
}

impl SetupStatusResponse {
    /// The status for `user_count` recorded users: setup is required while there is none.
    pub fn for_count(user_count: i64) -> (r: Self)
        ensures
            r == (SetupStatusResponse { setup_required: user_count == 0, user_count }),
    {
        SetupStatusResponse { setup_required: user_count == 0, user_count }
    }
}

/// An administrator's request to make a user.
#[derive(Clone, Debug, PartialEq, Eq)]
pub struct CreateUserRequest {
    pub username: String,
    pub password: String,
    pub email: Option<String>,
    pub role: Option<String>,
}

impl CreateUserRequest {
    /// Checks the request against the rules for new accounts.
    pub fn validate(&self) -> (r: Result<(), String>)
        ensures
            match credentials_fault(self.username@, self.password@) {
                Some(fault) => r matches Err(reason) && reason@ == fault,
                None => r is Ok,
            },
    {
        check_credentials(self.username.as_str(), self.password.as_str())
    }

    /// The role of the new user: `Admin` only where the request says `admin`, letter for
    /// letter.
    pub fn role(&self) -> (r: UserRole)
        ensures
            r == (if self.role.deep_view() == Some("admin"@) {
                UserRole::Admin
            } else {
                UserRole::User
            }),
    {
        match &self.role {
            Some(role) => {
                if *role == String::from_str("admin") {
                    UserRole::Admin
                } else {
                    UserRole::User
                }
            },
            None => UserRole::User,
        }
    }
}

/// An administrator's request to change a user.
#[derive(Clone, Debug, PartialEq, Eq)]
pub struct UpdateUserRequest {
    pub email: Option<String>,
    pub role: Option<String>,
    pub password: Option<String>,
}

impl UpdateUserRequest {
    /// The request would take the administrator's own role away.
    pub open spec fn demotes(self, target: u128, administrator: u128) -> bool {
        target == administrator && self.role.deep_view() == Some("user"@)
    }

    /// What is wrong with the request of `administrator` to change the user `target`, if
    /// anything: nobody demotes himself, and a new password has to meet the rule.
    pub open spec fn fault(self, target: u128, administrator: u128) -> Option<Seq<char>> {
        if self.demotes(target, administrator) {
            Some("Cannot demote yourself from admin"@)
        } else {
            match self.password {
                Some(password) => password_fault(password@),
                None => None,
            }
        }
    }

    /// Checks the request of `administrator` to change the user `target`.
    pub fn validate(&self, target: u128, administrator: u128) -> (r: Result<(), String>)
        ensures
            match self.fault(target, administrator) {
                Some(fault) => r matches Err(reason) && reason@ == fault,
                None => r is Ok,
            },
    {
        if target == administrator {
            match &self.role {
                Some(role) => {
                    if *role == String::from_str("user") {
                        return Err(String::from_str("Cannot demote yourself from admin"));
                    }
                },
                None => {},
            }
        }
        match &self.password {
            Some(password) => check_password(password.as_str()),
            None => Ok(()),
        }
    }
}

/// Checks the request of `administrator` to delete the user `target`: nobody deletes his own
/// account.
pub fn check_deletion(target: u128, administrator: u128) -> (r: Result<(), String>)
    ensures
        target == administrator ==> (r matches Err(reason) && reason@
            == "Cannot delete your own account"@),
        target != administrator ==> r is Ok,
{
    if target == administrator {
        Err(String::from_str("Cannot delete your own account"))
    } else {
        Ok(())
    }
}

} // verus!
