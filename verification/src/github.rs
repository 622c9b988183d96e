//! Sharing a scratch as a gist: the account, and what can go wrong.

use vstd::prelude::*;
use vstd::string::*;

verus! {

/// The account under which gists are created.
#[derive(Debug)]
pub struct GitHub {
    pub access_token: String,
}

/// Why a gist was not created.
#[derive(Debug, Clone, Copy, PartialEq, Eq, Structural)]
pub enum GitHubError {
    NoAuthentication,
    Forbidden,
    NotFound,
    ValidationFailed,
    Unknown,
}

impl Default for GitHub {
    fn default() -> (r: Self)
        ensures
            r.access_token@ == Seq::<char>::empty(),
    {
        GitHub { access_token: String::new() }
    }
}

impl GitHub {
    /// Whether a gist can be asked for: the account has an access token.
    pub fn is_authenticated(&self) -> (r: bool)
        ensures
            r == (self.access_token@.len() > 0),
    {
        !self.access_token.as_str().is_empty()
    }

    /// What stands against asking for a gist: `NoAuthentication` where the
    /// account has no access token, and nothing else.
    pub fn check_authentication(&self) -> (r: Result<(), GitHubError>)
        ensures
            r == (if self.access_token@.len() > 0 {
                Ok::<(), GitHubError>(())
            } else {
                Err::<(), GitHubError>(GitHubError::NoAuthentication)
            }),
    {
        if self.is_authenticated() {
            Ok(())
        } else {
            Err(GitHubError::NoAuthentication)
        }
    }
}

impl GitHubError {
    /// What the error says.
    pub open spec fn text(self) -> Seq<char> {
        match self {
            GitHubError::NoAuthentication => "No access token found"@,
            GitHubError::Forbidden => "Forbidden"@,
            GitHubError::NotFound => "Resource not found"@,
            GitHubError::ValidationFailed => "Validation failed, or the endpoint has been spammed."@,
            GitHubError::Unknown => "Unknnown error occurred"@,
        }
    }

    /// The error that a status of the service stands for: 403 is
    /// `Forbidden`, 404 `NotFound`, 422 `ValidationFailed`, any other
    /// status `Unknown`.
    pub open spec fn of_status(code: u16) -> GitHubError {
        if code == 403 {
            GitHubError::Forbidden
        } else if code == 404 {
            GitHubError::NotFound
        } else if code == 422 {
            GitHubError::ValidationFailed
        } else {
            GitHubError::Unknown
        }
    }

    /// The error that a status of the service stands for.
    pub fn from_status(code: u16) -> (r: Self)
        ensures
            r == GitHubError::of_status(code),
    {
        match code {
            403 => GitHubError::Forbidden,
            404 => GitHubError::NotFound,
            422 => GitHubError::ValidationFailed,
            _ => GitHubError::Unknown,
        }
    }

    /// What the error says.
    pub fn to_string(&self) -> (r: String)
        ensures
            r@ == self.text(),
    {
        match self {
            GitHubError::NoAuthentication => String::from_str("No access token found"),
            GitHubError::Forbidden => String::from_str("Forbidden"),
            GitHubError::NotFound => String::from_str("Resource not found"),
            GitHubError::ValidationFailed => String::from_str(
                "Validation failed, or the endpoint has been spammed.",
            ),
            GitHubError::Unknown => String::from_str("Unknnown error occurred"),
        }
    }
}

} // verus!
