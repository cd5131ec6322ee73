//! The error type of commit governance.

use vstd::prelude::*;

verus! {

#[verifier::external_type_specification]
#[verifier::external_body]
pub struct ExGitError(git2::Error);

/// Why a governance step failed.
#[derive(Debug)]
pub enum GitGovernanceError {
    GitError(git2::Error),
    InvalidPattern,
}

/// Formats a `git2::Error` with its `Display` impl (the message, then the
/// class and code when they are not the generic ones). Nothing is claimed of
/// the text.
#[verifier::external_body]
fn git_error_text(e: &git2::Error) -> String {
    e.to_string()
}

impl GitGovernanceError {
    /// The display text: `Git error: ` and the git error, or `Invalid pattern`.
    pub fn to_string(&self) -> (s: String)
        ensures
            self is InvalidPattern ==> s@ == "Invalid pattern"@,
            self is GitError ==> s@.len() >= "Git error: "@.len() && s@.subrange(
                0,
                "Git error: "@.len() as int,
            ) == "Git error: "@,
    {
        match self {
            GitGovernanceError::GitError(e) => {
                let mut s = String::from_str("Git error: ");
                let t = git_error_text(e);
                s.append(t.as_str());
                assert(s@.subrange(0, "Git error: "@.len() as int) =~= "Git error: "@);
                s
            },
            GitGovernanceError::InvalidPattern => String::from_str("Invalid pattern"),
        }
    }
}

impl vstd::std_specs::convert::FromSpecImpl<git2::Error> for GitGovernanceError {
    open spec fn obeys_from_spec() -> bool {
        true
    }

    open spec fn from_spec(e: git2::Error) -> Self {
        GitGovernanceError::GitError(e)
    }
}

impl From<git2::Error> for GitGovernanceError {
    fn from(e: git2::Error) -> Self {
        GitGovernanceError::GitError(e)
    }
}

} // verus!
