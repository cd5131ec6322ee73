//! Loading commits from a repository.

use vstd::prelude::*;
use crate::governance::error::GitGovernanceError;
use crate::governance::types::{CommitData, CommitMetadata};

verus! {

/// The commit this adapter loads for `oid`: author `test`, email
/// `test@example.com`, message `stub`, no parents, no changed files and no
/// signature.
pub open spec fn stub_commit(c: CommitData, oid: Seq<char>) -> bool {
    &&& c.metadata.oid@ == oid
    &&& c.metadata.author@ == "test"@
    &&& c.metadata.email@ == "test@example.com"@
    &&& c.metadata.message@ == "stub"@
    &&& c.metadata.parent_oids@.len() == 0
    &&& c.diff@.len() == 0
    &&& c.raw_signature is None
}

/// Reads commits; this adapter answers with a fixed test commit.
pub struct GitAdapter;

impl GitAdapter {
    /// The commit with this object id: author `test`, email
    /// `test@example.com`, message `stub`, no parents, no changed files and no
    /// signature.
    pub fn load_commit(&self, _repo_path: &str, commit_oid: &str) -> (r: Result<CommitData, GitGovernanceError>)
        ensures
            r matches Ok(c) && stub_commit(c, commit_oid@),
    {
        proof {
            reveal_strlit("test");
            reveal_strlit("test@example.com");
            reveal_strlit("stub");
        }
        Ok(
            CommitData {
                metadata: CommitMetadata {
                    oid: String::from_str(commit_oid),
                    author: String::from_str("test"),
                    email: String::from_str("test@example.com"),
                    message: String::from_str("stub"),
                    parent_oids: Vec::new(),
                },
                diff: Vec::new(),
                raw_signature: None,
            },
        )
    }
}

} // verus!
