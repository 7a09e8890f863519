use crate::text::{chars_of, string_of};
use vstd::prelude::*;

verus! {

/// What it takes to create an issue: the repository as `owner/repo`, the token, and the
/// labels that the issue gets.
#[derive(Debug)]
pub struct GhCfg {
    pub repo: String,
    pub token: String,
    pub default_labels: Vec<String>,
}

/// Why no issue can be created.
#[derive(Debug, Clone, Copy, PartialEq, Eq, Structural)]
pub enum GithubError {
    /// The repository's name holds no slash.
    InvalidRepo,
}

/// The owner and the name of a repository written as `owner/repo`: what stands before the
/// first slash, and what stands behind it.
pub fn split_repo(repo: &str) -> (parts: Result<(String, String), GithubError>)
    ensures
        match parts {
            Ok((owner, name)) => !owner@.contains('/') && repo@ == owner@ + seq!['/'] + name@,
            Err(error) => !repo@.contains('/') && error == GithubError::InvalidRepo,
        },
{
    let chars = chars_of(repo);
    let mut i: usize = 0;
    while i < chars.len()
        invariant
            i <= chars.len(),
            chars@ == repo@,
            forall|j: int| 0 <= j < i ==> chars@[j] != '/',
        decreases chars.len() - i,
    {
        if chars[i] == '/' {
            let owner = string_of(&chars, 0, i);
            let name = string_of(&chars, i + 1, chars.len());
            proof {
                let joined = owner@ + seq!['/'] + name@;
                assert(joined.len() == chars@.len());
                assert forall|j: int| 0 <= j < joined.len() implies joined[j] == chars@[j] by {
                    if j < i {
                    } else if j == i {
                    } else {
                        assert(joined[j] == name@[j - i - 1]);
                    }
                }
                assert(chars@ =~= joined);
                assert(repo@ == owner@ + seq!['/'] + name@);
                assert forall|j: int| 0 <= j < owner@.len() implies owner@[j] != '/' by {
                    assert(owner@[j] == chars@[j]);
                }
            }
            return Ok((owner, name));
        }
        i += 1;
    }
    Err(GithubError::InvalidRepo)
}

/// What the user reads where the repository's name holds no slash.
pub fn invalid_repo_text(repo: &str) -> (text: String)
    ensures
        text@ == "Invalid repo '"@ + repo@ + "', expected owner/repo"@,
{
    let mut text = String::from_str("Invalid repo '");
    text.append(repo);
    text.append("', expected owner/repo");
    text
}

} // verus!
