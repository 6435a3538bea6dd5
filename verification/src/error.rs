//! The errors of the tool and the text shown for each.
use vstd::prelude::*;
use crate::text::{decimal, u64_to_decimal};

verus! {

/// What can go wrong while talking to GitLab or setting up.
#[derive(Debug)]
pub enum GlpError {
    /// GitLab answered with an error, or with something unusable.
    Api(String),
    /// The request failed on the way (the message of the HTTP client's error).
    Http(String),
    /// The local setup (git, configuration) could not be used.
    Config(String),
    /// No access token was found.
    NoToken,
    /// No project was given and none could be found from git.
    NoProject,
    /// GitLab has no pipeline for the given ref (or commit).
    NoPipeline(String),
    /// A job with this id does not exist.
    JobNotFound(u64),
}

/// The text shown for an error.
pub open spec fn error_message(e: GlpError) -> Seq<char> {
    match e {
        GlpError::Api(s) => "GitLab API error: "@ + s@,
        GlpError::Http(s) => "HTTP error: "@ + s@,
        GlpError::Config(s) => "Config error: "@ + s@,
        GlpError::NoToken => "No GitLab token found. Set GITLAB_TOKEN or configure glab."@,
        GlpError::NoProject => "Could not determine project. Use --project or run from a git repo."@,
        GlpError::NoPipeline(r) => "No pipeline found for ref '"@ + r@ + "'"@,
        GlpError::JobNotFound(id) => "Job "@ + decimal(id as nat) + " not found"@,
    }
}

impl GlpError {
    /// The text shown for this error.
    pub fn message(&self) -> (m: String)
        ensures
            m@ == error_message(*self),
    {
        match self {
            GlpError::Api(s) => {
                let mut m = String::from_str("GitLab API error: ");
                m.append(s.as_str());
                m
            },
            GlpError::Http(s) => {
                let mut m = String::from_str("HTTP error: ");
                m.append(s.as_str());
                m
            },
            GlpError::Config(s) => {
                let mut m = String::from_str("Config error: ");
                m.append(s.as_str());
                m
            },
            GlpError::NoToken => String::from_str(
                "No GitLab token found. Set GITLAB_TOKEN or configure glab.",
            ),
            GlpError::NoProject => String::from_str(
                "Could not determine project. Use --project or run from a git repo.",
            ),
            GlpError::NoPipeline(r) => {
                let mut m = String::from_str("No pipeline found for ref '");
                m.append(r.as_str());
                m.append("'");
                m
            },
            GlpError::JobNotFound(id) => {
                let mut m = String::from_str("Job ");
                let digits = u64_to_decimal(*id);
                m.append(digits.as_str());
                m.append(" not found");
                m
            },
        }
    }
}

} // verus!
