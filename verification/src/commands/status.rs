//! Finding the pipeline to report on: which ref (or commit) to ask about,
//! and picking the pipeline out of GitLab's answer.
use vstd::prelude::*;
use crate::error::GlpError;
use crate::git::{success_text, CommandOutcome};
use crate::text::same_text;

verus! {

/// What the status is asked for: a branch (or tag), or, on a detached HEAD,
/// the commit.
#[derive(Debug)]
pub enum ResolvedRef {
    Branch(String),
    DetachedSha(String),
}

/// Where finding the ref stands: found, failed, or waiting for the run of
/// `git rev-parse --abbrev-ref HEAD` (the branch) or of `git rev-parse HEAD`
/// (the commit).
#[derive(Debug)]
pub enum HeadStep {
    Resolved(ResolvedRef),
    Failed(GlpError),
    QueryBranch,
    QuerySha,
}

/// The first step: a ref that was given is used as a branch; otherwise git
/// is asked for the current branch.
pub fn begin_resolution(git_ref: Option<String>) -> (step: HeadStep)
    ensures
        match git_ref {
            Some(r) => step matches HeadStep::Resolved(ResolvedRef::Branch(b)) && b@ == r@,
            None => step matches HeadStep::QueryBranch,
        },
{
    match git_ref {
        Some(r) => HeadStep::Resolved(ResolvedRef::Branch(r)),
        None => HeadStep::QueryBranch,
    }
}

/// The step after asking git for the current branch: its name, unless git
/// says `HEAD` (a detached HEAD), in which case the commit is asked for.
pub fn after_branch_query(outcome: &CommandOutcome) -> (step: HeadStep)
    ensures
        match *outcome {
            CommandOutcome::NotRun => step matches HeadStep::Failed(GlpError::Config(m)) && m@
                == "Failed to get current branch"@,
            CommandOutcome::Failed => step matches HeadStep::Failed(GlpError::Config(m)) && m@
                == "Not in a git repository"@,
            CommandOutcome::Succeeded(_) => {
                let b = success_text(*outcome).unwrap();
                if b == "HEAD"@ {
                    step matches HeadStep::QuerySha
                } else {
                    step matches HeadStep::Resolved(ResolvedRef::Branch(name)) && name@ == b
                }
            },
        },
{
    match outcome {
        CommandOutcome::NotRun => HeadStep::Failed(
            GlpError::Config(String::from_str("Failed to get current branch")),
        ),
        CommandOutcome::Failed => HeadStep::Failed(
            GlpError::Config(String::from_str("Not in a git repository")),
        ),
        CommandOutcome::Succeeded(_) => {
            let branch = outcome.trimmed_output().unwrap();
            if same_text(branch.as_str(), "HEAD") {
                HeadStep::QuerySha
            } else {
                HeadStep::Resolved(ResolvedRef::Branch(branch))
            }
        },
    }
}

/// The step after asking git for the commit of a detached HEAD.
pub fn after_sha_query(outcome: &CommandOutcome) -> (step: HeadStep)
    ensures
        match success_text(*outcome) {
            Some(sha) => step matches HeadStep::Resolved(ResolvedRef::DetachedSha(s)) && s@ == sha,
            None => step matches HeadStep::Failed(GlpError::Config(m)) && m@
                == "Failed to get HEAD SHA"@,
        },
{
    match outcome.trimmed_output() {
        Some(sha) => HeadStep::Resolved(ResolvedRef::DetachedSha(sha)),
        None => HeadStep::Failed(GlpError::Config(String::from_str("Failed to get HEAD SHA"))),
    }
}

/// How to ask GitLab for the latest pipeline: by ref or by commit, and the
/// name to report when there is none.
pub struct PipelineQuery {
    pub git_ref: Option<String>,
    pub sha: Option<String>,
    pub label: String,
}

/// The query for a resolved ref: a branch by `ref`, a commit by `sha`.
pub fn pipeline_query(resolved: &ResolvedRef) -> (q: PipelineQuery)
    ensures
        match *resolved {
            ResolvedRef::Branch(b) => q.git_ref matches Some(r) && r@ == b@ && q.sha.is_none()
                && q.label@ == b@,
            ResolvedRef::DetachedSha(s) => q.git_ref.is_none() && (q.sha matches Some(x) && x@
                == s@) && q.label@ == s@,
        },
{
    match resolved {
        ResolvedRef::Branch(b) => PipelineQuery {
            git_ref: Some(b.clone()),
            sha: None,
            label: b.clone(),
        },
        ResolvedRef::DetachedSha(s) => PipelineQuery {
            git_ref: None,
            sha: Some(s.clone()),
            label: s.clone(),
        },
    }
}

/// The pipeline from GitLab's list (each entry as read into a pipeline,
/// `None` when it could not be): the first one; an error naming
/// `ref_label` when the list is empty, an API error when the first entry
/// could not be read.
pub fn find_pipeline<T>(pipelines: Vec<Option<T>>, ref_label: &str) -> (r: Result<T, GlpError>)
    ensures
        pipelines@.len() == 0 ==> (r matches Err(GlpError::NoPipeline(l)) && l@ == ref_label@),
        pipelines@.len() > 0 ==> match pipelines@[0] {
            Some(p) => r == Ok::<T, GlpError>(p),
            None => r matches Err(GlpError::Api(m)) && m@ == "Invalid pipeline response"@,
        },
{
    let mut pipelines = pipelines;
    if pipelines.len() == 0 {
        return Err(GlpError::NoPipeline(ref_label.to_owned()));
    }
    let first = pipelines.swap_remove(0);
    match first {
        Some(p) => Ok(p),
        None => Err(GlpError::Api(String::from_str("Invalid pipeline response"))),
    }
}

} // verus!
