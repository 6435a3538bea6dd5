use glp::commands::jobs::require_jobs;
use glp::commands::status::{
    after_branch_query, after_sha_query, begin_resolution, find_pipeline, pipeline_query,
    HeadStep, ResolvedRef,
};
use glp::error::GlpError;
use glp::git::CommandOutcome;

#[derive(Debug)]
struct TestPipeline {
    id: u64,
    git_ref: String,
}

fn valid_pipeline() -> Option<TestPipeline> {
    Some(TestPipeline { id: 741, git_ref: "main".to_string() })
}

#[test]
fn find_pipeline_returns_first() {
    let pipelines = vec![valid_pipeline()];
    let result = find_pipeline(pipelines, "main").unwrap();
    assert_eq!(result.id, 741);
    assert_eq!(result.git_ref, "main");
}

#[test]
fn find_pipeline_empty_returns_no_pipeline_error() {
    let result = find_pipeline::<TestPipeline>(vec![], "main");
    assert!(matches!(result, Err(GlpError::NoPipeline(ref r)) if r == "main"));
}

#[test]
fn find_pipeline_invalid_json_returns_api_error() {
    let pipelines: Vec<Option<TestPipeline>> = vec![None];
    let result = find_pipeline(pipelines, "main");
    assert!(matches!(result, Err(GlpError::Api(_))));
}

#[test]
fn find_pipeline_empty_with_sha_includes_sha_in_error() {
    let sha = "abc123def456789";
    let result = find_pipeline::<TestPipeline>(vec![], sha);
    assert!(matches!(result, Err(GlpError::NoPipeline(ref r)) if r == sha));
}

#[test]
fn given_ref_is_used_as_branch() {
    let step = begin_resolution(Some("feature/x".to_string()));
    assert!(matches!(step, HeadStep::Resolved(ResolvedRef::Branch(ref b)) if b == "feature/x"));
    assert!(matches!(begin_resolution(None), HeadStep::QueryBranch));
}

#[test]
fn branch_query_outcomes() {
    let step = after_branch_query(&CommandOutcome::Succeeded("main\n".to_string()));
    assert!(matches!(step, HeadStep::Resolved(ResolvedRef::Branch(ref b)) if b == "main"));
    let step = after_branch_query(&CommandOutcome::Succeeded("HEAD\n".to_string()));
    assert!(matches!(step, HeadStep::QuerySha));
    let step = after_branch_query(&CommandOutcome::Failed);
    assert!(matches!(step, HeadStep::Failed(GlpError::Config(ref m)) if m == "Not in a git repository"));
    let step = after_branch_query(&CommandOutcome::NotRun);
    assert!(matches!(step, HeadStep::Failed(GlpError::Config(ref m)) if m == "Failed to get current branch"));
}

#[test]
fn detached_head_queries_by_sha() {
    let step = after_sha_query(&CommandOutcome::Succeeded("abc123\n".to_string()));
    let resolved = match step {
        HeadStep::Resolved(r) => r,
        other => panic!("unexpected step {:?}", other),
    };
    assert!(matches!(resolved, ResolvedRef::DetachedSha(ref s) if s == "abc123"));
    let q = pipeline_query(&resolved);
    assert_eq!(q.git_ref, None);
    assert_eq!(q.sha, Some("abc123".to_string()));
    assert_eq!(q.label, "abc123");
    let step = after_sha_query(&CommandOutcome::Failed);
    assert!(matches!(step, HeadStep::Failed(GlpError::Config(ref m)) if m == "Failed to get HEAD SHA"));
}

#[test]
fn branch_queries_by_ref() {
    let q = pipeline_query(&ResolvedRef::Branch("main".to_string()));
    assert_eq!(q.git_ref, Some("main".to_string()));
    assert_eq!(q.sha, None);
    assert_eq!(q.label, "main");
}

#[test]
fn require_jobs_empty_is_error() {
    let result = require_jobs::<u64>(vec![], 123);
    assert!(matches!(result, Err(GlpError::Api(ref m)) if m == "No jobs found for pipeline 123"));
    assert_eq!(require_jobs(vec![1u64, 2], 123).unwrap(), vec![1, 2]);
}
