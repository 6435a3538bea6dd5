//! The requests the tool sends to the GitLab API (their paths) and how it
//! reads the status of the answers.
use vstd::prelude::*;
use crate::config::Config;
use crate::encoding::{url_encode, url_encoded};
use crate::error::GlpError;
use crate::text::{decimal, u64_to_decimal};

verus! {

/// `/projects/<project, encoded>` for the project of `config`.
pub open spec fn project_prefix(config: Config) -> Seq<char> {
    "/projects/"@ + url_encoded(config.project@)
}

/// `name` followed by the encoded `value`, when there is a value.
pub open spec fn query_param(name: Seq<char>, value: Option<Seq<char>>) -> Seq<char> {
    match value {
        Some(v) => name + url_encoded(v),
        None => Seq::empty(),
    }
}

/// The view of an optional text.
pub open spec fn opt_str_view(o: Option<&str>) -> Option<Seq<char>> {
    match o {
        Some(s) => Some(s@),
        None => None,
    }
}

/// Path that lists the latest pipeline of the project, for a ref and/or a commit.
pub open spec fn list_pipelines_path_of(
    config: Config,
    git_ref: Option<Seq<char>>,
    sha: Option<Seq<char>>,
) -> Seq<char> {
    project_prefix(config) + "/pipelines?per_page=1"@ + query_param("&ref="@, git_ref)
        + query_param("&sha="@, sha)
}

fn append_param(path: &mut String, name: &str, value: Option<&str>)
    ensures
        final(path)@ == old(path)@ + query_param(name@, opt_str_view(value)),
{
    if let Some(v) = value {
        path.append(name);
        let encoded = url_encode(v);
        path.append(encoded.as_str());
    }
}

fn project_path(config: &Config) -> (r: String)
    ensures
        r@ == project_prefix(*config),
{
    let mut r = String::from_str("/projects/");
    let project = config.project_encoded();
    r.append(project.as_str());
    r
}

/// The path that lists the latest pipeline for `git_ref` (a branch or tag)
/// and/or `sha` (a commit).
pub fn list_pipelines_path(config: &Config, git_ref: Option<&str>, sha: Option<&str>) -> (r:
    String)
    ensures
        r@ == list_pipelines_path_of(*config, opt_str_view(git_ref), opt_str_view(sha)),
{
    let mut r = project_path(config);
    r.append("/pipelines?per_page=1");
    append_param(&mut r, "&ref=", git_ref);
    append_param(&mut r, "&sha=", sha);
    r
}

/// The project path followed by `middle`, the decimal id and `tail`.
fn id_path(config: &Config, middle: &str, id: u64, tail: &str) -> (r: String)
    ensures
        r@ == project_prefix(*config) + middle@ + decimal(id as nat) + tail@,
{
    let mut r = project_path(config);
    r.append(middle);
    let digits = u64_to_decimal(id);
    r.append(digits.as_str());
    r.append(tail);
    r
}

/// The path of one pipeline.
pub fn pipeline_path(config: &Config, pipeline_id: u64) -> (r: String)
    ensures
        r@ == project_prefix(*config) + "/pipelines/"@ + decimal(pipeline_id as nat),
{
    let r = id_path(config, "/pipelines/", pipeline_id, "");
    proof {
        reveal_strlit("");
    }
    assert(r@ =~= project_prefix(*config) + "/pipelines/"@ + decimal(pipeline_id as nat));
    r
}

/// The path that lists the jobs of a pipeline (up to a hundred).
pub fn pipeline_jobs_path(config: &Config, pipeline_id: u64) -> (r: String)
    ensures
        r@ == project_prefix(*config) + "/pipelines/"@ + decimal(pipeline_id as nat)
            + "/jobs?per_page=100"@,
{
    id_path(config, "/pipelines/", pipeline_id, "/jobs?per_page=100")
}

/// The path of the log of a job.
pub fn job_log_path(config: &Config, job_id: u64) -> (r: String)
    ensures
        r@ == project_prefix(*config) + "/jobs/"@ + decimal(job_id as nat) + "/trace"@,
{
    id_path(config, "/jobs/", job_id, "/trace")
}

/// The path that retries a job.
pub fn retry_job_path(config: &Config, job_id: u64) -> (r: String)
    ensures
        r@ == project_prefix(*config) + "/jobs/"@ + decimal(job_id as nat) + "/retry"@,
{
    id_path(config, "/jobs/", job_id, "/retry")
}

/// Whether an HTTP status code reports success (the 2xx codes).
pub fn is_success_status(code: u16) -> (b: bool)
    ensures
        b == (200 <= code <= 299),
{
    200 <= code && code <= 299
}

/// The error for an answer that reports failure: its status line (such as
/// `403 Forbidden`), a colon and the body of the answer.
pub fn api_error(status: &str, body: &str) -> (e: GlpError)
    ensures
        e matches GlpError::Api(m) && m@ == status@ + ": "@ + body@,
{
    let mut m = status.to_owned();
    m.append(": ");
    m.append(body);
    GlpError::Api(m)
}

/// The error for an answer that reports failure, given its status line and
/// its body if the body could be read (an unreadable body counts as empty).
pub fn failed_answer(status: &str, body: Option<String>) -> (e: GlpError)
    ensures
        e matches GlpError::Api(m) && m@ == status@ + ": "@ + match body {
            Some(b) => b@,
            None => Seq::empty(),
        },
{
    match body {
        Some(b) => api_error(status, b.as_str()),
        None => {
            let e = api_error(status, "");
            proof {
                reveal_strlit("");
            }
            e
        },
    }
}

/// The error for a request that failed on the way, or whose answer could
/// not be decoded: the HTTP client's message.
pub fn transport_error(message: String) -> (e: GlpError)
    ensures
        e matches GlpError::Http(m) && m@ == message@,
{
    GlpError::Http(message)
}

} // verus!
