//! Listing the jobs of a pipeline.
use vstd::prelude::*;
use crate::error::GlpError;
use crate::text::{decimal, u64_to_decimal};

verus! {

/// The jobs themselves when there are any; otherwise an API error that
/// names the pipeline.
pub fn require_jobs<T>(jobs: Vec<T>, pipeline_id: u64) -> (r: Result<Vec<T>, GlpError>)
    ensures
        jobs@.len() > 0 ==> (r matches Ok(v) && v@ == jobs@),
        jobs@.len() == 0 ==> (r matches Err(GlpError::Api(m)) && m@
            == "No jobs found for pipeline "@ + decimal(pipeline_id as nat)),
{
    if jobs.len() == 0 {
        let mut m = String::from_str("No jobs found for pipeline ");
        m.append(u64_to_decimal(pipeline_id).as_str());
        Err(GlpError::Api(m))
    } else {
        Ok(jobs)
    }
}

} // verus!
