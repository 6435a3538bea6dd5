use glp::models::{format_duration, Job, Pipeline};

#[test]
fn format_duration_minutes_and_seconds() {
    assert_eq!(format_duration(154), "2m 34s");
}

#[test]
fn format_duration_zero() {
    assert_eq!(format_duration(0), "0m 00s");
}

#[test]
fn format_duration_seconds_only() {
    assert_eq!(format_duration(45), "0m 45s");
}

#[test]
fn format_duration_large() {
    assert_eq!(format_duration(3661), "61m 01s");
}

#[test]
fn format_duration_u64_max() {
    assert_eq!(format_duration(u64::MAX), "307445734561825860m 15s");
}

#[test]
fn pipeline_duration_str_none_is_dash() {
    let p = Pipeline {
        id: 742,
        git_ref: "feature".to_string(),
        status: "running".to_string(),
        duration: None,
        created_at: "2026-01-31T12:00:00Z".to_string(),
        web_url: "https://gitlab.com/group/project/-/pipelines/742".to_string(),
    };
    assert_eq!(p.duration_str(), "-");
}

#[test]
fn job_duration_str_valid() {
    let job = Job {
        id: 2659,
        name: "test_longline".to_string(),
        status: "failed".to_string(),
        stage: "test".to_string(),
        duration: Some(45),
        created_at: "2026-01-31T12:00:00Z".to_string(),
        started_at: Some("2026-01-31T12:01:00Z".to_string()),
        finished_at: Some("2026-01-31T12:01:45Z".to_string()),
        web_url: "https://gitlab.com/group/project/-/jobs/2659".to_string(),
    };
    assert_eq!(job.duration_str(), "0m 45s");
}
