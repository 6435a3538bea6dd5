use glp::models::{Job, Pipeline};
use glp::output::{
    can_truncate, jobs_table_header, jobs_table_row, pipeline_header, status_style,
    status_table_header, status_table_row, truncate, StatusStyle,
};

#[test]
fn truncate_short_string_unchanged() {
    assert_eq!(truncate("hello", 10), "hello");
}

#[test]
fn truncate_exact_length_unchanged() {
    assert_eq!(truncate("hello", 5), "hello");
}

#[test]
fn truncate_long_string_adds_ellipsis() {
    assert_eq!(truncate("hello world!", 8), "hello...");
}

#[test]
fn truncate_min_length() {
    assert_eq!(truncate("abcdef", 3), "...");
    assert_eq!(truncate("abcdef", 4), "a...");
}

#[test]
fn truncate_counts_bytes_not_chars() {
    // "ééé" is six bytes: it does not fit in five.
    assert_eq!(truncate("ééé", 5), "é...");
    assert_eq!(truncate("ééé", 6), "ééé");
}

#[test]
fn can_truncate_reports_char_boundaries() {
    assert!(can_truncate("short", 20));
    assert!(can_truncate("abcdef", 3));
    assert!(!can_truncate("abcdef", 2));
    // cutting "ééé" after 4 - 3 = 1 byte would split a character
    assert!(!can_truncate("ééé", 4));
}

#[test]
fn status_style_success_variants() {
    assert_eq!(status_style("success"), StatusStyle::Green);
    assert_eq!(status_style("passed"), StatusStyle::Green);
}

#[test]
fn status_style_all_known_statuses() {
    assert_eq!(status_style("failed"), StatusStyle::Red);
    assert_eq!(status_style("running"), StatusStyle::Blue);
    assert_eq!(status_style("pending"), StatusStyle::Yellow);
    assert_eq!(status_style("canceled"), StatusStyle::Magenta);
    assert_eq!(status_style("cancelled"), StatusStyle::Magenta);
    assert_eq!(status_style("skipped"), StatusStyle::Dimmed);
}

#[test]
fn status_style_unknown_falls_through() {
    assert_eq!(status_style("manual"), StatusStyle::Normal);
    assert_eq!(status_style("Success"), StatusStyle::Normal);
}

fn job(name: &str, id: u64, status: &str, stage: &str, duration: Option<u64>) -> Job {
    Job {
        id,
        name: name.to_string(),
        status: status.to_string(),
        stage: stage.to_string(),
        duration,
        created_at: "2026-01-31T12:00:00Z".to_string(),
        started_at: None,
        finished_at: None,
        web_url: "https://gitlab.com/group/project/-/jobs/1".to_string(),
    }
}

#[test]
fn jobs_table_matches_readme_layout() {
    assert_eq!(
        jobs_table_header(),
        "JOB                  ID       STATUS     DURATION   STAGE"
    );
    let line = jobs_table_row(&job("compile", 67890, "success", "build", Some(83)));
    let text = format!("{}{}{}", line.lead, line.status, line.trail);
    assert_eq!(text, "compile              67890    success    1m 23s     build");
    assert_eq!(line.style, StatusStyle::Green);
}

#[test]
fn jobs_table_row_cuts_long_names() {
    let line = jobs_table_row(&job("a-very-long-job-name-indeed", 1, "skipped", "deploy", None));
    assert_eq!(line.lead, "a-very-long-job-n... 1        ");
    assert_eq!(line.status, "skipped   ");
    assert_eq!(line.trail, " -          deploy");
    assert_eq!(line.style, StatusStyle::Dimmed);
}

#[test]
fn status_table_matches_readme_layout() {
    assert_eq!(status_table_header(), "STAGE        JOB                  STATUS     DURATION");
    let line = status_table_row(&job("unit-tests", 67891, "success", "test", Some(125)));
    let text = format!("{}{}{}", line.lead, line.status, line.trail);
    assert_eq!(text, "test         unit-tests           success    2m 05s");
}

#[test]
fn pipeline_header_matches_readme() {
    let p = Pipeline {
        id: 12345,
        git_ref: "main".to_string(),
        status: "success".to_string(),
        duration: Some(222),
        created_at: "2026-01-31T12:00:00Z".to_string(),
        web_url: "https://gitlab.com/group/project/-/pipelines/12345".to_string(),
    };
    let line = pipeline_header(&p);
    let text = format!("{}{}{}", line.lead, line.status, line.trail);
    assert_eq!(text, "Pipeline #12345 (main) - success [3m 42s]");
    assert_eq!(line.style, StatusStyle::Green);
}

#[test]
fn can_truncate_inside_a_character_is_refused() {
    // byte 3 of "ééééé" lies inside the second character
    assert!(!can_truncate("ééééé", 6));
    assert!(can_truncate("ééééé", 5));
    assert_eq!(truncate("ééééé", 5), "é...");
}
