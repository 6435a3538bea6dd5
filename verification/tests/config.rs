use glp::config::{Config, ConfigSources, Environment, GlabConfig, GlabHost};
use glp::error::GlpError;
use glp::git::CommandOutcome;

fn no_env() -> Environment {
    Environment { gitlab_token: None, gitlab_private_token: None, gitlab_host: None }
}

fn remote(url: &str) -> CommandOutcome {
    CommandOutcome::Succeeded(format!("{}\n", url))
}

#[test]
fn extract_project_from_ssh_url() {
    let url = "git@gitlab.com:group/project.git";
    assert_eq!(Config::extract_project_from_url(url), Some("group/project".to_string()));
}

#[test]
fn extract_project_from_ssh_url_nested() {
    let url = "git@gitlab.com:group/subgroup/project.git";
    assert_eq!(
        Config::extract_project_from_url(url),
        Some("group/subgroup/project".to_string())
    );
}

#[test]
fn extract_project_from_https_url() {
    let url = "https://gitlab.com/group/project.git";
    assert_eq!(Config::extract_project_from_url(url), Some("group/project".to_string()));
}

#[test]
fn extract_project_from_https_url_no_git_suffix() {
    let url = "https://gitlab.com/group/project";
    assert_eq!(Config::extract_project_from_url(url), Some("group/project".to_string()));
}

#[test]
fn extract_host_from_ssh_url() {
    let url = "git@gitlab.example.com:group/project.git";
    assert_eq!(Config::extract_host_from_url(url), Some("gitlab.example.com".to_string()));
}

#[test]
fn extract_host_from_https_url() {
    let url = "https://gitlab.example.com/group/project.git";
    assert_eq!(Config::extract_host_from_url(url), Some("gitlab.example.com".to_string()));
}

#[test]
fn extract_from_unparsable_url_is_none() {
    assert_eq!(Config::extract_host_from_url("not a url"), None);
    assert_eq!(Config::extract_project_from_url("not a url"), None);
}

#[test]
fn extract_project_from_ssh_url_without_colon_is_none() {
    assert_eq!(Config::extract_project_from_url("git@gitlab.com"), None);
    assert_eq!(Config::extract_host_from_url("git@gitlab.com"), Some("gitlab.com".to_string()));
}

#[test]
fn extract_project_strips_every_git_suffix() {
    assert_eq!(
        Config::extract_project_from_url("git@h:a/b.git.git"),
        Some("a/b".to_string())
    );
    assert_eq!(Config::project_from_url_path("//group/project.git"), "group/project");
}

#[test]
fn api_url_builds_correctly() {
    let config = Config {
        token: "test".to_string(),
        host: "gitlab.example.com".to_string(),
        project: "group/project".to_string(),
    };
    assert_eq!(
        config.api_url("/projects/123/pipelines"),
        "https://gitlab.example.com/api/v4/projects/123/pipelines"
    );
}

#[test]
fn project_encoded_encodes_slashes() {
    let config = Config {
        token: "test".to_string(),
        host: "gitlab.com".to_string(),
        project: "group/subgroup/project".to_string(),
    };
    assert_eq!(config.project_encoded(), "group%2Fsubgroup%2Fproject");
}

#[test]
fn project_encoded_encodes_utf8_bytes() {
    let config = Config {
        token: "test".to_string(),
        host: "gitlab.com".to_string(),
        project: "grüppe/a b~c".to_string(),
    };
    assert_eq!(config.project_encoded(), "gr%C3%BCppe%2Fa%20b~c");
}

#[test]
fn resolve_token_from_gitlab_token_env() {
    let env = Environment {
        gitlab_token: Some("tok-from-env".to_string()),
        gitlab_private_token: None,
        gitlab_host: None,
    };
    let config = GlabConfig::default();
    let result = Config::resolve_token(&config, "gitlab.com", &env);
    assert_eq!(result.unwrap(), "tok-from-env");
}

#[test]
fn resolve_token_from_gitlab_private_token_env() {
    let env = Environment {
        gitlab_token: None,
        gitlab_private_token: Some("private-tok".to_string()),
        gitlab_host: None,
    };
    let config = GlabConfig::default();
    let result = Config::resolve_token(&config, "gitlab.com", &env);
    assert_eq!(result.unwrap(), "private-tok");
}

#[test]
fn resolve_token_from_glab_config() {
    let hosts = vec![(
        "gitlab.com".to_string(),
        GlabHost { token: Some("glab-tok".to_string()) },
    )];
    let config = GlabConfig { host: None, hosts: Some(hosts) };
    let result = Config::resolve_token(&config, "gitlab.com", &no_env());
    assert_eq!(result.unwrap(), "glab-tok");
}

#[test]
fn resolve_token_missing_returns_no_token() {
    let config = GlabConfig::default();
    let result = Config::resolve_token(&config, "gitlab.com", &no_env());
    assert!(matches!(result, Err(GlpError::NoToken)));
}

#[test]
fn resolve_token_ignores_empty_glab_token_and_other_hosts() {
    let hosts = vec![
        ("other.com".to_string(), GlabHost { token: Some("other".to_string()) }),
        ("gitlab.com".to_string(), GlabHost { token: Some(String::new()) }),
    ];
    let config = GlabConfig { host: None, hosts: Some(hosts) };
    let result = Config::resolve_token(&config, "gitlab.com", &no_env());
    assert!(matches!(result, Err(GlpError::NoToken)));
}

#[test]
fn resolve_host_from_env_var() {
    let env = Environment {
        gitlab_token: None,
        gitlab_private_token: None,
        gitlab_host: Some("env.gitlab.com".to_string()),
    };
    let config = GlabConfig::default();
    let result = Config::resolve_host(&config, &env, &CommandOutcome::NotRun);
    assert_eq!(result, "env.gitlab.com");
}

#[test]
fn resolve_host_default_fallback() {
    let config = GlabConfig::default();
    let result = Config::resolve_host(&config, &no_env(), &CommandOutcome::Failed);
    assert_eq!(result, "gitlab.com");
}

#[test]
fn resolve_host_env_takes_priority() {
    let env = Environment {
        gitlab_token: None,
        gitlab_private_token: None,
        gitlab_host: Some("priority.gitlab.com".to_string()),
    };
    let config = GlabConfig { host: Some("config.gitlab.com".to_string()), hosts: None };
    let result = Config::resolve_host(&config, &env, &remote("git@remote.com:g/p.git"));
    assert_eq!(result, "priority.gitlab.com");
}

#[test]
fn resolve_host_remote_before_glab_default() {
    let config = GlabConfig { host: Some("config.gitlab.com".to_string()), hosts: None };
    let from_remote = Config::resolve_host(&config, &no_env(), &remote("git@remote.com:g/p.git"));
    assert_eq!(from_remote, "remote.com");
    let from_config = Config::resolve_host(&config, &no_env(), &CommandOutcome::Failed);
    assert_eq!(from_config, "config.gitlab.com");
}

#[test]
fn resolve_project_with_override() {
    let result =
        Config::resolve_project(Some("my-group/my-project".to_string()), &CommandOutcome::NotRun);
    assert_eq!(result.unwrap(), "my-group/my-project");
}

#[test]
fn resolve_project_override_takes_priority() {
    // Even if git remote exists, override should win
    let result = Config::resolve_project(
        Some("override/project".to_string()),
        &remote("git@gitlab.com:group/project.git"),
    );
    assert_eq!(result.unwrap(), "override/project");
}

#[test]
fn resolve_project_from_remote_or_error() {
    let result = Config::resolve_project(None, &remote("https://gitlab.com/group/project.git"));
    assert_eq!(result.unwrap(), "group/project");
    let result = Config::resolve_project(None, &CommandOutcome::Failed);
    assert!(matches!(result, Err(GlpError::NoProject)));
}

#[test]
fn api_url_localhost_uses_http() {
    let config = Config {
        token: "test".to_string(),
        host: "127.0.0.1:1234".to_string(),
        project: "group/project".to_string(),
    };
    assert_eq!(
        config.api_url("/projects/123/pipelines"),
        "http://127.0.0.1:1234/api/v4/projects/123/pipelines"
    );
    let config = Config {
        token: "test".to_string(),
        host: "localhost:8080".to_string(),
        project: "group/project".to_string(),
    };
    assert_eq!(config.api_url("/x"), "http://localhost:8080/api/v4/x");
}

#[test]
fn load_resolves_in_order() {
    let sources = ConfigSources {
        env: no_env(),
        git_remote: remote("git@gitlab.example.com:group/project.git"),
        glab_config: GlabConfig {
            host: None,
            hosts: Some(vec![(
                "gitlab.example.com".to_string(),
                GlabHost { token: Some("glab-tok".to_string()) },
            )]),
        },
    };
    let config = Config::load(None, &sources).unwrap();
    assert_eq!(config.host, "gitlab.example.com");
    assert_eq!(config.token, "glab-tok");
    assert_eq!(config.project, "group/project");
}

#[test]
fn load_reports_missing_token_before_missing_project() {
    let sources = ConfigSources {
        env: no_env(),
        git_remote: CommandOutcome::NotRun,
        glab_config: GlabConfig::default(),
    };
    assert!(matches!(Config::load(None, &sources), Err(GlpError::NoToken)));
    let sources = ConfigSources {
        env: Environment {
            gitlab_token: Some("t".to_string()),
            gitlab_private_token: None,
            gitlab_host: None,
        },
        git_remote: CommandOutcome::NotRun,
        glab_config: GlabConfig::default(),
    };
    assert!(matches!(Config::load(None, &sources), Err(GlpError::NoProject)));
}

#[test]
fn remote_output_is_trimmed() {
    let out = CommandOutcome::Succeeded("  git@h.example:g/p.git \r\n".to_string());
    assert_eq!(Config::parse_git_remote(&out), Some("g/p".to_string()));
    assert_eq!(Config::extract_host_from_remote(&out), Some("h.example".to_string()));
    assert_eq!(out.trimmed_output(), Some("git@h.example:g/p.git".to_string()));
}

#[test]
fn resolve_token_uses_the_entry_of_the_host() {
    let env = Environment {
        gitlab_token: Some("a".to_string()),
        gitlab_private_token: Some("b".to_string()),
        gitlab_host: None,
    };
    let config = GlabConfig::default();
    assert_eq!(Config::resolve_token(&config, "gitlab.com", &env).unwrap(), "a");
    let hosts = vec![
        ("a.example".to_string(), GlabHost { token: Some("ta".to_string()) }),
        ("b.example".to_string(), GlabHost { token: Some("tb".to_string()) }),
    ];
    let config = GlabConfig { host: None, hosts: Some(hosts) };
    assert_eq!(Config::resolve_token(&config, "b.example", &no_env()).unwrap(), "tb");
    assert!(matches!(
        Config::resolve_token(&config, "c.example", &no_env()),
        Err(GlpError::NoToken)
    ));
}
