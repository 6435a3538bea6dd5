//! Where the token, the GitLab host and the project come from, and the URLs
//! that the API is reached at.
use vstd::prelude::*;
use crate::encoding::{url_encode, url_encoded};
use crate::error::GlpError;
use crate::git::{success_text, CommandOutcome};
use crate::text::{
    char_index, find_char, lemma_char_index, lemma_char_index_concat, opt_view, same_text, starts_with, strip_leading,
    strip_trailing, trim_end_matches, trim_start_char,
};
use crate::url_parts::{parse_url, url_host, url_parses, url_path};

verus! {

/// What the tool needs to reach a project on a GitLab instance.
#[derive(Debug)]
pub struct Config {
    pub token: String,
    pub host: String,
    pub project: String,
}

/// The settings of one host in glab's configuration file.
#[derive(Debug)]
pub struct GlabHost {
    pub token: Option<String>,
}

/// What the tool reads of glab's configuration file: the default host and
/// the settings of each host.  The file maps host names to settings, so each
/// host name has one entry at most (`glab_hosts_distinct`).
#[derive(Debug)]
pub struct GlabConfig {
    pub host: Option<String>,
    pub hosts: Option<Vec<(String, GlabHost)>>,
}

impl Default for GlabConfig {
    fn default() -> (c: Self)
        ensures
            c.host.is_none(),
            c.hosts.is_none(),
    {
        GlabConfig { host: None, hosts: None }
    }
}

/// The environment variables the tool reads; `None` when one is unset (or
/// not valid Unicode).
#[derive(Debug)]
pub struct Environment {
    /// `GITLAB_TOKEN`
    pub gitlab_token: Option<String>,
    /// `GITLAB_PRIVATE_TOKEN`
    pub gitlab_private_token: Option<String>,
    /// `GITLAB_HOST`
    pub gitlab_host: Option<String>,
}

/// Everything the configuration is resolved from.
pub struct ConfigSources {
    pub env: Environment,
    /// The run of `git remote get-url origin`.
    pub git_remote: CommandOutcome,
    /// glab's configuration (empty when no file could be read and parsed).
    pub glab_config: GlabConfig,
}

/// The token of the first entry for `host`, when it has a non-empty one.
pub open spec fn host_entry_token(entries: Seq<(String, GlabHost)>, host: Seq<char>) -> Option<
    Seq<char>,
>
    decreases entries.len(),
{
    if entries.len() == 0 {
        None
    } else if entries[0].0@ == host {
        match entries[0].1.token {
            Some(t) => if t@.len() > 0 {
                Some(t@)
            } else {
                None
            },
            None => None,
        }
    } else {
        host_entry_token(entries.drop_first(), host)
    }
}

/// The token of one host entry, when it is non-empty.
pub open spec fn entry_token(entry: (String, GlabHost)) -> Option<Seq<char>> {
    match entry.1.token {
        Some(t) => if t@.len() > 0 {
            Some(t@)
        } else {
            None
        },
        None => None,
    }
}

/// No two entries name the same host.
pub open spec fn hosts_distinct(entries: Seq<(String, GlabHost)>) -> bool {
    forall|i: int, j: int|
        0 <= i < j < entries.len() ==> #[trigger] entries[i].0@ != #[trigger] entries[j].0@
}

/// glab's configuration has one entry at most per host name, as a map does.
pub open spec fn glab_hosts_distinct(cfg: GlabConfig) -> bool {
    match cfg.hosts {
        Some(entries) => hosts_distinct(entries@),
        None => true,
    }
}

/// The lookup finds the first entry for `host`.
proof fn lemma_first_entry_token(entries: Seq<(String, GlabHost)>, host: Seq<char>, i: int)
    requires
        0 <= i < entries.len(),
        entries[i].0@ == host,
        forall|j: int| 0 <= j < i ==> entries[j].0@ != host,
    ensures
        host_entry_token(entries, host) == entry_token(entries[i]),
    decreases i,
{
    if i > 0 {
        let rest = entries.drop_first();
        assert forall|j: int| 0 <= j < i - 1 implies rest[j].0@ != host by {
            assert(rest[j] == entries[j + 1]);
        }
        lemma_first_entry_token(rest, host, i - 1);
    }
}

/// The lookup finds nothing when no entry is for `host`.
proof fn lemma_no_entry_token(entries: Seq<(String, GlabHost)>, host: Seq<char>)
    requires
        forall|j: int| 0 <= j < entries.len() ==> entries[j].0@ != host,
    ensures
        host_entry_token(entries, host).is_none(),
    decreases entries.len(),
{
    if entries.len() > 0 {
        let rest = entries.drop_first();
        assert forall|j: int| 0 <= j < rest.len() implies rest[j].0@ != host by {
            assert(rest[j] == entries[j + 1]);
        }
        lemma_no_entry_token(rest, host);
    }
}

/// Law: when neither token variable is set and the host names of glab's
/// configuration are distinct, the token is that of the one entry for
/// `host` when it is non-empty, and there is none when no entry is for
/// `host` (or glab's configuration lists no hosts).
pub proof fn lemma_glab_token_of_host_entry(env: Environment, cfg: GlabConfig, host: Seq<char>)
    requires
        env.gitlab_token.is_none(),
        env.gitlab_private_token.is_none(),
        glab_hosts_distinct(cfg),
    ensures
        match cfg.hosts {
            Some(entries) => {
                &&& forall|i: int|
                    0 <= i < entries@.len() && #[trigger] entries@[i].0@ == host ==> token_choice(
                        env,
                        cfg,
                        host,
                    ) == entry_token(entries@[i])
                &&& (forall|i: int| 0 <= i < entries@.len() ==> #[trigger] entries@[i].0@ != host)
                    ==> token_choice(env, cfg, host).is_none()
            },
            None => token_choice(env, cfg, host).is_none(),
        },
{
    if let Some(entries) = cfg.hosts {
        let e = entries@;
        assert forall|i: int| 0 <= i < e.len() && #[trigger] e[i].0@ == host implies token_choice(
            env,
            cfg,
            host,
        ) == entry_token(e[i]) by {
            assert forall|j: int| 0 <= j < i implies e[j].0@ != host by {
                assert(e[j].0@ != e[i].0@);
            }
            lemma_first_entry_token(e, host, i);
        }
        if forall|i: int| 0 <= i < e.len() ==> #[trigger] e[i].0@ != host {
            lemma_no_entry_token(e, host);
        }
    }
}

/// The token that glab's configuration holds for `host`.
pub open spec fn glab_token(cfg: GlabConfig, host: Seq<char>) -> Option<Seq<char>> {
    match cfg.hosts {
        Some(entries) => host_entry_token(entries@, host),
        None => None,
    }
}

/// The token, by priority: `GITLAB_TOKEN`, `GITLAB_PRIVATE_TOKEN`, then
/// glab's token for the host.
pub open spec fn token_choice(env: Environment, cfg: GlabConfig, host: Seq<char>) -> Option<
    Seq<char>,
> {
    match env.gitlab_token {
        Some(t) => Some(t@),
        None => match env.gitlab_private_token {
            Some(t) => Some(t@),
            None => glab_token(cfg, host),
        },
    }
}

/// The host named by a git remote URL: for `git@host:path` the text between
/// `git@` and the first `:`, otherwise the host of the parsed URL.
pub open spec fn host_of_url(u: Seq<char>) -> Option<Seq<char>> {
    if "git@"@.is_prefix_of(u) {
        let rest = u.skip("git@"@.len() as int);
        Some(rest.take(char_index(rest, ':')))
    } else if url_parses(u) {
        url_host(u)
    } else {
        None
    }
}

/// The project path held by the path of an HTTP(S) remote URL: without its
/// leading slashes and trailing `.git`s.
pub open spec fn project_of_path(path: Seq<char>) -> Seq<char> {
    strip_trailing(strip_leading(path, '/'), ".git"@)
}

/// The project named by a git remote URL: for `git@host:path` the text
/// after the first `:` up to the next one, without trailing `.git`s;
/// otherwise the project held by the path of the parsed URL.
pub open spec fn project_of_url(u: Seq<char>) -> Option<Seq<char>> {
    if "git@"@.is_prefix_of(u) {
        let i = char_index(u, ':');
        if i == u.len() {
            None
        } else {
            let rest = u.skip(i + 1);
            Some(strip_trailing(rest.take(char_index(rest, ':')), ".git"@))
        }
    } else if url_parses(u) {
        Some(project_of_path(url_path(u)))
    } else {
        None
    }
}

/// The host named by the remote `origin`, if git reported it.
pub open spec fn remote_host(remote: CommandOutcome) -> Option<Seq<char>> {
    match success_text(remote) {
        Some(u) => host_of_url(u),
        None => None,
    }
}

/// The project named by the remote `origin`, if git reported it.
pub open spec fn remote_project(remote: CommandOutcome) -> Option<Seq<char>> {
    match success_text(remote) {
        Some(u) => project_of_url(u),
        None => None,
    }
}

/// The host, by priority: `GITLAB_HOST`, the remote `origin`, glab's
/// default host, then `gitlab.com`.
pub open spec fn host_choice(env: Environment, cfg: GlabConfig, remote: CommandOutcome) -> Seq<
    char,
> {
    match env.gitlab_host {
        Some(h) => h@,
        None => match remote_host(remote) {
            Some(h) => h,
            None => match cfg.host {
                Some(h) => h@,
                None => "gitlab.com"@,
            },
        },
    }
}

/// The project, by priority: the `--project` flag, then the remote `origin`.
pub open spec fn project_choice(project_override: Option<String>, remote: CommandOutcome) -> Option<
    Seq<char>,
> {
    match project_override {
        Some(p) => Some(p@),
        None => remote_project(remote),
    }
}

/// Whether requests to `host` go over plain HTTP (a local test server).
pub open spec fn is_local_host(host: Seq<char>) -> bool {
    "127.0.0.1"@.is_prefix_of(host) || "localhost"@.is_prefix_of(host)
}

/// The URL of the API endpoint `path` on `host`.
pub open spec fn api_url_of(host: Seq<char>, path: Seq<char>) -> Seq<char> {
    (if is_local_host(host) {
        "http"@
    } else {
        "https"@
    }) + "://"@ + host + "/api/v4"@ + path
}

/// Law: the host and the project read from an SSH remote
/// `git@<host>:<path>.git` are `host` and `path` (without trailing `.git`s),
/// when neither holds a `:`.
pub proof fn lemma_ssh_remote_parts(host: Seq<char>, path: Seq<char>)
    requires
        !host.contains(':'),
        !path.contains(':'),
    ensures
        host_of_url("git@"@ + host + ":"@ + path + ".git"@) == Some(host),
        project_of_url("git@"@ + host + ":"@ + path + ".git"@) == Some(
            strip_trailing(path, ".git"@),
        ),
{
    reveal_strlit("git@");
    reveal_strlit(":");
    reveal_strlit(".git");
    let g = "git@"@;
    let u = g + host + ":"@ + path + ".git"@;
    let tail = path + ".git"@;
    assert(g.is_prefix_of(u)) by {
        assert(u.subrange(0, 4) =~= g);
    }
    // the host
    let rest = u.skip(4);
    assert(rest =~= host + (":"@ + tail));
    lemma_char_index_concat(host, ":"@ + tail, ':');
    assert(rest.take(host.len() as int) =~= host);
    // the project
    assert(!(g + host).contains(':')) by {
        assert forall|j: int| 0 <= j < (g + host).len() implies (g + host)[j] != ':' by {
            if j >= 4 {
                assert((g + host)[j] == host[j - 4]);
            }
        }
    }
    assert(u =~= (g + host) + (":"@ + tail));
    lemma_char_index_concat(g + host, ":"@ + tail, ':');
    let i = char_index(u, ':');
    assert(i == 4 + host.len());
    assert(u.skip(i + 1) =~= tail);
    assert(!tail.contains(':')) by {
        assert forall|j: int| 0 <= j < tail.len() implies tail[j] != ':' by {
            if j < path.len() {
                assert(tail[j] == path[j]);
            }
        }
    }
    lemma_char_index_concat(tail, Seq::empty(), ':');
    assert(tail + Seq::<char>::empty() =~= tail);
    assert(tail.take(tail.len() as int) =~= tail);
    assert(".git"@.is_suffix_of(tail)) by {
        assert(tail.subrange(tail.len() - 4, tail.len() as int) =~= ".git"@);
    }
    assert(tail.subrange(0, tail.len() - 4) =~= path);
}

/// Law: for an SSH remote `git@<host>:<path>` whose host and path hold no
/// `:`, the host is `host` and the project is `path` without its trailing
/// `.git`s, whether or not it ends with `.git`; a path that does not end with
/// `.git` is the project as it stands.
pub proof fn lemma_ssh_remote_any_path(host: Seq<char>, path: Seq<char>)
    requires
        !host.contains(':'),
        !path.contains(':'),
    ensures
        host_of_url("git@"@ + host + ":"@ + path) == Some(host),
        project_of_url("git@"@ + host + ":"@ + path) == Some(strip_trailing(path, ".git"@)),
        !".git"@.is_suffix_of(path) ==> project_of_url("git@"@ + host + ":"@ + path) == Some(path),
{
    reveal_strlit("git@");
    reveal_strlit(":");
    reveal_strlit(".git");
    let g = "git@"@;
    let u = g + host + ":"@ + path;
    assert(g.is_prefix_of(u)) by {
        assert(u.subrange(0, 4) =~= g);
    }
    let rest = u.skip(4);
    assert(rest =~= host + (":"@ + path));
    lemma_char_index_concat(host, ":"@ + path, ':');
    assert(rest.take(host.len() as int) =~= host);
    assert(!(g + host).contains(':')) by {
        assert forall|j: int| 0 <= j < (g + host).len() implies (g + host)[j] != ':' by {
            if j >= 4 {
                assert((g + host)[j] == host[j - 4]);
            }
        }
    }
    assert(u =~= (g + host) + (":"@ + path));
    lemma_char_index_concat(g + host, ":"@ + path, ':');
    let i = char_index(u, ':');
    assert(i == 4 + host.len());
    assert(u.skip(i + 1) =~= path);
    lemma_char_index_concat(path, Seq::empty(), ':');
    assert(path + Seq::<char>::empty() =~= path);
    assert(path.take(path.len() as int) =~= path);
}

/// Law: the project of an HTTP(S) remote is its whole path without the
/// leading `/`s and the trailing `.git`s, nested groups included: for a
/// path `/<p>` where `p` does not start with `/`, the project is `p`
/// without trailing `.git`s, and `p` itself when it does not end in `.git`.
pub proof fn lemma_project_of_whole_path(p: Seq<char>)
    requires
        p.len() == 0 || p[0] != '/',
    ensures
        project_of_path("/"@ + p) == strip_trailing(p, ".git"@),
        project_of_path("/"@ + p + ".git"@) == strip_trailing(p, ".git"@),
        !".git"@.is_suffix_of(p) ==> project_of_path("/"@ + p) == p,
{
    reveal_strlit("/");
    reveal_strlit(".git");
    let a = "/"@ + p;
    assert(a.drop_first() =~= p);
    assert(strip_leading(a, '/') == strip_leading(p, '/'));
    assert(strip_leading(p, '/') == p);
    let b = "/"@ + p + ".git"@;
    let pg = p + ".git"@;
    assert(b.drop_first() =~= pg);
    assert(pg.len() > 0 && (pg[0] != '/')) by {
        if p.len() == 0 {
            assert(pg[0] == '.');
        } else {
            assert(pg[0] == p[0]);
        }
    }
    assert(strip_leading(b, '/') == strip_leading(pg, '/'));
    assert(strip_leading(pg, '/') == pg);
    assert(".git"@.is_suffix_of(pg)) by {
        assert(pg.subrange(pg.len() - 4, pg.len() as int) =~= ".git"@);
    }
    assert(pg.subrange(0, pg.len() - 4) =~= p);
}

/// Law: with `GITLAB_HOST` unset, a remote that names a host decides the
/// host: an SSH remote `git@<host>:...` gives `host`, and any other remote
/// URL that parses with a host gives that host, whatever glab's settings.
pub proof fn lemma_remote_host_decides(
    env: Environment,
    cfg: GlabConfig,
    remote: CommandOutcome,
    u: Seq<char>,
    host: Seq<char>,
    path: Seq<char>,
)
    requires
        env.gitlab_host.is_none(),
        success_text(remote) == Some(u),
    ensures
        !"git@"@.is_prefix_of(u) && url_parses(u) && url_host(u) == Some(host) ==> host_choice(
            env,
            cfg,
            remote,
        ) == host,
        u == "git@"@ + host + ":"@ + path && !host.contains(':') && !path.contains(':')
            ==> host_choice(env, cfg, remote) == host,
{
    if u == "git@"@ + host + ":"@ + path && !host.contains(':') && !path.contains(':') {
        lemma_ssh_remote_any_path(host, path);
    }
}

/// Law: `GITLAB_HOST` decides the host whenever it is set; when it is unset
/// and git reported no remote, glab's default host is used, and `gitlab.com`
/// when glab has none.
pub proof fn lemma_host_fallbacks(env: Environment, cfg: GlabConfig, remote: CommandOutcome)
    ensures
        env.gitlab_host matches Some(h) ==> host_choice(env, cfg, remote) == h@,
        env.gitlab_host.is_none() && success_text(remote).is_none() ==> host_choice(
            env,
            cfg,
            remote,
        ) == match cfg.host {
            Some(h) => h@,
            None => "gitlab.com"@,
        },
{
}

/// Law: requests go over HTTPS to every host that starts with neither
/// `127.0.0.1` nor `localhost` (whatever else it holds, a port included),
/// and over plain HTTP to those that do; the URL is the scheme, `://`, the
/// host, `/api/v4` and the path.
pub proof fn lemma_api_url_scheme(host: Seq<char>, path: Seq<char>)
    ensures
        !"127.0.0.1"@.is_prefix_of(host) && !"localhost"@.is_prefix_of(host) ==> api_url_of(
            host,
            path,
        ) == "https://"@ + host + "/api/v4"@ + path,
        "127.0.0.1"@.is_prefix_of(host) || "localhost"@.is_prefix_of(host) ==> api_url_of(
            host,
            path,
        ) == "http://"@ + host + "/api/v4"@ + path,
        !"127.0.0.1"@.is_prefix_of(host) && !"localhost"@.is_prefix_of(host)
            ==> "https://"@.is_prefix_of(api_url_of(host, path)),
{
    reveal_strlit("https");
    reveal_strlit("http");
    reveal_strlit("://");
    reveal_strlit("https://");
    reveal_strlit("http://");
    assert("https"@ + "://"@ =~= "https://"@);
    assert("http"@ + "://"@ =~= "http://"@);
    let h = "https://"@ + host + "/api/v4"@ + path;
    assert(h.subrange(0, 8) =~= "https://"@);
    assert("https"@ + "://"@ + host + "/api/v4"@ + path =~= h);
    assert("http"@ + "://"@ + host + "/api/v4"@ + path =~= "http://"@ + host + "/api/v4"@ + path);
}

impl Config {
    /// Resolves the configuration from `sources`: the host first, then the
    /// token for it, then the project.
    pub fn load(project_override: Option<String>, sources: &ConfigSources) -> (r: Result<
        Config,
        GlpError,
    >)
        ensures
            ({
                let host = host_choice(sources.env, sources.glab_config, sources.git_remote);
                let token = token_choice(sources.env, sources.glab_config, host);
                let project = project_choice(project_override, sources.git_remote);
                match r {
                    Ok(c) => {
                        &&& c.host@ == host
                        &&& token == Some(c.token@)
                        &&& project == Some(c.project@)
                    },
                    Err(e) => {
                        ||| token.is_none() && e == GlpError::NoToken
                        ||| token.is_some() && project.is_none() && e == GlpError::NoProject
                    },
                }
            }),
    {
        let host = Self::resolve_host(&sources.glab_config, &sources.env, &sources.git_remote);
        let token = match Self::resolve_token(&sources.glab_config, host.as_str(), &sources.env) {
            Ok(t) => t,
            Err(e) => return Err(e),
        };
        let project = match Self::resolve_project(project_override, &sources.git_remote) {
            Ok(p) => p,
            Err(e) => return Err(e),
        };
        Ok(Config { token, host, project })
    }

    /// The token to use for `host`.
    pub fn resolve_token(glab_config: &GlabConfig, host: &str, env: &Environment) -> (r: Result<
        String,
        GlpError,
    >)
        ensures
            match token_choice(*env, *glab_config, host@) {
                Some(t) => r matches Ok(s) && s@ == t,
                None => r matches Err(e) && e == GlpError::NoToken,
            },
    {
        if let Some(t) = &env.gitlab_token {
            return Ok(t.clone());
        }
        if let Some(t) = &env.gitlab_private_token {
            return Ok(t.clone());
        }
        if let Some(hosts) = &glab_config.hosts {
            let n = hosts.len();
            let mut i: usize = 0;
            assert(hosts@.skip(0) =~= hosts@);
            while i < n
                invariant
                    env.gitlab_token.is_none(),
                    env.gitlab_private_token.is_none(),
                    glab_config.hosts == Some(*hosts),
                    n == hosts@.len(),
                    i <= n,
                    host_entry_token(hosts@, host@) == host_entry_token(
                        hosts@.skip(i as int),
                        host@,
                    ),
                decreases n - i,
            {
                assert(hosts@.skip(i as int).drop_first() =~= hosts@.skip(i + 1));
                let (name, entry) = &hosts[i];
                if same_text(name.as_str(), host) {
                    if let Some(t) = &entry.token {
                        if t.as_str().unicode_len() > 0 {
                            return Ok(t.clone());
                        }
                    }
                    return Err(GlpError::NoToken);
                }
                i = i + 1;
            }
        }
        Err(GlpError::NoToken)
    }

    /// The GitLab host to talk to.
    pub fn resolve_host(glab_config: &GlabConfig, env: &Environment, remote: &CommandOutcome) -> (r:
        String)
        ensures
            r@ == host_choice(*env, *glab_config, *remote),
    {
        if let Some(h) = &env.gitlab_host {
            return h.clone();
        }
        if let Some(h) = Self::extract_host_from_remote(remote) {
            return h;
        }
        if let Some(h) = &glab_config.host {
            return h.clone();
        }
        String::from_str("gitlab.com")
    }

    /// The project to work on.
    pub fn resolve_project(project_override: Option<String>, remote: &CommandOutcome) -> (r:
        Result<String, GlpError>)
        ensures
            match project_choice(project_override, *remote) {
                Some(p) => r matches Ok(s) && s@ == p,
                None => r matches Err(e) && e == GlpError::NoProject,
            },
    {
        if let Some(p) = project_override {
            return Ok(p);
        }
        if let Some(p) = Self::parse_git_remote(remote) {
            return Ok(p);
        }
        Err(GlpError::NoProject)
    }

    /// The host named by the remote `origin`.
    pub fn extract_host_from_remote(remote: &CommandOutcome) -> (r: Option<String>)
        ensures
            opt_view(r) == remote_host(*remote),
    {
        match remote.trimmed_output() {
            Some(url) => Self::extract_host_from_url(url.as_str()),
            None => None,
        }
    }

    /// The project named by the remote `origin`.
    pub fn parse_git_remote(remote: &CommandOutcome) -> (r: Option<String>)
        ensures
            opt_view(r) == remote_project(*remote),
    {
        match remote.trimmed_output() {
            Some(url) => Self::extract_project_from_url(url.as_str()),
            None => None,
        }
    }

    /// The host named by a git remote URL.
    pub fn extract_host_from_url(url: &str) -> (r: Option<String>)
        ensures
            opt_view(r) == host_of_url(url@),
    {
        let prefix = "git@";
        if starts_with(url, prefix) {
            let k = prefix.unicode_len();
            let n = url.unicode_len();
            let rest = url.substring_char(k, n);
            let colon = find_char(rest, ':');
            proof {
                lemma_char_index(rest@, ':');
            }
            let host = rest.substring_char(0, colon);
            assert(host@ =~= rest@.take(colon as int));
            return Some(host.to_owned());
        }
        match parse_url(url) {
            Some(parts) => parts.host,
            None => None,
        }
    }

    /// The project held by the path of an HTTP(S) remote URL.
    pub fn project_from_url_path(path: &str) -> (r: String)
        ensures
            r@ == project_of_path(path@),
    {
        let without_slashes = trim_start_char(path, '/');
        trim_end_matches(without_slashes, ".git").to_owned()
    }

    /// The project named by a git remote URL.
    pub fn extract_project_from_url(url: &str) -> (r: Option<String>)
        ensures
            opt_view(r) == project_of_url(url@),
    {
        if starts_with(url, "git@") {
            let n = url.unicode_len();
            let colon = find_char(url, ':');
            proof {
                lemma_char_index(url@, ':');
            }
            if colon == n {
                return None;
            }
            let rest = url.substring_char(colon + 1, n);
            assert(rest@ =~= url@.skip(colon + 1));
            let next = find_char(rest, ':');
            proof {
                lemma_char_index(rest@, ':');
            }
            let segment = rest.substring_char(0, next);
            assert(segment@ =~= rest@.take(next as int));
            return Some(trim_end_matches(segment, ".git").to_owned());
        }
        match parse_url(url) {
            Some(parts) => Some(Self::project_from_url_path(parts.path.as_str())),
            None => None,
        }
    }

    /// The URL of the API endpoint `path` (which starts with `/`).
    pub fn api_url(&self, path: &str) -> (r: String)
        ensures
            r@ == api_url_of(self.host@, path@),
    {
        let local = starts_with(self.host.as_str(), "127.0.0.1") || starts_with(
            self.host.as_str(),
            "localhost",
        );
        let mut r = if local {
            String::from_str("http")
        } else {
            String::from_str("https")
        };
        r.append("://");
        r.append(self.host.as_str());
        r.append("/api/v4");
        r.append(path);
        r
    }

    /// The project path, percent-encoded for use as one URL path segment.
    pub fn project_encoded(&self) -> (r: String)
        ensures
            r@ == url_encoded(self.project@),
    {
        url_encode(self.project.as_str())
    }
}

} // verus!
