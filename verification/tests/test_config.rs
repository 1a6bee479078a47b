use monkey::config::{AuthMode, Settings};

fn base_settings() -> Settings {
    Settings {
        github_webhook_secret: "secret".to_string(),
        bot_login: "monkey".to_string(),
        git_author_name: "monkey".to_string(),
        git_author_email: "monkey@example.com".to_string(),
        repo_allowlist: "acme/widget".to_string(),
        model: "m1,m2".to_string(),
        thinking: "medium".to_string(),
        provider: "".to_string(),
        session_dir: "/data/sessions".to_string(),
        max_concurrency: 8,
        question_autoclose_hours: 4,
        release_sentinel_enabled: false,
        release_max_rounds: 5,
        gh_proxy_url: "http://gh-proxy:8080".to_string(),
        gh_proxy_hmac_key: "key".to_string(),
        github_token: "".to_string(),
        workspaces_root: "/data/workspaces".to_string(),
    }
}

#[test]
fn test_valid_proxy_mode() {
    let s = base_settings();
    assert!(s.validate().is_ok());
    assert_eq!(s.auth_mode(), AuthMode::Proxy);
    assert_eq!(s.allowlist(), vec!["acme/widget"]);
    assert_eq!(s.models(), vec!["m1", "m2"]);
}

#[test]
fn test_valid_pat_mode() {
    let mut s = base_settings();
    s.gh_proxy_url = "".to_string();
    s.gh_proxy_hmac_key = "".to_string();
    s.github_token = "ghp_12345".to_string();
    assert!(s.validate().is_ok());
    assert_eq!(s.auth_mode(), AuthMode::Pat);
}

#[test]
fn test_both_proxy_and_pat_fails() {
    let mut s = base_settings();
    s.github_token = "ghp_12345".to_string();
    assert!(s.validate().is_err());
}

#[test]
fn test_neither_proxy_nor_pat_fails() {
    let mut s = base_settings();
    s.gh_proxy_url = "".to_string();
    s.gh_proxy_hmac_key = "".to_string();
    s.github_token = "".to_string();
    assert!(s.validate().is_err());
}

#[test]
fn test_partial_proxy_fails() {
    let mut s = base_settings();
    s.gh_proxy_hmac_key = "".to_string();
    assert!(s.validate().is_err());
}

#[test]
fn test_missing_required_fields_fails() {
    let mut s = base_settings();
    s.github_webhook_secret = "".to_string();
    assert!(s.validate().is_err());

    let mut s = base_settings();
    s.bot_login = "".to_string();
    assert!(s.validate().is_err());

    let mut s = base_settings();
    s.repo_allowlist = "".to_string();
    assert!(s.validate().is_err());
}

#[test]
fn test_zero_concurrency_fails() {
    let mut settings = base_settings();
    settings.max_concurrency = 0;
    assert!(settings.validate().is_err());
}

fn env(pairs: &[(&str, &str)]) -> Vec<(String, String)> {
    pairs
        .iter()
        .map(|(name, value)| (name.to_string(), value.to_string()))
        .collect()
}

#[test]
fn settings_come_from_the_environment_with_defaults() {
    let s = Settings::load_from_env(&env(&[
        ("GITHUB_WEBHOOK_SECRET", "  "),
        ("MONKEY_GITHUB_WEBHOOK_SECRET", " s3cret\n"),
        ("ROBOMP_BOT_LOGIN", "robomp"),
        ("REPO_ALLOWLIST", " acme/widget , ,foo/bar,"),
        ("MONKEY_GH_PROXY_URL", "http://gh-proxy:8080"),
        ("MONKEY_GH_PROXY_HMAC_KEY", "key"),
        ("MONKEY_MAX_CONCURRENCY", "3"),
        ("MONKEY_QUESTION_AUTOCLOSE_HOURS", "soon"),
        ("MONKEY_RELEASE_SENTINEL_ENABLED", "YES"),
    ]))
    .unwrap();
    assert_eq!(s.github_webhook_secret, "s3cret");
    assert_eq!(s.bot_login, "robomp");
    assert_eq!(s.git_author_name, "monkey");
    assert_eq!(s.git_author_email, "monkey@users.noreply.github.com");
    assert_eq!(s.allowlist(), vec!["acme/widget", "foo/bar"]);
    assert!(s.models().is_empty());
    assert_eq!(s.thinking, "medium");
    assert_eq!(s.provider, "");
    assert_eq!(s.session_dir, "/data/sessions");
    assert_eq!(s.max_concurrency, 3);
    assert_eq!(s.question_autoclose_hours, 4);
    assert!(s.release_sentinel_enabled);
    assert_eq!(s.release_max_rounds, 5);
    assert_eq!(s.github_token, "");
    assert_eq!(s.workspaces_root, "/data/workspaces");
    assert_eq!(s.auth_mode(), AuthMode::Proxy);
}

#[test]
fn each_complaint_about_settings_is_reported() {
    let base = [
        ("GITHUB_WEBHOOK_SECRET", "s"),
        ("MONKEY_BOT_LOGIN", "monkey"),
        ("MONKEY_REPO_ALLOWLIST", "acme/widget"),
    ];
    let proxy = [
        ("MONKEY_GH_PROXY_URL", "http://gh-proxy:8080"),
        ("MONKEY_GH_PROXY_HMAC_KEY", "key"),
    ];
    let load = |parts: Vec<&[(&str, &str)]>| {
        Settings::load_from_env(&env(&parts.concat())).unwrap_err()
    };
    assert_eq!(
        load(vec![&base, &proxy, &[("GITHUB_TOKEN", "t")]]),
        "set either gh-proxy (URL + HMAC key) OR GITHUB_TOKEN, not both"
    );
    assert_eq!(
        load(vec![&base]),
        "must set gh-proxy (URL + HMAC key) OR GITHUB_TOKEN"
    );
    assert_eq!(
        load(vec![&base, &proxy[..1]]),
        "gh-proxy mode needs both GH_PROXY_URL and GH_PROXY_HMAC_KEY"
    );
    assert_eq!(
        load(vec![&base[1..], &proxy]),
        "GITHUB_WEBHOOK_SECRET is required"
    );
    assert_eq!(
        load(vec![&base[..1], &base[2..], &proxy]),
        "ROBOMP_BOT_LOGIN / MONKEY_BOT_LOGIN is required"
    );
    assert_eq!(load(vec![&base[..2], &proxy]), "REPO_ALLOWLIST is required");
    assert_eq!(
        load(vec![&base, &proxy, &[("MONKEY_MAX_CONCURRENCY", "0")]]),
        "MONKEY_MAX_CONCURRENCY must be at least 1"
    );
}
