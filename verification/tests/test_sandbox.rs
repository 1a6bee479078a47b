use monkey::cli::{split_target, start_gh_proxy};
use monkey::sandbox::{
    GitRun, SandboxError, Step, cleanup_workspace, ensure_workspace, farm_dir, refresh_failure,
    removal_failure, run_git_cmd, slug, slug_lowered, workspace_branch, workspace_paths,
};

/// The first digits of the SHA-256 digest of `acme/widgets#1`.
const FARM: &str = "f260a475";

fn git(step: &Step) -> Vec<String> {
    match step {
        Step::Git(args) | Step::Refresh(args) => args.clone(),
        other => panic!("expected a run of git, got {other:?}"),
    }
}

#[test]
fn slugs_of_names() {
    assert_eq!(slug("Hello, World!"), "hello-world");
    assert_eq!(slug("--A__b--"), "a-b");
    assert_eq!(slug("Über.Größe"), "ber-gr-e");
    assert_eq!(slug("???"), "issue");
    assert_eq!(slug(""), "issue");
    assert_eq!(slug_lowered("ABC"), "issue");
}

#[test]
fn farm_directory_is_the_start_of_a_digest() {
    assert_eq!(farm_dir("acme", "widgets", 1).len(), 8);
    assert_ne!(farm_dir("acme", "widgets", 1), farm_dir("acme", "widgets", 2));
    assert_eq!(farm_dir("acme", "widgets", 1), FARM);
    assert_eq!(
        workspace_branch("acme", "widgets", 1),
        format!("farm/{FARM}/widgets")
    );
}

#[test]
fn existing_mirror_is_refreshed_before_branching() {
    let plan = ensure_workspace("/w", "/up", "acme", "widgets", 1, "main", false, true);
    assert_eq!(plan.worktree, "/w/acme__widgets__1/repo");
    assert_eq!(plan.steps.len(), 5);
    assert!(matches!(&plan.steps[0], Step::CreateDir(dir) if dir == "/w"));
    assert!(matches!(plan.steps[1], Step::Refresh(_)));
    assert_eq!(
        git(&plan.steps[1]),
        vec!["-C", "/w/acme__widgets.git", "remote", "update", "--prune"]
    );
    assert_eq!(
        git(&plan.steps[2]),
        vec![
            "-C",
            "/w/acme__widgets.git",
            "branch",
            "-f",
            &workspace_branch("acme", "widgets", 1),
            "refs/heads/main"
        ]
    );
    assert!(matches!(&plan.steps[3], Step::CreateDir(dir) if dir == "/w/acme__widgets__1"));
    assert_eq!(
        git(&plan.steps[4]),
        vec![
            "-C",
            "/w/acme__widgets.git",
            "worktree",
            "add",
            "-f",
            "/w/acme__widgets__1/repo",
            &workspace_branch("acme", "widgets", 1)
        ]
    );
}

#[test]
fn missing_mirror_is_cloned() {
    let plan = ensure_workspace("/w/", "/up", "acme", "widgets", 1, "master", false, false);
    assert_eq!(plan.worktree, "/w/acme__widgets__1/repo");
    assert_eq!(
        git(&plan.steps[1]),
        vec!["clone", "--mirror", "/up", "/w/acme__widgets.git"]
    );
    assert_eq!(git(&plan.steps[2])[5], "refs/heads/master");
}

#[test]
fn existing_checkout_is_kept() {
    let plan = ensure_workspace("/w", "/up", "acme", "widgets", 1, "main", true, true);
    assert!(plan.steps.is_empty());
}

#[test]
fn cleanup_removes_checkout_and_directory() {
    let steps = cleanup_workspace("/w", "acme", "widgets", 1, true);
    assert_eq!(steps.len(), 2);
    assert_eq!(
        git(&steps[0]),
        vec![
            "-C",
            "/w/acme__widgets.git",
            "worktree",
            "remove",
            "--force",
            "/w/acme__widgets__1/repo"
        ]
    );
    assert!(matches!(&steps[1], Step::RemoveTree(dir) if dir == "/w/acme__widgets__1"));
    assert_eq!(cleanup_workspace("/w", "acme", "widgets", 1, false).len(), 1);
    assert_ne!(
        workspace_paths("/w", "a", "b", 1).base,
        workspace_paths("/w", "a", "b", 11).base
    );
}

#[test]
fn failures_of_git_in_words() {
    let args = vec!["a".to_string(), "b".to_string()];
    let run = |success: bool| GitRun::Ended {
        success,
        stdout: "out".to_string(),
        stderr: "err".to_string(),
    };
    assert_eq!(run_git_cmd(&args, run(true)).unwrap(), "out");
    assert_eq!(
        run_git_cmd(&args, run(false)).unwrap_err().to_text(),
        "sandbox command failed: git a b failed: err"
    );
    let error = run_git_cmd(&args, GitRun::NotStarted("gone".to_string())).unwrap_err();
    assert_eq!(
        error.to_text(),
        "sandbox command failed: failed to spawn git: gone"
    );
    assert_eq!(
        refresh_failure("/m", "/up", &SandboxError::Io("x".to_string())).to_text(),
        "sandbox command failed: failed to refresh existing mirror at /m for repository /up: sandbox io error: x"
    );
    assert_eq!(
        removal_failure("/b", "busy").to_text(),
        "sandbox io error: failed to remove workspace /b: busy"
    );
}

#[test]
fn targets_on_the_command_line() {
    assert_eq!(
        split_target("acme/widget#12"),
        Ok(("acme".to_string(), ("widget".to_string(), 12)))
    );
    assert_eq!(
        split_target("acme/a/b#-3"),
        Ok(("acme".to_string(), ("a/b".to_string(), -3)))
    );
    assert_eq!(
        split_target("acme/widget"),
        Err("missing issue number (#)".to_string())
    );
    assert_eq!(
        split_target("acme/widget#x"),
        Err("invalid issue number".to_string())
    );
    assert_eq!(split_target("widget#1"), Err("missing repo".to_string()));
}

#[test]
fn proxy_needs_a_token_and_a_key() {
    let start = |token: &str, key: &str| start_gh_proxy(token.to_string(), key.to_string());
    assert_eq!(
        start("", "k").unwrap_err(),
        "gh-proxy refuses to start without GITHUB_TOKEN"
    );
    assert_eq!(
        start("t", "").unwrap_err(),
        "gh-proxy refuses to start without MONKEY_GH_PROXY_HMAC_KEY"
    );
    assert_eq!(start("t", "k").unwrap().hmac_key, "k");
}

#[test]
fn workspaces_of_repositories_are_apart() {
    let mut seen = Vec::new();
    for (owner, repo, number) in [
        ("acme", "widget", 1),
        ("acme", "widget", 11),
        ("acme", "widget__1", 1),
        ("acme", "widgets", 1),
        ("foo", "widget", 1),
    ] {
        let plan = ensure_workspace("/w", "/up", owner, repo, number, "main", true, true);
        seen.push(plan.worktree);
    }
    for i in 0..seen.len() {
        for j in 0..i {
            assert_ne!(seen[i], seen[j]);
        }
    }
}
