//! The settings of the orchestrator: how they are read from the environment,
//! and which of them can be started with.

use vstd::prelude::*;
use vstd::string::*;

use crate::decimal;
use crate::foreign;
use crate::text;

verus! {

/// How the orchestrator reaches GitHub.
#[derive(Debug, Clone, Copy, PartialEq, Eq, Structural)]
pub enum AuthMode {
    Proxy,
    Pat,
}

#[derive(Debug, Clone)]
pub struct Settings {
    // Webhook security
    pub github_webhook_secret: String,
    // Bot identity
    pub bot_login: String,
    pub git_author_name: String,
    pub git_author_email: String,
    // Scope
    pub repo_allowlist: String,
    // Engine
    pub model: String,
    pub thinking: String,
    pub provider: String,
    pub session_dir: String,
    // Concurrency and limits
    pub max_concurrency: usize,
    pub question_autoclose_hours: u64,
    // Release sentinel
    pub release_sentinel_enabled: bool,
    pub release_max_rounds: usize,
    // Proxy authentication; excludes direct access
    pub gh_proxy_url: String,
    pub gh_proxy_hmac_key: String,
    // Direct access
    pub github_token: String,
    // Workspaces
    pub workspaces_root: String,
}

/// What settings stand for.
pub struct SettingsModel {
    pub github_webhook_secret: Seq<char>,
    pub bot_login: Seq<char>,
    pub git_author_name: Seq<char>,
    pub git_author_email: Seq<char>,
    pub repo_allowlist: Seq<char>,
    pub model: Seq<char>,
    pub thinking: Seq<char>,
    pub provider: Seq<char>,
    pub session_dir: Seq<char>,
    pub max_concurrency: int,
    pub question_autoclose_hours: int,
    pub release_sentinel_enabled: bool,
    pub release_max_rounds: int,
    pub gh_proxy_url: Seq<char>,
    pub gh_proxy_hmac_key: Seq<char>,
    pub github_token: Seq<char>,
    pub workspaces_root: Seq<char>,
}

impl View for Settings {
    type V = SettingsModel;

    open spec fn view(&self) -> SettingsModel {
        SettingsModel {
            github_webhook_secret: self.github_webhook_secret@,
            bot_login: self.bot_login@,
            git_author_name: self.git_author_name@,
            git_author_email: self.git_author_email@,
            repo_allowlist: self.repo_allowlist@,
            model: self.model@,
            thinking: self.thinking@,
            provider: self.provider@,
            session_dir: self.session_dir@,
            max_concurrency: self.max_concurrency as int,
            question_autoclose_hours: self.question_autoclose_hours as int,
            release_sentinel_enabled: self.release_sentinel_enabled,
            release_max_rounds: self.release_max_rounds as int,
            gh_proxy_url: self.gh_proxy_url@,
            gh_proxy_hmac_key: self.gh_proxy_hmac_key@,
            github_token: self.github_token@,
            workspaces_root: self.workspaces_root@,
        }
    }
}

/// The value of a variable: that of the first pair with its name.
pub open spec fn variable(env: Seq<(String, String)>, name: Seq<char>) -> Option<Seq<char>>
    decreases env.len(),
{
    if env.len() == 0 {
        None
    } else if env[0].0@ == name {
        Some(env[0].1@)
    } else {
        variable(env.drop_first(), name)
    }
}

/// The value of a variable without white space at its ends, empty where the
/// variable is not set.
pub open spec fn value_of(env: Seq<(String, String)>, name: Seq<char>) -> Seq<char> {
    match variable(env, name) {
        Some(v) => text::trimmed(v),
        None => ""@,
    }
}

/// The value of the first of two variables that is not blank.
pub open spec fn either_value(env: Seq<(String, String)>, first: Seq<char>, second: Seq<char>) -> Seq<
    char,
> {
    if value_of(env, first).len() > 0 {
        value_of(env, first)
    } else {
        value_of(env, second)
    }
}

/// A text, or another one where it is empty.
pub open spec fn or_default(s: Seq<char>, default: Seq<char>) -> Seq<char> {
    if s.len() > 0 {
        s
    } else {
        default
    }
}

pub open spec fn number_or(v: Option<int>, default: int) -> int {
    match v {
        Some(n) => n,
        None => default,
    }
}

/// A flag is set by one of three words.
pub open spec fn is_set(lowered: Seq<char>) -> bool {
    lowered == "1"@ || lowered == "true"@ || lowered == "yes"@
}

/// The settings that an environment holds, if the flag of the release sentinel
/// reads `sentinel` in lower case.
pub open spec fn settings_in(env: Seq<(String, String)>, sentinel: Seq<char>) -> SettingsModel {
    SettingsModel {
        github_webhook_secret: either_value(
            env,
            "GITHUB_WEBHOOK_SECRET"@,
            "MONKEY_GITHUB_WEBHOOK_SECRET"@,
        ),
        bot_login: either_value(env, "MONKEY_BOT_LOGIN"@, "ROBOMP_BOT_LOGIN"@),
        git_author_name: or_default(value_of(env, "MONKEY_GIT_AUTHOR_NAME"@), "monkey"@),
        git_author_email: or_default(
            value_of(env, "MONKEY_GIT_AUTHOR_EMAIL"@),
            "monkey@users.noreply.github.com"@,
        ),
        repo_allowlist: either_value(env, "MONKEY_REPO_ALLOWLIST"@, "REPO_ALLOWLIST"@),
        model: value_of(env, "MONKEY_MODEL"@),
        thinking: or_default(value_of(env, "MONKEY_THINKING"@), "medium"@),
        provider: value_of(env, "MONKEY_PROVIDER"@),
        session_dir: or_default(value_of(env, "MONKEY_SESSION_DIR"@), "/data/sessions"@),
        max_concurrency: number_or(
            decimal::bounded(
                decimal::unsigned_value(value_of(env, "MONKEY_MAX_CONCURRENCY"@)),
                0,
                usize::MAX as int,
            ),
            8,
        ),
        question_autoclose_hours: number_or(
            decimal::bounded(
                decimal::unsigned_value(value_of(env, "MONKEY_QUESTION_AUTOCLOSE_HOURS"@)),
                0,
                u64::MAX as int,
            ),
            4,
        ),
        release_sentinel_enabled: is_set(sentinel),
        release_max_rounds: number_or(
            decimal::bounded(
                decimal::unsigned_value(value_of(env, "MONKEY_RELEASE_MAX_ROUNDS"@)),
                0,
                usize::MAX as int,
            ),
            5,
        ),
        gh_proxy_url: value_of(env, "MONKEY_GH_PROXY_URL"@),
        gh_proxy_hmac_key: value_of(env, "MONKEY_GH_PROXY_HMAC_KEY"@),
        github_token: either_value(env, "GITHUB_TOKEN"@, "MONKEY_GITHUB_TOKEN"@),
        workspaces_root: or_default(value_of(env, "MONKEY_WORKSPACES_ROOT"@), "/data/workspaces"@),
    }
}

/// What is wrong with some settings, in words; the first complaint counts.
pub open spec fn complaint(s: SettingsModel) -> Option<Seq<char>> {
    let has_proxy = s.gh_proxy_url.len() > 0 || s.gh_proxy_hmac_key.len() > 0;
    let has_pat = s.github_token.len() > 0;
    if has_proxy && has_pat {
        Some("set either gh-proxy (URL + HMAC key) OR GITHUB_TOKEN, not both"@)
    } else if !has_proxy && !has_pat {
        Some("must set gh-proxy (URL + HMAC key) OR GITHUB_TOKEN"@)
    } else if has_proxy && (s.gh_proxy_url.len() == 0 || s.gh_proxy_hmac_key.len() == 0) {
        Some("gh-proxy mode needs both GH_PROXY_URL and GH_PROXY_HMAC_KEY"@)
    } else if s.github_webhook_secret.len() == 0 {
        Some("GITHUB_WEBHOOK_SECRET is required"@)
    } else if s.bot_login.len() == 0 {
        Some("ROBOMP_BOT_LOGIN / MONKEY_BOT_LOGIN is required"@)
    } else if s.repo_allowlist.len() == 0 {
        Some("REPO_ALLOWLIST is required"@)
    } else if s.max_concurrency == 0 {
        Some("MONKEY_MAX_CONCURRENCY must be at least 1"@)
    } else {
        None
    }
}

/// A result says what `complaint` says of some settings.
pub open spec fn reports(r: Result<(), String>, expected: Option<Seq<char>>) -> bool {
    match (r, expected) {
        (Ok(_), None) => true,
        (Err(e), Some(m)) => e@ == m,
        _ => false,
    }
}

fn read_variable<'a>(env: &'a Vec<(String, String)>, name: &str) -> (r: Option<&'a str>)
    ensures
        variable(env@, name@) == match r {
            Some(s) => Some(s@),
            None => None,
        },
{
    let mut i: usize = 0;
    assert(env@.skip(0) == env@);
    while i < env.len()
        invariant
            i <= env.len(),
            variable(env@, name@) == variable(env@.skip(i as int), name@),
        decreases env.len() - i,
    {
        if text::same_text(env[i].0.as_str(), name) {
            return Some(env[i].1.as_str());
        }
        assert(env@.skip(i as int).drop_first() == env@.skip(i + 1));
        i += 1;
    }
    None
}

fn read_value(env: &Vec<(String, String)>, name: &str) -> (r: String)
    ensures
        r@ == value_of(env@, name@),
{
    match read_variable(env, name) {
        Some(v) => text::trim(v).to_owned(),
        None => "".to_owned(),
    }
}

fn read_either(env: &Vec<(String, String)>, first: &str, second: &str) -> (r: String)
    ensures
        r@ == either_value(env@, first@, second@),
{
    let v = read_value(env, first);
    if !v.as_str().is_empty() {
        v
    } else {
        read_value(env, second)
    }
}

fn read_or(env: &Vec<(String, String)>, name: &str, default: &str) -> (r: String)
    ensures
        r@ == or_default(value_of(env@, name@), default@),
{
    let v = read_value(env, name);
    if !v.as_str().is_empty() {
        v
    } else {
        default.to_owned()
    }
}

impl Settings {
    /// Reads the settings from the pairs of an environment, the flag of the
    /// release sentinel being given in lower case, and checks them.
    pub fn from_variables(env: &Vec<(String, String)>, sentinel: &str) -> (r: Result<Self, String>)
        ensures
            r is Ok <==> complaint(settings_in(env@, sentinel@)) is None,
            r matches Ok(s) ==> s@ == settings_in(env@, sentinel@),
            r matches Err(e) ==> complaint(settings_in(env@, sentinel@)) == Some(e@),
    {
        let max_concurrency: usize = match decimal::parse_usize(
            read_value(env, "MONKEY_MAX_CONCURRENCY").as_str(),
        ) {
            Some(n) => n,
            None => 8,
        };
        let question_autoclose_hours: u64 = match decimal::parse_u64(
            read_value(env, "MONKEY_QUESTION_AUTOCLOSE_HOURS").as_str(),
        ) {
            Some(n) => n,
            None => 4,
        };
        let release_max_rounds: usize = match decimal::parse_usize(
            read_value(env, "MONKEY_RELEASE_MAX_ROUNDS").as_str(),
        ) {
            Some(n) => n,
            None => 5,
        };
        let settings = Settings {
            github_webhook_secret: read_either(
                env,
                "GITHUB_WEBHOOK_SECRET",
                "MONKEY_GITHUB_WEBHOOK_SECRET",
            ),
            bot_login: read_either(env, "MONKEY_BOT_LOGIN", "ROBOMP_BOT_LOGIN"),
            git_author_name: read_or(env, "MONKEY_GIT_AUTHOR_NAME", "monkey"),
            git_author_email: read_or(
                env,
                "MONKEY_GIT_AUTHOR_EMAIL",
                "monkey@users.noreply.github.com",
            ),
            repo_allowlist: read_either(env, "MONKEY_REPO_ALLOWLIST", "REPO_ALLOWLIST"),
            model: read_value(env, "MONKEY_MODEL"),
            thinking: read_or(env, "MONKEY_THINKING", "medium"),
            provider: read_value(env, "MONKEY_PROVIDER"),
            session_dir: read_or(env, "MONKEY_SESSION_DIR", "/data/sessions"),
            max_concurrency,
            question_autoclose_hours,
            release_sentinel_enabled: text::same_text(sentinel, "1") || text::same_text(
                sentinel,
                "true",
            ) || text::same_text(sentinel, "yes"),
            release_max_rounds,
            gh_proxy_url: read_value(env, "MONKEY_GH_PROXY_URL"),
            gh_proxy_hmac_key: read_value(env, "MONKEY_GH_PROXY_HMAC_KEY"),
            github_token: read_either(env, "GITHUB_TOKEN", "MONKEY_GITHUB_TOKEN"),
            workspaces_root: read_or(env, "MONKEY_WORKSPACES_ROOT", "/data/workspaces"),
        };
        match settings.validate() {
            Ok(()) => Ok(settings),
            Err(e) => Err(e),
        }
    }

    /// Reads the settings from the pairs of an environment, and checks them.
    pub fn load_from_env(env: &Vec<(String, String)>) -> (r: Result<Self, String>)
        ensures
            ({
                let flag = value_of(env@, "MONKEY_RELEASE_SENTINEL_ENABLED"@);
                let expected = settings_in(env@, foreign::lowercase_of(flag));
                &&& r is Ok <==> complaint(expected) is None
                &&& r matches Ok(s) ==> s@ == expected
                &&& r matches Err(e) ==> complaint(expected) == Some(e@)
                &&& vstd::utf8::is_ascii_chars(flag) ==> expected == settings_in(
                    env@,
                    foreign::ascii_lowercase(flag),
                )
            }),
    {
        let flag = read_value(env, "MONKEY_RELEASE_SENTINEL_ENABLED");
        Settings::from_variables(env, foreign::lowercase(flag.as_str()).as_str())
    }

    /// Checks that the settings are fit to start with.
    pub fn validate(&self) -> (r: Result<(), String>)
        ensures
            reports(r, complaint(self@)),
    {
        let has_proxy = !self.gh_proxy_url.as_str().is_empty()
            || !self.gh_proxy_hmac_key.as_str().is_empty();
        let has_pat = !self.github_token.as_str().is_empty();

        if has_proxy && has_pat {
            return Err(
                "set either gh-proxy (URL + HMAC key) OR GITHUB_TOKEN, not both".to_owned(),
            );
        }
        if !has_proxy && !has_pat {
            return Err("must set gh-proxy (URL + HMAC key) OR GITHUB_TOKEN".to_owned());
        }
        if has_proxy && (self.gh_proxy_url.as_str().is_empty()
            || self.gh_proxy_hmac_key.as_str().is_empty()) {
            return Err("gh-proxy mode needs both GH_PROXY_URL and GH_PROXY_HMAC_KEY".to_owned());
        }
        if self.github_webhook_secret.as_str().is_empty() {
            return Err("GITHUB_WEBHOOK_SECRET is required".to_owned());
        }
        if self.bot_login.as_str().is_empty() {
            return Err("ROBOMP_BOT_LOGIN / MONKEY_BOT_LOGIN is required".to_owned());
        }
        if self.repo_allowlist.as_str().is_empty() {
            return Err("REPO_ALLOWLIST is required".to_owned());
        }
        if self.max_concurrency == 0 {
            return Err("MONKEY_MAX_CONCURRENCY must be at least 1".to_owned());
        }
        Ok(())
    }

    /// The repositories that are served, each as `owner/repo`.
    pub fn allowlist(&self) -> (r: Vec<String>)
        ensures
            text::texts(r@) == text::list_entries(self@.repo_allowlist),
    {
        text::split_list(self.repo_allowlist.as_str())
    }

    /// The models, the preferred one first.
    pub fn models(&self) -> (r: Vec<String>)
        ensures
            text::texts(r@) == text::list_entries(self@.model),
    {
        text::split_list(self.model.as_str())
    }

    /// How the orchestrator reaches GitHub.
    pub fn auth_mode(&self) -> (r: AuthMode)
        ensures
            r == if self@.gh_proxy_url.len() > 0 && self@.gh_proxy_hmac_key.len() > 0 {
                AuthMode::Proxy
            } else {
                AuthMode::Pat
            },
    {
        if !self.gh_proxy_url.as_str().is_empty() && !self.gh_proxy_hmac_key.as_str().is_empty() {
            AuthMode::Proxy
        } else {
            AuthMode::Pat
        }
    }
}

/// Valid settings use one way to reach GitHub: either the proxy, with its
/// address and its key and without a token, or a token without the proxy.
pub proof fn law_auth_is_exclusive(s: SettingsModel)
    requires
        complaint(s) is None,
    ensures
        s.gh_proxy_url.len() > 0 <==> s.gh_proxy_hmac_key.len() > 0,
        s.gh_proxy_url.len() > 0 <==> s.github_token.len() == 0,
        s.max_concurrency != 0,
{
}

/// The value of a variable is that of the first pair with its name, without white
/// space around it, and empty where there is no such pair.
pub proof fn law_values_of_variables(env: Seq<(String, String)>, name: Seq<char>, i: int)
    ensures
        0 <= i < env.len() && env[i].0@ == name && (forall|k: int|
            0 <= k < i ==> (#[trigger] env[k]).0@ != name) ==> value_of(env, name)
            == text::trimmed(env[i].1@),
        (forall|k: int| 0 <= k < env.len() ==> (#[trigger] env[k]).0@ != name) ==> value_of(
            env,
            name,
        ).len() == 0,
    decreases env.len(),
{
    reveal_strlit("");
    if env.len() > 0 {
        let rest = env.drop_first();
        law_values_of_variables(rest, name, i - 1);
        assert forall|k: int| 0 <= k < rest.len() implies #[trigger] rest[k] == env[k + 1] by {}
        if env[0].0@ != name {
            if 0 < i < env.len() && forall|k: int| 0 <= k < i ==> (#[trigger] env[k]).0@ != name {
                assert forall|k: int| 0 <= k < i - 1 implies (#[trigger] rest[k]).0@ != name by {
                    assert(env[k + 1].0@ != name);
                }
                assert(rest[i - 1] == env[i]);
            }
            if forall|k: int| 0 <= k < env.len() ==> (#[trigger] env[k]).0@ != name {
                assert forall|k: int| 0 <= k < rest.len() implies (#[trigger] rest[k]).0@
                    != name by {
                    assert(env[k + 1].0@ != name);
                }
            }
        }
    }
}

/// The texts among the settings: each is the value of its variable, that of the
/// other variable or the given one where it is empty.
pub proof fn law_texts_among_the_settings(env: Seq<(String, String)>, sentinel: Seq<char>)
    ensures
        ({
            let s = settings_in(env, sentinel);
            let either = |a: Seq<char>, b: Seq<char>|
                if value_of(env, a).len() > 0 {
                    value_of(env, a)
                } else {
                    value_of(env, b)
                };
            let or = |a: Seq<char>, given: Seq<char>|
                if value_of(env, a).len() > 0 {
                    value_of(env, a)
                } else {
                    given
                };
            &&& s.github_webhook_secret == either(
                "GITHUB_WEBHOOK_SECRET"@,
                "MONKEY_GITHUB_WEBHOOK_SECRET"@,
            )
            &&& s.bot_login == either("MONKEY_BOT_LOGIN"@, "ROBOMP_BOT_LOGIN"@)
            &&& s.repo_allowlist == either("MONKEY_REPO_ALLOWLIST"@, "REPO_ALLOWLIST"@)
            &&& s.github_token == either("GITHUB_TOKEN"@, "MONKEY_GITHUB_TOKEN"@)
            &&& s.git_author_name == or("MONKEY_GIT_AUTHOR_NAME"@, "monkey"@)
            &&& s.git_author_email == or(
                "MONKEY_GIT_AUTHOR_EMAIL"@,
                "monkey@users.noreply.github.com"@,
            )
            &&& s.thinking == or("MONKEY_THINKING"@, "medium"@)
            &&& s.session_dir == or("MONKEY_SESSION_DIR"@, "/data/sessions"@)
            &&& s.workspaces_root == or("MONKEY_WORKSPACES_ROOT"@, "/data/workspaces"@)
            &&& s.model == value_of(env, "MONKEY_MODEL"@)
            &&& s.provider == value_of(env, "MONKEY_PROVIDER"@)
            &&& s.gh_proxy_url == value_of(env, "MONKEY_GH_PROXY_URL"@)
            &&& s.gh_proxy_hmac_key == value_of(env, "MONKEY_GH_PROXY_HMAC_KEY"@)
            &&& s.release_sentinel_enabled <==> seq!["1"@, "true"@, "yes"@].contains(sentinel)
        }),
{
    let words = seq!["1"@, "true"@, "yes"@];
    assert(words[0] == "1"@ && words[1] == "true"@ && words[2] == "yes"@);
    if words.contains(sentinel) {
        let i = choose|i: int| 0 <= i < words.len() && words[i] == sentinel;
        assert(i == 0 || i == 1 || i == 2);
    }
}

/// The numbers among the settings: each is the number that its variable stands
/// for, and the given one where the variable is no number or too large.
pub proof fn law_numbers_among_the_settings(env: Seq<(String, String)>, sentinel: Seq<char>, n: int)
    ensures
        ({
            let s = settings_in(env, sentinel);
            let at_once = decimal::unsigned_value(value_of(env, "MONKEY_MAX_CONCURRENCY"@));
            let hours = decimal::unsigned_value(value_of(env, "MONKEY_QUESTION_AUTOCLOSE_HOURS"@));
            let rounds = decimal::unsigned_value(value_of(env, "MONKEY_RELEASE_MAX_ROUNDS"@));
            &&& at_once == Some(n) && 0 <= n <= usize::MAX ==> s.max_concurrency == n
            &&& at_once is None || at_once->0 > usize::MAX ==> s.max_concurrency == 8
            &&& hours == Some(n) && 0 <= n <= u64::MAX ==> s.question_autoclose_hours == n
            &&& hours is None || hours->0 > u64::MAX ==> s.question_autoclose_hours == 4
            &&& rounds == Some(n) && 0 <= n <= usize::MAX ==> s.release_max_rounds == n
            &&& rounds is None || rounds->0 > usize::MAX ==> s.release_max_rounds == 5
        }),
{
}

/// Settings can be started with exactly where they name one way to GitHub, and
/// wholly, and where the secret, the bot, the repositories and a number of tasks
/// at once are set; else the first thing that is wrong is told.
pub proof fn law_settings_that_can_be_started_with(s: SettingsModel)
    ensures
        ({
            let r = complaint(s);
            let url = s.gh_proxy_url.len() > 0;
            let key = s.gh_proxy_hmac_key.len() > 0;
            let token = s.github_token.len() > 0;
            let access = url && key && !token || !url && !key && token;
            let secret = s.github_webhook_secret.len() > 0;
            let bot = s.bot_login.len() > 0;
            let repos = s.repo_allowlist.len() > 0;
            &&& r is None <==> access && secret && bot && repos && s.max_concurrency != 0
            &&& (url || key) && token ==> r == Some(
                "set either gh-proxy (URL + HMAC key) OR GITHUB_TOKEN, not both"@,
            )
            &&& !url && !key && !token ==> r == Some(
                "must set gh-proxy (URL + HMAC key) OR GITHUB_TOKEN"@,
            )
            &&& url != key && !token ==> r == Some(
                "gh-proxy mode needs both GH_PROXY_URL and GH_PROXY_HMAC_KEY"@,
            )
            &&& access && !secret ==> r == Some("GITHUB_WEBHOOK_SECRET is required"@)
            &&& access && secret && !bot ==> r == Some(
                "ROBOMP_BOT_LOGIN / MONKEY_BOT_LOGIN is required"@,
            )
            &&& access && secret && bot && !repos ==> r == Some("REPO_ALLOWLIST is required"@)
            &&& access && secret && bot && repos && s.max_concurrency == 0 ==> r == Some(
                "MONKEY_MAX_CONCURRENCY must be at least 1"@,
            )
        }),
{
}

} // verus!
