//! The command line.

use vstd::prelude::*;
use vstd::string::*;

use crate::decimal;
use crate::gh_proxy::GhProxyState;
use crate::text;

verus! {

/// What the program is asked to do.
#[derive(Debug, Clone)]
pub enum Commands {
    /// Run the orchestrator: the webhook and the worker.
    Serve,
    /// Run the service that holds the token.
    GhProxy,
    /// Print the latest event of an issue.
    Triage { target: String },
    /// Show the state of the queue.
    Status,
    /// Remove the workspace of an issue.
    Cleanup { target: String },
}

/// The command line.
#[derive(Debug, Clone)]
pub struct Cli {
    pub command: Commands,
}

/// The owner, the repository and the number of an issue that is written
/// `owner/repo#number`, or what is wrong with it.
pub open spec fn target_of(s: Seq<char>) -> Result<(Seq<char>, Seq<char>, int), Seq<char>> {
    let hash = text::first_index(s, '#');
    let place = s.take(hash);
    let slash = text::first_index(place, '/');
    if !s.contains('#') {
        Err("missing issue number (#)"@)
    } else {
        match decimal::bounded(
            decimal::signed_value(s.skip(hash + 1)),
            i64::MIN as int,
            i64::MAX as int,
        ) {
            None => Err("invalid issue number"@),
            Some(n) => if !place.contains('/') {
                Err("missing repo"@)
            } else {
                Ok((place.take(slash), place.skip(slash + 1), n))
            },
        }
    }
}

/// Reads an issue that is written `owner/repo#number`.
pub fn split_target(target: &str) -> (r: Result<(String, (String, i64)), String>)
    ensures
        target_of(target@) == match r {
            Ok((owner, (repo, number))) => Ok((owner@, repo@, number as int)),
            Err(e) => Err(e@),
        },
{
    let (place, number_text) = match text::split_once(target, '#') {
        Some(parts) => parts,
        None => return Err("missing issue number (#)".to_owned()),
    };
    let number: i64 = match decimal::parse_i64(number_text) {
        Some(n) => n,
        None => return Err("invalid issue number".to_owned()),
    };
    match text::split_once(place, '/') {
        Some((owner, repo)) => Ok((owner.to_owned(), (repo.to_owned(), number))),
        None => Err("missing repo".to_owned()),
    }
}

/// An issue reads back as it was written, unless the owner holds a slash, or
/// the owner or the repository a hash.
pub proof fn law_target_reads_back(owner: Seq<char>, repo: Seq<char>, number: int)
    requires
        i64::MIN <= number <= i64::MAX,
        !owner.contains('/'),
        !owner.contains('#'),
        !repo.contains('#'),
    ensures
        target_of(crate::sandbox::issue_text(owner, repo, number)) == Ok::<
            (Seq<char>, Seq<char>, int),
            Seq<char>,
        >((owner, repo, number)),
{
    reveal_strlit("/");
    reveal_strlit("#");
    let s = crate::sandbox::issue_text(owner, repo, number);
    let place = owner + "/"@ + repo;
    let digits = decimal::decimal(number);
    assert(s =~= place + seq!['#'] + digits);
    let k = place.len() as int;
    assert(s[k] == '#');
    text::lemma_first_index(s, '#');
    assert(text::first_index(s, '#') == k) by {
        let h = text::first_index(s, '#');
        if h < k {
            if h < owner.len() {
                assert(owner[h] == '#');
            } else if h > owner.len() {
                assert(repo[h - owner.len() - 1] == '#');
            }
        }
    }
    assert(s.take(k) =~= place);
    assert(s.skip(k + 1) =~= digits);
    decimal::law_decimal_reads_back(number);
    let m = owner.len() as int;
    assert(place[m] == '/');
    text::lemma_first_index(place, '/');
    assert(text::first_index(place, '/') == m) by {
        let h = text::first_index(place, '/');
        if h < m {
            assert(owner[h] == '/');
        }
    }
    assert(place.take(m) =~= owner);
    assert(place.skip(m + 1) =~= repo);
}

/// Why the service that holds the token does not start, if it does not.
pub open spec fn start_complaint(token: Seq<char>, key: Seq<char>) -> Option<Seq<char>> {
    if token.len() == 0 {
        Some("gh-proxy refuses to start without GITHUB_TOKEN"@)
    } else if key.len() == 0 {
        Some("gh-proxy refuses to start without MONKEY_GH_PROXY_HMAC_KEY"@)
    } else {
        None
    }
}

/// The state of the service that holds the token, if it can be started.
pub fn start_gh_proxy(github_token: String, hmac_key: String) -> (r: Result<GhProxyState, String>)
    ensures
        match start_complaint(github_token@, hmac_key@) {
            Some(m) => r matches Err(e) && e@ == m,
            None => r matches Ok(s) && s.github_token@ == github_token@ && s.hmac_key@
                == hmac_key@,
        },
{
    if github_token.as_str().is_empty() {
        return Err("gh-proxy refuses to start without GITHUB_TOKEN".to_owned());
    }
    if hmac_key.as_str().is_empty() {
        return Err("gh-proxy refuses to start without MONKEY_GH_PROXY_HMAC_KEY".to_owned());
    }
    Ok(GhProxyState::new(github_token, hmac_key))
}

/// What is written after the first hash is the number, what is written before it
/// is the owner, a slash and the repository; whatever is missing is told.
pub proof fn law_targets_on_the_command_line(
    place: Seq<char>,
    digits: Seq<char>,
    owner: Seq<char>,
    repo: Seq<char>,
)
    requires
        !place.contains('#'),
        !owner.contains('/'),
    ensures
        ({
            let whole = target_of(place + "#"@ + digits);
            let n = decimal::bounded(
                decimal::signed_value(digits),
                i64::MIN as int,
                i64::MAX as int,
            );
            &&& target_of(place) == Err::<(Seq<char>, Seq<char>, int), Seq<char>>(
                "missing issue number (#)"@,
            )
            &&& n is None ==> whole == Err::<(Seq<char>, Seq<char>, int), Seq<char>>(
                "invalid issue number"@,
            )
            &&& n is Some && !place.contains('/') ==> whole == Err::<
                (Seq<char>, Seq<char>, int),
                Seq<char>,
            >("missing repo"@)
            &&& n is Some && place == owner + "/"@ + repo ==> whole == Ok::<
                (Seq<char>, Seq<char>, int),
                Seq<char>,
            >((owner, repo, n->0))
        }),
{
    reveal_strlit("#");
    reveal_strlit("/");
    let s = place + "#"@ + digits;
    text::lemma_first_index(s, '#');
    let k = place.len() as int;
    assert(s[k] == '#');
    assert(text::first_index(s, '#') == k) by {
        let h = text::first_index(s, '#');
        if h < k {
            assert(place[h] == '#');
        }
    }
    assert(s.take(k) =~= place);
    assert(s.skip(k + 1) =~= digits);
    if place == owner + "/"@ + repo {
        let m = owner.len() as int;
        assert(place[m] == '/');
        text::lemma_first_index(place, '/');
        assert(text::first_index(place, '/') == m) by {
            let h = text::first_index(place, '/');
            if h < m {
                assert(owner[h] == '/');
            }
        }
        assert(place.take(m) =~= owner);
        assert(place.skip(m + 1) =~= repo);
    }
}

/// The service that holds the token starts with a token and a key only.
pub proof fn law_service_needs_token_and_key(token: Seq<char>, key: Seq<char>)
    ensures
        start_complaint(token, key) is None <==> token.len() > 0 && key.len() > 0,
        token.len() == 0 ==> start_complaint(token, key) == Some(
            "gh-proxy refuses to start without GITHUB_TOKEN"@,
        ),
        token.len() > 0 && key.len() == 0 ==> start_complaint(token, key) == Some(
            "gh-proxy refuses to start without MONKEY_GH_PROXY_HMAC_KEY"@,
        ),
{
}

} // verus!
