//! The webhook: which deliveries are let in, and which of them are stored.

use vstd::prelude::*;
use vstd::string::*;

use crate::config::Settings;
use crate::config;
use crate::gh_proxy;
use crate::gh_proxy::Reply;
use crate::gh_writeback;
use crate::hmac_auth;
use crate::json;
use crate::json::{Doc, Json};
use crate::text;

verus! {

/// A delivery may be about an issue or a pull request.
pub open spec fn is_target_event(event_type: Seq<char>) -> bool {
    event_type == "issues"@ || event_type == "issue_comment"@ || event_type
        == "pull_request_review"@
}

/// The owner of the repository of a delivery.
pub open spec fn owner_in(payload: json::Tree) -> Option<Seq<char>> {
    match payload.get("repository"@) {
        Some(repo) => match repo.get("owner"@) {
            Some(owner) => match owner.get("login"@) {
                Some(login) => login.as_str(),
                None => owner.text_at("name"@),
            },
            None => None,
        },
        None => None,
    }
}

/// The item of a delivery that carries a number: the issue, the pull request
/// or else the review.
pub open spec fn item_in(payload: json::Tree) -> Option<json::Tree> {
    match payload.get("issue"@) {
        Some(t) => Some(t),
        None => match payload.get("pull_request"@) {
            Some(t) => Some(t),
            None => payload.get("review"@),
        },
    }
}

/// The number of the item of a delivery.
pub open spec fn number_in(payload: json::Tree) -> Option<int> {
    match item_in(payload) {
        Some(item) => match item.get("number"@) {
            Some(n) => n.as_i64(),
            None => None,
        },
        None => None,
    }
}

/// The owner, the repository and the number that a delivery is about, as far
/// as it names them.
pub open spec fn target_in(event_type: Seq<char>, payload: json::Tree) -> (
    Option<Seq<char>>,
    Option<Seq<char>>,
    Option<int>,
) {
    if !is_target_event(event_type) || payload.get("repository"@) is None {
        (None, None, None)
    } else {
        (owner_in(payload), payload.text_at2("repository"@, "name"@), number_in(payload))
    }
}

fn find_owner<'a>(payload: &'a Json) -> (r: Option<&'a str>)
    ensures
        json::text_of(r) == owner_in(payload@),
{
    match payload.get("repository") {
        Some(repo) => match repo.get("owner") {
            Some(owner) => match owner.get("login") {
                Some(login) => login.as_str(),
                None => owner.text_at("name"),
            },
            None => None,
        },
        None => None,
    }
}

fn find_number(payload: &Json) -> (r: Option<i64>)
    ensures
        number_in(payload@) == match r {
            Some(n) => Some(n as int),
            None => None,
        },
{
    let item = match payload.get("issue") {
        Some(j) => Some(j),
        None => match payload.get("pull_request") {
            Some(j) => Some(j),
            None => payload.get("review"),
        },
    };
    match item {
        Some(j) => match j.get("number") {
            Some(n) => n.as_i64(),
            None => None,
        },
        None => None,
    }
}

fn to_owned_text(s: Option<&str>) -> (r: Option<String>)
    ensures
        crate::foreign::opt_view(r) == json::text_of(s),
{
    match s {
        Some(s) => Some(s.to_owned()),
        None => None,
    }
}

/// The owner, the repository and the number that a delivery is about, as far
/// as it names them.
pub fn parse_target(event_type: &str, payload: &Json) -> (r: (
    Option<String>,
    Option<String>,
    Option<i64>,
))
    ensures
        target_in(event_type@, payload@) == (
            crate::foreign::opt_view(r.0),
            crate::foreign::opt_view(r.1),
            match r.2 {
                Some(n) => Some(n as int),
                None => None,
            },
        ),
{
    let targets = text::same_text(event_type, "issues") || text::same_text(
        event_type,
        "issue_comment",
    ) || text::same_text(event_type, "pull_request_review");
    if !targets || payload.get("repository").is_none() {
        return (None, None, None);
    }
    (
        to_owned_text(find_owner(payload)),
        to_owned_text(payload.text_at2("repository", "name")),
        find_number(payload),
    )
}

/// The answer to a delivery that is not let in. A delivery needs a body that
/// can be read, a good signature and an id.
pub open spec fn admission_reply(
    secret: Seq<char>,
    body: Option<Seq<u8>>,
    signature: Option<Seq<char>>,
    delivery: Option<Seq<char>>,
) -> Option<gh_proxy::ReplyModel> {
    match body {
        None => Some(gh_proxy::detail_reply(400, "failed to read body"@)),
        Some(b) => if hmac_auth::github_verdict(secret, b, signature) is Err {
            Some(gh_proxy::detail_reply(401, "bad signature"@))
        } else {
            match delivery {
                Some(d) if d.len() > 0 => None,
                _ => Some(gh_proxy::detail_reply(400, "missing x-github-delivery"@)),
            }
        },
    }
}

/// Decides whether a delivery is let in; the answer where it is not. There is
/// no body where it could not be read.
pub fn admit_delivery(
    settings: &Settings,
    body: Option<&[u8]>,
    signature: Option<&str>,
    delivery: Option<&str>,
) -> (r: Option<Reply>)
    ensures
        gh_proxy::reply_view(r) == admission_reply(
            settings@.github_webhook_secret,
            gh_proxy::bytes_view(body),
            hmac_auth::opt_text(signature),
            hmac_auth::opt_text(delivery),
        ),
{
    let bytes = match body {
        Some(b) => b,
        None => return Some(gh_proxy::reply_with_detail(400, "failed to read body")),
    };
    let verdict = hmac_auth::verify_github_signature(
        settings.github_webhook_secret.as_str(),
        bytes,
        signature,
    );
    if verdict.is_err() {
        return Some(gh_proxy::reply_with_detail(401, "bad signature"));
    }
    match delivery {
        Some(d) => if d.is_empty() {
            Some(gh_proxy::reply_with_detail(400, "missing x-github-delivery"))
        } else {
            None
        },
        None => Some(gh_proxy::reply_with_detail(400, "missing x-github-delivery")),
    }
}

/// The answer to a delivery that calls for nothing.
pub open spec fn skipped_reply(reason: Seq<char>) -> gh_proxy::ReplyModel {
    gh_proxy::ReplyModel {
        status: 200,
        body: json::document(skipped_tree(reason)),
    }
}

/// What is told of a delivery that calls for nothing.
pub open spec fn skipped_tree(reason: Seq<char>) -> json::Tree {
    json::Tree::Object(
        seq![("ok"@, json::Tree::Bool(true)), ("skipped"@, json::Tree::Text(reason))],
    )
}

fn skipped(reason: &str) -> (r: Reply)
    ensures
        r@ == skipped_reply(reason@),
{
    let members = vec![
        ("ok".to_owned(), Json::Bool(true)),
        Json::text_member("skipped", reason),
    ];
    assert(json::members_of(members@) =~= skipped_tree(reason@)->Object_0);
    Reply { status: 200, body: Doc::value(Json::object(members)) }
}

/// The text of a field of the sender, empty where there is none.
pub open spec fn sender_text(payload: json::Tree, name: Seq<char>) -> Seq<char> {
    match payload.text_at2("sender"@, name) {
        Some(s) => s,
        None => ""@,
    }
}

/// The delivery was caused by a bot: by this one, by one of GitHub's, or by an
/// account of that type.
pub open spec fn is_from_bot(payload: json::Tree, bot_login: Seq<char>) -> bool {
    let login = sender_text(payload, "login"@);
    ||| bot_login.len() > 0 && text::same_but_case(login, bot_login)
    ||| text::ends_in(login, "[bot]"@)
    ||| text::same_but_case(sender_text(payload, "type"@), "bot"@)
}

/// The repository is one of those that are served.
pub open spec fn is_allowed(settings: config::SettingsModel, owner: Seq<char>, repo: Seq<char>) -> bool {
    text::list_entries(settings.repo_allowlist).contains(gh_writeback::repo_text(owner, repo))
}

/// What becomes of a delivery that was let in.
#[derive(Debug)]
pub enum Routed {
    /// It is answered.
    Answer(Reply),
    /// It is stored.
    Enqueue { owner: String, repo: String, number: i64 },
}

/// What the way of a delivery stands for.
pub enum RoutedModel {
    Answer(gh_proxy::ReplyModel),
    Enqueue { owner: Seq<char>, repo: Seq<char>, number: int },
}

impl View for Routed {
    type V = RoutedModel;

    open spec fn view(&self) -> RoutedModel {
        match self {
            Routed::Answer(r) => RoutedModel::Answer(r@),
            Routed::Enqueue { owner, repo, number } => RoutedModel::Enqueue {
                owner: owner@,
                repo: repo@,
                number: *number as int,
            },
        }
    }
}

/// What becomes of a delivery that was let in. There is no payload where the
/// body is not JSON.
pub open spec fn route_of(
    settings: config::SettingsModel,
    event_type: Seq<char>,
    payload: Option<json::Tree>,
) -> RoutedModel {
    match payload {
        None => RoutedModel::Answer(gh_proxy::detail_reply(400, "invalid json"@)),
        Some(p) => match target_in(event_type, p) {
            (Some(owner), Some(repo), Some(number)) => if !is_allowed(settings, owner, repo) {
                RoutedModel::Answer(skipped_reply("repo not in allowlist"@))
            } else if is_from_bot(p, settings.bot_login) {
                RoutedModel::Answer(skipped_reply("bot-authored event"@))
            } else {
                RoutedModel::Enqueue { owner, repo, number }
            },
            _ => RoutedModel::Answer(skipped_reply("not an actionable event"@)),
        },
    }
}

fn find_sender_text<'a>(payload: &'a Json, name: &str) -> (r: &'a str)
    ensures
        r@ == sender_text(payload@, name@),
{
    match payload.text_at2("sender", name) {
        Some(s) => s,
        None => "",
    }
}

fn bot_sent(payload: &Json, bot_login: &str) -> (r: bool)
    ensures
        r == is_from_bot(payload@, bot_login@),
{
    let login = find_sender_text(payload, "login");
    (!bot_login.is_empty() && text::eq_ignore_ascii_case(login, bot_login)) || text::ends_with(
        login,
        "[bot]",
    ) || text::eq_ignore_ascii_case(find_sender_text(payload, "type"), "bot")
}

fn allowed(settings: &Settings, owner: &str, repo: &str) -> (r: bool)
    ensures
        r == is_allowed(settings@, owner@, repo@),
{
    let mut wanted = owner.to_owned();
    wanted.append("/");
    wanted.append(repo);
    let list = settings.allowlist();
    let ghost all = text::texts(list@);
    let mut i: usize = 0;
    while i < list.len()
        invariant
            i <= list.len(),
            all == text::texts(list@),
            all == text::list_entries(settings@.repo_allowlist),
            wanted@ == gh_writeback::repo_text(owner@, repo@),
            forall|k: int| 0 <= k < i ==> #[trigger] all[k] != wanted@,
        decreases list.len() - i,
    {
        assert(all[i as int] == list@[i as int]@);
        if text::same_text(list[i].as_str(), wanted.as_str()) {
            assert(all.contains(wanted@));
            return true;
        }
        i += 1;
    }
    assert(!all.contains(wanted@));
    false
}

/// Decides what becomes of a delivery that was let in. There is no payload
/// where the body is not JSON.
pub fn route_delivery(settings: &Settings, event_type: &str, payload: Option<&Json>) -> (r: Routed)
    ensures
        r@ == route_of(settings@, event_type@, json::tree_of(payload)),
{
    let payload = match payload {
        Some(p) => p,
        None => return Routed::Answer(gh_proxy::reply_with_detail(400, "invalid json")),
    };
    match parse_target(event_type, payload) {
        (Some(owner), Some(repo), Some(number)) => {
            if !allowed(settings, owner.as_str(), repo.as_str()) {
                return Routed::Answer(skipped("repo not in allowlist"));
            }
            if bot_sent(payload, settings.bot_login.as_str()) {
                return Routed::Answer(skipped("bot-authored event"));
            }
            Routed::Enqueue { owner, repo, number }
        },
        _ => Routed::Answer(skipped("not an actionable event")),
    }
}

/// The answer to a delivery that was stored, or that could not be.
pub open spec fn stored_reply(stored: Result<bool, String>) -> gh_proxy::ReplyModel {
    match stored {
        Ok(is_new) => gh_proxy::ReplyModel {
            status: 200,
            body: json::document(
                json::Tree::Object(
                    seq![("ok"@, json::Tree::Bool(true)), ("new"@, json::Tree::Bool(is_new))],
                ),
            ),
        },
        Err(e) => gh_proxy::detail_reply(500, "database error: "@ + e@),
    }
}

/// The answer to a delivery that was stored, or that could not be.
pub fn enqueue_reply(stored: Result<bool, String>) -> (r: Reply)
    ensures
        r@ == stored_reply(stored),
{
    match stored {
        Ok(is_new) => {
            let members = vec![
                ("ok".to_owned(), Json::Bool(true)),
                ("new".to_owned(), Json::Bool(is_new)),
            ];
            assert(json::members_of(members@) =~= seq![
                ("ok"@, json::Tree::Bool(true)),
                ("new"@, json::Tree::Bool(is_new)),
            ]);
            Reply { status: 200, body: Doc::value(Json::object(members)) }
        },
        Err(e) => gh_proxy::reply_with_detail(
            500,
            "database error: ".to_owned().concat(e.as_str()).as_str(),
        ),
    }
}

/// A delivery without a good signature is never let in, and is answered with
/// the status for it wherever its body could be read.
pub proof fn law_bad_signatures_are_refused(
    secret: Seq<char>,
    body: Seq<u8>,
    signature: Option<Seq<char>>,
    delivery: Option<Seq<char>>,
)
    requires
        hmac_auth::github_verdict(secret, body, signature) is Err,
    ensures
        admission_reply(secret, Some(body), signature, delivery) == Some(
            gh_proxy::detail_reply(401, "bad signature"@),
        ),
{
}

/// Only events about issues, comments and reviews, of a repository that is
/// served, and not caused by a bot, are stored.
pub proof fn law_only_wanted_events_are_stored(
    settings: config::SettingsModel,
    event_type: Seq<char>,
    payload: Option<json::Tree>,
)
    ensures
        route_of(settings, event_type, payload) matches RoutedModel::Enqueue { owner, repo, number }
            ==> {
            &&& is_target_event(event_type)
            &&& payload is Some
            &&& is_allowed(settings, owner, repo)
            &&& !is_from_bot(payload->0, settings.bot_login)
        },
{
}

/// The delivery names the owner, the repository and the number of its issue, or
/// of its pull request where it has no issue, or else of its review. The owner is
/// told by its login, or by its name where it has no login.
pub open spec fn names_target(
    payload: json::Tree,
    owner: Seq<char>,
    repo: Seq<char>,
    number: int,
) -> bool {
    let repository = payload.get("repository"@)->0;
    let account = repository.get("owner"@)->0;
    let int_number = |t: Option<json::Tree>|
        t is Some && t->0.get("number"@) == Some(json::Tree::Int(number));
    &&& payload.get("repository"@) is Some
    &&& repository.text_at("name"@) == Some(repo)
    &&& repository.get("owner"@) is Some
    &&& account.text_at("login"@) == Some(owner) || account.get("login"@) is None && account.text_at(
        "name"@,
    ) == Some(owner)
    &&& {
        ||| int_number(payload.get("issue"@))
        ||| payload.get("issue"@) is None && int_number(payload.get("pull_request"@))
        ||| payload.get("issue"@) is None && payload.get("pull_request"@) is None && int_number(
            payload.get("review"@),
        )
    }
}

/// The sender of a delivery is a bot: it has the login of this one, in whatever
/// case, a login with the ending of GitHub's bots, or the type of a bot.
pub open spec fn sent_by_bot(payload: json::Tree, bot_login: Seq<char>) -> bool {
    let login = payload.text_at2("sender"@, "login"@);
    let kind = payload.text_at2("sender"@, "type"@);
    ||| login is Some && bot_login.len() > 0 && text::same_but_case(login->0, bot_login)
    ||| login is Some && exists|name: Seq<char>| login->0 == #[trigger] (name + "[bot]"@)
    ||| kind is Some && text::same_but_case(kind->0, "bot"@)
}

proof fn lemma_bot(payload: json::Tree, bot_login: Seq<char>)
    ensures
        is_from_bot(payload, bot_login) == sent_by_bot(payload, bot_login),
{
    reveal_strlit("");
    reveal_strlit("bot");
    reveal_strlit("[bot]");
    assert("bot"@.len() == 3 && "[bot]"@.len() == 5 && ""@.len() == 0);
    text::law_standing_in_is_being_a_part(sender_text(payload, "login"@), "[bot]"@);
}

proof fn lemma_target(
    event_type: Seq<char>,
    payload: json::Tree,
    owner: Seq<char>,
    repo: Seq<char>,
    number: int,
)
    requires
        event_type == "issues"@ || event_type == "issue_comment"@ || event_type
            == "pull_request_review"@,
    ensures
        target_in(event_type, payload) == (Some(owner), Some(repo), Some(number)) <==> names_target(
            payload,
            owner,
            repo,
            number,
        ),
{
}

/// A delivery about an issue, a comment or a review that names its owner, its
/// repository and its number is stored for just these, where the repository is on
/// the list of those that are served and the sender is no bot; nothing else is
/// stored.
pub proof fn law_wanted_deliveries_are_stored(
    settings: config::SettingsModel,
    event_type: Seq<char>,
    payload: json::Tree,
    owner: Seq<char>,
    repo: Seq<char>,
    number: int,
)
    ensures
        route_of(settings, event_type, Some(payload)) == (RoutedModel::Enqueue {
            owner,
            repo,
            number,
        }) <==> {
            &&& event_type == "issues"@ || event_type == "issue_comment"@ || event_type
                == "pull_request_review"@
            &&& names_target(payload, owner, repo, number)
            &&& text::list_entries(settings.repo_allowlist).contains(owner + "/"@ + repo)
            &&& !sent_by_bot(payload, settings.bot_login)
        },
{
    lemma_bot(payload, settings.bot_login);
    if event_type == "issues"@ || event_type == "issue_comment"@ || event_type
        == "pull_request_review"@ {
        lemma_target(event_type, payload, owner, repo, number);
    }
}

/// A delivery that is not stored is told why: it is not JSON, it is about nothing
/// that calls for work, its repository is not served, or a bot sent it.
pub proof fn law_other_deliveries_are_told_why(
    settings: config::SettingsModel,
    event_type: Seq<char>,
    payload: json::Tree,
    owner: Seq<char>,
    repo: Seq<char>,
    number: int,
)
    ensures
        ({
            let r = route_of(settings, event_type, Some(payload));
            let kind = event_type == "issues"@ || event_type == "issue_comment"@ || event_type
                == "pull_request_review"@;
            let served = text::list_entries(settings.repo_allowlist).contains(owner + "/"@ + repo);
            let targeted = exists|o: Seq<char>, p: Seq<char>, n: int|
                #[trigger] names_target(payload, o, p, n);
            &&& !kind || !targeted ==> r is Answer && is_skip(
                r->Answer_0,
                "not an actionable event"@,
            )
            &&& kind && names_target(payload, owner, repo, number) && !served ==> r is Answer
                && is_skip(r->Answer_0, "repo not in allowlist"@)
            &&& kind && names_target(payload, owner, repo, number) && served && sent_by_bot(
                payload,
                settings.bot_login,
            ) ==> r is Answer && is_skip(r->Answer_0, "bot-authored event"@)
            &&& route_of(settings, event_type, None) is Answer
            &&& route_of(settings, event_type, None)->Answer_0.status == 400
        }),
{
    lemma_bot(payload, settings.bot_login);
    lemma_skips("not an actionable event"@);
    lemma_skips("repo not in allowlist"@);
    lemma_skips("bot-authored event"@);
    if event_type == "issues"@ || event_type == "issue_comment"@ || event_type
        == "pull_request_review"@ {
        lemma_target(event_type, payload, owner, repo, number);
        let t = target_in(event_type, payload);
        if t.0 is Some && t.1 is Some && t.2 is Some {
            lemma_target(event_type, payload, t.0->0, t.1->0, t.2->0);
        }
    }
}

/// The answer says that all is well and why nothing is done.
pub open spec fn is_skip(reply: gh_proxy::ReplyModel, reason: Seq<char>) -> bool {
    let body = reply.body;
    &&& reply.status == 200
    &&& body is Whole && body->Whole_0 is Value
    &&& body->Whole_0->Value_0.get("ok"@) == Some(json::Tree::Bool(true))
    &&& body->Whole_0->Value_0.text_at("skipped"@) == Some(reason)
}

proof fn lemma_skips(reason: Seq<char>)
    ensures
        is_skip(skipped_reply(reason), reason),
{
    reveal_strlit("ok");
    reveal_strlit("skipped");
    assert("ok"@.len() == 2 && "skipped"@.len() == 7);
    reveal_with_fuel(json::member, 3);
}

/// A delivery is let in exactly where its body can be read, its signature is good
/// and it carries an id; else it is told what is wrong, in this order.
pub proof fn law_deliveries_that_are_let_in(
    secret: Seq<char>,
    body: Option<Seq<u8>>,
    signature: Option<Seq<char>>,
    delivery: Option<Seq<char>>,
)
    ensures
        ({
            let r = admission_reply(secret, body, signature, delivery);
            let good = body is Some && hmac_auth::github_verdict(secret, body->0, signature) is Ok;
            let told = delivery is Some && delivery->0.len() > 0;
            &&& r is None <==> good && told
            &&& body is None ==> r == Some(gh_proxy::detail_reply(400, "failed to read body"@))
            &&& body is Some && !good ==> r == Some(gh_proxy::detail_reply(401, "bad signature"@))
            &&& good && !told ==> r == Some(
                gh_proxy::detail_reply(400, "missing x-github-delivery"@),
            )
        }),
{
}

/// What is told of a delivery that was stored: whether it is new; a fault of the
/// tables is told as such.
pub proof fn law_stored_deliveries(is_new: bool, error: String)
    ensures
        ({
            let r = stored_reply(Ok(is_new));
            &&& r.status == 200
            &&& r.body is Whole && r.body->Whole_0 is Value
            &&& r.body->Whole_0->Value_0.get("ok"@) == Some(json::Tree::Bool(true))
            &&& r.body->Whole_0->Value_0.get("new"@) == Some(json::Tree::Bool(is_new))
        }),
        stored_reply(Err(error)) == gh_proxy::detail_reply(500, "database error: "@ + error@),
{
    reveal_strlit("ok");
    reveal_strlit("new");
    assert("ok"@.len() == 2 && "new"@.len() == 3);
    reveal_with_fuel(json::member, 3);
}

/// An answer about a delivery holds these members and no others.
pub proof fn law_answers_hold_nothing_else(reason: Seq<char>, is_new: bool)
    ensures
        skipped_reply(reason).body == json::document(
            json::Tree::Object(
                seq![("ok"@, json::Tree::Bool(true)), ("skipped"@, json::Tree::Text(reason))],
            ),
        ),
        stored_reply(Ok(is_new)).body == json::document(
            json::Tree::Object(
                seq![("ok"@, json::Tree::Bool(true)), ("new"@, json::Tree::Bool(is_new))],
            ),
        ),
{
}

} // verus!
