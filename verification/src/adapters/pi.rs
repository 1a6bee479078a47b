//! The session with the engine: how it is started, what is asked of it, and
//! what is made of its answers.

use vstd::prelude::*;
use vstd::string::*;

use crate::adapters::{EngineError, Outcome, OutcomeStatus, RunParams};
use crate::adapters::pi_protocol::{PiEvent, PiResponse};
use crate::adapters;
use crate::adapters::pi_protocol;
use crate::foreign;
use crate::json;
use crate::json::{Doc, Json, JsonText, Part};
use crate::sandbox::GitRun;
use crate::text;

verus! {

/// The engine, by the name of its program.
#[derive(Debug, Clone)]
pub struct PiAdapter {
    pub binary: String,
}

impl PiAdapter {
    /// The engine with the given program, `pi` where none is given.
    pub fn new(binary: Option<&str>) -> (r: Self)
        ensures
            r.binary@ == match binary {
                Some(b) => b@,
                None => "pi"@,
            },
    {
        let name = match binary {
            Some(b) => b,
            None => "pi",
        };
        PiAdapter { binary: name.to_owned() }
    }
}

impl Default for PiAdapter {
    fn default() -> (r: Self)
        ensures
            r.binary@ == "pi"@,
    {
        PiAdapter::new(None)
    }
}

// ---------------------------------------------------------------------------
// Starting the engine
// ---------------------------------------------------------------------------

/// An option and its value, where the value is not empty.
pub open spec fn option_pair(name: Seq<char>, value: Seq<char>) -> Seq<Seq<char>> {
    if value.len() > 0 {
        seq![name, value]
    } else {
        Seq::empty()
    }
}

/// The arguments that the engine is started with.
pub open spec fn arguments(
    session_dir: Seq<char>,
    model: Seq<char>,
    provider: Seq<char>,
    thinking: Seq<char>,
) -> Seq<Seq<char>> {
    seq!["--mode"@, "rpc"@, "--session-dir"@, session_dir, "--name"@, "monkey"@] + option_pair(
        "--model"@,
        model,
    ) + option_pair("--provider"@, provider) + seq!["--thinking"@, thinking]
}

fn push_text(v: &mut Vec<String>, s: &str)
    ensures
        text::texts(final(v)@) == text::texts(old(v)@).push(s@),
{
    v.push(s.to_owned());
    assert(text::texts(v@) =~= text::texts(old(v)@).push(s@));
}

/// The arguments that the engine is started with.
pub fn spawn_arguments(params: &RunParams<'_>) -> (r: Vec<String>)
    ensures
        text::texts(r@) == arguments(
            params.session_dir@,
            params.model@,
            params.provider@,
            params.thinking@,
        ),
{
    let mut args: Vec<String> = Vec::new();
    assert(text::texts(args@) =~= Seq::<Seq<char>>::empty());
    push_text(&mut args, "--mode");
    push_text(&mut args, "rpc");
    push_text(&mut args, "--session-dir");
    push_text(&mut args, params.session_dir);
    push_text(&mut args, "--name");
    push_text(&mut args, "monkey");
    if !params.model.is_empty() {
        push_text(&mut args, "--model");
        push_text(&mut args, params.model);
    }
    if !params.provider.is_empty() {
        push_text(&mut args, "--provider");
        push_text(&mut args, params.provider);
    }
    push_text(&mut args, "--thinking");
    push_text(&mut args, params.thinking);
    assert(text::texts(args@) =~= arguments(
        params.session_dir@,
        params.model@,
        params.provider@,
        params.thinking@,
    ));
    args
}

/// The name of a variable that the engine must not see.
pub open spec fn is_secret(name: Seq<char>) -> bool {
    text::begins_with(name, "GITHUB_"@) || text::begins_with(name, "MONKEY_"@)
}

/// The variables that are taken out of the environment of the engine: the
/// credentials and the settings, which code under the influence of a prompt
/// must not read.
pub fn scrubbed_variables(names: &Vec<String>) -> (r: Vec<String>)
    ensures
        text::texts(r@) == text::texts(names@).filter(|n: Seq<char>| is_secret(n)),
{
    let ghost all = text::texts(names@);
    let ghost secret = |n: Seq<char>| is_secret(n);
    let mut r: Vec<String> = Vec::new();
    let mut i: usize = 0;
    proof {
        reveal(Seq::filter);
        assert(text::texts(r@) =~= all.take(0).filter(secret));
    }
    while i < names.len()
        invariant
            i <= names.len(),
            all == text::texts(names@),
            secret == (|n: Seq<char>| is_secret(n)),
            text::texts(r@) == all.take(i as int).filter(secret),
        decreases names.len() - i,
    {
        let name = names[i].as_str();
        proof {
            reveal(Seq::filter);
            assert(all.take(i + 1).drop_last() == all.take(i as int));
            assert(all.take(i + 1).last() == name@);
        }
        if text::starts_with(name, "GITHUB_") || text::starts_with(name, "MONKEY_") {
            push_text(&mut r, name);
        }
        i += 1;
    }
    assert(all.take(all.len() as int) == all);
    r
}

/// Every secret variable is taken out, and no other one.
pub proof fn law_environment_is_scrubbed(names: Seq<Seq<char>>, name: Seq<char>)
    requires
        names.contains(name),
    ensures
        names.filter(|n: Seq<char>| is_secret(n)).contains(name) <==> is_secret(name),
{
    let secret = |n: Seq<char>| is_secret(n);
    let kept = names.filter(secret);
    let k = choose|k: int| 0 <= k < names.len() && names[k] == name;
    if is_secret(name) {
        assert(secret(names[k]));
        names.lemma_filter_contains(secret, k);
    }
    if kept.contains(name) {
        let i = choose|i: int| 0 <= i < kept.len() && kept[i] == name;
        names.lemma_filter_pred(secret, i);
    }
}

// ---------------------------------------------------------------------------
// The conversation
// ---------------------------------------------------------------------------

/// What came out of the engine.
#[derive(Debug, Clone)]
pub enum PiInput {
    /// A line.
    Line(String),
    /// The line could not be read.
    ReadFailed(String),
    /// The engine has closed its output.
    Closed,
    /// Nothing came in time.
    TimedOut,
}

/// What is to be done with what came out of the engine.
#[derive(Debug)]
pub enum Frame {
    /// Nothing; read on.
    Skip,
    /// The line holds a JSON value, without white space at its ends.
    Value(String),
    /// The engine has nothing more to say for now.
    Quiet,
    /// The session has failed.
    Fail(EngineError),
}

/// What a frame stands for.
pub enum FrameModel {
    Skip,
    Value(Seq<char>),
    Quiet,
    Fail(adapters::EngineErrorModel),
}

impl View for Frame {
    type V = FrameModel;

    open spec fn view(&self) -> FrameModel {
        match self {
            Frame::Skip => FrameModel::Skip,
            Frame::Value(s) => FrameModel::Value(s@),
            Frame::Quiet => FrameModel::Quiet,
            Frame::Fail(e) => FrameModel::Fail(e@),
        }
    }
}

/// Where a session stands. The text is the reason for which the engine gave up
/// its retries, if it did.
#[derive(Debug)]
pub enum SessionState {
    /// The prompt was sent; events come until the run has settled.
    Draining(Option<String>),
    /// The run has settled; trailing events may still come.
    Flushing(Option<String>),
    /// The statistics were asked for.
    AskedStats(Option<String>),
    /// The last text was asked for; the statistics are known.
    AskedText(Option<String>, PiResponse),
    /// Nothing more is to be done.
    Over,
}

/// What a state stands for.
pub enum StateModel {
    Draining(Option<Seq<char>>),
    Flushing(Option<Seq<char>>),
    AskedStats(Option<Seq<char>>),
    AskedText(Option<Seq<char>>, pi_protocol::PiResponseModel),
    Over,
}

impl View for SessionState {
    type V = StateModel;

    open spec fn view(&self) -> StateModel {
        match self {
            SessionState::Draining(t) => StateModel::Draining(foreign::opt_view(*t)),
            SessionState::Flushing(t) => StateModel::Flushing(foreign::opt_view(*t)),
            SessionState::AskedStats(t) => StateModel::AskedStats(foreign::opt_view(*t)),
            SessionState::AskedText(t, s) => StateModel::AskedText(foreign::opt_view(*t), s@),
            SessionState::Over => StateModel::Over,
        }
    }
}

/// What a session is to do next.
#[derive(Debug)]
pub enum SessionAction {
    /// Read on.
    Read,
    /// Send a request, then read on.
    Send(Json),
    /// The session is over, with the answers to both requests.
    Finish { terminal_error: Option<String>, stats: PiResponse, text: PiResponse },
    /// The session has failed.
    Fail(EngineError),
}

/// What an action stands for.
pub enum ActionModel {
    Read,
    Send(json::Tree),
    Finish {
        terminal_error: Option<Seq<char>>,
        stats: pi_protocol::PiResponseModel,
        text: pi_protocol::PiResponseModel,
    },
    Fail(adapters::EngineErrorModel),
}

impl View for SessionAction {
    type V = ActionModel;

    open spec fn view(&self) -> ActionModel {
        match self {
            SessionAction::Read => ActionModel::Read,
            SessionAction::Send(j) => ActionModel::Send(j@),
            SessionAction::Finish { terminal_error, stats, text } => ActionModel::Finish {
                terminal_error: foreign::opt_view(*terminal_error),
                stats: stats@,
                text: text@,
            },
            SessionAction::Fail(e) => ActionModel::Fail(e@),
        }
    }
}

/// The request that makes the engine go on with an earlier session.
pub open spec fn switch_request(path: Seq<char>) -> json::Tree {
    json::Tree::Object(
        seq![
            ("type"@, json::Tree::Text("switch_session"@)),
            ("sessionPath"@, json::Tree::Text(path)),
        ],
    )
}

/// The request that gives the engine its task.
pub open spec fn prompt_request(prompt: Seq<char>) -> json::Tree {
    json::Tree::Object(
        seq![
            ("type"@, json::Tree::Text("prompt"@)),
            ("message"@, json::Tree::Text(prompt)),
            ("id"@, json::Tree::Text("monkey-1"@)),
        ],
    )
}

/// A request for an answer.
pub open spec fn rpc_request_tree(request_type: Seq<char>, request_id: Seq<char>) -> json::Tree {
    json::Tree::Object(
        seq![
            ("type"@, json::Tree::Text(request_type)),
            ("id"@, json::Tree::Text(request_id)),
        ],
    )
}

/// The requests that open a session: the switch to an earlier session, if
/// there is one, and the task.
pub fn opening_requests(switch_to: Option<&str>, prompt: &str) -> (r: Vec<Json>)
    ensures
        json::trees(r@) == match switch_to {
            Some(path) => seq![switch_request(path@), prompt_request(prompt@)],
            None => seq![prompt_request(prompt@)],
        },
{
    let mut r: Vec<Json> = Vec::new();
    if let Some(path) = switch_to {
        let members = vec![
            Json::text_member("type", "switch_session"),
            Json::text_member("sessionPath", path),
        ];
        assert(json::members_of(members@) =~= switch_request(path@)->Object_0);
        r.push(Json::object(members));
    }
    let members = vec![
        Json::text_member("type", "prompt"),
        Json::text_member("message", prompt),
        Json::text_member("id", "monkey-1"),
    ];
    assert(json::members_of(members@) =~= prompt_request(prompt@)->Object_0);
    r.push(Json::object(members));
    assert(json::trees(r@) =~= match switch_to {
        Some(path) => seq![switch_request(path@), prompt_request(prompt@)],
        None => seq![prompt_request(prompt@)],
    });
    r
}

/// A request for an answer.
pub fn rpc_request(request_type: &str, request_id: &str) -> (r: Json)
    ensures
        r@ == rpc_request_tree(request_type@, request_id@),
{
    let members = vec![
        Json::text_member("type", request_type),
        Json::text_member("id", request_id),
    ];
    assert(json::members_of(members@) =~= rpc_request_tree(
        request_type@,
        request_id@,
    )->Object_0);
    Json::object(members)
}

/// What a session waits for.
pub open spec fn waiting_for(state: StateModel) -> Seq<char> {
    match state {
        StateModel::AskedStats(_) => "response stats-1"@,
        StateModel::AskedText(_, _) => "response text-1"@,
        _ => "agent_settled"@,
    }
}

/// What a session reads.
pub open spec fn reading(state: StateModel) -> Seq<char> {
    match state {
        StateModel::AskedStats(_) => "response"@,
        StateModel::AskedText(_, _) => "response"@,
        _ => "event"@,
    }
}

/// The milliseconds that the engine is given to answer a request.
pub const ANSWER_MILLIS: u64 = 10_000;

/// The milliseconds of silence after which a settled run is taken to be over.
pub const FLUSH_MILLIS: u64 = 50;

/// The milliseconds that are waited in a state: the limit of the run until it
/// has settled, and fixed times after that.
pub open spec fn wait_in(state: StateModel, run_seconds: int) -> int {
    match state {
        StateModel::Draining(_) => if run_seconds * 1000 <= u64::MAX {
            run_seconds * 1000
        } else {
            u64::MAX as int
        },
        StateModel::Flushing(_) => FLUSH_MILLIS as int,
        StateModel::AskedStats(_) => ANSWER_MILLIS as int,
        StateModel::AskedText(_, _) => ANSWER_MILLIS as int,
        StateModel::Over => 0,
    }
}

/// A message that cannot be read.
pub open spec fn malformed(what: Seq<char>, why: Seq<char>) -> adapters::EngineErrorModel {
    adapters::EngineErrorModel::Framing("malformed pi "@ + what + ": "@ + why)
}

/// What a line holds, `error` saying what is wrong with it as a JSON value.
pub open spec fn line_frame(line: Seq<char>, error: Option<Seq<char>>, what: Seq<char>) -> FrameModel {
    if text::trimmed(line).len() == 0 {
        FrameModel::Skip
    } else {
        match error {
            Some(e) => FrameModel::Fail(malformed(what, e)),
            None => FrameModel::Value(text::trimmed(line)),
        }
    }
}

/// What is to be done with what came out of the engine.
pub open spec fn frame_of(state: StateModel, input: PiInput) -> FrameModel {
    match input {
        PiInput::Line(s) => line_frame(
            s@,
            foreign::json_error_of(text::trimmed(s@)),
            reading(state),
        ),
        PiInput::ReadFailed(e) => FrameModel::Fail(
            adapters::EngineErrorModel::Framing("failed reading pi output: "@ + e@),
        ),
        PiInput::Closed => if state is Flushing {
            FrameModel::Quiet
        } else {
            FrameModel::Fail(adapters::EngineErrorModel::PrematureExit(waiting_for(state)))
        },
        PiInput::TimedOut => if state is Flushing {
            FrameModel::Quiet
        } else {
            FrameModel::Fail(adapters::EngineErrorModel::Timeout(waiting_for(state)))
        },
    }
}

fn malformed_message(what: &str, why: &str) -> (r: EngineError)
    ensures
        r@ == malformed(what@, why@),
{
    let mut m = "malformed pi ".to_owned();
    m.append(what);
    m.append(": ");
    m.append(why);
    EngineError::Framing(m)
}

/// What a line holds, `error` saying what is wrong with it as a JSON value.
pub fn frame_line(line: &str, error: Option<&str>, what: &str) -> (r: Frame)
    ensures
        r@ == line_frame(line@, json::text_of(error), what@),
{
    let trimmed = text::trim(line);
    if trimmed.is_empty() {
        return Frame::Skip;
    }
    match error {
        Some(e) => Frame::Fail(malformed_message(what, e)),
        None => Frame::Value(trimmed.to_owned()),
    }
}

/// The message that a value holds. An answer that cannot be read is a breach
/// of the contract with the engine; any other message that cannot be read is
/// merely one of an engine that is not known, and no fault.
pub open spec fn message_in(raw: json::Tree, what: Seq<char>) -> Result<
    pi_protocol::PiEventModel,
    adapters::EngineErrorModel,
> {
    match pi_protocol::event_in(raw) {
        Ok(e) => Ok(e),
        Err(why) => if raw.text_at("type"@) == Some("response"@) {
            Err(malformed(what, why))
        } else {
            Ok(pi_protocol::PiEventModel::Unknown)
        },
    }
}

fn read_message(raw: &Json, what: &str) -> (r: Result<PiEvent, EngineError>)
    ensures
        message_in(raw@, what@) == match r {
            Ok(e) => Ok(e@),
            Err(e) => Err(e@),
        },
{
    match PiEvent::from_json(raw) {
        Ok(e) => Ok(e),
        Err(why) => {
            let is_response = match raw.text_at("type") {
                Some(tag) => text::same_text(tag, "response"),
                None => false,
            };
            if is_response {
                Err(malformed_message(what, why.as_str()))
            } else {
                Ok(PiEvent::Unknown)
            }
        },
    }
}

/// Why a run has failed in the end, after one more message: the last word of
/// the engine on its retries counts.
pub open spec fn terminal_after(
    reason: Option<Seq<char>>,
    event: pi_protocol::PiEventModel,
) -> Option<Seq<char>> {
    match event {
        pi_protocol::PiEventModel::AutoRetryEnd { success: false, final_error } => Some(
            match final_error {
                Some(e) => e,
                None => "pi exhausted its automatic retries"@,
            },
        ),
        _ => reason,
    }
}

/// What a message is to whoever waits for an answer.
pub enum ReplyModel {
    /// Not the answer.
    Other,
    /// The answer.
    Answer(pi_protocol::PiResponseModel),
    /// A refusal.
    Refused(adapters::EngineErrorModel),
}

/// What a message is to whoever sent the request `id`. A refusal without an
/// id counts as the answer, since the engine omits the id where it could not
/// read the request.
pub open spec fn reply_to(
    event: pi_protocol::PiEventModel,
    id: Seq<char>,
    command: Seq<char>,
) -> ReplyModel {
    match event {
        pi_protocol::PiEventModel::Response(r) => if r.id == Some(id) || (r.id is None
            && !r.success) {
            if r.success {
                ReplyModel::Answer(r)
            } else {
                ReplyModel::Refused(
                    adapters::EngineErrorModel::EngineRejected {
                        command,
                        error: match r.error {
                            Some(e) => e,
                            None => "pi reported no reason"@,
                        },
                    },
                )
            }
        } else {
            ReplyModel::Other
        },
        _ => ReplyModel::Other,
    }
}

/// What a message is to whoever waits for an answer.
#[derive(Debug)]
pub enum Reply {
    Other,
    Answer(PiResponse),
    Refused(EngineError),
}

impl View for Reply {
    type V = ReplyModel;

    open spec fn view(&self) -> ReplyModel {
        match self {
            Reply::Other => ReplyModel::Other,
            Reply::Answer(r) => ReplyModel::Answer(r@),
            Reply::Refused(e) => ReplyModel::Refused(e@),
        }
    }
}

/// What a message is to whoever sent the request `request_id`.
pub fn wait_for_response(event: PiEvent, request_id: &str, command: &str) -> (r: Reply)
    ensures
        r@ == reply_to(event@, request_id@, command@),
{
    let response = match event {
        PiEvent::Response(r) => r,
        _ => return Reply::Other,
    };
    let ours = match &response.id {
        Some(id) => text::same_text(id.as_str(), request_id),
        None => !response.success,
    };
    if !ours {
        return Reply::Other;
    }
    if response.success {
        return Reply::Answer(response);
    }
    let error = match response.error {
        Some(e) => e,
        None => "pi reported no reason".to_owned(),
    };
    Reply::Refused(EngineError::EngineRejected { command: command.to_owned(), error })
}

/// Where a session stands after a message, whether the message is kept among
/// the events of the run, and what is to be done next.
pub open spec fn after_message(state: StateModel, raw: json::Tree) -> (StateModel, bool, ActionModel) {
    match state {
        StateModel::Draining(t) => match message_in(raw, reading(state)) {
            Err(e) => (StateModel::Over, false, ActionModel::Fail(e)),
            Ok(pi_protocol::PiEventModel::AgentSettled) => (
                StateModel::Flushing(t),
                true,
                ActionModel::Read,
            ),
            Ok(e) => (StateModel::Draining(terminal_after(t, e)), true, ActionModel::Read),
        },
        StateModel::Flushing(t) => (StateModel::Flushing(t), true, ActionModel::Read),
        StateModel::AskedStats(t) => match message_in(raw, reading(state)) {
            Err(e) => (StateModel::Over, false, ActionModel::Fail(e)),
            Ok(e) => match reply_to(e, "stats-1"@, "get_session_stats"@) {
                ReplyModel::Other => (state, false, ActionModel::Read),
                ReplyModel::Refused(e) => (StateModel::Over, false, ActionModel::Fail(e)),
                ReplyModel::Answer(stats) => (
                    StateModel::AskedText(t, stats),
                    false,
                    ActionModel::Send(rpc_request_tree("get_last_assistant_text"@, "text-1"@)),
                ),
            },
        },
        StateModel::AskedText(t, stats) => match message_in(raw, reading(state)) {
            Err(e) => (StateModel::Over, false, ActionModel::Fail(e)),
            Ok(e) => match reply_to(e, "text-1"@, "get_last_assistant_text"@) {
                ReplyModel::Other => (state, false, ActionModel::Read),
                ReplyModel::Refused(e) => (StateModel::Over, false, ActionModel::Fail(e)),
                ReplyModel::Answer(text) => (
                    StateModel::Over,
                    false,
                    ActionModel::Finish { terminal_error: t, stats, text },
                ),
            },
        },
        StateModel::Over => (StateModel::Over, false, ActionModel::Read),
    }
}

/// Where a session stands once the engine has gone quiet, and what is to be
/// done next.
pub open spec fn after_quiet(state: StateModel) -> (StateModel, ActionModel) {
    match state {
        StateModel::Flushing(t) => (
            StateModel::AskedStats(t),
            ActionModel::Send(rpc_request_tree("get_session_stats"@, "stats-1"@)),
        ),
        _ => (state, ActionModel::Read),
    }
}

impl SessionState {
    fn waiting(&self) -> (r: &'static str)
        ensures
            r@ == waiting_for(self@),
    {
        match self {
            SessionState::AskedStats(_) => "response stats-1",
            SessionState::AskedText(_, _) => "response text-1",
            _ => "agent_settled",
        }
    }

    fn subject(&self) -> (r: &'static str)
        ensures
            r@ == reading(self@),
    {
        match self {
            SessionState::AskedStats(_) => "response",
            SessionState::AskedText(_, _) => "response",
            _ => "event",
        }
    }

    /// The state of a session that has just been given its task.
    pub fn start() -> (r: SessionState)
        ensures
            r@ == StateModel::Draining(None),
    {
        SessionState::Draining(None)
    }

    /// The milliseconds that are waited in this state, `run_seconds` being the
    /// limit of a run.
    pub fn wait_millis(&self, run_seconds: u64) -> (r: u64)
        ensures
            r == wait_in(self@, run_seconds as int),
    {
        match self {
            SessionState::Draining(_) => if run_seconds <= u64::MAX / 1000 {
                run_seconds * 1000
            } else {
                u64::MAX
            },
            SessionState::Flushing(_) => FLUSH_MILLIS,
            SessionState::AskedStats(_) => ANSWER_MILLIS,
            SessionState::AskedText(_, _) => ANSWER_MILLIS,
            SessionState::Over => 0,
        }
    }

    /// Whether the wait begins anew with each line; else it covers all lines
    /// that come in this state.
    pub fn waits_anew(&self) -> (r: bool)
        ensures
            r == (self@ is Flushing),
    {
        match self {
            SessionState::Flushing(_) => true,
            _ => false,
        }
    }

    /// Decides what to do with what came out of the engine.
    pub fn next_json_event(&self, input: PiInput) -> (r: Frame)
        ensures
            r@ == frame_of(self@, input),
    {
        let flushing = match self {
            SessionState::Flushing(_) => true,
            _ => false,
        };
        match input {
            PiInput::Line(line) => {
                let error = foreign::json_error(text::trim(line.as_str()));
                match error {
                    Some(e) => frame_line(line.as_str(), Some(e.as_str()), self.subject()),
                    None => frame_line(line.as_str(), None, self.subject()),
                }
            },
            PiInput::ReadFailed(e) => Frame::Fail(
                EngineError::Framing("failed reading pi output: ".to_owned().concat(e.as_str())),
            ),
            PiInput::Closed => if flushing {
                Frame::Quiet
            } else {
                Frame::Fail(EngineError::PrematureExit(self.waiting().to_owned()))
            },
            PiInput::TimedOut => if flushing {
                Frame::Quiet
            } else {
                Frame::Fail(EngineError::Timeout(self.waiting().to_owned()))
            },
        }
    }

    /// Takes one message.
    pub fn on_message(self, raw: &Json) -> (r: (SessionState, bool, SessionAction))
        ensures
            (r.0@, r.1, r.2@) == after_message(self@, raw@),
    {
        let what = self.subject();
        match self {
            SessionState::Draining(t) => match read_message(raw, what) {
                Err(e) => (SessionState::Over, false, SessionAction::Fail(e)),
                Ok(PiEvent::AgentSettled) => (
                    SessionState::Flushing(t),
                    true,
                    SessionAction::Read,
                ),
                Ok(PiEvent::AutoRetryEnd { success, final_error }) => {
                    let reason = if success {
                        t
                    } else {
                        match final_error {
                            Some(e) => Some(e),
                            None => Some("pi exhausted its automatic retries".to_owned()),
                        }
                    };
                    (SessionState::Draining(reason), true, SessionAction::Read)
                },
                Ok(_) => (SessionState::Draining(t), true, SessionAction::Read),
            },
            SessionState::Flushing(t) => (SessionState::Flushing(t), true, SessionAction::Read),
            SessionState::AskedStats(t) => match read_message(raw, what) {
                Err(e) => (SessionState::Over, false, SessionAction::Fail(e)),
                Ok(e) => match wait_for_response(e, "stats-1", "get_session_stats") {
                    Reply::Other => (SessionState::AskedStats(t), false, SessionAction::Read),
                    Reply::Refused(e) => (SessionState::Over, false, SessionAction::Fail(e)),
                    Reply::Answer(stats) => (
                        SessionState::AskedText(t, stats),
                        false,
                        SessionAction::Send(rpc_request("get_last_assistant_text", "text-1")),
                    ),
                },
            },
            SessionState::AskedText(t, stats) => match read_message(raw, what) {
                Err(e) => (SessionState::Over, false, SessionAction::Fail(e)),
                Ok(e) => match wait_for_response(e, "text-1", "get_last_assistant_text") {
                    Reply::Other => (
                        SessionState::AskedText(t, stats),
                        false,
                        SessionAction::Read,
                    ),
                    Reply::Refused(e) => (SessionState::Over, false, SessionAction::Fail(e)),
                    Reply::Answer(text) => (
                        SessionState::Over,
                        false,
                        SessionAction::Finish { terminal_error: t, stats, text },
                    ),
                },
            },
            SessionState::Over => (SessionState::Over, false, SessionAction::Read),
        }
    }

    /// Takes note that the engine has gone quiet.
    pub fn on_quiet(self) -> (r: (SessionState, SessionAction))
        ensures
            (r.0@, r.1@) == after_quiet(self@),
    {
        match self {
            SessionState::Flushing(t) => (
                SessionState::AskedStats(t),
                SessionAction::Send(rpc_request("get_session_stats", "stats-1")),
            ),
            state => (state, SessionAction::Read),
        }
    }
}

// ---------------------------------------------------------------------------
// The outcome
// ---------------------------------------------------------------------------

pub open spec fn as_count(b: bool) -> int {
    if b {
        1
    } else {
        0
    }
}

/// How many of the four sections of a report stand in a text.
pub open spec fn section_count(s: Seq<char>) -> int {
    as_count(text::has_text(s, "## Repro"@)) + as_count(text::has_text(s, "## Cause"@)) + as_count(
        text::has_text(s, "## Fix"@),
    ) + as_count(text::has_text(s, "## Verification"@))
}

/// The number of sections of a report that stand in a text.
pub fn count_sections(s: &str) -> (r: usize)
    ensures
        r == section_count(s@),
{
    let mut n: usize = 0;
    if text::contains(s, "## Repro") {
        n += 1;
    }
    if text::contains(s, "## Cause") {
        n += 1;
    }
    if text::contains(s, "## Fix") {
        n += 1;
    }
    if text::contains(s, "## Verification") {
        n += 1;
    }
    n
}

/// Whether a text reads like the body of a pull request: at least two of the
/// sections of a report stand in it.
pub fn looks_like_pr_body(s: &str) -> (r: bool)
    ensures
        r == (section_count(s@) >= 2),
{
    count_sections(s) >= 2
}

/// The outcome of a session. A run that has failed in the end hands on the
/// reason, and neither a report nor a comment, so that half an answer is not
/// taken for a whole one.
pub open spec fn outcome_of(
    session_dir: Seq<char>,
    branch: Seq<char>,
    raw_events: Seq<json::Tree>,
    stats: pi_protocol::PiResponseModel,
    answer: pi_protocol::PiResponseModel,
    terminal_error: Option<Seq<char>>,
) -> Result<adapters::OutcomeModel, adapters::EngineErrorModel> {
    match answer.data.text_at("text"@) {
        None => Err(adapters::EngineErrorModel::Framing("pi text response missing data.text"@)),
        Some(last) => {
            let report = terminal_error is None && section_count(last) >= 2;
            Ok(
                adapters::OutcomeModel {
                    session_dir,
                    status: if terminal_error is Some {
                        OutcomeStatus::Error
                    } else {
                        OutcomeStatus::Success
                    },
                    summary: match terminal_error {
                        Some(reason) => reason,
                        None => last,
                    },
                    pr_body: if report {
                        last
                    } else {
                        Seq::empty()
                    },
                    comment: if terminal_error is None && !report {
                        last
                    } else {
                        Seq::empty()
                    },
                    branch,
                    artifact_paths: match stats.data.text_at("sessionFile"@) {
                        Some(file) => seq![file],
                        None => Seq::empty(),
                    },
                    raw_events,
                },
            )
        },
    }
}

/// Builds the outcome of a session.
pub fn build_outcome(
    session_dir: &str,
    branch: String,
    raw_events: Vec<Json>,
    stats: &PiResponse,
    answer: &PiResponse,
    terminal_error: Option<&str>,
) -> (r: Result<Outcome, EngineError>)
    ensures
        outcome_of(
            session_dir@,
            branch@,
            json::trees(raw_events@),
            stats@,
            answer@,
            json::text_of(terminal_error),
        ) == match r {
            Ok(o) => Ok(o@),
            Err(e) => Err(e@),
        },
{
    let last = match answer.data.text_at("text") {
        Some(last) => last,
        None => return Err(
            EngineError::Framing("pi text response missing data.text".to_owned()),
        ),
    };
    let mut artifact_paths: Vec<String> = Vec::new();
    assert(text::texts(artifact_paths@) =~= Seq::<Seq<char>>::empty());
    if let Some(file) = stats.data.text_at("sessionFile") {
        push_text(&mut artifact_paths, file);
        assert(text::texts(artifact_paths@) =~= seq![file@]);
    }
    let report = looks_like_pr_body(last);
    let (status, summary, pr_body, comment) = match terminal_error {
        Some(reason) => (
            OutcomeStatus::Error,
            reason.to_owned(),
            String::new(),
            String::new(),
        ),
        None => if report {
            (OutcomeStatus::Success, last.to_owned(), last.to_owned(), String::new())
        } else {
            (OutcomeStatus::Success, last.to_owned(), String::new(), last.to_owned())
        },
    };
    Ok(
        Outcome {
            session_dir: session_dir.to_owned(),
            status,
            summary,
            pr_body,
            comment,
            branch,
            artifact_paths,
            raw_events,
        },
    )
}

/// The arguments with which git names the branch of a checkout.
pub fn branch_arguments(worktree: &str) -> (r: Vec<String>)
    ensures
        text::texts(r@) == seq!["-C"@, worktree@, "rev-parse"@, "--abbrev-ref"@, "HEAD"@],
{
    let r = vec![
        "-C".to_owned(),
        worktree.to_owned(),
        "rev-parse".to_owned(),
        "--abbrev-ref".to_owned(),
        "HEAD".to_owned(),
    ];
    assert(text::texts(r@) =~= seq![
        "-C"@,
        worktree@,
        "rev-parse"@,
        "--abbrev-ref"@,
        "HEAD"@,
    ]);
    r
}

/// What a run of git wrote, without white space at its ends; nothing where it
/// failed.
pub open spec fn git_answer(run: GitRun) -> Seq<char> {
    match run {
        GitRun::Ended { success: true, stdout, .. } => text::trimmed(stdout@),
        _ => Seq::empty(),
    }
}

/// The branch of a checkout, from the answer of git; empty where git failed.
pub fn read_branch(run: &GitRun) -> (r: String)
    ensures
        r@ == git_answer(*run),
{
    match run {
        GitRun::Ended { success, stdout, .. } => if *success {
            text::trim(stdout.as_str()).to_owned()
        } else {
            String::new()
        },
        GitRun::NotStarted(_) => String::new(),
    }
}

// ---------------------------------------------------------------------------
// Session files
// ---------------------------------------------------------------------------

/// The name of a session file: it has the extension `jsonl`.
pub open spec fn is_session_name(name: Seq<char>) -> bool {
    text::ends_in(name, ".jsonl"@) && name.len() > ".jsonl"@.len()
}

/// The last of the session files, in the order of their names.
pub open spec fn latest_name(names: Seq<Seq<char>>) -> Option<Seq<char>>
    decreases names.len(),
{
    if names.len() == 0 {
        None
    } else {
        let name = names.last();
        match latest_name(names.drop_last()) {
            Some(best) => if is_session_name(name) && text::sorts_before(best, name) {
                Some(name)
            } else {
                Some(best)
            },
            None => if is_session_name(name) {
                Some(name)
            } else {
                None
            },
        }
    }
}

/// Finds the last session file among the names of the files of a directory.
pub fn find_session_file(session_dir: &str, names: &Vec<String>) -> (r: Option<String>)
    ensures
        foreign::opt_view(r) == match latest_name(text::texts(names@)) {
            Some(name) => Some(text::joined(session_dir@, name)),
            None => None,
        },
{
    let ghost all = text::texts(names@);
    let mut best: Option<String> = None;
    let mut i: usize = 0;
    while i < names.len()
        invariant
            i <= names.len(),
            all == text::texts(names@),
            foreign::opt_view(best) == latest_name(all.take(i as int)),
        decreases names.len() - i,
    {
        proof {
            assert(all.take(i + 1).drop_last() == all.take(i as int));
            assert(all.take(i + 1).last() == names@[i as int]@);
            reveal_strlit(".jsonl");
        }
        let name = names[i].as_str();
        if text::ends_with(name, ".jsonl") && !text::same_text(name, ".jsonl") {
            proof {
                assert(name@.len() > 6) by {
                    if name@.len() == 6 {
                        assert(name@.subrange(0, 6) =~= name@);
                    }
                }
            }
            let better = match &best {
                Some(b) => text::is_before(b.as_str(), name),
                None => true,
            };
            if better {
                best = Some(name.to_owned());
            }
        } else {
            proof {
                if text::ends_in(name@, ".jsonl"@) {
                    assert(name@.len() == 6);
                }
            }
        }
        i += 1;
    }
    assert(all.take(all.len() as int) == all);
    match best {
        Some(name) => Some(text::join_path(session_dir, name.as_str())),
        None => None,
    }
}

/// The file that is found is a session file of the directory, and none comes
/// after it; one is found where there is one.
pub proof fn law_latest_name(names: Seq<Seq<char>>)
    ensures
        match latest_name(names) {
            Some(best) => {
                &&& names.contains(best)
                &&& is_session_name(best)
                &&& forall|i: int|
                    0 <= i < names.len() && is_session_name(#[trigger] names[i])
                        ==> !text::sorts_before(best, names[i])
            },
            None => forall|i: int| 0 <= i < names.len() ==> !is_session_name(#[trigger] names[i]),
        },
    decreases names.len(),
{
    if names.len() > 0 {
        let rest = names.drop_last();
        let name = names.last();
        law_latest_name(rest);
        assert forall|i: int| 0 <= i < names.len() - 1 implies names[i] == #[trigger] rest[i] by {}
        if latest_name(rest) is Some {
            let old_best = latest_name(rest)->0;
            let k = choose|k: int| 0 <= k < rest.len() && rest[k] == old_best;
            assert(names[k] == old_best);
            let best = latest_name(names)->0;
            text::law_order_is_total(best, name);
            assert forall|i: int|
                0 <= i < names.len() && is_session_name(
                    #[trigger] names[i],
                ) implies !text::sorts_before(best, names[i]) by {
                if i < rest.len() {
                    assert(names[i] == rest[i]);
                    if best != old_best && text::sorts_before(best, names[i]) {
                        text::law_order_is_transitive(old_best, best, names[i]);
                    }
                }
            }
        } else {
            text::law_order_is_total(name, name);
            assert forall|i: int|
                0 <= i < names.len() - 1 implies !is_session_name(#[trigger] names[i]) by {
                assert(names[i] == rest[i]);
            }
        }
    }
}

/// How much of a session file can be trusted. The engine may be stopped in the
/// middle of a line, so that a last line that is cut off is to be expected.
#[derive(Debug, Clone, PartialEq, Eq)]
pub enum TranscriptHealth {
    Complete,
    /// The last record was cut off; all before it is sound.
    TruncatedTail,
    /// A record before the last cannot be read; the first such one is named.
    Malformed { line_number: usize, reason: String },
}

/// What the health of a session file stands for.
pub enum HealthModel {
    Complete,
    TruncatedTail,
    Malformed { line_number: int, reason: Seq<char> },
}

impl View for TranscriptHealth {
    type V = HealthModel;

    open spec fn view(&self) -> HealthModel {
        match self {
            TranscriptHealth::Complete => HealthModel::Complete,
            TranscriptHealth::TruncatedTail => HealthModel::TruncatedTail,
            TranscriptHealth::Malformed { line_number, reason } => HealthModel::Malformed {
                line_number: *line_number as int,
                reason: reason@,
            },
        }
    }
}

impl TranscriptHealth {
    fn is_malformed(&self) -> (r: bool)
        ensures
            r == (self@ is Malformed),
    {
        match self {
            TranscriptHealth::Malformed { .. } => true,
            _ => false,
        }
    }
}

/// A line that is not blank and cannot be read.
pub open spec fn bad_line(line: Seq<char>, error: Option<Seq<char>>) -> bool {
    text::trimmed(line).len() > 0 && error is Some
}

/// The records among some lines, `errors` saying what is wrong with each line:
/// those that are not blank and can be read, without white space at the ends.
pub open spec fn records_in(lines: Seq<Seq<char>>, errors: Seq<Option<Seq<char>>>) -> Seq<
    Seq<char>,
>
    decreases lines.len(),
{
    if lines.len() == 0 {
        Seq::empty()
    } else {
        let before = records_in(lines.drop_last(), errors);
        let line = lines.last();
        if text::trimmed(line).len() > 0 && errors[lines.len() - 1] is None {
            before.push(text::trimmed(line))
        } else {
            before
        }
    }
}

/// The health of the first `n` of some lines.
pub open spec fn health_up_to(
    lines: Seq<Seq<char>>,
    errors: Seq<Option<Seq<char>>>,
    n: int,
) -> HealthModel
    decreases n,
{
    if n <= 0 {
        HealthModel::Complete
    } else {
        let before = health_up_to(lines, errors, n - 1);
        if before is Malformed || !bad_line(lines[n - 1], errors[n - 1]) {
            before
        } else if n == lines.len() {
            HealthModel::TruncatedTail
        } else {
            HealthModel::Malformed { line_number: n, reason: errors[n - 1]->0 }
        }
    }
}

pub open spec fn errors_view(errors: Seq<Option<String>>) -> Seq<Option<Seq<char>>> {
    errors.map_values(|e: Option<String>| foreign::opt_view(e))
}

/// Reads the lines of a session file, `errors` saying what is wrong with each
/// of them as a JSON value.
pub fn read_records(lines: &Vec<String>, errors: &Vec<Option<String>>) -> (r: (
    Vec<JsonText>,
    TranscriptHealth,
))
    requires
        lines@.len() == errors@.len(),
    ensures
        json::unread(r.0@) == records_in(text::texts(lines@), errors_view(errors@)),
        r.1@ == health_up_to(
            text::texts(lines@),
            errors_view(errors@),
            lines@.len() as int,
        ),
{
    let ghost all = text::texts(lines@);
    let ghost errs = errors_view(errors@);
    let mut entries: Vec<JsonText> = Vec::new();
    let mut health = TranscriptHealth::Complete;
    let mut i: usize = 0;
    assert(json::unread(entries@) =~= records_in(all.take(0), errs));
    while i < lines.len()
        invariant
            i <= lines.len(),
            lines@.len() == errors@.len(),
            all == text::texts(lines@),
            errs == errors_view(errors@),
            json::unread(entries@) == records_in(all.take(i as int), errs),
            health@ == health_up_to(all, errs, i as int),
        decreases lines.len() - i,
    {
        proof {
            assert(all.take(i + 1).drop_last() == all.take(i as int));
            assert(all.take(i + 1).last() == lines@[i as int]@);
            assert(all[i as int] == lines@[i as int]@);
            assert(errs[i as int] == foreign::opt_view(errors@[i as int]));
        }
        let trimmed = text::trim(lines[i].as_str());
        if !trimmed.is_empty() {
            match &errors[i] {
                None => {
                    let ghost before = json::unread(entries@);
                    entries.push(JsonText { text: trimmed.to_owned() });
                    assert(json::unread(entries@) =~= before.push(trimmed@));
                },
                Some(e) => {
                    if !health.is_malformed() {
                        if i == lines.len() - 1 {
                            health = TranscriptHealth::TruncatedTail;
                        } else {
                            health = TranscriptHealth::Malformed {
                                line_number: i + 1,
                                reason: e.clone(),
                            };
                        }
                    }
                },
            }
        }
        i += 1;
    }
    assert(all.take(all.len() as int) == all);
    (entries, health)
}

/// What is wrong with each of some lines as a JSON value.
pub open spec fn line_errors(lines: Seq<Seq<char>>) -> Seq<Option<Seq<char>>> {
    lines.map_values(|line: Seq<char>| foreign::json_error_of(text::trimmed(line)))
}

/// Reads a session file: the records that can be read, as they are written,
/// and how much of the file can be trusted. A file that cannot be read is no
/// fault, since the engine may never have written one.
pub fn parse_transcript(content: Option<&str>) -> (r: (Vec<JsonText>, TranscriptHealth))
    ensures
        match content {
            None => json::unread(r.0@) == Seq::<Seq<char>>::empty() && r.1@
                == HealthModel::Complete,
            Some(c) => {
                let lines = text::lines_of(c@);
                &&& json::unread(r.0@) == records_in(lines, line_errors(lines))
                &&& r.1@ == health_up_to(lines, line_errors(lines), lines.len() as int)
            },
        },
{
    let content = match content {
        Some(c) => c,
        None => {
            let none: Vec<JsonText> = Vec::new();
            assert(json::unread(none@) =~= Seq::<Seq<char>>::empty());
            return (none, TranscriptHealth::Complete);
        },
    };
    let lines = text::lines(content);
    let ghost all = text::texts(lines@);
    let mut errors: Vec<Option<String>> = Vec::new();
    let mut i: usize = 0;
    while i < lines.len()
        invariant
            i <= lines.len(),
            errors@.len() == i,
            all == text::texts(lines@),
            forall|k: int|
                0 <= k < i ==> foreign::opt_view(#[trigger] errors@[k]) == line_errors(all)[k],
        decreases lines.len() - i,
    {
        assert(all[i as int] == lines@[i as int]@);
        errors.push(foreign::json_error(text::trim(lines[i].as_str())));
        i += 1;
    }
    assert(errors_view(errors@) =~= line_errors(all));
    read_records(&lines, &errors)
}

/// The health of a session file as it is written in records.
pub open spec fn health_tree(health: HealthModel) -> json::Tree {
    match health {
        HealthModel::Complete => json::Tree::Object(
            seq![("state"@, json::Tree::Text("complete"@))],
        ),
        HealthModel::TruncatedTail => json::Tree::Object(
            seq![("state"@, json::Tree::Text("truncated_tail"@))],
        ),
        HealthModel::Malformed { line_number, reason } => json::Tree::Object(
            seq![
                ("state"@, json::Tree::Text("malformed"@)),
                ("line_number"@, json::number(line_number)),
                ("reason"@, json::Tree::Text(reason)),
            ],
        ),
    }
}

fn health_json(health: &TranscriptHealth) -> (r: Json)
    ensures
        r@ == health_tree(health@),
{
    let members = match health {
        TranscriptHealth::Complete => vec![Json::text_member("state", "complete")],
        TranscriptHealth::TruncatedTail => vec![Json::text_member("state", "truncated_tail")],
        TranscriptHealth::Malformed { line_number, reason } => vec![
            Json::text_member("state", "malformed"),
            ("line_number".to_owned(), Json::unsigned(*line_number as u64)),
            Json::text_member("reason", reason.as_str()),
        ],
    };
    assert(json::members_of(members@) =~= health_tree(health@)->Object_0);
    Json::object(members)
}

/// What is known of a session: its file, the records in it, and how much of
/// the file can be trusted; nothing where there is no file.
pub open spec fn artifacts(
    path: Seq<char>,
    records: Seq<Seq<char>>,
    health: HealthModel,
) -> json::DocModel {
    json::DocModel::Members(
        seq![
            ("session_file"@, json::PartModel::Value(json::Tree::Text(path))),
            ("messages"@, json::PartModel::Listed(records)),
            ("health"@, json::PartModel::Value(health_tree(health))),
        ],
    )
}

impl PiAdapter {
    /// What is known of a session, from its file and what the file holds.
    pub fn session_artifacts(&self, session_file: Option<&str>, content: Option<&str>) -> (r: Doc)
        ensures
            match session_file {
                None => r@ == json::document(json::Tree::Object(Seq::empty())),
                Some(path) => match content {
                    None => r@ == artifacts(path@, Seq::empty(), HealthModel::Complete),
                    Some(c) => {
                        let lines = text::lines_of(c@);
                        let errors = line_errors(lines);
                        r@ == artifacts(
                            path@,
                            records_in(lines, errors),
                            health_up_to(lines, errors, lines.len() as int),
                        )
                    },
                },
            },
    {
        let path = match session_file {
            Some(path) => path,
            None => {
                let none: Vec<(String, Json)> = Vec::new();
                assert(json::members_of(none@) =~= Seq::<(Seq<char>, json::Tree)>::empty());
                return Doc::value(Json::object(none));
            },
        };
        let (records, health) = parse_transcript(content);
        let ghost found = json::unread(records@);
        let members = vec![
            ("session_file".to_owned(), Part::Value(Json::text(path))),
            ("messages".to_owned(), Part::Listed(records)),
            ("health".to_owned(), Part::Value(health_json(&health))),
        ];
        assert(json::parts_of(members@) =~= artifacts(path@, found, health@)->Members_0);
        Doc::Members(members)
    }
}

// ---------------------------------------------------------------------------
// Laws
// ---------------------------------------------------------------------------

/// Where a session stands after some messages.
pub open spec fn after_messages(state: StateModel, raws: Seq<json::Tree>) -> StateModel
    decreases raws.len(),
{
    if raws.len() == 0 {
        state
    } else {
        after_message(after_messages(state, raws.drop_last()), raws.last()).0
    }
}

/// The message says that the run has settled.
pub open spec fn settles(raw: json::Tree) -> bool {
    message_in(raw, "event"@) matches Ok(pi_protocol::PiEventModel::AgentSettled)
}

/// Only the message that says so ends the wait for the run to settle; a
/// session that has not seen it goes on waiting, or has failed.
pub proof fn law_only_settling_ends_the_run(reason: Option<Seq<char>>, raws: Seq<json::Tree>)
    requires
        forall|i: int| 0 <= i < raws.len() ==> !settles(#[trigger] raws[i]),
    ensures
        after_messages(StateModel::Draining(reason), raws) is Draining || after_messages(
            StateModel::Draining(reason),
            raws,
        ) is Over,
    decreases raws.len(),
{
    if raws.len() > 0 {
        let rest = raws.drop_last();
        assert forall|i: int| 0 <= i < rest.len() implies !settles(#[trigger] rest[i]) by {
            assert(rest[i] == raws[i]);
        }
        law_only_settling_ends_the_run(reason, rest);
        assert(!settles(raws.last()));
    }
}

/// A message of a kind that is not known, or one that cannot be read and is
/// not an answer, is kept and changes nothing.
pub proof fn law_unknown_messages_do_no_harm(reason: Option<Seq<char>>, raw: json::Tree)
    requires
        pi_protocol::event_in(raw) is Err ==> raw.text_at("type"@) != Some("response"@),
        pi_protocol::event_in(raw) matches Ok(e) ==> e is Unknown,
    ensures
        after_message(StateModel::Draining(reason), raw) == (
            StateModel::Draining(reason),
            true,
            ActionModel::Read,
        ),
{
}

/// The answers are asked for only once the run has settled and the engine has
/// gone quiet, and the session ends well only with both answers.
pub proof fn law_answers_come_after_settling(state: StateModel, raw: json::Tree)
    ensures
        after_message(state, raw).2 is Finish ==> state is AskedText,
        after_message(state, raw).0 is AskedText && !(state is AskedText) ==> state is AskedStats,
        after_message(state, raw).0 is AskedStats ==> state is AskedStats,
        after_quiet(state).0 is AskedStats && !(state is AskedStats) ==> state is Flushing,
        after_message(state, raw).0 is Flushing && !(state is Flushing) ==> state is Draining
            && settles(raw),
{
}

/// A refusal without an id is taken for the answer to the request that is
/// open; its reason is handed on.
pub proof fn law_refusal_without_id_is_ours(
    response: pi_protocol::PiResponseModel,
    id: Seq<char>,
    command: Seq<char>,
    reason: Seq<char>,
)
    requires
        !response.success,
        response.id is None || response.id == Some(id),
        response.error == Some(reason),
    ensures
        reply_to(pi_protocol::PiEventModel::Response(response), id, command) == ReplyModel::Refused(
            adapters::EngineErrorModel::EngineRejected { command, error: reason },
        ),
{
}

/// A run whose retries are used up is reported as failed, with the reason in
/// place of what the engine had said so far.
pub proof fn law_exhausted_retries_fail_the_run(
    session_dir: Seq<char>,
    branch: Seq<char>,
    raw_events: Seq<json::Tree>,
    stats: pi_protocol::PiResponseModel,
    answer: pi_protocol::PiResponseModel,
    reason: Seq<char>,
)
    requires
        answer.data.text_at("text"@) is Some,
    ensures
        outcome_of(session_dir, branch, raw_events, stats, answer, Some(reason)) matches Ok(o) && {
            &&& o.status == OutcomeStatus::Error
            &&& o.summary == reason
            &&& o.pr_body.len() == 0
            &&& o.comment.len() == 0
        },
{
}

/// A session file is complete where every line can be read; it lacks its tail
/// where the last line alone cannot; else the first line that cannot be read is
/// named.
pub proof fn law_health_tells_the_first_fault(
    lines: Seq<Seq<char>>,
    errors: Seq<Option<Seq<char>>>,
    n: int,
)
    requires
        0 <= n <= lines.len(),
        lines.len() == errors.len(),
    ensures
        match health_up_to(lines, errors, n) {
            HealthModel::Complete => forall|i: int|
                0 <= i < n ==> !#[trigger] bad_line(lines[i], errors[i]),
            HealthModel::TruncatedTail => {
                &&& n == lines.len()
                &&& n > 0
                &&& bad_line(lines[n - 1], errors[n - 1])
                &&& forall|i: int| 0 <= i < n - 1 ==> !#[trigger] bad_line(lines[i], errors[i])
            },
            HealthModel::Malformed { line_number, reason } => {
                &&& 1 <= line_number <= n
                &&& line_number < lines.len()
                &&& bad_line(lines[line_number - 1], errors[line_number - 1])
                &&& errors[line_number - 1] == Some(reason)
                &&& forall|i: int|
                    0 <= i < line_number - 1 ==> !#[trigger] bad_line(lines[i], errors[i])
            },
        },
    decreases n,
{
    if n > 0 {
        law_health_tells_the_first_fault(lines, errors, n - 1);
    }
}

/// The message says that the engine gave up its retries.
pub open spec fn gives_up(raw: json::Tree) -> bool {
    raw.text_at("type"@) == Some("auto_retry_end"@) && raw.get("success"@) == Some(
        json::Tree::Bool(false),
    )
}

proof fn lemma_malformed(why: Seq<char>)
    ensures
        malformed("event"@, why) == adapters::EngineErrorModel::Framing("malformed pi event: "@ + why),
        malformed("response"@, why) == adapters::EngineErrorModel::Framing(
            "malformed pi response: "@ + why,
        ),
{
    reveal_strlit("malformed pi ");
    reveal_strlit("event");
    reveal_strlit("response");
    reveal_strlit(": ");
    reveal_strlit("malformed pi event: ");
    reveal_strlit("malformed pi response: ");
    assert("malformed pi "@ + "event"@ + ": "@ =~= "malformed pi event: "@);
    assert("malformed pi "@ + "response"@ + ": "@ =~= "malformed pi response: "@);
}

/// While a run goes on, only the end of its retries without success changes the
/// reason for which it fails, only the message that says so settles it, and only
/// an answer that cannot be read ends it. Every message but that one is kept.
pub proof fn law_reason_to_fail(reason: Option<Seq<char>>, raw: json::Tree)
    ensures
        ({
            let (state, kept, action) = after_message(StateModel::Draining(reason), raw);
            let settled = raw.text_at("type"@) == Some("agent_settled"@);
            let unreadable = raw.text_at("type"@) == Some("response"@)
                && !pi_protocol::is_sound_response(raw);
            let plain = raw.get("finalError"@) is None || raw.get("finalError"@)->0 is Null;
            &&& settled ==> state == StateModel::Flushing(reason)
            &&& unreadable ==> state is Over && !kept && action == ActionModel::Fail(
                adapters::EngineErrorModel::Framing(
                    "malformed pi event: "@ + pi_protocol::event_in(raw)->Err_0,
                ),
            )
            &&& !unreadable ==> kept && action is Read
            &&& !settled && !unreadable && !gives_up(raw) ==> state == StateModel::Draining(reason)
            &&& gives_up(raw) && raw.text_at("finalError"@) is Some ==> state
                == StateModel::Draining(raw.text_at("finalError"@))
            &&& gives_up(raw) && plain ==> state == StateModel::Draining(
                Some("pi exhausted its automatic retries"@),
            )
        }),
{
    pi_protocol::law_messages_by_type(raw);
    lemma_malformed(pi_protocol::event_in(raw)->Err_0);
    reveal_strlit("agent_settled");
    reveal_strlit("auto_retry_end");
    reveal_strlit("response");
    reveal_strlit("agent_end");
    assert("agent_settled"@.len() == 13 && "auto_retry_end"@.len() == 14 && "response"@.len() == 8
        && "agent_end"@.len() == 9);
    if gives_up(raw) {
        assert(pi_protocol::event_in(raw) == pi_protocol::tagged_event("auto_retry_end"@, raw));
    }
}

proof fn lemma_flushing_stays(reason: Option<Seq<char>>, raws: Seq<json::Tree>)
    ensures
        after_messages(StateModel::Flushing(reason), raws) == StateModel::Flushing(reason),
    decreases raws.len(),
{
    if raws.len() > 0 {
        lemma_flushing_stays(reason, raws.drop_last());
    }
}

/// A run during which the engine does not give up its retries, and all of whose
/// answers can be read, keeps the reason that it began with, and settles with the
/// message that says so, whatever else the engine tells before and behind it.
pub proof fn law_ordinary_run_settles(reason: Option<Seq<char>>, raws: Seq<json::Tree>, k: int)
    requires
        forall|i: int| 0 <= i < raws.len() && i < k ==> !gives_up(#[trigger] raws[i]),
        forall|i: int|
            0 <= i < raws.len() && i < k ==> (#[trigger] raws[i]).text_at("type"@) != Some(
                "response"@,
            ) || pi_protocol::is_sound_response(raws[i]),
        forall|i: int|
            0 <= i < raws.len() && i < k ==> (#[trigger] raws[i]).text_at("type"@) != Some(
                "agent_settled"@,
            ),
        0 <= k < raws.len() ==> raws[k].text_at("type"@) == Some("agent_settled"@),
    ensures
        0 <= k < raws.len() ==> after_messages(StateModel::Draining(reason), raws)
            == StateModel::Flushing(reason),
        k >= raws.len() ==> after_messages(StateModel::Draining(reason), raws)
            == StateModel::Draining(reason),
    decreases raws.len(),
{
    if raws.len() > 0 && k >= 0 {
        let rest = raws.drop_last();
        assert forall|i: int| 0 <= i < rest.len() implies #[trigger] rest[i] == raws[i] by {}
        law_ordinary_run_settles(reason, rest, k);
        law_reason_to_fail(reason, raws.last());
        if k == raws.len() - 1 {
            assert(raws.last() == raws[k]);
        }
    }
}

/// Once the run has settled, every message is kept and nothing else is done,
/// until the engine has gone quiet: then its statistics are asked for.
pub proof fn law_silence_after_settling(reason: Option<Seq<char>>, raw: json::Tree, state: StateModel)
    ensures
        after_message(StateModel::Flushing(reason), raw) == (
            StateModel::Flushing(reason),
            true,
            ActionModel::Read,
        ),
        after_quiet(StateModel::Flushing(reason)).0 == StateModel::AskedStats(reason),
        after_quiet(StateModel::Flushing(reason)).1 is Send,
        after_quiet(StateModel::Flushing(reason)).1->Send_0.text_at("type"@) == Some(
            "get_session_stats"@,
        ),
        after_quiet(StateModel::Flushing(reason)).1->Send_0.text_at("id"@) == Some("stats-1"@),
        !(state is Flushing) ==> after_quiet(state) == (state, ActionModel::Read),
        after_message(StateModel::Over, raw) == (StateModel::Over, false, ActionModel::Read),
{
    law_requests("get_session_stats"@, "stats-1"@, Seq::empty());
}

/// Each request says what is asked for, and carries what the engine needs to
/// answer it.
pub proof fn law_requests(request_type: Seq<char>, id: Seq<char>, given: Seq<char>)
    ensures
        rpc_request_tree(request_type, id).text_at("type"@) == Some(request_type),
        rpc_request_tree(request_type, id).text_at("id"@) == Some(id),
        prompt_request(given).text_at("type"@) == Some("prompt"@),
        prompt_request(given).text_at("message"@) == Some(given),
        prompt_request(given).text_at("id"@) == Some("monkey-1"@),
        switch_request(given).text_at("type"@) == Some("switch_session"@),
        switch_request(given).text_at("sessionPath"@) == Some(given),
{
    reveal_strlit("type");
    reveal_strlit("id");
    reveal_strlit("message");
    reveal_strlit("sessionPath");
    assert("type"@.len() == 4 && "id"@.len() == 2 && "message"@.len() == 7 && "sessionPath"@.len()
        == 11);
    reveal_with_fuel(json::member, 4);
}

/// An answer is the one that is waited for where it carries the id of the
/// request, or where it is a refusal without an id. A success goes on, a refusal
/// ends the session with its reason, and any other message is passed over.
pub proof fn law_answers(
    reason: Option<Seq<char>>,
    stats: pi_protocol::PiResponseModel,
    raw: json::Tree,
)
    ensures
        ({
            let asked = after_message(StateModel::AskedStats(reason), raw);
            let told = after_message(StateModel::AskedText(reason, stats), raw);
            let is_answer = raw.text_at("type"@) == Some("response"@);
            let sound = pi_protocol::is_sound_response(raw);
            let success = raw.get("success"@) == Some(json::Tree::Bool(true));
            let data = match raw.get("data"@) {
                Some(d) => d,
                None => json::Tree::Null,
            };
            let why = match raw.text_at("error"@) {
                Some(e) => e,
                None => "pi reported no reason"@,
            };
            let nameless = raw.text_at("id"@) is None;
            let of_stats = raw.text_at("id"@) == Some("stats-1"@) || nameless && !success;
            let of_text = raw.text_at("id"@) == Some("text-1"@) || nameless && !success;
            &&& !is_answer || sound && !of_stats ==> asked == (
                StateModel::AskedStats(reason),
                false,
                ActionModel::Read,
            )
            &&& !is_answer || sound && !of_text ==> told == (
                StateModel::AskedText(reason, stats),
                false,
                ActionModel::Read,
            )
            &&& is_answer && !sound ==> asked == told && asked == (
                StateModel::Over,
                false,
                ActionModel::Fail(
                    adapters::EngineErrorModel::Framing(
                        "malformed pi response: "@ + pi_protocol::event_in(raw)->Err_0,
                    ),
                ),
            )
            &&& sound && of_stats && success ==> {
                &&& asked.0 is AskedText
                &&& asked.0->AskedText_0 == reason
                &&& asked.0->AskedText_1.data == data
                &&& !asked.1
                &&& asked.2 is Send
                &&& asked.2->Send_0.text_at("type"@) == Some("get_last_assistant_text"@)
                &&& asked.2->Send_0.text_at("id"@) == Some("text-1"@)
            }
            &&& sound && of_text && success ==> {
                &&& told.0 is Over
                &&& !told.1
                &&& told.2 is Finish
                &&& told.2->terminal_error == reason
                &&& told.2->stats == stats
                &&& told.2->Finish_text.data == data
            }
            &&& sound && of_stats && !success ==> asked == (
                StateModel::Over,
                false,
                ActionModel::Fail(
                    adapters::EngineErrorModel::EngineRejected {
                        command: "get_session_stats"@,
                        error: why,
                    },
                ),
            )
            &&& sound && of_text && !success ==> told == (
                StateModel::Over,
                false,
                ActionModel::Fail(
                    adapters::EngineErrorModel::EngineRejected {
                        command: "get_last_assistant_text"@,
                        error: why,
                    },
                ),
            )
        }),
{
    pi_protocol::law_messages_by_type(raw);
    law_requests("get_last_assistant_text"@, "text-1"@, Seq::empty());
    lemma_malformed(pi_protocol::event_in(raw)->Err_0);
    reveal_strlit("agent_settled");
    reveal_strlit("agent_end");
    reveal_strlit("auto_retry_end");
    reveal_strlit("response");
    assert("agent_settled"@.len() == 13 && "auto_retry_end"@.len() == 14 && "response"@.len() == 8
        && "agent_end"@.len() == 9);
}

/// What is made of a session that went well: its last text is the summary, and
/// is the report where at least two sections of one stand in it, and the comment
/// otherwise.
pub proof fn law_outcome_of_a_good_run(
    session_dir: Seq<char>,
    branch: Seq<char>,
    raw_events: Seq<json::Tree>,
    stats: pi_protocol::PiResponseModel,
    answer: pi_protocol::PiResponseModel,
    last: Seq<char>,
)
    requires
        answer.data.text_at("text"@) == Some(last),
    ensures
        ({
            let r = outcome_of(session_dir, branch, raw_events, stats, answer, None);
            let a = text::has_text(last, "## Repro"@);
            let b = text::has_text(last, "## Cause"@);
            let c = text::has_text(last, "## Fix"@);
            let d = text::has_text(last, "## Verification"@);
            let report = a && b || a && c || a && d || b && c || b && d || c && d;
            &&& r is Ok
            &&& r->Ok_0.status == OutcomeStatus::Success
            &&& r->Ok_0.summary == last
            &&& report ==> r->Ok_0.pr_body == last && r->Ok_0.comment.len() == 0
            &&& !report ==> r->Ok_0.comment == last && r->Ok_0.pr_body.len() == 0
        }),
{
}

/// Whatever became of a run, its outcome names the session, the branch and the
/// session file, and holds the events; without a last text there is none.
pub proof fn law_outcome_names_the_session(
    session_dir: Seq<char>,
    branch: Seq<char>,
    raw_events: Seq<json::Tree>,
    stats: pi_protocol::PiResponseModel,
    answer: pi_protocol::PiResponseModel,
    reason: Option<Seq<char>>,
)
    ensures
        ({
            let r = outcome_of(session_dir, branch, raw_events, stats, answer, reason);
            &&& r is Ok <==> answer.data.text_at("text"@) is Some
            &&& r matches Err(e) ==> e == adapters::EngineErrorModel::Framing(
                "pi text response missing data.text"@,
            )
            &&& r matches Ok(o) ==> {
                &&& o.session_dir == session_dir
                &&& o.branch == branch
                &&& o.raw_events == raw_events
                &&& stats.data.text_at("sessionFile"@) is Some ==> o.artifact_paths == seq![
                    stats.data.text_at("sessionFile"@)->0,
                ]
                &&& stats.data.text_at("sessionFile"@) is None ==> o.artifact_paths.len() == 0
                &&& o.status == OutcomeStatus::Error <==> reason is Some
                &&& reason is Some ==> o.summary == reason->0 && o.pr_body.len() == 0
                    && o.comment.len() == 0
            }
        }),
{
}

/// A run from its start to its end: the messages of an ordinary run, silence, and
/// the two answers give an outcome without a failure.
pub proof fn law_ordinary_run_succeeds(
    raws: Seq<json::Tree>,
    stats_answer: json::Tree,
    text_answer: json::Tree,
    last: Seq<char>,
    session_dir: Seq<char>,
    branch: Seq<char>,
)
    requires
        raws.len() > 0,
        raws.last().text_at("type"@) == Some("agent_settled"@),
        forall|i: int| 0 <= i < raws.len() ==> !gives_up(#[trigger] raws[i]),
        forall|i: int|
            0 <= i < raws.len() ==> (#[trigger] raws[i]).text_at("type"@) != Some("response"@)
                || pi_protocol::is_sound_response(raws[i]),
        forall|i: int|
            0 <= i < raws.len() - 1 ==> (#[trigger] raws[i]).text_at("type"@) != Some(
                "agent_settled"@,
            ),
        pi_protocol::is_sound_response(stats_answer),
        stats_answer.text_at("id"@) == Some("stats-1"@),
        stats_answer.get("success"@) == Some(json::Tree::Bool(true)),
        pi_protocol::is_sound_response(text_answer),
        text_answer.text_at("id"@) == Some("text-1"@),
        text_answer.get("success"@) == Some(json::Tree::Bool(true)),
        text_answer.get("data"@) is Some,
        text_answer.get("data"@)->0.text_at("text"@) == Some(last),
    ensures
        ({
            let settled = after_messages(StateModel::Draining(None), raws);
            let quiet = after_quiet(settled).0;
            let answered = after_message(quiet, stats_answer).0;
            let end = after_message(answered, text_answer).2;
            &&& end is Finish
            &&& end->terminal_error is None
            &&& outcome_of(
                session_dir,
                branch,
                raws,
                end->stats,
                end->Finish_text,
                end->terminal_error,
            ) matches Ok(o) && o.status == OutcomeStatus::Success && o.summary == last && (
            o.comment == last || o.pr_body == last)
        }),
{
    law_ordinary_run_settles(None, raws, raws.len() - 1);
    let settled = after_messages(StateModel::Draining(None), raws);
    let quiet = after_quiet(settled).0;
    let answered = after_message(quiet, stats_answer).0;
    law_answers(None, answered->AskedText_1, stats_answer);
    law_answers(None, answered->AskedText_1, text_answer);
    let end = after_message(answered, text_answer).2;
    law_outcome_of_a_good_run(session_dir, branch, raws, end->stats, end->Finish_text, last);
}

/// What comes out of the engine: a blank line is passed over, a line with a JSON
/// value is that value, and anything else ends the session with what was waited
/// for, unless a settled run has merely gone quiet.
pub proof fn law_frames(state: StateModel, input: PiInput)
    ensures
        ({
            let r = frame_of(state, input);
            let answers = state is AskedStats || state is AskedText;
            let what = if answers {
                "response"@
            } else {
                "event"@
            };
            let awaited = match state {
                StateModel::AskedStats(_) => "response stats-1"@,
                StateModel::AskedText(_, _) => "response text-1"@,
                _ => "agent_settled"@,
            };
            &&& input matches PiInput::Line(s) ==> {
                let line = text::trimmed(s@);
                let fault = foreign::json_error_of(line);
                &&& line.len() == 0 ==> r is Skip
                &&& line.len() > 0 && fault is None ==> r == FrameModel::Value(line)
                &&& line.len() > 0 && fault is Some ==> r == FrameModel::Fail(
                    adapters::EngineErrorModel::Framing(
                        "malformed pi "@ + what + ": "@ + fault->0,
                    ),
                )
            }
            &&& input matches PiInput::ReadFailed(e) ==> r == FrameModel::Fail(
                adapters::EngineErrorModel::Framing("failed reading pi output: "@ + e@),
            )
            &&& (input is Closed || input is TimedOut) && state is Flushing ==> r is Quiet
            &&& input is Closed && !(state is Flushing) ==> r == FrameModel::Fail(
                adapters::EngineErrorModel::PrematureExit(awaited),
            )
            &&& input is TimedOut && !(state is Flushing) ==> r == FrameModel::Fail(
                adapters::EngineErrorModel::Timeout(awaited),
            )
        }),
{
}

/// A run is given its whole time until it settles, as far as milliseconds can be
/// counted; silence and answers have times of their own.
pub proof fn law_waits(
    reason: Option<Seq<char>>,
    stats: pi_protocol::PiResponseModel,
    run_seconds: int,
)
    requires
        0 <= run_seconds,
    ensures
        run_seconds * 1000 <= 18446744073709551615 ==> wait_in(
            StateModel::Draining(reason),
            run_seconds,
        ) == run_seconds * 1000,
        run_seconds * 1000 > 18446744073709551615 ==> wait_in(
            StateModel::Draining(reason),
            run_seconds,
        ) == 18446744073709551615,
        wait_in(StateModel::Flushing(reason), run_seconds) == 50,
        wait_in(StateModel::AskedStats(reason), run_seconds) == 10000,
        wait_in(StateModel::AskedText(reason, stats), run_seconds) == 10000,
{
}

/// The engine is started in the mode for a conversation, with its session, and
/// with a model and a provider where they are set.
pub proof fn law_arguments_of_the_engine(
    session_dir: Seq<char>,
    model: Seq<char>,
    provider: Seq<char>,
    thinking: Seq<char>,
)
    ensures
        ({
            let r = arguments(session_dir, model, provider, thinking);
            let head = seq!["--mode"@, "rpc"@, "--session-dir"@, session_dir, "--name"@, "monkey"@];
            let tail = seq!["--thinking"@, thinking];
            &&& model.len() > 0 && provider.len() > 0 ==> r == head + seq![
                "--model"@,
                model,
                "--provider"@,
                provider,
            ] + tail
            &&& model.len() > 0 && provider.len() == 0 ==> r == head + seq!["--model"@, model]
                + tail
            &&& model.len() == 0 && provider.len() > 0 ==> r == head + seq!["--provider"@, provider]
                + tail
            &&& model.len() == 0 && provider.len() == 0 ==> r == head + tail
        }),
{
    let r = arguments(session_dir, model, provider, thinking);
    let head = seq!["--mode"@, "rpc"@, "--session-dir"@, session_dir, "--name"@, "monkey"@];
    let tail = seq!["--thinking"@, thinking];
    if model.len() > 0 && provider.len() > 0 {
        assert(r =~= head + seq!["--model"@, model, "--provider"@, provider] + tail);
    } else if model.len() > 0 {
        assert(r =~= head + seq!["--model"@, model] + tail);
    } else if provider.len() > 0 {
        assert(r =~= head + seq!["--provider"@, provider] + tail);
    } else {
        assert(r =~= head + tail);
    }
}

/// The variables that the engine must not see are those whose names begin with
/// the words for the credentials and for the settings.
pub proof fn law_secret_variables(name: Seq<char>)
    ensures
        is_secret(name) <==> (exists|rest: Seq<char>| name == #[trigger] ("GITHUB_"@ + rest)) || (
        exists|rest: Seq<char>| name == #[trigger] ("MONKEY_"@ + rest)),
{
    text::law_standing_in_is_being_a_part(name, "GITHUB_"@);
    text::law_standing_in_is_being_a_part(name, "MONKEY_"@);
}

/// A session file is one whose name is a stem and the extension.
pub proof fn law_names_of_session_files(name: Seq<char>)
    ensures
        is_session_name(name) <==> exists|stem: Seq<char>|
            stem.len() > 0 && name == #[trigger] (stem + ".jsonl"@),
{
    text::law_standing_in_is_being_a_part(name, ".jsonl"@);
    if is_session_name(name) {
        let stem = choose|stem: Seq<char>| name == #[trigger] (stem + ".jsonl"@);
        assert(stem.len() > 0 && name == stem + ".jsonl"@);
    }
}

/// The records of a session file are its lines in order, without white space
/// around them, but for those that are blank or cannot be read.
pub proof fn law_records(
    lines: Seq<Seq<char>>,
    errors: Seq<Option<Seq<char>>>,
    line: Seq<char>,
    error: Option<Seq<char>>,
)
    requires
        lines.len() == errors.len(),
    ensures
        records_in(Seq::empty(), errors) == Seq::<Seq<char>>::empty(),
        text::trimmed(line).len() > 0 && error is None ==> records_in(
            lines.push(line),
            errors.push(error),
        ) == records_in(lines, errors).push(text::trimmed(line)),
        text::trimmed(line).len() == 0 || error is Some ==> records_in(
            lines.push(line),
            errors.push(error),
        ) == records_in(lines, errors),
        bad_line(line, error) <==> text::trimmed(line).len() > 0 && error is Some,
        line_errors(lines.push(line)) == line_errors(lines).push(
            foreign::json_error_of(text::trimmed(line)),
        ),
{
    assert(lines.push(line).drop_last() =~= lines);
    lemma_later_errors(lines, errors, errors.push(error));
    assert(line_errors(lines.push(line)) =~= line_errors(lines).push(
        foreign::json_error_of(text::trimmed(line)),
    ));
}

proof fn lemma_later_errors(
    lines: Seq<Seq<char>>,
    errors: Seq<Option<Seq<char>>>,
    more: Seq<Option<Seq<char>>>,
)
    requires
        lines.len() <= errors.len(),
        forall|i: int| 0 <= i < lines.len() ==> #[trigger] errors[i] == more[i],
    ensures
        records_in(lines, errors) == records_in(lines, more),
    decreases lines.len(),
{
    if lines.len() > 0 {
        lemma_later_errors(lines.drop_last(), errors, more);
        assert(errors[lines.len() - 1] == more[lines.len() - 1]);
    }
}

/// What is told of a session: the file, the records in it, and its health with
/// the first fault where it has one.
pub proof fn law_artifacts(path: Seq<char>, records: Seq<Seq<char>>, health: HealthModel)
    ensures
        ({
            let r = artifacts(path, records, health);
            let t = health_tree(health);
            &&& r is Members
            &&& r->Members_0 == seq![
                ("session_file"@, json::PartModel::Value(json::Tree::Text(path))),
                ("messages"@, json::PartModel::Listed(records)),
                ("health"@, json::PartModel::Value(t)),
            ]
            &&& health is Complete ==> t.text_at("state"@) == Some("complete"@)
            &&& health is TruncatedTail ==> t.text_at("state"@) == Some("truncated_tail"@)
            &&& health matches HealthModel::Malformed { line_number, reason } ==> {
                &&& t.text_at("state"@) == Some("malformed"@)
                &&& t.get("line_number"@) == Some(json::number(line_number))
                &&& t.text_at("reason"@) == Some(reason)
            }
        }),
{
    reveal_strlit("state");
    reveal_strlit("line_number");
    reveal_strlit("reason");
    assert("state"@.len() == 5 && "line_number"@.len() == 11 && "reason"@.len() == 6);
    reveal_with_fuel(json::member, 4);
}

/// What git answers counts where it succeeds; else there is no answer.
pub proof fn law_answers_of_git(run: GitRun)
    ensures
        run matches GitRun::Ended { success, stdout, .. } ==> git_answer(run) == if success {
            text::trimmed(stdout@)
        } else {
            Seq::empty()
        },
        run is NotStarted ==> git_answer(run).len() == 0,
{
}

/// A request holds these members and no others.
pub proof fn law_requests_hold_nothing_else(
    request_type: Seq<char>,
    id: Seq<char>,
    given: Seq<char>,
)
    ensures
        rpc_request_tree(request_type, id) == json::Tree::Object(
            seq![("type"@, json::Tree::Text(request_type)), ("id"@, json::Tree::Text(id))],
        ),
        prompt_request(given) == json::Tree::Object(
            seq![
                ("type"@, json::Tree::Text("prompt"@)),
                ("message"@, json::Tree::Text(given)),
                ("id"@, json::Tree::Text("monkey-1"@)),
            ],
        ),
        switch_request(given) == json::Tree::Object(
            seq![
                ("type"@, json::Tree::Text("switch_session"@)),
                ("sessionPath"@, json::Tree::Text(given)),
            ],
        ),
{
}

} // verus!
