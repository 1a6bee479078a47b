//! What the engine is given and what it hands back.

use vstd::prelude::*;
use vstd::string::*;

use crate::json;
use crate::json::Json;
use crate::text;

pub mod pi;
pub mod pi_protocol;

verus! {

/// Why a run of the engine failed.
#[derive(Debug, Clone)]
pub enum EngineError {
    Io(String),
    Spawn { binary: String, source: String },
    Framing(String),
    PrematureExit(String),
    Timeout(String),
    /// The engine answered a command with a refusal, and said why.
    EngineRejected { command: String, error: String },
}

/// What an error stands for.
pub enum EngineErrorModel {
    Io(Seq<char>),
    Spawn { binary: Seq<char>, source: Seq<char> },
    Framing(Seq<char>),
    PrematureExit(Seq<char>),
    Timeout(Seq<char>),
    EngineRejected { command: Seq<char>, error: Seq<char> },
}

impl View for EngineError {
    type V = EngineErrorModel;

    open spec fn view(&self) -> EngineErrorModel {
        match self {
            EngineError::Io(s) => EngineErrorModel::Io(s@),
            EngineError::Spawn { binary, source } => EngineErrorModel::Spawn {
                binary: binary@,
                source: source@,
            },
            EngineError::Framing(s) => EngineErrorModel::Framing(s@),
            EngineError::PrematureExit(s) => EngineErrorModel::PrematureExit(s@),
            EngineError::Timeout(s) => EngineErrorModel::Timeout(s@),
            EngineError::EngineRejected { command, error } => EngineErrorModel::EngineRejected {
                command: command@,
                error: error@,
            },
        }
    }
}

impl EngineErrorModel {
    pub open spec fn message(self) -> Seq<char> {
        match self {
            EngineErrorModel::Io(s) => "I/O failure: "@ + s,
            EngineErrorModel::Spawn { binary, source } => "failed to spawn pi binary `"@ + binary
                + "`: "@ + source,
            EngineErrorModel::Framing(s) => "RPC framing error: "@ + s,
            EngineErrorModel::PrematureExit(s) => "pi exited before "@ + s,
            EngineErrorModel::Timeout(s) => "timed out waiting for "@ + s,
            EngineErrorModel::EngineRejected { command, error } => "pi rejected "@ + command + ": "@
                + error,
        }
    }
}

impl EngineError {
    /// The error in words.
    pub fn to_text(&self) -> (r: String)
        ensures
            r@ == self@.message(),
    {
        match self {
            EngineError::Io(s) => "I/O failure: ".to_owned().concat(s.as_str()),
            EngineError::Spawn { binary, source } => {
                let mut r = "failed to spawn pi binary `".to_owned();
                r.append(binary.as_str());
                r.append("`: ");
                r.append(source.as_str());
                r
            },
            EngineError::Framing(s) => "RPC framing error: ".to_owned().concat(s.as_str()),
            EngineError::PrematureExit(s) => "pi exited before ".to_owned().concat(s.as_str()),
            EngineError::Timeout(s) => "timed out waiting for ".to_owned().concat(s.as_str()),
            EngineError::EngineRejected { command, error } => {
                let mut r = "pi rejected ".to_owned();
                r.append(command.as_str());
                r.append(": ");
                r.append(error.as_str());
                r
            },
        }
    }
}

/// What a run of the engine is given; the time limit is in seconds.
#[derive(Debug, Clone)]
pub struct RunParams<'a> {
    pub prompt: &'a str,
    pub worktree: &'a str,
    pub session_dir: &'a str,
    pub model: &'a str,
    pub thinking: &'a str,
    pub provider: &'a str,
    pub timeout: u64,
}

/// Whether a run gave a result that can be trusted. A run can end in good
/// order and still be a failure: the engine gives up after some retries, and
/// then settles as usual.
#[derive(Debug, Clone, Copy, PartialEq, Eq, Structural)]
pub enum OutcomeStatus {
    Success,
    Error,
}

impl OutcomeStatus {
    pub open spec fn name(self) -> Seq<char> {
        match self {
            OutcomeStatus::Success => "ok"@,
            OutcomeStatus::Error => "error"@,
        }
    }

    /// The status as it is written in records.
    pub fn to_text(&self) -> (r: String)
        ensures
            r@ == self.name(),
    {
        match self {
            OutcomeStatus::Success => "ok".to_owned(),
            OutcomeStatus::Error => "error".to_owned(),
        }
    }
}

impl Default for OutcomeStatus {
    fn default() -> (r: Self)
        ensures
            r == OutcomeStatus::Success,
    {
        OutcomeStatus::Success
    }
}

/// What a run of the engine gave.
#[derive(Debug)]
pub struct Outcome {
    pub session_dir: String,
    pub status: OutcomeStatus,
    pub summary: String,
    pub pr_body: String,
    pub comment: String,
    pub branch: String,
    pub artifact_paths: Vec<String>,
    pub raw_events: Vec<Json>,
}

/// What an outcome stands for.
pub struct OutcomeModel {
    pub session_dir: Seq<char>,
    pub status: OutcomeStatus,
    pub summary: Seq<char>,
    pub pr_body: Seq<char>,
    pub comment: Seq<char>,
    pub branch: Seq<char>,
    pub artifact_paths: Seq<Seq<char>>,
    pub raw_events: Seq<json::Tree>,
}

impl View for Outcome {
    type V = OutcomeModel;

    open spec fn view(&self) -> OutcomeModel {
        OutcomeModel {
            session_dir: self.session_dir@,
            status: self.status,
            summary: self.summary@,
            pr_body: self.pr_body@,
            comment: self.comment@,
            branch: self.branch@,
            artifact_paths: text::texts(self.artifact_paths@),
            raw_events: json::trees(self.raw_events@),
        }
    }
}

impl Default for Outcome {
    fn default() -> (r: Self)
        ensures
            r@ == (OutcomeModel {
                session_dir: Seq::empty(),
                status: OutcomeStatus::Success,
                summary: Seq::empty(),
                pr_body: Seq::empty(),
                comment: Seq::empty(),
                branch: Seq::empty(),
                artifact_paths: Seq::empty(),
                raw_events: Seq::empty(),
            }),
    {
        let artifact_paths: Vec<String> = Vec::new();
        let raw_events: Vec<Json> = Vec::new();
        assert(text::texts(artifact_paths@) =~= Seq::<Seq<char>>::empty());
        assert(json::trees(raw_events@) =~= Seq::<json::Tree>::empty());
        Outcome {
            session_dir: String::new(),
            status: OutcomeStatus::Success,
            summary: String::new(),
            pr_body: String::new(),
            comment: String::new(),
            branch: String::new(),
            artifact_paths,
            raw_events,
        }
    }
}

/// Each error of the engine is told in its own words, and each status by its own.
pub proof fn law_engine_errors_in_words(s: Seq<char>, t: Seq<char>)
    ensures
        EngineErrorModel::Io(s).message() == "I/O failure: "@ + s,
        (EngineErrorModel::Spawn { binary: s, source: t }).message()
            == "failed to spawn pi binary `"@ + s + "`: "@ + t,
        EngineErrorModel::Framing(s).message() == "RPC framing error: "@ + s,
        EngineErrorModel::PrematureExit(s).message() == "pi exited before "@ + s,
        EngineErrorModel::Timeout(s).message() == "timed out waiting for "@ + s,
        (EngineErrorModel::EngineRejected { command: s, error: t }).message() == "pi rejected "@ + s
            + ": "@ + t,
        OutcomeStatus::Success.name() == "ok"@,
        OutcomeStatus::Error.name() == "error"@,
{
}

} // verus!
