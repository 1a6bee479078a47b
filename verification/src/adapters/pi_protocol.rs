//! The messages that the engine writes, one JSON value per line.

use vstd::prelude::*;
use vstd::string::*;

use crate::decimal;
use crate::foreign;
use crate::json;
use crate::json::Json;
use crate::text;

verus! {

/// The answer to a command. The engine repeats the `id` of the command only
/// where it could read one, so that a refusal may come without it.
#[derive(Debug)]
pub struct PiResponse {
    pub id: Option<String>,
    pub success: bool,
    pub command: Option<String>,
    pub error: Option<String>,
    /// What the command gives; read by whoever sent it.
    pub data: Json,
}

/// One message of the engine.
#[derive(Debug)]
pub enum PiEvent {
    /// The run is over: no retry and no further work is due.
    AgentSettled,
    /// One turn of the agent is over; a retry may follow.
    AgentEnd { will_retry: bool },
    /// The engine has stopped retrying. Without success the run has failed,
    /// though the engine settles as usual.
    AutoRetryEnd { success: bool, final_error: Option<String> },
    /// The answer to a command.
    Response(PiResponse),
    /// Any other message. A later engine may send more kinds of them.
    Unknown,
}

/// What an answer stands for.
pub struct PiResponseModel {
    pub id: Option<Seq<char>>,
    pub success: bool,
    pub command: Option<Seq<char>>,
    pub error: Option<Seq<char>>,
    pub data: json::Tree,
}

/// What a message stands for.
pub enum PiEventModel {
    AgentSettled,
    AgentEnd { will_retry: bool },
    AutoRetryEnd { success: bool, final_error: Option<Seq<char>> },
    Response(PiResponseModel),
    Unknown,
}

impl View for PiResponse {
    type V = PiResponseModel;

    open spec fn view(&self) -> PiResponseModel {
        PiResponseModel {
            id: foreign::opt_view(self.id),
            success: self.success,
            command: foreign::opt_view(self.command),
            error: foreign::opt_view(self.error),
            data: self.data@,
        }
    }
}

impl View for PiEvent {
    type V = PiEventModel;

    open spec fn view(&self) -> PiEventModel {
        match self {
            PiEvent::AgentSettled => PiEventModel::AgentSettled,
            PiEvent::AgentEnd { will_retry } => PiEventModel::AgentEnd { will_retry: *will_retry },
            PiEvent::AutoRetryEnd { success, final_error } => PiEventModel::AutoRetryEnd {
                success: *success,
                final_error: foreign::opt_view(*final_error),
            },
            PiEvent::Response(r) => PiEventModel::Response(r@),
            PiEvent::Unknown => PiEventModel::Unknown,
        }
    }
}

/// A number is written as an integer: in digits alone.
pub open spec fn is_integer_text(s: Seq<char>) -> bool {
    forall|i: int| 0 <= i < s.len() ==> decimal::is_digit(#[trigger] s[i])
}

/// What a value is called where another type was expected.
pub open spec fn described(t: json::Tree) -> Seq<char> {
    match t {
        json::Tree::Null => "null"@,
        json::Tree::Bool(b) => if b {
            "boolean `true`"@
        } else {
            "boolean `false`"@
        },
        json::Tree::Int(n) => "integer `"@ + decimal::decimal(n) + "`"@,
        json::Tree::Number(s) => if is_integer_text(s) {
            "integer `"@ + s + "`"@
        } else {
            "floating point `"@ + s + "`"@
        },
        json::Tree::Text(s) => "string "@ + foreign::quoted_of(s),
        json::Tree::Array(_) => "sequence"@,
        json::Tree::Object(_) => "map"@,
    }
}

/// A value is not of the type that was expected.
pub open spec fn wrong_type(t: json::Tree, expected: Seq<char>) -> Seq<char> {
    "invalid type: "@ + described(t) + ", expected "@ + expected
}

/// A field that holds a truth value, where there is one.
pub open spec fn optional_bool(raw: json::Tree, name: Seq<char>) -> Result<Option<bool>, Seq<char>> {
    match raw.get(name) {
        Some(json::Tree::Bool(b)) => Ok(Some(b)),
        Some(t) => Err(wrong_type(t, "a boolean"@)),
        None => Ok(None),
    }
}

/// A field that may hold a text, may be null, or may be missing.
pub open spec fn optional_text(raw: json::Tree, name: Seq<char>) -> Result<
    Option<Seq<char>>,
    Seq<char>,
> {
    match raw.get(name) {
        Some(json::Tree::Text(s)) => Ok(Some(s)),
        Some(json::Tree::Null) => Ok(None),
        Some(t) => Err(wrong_type(t, "a string"@)),
        None => Ok(None),
    }
}

/// The answer that a value holds, or what is wrong with it. Of several faults
/// the first in the order of the names of the fields is told, and that a field
/// is missing last.
pub open spec fn response_in(raw: json::Tree) -> Result<PiResponseModel, Seq<char>> {
    match (
        optional_text(raw, "command"@),
        optional_text(raw, "error"@),
        optional_text(raw, "id"@),
        optional_bool(raw, "success"@),
    ) {
        (Err(e), _, _, _) => Err(e),
        (Ok(_), Err(e), _, _) => Err(e),
        (Ok(_), Ok(_), Err(e), _) => Err(e),
        (Ok(_), Ok(_), Ok(_), Err(e)) => Err(e),
        (Ok(_), Ok(_), Ok(_), Ok(None)) => Err("missing field `success`"@),
        (Ok(command), Ok(error), Ok(id), Ok(Some(success))) => Ok(
            PiResponseModel {
                id,
                success,
                command,
                error,
                data: match raw.get("data"@) {
                    Some(d) => d,
                    None => json::Tree::Null,
                },
            },
        ),
    }
}

/// The message of the given type that an object holds, or what is wrong with
/// it. A type that is not known is no fault.
pub open spec fn tagged_event(tag: Seq<char>, raw: json::Tree) -> Result<PiEventModel, Seq<char>> {
    if tag == "agent_settled"@ {
        Ok(PiEventModel::AgentSettled)
    } else if tag == "agent_end"@ {
        match optional_bool(raw, "willRetry"@) {
            Ok(b) => Ok(PiEventModel::AgentEnd { will_retry: b == Some(true) }),
            Err(e) => Err(e),
        }
    } else if tag == "auto_retry_end"@ {
        match (optional_text(raw, "finalError"@), optional_bool(raw, "success"@)) {
            (Err(e), _) => Err(e),
            (Ok(_), Err(e)) => Err(e),
            (Ok(_), Ok(None)) => Err("missing field `success`"@),
            (Ok(final_error), Ok(Some(success))) => Ok(
                PiEventModel::AutoRetryEnd { success, final_error },
            ),
        }
    } else if tag == "response"@ {
        match response_in(raw) {
            Ok(r) => Ok(PiEventModel::Response(r)),
            Err(e) => Err(e),
        }
    } else {
        Ok(PiEventModel::Unknown)
    }
}

/// The message that a value holds, or what is wrong with it. A message is an
/// object whose `type` says which message it is.
pub open spec fn event_in(raw: json::Tree) -> Result<PiEventModel, Seq<char>> {
    match raw {
        json::Tree::Object(_) => match raw.get("type"@) {
            Some(json::Tree::Text(tag)) => tagged_event(tag, raw),
            Some(t) => Err(wrong_type(t, "variant identifier"@)),
            None => Err("missing field `type`"@),
        },
        _ => Err(wrong_type(raw, "internally tagged enum PiEvent"@)),
    }
}

fn in_ticks(before: &str, what: &str) -> (r: String)
    ensures
        r@ == before@ + what@ + "`"@,
{
    let mut r = before.to_owned();
    r.append(what);
    r.append("`");
    r
}

fn has_digits_only(s: &str) -> (r: bool)
    ensures
        r == is_integer_text(s@),
{
    let chars = text::chars_of(s);
    let mut i: usize = 0;
    while i < chars.len()
        invariant
            i <= chars.len(),
            chars@ == s@,
            forall|k: int| 0 <= k < i ==> decimal::is_digit(#[trigger] s@[k]),
        decreases chars.len() - i,
    {
        if !('0' <= chars[i] && chars[i] <= '9') {
            assert(!decimal::is_digit(s@[i as int]));
            return false;
        }
        i += 1;
    }
    true
}

fn describe(j: &Json) -> (r: String)
    ensures
        r@ == described(j@),
{
    match j {
        Json::Null => "null".to_owned(),
        Json::Bool(b) => if *b {
            "boolean `true`".to_owned()
        } else {
            "boolean `false`".to_owned()
        },
        Json::Int(n) => in_ticks("integer `", decimal::decimal_i64(*n).as_str()),
        Json::Number(s) => if has_digits_only(s.as_str()) {
            in_ticks("integer `", s.as_str())
        } else {
            in_ticks("floating point `", s.as_str())
        },
        Json::Text(s) => "string ".to_owned().concat(foreign::quoted(s.as_str()).as_str()),
        Json::Array(_) => "sequence".to_owned(),
        Json::Object(_) => "map".to_owned(),
    }
}

fn type_fault(j: &Json, expected: &str) -> (r: String)
    ensures
        r@ == wrong_type(j@, expected@),
{
    let mut r = "invalid type: ".to_owned();
    r.append(describe(j).as_str());
    r.append(", expected ");
    r.append(expected);
    r
}

fn read_bool(raw: &Json, name: &str) -> (r: Result<Option<bool>, String>)
    ensures
        optional_bool(raw@, name@) == match r {
            Ok(b) => Ok(b),
            Err(e) => Err(e@),
        },
{
    match raw.get(name) {
        Some(Json::Bool(b)) => Ok(Some(*b)),
        Some(j) => Err(type_fault(j, "a boolean")),
        None => Ok(None),
    }
}

fn read_text(raw: &Json, name: &str) -> (r: Result<Option<String>, String>)
    ensures
        optional_text(raw@, name@) == match r {
            Ok(s) => Ok(foreign::opt_view(s)),
            Err(e) => Err(e@),
        },
{
    match raw.get(name) {
        Some(Json::Text(s)) => Ok(Some(s.clone())),
        Some(Json::Null) => Ok(None),
        Some(j) => Err(type_fault(j, "a string")),
        None => Ok(None),
    }
}

fn read_response(raw: &Json) -> (r: Result<PiResponse, String>)
    ensures
        response_in(raw@) == match r {
            Ok(p) => Ok(p@),
            Err(e) => Err(e@),
        },
{
    let command = match read_text(raw, "command") {
        Ok(s) => s,
        Err(e) => return Err(e),
    };
    let error = match read_text(raw, "error") {
        Ok(s) => s,
        Err(e) => return Err(e),
    };
    let id = match read_text(raw, "id") {
        Ok(s) => s,
        Err(e) => return Err(e),
    };
    let success = match read_bool(raw, "success") {
        Ok(Some(b)) => b,
        Ok(None) => return Err("missing field `success`".to_owned()),
        Err(e) => return Err(e),
    };
    let data = match raw.get("data") {
        Some(d) => d.copy(),
        None => Json::Null,
    };
    Ok(PiResponse { id, success, command, error, data })
}

fn read_tagged(tag: &str, raw: &Json) -> (r: Result<PiEvent, String>)
    ensures
        tagged_event(tag@, raw@) == match r {
            Ok(p) => Ok(p@),
            Err(e) => Err(e@),
        },
{
    if text::same_text(tag, "agent_settled") {
        return Ok(PiEvent::AgentSettled);
    }
    if text::same_text(tag, "agent_end") {
        return match read_bool(raw, "willRetry") {
            Ok(Some(will_retry)) => Ok(PiEvent::AgentEnd { will_retry }),
            Ok(None) => Ok(PiEvent::AgentEnd { will_retry: false }),
            Err(e) => Err(e),
        };
    }
    if text::same_text(tag, "auto_retry_end") {
        let final_error = match read_text(raw, "finalError") {
            Ok(s) => s,
            Err(e) => return Err(e),
        };
        return match read_bool(raw, "success") {
            Ok(Some(success)) => Ok(PiEvent::AutoRetryEnd { success, final_error }),
            Ok(None) => Err("missing field `success`".to_owned()),
            Err(e) => Err(e),
        };
    }
    if text::same_text(tag, "response") {
        return match read_response(raw) {
            Ok(r) => Ok(PiEvent::Response(r)),
            Err(e) => Err(e),
        };
    }
    Ok(PiEvent::Unknown)
}

impl PiEvent {
    /// The message is of no kind that is known.
    pub fn is_unknown(&self) -> (r: bool)
        ensures
            r == (self@ is Unknown),
    {
        match self {
            PiEvent::Unknown => true,
            _ => false,
        }
    }

    /// Reads a message from the value that the engine wrote.
    pub fn from_json(raw: &Json) -> (r: Result<PiEvent, String>)
        ensures
            event_in(raw@) == match r {
                Ok(p) => Ok(p@),
                Err(e) => Err(e@),
            },
    {
        match raw {
            Json::Object(_) => match raw.get("type") {
                Some(Json::Text(tag)) => read_tagged(tag.as_str(), raw),
                Some(j) => Err(type_fault(j, "variant identifier")),
                None => Err("missing field `type`".to_owned()),
            },
            _ => Err(type_fault(raw, "internally tagged enum PiEvent")),
        }
    }
}

/// The message is an answer whose fields are all of the right type: it says
/// whether the command succeeded, and its id, its command and its error are
/// texts, null or missing.
pub open spec fn is_sound_response(raw: json::Tree) -> bool {
    &&& raw.text_at("type"@) == Some("response"@)
    &&& raw.get("success"@) is Some && raw.get("success"@)->0 is Bool
    &&& raw.get("id"@) is None || raw.get("id"@)->0 is Text || raw.get("id"@)->0 is Null
    &&& raw.get("command"@) is None || raw.get("command"@)->0 is Text || raw.get("command"@)->0 is Null
    &&& raw.get("error"@) is None || raw.get("error"@)->0 is Text || raw.get("error"@)->0 is Null
}

proof fn lemma_tags()
    ensures
        "agent_settled"@.len() == 13,
        "agent_end"@.len() == 9,
        "auto_retry_end"@.len() == 14,
        "response"@.len() == 8,
{
    reveal_strlit("agent_settled");
    reveal_strlit("agent_end");
    reveal_strlit("auto_retry_end");
    reveal_strlit("response");
}

/// A message is told by its type: the run has settled, a turn has ended, the
/// retries have ended, an answer, or anything else. What has the fields of its
/// type is read with them.
pub proof fn law_messages_by_type(raw: json::Tree)
    ensures
        ({
            let tag = raw.text_at("type"@);
            let r = event_in(raw);
            &&& tag == Some("agent_settled"@) <==> r == Ok::<PiEventModel, Seq<char>>(
                PiEventModel::AgentSettled,
            )
            &&& tag == Some("agent_end"@) && raw.get("willRetry"@) is None ==> r == Ok::<
                PiEventModel,
                Seq<char>,
            >(PiEventModel::AgentEnd { will_retry: false })
            &&& tag == Some("agent_end"@) && raw.get("willRetry"@) is Some ==> match raw.get(
                "willRetry"@,
            )->0 {
                json::Tree::Bool(b) => r == Ok::<PiEventModel, Seq<char>>(
                    PiEventModel::AgentEnd { will_retry: b },
                ),
                _ => r is Err,
            }
            &&& r matches Ok(PiEventModel::AgentEnd { .. }) ==> tag == Some("agent_end"@)
            &&& r matches Ok(PiEventModel::AutoRetryEnd { success, final_error }) ==> {
                &&& tag == Some("auto_retry_end"@)
                &&& raw.get("success"@) == Some(json::Tree::Bool(success))
                &&& final_error == raw.text_at("finalError"@)
            }
            &&& tag == Some("auto_retry_end"@) ==> (r is Ok <==> raw.get("success"@) is Some
                && raw.get("success"@)->0 is Bool && (raw.get("finalError"@) is None || raw.get(
                "finalError"@,
            )->0 is Text || raw.get("finalError"@)->0 is Null))
            &&& r matches Ok(PiEventModel::Response(m)) ==> {
                &&& is_sound_response(raw)
                &&& raw.get("success"@) == Some(json::Tree::Bool(m.success))
                &&& m.id == raw.text_at("id"@)
                &&& m.command == raw.text_at("command"@)
                &&& m.error == raw.text_at("error"@)
                &&& raw.get("data"@) is Some ==> m.data == raw.get("data"@)->0
                &&& raw.get("data"@) is None ==> m.data == json::Tree::Null
            }
            &&& tag == Some("response"@) ==> (r is Ok <==> is_sound_response(raw))
            &&& tag is Some && tag != Some("agent_settled"@) && tag != Some("agent_end"@) && tag
                != Some("auto_retry_end"@) && tag != Some("response"@) ==> r == Ok::<
                PiEventModel,
                Seq<char>,
            >(PiEventModel::Unknown)
            &&& tag is None ==> r is Err
            &&& r == Ok::<PiEventModel, Seq<char>>(PiEventModel::Unknown) ==> tag is Some && tag
                != Some("agent_settled"@) && tag != Some("agent_end"@) && tag != Some(
                "auto_retry_end"@,
            ) && tag != Some("response"@)
        }),
{
    lemma_tags();
}

/// What is wrong with a message is told in words: the value that was found and
/// the type that was expected, or the field that is missing.
pub proof fn law_faults_in_words(raw: json::Tree, t: json::Tree, expected: Seq<char>)
    ensures
        wrong_type(t, expected) == "invalid type: "@ + match t {
            json::Tree::Null => "null"@,
            json::Tree::Bool(true) => "boolean `true`"@,
            json::Tree::Bool(false) => "boolean `false`"@,
            json::Tree::Int(n) => "integer `"@ + decimal::decimal(n) + "`"@,
            json::Tree::Number(s) => if forall|i: int|
                0 <= i < s.len() ==> '0' <= #[trigger] s[i] <= '9' {
                "integer `"@ + s + "`"@
            } else {
                "floating point `"@ + s + "`"@
            },
            json::Tree::Text(s) => "string "@ + foreign::quoted_of(s),
            json::Tree::Array(_) => "sequence"@,
            json::Tree::Object(_) => "map"@,
        } + ", expected "@ + expected,
        !(raw is Object) ==> event_in(raw) == Err::<PiEventModel, Seq<char>>(
            wrong_type(raw, "internally tagged enum PiEvent"@),
        ),
        raw is Object && raw.get("type"@) is None ==> event_in(raw) == Err::<
            PiEventModel,
            Seq<char>,
        >("missing field `type`"@),
        raw.get("type"@) == Some(t) && !(t is Text) ==> event_in(raw) == Err::<
            PiEventModel,
            Seq<char>,
        >(wrong_type(t, "variant identifier"@)),
        raw.text_at("type"@) == Some("agent_end"@) && raw.get("willRetry"@) == Some(t) && !(
        t is Bool) ==> event_in(raw) == Err::<PiEventModel, Seq<char>>(
            wrong_type(t, "a boolean"@),
        ),
{
    lemma_tags();
    if t is Number {
        let s = t->Number_0;
        if is_integer_text(s) {
            assert forall|i: int| 0 <= i < s.len() implies '0' <= #[trigger] s[i] <= '9' by {
                assert(decimal::is_digit(s[i]));
            }
        }
    }
}

/// Of the faults of an answer the first is told in the order of the names of
/// its fields: command, error, id, success; a missing field comes last.
pub proof fn law_first_fault_of_an_answer(raw: json::Tree)
    requires
        raw.text_at("type"@) == Some("response"@),
    ensures
        ({
            let bad = |name: Seq<char>|
                raw.get(name) is Some && !(raw.get(name)->0 is Text) && !(raw.get(name)->0 is Null);
            let r = event_in(raw);
            &&& bad("command"@) ==> r == Err::<PiEventModel, Seq<char>>(
                wrong_type(raw.get("command"@)->0, "a string"@),
            )
            &&& !bad("command"@) && bad("error"@) ==> r == Err::<PiEventModel, Seq<char>>(
                wrong_type(raw.get("error"@)->0, "a string"@),
            )
            &&& !bad("command"@) && !bad("error"@) && bad("id"@) ==> r == Err::<
                PiEventModel,
                Seq<char>,
            >(wrong_type(raw.get("id"@)->0, "a string"@))
            &&& !bad("command"@) && !bad("error"@) && !bad("id"@) && raw.get("success"@) is Some
                && !(raw.get("success"@)->0 is Bool) ==> r == Err::<PiEventModel, Seq<char>>(
                wrong_type(raw.get("success"@)->0, "a boolean"@),
            )
            &&& !bad("command"@) && !bad("error"@) && !bad("id"@) && raw.get("success"@) is None
                ==> r == Err::<PiEventModel, Seq<char>>("missing field `success`"@)
        }),
{
    lemma_tags();
}

} // verus!
