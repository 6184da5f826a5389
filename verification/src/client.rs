//! What the Cursor SDK client makes of the replies it gets.

use vstd::prelude::*;

use crate::error::CursorSdkError;
use crate::text;

verus! {

/// The service of agents and runs.
pub const AGENT_SERVICE: &'static str = "sdk.v1.SdkAgentService";

/// The service of models.
pub const CURSOR_SERVICE: &'static str = "sdk.v1.SdkCursorService";

/// The service that controls the sidecar.
pub const CONTROL_SERVICE: &'static str = "sdk.v1.SdkBridgeControlService";

/// An agent that was created.
#[derive(Debug)]
pub struct CreateAgentResult {
    pub agent_id: String,
    pub model: String,
}

impl Clone for CreateAgentResult {
    fn clone(&self) -> (r: Self)
        ensures
            r == *self,
    {
        CreateAgentResult {
            agent_id: self.agent_id.clone(),
            model: self.model.clone(),
        }
    }
}

impl CreateAgentResult {
    /// The created agent; a reply that names no model leaves it empty.
    pub fn from_reply(agent_id: String, model: Option<String>) -> (r: Self)
        ensures
            r.agent_id == agent_id,
            r.model@ == match model {
                Some(m) => m@,
                None => ""@,
            },
    {
        CreateAgentResult {
            agent_id,
            model: match model {
                Some(m) => m,
                None => "".to_owned(),
            },
        }
    }
}

/// What came of a run.
#[derive(Debug)]
pub struct SendResult {
    pub run_id: String,
    pub text: String,
    pub status: String,
    pub error: Option<String>,
}

impl Clone for SendResult {
    fn clone(&self) -> (r: Self)
        ensures
            r == *self,
    {
        SendResult {
            run_id: self.run_id.clone(),
            text: self.text.clone(),
            status: self.status.clone(),
            error: self.error.clone(),
        }
    }
}

/// An agent as it is listed.
#[derive(Debug)]
pub struct AgentSummary {
    pub agent_id: String,
    pub name: String,
    pub summary: String,
    pub archived: bool,
}

impl Clone for AgentSummary {
    fn clone(&self) -> (r: Self)
        ensures
            r == *self,
    {
        AgentSummary {
            agent_id: self.agent_id.clone(),
            name: self.name.clone(),
            summary: self.summary.clone(),
            archived: self.archived,
        }
    }
}

// -- Messages of a run ------------------------------------------------------

/// A value in the payload of a message.
#[derive(Debug)]
pub enum ProtoValue {
    Text(String),
    /// A number, as it is printed.
    Number(String),
    Bool(bool),
    /// Anything that is not shown as text.
    Other,
}

/// A message in the stream of a run.
#[derive(Debug)]
pub enum RunMessage {
    /// A message of some kind with the fields of its payload, if it has one.
    Sdk { kind: String, message: Option<Vec<(String, ProtoValue)>> },
    /// The result of the run.
    Result { run_id: String, error_code: Option<String>, result: Option<String> },
    /// The end of the run.
    Done { run_id: String },
    /// Anything else.
    Other,
}

/// The text of a value, if it is shown as text.
pub open spec fn value_text(v: ProtoValue) -> Option<Seq<char>> {
    match v {
        ProtoValue::Text(s) => Some(s@),
        ProtoValue::Number(s) => Some(s@),
        ProtoValue::Bool(b) => Some(
            if b {
                "true"@
            } else {
                "false"@
            },
        ),
        ProtoValue::Other => None,
    }
}

/// The first field of that name.
pub open spec fn field(fields: Seq<(String, ProtoValue)>, name: Seq<char>) -> Option<ProtoValue>
    decreases fields.len(),
{
    if fields.len() == 0 {
        None
    } else if fields[0].0@ == name {
        Some(fields[0].1)
    } else {
        field(fields.drop_first(), name)
    }
}

/// The text of a payload: of its `text` field, or of its `message` field where
/// it has no `text`.
pub open spec fn payload_text(message: Option<Vec<(String, ProtoValue)>>) -> Option<Seq<char>> {
    match message {
        None => None,
        Some(fields) => {
            let shown = match field(fields@, "text"@) {
                Some(v) => Some(v),
                None => field(fields@, "message"@),
            };
            match shown {
                Some(v) => value_text(v),
                None => None,
            }
        },
    }
}

/// The text of a value, if it is shown as text.
pub fn proto_value_string(v: &ProtoValue) -> (r: Option<String>)
    ensures
        text::is_text(r, value_text(*v)),
{
    match v {
        ProtoValue::Text(s) => Some(s.clone()),
        ProtoValue::Number(s) => Some(s.clone()),
        ProtoValue::Bool(b) => Some(
            if *b {
                "true".to_owned()
            } else {
                "false".to_owned()
            },
        ),
        ProtoValue::Other => None,
    }
}

fn find_field<'a>(fields: &'a Vec<(String, ProtoValue)>, name: &str) -> (r: Option<&'a ProtoValue>)
    ensures
        match r {
            Some(v) => field(fields@, name@) == Some(*v),
            None => field(fields@, name@) is None,
        },
{
    let mut i: usize = 0;
    assert(fields@.skip(0) =~= fields@);
    while i < fields.len()
        invariant
            i <= fields@.len(),
            field(fields@, name@) == field(fields@.skip(i as int), name@),
        decreases fields@.len() - i,
    {
        if text::same_text(fields[i].0.as_str(), name) {
            return Some(&fields[i].1);
        }
        assert(fields@.skip(i as int).drop_first() =~= fields@.skip(i + 1));
        i += 1;
    }
    None
}

/// The text of a payload.
pub fn struct_text(message: &Option<Vec<(String, ProtoValue)>>) -> (r: Option<String>)
    ensures
        text::is_text(r, payload_text(*message)),
{
    match message {
        None => None,
        Some(fields) => {
            let shown = match find_field(fields, "text") {
                Some(v) => Some(v),
                None => find_field(fields, "message"),
            };
            match shown {
                Some(v) => proto_value_string(v),
                None => None,
            }
        },
    }
}

// -- Folding a run ----------------------------------------------------------

/// What was gathered from the messages of a run.
pub struct RunState {
    pub assistant: Seq<char>,
    pub status: Seq<char>,
    pub run_id: Seq<char>,
    pub error: Option<Seq<char>>,
}

/// Nothing was gathered.
pub open spec fn no_messages() -> RunState {
    RunState { assistant: ""@, status: ""@, run_id: ""@, error: None }
}

/// A kind of message whose text is the assistant's.
pub open spec fn is_assistant(kind: Seq<char>) -> bool {
    kind == "assistant"@ || kind == "assistant_message"@
}

/// The assistant's text with one more paragraph.
pub open spec fn with_paragraph(assistant: Seq<char>, shown: Seq<char>) -> Seq<char> {
    if assistant.len() == 0 {
        shown
    } else {
        assistant.push('\n') + shown
    }
}

/// What one more message adds: assistant texts pile up, a status replaces the
/// last one, a result brings the run id, its error code if it has one, and its
/// text in place of all assistant texts; the end of the run brings the run id if
/// none is known.
pub open spec fn after_message(s: RunState, m: RunMessage) -> RunState {
    match m {
        RunMessage::Sdk { kind, message } => match payload_text(message) {
            Some(shown) => if is_assistant(kind@) {
                RunState { assistant: with_paragraph(s.assistant, shown), ..s }
            } else if kind@ == "status"@ {
                RunState { status: shown, ..s }
            } else {
                s
            },
            None => s,
        },
        RunMessage::Result { run_id, error_code, result } => RunState {
            run_id: run_id@,
            error: match error_code {
                Some(code) => if code@.len() > 0 {
                    Some(code@)
                } else {
                    s.error
                },
                None => s.error,
            },
            assistant: match result {
                Some(out) => if out@.len() > 0 {
                    out@
                } else {
                    s.assistant
                },
                None => s.assistant,
            },
            status: s.status,
        },
        RunMessage::Done { run_id } => if s.run_id.len() == 0 {
            RunState { run_id: run_id@, ..s }
        } else {
            s
        },
        RunMessage::Other => s,
    }
}

/// What is gathered from all messages of a run.
pub open spec fn gathered(messages: Seq<RunMessage>) -> RunState
    decreases messages.len(),
{
    if messages.len() == 0 {
        no_messages()
    } else {
        after_message(gathered(messages.drop_last()), messages.last())
    }
}

/// The result holds what was gathered.
pub open spec fn holds(r: SendResult, s: RunState) -> bool {
    &&& r.run_id@ == s.run_id
    &&& r.text@ == s.assistant
    &&& r.status@ == s.status
    &&& text::is_text(r.error, s.error)
}

fn add_message(state: &mut SendResult, m: &RunMessage, Ghost(s): Ghost<RunState>)
    requires
        holds(*old(state), s),
    ensures
        holds(*final(state), after_message(s, *m)),
{
    match m {
        RunMessage::Sdk { kind, message } => {
            proof {
                reveal_strlit("assistant");
                reveal_strlit("assistant_message");
                reveal_strlit("status");
                assert("assistant"@[0] != "status"@[0]);
                assert("assistant_message"@[0] != "status"@[0]);
            }
            match struct_text(message) {
                Some(shown) => {
                    if text::same_text(kind.as_str(), "assistant") || text::same_text(
                        kind.as_str(),
                        "assistant_message",
                    ) {
                        if !state.text.as_str().is_empty() {
                            state.text.push('\n');
                        }
                        state.text.append(shown.as_str());
                        assert(state.text@ =~= with_paragraph(s.assistant, shown@));
                    } else if text::same_text(kind.as_str(), "status") {
                        state.status = shown;
                    }
                },
                None => {},
            }
        },
        RunMessage::Result { run_id, error_code, result } => {
            state.run_id = run_id.clone();
            match error_code {
                Some(code) => if !code.as_str().is_empty() {
                    state.error = Some(code.clone());
                },
                None => {},
            }
            match result {
                Some(out) => if !out.as_str().is_empty() {
                    state.text = out.clone();
                },
                None => {},
            }
        },
        RunMessage::Done { run_id } => {
            if state.run_id.as_str().is_empty() {
                state.run_id = run_id.clone();
            }
        },
        RunMessage::Other => {},
    }
}

/// Gather the messages of a run.
pub fn gather_run(messages: &Vec<RunMessage>) -> (r: SendResult)
    ensures
        holds(r, gathered(messages@)),
{
    let mut state = SendResult {
        run_id: "".to_owned(),
        text: "".to_owned(),
        status: "".to_owned(),
        error: None,
    };
    let mut i: usize = 0;
    while i < messages.len()
        invariant
            i <= messages@.len(),
            holds(state, gathered(messages@.take(i as int))),
        decreases messages@.len() - i,
    {
        proof {
            assert(messages@.take(i + 1).drop_last() =~= messages@.take(i as int));
            assert(messages@.take(i + 1).last() == messages@[i as int]);
        }
        add_message(&mut state, &messages[i], Ghost(gathered(messages@.take(i as int))));
        i += 1;
    }
    assert(messages@.take(messages@.len() as int) =~= messages@);
    state
}

/// A run that is known by its id but gave no text.
pub open spec fn owes_text(s: RunState) -> bool {
    s.assistant.len() == 0 && s.run_id.len() > 0
}

/// The result of a run whose gathered messages are `s` may be `r`: a run that
/// owes its text is waited for, and gives it if that succeeds.
pub open spec fn run_result<W: FnOnce(&str) -> Result<String, CursorSdkError>>(
    s: RunState,
    wait_live_run: W,
    r: SendResult,
) -> bool {
    if owes_text(s) {
        exists|id: &str, waited: Result<String, CursorSdkError>|
            {
                &&& id@ == s.run_id
                &&& #[trigger] wait_live_run.ensures((id,), waited)
                &&& holds(
                    r,
                    match waited {
                        Ok(out) => RunState { assistant: out@, ..s },
                        Err(_) => s,
                    },
                )
            }
    } else {
        holds(r, s)
    }
}

/// The result of a run, given the messages of its stream. `wait_live_run` is
/// called only when they hold a run id but no text.
pub fn send_result<W: FnOnce(&str) -> Result<String, CursorSdkError>>(
    messages: &Vec<RunMessage>,
    wait_live_run: W,
) -> (r: SendResult)
    requires
        owes_text(gathered(messages@)) ==> forall|id: &str|
            id@ == gathered(messages@).run_id ==> #[trigger] wait_live_run.requires((id,)),
    ensures
        run_result(gathered(messages@), wait_live_run, r),
{
    let mut state = gather_run(messages);
    if state.text.as_str().is_empty() && !state.run_id.as_str().is_empty() {
        let id = state.run_id.clone();
        let run: &str = id.as_str();
        let waited = wait_live_run(run);
        let ghost w = waited;
        assert(wait_live_run.ensures((run,), w));
        match waited {
            Ok(out) => {
                state.text = out;
            },
            Err(_) => {},
        }
    }
    state
}

// -- Laws -------------------------------------------------------------------

/// The text of a run's result stands for everything the assistant wrote before
/// it, and its run id for any before it.
pub proof fn result_message_is_final(messages: Seq<RunMessage>)
    requires
        messages.len() > 0,
        messages.last() matches RunMessage::Result { result: Some(out), .. } && out@.len() > 0,
    ensures
        messages.last() matches RunMessage::Result { run_id, result: Some(out), .. } ==> gathered(
            messages,
        ).assistant == out@ && gathered(messages).run_id == run_id@,
{
}

/// Messages of kinds that are not known change nothing.
pub proof fn unknown_messages_change_nothing(messages: Seq<RunMessage>, m: RunMessage)
    requires
        m is Other || (m matches RunMessage::Sdk { kind, .. } && !is_assistant(kind@) && kind@
            != "status"@),
    ensures
        gathered(messages.push(m)) == gathered(messages),
{
    assert(messages.push(m).drop_last() =~= messages);
}

/// An error code once seen stays unless another takes its place.
pub proof fn error_code_stays(messages: Seq<RunMessage>, m: RunMessage)
    requires
        gathered(messages).error is Some,
    ensures
        gathered(messages.push(m)).error is Some,
{
    assert(messages.push(m).drop_last() =~= messages);
}

proof fn lemma_first_field(fields: Seq<(String, ProtoValue)>, name: Seq<char>, i: int)
    requires
        0 <= i <= fields.len(),
        forall|j: int| 0 <= j < i ==> (#[trigger] fields[j]).0@ != name,
        i < fields.len() ==> fields[i].0@ == name,
    ensures
        i < fields.len() ==> field(fields, name) == Some(fields[i].1),
        i == fields.len() ==> field(fields, name) is None,
    decreases fields.len(),
{
    if i > 0 {
        let rest = fields.drop_first();
        assert(fields[0].0@ != name);
        assert forall|j: int| 0 <= j < i - 1 implies (#[trigger] rest[j]).0@ != name by {
            assert(rest[j] == fields[j + 1]);
        }
        lemma_first_field(rest, name, i - 1);
    }
}

/// The text of a payload is that of its first `text` field, wherever it stands.
pub proof fn text_field_is_read(fields: Vec<(String, ProtoValue)>, i: int)
    requires
        0 <= i < fields@.len(),
        fields@[i].0@ == "text"@,
        forall|j: int| 0 <= j < i ==> (#[trigger] fields@[j]).0@ != "text"@,
    ensures
        fields@[i].1 matches ProtoValue::Text(s) ==> payload_text(Some(fields)) == Some(s@),
        fields@[i].1 matches ProtoValue::Number(s) ==> payload_text(Some(fields)) == Some(s@),
        fields@[i].1 == ProtoValue::Bool(true) ==> payload_text(Some(fields)) == Some("true"@),
        fields@[i].1 == ProtoValue::Bool(false) ==> payload_text(Some(fields)) == Some("false"@),
        fields@[i].1 is Other ==> payload_text(Some(fields)) is None,
{
    lemma_first_field(fields@, "text"@, i);
}

/// Without a `text` field it is that of the first `message` field; without either
/// there is none.
pub proof fn message_field_comes_second(fields: Vec<(String, ProtoValue)>, i: int)
    requires
        0 <= i <= fields@.len(),
        forall|j: int| 0 <= j < fields@.len() ==> (#[trigger] fields@[j]).0@ != "text"@,
        forall|j: int| 0 <= j < i ==> (#[trigger] fields@[j]).0@ != "message"@,
        i < fields@.len() ==> fields@[i].0@ == "message"@,
    ensures
        i < fields@.len() ==> (fields@[i].1 matches ProtoValue::Text(s) ==> payload_text(
            Some(fields),
        ) == Some(s@)),
        i == fields@.len() ==> payload_text(Some(fields)) is None,
        payload_text(None) is None,
{
    lemma_first_field(fields@, "text"@, fields@.len() as int);
    lemma_first_field(fields@, "message"@, i);
}

/// Every text of the assistant is kept: each new one stands on a line of its own
/// behind those before it. Nothing else changes.
pub proof fn assistant_texts_pile_up(
    messages: Seq<RunMessage>,
    kind: String,
    message: Option<Vec<(String, ProtoValue)>>,
    shown: Seq<char>,
)
    requires
        kind@ == "assistant"@ || kind@ == "assistant_message"@,
        payload_text(message) == Some(shown),
    ensures
        ({
            let before = gathered(messages);
            let after = gathered(messages.push(RunMessage::Sdk { kind, message }));
            &&& before.assistant.len() == 0 ==> after.assistant == shown
            &&& before.assistant.len() > 0 ==> after.assistant == before.assistant + seq!['\n']
                + shown
            &&& after.status == before.status
            &&& after.run_id == before.run_id
            &&& after.error == before.error
        }),
{
    let m = RunMessage::Sdk { kind, message };
    assert(messages.push(m).drop_last() =~= messages);
    let before = gathered(messages);
    assert(before.assistant.push('\n') + shown =~= before.assistant + seq!['\n'] + shown);
}

/// The last status counts, and it changes nothing else.
pub proof fn last_status_counts(
    messages: Seq<RunMessage>,
    kind: String,
    message: Option<Vec<(String, ProtoValue)>>,
    shown: Seq<char>,
)
    requires
        kind@ == "status"@,
        payload_text(message) == Some(shown),
    ensures
        ({
            let before = gathered(messages);
            let after = gathered(messages.push(RunMessage::Sdk { kind, message }));
            &&& after.status == shown
            &&& after.assistant == before.assistant
            &&& after.run_id == before.run_id
            &&& after.error == before.error
        }),
{
    reveal_strlit("assistant");
    reveal_strlit("assistant_message");
    reveal_strlit("status");
    assert("assistant"@[0] != "status"@[0]);
    assert("assistant_message"@[0] != "status"@[0]);
    assert(messages.push(RunMessage::Sdk { kind, message }).drop_last() =~= messages);
}

/// A result brings its run id, its error code and its text, the last two only where
/// they are not empty; the end of a run brings its id where none is known. Before
/// any message there is nothing.
pub proof fn results_and_ends_are_gathered(messages: Seq<RunMessage>, m: RunMessage)
    ensures
        ({
            let before = gathered(messages);
            let after = gathered(messages.push(m));
            &&& m matches RunMessage::Result { run_id, error_code, result } ==> {
                &&& after.run_id == run_id@
                &&& after.status == before.status
                &&& (result matches Some(out) && out@.len() > 0) ==> after.assistant == result->0@
                &&& (result matches Some(out) ==> out@.len() == 0) ==> after.assistant
                    == before.assistant
                &&& (error_code matches Some(code) && code@.len() > 0) ==> after.error == Some(
                    error_code->0@,
                )
                &&& (error_code matches Some(code) ==> code@.len() == 0) ==> after.error
                    == before.error
            }
            &&& m matches RunMessage::Done { run_id } ==> {
                &&& before.run_id.len() == 0 ==> after.run_id == run_id@
                &&& before.run_id.len() > 0 ==> after.run_id == before.run_id
                &&& after.assistant == before.assistant
                &&& after.status == before.status
                &&& after.error == before.error
            }
        }),
        ({
            let none = gathered(Seq::empty());
            none.assistant.len() == 0 && none.status.len() == 0 && none.run_id.len() == 0
                && none.error is None
        }),
{
    reveal_strlit("");
    assert(messages.push(m).drop_last() =~= messages);
}

/// The result of a run holds what was gathered, field by field; only a run that is
/// known by its id and gave no text is waited for, under that id.
pub proof fn run_result_holds_what_was_gathered<
    W: FnOnce(&str) -> Result<String, CursorSdkError>,
>(s: RunState, wait_live_run: W, r: SendResult)
    requires
        run_result(s, wait_live_run, r),
    ensures
        r.run_id@ == s.run_id,
        r.status@ == s.status,
        text::opt_view(r.error) == s.error,
        s.assistant.len() > 0 || s.run_id.len() == 0 ==> r.text@ == s.assistant,
        s.assistant.len() == 0 && s.run_id.len() > 0 ==> exists|
            id: &str,
            waited: Result<String, CursorSdkError>,
        |
            {
                &&& id@ == s.run_id
                &&& #[trigger] wait_live_run.ensures((id,), waited)
                &&& waited matches Ok(out) ==> r.text@ == out@
                &&& waited is Err ==> r.text@.len() == 0
            },
{
    if s.assistant.len() == 0 && s.run_id.len() > 0 {
        let (id, waited) = choose|id: &str, waited: Result<String, CursorSdkError>|
            {
                &&& id@ == s.run_id
                &&& #[trigger] wait_live_run.ensures((id,), waited)
                &&& holds(
                    r,
                    match waited {
                        Ok(out) => RunState { assistant: out@, ..s },
                        Err(_) => s,
                    },
                )
            };
        assert(wait_live_run.ensures((id,), waited));
    }
}

}
