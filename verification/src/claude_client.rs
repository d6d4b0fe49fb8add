//! The contract with the generative agent: how it is invoked and how its
//! reply is read.
//!
//! Running the agent is the caller's part. This module says which arguments
//! the process gets and turns what the process printed into the structured
//! payload, or into nothing.

use crate::json::{field_of, field_text, parse_json, parsed_json, text_of, Json};
use crate::text::{chars_of, decode_lossy, lossy_text, string_of, texts, trim, trimmed};
use vstd::prelude::*;

verus! {

/// One invocation of the agent.
pub struct ClaudeRequest<'a> {
    /// The executable.
    pub command: &'a str,
    /// Its base arguments.
    pub args: &'a [String],
    /// The model to ask.
    pub model: &'a str,
    /// The JSON schema of the reply.
    pub json_schema: &'a str,
    /// The prompt, which goes to standard input and never on the command line.
    pub prompt: &'a str,
    /// What the progress indicator says while the agent runs.
    pub spinner_message: &'a str,
}

/// What a finished process left behind.
#[derive(Debug, PartialEq, Eq)]
pub struct ProcessOutput {
    /// The exit code; `None` where the process was ended by a signal.
    pub exit_code: Option<i32>,
    /// What the process wrote to standard output.
    pub stdout: Vec<u8>,
}

/// What a reply amounts to.
#[derive(Debug, PartialEq, Eq)]
pub enum Reply {
    /// The process did not exit with success.
    ProcessFailed,
    /// Standard output was no JSON.
    Unparsable,
    /// The JSON has no structured output.
    MissingStructuredOutput,
    /// The structured output.
    Structured(Json),
}

/// The arguments of the process: the base arguments, then the model and the
/// schema behind their flags.
pub open spec fn command_line(args: Seq<Seq<char>>, model: Seq<char>, schema: Seq<char>) -> Seq<
    Seq<char>,
> {
    args + seq!["--model"@, model, "--json-schema"@, schema]
}

/// Whether `event` is an object whose member `type` is the string `result`.
pub open spec fn is_result_event(event: Json) -> bool {
    match field_of(event, "type"@) {
        Some(kind) => text_of(kind) == Some("result"@),
        None => false,
    }
}

/// Index of the last result event in `events`, or -1 when there is none.
pub open spec fn last_result(events: Seq<Json>) -> int
    decreases events.len(),
{
    if events.len() == 0 {
        -1
    } else if is_result_event(events.last()) {
        events.len() - 1
    } else {
        last_result(events.drop_last())
    }
}

/// The structured output of a reply. An array is a list of events: its last
/// result event counts, and there is no output where that event has none or
/// where there is no such event. Anything else counts by itself.
pub open spec fn structured_output_of(doc: Json) -> Option<Json> {
    match doc {
        Json::Array(events) => {
            let i = last_result(events@);
            if i >= 0 {
                field_of(events@[i], "structured_output"@)
            } else {
                None
            }
        },
        _ => field_of(doc, "structured_output"@),
    }
}

/// Whether an exit code means success.
pub open spec fn exit_success(exit_code: Option<i32>) -> bool {
    exit_code == Some(0i32)
}

/// What a reply amounts to, given the exit code and what was parsed from
/// standard output.
pub open spec fn reply_of(exit_code: Option<i32>, doc: Option<Json>) -> Reply {
    if !exit_success(exit_code) {
        Reply::ProcessFailed
    } else {
        match doc {
            None => Reply::Unparsable,
            Some(json) => match structured_output_of(json) {
                None => Reply::MissingStructuredOutput,
                Some(payload) => Reply::Structured(payload),
            },
        }
    }
}

/// The payload of a reply, if it has one.
pub open spec fn payload_of(reply: Reply) -> Option<Json> {
    match reply {
        Reply::Structured(payload) => Some(payload),
        _ => None,
    }
}

/// The trimmed text of the member `field` of a payload. A member that is
/// missing, no string or blank counts as no text at all.
pub open spec fn required_text(payload: Json, field: Seq<char>) -> Option<Seq<char>> {
    let text = trim(field_text(payload, field));
    if text.len() == 0 {
        None
    } else {
        Some(text)
    }
}

/// What a finished process amounts to. Standard output counts only where
/// the process exited with success; it is decoded leniently and parsed.
pub open spec fn outcome_of(output: ProcessOutput) -> Reply {
    reply_of(
        output.exit_code,
        if exit_success(output.exit_code) {
            parsed_json(lossy_text(output.stdout@))
        } else {
            None
        },
    )
}

/// A process that did not exit with code 0 yields nothing, whatever it wrote.
pub proof fn lemma_failed_process_yields_nothing(output: ProcessOutput)
    requires
        output.exit_code != Some(0i32),
    ensures
        outcome_of(output) == Reply::ProcessFailed,
        payload_of(outcome_of(output)) is None,
{
}

/// The arguments for the agent's process.
pub fn command_arguments(request: &ClaudeRequest<'_>) -> (argv: Vec<String>)
    ensures
        texts(argv@) == command_line(
            texts(request.args@),
            request.model@,
            request.json_schema@,
        ),
{
    let mut argv: Vec<String> = Vec::new();
    let mut i: usize = 0;
    while i < request.args.len()
        invariant
            i <= request.args.len(),
            argv@.len() == i,
            texts(argv@) == texts(request.args@).take(i as int),
        decreases request.args.len() - i,
    {
        let arg = request.args[i].clone();
        assert(texts(argv@.push(arg)) =~= texts(request.args@).take(i + 1)) by {
            let next = texts(argv@.push(arg));
            let goal = texts(request.args@).take(i + 1);
            assert forall|k: int| 0 <= k < next.len() implies next[k] == goal[k] by {
                if k < i {
                    assert(next[k] == texts(argv@)[k]);
                }
            }
        }
        argv.push(arg);
        i += 1;
    }
    assert(texts(request.args@).take(request.args.len() as int) == texts(request.args@));
    let ghost base = argv@;
    argv.push("--model".to_owned());
    argv.push(request.model.to_owned());
    argv.push("--json-schema".to_owned());
    argv.push(request.json_schema.to_owned());
    assert(texts(argv@) == texts(base) + seq![
        "--model"@,
        request.model@,
        "--json-schema"@,
        request.json_schema@,
    ]);
    argv
}

/// Whether `event` is a result event.
pub fn check_result_event(event: &Json) -> (is_result: bool)
    ensures
        is_result == is_result_event(*event),
{
    match event.field("type") {
        Some(kind) => match kind.as_text() {
            Some(text) => {
                let wanted = "result".to_owned();
                let found = text.to_owned();
                found == wanted
            },
            None => false,
        },
        None => false,
    }
}

/// Takes the structured output out of a parsed reply.
pub fn extract_structured_output(doc: Json) -> (payload: Option<Json>)
    ensures
        payload == structured_output_of(doc),
{
    match doc {
        Json::Array(mut events) => {
            let ghost all = events@;
            assert(all.take(all.len() as int) == all);
            while events.len() > 0
                invariant
                    doc matches Json::Array(given) && given@ == all,
                    events@ == all.take(events@.len() as int),
                    events@.len() <= all.len(),
                    last_result(all) == last_result(events@),
                decreases events@.len(),
            {
                let ghost before = events@;
                let event = events.pop().unwrap();
                assert(events@ == before.drop_last());
                if check_result_event(&event) {
                    assert(last_result(all) == before.len() - 1);
                    assert(all[before.len() - 1] == event);
                    return event.into_field("structured_output");
                }
            }
            None
        },
        other => other.into_field("structured_output"),
    }
}

/// What a reply amounts to, given the exit code and what was parsed from
/// standard output.
pub fn classify_reply(exit_code: Option<i32>, doc: Option<Json>) -> (reply: Reply)
    ensures
        reply == reply_of(exit_code, doc),
{
    let success = match exit_code {
        Some(code) => code == 0,
        None => false,
    };
    if !success {
        Reply::ProcessFailed
    } else {
        match doc {
            None => Reply::Unparsable,
            Some(json) => match extract_structured_output(json) {
                None => Reply::MissingStructuredOutput,
                Some(payload) => Reply::Structured(payload),
            },
        }
    }
}

/// Parses the agent's standard output and takes the structured output out.
pub fn parse_structured_output(raw_output: &str) -> (payload: Option<Json>)
    ensures
        payload == match parsed_json(raw_output@) {
            Some(doc) => structured_output_of(doc),
            None => None,
        },
{
    match parse_json(raw_output) {
        Some(doc) => extract_structured_output(doc),
        None => None,
    }
}

/// Reads what a finished process left behind. Standard output is not even
/// looked at where the process failed.
pub fn read_reply(output: &ProcessOutput) -> (reply: Reply)
    ensures
        reply == outcome_of(*output),
{
    let success = match output.exit_code {
        Some(code) => code == 0,
        None => false,
    };
    if !success {
        Reply::ProcessFailed
    } else {
        let raw_output = decode_lossy(output.stdout.as_slice());
        classify_reply(output.exit_code, parse_json(raw_output.as_str()))
    }
}

/// The structured output that a finished process yields, if any.
pub fn interpret_output(output: &ProcessOutput) -> (payload: Option<Json>)
    ensures
        payload == payload_of(outcome_of(*output)),
{
    match read_reply(output) {
        Reply::Structured(payload) => Some(payload),
        _ => None,
    }
}

/// Reads the text of a required member of a payload.
pub fn read_required_text(payload: &Json, field: &str) -> (text: Option<String>)
    ensures
        match text {
            Some(t) => required_text(*payload, field@) == Some(t@),
            None => required_text(*payload, field@) is None,
        },
{
    let raw: Vec<char> = match payload.field(field) {
        Some(value) => match value.as_text() {
            Some(t) => chars_of(t),
            None => Vec::new(),
        },
        None => Vec::new(),
    };
    assert(raw@ == field_text(*payload, field@));
    let text = trimmed(raw.as_slice());
    if text.len() == 0 {
        None
    } else {
        Some(string_of(text.as_slice()))
    }
}

} // verus!
