//! Bookmark names: the prompt that asks for one and the check of what comes
//! back.

use crate::claude_client::{read_required_text, required_text, ClaudeRequest};
use crate::config::Config;
use crate::json::{field_text, Json};
use crate::text::{
    char_is_digit, char_is_lower, chars_of, copy_strings, is_digit, is_lower, lemma_trim_idempotent,
    lower_text, replace_all, replace_in, split, split_on, string_of, texts, to_lowercase, trim,
    trimmed, views,
};
use vstd::prelude::*;

verus! {

/// The schema of the agent's reply: an object with the string `bookmark`.
pub const JSON_SCHEMA: &'static str =
    "{\"type\":\"object\",\"properties\":{\"bookmark\":{\"type\":\"string\",\"description\":\"Bookmark name: 2-6 lowercase words separated by hyphens, e.g. 'add-user-auth'\"}},\"required\":[\"bookmark\"]}";

/// What the progress indicator says while a name is generated.
pub const SPINNER_MESSAGE: &'static str = "Generating bookmark name...";

/// The placeholder of the prompt template.
pub const SUMMARIES_PLACEHOLDER: &'static str = "{commit_summaries}";

/// Fewest segments of a bookmark name.
pub const MIN_SEGMENTS: usize = 2;

/// Most segments of a bookmark name.
pub const MAX_SEGMENTS: usize = 6;

/// Asks the agent for bookmark names.
pub struct BookmarkGenerator {
    prompt_template: String,
    command: String,
    args: Vec<String>,
    model: String,
}

/// The model of `BookmarkGenerator`.
pub struct BookmarkGeneratorModel {
    pub prompt_template: Seq<char>,
    pub command: Seq<char>,
    pub args: Seq<Seq<char>>,
    pub model: Seq<char>,
}

impl View for BookmarkGenerator {
    type V = BookmarkGeneratorModel;

    closed spec fn view(&self) -> BookmarkGeneratorModel {
        BookmarkGeneratorModel {
            prompt_template: self.prompt_template@,
            command: self.command@,
            args: texts(self.args@),
            model: self.model@,
        }
    }
}

/// Whether `segment` is a word of a bookmark name: a letter, then letters
/// and digits.
pub open spec fn is_segment(segment: Seq<char>) -> bool {
    &&& segment.len() >= 1
    &&& is_lower(segment[0])
    &&& forall|i: int| 0 <= i < segment.len() ==> is_lower(segment[i]) || is_digit(segment[i])
}

/// Whether `name` is a bookmark name: two to six words joined by single
/// hyphens.
pub open spec fn is_bookmark_name(name: Seq<char>) -> bool {
    let segments = split_on(name, '-');
    &&& MIN_SEGMENTS <= segments.len() <= MAX_SEGMENTS
    &&& forall|i: int| 0 <= i < segments.len() ==> is_segment(#[trigger] segments[i])
}

/// What becomes of a candidate name: it is trimmed and lower-cased, and then
/// it is the name if it is well formed, and nothing at all if it is not.
pub open spec fn validated_bookmark(candidate: Seq<char>) -> Option<Seq<char>> {
    let name = lower_text(trim(candidate));
    if is_bookmark_name(name) {
        Some(name)
    } else {
        None
    }
}

/// The bookmark name that a reply yields.
pub open spec fn bookmark_for(reply: Option<Json>) -> Option<Seq<char>> {
    match reply {
        None => None,
        Some(payload) => match required_text(payload, "bookmark"@) {
            None => None,
            Some(candidate) => validated_bookmark(candidate),
        },
    }
}

/// Trimming twice is trimming once: a payload whose member `bookmark` holds
/// text that is not blank yields the name that this text yields.
pub proof fn lemma_bookmark_of_payload(payload: Json)
    requires
        trim(field_text(payload, "bookmark"@)).len() > 0,
    ensures
        bookmark_for(Some(payload)) == validated_bookmark(field_text(payload, "bookmark"@)),
{
    lemma_trim_idempotent(field_text(payload, "bookmark"@));
}

/// Whether `segment` is a word of a bookmark name.
fn check_segment(segment: &[char]) -> (ok: bool)
    ensures
        ok == is_segment(segment@),
{
    if segment.len() == 0 || !char_is_lower(segment[0]) {
        return false;
    }
    let mut i: usize = 1;
    while i < segment.len()
        invariant
            1 <= i <= segment.len(),
            is_lower(segment@[0]),
            forall|k: int| 0 <= k < i ==> is_lower(segment@[k]) || is_digit(segment@[k]),
        decreases segment.len() - i,
    {
        if !char_is_lower(segment[i]) && !char_is_digit(segment[i]) {
            return false;
        }
        i += 1;
    }
    true
}

/// Whether `name` is a well-formed bookmark name, as it stands.
pub fn is_valid_bookmark(name: &str) -> (ok: bool)
    ensures
        ok == is_bookmark_name(name@),
{
    let chars = chars_of(name);
    let segments = split(chars.as_slice(), '-');
    assert(views(segments@).len() == segments@.len());
    if segments.len() < MIN_SEGMENTS || segments.len() > MAX_SEGMENTS {
        return false;
    }
    let mut i: usize = 0;
    while i < segments.len()
        invariant
            i <= segments.len(),
            views(segments@) == split_on(name@, '-'),
            forall|k: int| 0 <= k < i ==> is_segment(#[trigger] views(segments@)[k]),
        decreases segments.len() - i,
    {
        assert(segments@[i as int]@ == views(segments@)[i as int]);
        if !check_segment(segments[i].as_slice()) {
            return false;
        }
        i += 1;
    }
    true
}

/// Trims and lower-cases a candidate name and checks the result.
pub fn validate_bookmark(candidate: &str) -> (name: Option<String>)
    ensures
        match name {
            Some(n) => validated_bookmark(candidate@) == Some(n@),
            None => validated_bookmark(candidate@) is None,
        },
{
    let chars = chars_of(candidate);
    let kept = trimmed(chars.as_slice());
    let kept_text = string_of(kept.as_slice());
    let lower = to_lowercase(kept_text.as_str());
    if is_valid_bookmark(lower.as_str()) {
        Some(lower)
    } else {
        None
    }
}

impl BookmarkGenerator {
    /// A generator that asks `model`, set up from `config`.
    pub fn new(model: &str, config: &Config) -> (generator: BookmarkGenerator)
        ensures
            generator@ == (BookmarkGeneratorModel {
                prompt_template: config.bookmark.prompt_template@,
                command: config.generator.command@,
                args: texts(config.generator.args@),
                model: model@,
            }),
    {
        BookmarkGenerator {
            prompt_template: config.bookmark.prompt_template.clone(),
            command: config.generator.command.clone(),
            args: copy_strings(config.generator.args.as_slice()),
            model: model.to_owned(),
        }
    }

    /// The prompt: the template with the commit summaries in their place.
    pub fn prompt(&self, commit_summaries: &str) -> (prompt: String)
        ensures
            prompt@ == replace_all(
                self@.prompt_template,
                SUMMARIES_PLACEHOLDER@,
                commit_summaries@,
            ),
    {
        replace_in(self.prompt_template.as_str(), SUMMARIES_PLACEHOLDER, commit_summaries)
    }

    /// The invocation that sends `prompt` to the agent.
    pub fn request<'a>(&'a self, prompt: &'a str) -> (request: ClaudeRequest<'a>)
        ensures
            request.command@ == self@.command,
            texts(request.args@) == self@.args,
            request.model@ == self@.model,
            request.json_schema@ == JSON_SCHEMA@,
            request.prompt@ == prompt@,
            request.spinner_message@ == SPINNER_MESSAGE@,
    {
        ClaudeRequest {
            command: self.command.as_str(),
            args: self.args.as_slice(),
            model: self.model.as_str(),
            json_schema: JSON_SCHEMA,
            prompt,
            spinner_message: SPINNER_MESSAGE,
        }
    }

    /// The bookmark name that the agent's reply yields: the text of the
    /// member `bookmark`, trimmed and lower-cased, if it is a well-formed
    /// name. A reply without it, or with a malformed one, yields nothing.
    pub fn generate(&self, reply: Option<Json>) -> (name: Option<String>)
        ensures
            match name {
                Some(n) => bookmark_for(reply) == Some(n@),
                None => bookmark_for(reply) is None,
            },
    {
        match reply {
            None => None,
            Some(payload) => match read_required_text(&payload, "bookmark") {
                None => None,
                Some(candidate) => validate_bookmark(candidate.as_str()),
            },
        }
    }
}

} // verus!
