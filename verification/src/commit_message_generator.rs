//! Commit messages: the prompt that asks for one and the check of what comes
//! back.

use crate::budget::{
    budget_check, byte_len, check_aggregate_budget, BudgetExceeded,
};
use crate::claude_client::{read_required_text, required_text, ClaudeRequest};
use crate::config::Config;
use crate::json::Json;
use crate::text::{
    char_is_lower, chars_of, copy_strings, differs_from, find_char, is_lower, lemma_prefix_run_is,
    lines, lines_of, lower_letters, prefix_run, replace_all, replace_in, texts, trim, trimmed,
    views,
};
use vstd::prelude::*;
use vstd::string::StringExecFns;

verus! {

/// The schema of the agent's reply: an object with the string `message`.
pub const JSON_SCHEMA: &'static str =
    "{\"type\":\"object\",\"properties\":{\"message\":{\"type\":\"string\",\"description\":\"Commit message: a conventional commit title, optionally followed by a blank line and a body\"}},\"required\":[\"message\"]}";

/// What the progress indicator says while a message is generated.
pub const SPINNER_MESSAGE: &'static str = "Generating commit message...";

/// The placeholder for the language in the prompt template.
pub const LANGUAGE_PLACEHOLDER: &'static str = "{language}";

/// The placeholder for the diff in the prompt template.
pub const DIFF_PLACEHOLDER: &'static str = "{diff_content}";

/// The collapse patterns of `config`.
pub fn collapse_patterns(config: &Config) -> (patterns: &[String])
    ensures
        patterns@ == config.diff.collapse_patterns@,
{
    config.diff.collapse_patterns.as_slice()
}

/// The most lines of one file that `config` lets through.
pub fn max_diff_lines(config: &Config) -> (limit: usize)
    ensures
        limit == config.diff.max_diff_lines,
{
    config.diff.max_diff_lines
}

/// The most bytes of one file that `config` lets through.
pub fn max_diff_bytes(config: &Config) -> (limit: usize)
    ensures
        limit == config.diff.max_diff_bytes,
{
    config.diff.max_diff_bytes
}

/// Asks the agent for commit messages.
pub struct CommitMessageGenerator {
    prompt_template: String,
    command: String,
    args: Vec<String>,
    language: String,
    model: String,
    default_commit_message: String,
}

/// The model of `CommitMessageGenerator`.
pub struct CommitMessageGeneratorModel {
    pub prompt_template: Seq<char>,
    pub command: Seq<char>,
    pub args: Seq<Seq<char>>,
    pub language: Seq<char>,
    pub model: Seq<char>,
    pub default_commit_message: Seq<char>,
}

impl View for CommitMessageGenerator {
    type V = CommitMessageGeneratorModel;

    closed spec fn view(&self) -> CommitMessageGeneratorModel {
        CommitMessageGeneratorModel {
            prompt_template: self.prompt_template@,
            command: self.command@,
            args: texts(self.args@),
            language: self.language@,
            model: self.model@,
            default_commit_message: self.default_commit_message@,
        }
    }
}

/// The prompt: the template with the language and then the diff in their
/// places.
pub open spec fn prompt_text(template: Seq<char>, language: Seq<char>, diff: Seq<char>) -> Seq<char> {
    replace_all(replace_all(template, LANGUAGE_PLACEHOLDER@, language), DIFF_PLACEHOLDER@, diff)
}

/// What stands before the agent is asked: the prompt for a diff within the
/// aggregate budget; for a diff over it, the excess and no prompt.
pub open spec fn prompt_or_excess(
    template: Seq<char>,
    language: Seq<char>,
    diff: Seq<char>,
    max_total_lines: usize,
    max_total_bytes: usize,
) -> Result<Seq<char>, BudgetExceeded> {
    match budget_check(diff, max_total_lines, max_total_bytes) {
        Err(excess) => Err(excess),
        Ok(_) => Ok(prompt_text(template, language, diff)),
    }
}

/// A diff of one line more than allowed gets no prompt, so that no agent is
/// asked about it.
pub proof fn lemma_no_prompt_over_the_line_limit(
    template: Seq<char>,
    language: Seq<char>,
    diff: Seq<char>,
    max_total_lines: usize,
    max_total_bytes: usize,
)
    requires
        lines_of(diff).len() == max_total_lines + 1,
    ensures
        prompt_or_excess(template, language, diff, max_total_lines, max_total_bytes) is Err,
{
}

/// A diff of exactly the allowed number of lines gets its prompt, as long as
/// its bytes are within their limit.
pub proof fn lemma_prompt_at_the_line_limit(
    template: Seq<char>,
    language: Seq<char>,
    diff: Seq<char>,
    max_total_lines: usize,
    max_total_bytes: usize,
)
    requires
        lines_of(diff).len() == max_total_lines,
        byte_len(diff) <= max_total_bytes,
    ensures
        prompt_or_excess(template, language, diff, max_total_lines, max_total_bytes) == Ok::<
            Seq<char>,
            BudgetExceeded,
        >(prompt_text(template, language, diff)),
{
}

/// Number of letters `a` to `z` at the start of `s`.
pub open spec fn type_len(s: Seq<char>) -> nat {
    prefix_run(s, lower_letters())
}

/// Number of characters at the start of `s` that are no closing bracket.
pub open spec fn scope_len(s: Seq<char>) -> nat {
    find_char(s, ')')
}

/// Where the title goes on behind a scope that may stand at `at`. Without an
/// opening bracket at `at` there is no scope, and the title goes on at `at`.
/// With one, a scope must follow: one or more characters that are no closing
/// bracket, then the closing bracket.
pub open spec fn after_scope(s: Seq<char>, at: int) -> Option<int> {
    if 0 <= at < s.len() && s[at] == '(' {
        let inner = scope_len(s.skip(at + 1));
        if inner >= 1 && at + 1 + inner < s.len() {
            Some(at + 1 + inner + 1)
        } else {
            None
        }
    } else {
        Some(at)
    }
}

/// Where the title goes on behind an exclamation mark that may stand at `at`.
pub open spec fn after_bang(s: Seq<char>, at: int) -> int {
    if 0 <= at < s.len() && s[at] == '!' {
        at + 1
    } else {
        at
    }
}

/// Whether a colon stands at `at`, then a space, then a character that is no
/// line feed.
pub open spec fn has_separator(s: Seq<char>, at: int) -> bool {
    &&& 0 <= at
    &&& at + 2 < s.len()
    &&& s[at] == ':'
    &&& s[at + 1] == ' '
    &&& s[at + 2] != '\n'
}

/// Whether `line` begins like the title of a conventional commit: a type of
/// one or more letters `a` to `z`, an optional scope in round brackets, an
/// optional exclamation mark, a colon, a space and a description.
pub open spec fn is_conventional_title(line: Seq<char>) -> bool {
    let kind = type_len(line);
    kind >= 1 && match after_scope(line, kind as int) {
        None => false,
        Some(at) => has_separator(line, after_bang(line, at)),
    }
}

/// The first line of `message`; empty where it has no line.
pub open spec fn first_line(message: Seq<char>) -> Seq<char> {
    let all = lines_of(message);
    if all.len() > 0 {
        all[0]
    } else {
        Seq::empty()
    }
}

/// What becomes of a generated message. One whose first line, trimmed, is a
/// conventional title stays as it is. Any other is kept too, behind the
/// default message and an empty line.
pub open spec fn commit_message_for(message: Seq<char>, default_message: Seq<char>) -> Seq<char> {
    if is_conventional_title(trim(first_line(message))) {
        message
    } else {
        default_message + "\n\n"@ + message
    }
}

/// The commit message that a reply yields.
pub open spec fn message_for(reply: Option<Json>, default_message: Seq<char>) -> Option<Seq<char>> {
    match reply {
        None => None,
        Some(payload) => match required_text(payload, "message"@) {
            None => None,
            Some(message) => Some(commit_message_for(message, default_message)),
        },
    }
}

/// A generated message is never lost. A well-formed one comes back unchanged;
/// any other comes back whole, at the end of the result, behind the default
/// message.
pub proof fn lemma_message_is_kept(message: Seq<char>, default_message: Seq<char>)
    ensures
        ({
            let result = commit_message_for(message, default_message);
            &&& is_conventional_title(trim(first_line(message))) ==> result == message
            &&& !is_conventional_title(trim(first_line(message))) ==> result == default_message
                + "\n\n"@ + message
            &&& result.len() >= message.len()
            &&& result.subrange(result.len() - message.len(), result.len() as int) == message
            &&& !is_conventional_title(trim(first_line(message))) ==> result.subrange(
                0,
                default_message.len() as int,
            ) == default_message
        }),
{
}

/// Whether `line` begins like the title of a conventional commit.
pub fn is_conventional_commit(line: &str) -> (ok: bool)
    ensures
        ok == is_conventional_title(line@),
{
    let chars = chars_of(line);
    check_title(chars.as_slice())
}

/// Whether `s` begins like the title of a conventional commit.
fn check_title(s: &[char]) -> (ok: bool)
    ensures
        ok == is_conventional_title(s@),
{
    let n = s.len();
    let mut kind: usize = 0;
    while kind < n && char_is_lower(s[kind])
        invariant
            kind <= n == s@.len(),
            forall|k: int| 0 <= k < kind ==> is_lower(s@[k]),
        decreases n - kind,
    {
        kind += 1;
    }
    proof {
        lemma_prefix_run_is(s@, lower_letters(), kind as int);
    }
    if kind == 0 {
        return false;
    }
    let mut at: usize = kind;
    if at < n && s[at] == '(' {
        let mut close: usize = at + 1;
        while close < n && s[close] != ')'
            invariant
                at + 1 <= close <= n == s@.len(),
                forall|k: int| at + 1 <= k < close ==> s@[k] != ')',
            decreases n - close,
        {
            close += 1;
        }
        proof {
            let rest = s@.skip(at + 1);
            assert forall|k: int| 0 <= k < close - (at + 1) implies rest[k] != ')' by {
                assert(rest[k] == s@[k + at + 1]);
            }
            lemma_prefix_run_is(rest, differs_from(')'), close - (at + 1));
        }
        if close == at + 1 || close >= n {
            return false;
        }
        at = close + 1;
    }
    assert(after_scope(s@, kind as int) == Some(at as int));
    if at < n && s[at] == '!' {
        at += 1;
    }
    if n < 3 || at > n - 3 {
        return false;
    }
    s[at] == ':' && s[at + 1] == ' ' && s[at + 2] != '\n'
}

/// Keeps a well-formed message and puts the default message in front of any
/// other.
pub fn validate_commit_message(message: &str, default_message: &str) -> (result: String)
    ensures
        result@ == commit_message_for(message@, default_message@),
{
    let chars = chars_of(message);
    let all = lines(chars.as_slice());
    assert(views(all@).len() == all@.len());
    let first: Vec<char> = if all.len() > 0 {
        assert(all@[0]@ == views(all@)[0]);
        trimmed(all[0].as_slice())
    } else {
        let empty: Vec<char> = Vec::new();
        trimmed(empty.as_slice())
    };
    assert(first@ == trim(first_line(message@)));
    if check_title(first.as_slice()) {
        message.to_owned()
    } else {
        let mut result = String::new();
        result.append(default_message);
        result.append("\n\n");
        result.append(message);
        result
    }
}

impl CommitMessageGenerator {
    /// A generator that asks `model` for messages in `language`, set up from
    /// `config`.
    pub fn new(language: &str, model: &str, config: &Config) -> (generator: CommitMessageGenerator)
        ensures
            generator@ == (CommitMessageGeneratorModel {
                prompt_template: config.prompt.template@,
                command: config.generator.command@,
                args: texts(config.generator.args@),
                language: language@,
                model: model@,
                default_commit_message: config.generator.default_commit_message@,
            }),
    {
        CommitMessageGenerator {
            prompt_template: config.prompt.template.clone(),
            command: config.generator.command.clone(),
            args: copy_strings(config.generator.args.as_slice()),
            language: language.to_owned(),
            model: model.to_owned(),
            default_commit_message: config.generator.default_commit_message.clone(),
        }
    }

    /// The generator for English messages from the model `haiku`.
    pub fn with_defaults(config: &Config) -> (generator: CommitMessageGenerator)
        ensures
            generator@ == (CommitMessageGeneratorModel {
                prompt_template: config.prompt.template@,
                command: config.generator.command@,
                args: texts(config.generator.args@),
                language: "English"@,
                model: "haiku"@,
                default_commit_message: config.generator.default_commit_message@,
            }),
    {
        CommitMessageGenerator::new("English", "haiku", config)
    }

    /// The prompt: the template with the language and then the diff in their
    /// places.
    pub fn prompt(&self, diff_content: &str) -> (prompt: String)
        ensures
            prompt@ == prompt_text(self@.prompt_template, self@.language, diff_content@),
    {
        let with_language = replace_in(
            self.prompt_template.as_str(),
            LANGUAGE_PLACEHOLDER,
            self.language.as_str(),
        );
        replace_in(with_language.as_str(), DIFF_PLACEHOLDER, diff_content)
    }

    /// The prompt for `diff_content`, unless the diff is over the aggregate
    /// budget: then generation is refused, and there is nothing to send to
    /// the agent.
    pub fn prompt_within_budget(
        &self,
        diff_content: &str,
        max_total_lines: usize,
        max_total_bytes: usize,
    ) -> (checked: Result<String, BudgetExceeded>)
        ensures
            match checked {
                Ok(prompt) => prompt_or_excess(
                    self@.prompt_template,
                    self@.language,
                    diff_content@,
                    max_total_lines,
                    max_total_bytes,
                ) == Ok::<Seq<char>, BudgetExceeded>(prompt@),
                Err(excess) => prompt_or_excess(
                    self@.prompt_template,
                    self@.language,
                    diff_content@,
                    max_total_lines,
                    max_total_bytes,
                ) == Err::<Seq<char>, BudgetExceeded>(excess),
            },
    {
        match check_aggregate_budget(diff_content, max_total_lines, max_total_bytes) {
            Err(excess) => Err(excess),
            Ok(_) => Ok(self.prompt(diff_content)),
        }
    }

    /// The invocation that sends `prompt` to the agent.
    pub fn request<'a>(&'a self, prompt: &'a str) -> (request: ClaudeRequest<'a>)
        ensures
            request.command@ == self@.command,
            texts(request.args@) == self@.args,
            request.model@ == self@.model,
            request.json_schema@ == JSON_SCHEMA@,
            request.prompt@ == prompt@,
            request.spinner_message@ == SPINNER_MESSAGE@,
    {
        ClaudeRequest {
            command: self.command.as_str(),
            args: self.args.as_slice(),
            model: self.model.as_str(),
            json_schema: JSON_SCHEMA,
            prompt,
            spinner_message: SPINNER_MESSAGE,
        }
    }

    /// The commit message that the agent's reply yields: the trimmed text of
    /// the member `message`, as it is where its first line is a conventional
    /// title, else behind the default message. A reply without that text
    /// yields nothing.
    pub fn generate(&self, reply: Option<Json>) -> (message: Option<String>)
        ensures
            match message {
                Some(m) => message_for(reply, self@.default_commit_message) == Some(m@),
                None => message_for(reply, self@.default_commit_message) is None,
            },
    {
        match reply {
            None => None,
            Some(payload) => match read_required_text(&payload, "message") {
                None => None,
                Some(message) => Some(
                    validate_commit_message(
                        message.as_str(),
                        self.default_commit_message.as_str(),
                    ),
                ),
            },
        }
    }
}

} // verus!
