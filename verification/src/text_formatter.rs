//! Line wrapping with list-aware hanging indents.
//!
//! Every line of a text is wrapped by itself. A line that starts a list item
//! continues under the item's text, not under its marker.

use crate::text::{
    char_is_digit, chars_of, copy_range, digits, is_digit, join, join_lines, leading_space,
    lemma_prefix_run_is, lines, lines_of, prefix_run, string_of, texts, trim, trim_bounds,
    trim_start, views,
};
use vstd::prelude::*;
use vstd::string::StringExecFns;

verus! {

/// The lines that `textwrap::wrap` makes of `text` at `width` columns, with
/// `initial_indent` before the first and `subsequent_indent` before the
/// others.
pub uninterp spec fn wrapped_lines(
    text: Seq<char>,
    width: nat,
    initial_indent: Seq<char>,
    subsequent_indent: Seq<char>,
) -> Seq<Seq<char>>;

/// `n` spaces.
pub open spec fn spaces(n: nat) -> Seq<char> {
    Seq::new(n, |i: int| ' ')
}

/// Number of digits at the start of `s`.
pub open spec fn digit_run(s: Seq<char>) -> nat {
    prefix_run(s, digits())
}

/// Whether `line` starts a bullet item: a hyphen or an asterisk, then a space.
pub open spec fn is_bullet_item(line: Seq<char>) -> bool {
    line.len() >= 2 && (line[0] == '-' || line[0] == '*') && line[1] == ' '
}

/// Whether `line` starts a numbered item: one or more digits, a full stop and
/// a space.
pub open spec fn is_numbered_item(line: Seq<char>) -> bool {
    let run = digit_run(line) as int;
    run >= 1 && run + 1 < line.len() && line[run] == '.' && line[run + 1] == ' '
}

/// How far the lines that continue `line` are indented: by the width of the
/// list marker, which for a number of more than three digits counts as six;
/// not at all where `line` starts no list item.
pub open spec fn list_indent_width(line: Seq<char>) -> nat {
    if is_bullet_item(line) {
        2
    } else if is_numbered_item(line) {
        if digit_run(line) <= 3 {
            digit_run(line) + 2
        } else {
            6
        }
    } else {
        0
    }
}

/// One line, wrapped. A blank line stays as it is. Any other keeps its
/// leading white space as the indent of every line it is wrapped into, and the
/// lines behind the first get the list indent on top of that.
pub open spec fn formatted_line(line: Seq<char>, width: nat) -> Seq<char> {
    if trim(line).len() == 0 {
        line
    } else {
        let lead = line.take(leading_space(line) as int);
        let body = trim_start(line);
        join(
            wrapped_lines(body, width, lead, lead + spaces(list_indent_width(body))),
            seq!['\n'],
        )
    }
}

/// Every line of `lines`, wrapped.
pub open spec fn formatted_lines(lines: Seq<Seq<char>>, width: nat) -> Seq<Seq<char>> {
    Seq::new(lines.len(), |i: int| formatted_line(lines[i], width))
}

/// A text, wrapped line by line.
pub open spec fn formatted_text(text: Seq<char>, width: nat) -> Seq<char> {
    join(formatted_lines(lines_of(text), width), seq!['\n'])
}

/// Wraps `text` with `textwrap::wrap`, under `textwrap::Options::new(width)`
/// with the two indents. No terminal is asked for a width, so the result is
/// a function of the arguments; it is known here only by its name.
#[verifier::external_body]
fn wrap_line(text: &str, width: usize, initial_indent: &str, subsequent_indent: &str) -> (wrapped:
    Vec<String>)
    ensures
        texts(wrapped@) == wrapped_lines(text@, width as nat, initial_indent@, subsequent_indent@),
{
    let options = textwrap::Options::new(width).initial_indent(initial_indent).subsequent_indent(
        subsequent_indent,
    );
    textwrap::wrap(text, options).into_iter().map(|line| line.into_owned()).collect()
}

/// The indent for the lines that continue `line`, which may start a list
/// item.
pub fn detect_list_indent(line: &str) -> (indent: &'static str)
    ensures
        indent@ == spaces(list_indent_width(line@)),
{
    let s = chars_of(line);
    let n = s.len();
    proof {
        reveal_strlit("");
        reveal_strlit("  ");
        reveal_strlit("   ");
        reveal_strlit("    ");
        reveal_strlit("     ");
        reveal_strlit("      ");
        assert(""@ =~= spaces(0));
        assert("  "@ =~= spaces(2));
        assert("   "@ =~= spaces(3));
        assert("    "@ =~= spaces(4));
        assert("     "@ =~= spaces(5));
        assert("      "@ =~= spaces(6));
    }
    if n >= 2 && (s[0] == '-' || s[0] == '*') && s[1] == ' ' {
        return "  ";
    }
    let mut count: usize = 0;
    while count < n && char_is_digit(s[count])
        invariant
            count <= n == s@.len(),
            forall|k: int| 0 <= k < count ==> is_digit(s@[k]),
        decreases n - count,
    {
        count += 1;
    }
    proof {
        lemma_prefix_run_is(s@, digits(), count as int);
    }
    if count >= 1 && n - count >= 2 && s[count] == '.' && s[count + 1] == ' ' {
        if count == 1 {
            "   "
        } else if count == 2 {
            "    "
        } else if count == 3 {
            "     "
        } else {
            "      "
        }
    } else {
        ""
    }
}

/// Wraps one line at `width` columns.
pub fn format_line(line: &str, width: usize) -> (formatted: String)
    ensures
        formatted@ == formatted_line(line@, width as nat),
{
    let s = chars_of(line);
    let (start, end) = trim_bounds(s.as_slice());
    if start == end {
        return line.to_owned();
    }
    let lead = copy_range(s.as_slice(), 0, start);
    let body = copy_range(s.as_slice(), start, s.len());
    assert(lead@ == line@.take(leading_space(line@) as int));
    assert(body@ == trim_start(line@));
    let lead_text = string_of(lead.as_slice());
    let body_text = string_of(body.as_slice());
    let mut hanging = string_of(lead.as_slice());
    hanging.append(detect_list_indent(body_text.as_str()));
    let wrapped = wrap_line(body_text.as_str(), width, lead_text.as_str(), hanging.as_str());
    join_lines(wrapped.as_slice())
}

/// Wraps every line of `text` at `width` columns. A list item continues
/// under its text: by two columns behind a bullet, by the width of the
/// marker behind a number.
pub fn format_text(text: &str, width: usize) -> (formatted: String)
    ensures
        formatted@ == formatted_text(text@, width as nat),
{
    let s = chars_of(text);
    let all = lines(s.as_slice());
    assert(views(all@).len() == all@.len());
    let mut done: Vec<String> = Vec::new();
    let mut i: usize = 0;
    while i < all.len()
        invariant
            i <= all.len(),
            done@.len() == i,
            views(all@) == lines_of(text@),
            forall|k: int|
                0 <= k < i ==> done@[k]@ == formatted_line(
                    #[trigger] lines_of(text@)[k],
                    width as nat,
                ),
        decreases all.len() - i,
    {
        assert(all@[i as int]@ == views(all@)[i as int]);
        let line = string_of(all[i].as_slice());
        done.push(format_line(line.as_str(), width));
        i += 1;
    }
    assert(texts(done@) =~= formatted_lines(lines_of(text@), width as nat));
    join_lines(done.as_slice())
}

} // verus!
