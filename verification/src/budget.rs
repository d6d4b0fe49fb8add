//! The aggregate size gate: a rendered diff that is too large as a whole is
//! refused, however small each of its files is.

use crate::text::{append_decimal, chars_of, decimal, lines, lines_of, views};
use vstd::prelude::*;
use vstd::string::StringExecFns;

verus! {

/// The number of bytes that `text` takes in UTF-8, as `str::len` reports it.
pub open spec fn byte_len(text: Seq<char>) -> nat {
    (vstd::utf8::encode_utf8(text).len() as usize) as nat
}

/// Whether a diff is over the aggregate budget: more lines than
/// `max_total_lines`, or more bytes than `max_total_bytes`.
pub open spec fn over_budget(text: Seq<char>, max_total_lines: nat, max_total_bytes: nat) -> bool {
    lines_of(text).len() > max_total_lines || byte_len(text) > max_total_bytes
}

/// A diff of one line more than allowed is over budget.
pub proof fn lemma_one_line_too_many(text: Seq<char>, max_total_lines: nat, max_total_bytes: nat)
    requires
        lines_of(text).len() == max_total_lines + 1,
    ensures
        over_budget(text, max_total_lines, max_total_bytes),
{
}

/// A diff of exactly the allowed number of lines is within budget, as long
/// as its bytes are.
pub proof fn lemma_allowed_lines_pass(text: Seq<char>, max_total_lines: nat, max_total_bytes: nat)
    requires
        lines_of(text).len() == max_total_lines,
        byte_len(text) <= max_total_bytes,
    ensures
        !over_budget(text, max_total_lines, max_total_bytes),
{
}

/// A diff that is over the aggregate budget, with what was measured and what
/// was allowed.
#[derive(Clone, Copy, Debug, PartialEq, Eq, Structural)]
pub struct BudgetExceeded {
    pub measured_lines: usize,
    pub max_lines: usize,
    pub measured_bytes: usize,
    pub max_bytes: usize,
}

/// What was measured of a diff that is over budget, and what was allowed.
pub open spec fn excess_of(text: Seq<char>, max_total_lines: usize, max_total_bytes: usize) -> BudgetExceeded {
    BudgetExceeded {
        measured_lines: lines_of(text).len() as usize,
        max_lines: max_total_lines,
        measured_bytes: byte_len(text) as usize,
        max_bytes: max_total_bytes,
    }
}

/// Whether a diff is within budget, and its excess where it is not.
pub open spec fn budget_check(text: Seq<char>, max_total_lines: usize, max_total_bytes: usize) -> Result<
    (),
    BudgetExceeded,
> {
    if over_budget(text, max_total_lines as nat, max_total_bytes as nat) {
        Err(excess_of(text, max_total_lines, max_total_bytes))
    } else {
        Ok(())
    }
}

/// The words of `BudgetExceeded::message`.
pub open spec fn budget_message(e: BudgetExceeded) -> Seq<char> {
    "diff too large: "@ + decimal(e.measured_lines as nat) + " lines (limit "@ + decimal(
        e.max_lines as nat,
    ) + "), "@ + decimal(e.measured_bytes as nat) + " bytes (limit "@ + decimal(
        e.max_bytes as nat,
    ) + ")"@
}

impl BudgetExceeded {
    /// The error in words, with the measured and the allowed figures.
    pub fn message(&self) -> (words: String)
        ensures
            words@ == budget_message(*self),
    {
        let mut out = String::new();
        out.append("diff too large: ");
        append_decimal(&mut out, self.measured_lines);
        out.append(" lines (limit ");
        append_decimal(&mut out, self.max_lines);
        out.append("), ");
        append_decimal(&mut out, self.measured_bytes);
        out.append(" bytes (limit ");
        append_decimal(&mut out, self.max_bytes);
        out.append(")");
        out
    }
}

/// The aggregate size gate: refuses a diff that is over budget as a whole,
/// and reports what was measured and what was allowed.
pub fn check_aggregate_budget(diff_text: &str, max_total_lines: usize, max_total_bytes: usize) -> (checked:
    Result<(), BudgetExceeded>)
    ensures
        checked == budget_check(diff_text@, max_total_lines, max_total_bytes),
        checked is Err <==> over_budget(diff_text@, max_total_lines as nat, max_total_bytes as nat),
        checked matches Err(e) ==> e.measured_lines == lines_of(diff_text@).len()
            && e.measured_bytes == byte_len(diff_text@) && e.max_lines == max_total_lines
            && e.max_bytes == max_total_bytes,
{
    let chars = chars_of(diff_text);
    let all = lines(chars.as_slice());
    assert(views(all@).len() == all@.len());
    let measured_lines = all.len();
    let measured_bytes = diff_text.len();
    if measured_lines > max_total_lines || measured_bytes > max_total_bytes {
        Err(
            BudgetExceeded {
                measured_lines,
                max_lines: max_total_lines,
                measured_bytes,
                max_bytes: max_total_bytes,
            },
        )
    } else {
        Ok(())
    }
}

} // verus!
