//! Character-sequence primitives shared by the rest of the crate.
//!
//! Text is modelled as `Seq<char>`. Executable code works on `Vec<char>` and
//! converts from and to `String` at the boundary. What only `std` can say of
//! a text (its lower case, its lenient decoding) is taken from `std` and known
//! by name.

use vstd::prelude::*;
use vstd::string::StringExecFns;
use vstd::utf8::{decode_utf8, valid_utf8};

verus! {

/// Length of the longest prefix of `s` whose elements all satisfy `p`.
pub open spec fn prefix_run<A>(s: Seq<A>, p: spec_fn(A) -> bool) -> nat
    decreases s.len(),
{
    if s.len() == 0 || !p(s[0]) {
        0
    } else {
        1 + prefix_run(s.skip(1), p)
    }
}

/// Length of the longest suffix of `s` whose elements all satisfy `p`.
pub open spec fn suffix_run<A>(s: Seq<A>, p: spec_fn(A) -> bool) -> nat
    decreases s.len(),
{
    if s.len() == 0 || !p(s.last()) {
        0
    } else {
        1 + suffix_run(s.drop_last(), p)
    }
}

/// The characters other than `c`.
pub open spec fn differs_from(c: char) -> spec_fn(char) -> bool {
    |x: char| x != c
}

/// Whether `c` is one of the letters `a` to `z`.
pub open spec fn is_lower(c: char) -> bool {
    'a' <= c && c <= 'z'
}

/// Whether `c` is one of the digits `0` to `9`.
pub open spec fn is_digit(c: char) -> bool {
    '0' <= c && c <= '9'
}

/// Whether `c` has the Unicode property `White_Space`: the controls from tab
/// to carriage return, the space, the next-line control, the no-break space,
/// the ogham space mark, the spaces from en quad to hair space, the line and
/// the paragraph separator, the narrow no-break space, the medium
/// mathematical space and the ideographic space.
pub open spec fn is_white_space(c: char) -> bool {
    ||| '\u{9}' <= c && c <= '\u{d}'
    ||| c == ' '
    ||| c == '\u{85}'
    ||| c == '\u{a0}'
    ||| c == '\u{1680}'
    ||| '\u{2000}' <= c && c <= '\u{200a}'
    ||| c == '\u{2028}'
    ||| c == '\u{2029}'
    ||| c == '\u{202f}'
    ||| c == '\u{205f}'
    ||| c == '\u{3000}'
}

/// The white-space characters.
pub open spec fn white_space() -> spec_fn(char) -> bool {
    |c: char| is_white_space(c)
}

/// The letters `a` to `z`.
pub open spec fn lower_letters() -> spec_fn(char) -> bool {
    |c: char| is_lower(c)
}

/// The digits `0` to `9`.
pub open spec fn digits() -> spec_fn(char) -> bool {
    |c: char| is_digit(c)
}

/// Index of the first occurrence of `c` in `s`, or `s.len()` when there is none.
pub open spec fn find_char(s: Seq<char>, c: char) -> nat {
    prefix_run(s, differs_from(c))
}

/// The pieces of `s` between occurrences of `sep`. There is always at least
/// one piece; `k` separators give `k + 1` pieces, some of which may be empty.
pub open spec fn split_on(s: Seq<char>, sep: char) -> Seq<Seq<char>>
    decreases s.len(),
{
    let i = find_char(s, sep) as int;
    if i >= s.len() {
        seq![s]
    } else {
        seq![s.take(i)] + split_on(s.skip(i + 1), sep)
    }
}

/// `parts` with `sep` between each two neighbours.
pub open spec fn join(parts: Seq<Seq<char>>, sep: Seq<char>) -> Seq<char>
    decreases parts.len(),
{
    if parts.len() == 0 {
        Seq::empty()
    } else if parts.len() == 1 {
        parts[0]
    } else {
        join(parts.drop_last(), sep) + sep + parts.last()
    }
}

/// `line` without one trailing carriage return.
pub open spec fn strip_cr(line: Seq<char>) -> Seq<char> {
    if line.len() > 0 && line.last() == '\r' {
        line.drop_last()
    } else {
        line
    }
}

/// Every piece of `pieces` without one trailing carriage return.
pub open spec fn strip_each(pieces: Seq<Seq<char>>) -> Seq<Seq<char>> {
    Seq::new(pieces.len(), |i: int| strip_cr(pieces[i]))
}

/// The lines of `s`. A line ends at `\n` or `\r\n`; the terminator is not part
/// of the line; a final terminator is optional, so the empty text has no line
/// and a text that ends in a terminator has no empty last line.
pub open spec fn lines_of(s: Seq<char>) -> Seq<Seq<char>> {
    let pieces = split_on(s, '\n');
    let ended = strip_each(pieces.drop_last());
    if pieces.last().len() == 0 {
        ended
    } else {
        ended.push(pieces.last())
    }
}

/// Every line of `lines` followed by a line feed.
pub open spec fn terminated(lines: Seq<Seq<char>>) -> Seq<char>
    decreases lines.len(),
{
    if lines.len() == 0 {
        Seq::empty()
    } else {
        terminated(lines.drop_last()) + lines.last().push('\n')
    }
}

/// The decimal digit for `d`, which is below ten.
pub open spec fn digit_char(d: nat) -> char {
    if d == 0 {
        '0'
    } else if d == 1 {
        '1'
    } else if d == 2 {
        '2'
    } else if d == 3 {
        '3'
    } else if d == 4 {
        '4'
    } else if d == 5 {
        '5'
    } else if d == 6 {
        '6'
    } else if d == 7 {
        '7'
    } else if d == 8 {
        '8'
    } else {
        '9'
    }
}

/// `n` written in decimal, without leading zeros.
pub open spec fn decimal(n: nat) -> Seq<char>
    decreases n,
{
    if n < 10 {
        seq![digit_char(n)]
    } else {
        decimal(n / 10).push(digit_char(n % 10))
    }
}

/// Number of white-space characters at the start of `s`.
pub open spec fn leading_space(s: Seq<char>) -> nat {
    prefix_run(s, white_space())
}

/// Number of white-space characters at the end of `s`.
pub open spec fn trailing_space(s: Seq<char>) -> nat {
    suffix_run(s, white_space())
}

/// `s` without its leading white space.
pub open spec fn trim_start(s: Seq<char>) -> Seq<char> {
    s.skip(leading_space(s) as int)
}

/// `s` without its trailing white space.
pub open spec fn trim_end(s: Seq<char>) -> Seq<char> {
    s.take(s.len() - trailing_space(s))
}

/// `s` without leading and trailing white space.
pub open spec fn trim(s: Seq<char>) -> Seq<char> {
    trim_end(trim_start(s))
}

/// What `str::to_lowercase` makes of `text`.
pub uninterp spec fn lowercased(text: Seq<char>) -> Seq<char>;

/// Whether every character of `text` is an ASCII character.
pub open spec fn is_ascii_text(text: Seq<char>) -> bool {
    forall|i: int| 0 <= i < text.len() ==> text[i] <= '\u{7f}'
}

/// `c` with the letters `A` to `Z` turned into `a` to `z`.
pub open spec fn ascii_lower(c: char) -> char {
    if 'A' <= c && c <= 'Z' {
        ((c as u8) + 32) as u8 as char
    } else {
        c
    }
}

/// `text` with the letters `A` to `Z` turned into `a` to `z`.
pub open spec fn ascii_lowercased(text: Seq<char>) -> Seq<char> {
    Seq::new(text.len(), |i: int| ascii_lower(text[i]))
}

/// `text` in lower case: of ASCII text, the text with the letters `A` to `Z`
/// turned into `a` to `z`; of any other text, what `str::to_lowercase` makes
/// of it.
pub open spec fn lower_text(text: Seq<char>) -> Seq<char> {
    if is_ascii_text(text) {
        ascii_lowercased(text)
    } else {
        lowercased(text)
    }
}

/// What `String::from_utf8_lossy` makes of `bytes`: the decoded text, with
/// each invalid sequence replaced by U+FFFD.
pub uninterp spec fn lossy_text(bytes: Seq<u8>) -> Seq<char>;

/// `s` with every occurrence of `pat` replaced by `with`, taken from the left
/// and without overlap. An empty pattern occurs nowhere.
pub open spec fn replace_all(s: Seq<char>, pat: Seq<char>, with: Seq<char>) -> Seq<char>
    decreases s.len(),
{
    if pat.len() == 0 || s.len() < pat.len() {
        s
    } else if s.take(pat.len() as int) == pat {
        with + replace_all(s.skip(pat.len() as int), pat, with)
    } else {
        seq![s[0]] + replace_all(s.skip(1), pat, with)
    }
}

/// The character sequences that the vectors `parts` hold.
pub open spec fn views(parts: Seq<Vec<char>>) -> Seq<Seq<char>> {
    parts.map_values(|p: Vec<char>| p@)
}

/// The character sequences that the strings `parts` hold.
pub open spec fn texts(parts: Seq<String>) -> Seq<Seq<char>> {
    parts.map_values(|p: String| p@)
}

/// The elements that `prefix_run` counts satisfy `p`, and the element behind
/// them, if there is one, does not.
pub proof fn lemma_prefix_run_bound<A>(s: Seq<A>, p: spec_fn(A) -> bool)
    ensures
        prefix_run(s, p) <= s.len(),
        prefix_run(s, p) < s.len() ==> !p(s[prefix_run(s, p) as int]),
        forall|k: int| 0 <= k < prefix_run(s, p) ==> p(s[k]),
    decreases s.len(),
{
    if s.len() == 0 || !p(s[0]) {
    } else {
        lemma_prefix_run_bound(s.skip(1), p);
        assert forall|k: int| 0 <= k < prefix_run(s, p) implies p(s[k]) by {
            if k > 0 {
                assert(s.skip(1)[k - 1] == s[k]);
            }
        }
    }
}

/// `prefix_run` is the one index `j` such that all before it satisfy `p`
/// and the element at it, if there is one, does not.
pub proof fn lemma_prefix_run_is<A>(s: Seq<A>, p: spec_fn(A) -> bool, j: int)
    requires
        0 <= j <= s.len(),
        forall|k: int| 0 <= k < j ==> p(s[k]),
        j < s.len() ==> !p(s[j]),
    ensures
        prefix_run(s, p) == j,
{
    lemma_prefix_run_bound(s, p);
    let f = prefix_run(s, p) as int;
    if f < j {
        assert(p(s[f]));
    } else if f > j {
        assert(p(s[j]));
    }
}

/// The elements that `suffix_run` counts satisfy `p`, and the element before
/// them, if there is one, does not.
pub proof fn lemma_suffix_run_bound<A>(s: Seq<A>, p: spec_fn(A) -> bool)
    ensures
        suffix_run(s, p) <= s.len(),
        suffix_run(s, p) < s.len() ==> !p(s[s.len() - suffix_run(s, p) - 1]),
        forall|k: int| s.len() - suffix_run(s, p) <= k < s.len() ==> p(s[k]),
    decreases s.len(),
{
    if s.len() == 0 || !p(s.last()) {
    } else {
        lemma_suffix_run_bound(s.drop_last(), p);
        assert forall|k: int| s.len() - suffix_run(s, p) <= k < s.len() implies p(s[k]) by {
            if k < s.len() - 1 {
                assert(s.drop_last()[k] == s[k]);
            }
        }
    }
}

/// `suffix_run` is the one length `j` such that the last `j` elements
/// satisfy `p` and the element before them, if there is one, does not.
pub proof fn lemma_suffix_run_is<A>(s: Seq<A>, p: spec_fn(A) -> bool, j: int)
    requires
        0 <= j <= s.len(),
        forall|k: int| s.len() - j <= k < s.len() ==> p(s[k]),
        j < s.len() ==> !p(s[s.len() - j - 1]),
    ensures
        suffix_run(s, p) == j,
{
    lemma_suffix_run_bound(s, p);
    let f = suffix_run(s, p) as int;
    if f < j {
        assert(p(s[s.len() - f - 1]));
    } else if f > j {
        assert(p(s[s.len() - j - 1]));
    }
}

/// Trimming a trimmed text changes nothing.
pub proof fn lemma_trim_idempotent(s: Seq<char>)
    ensures
        trim(trim(s)) == trim(s),
{
    let ws = white_space();
    let started = trim_start(s);
    let t = trim(s);
    lemma_prefix_run_bound(s, ws);
    lemma_suffix_run_bound(started, ws);
    if t.len() > 0 {
        assert(t[0] == s[leading_space(s) as int]);
        assert(t.last() == started[started.len() - trailing_space(started) - 1]);
    }
    lemma_prefix_run_is(t, ws, 0);
    assert(trim_start(t) == t);
    lemma_suffix_run_is(t, ws, 0);
    assert(trim_end(t) == t);
}

/// A split has at least one piece.
pub proof fn lemma_split_on_nonempty(s: Seq<char>, sep: char)
    ensures
        split_on(s, sep).len() >= 1,
    decreases s.len(),
{
    lemma_prefix_run_bound(s, differs_from(sep));
    let i = find_char(s, sep) as int;
    if i < s.len() {
        lemma_split_on_nonempty(s.skip(i + 1), sep);
    }
}

/// A text shorter than the pattern holds no occurrence of it.
pub proof fn lemma_replace_all_short(s: Seq<char>, pat: Seq<char>, with: Seq<char>)
    requires
        s.len() < pat.len(),
    ensures
        replace_all(s, pat, with) == s,
{
}

/// Terminating one more line appends the line and a line feed.
pub proof fn lemma_terminated_push(lines: Seq<Seq<char>>, line: Seq<char>)
    ensures
        terminated(lines.push(line)) == terminated(lines) + line.push('\n'),
{
    assert(lines.push(line).drop_last() == lines);
}

/// Joining one more part puts the separator before it, unless it is the
/// first.
pub proof fn lemma_join_push(parts: Seq<Seq<char>>, part: Seq<char>, sep: Seq<char>)
    ensures
        join(parts.push(part), sep) == if parts.len() == 0 {
            part
        } else {
            join(parts, sep) + sep + part
        },
{
    assert(parts.push(part).drop_last() == parts);
}

/// Appends one character to a `String` by `String::push`, which puts the
/// character at the end and leaves the rest as it was.
#[verifier::external_body]
pub(crate) fn push_char(s: &mut String, c: char)
    ensures
        final(s)@ == old(s)@.push(c),
{
    s.push(c)
}

/// `str::to_lowercase`. The result is a function of the text and is known
/// here by its name; of ASCII text it is the text with the letters `A` to `Z`
/// turned into `a` to `z`.
#[verifier::external_body]
pub(crate) fn to_lowercase(text: &str) -> (lower: String)
    ensures
        lower@ == lowercased(text@),
        is_ascii_text(text@) ==> lower@ == ascii_lowercased(text@),
{
    text.to_lowercase()
}

/// Decodes `bytes` by `String::from_utf8`, which succeeds exactly on valid
/// UTF-8 and then yields the characters that the bytes encode.
#[verifier::external_body]
pub(crate) fn decode_text(bytes: &[u8]) -> (r: Option<String>)
    ensures
        r is Some <==> valid_utf8(bytes@),
        r matches Some(s) ==> s@ == decode_utf8(bytes@),
{
    String::from_utf8(bytes.to_vec()).ok()
}

/// Decodes `bytes` by `String::from_utf8_lossy`. On valid UTF-8 the result is
/// the decoded text; otherwise it is known here only by its name.
#[verifier::external_body]
pub(crate) fn decode_lossy(bytes: &[u8]) -> (s: String)
    ensures
        s@ == lossy_text(bytes@),
        valid_utf8(bytes@) ==> s@ == decode_utf8(bytes@),
{
    String::from_utf8_lossy(bytes).into_owned()
}

/// Collects the characters of `s` into a vector.
pub fn chars_of(s: &str) -> (v: Vec<char>)
    ensures
        v@ == s@,
{
    let mut v: Vec<char> = Vec::new();
    for c in it: s.chars()
        invariant
            v@ == it.seq().take(it.index() as int),
            it.seq() == s@,
    {
        v.push(c);
    }
    v
}

/// Appends the characters `chars` to `out`.
pub fn append_chars(out: &mut String, chars: &[char])
    ensures
        final(out)@ == old(out)@ + chars@,
{
    let mut i: usize = 0;
    while i < chars.len()
        invariant
            i <= chars.len(),
            out@ == old(out)@ + chars@.take(i as int),
        decreases chars.len() - i,
    {
        push_char(out, chars[i]);
        assert(chars@.take(i + 1) == chars@.take(i as int).push(chars@[i as int]));
        i += 1;
    }
    assert(chars@.take(chars.len() as int) == chars@);
}

/// Builds a `String` from characters.
pub fn string_of(chars: &[char]) -> (s: String)
    ensures
        s@ == chars@,
{
    let mut s = String::new();
    append_chars(&mut s, chars);
    s
}

/// A copy of the characters of `s` from index `from` up to, not including, `to`.
pub fn copy_range(s: &[char], from: usize, to: usize) -> (v: Vec<char>)
    requires
        from <= to <= s.len(),
    ensures
        v@ == s@.subrange(from as int, to as int),
{
    let mut v: Vec<char> = Vec::new();
    let mut i: usize = from;
    while i < to
        invariant
            from <= i <= to <= s.len(),
            v@ == s@.subrange(from as int, i as int),
        decreases to - i,
    {
        v.push(s[i]);
        assert(s@.subrange(from as int, i + 1) == s@.subrange(from as int, i as int).push(s@[i as int]));
        i += 1;
    }
    v
}

/// A copy of the strings of `items`.
pub fn copy_strings(items: &[String]) -> (copy: Vec<String>)
    ensures
        texts(copy@) == texts(items@),
{
    let mut copy: Vec<String> = Vec::new();
    let mut i: usize = 0;
    while i < items.len()
        invariant
            i <= items.len(),
            copy@.len() == i,
            forall|k: int| 0 <= k < i ==> copy@[k]@ == items@[k]@,
        decreases items.len() - i,
    {
        copy.push(items[i].clone());
        i += 1;
    }
    assert(texts(copy@) =~= texts(items@));
    copy
}

/// Whether `c` is a white-space character.
pub fn char_is_whitespace(c: char) -> (r: bool)
    ensures
        r == is_white_space(c),
{
    ('\u{9}' <= c && c <= '\u{d}') || c == ' ' || c == '\u{85}' || c == '\u{a0}' || c == '\u{1680}'
        || ('\u{2000}' <= c && c <= '\u{200a}') || c == '\u{2028}' || c == '\u{2029}' || c
        == '\u{202f}' || c == '\u{205f}' || c == '\u{3000}'
}

/// Whether `c` is one of the letters `a` to `z`.
pub fn char_is_lower(c: char) -> (r: bool)
    ensures
        r == is_lower(c),
{
    'a' <= c && c <= 'z'
}

/// Whether `c` is one of the digits `0` to `9`.
pub fn char_is_digit(c: char) -> (r: bool)
    ensures
        r == is_digit(c),
{
    '0' <= c && c <= '9'
}

/// Splits `s` at every `sep`.
pub fn split(s: &[char], sep: char) -> (parts: Vec<Vec<char>>)
    ensures
        views(parts@) == split_on(s@, sep),
{
    let mut parts: Vec<Vec<char>> = Vec::new();
    let mut cur: Vec<char> = Vec::new();
    let mut start: usize = 0;
    let mut i: usize = 0;
    assert(s@.skip(0) == s@);
    assert(views(parts@) + split_on(s@, sep) == split_on(s@, sep));
    while i < s.len()
        invariant
            start <= i <= s.len(),
            cur@ == s@.subrange(start as int, i as int),
            forall|k: int| start <= k < i ==> s@[k] != sep,
            split_on(s@, sep) == views(parts@) + split_on(s@.skip(start as int), sep),
        decreases s.len() - i,
    {
        let c = s[i];
        if c == sep {
            proof {
                let rest = s@.skip(start as int);
                lemma_prefix_run_is(rest, differs_from(sep), i - start);
                assert(rest.take(i - start) == cur@);
                assert(rest.skip(i - start + 1) == s@.skip(i + 1));
                assert(views(parts@).push(cur@) + split_on(s@.skip(i + 1), sep) == views(parts@)
                    + (seq![cur@] + split_on(s@.skip(i + 1), sep)));
                assert(views(parts@.push(cur)) == views(parts@).push(cur@));
            }
            parts.push(cur);
            cur = Vec::new();
            start = i + 1;
            assert(s@.subrange(start as int, start as int) == Seq::<char>::empty());
        } else {
            cur.push(c);
            assert(s@.subrange(start as int, i + 1) == s@.subrange(start as int, i as int).push(c));
        }
        i += 1;
    }
    proof {
        let rest = s@.skip(start as int);
        lemma_prefix_run_is(rest, differs_from(sep), rest.len() as int);
        assert(rest == cur@);
        assert(views(parts@.push(cur)) == views(parts@).push(cur@));
    }
    parts.push(cur);
    parts
}

/// Splits `s` into its lines.
pub fn lines(s: &[char]) -> (out: Vec<Vec<char>>)
    ensures
        views(out@) == lines_of(s@),
{
    let pieces = split(s, '\n');
    proof {
        lemma_split_on_nonempty(s@, '\n');
    }
    let ghost spec_pieces = split_on(s@, '\n');
    assert(views(pieces@).len() == pieces@.len());
    let last: usize = pieces.len() - 1;
    let mut out: Vec<Vec<char>> = Vec::new();
    let mut i: usize = 0;
    while i < last
        invariant
            i <= last,
            out@.len() == i,
            last + 1 == pieces.len(),
            spec_pieces.len() == pieces@.len(),
            views(pieces@) == spec_pieces,
            views(out@) == strip_each(spec_pieces.take(i as int)),
        decreases last - i,
    {
        let piece = &pieces[i];
        let n = piece.len();
        assert(piece@ == spec_pieces[i as int]);
        let line = if n > 0 && piece[n - 1] == '\r' {
            copy_range(piece.as_slice(), 0, n - 1)
        } else {
            copy_range(piece.as_slice(), 0, n)
        };
        assert(line@ == strip_cr(piece@));
        assert(views(out@.push(line)) =~= strip_each(spec_pieces.take(i + 1))) by {
            let next = views(out@.push(line));
            let goal = strip_each(spec_pieces.take(i + 1));
            assert forall|k: int| 0 <= k < next.len() implies next[k] == goal[k] by {
                if k < i {
                    assert(next[k] == views(out@)[k]);
                    assert(strip_each(spec_pieces.take(i as int))[k] == goal[k]);
                }
            }
        }
        out.push(line);
        i += 1;
    }
    assert(spec_pieces.take(last as int) == spec_pieces.drop_last());
    let tail = &pieces[last];
    assert(tail@ == views(pieces@)[last as int]);
    if tail.len() > 0 {
        let line = copy_range(tail.as_slice(), 0, tail.len());
        assert(line@ == tail@);
        assert(views(out@.push(line)) =~= views(out@).push(line@));
        out.push(line);
    }
    out
}

/// Joins `parts` with a line feed between each two.
pub fn join_lines(parts: &[String]) -> (joined: String)
    ensures
        joined@ == join(texts(parts@), seq!['\n']),
{
    let mut joined = String::new();
    let mut i: usize = 0;
    assert(texts(parts@).take(0) =~= Seq::<Seq<char>>::empty());
    while i < parts.len()
        invariant
            i <= parts.len(),
            joined@ == join(texts(parts@).take(i as int), seq!['\n']),
        decreases parts.len() - i,
    {
        proof {
            let done = texts(parts@).take(i as int);
            lemma_join_push(done, parts@[i as int]@, seq!['\n']);
            assert(texts(parts@).take(i + 1) == done.push(parts@[i as int]@));
            reveal_strlit("\n");
            assert("\n"@ =~= seq!['\n']);
        }
        if i > 0 {
            joined.append("\n");
        }
        joined.append(parts[i].as_str());
        i += 1;
    }
    assert(texts(parts@).take(parts.len() as int) == texts(parts@));
    joined
}

/// The character for a value below ten.
pub fn digit(d: usize) -> (c: char)
    requires
        d < 10,
    ensures
        c == digit_char(d as nat),
{
    match d {
        0 => '0',
        1 => '1',
        2 => '2',
        3 => '3',
        4 => '4',
        5 => '5',
        6 => '6',
        7 => '7',
        8 => '8',
        _ => '9',
    }
}

/// The decimal digits of `n`.
pub fn decimal_digits(n: usize) -> (v: Vec<char>)
    ensures
        v@ == decimal(n as nat),
    decreases n,
{
    if n < 10 {
        let mut v: Vec<char> = Vec::new();
        v.push(digit(n));
        v
    } else {
        let mut v = decimal_digits(n / 10);
        v.push(digit(n % 10));
        v
    }
}

/// Appends `n` in decimal to `out`.
pub fn append_decimal(out: &mut String, n: usize)
    ensures
        final(out)@ == old(out)@ + decimal(n as nat),
{
    let digits = decimal_digits(n);
    append_chars(out, digits.as_slice());
}

/// Where the trimmed part of `s` begins and ends.
pub fn trim_bounds(s: &[char]) -> (bounds: (usize, usize))
    ensures
        bounds.0 <= bounds.1 <= s@.len(),
        bounds.0 == leading_space(s@),
        s@.subrange(bounds.0 as int, bounds.1 as int) == trim(s@),
{
    let ghost ws = white_space();
    let mut start: usize = 0;
    while start < s.len() && char_is_whitespace(s[start])
        invariant
            start <= s.len(),
            forall|k: int| 0 <= k < start ==> is_white_space(s@[k]),
        decreases s.len() - start,
    {
        start += 1;
    }
    proof {
        lemma_prefix_run_is(s@, ws, start as int);
    }
    let ghost rest = s@.skip(start as int);
    let mut end: usize = s.len();
    while end > start && char_is_whitespace(s[end - 1])
        invariant
            start <= end <= s.len(),
            forall|k: int| end <= k < s.len() ==> is_white_space(s@[k]),
        decreases end,
    {
        end -= 1;
    }
    proof {
        assert forall|k: int| rest.len() - (s.len() - end) <= k < rest.len() implies ws(rest[k]) by {
            assert(rest[k] == s@[k + start]);
        }
        if end > start {
            assert(rest[end - start - 1] == s@[end - 1]);
        }
        lemma_suffix_run_is(rest, ws, s.len() - end);
        assert(rest.take(end - start) == s@.subrange(start as int, end as int));
    }
    (start, end)
}

/// A copy of `s` without leading and trailing white space.
pub fn trimmed(s: &[char]) -> (t: Vec<char>)
    ensures
        t@ == trim(s@),
{
    let (start, end) = trim_bounds(s);
    copy_range(s, start, end)
}

/// Whether `s` holds `pat` at index `at`.
pub fn holds_at(s: &[char], pat: &[char], at: usize) -> (found: bool)
    ensures
        found == (at + pat@.len() <= s@.len() && s@.subrange(at as int, at + pat@.len()) == pat@),
{
    if at > s.len() || pat.len() > s.len() - at {
        return false;
    }
    let mut k: usize = 0;
    while k < pat.len()
        invariant
            k <= pat.len(),
            at + pat.len() <= s.len(),
            forall|j: int| 0 <= j < k ==> s@[at + j] == pat@[j],
        decreases pat.len() - k,
    {
        if s[at + k] != pat[k] {
            assert(s@.subrange(at as int, at + pat@.len())[k as int] != pat@[k as int]);
            return false;
        }
        k += 1;
    }
    assert(s@.subrange(at as int, at + pat@.len()) =~= pat@);
    true
}

/// Replaces every occurrence of `pat` in `s` by `with`. An empty pattern
/// occurs nowhere.
pub fn replace(s: &[char], pat: &[char], with: &[char]) -> (out: Vec<char>)
    ensures
        out@ == replace_all(s@, pat@, with@),
{
    if pat.len() == 0 {
        assert(s@.subrange(0, s@.len() as int) == s@);
        return copy_range(s, 0, s.len());
    }
    let mut out: Vec<char> = Vec::new();
    let mut i: usize = 0;
    assert(s@.skip(0) == s@);
    while i < s.len()
        invariant
            i <= s.len(),
            pat@.len() > 0,
            out@ + replace_all(s@.skip(i as int), pat@, with@) == replace_all(s@, pat@, with@),
        decreases s.len() - i,
    {
        let ghost rest = s@.skip(i as int);
        if holds_at(s, pat, i) {
            assert(rest.take(pat@.len() as int) == s@.subrange(i as int, i + pat@.len()));
            assert(rest.skip(pat@.len() as int) == s@.skip(i + pat@.len()));
            let mut k: usize = 0;
            let ghost before = out@;
            while k < with.len()
                invariant
                    k <= with.len(),
                    out@ == before + with@.take(k as int),
                decreases with.len() - k,
            {
                out.push(with[k]);
                assert(with@.take(k + 1) == with@.take(k as int).push(with@[k as int]));
                k += 1;
            }
            assert(with@.take(with.len() as int) == with@);
            assert(out@ + replace_all(s@.skip(i + pat@.len()), pat@, with@) == before + (with@
                + replace_all(s@.skip(i + pat@.len()), pat@, with@)));
            i += pat.len();
        } else {
            proof {
                if rest.len() >= pat@.len() {
                    assert(rest.take(pat@.len() as int) == s@.subrange(i as int, i + pat@.len()));
                    assert(rest.skip(1) == s@.skip(i + 1));
                    assert(out@.push(s@[i as int]) + replace_all(s@.skip(i + 1), pat@, with@)
                        == out@ + (seq![rest[0]] + replace_all(rest.skip(1), pat@, with@)));
                } else {
                    assert(rest == seq![rest[0]] + rest.skip(1));
                    lemma_replace_all_short(rest.skip(1), pat@, with@);
                    assert(rest.skip(1) == s@.skip(i + 1));
                    assert(out@.push(s@[i as int]) + s@.skip(i + 1) == out@ + rest);
                }
            }
            out.push(s[i]);
            i += 1;
        }
    }
    assert(s@.skip(s.len() as int) == Seq::<char>::empty());
    assert(out@ + Seq::<char>::empty() == out@);
    out
}

/// Replaces every occurrence of `pat` in `text` by `with`. An empty pattern
/// occurs nowhere.
pub fn replace_in(text: &str, pat: &str, with: &str) -> (out: String)
    ensures
        out@ == replace_all(text@, pat@, with@),
{
    let source = chars_of(text);
    let pattern = chars_of(pat);
    let insert = chars_of(with);
    let replaced = replace(source.as_slice(), pattern.as_slice(), insert.as_slice());
    string_of(replaced.as_slice())
}

} // verus!
