//! Scanning free text for problem-number mentions (`#NNNN` or `NNNN번`,
//! four or more digits) and building the plain-text reply from each
//! mention's own search result.

use vstd::prelude::*;
use vstd::string::*;

use crate::render::{problem_line, spec_problem_line};
use crate::solved::{Problem, Search};
use crate::util::chars_of;

verus! {

/// Whether a character is a decimal digit.
pub open spec fn is_digit(c: char) -> bool {
    48 <= c as int && c as int <= 57
}

/// Whether a character is a decimal digit, per [`is_digit`].
pub fn is_digit_char(c: char) -> (r: bool)
    ensures
        r == is_digit(c),
{
    let u = c as u32;
    48 <= u && u <= 57
}

/// The length of the maximal digit run of `s` starting at `from`; zero when
/// `from` is outside `s` or no digit stands there.
pub open spec fn digit_run_len(s: Seq<char>, from: int) -> int
    decreases s.len() - from,
{
    if from < 0 || from >= s.len() || !is_digit(s[from]) {
        0
    } else {
        1 + digit_run_len(s, from + 1)
    }
}

/// A digit run is non-negative and stays inside the text.
pub proof fn lemma_digit_run_bounds(s: Seq<char>, from: int)
    requires
        0 <= from <= s.len(),
    ensures
        0 <= digit_run_len(s, from),
        from + digit_run_len(s, from) <= s.len(),
    decreases s.len() - from,
{
    if from < s.len() && is_digit(s[from]) {
        lemma_digit_run_bounds(s, from + 1);
    }
}

/// The problem-number mentions of `s` at or after position `i`, scanned
/// left to right: at `#` followed by at least four digits, the maximal
/// digit run is a mention and the scan resumes after it; at a digit, the
/// maximal run is a mention only when it has at least four digits and `번`
/// follows, and the scan resumes after the run (after the `번` on a match);
/// any other character is skipped.
pub open spec fn spec_mentions_from(s: Seq<char>, i: int) -> Seq<Seq<char>>
    decreases s.len() - i,
        when 0 <= i <= s.len()
{
    if i >= s.len() {
        Seq::<Seq<char>>::empty()
    } else if s[i] == '#' && digit_run_len(s, i + 1) >= 4 {
        proof {
            lemma_digit_run_bounds(s, i + 1);
        }
        let j = i + 1 + digit_run_len(s, i + 1);
        seq![s.subrange(i + 1, j)] + spec_mentions_from(s, j)
    } else if is_digit(s[i]) {
        proof {
            lemma_digit_run_bounds(s, i);
            lemma_digit_run_bounds(s, i + 1);
        }
        let j = i + digit_run_len(s, i);
        if digit_run_len(s, i) >= 4 && j < s.len() && s[j] == '번' {
            seq![s.subrange(i, j)] + spec_mentions_from(s, j + 1)
        } else {
            spec_mentions_from(s, j)
        }
    } else {
        spec_mentions_from(s, i + 1)
    }
}

/// All problem-number mentions of a text, in order.
pub open spec fn spec_mentions(s: Seq<char>) -> Seq<Seq<char>> {
    spec_mentions_from(s, 0)
}

/// Every character of a digit run is a digit.
proof fn lemma_digit_run_digits(s: Seq<char>, from: int)
    requires
        0 <= from <= s.len(),
    ensures
        forall|k: int| from <= k < from + digit_run_len(s, from) ==> is_digit(#[trigger] s[k]),
    decreases s.len() - from,
{
    if from < s.len() && is_digit(s[from]) {
        lemma_digit_run_digits(s, from + 1);
    }
}

/// Whether a text consists of digits alone.
pub open spec fn all_digits(m: Seq<char>) -> bool {
    forall|j: int| 0 <= j < m.len() ==> is_digit(#[trigger] m[j])
}

/// Every mention the scanner yields is a digit string of at least four
/// characters: the scan never hands a caller anything but a plausible
/// problem number.
pub proof fn lemma_mentions_are_digit_runs(s: Seq<char>, i: int)
    requires
        0 <= i <= s.len(),
    ensures
        forall|k: int|
            0 <= k < spec_mentions_from(s, i).len() ==> (#[trigger] spec_mentions_from(s, i)[k]).len()
                >= 4 && all_digits(spec_mentions_from(s, i)[k]),
    decreases s.len() - i,
{
    if i >= s.len() {
    } else if s[i] == '#' && digit_run_len(s, i + 1) >= 4 {
        lemma_digit_run_bounds(s, i + 1);
        lemma_digit_run_digits(s, i + 1);
        let j = i + 1 + digit_run_len(s, i + 1);
        lemma_mentions_are_digit_runs(s, j);
        let m0 = s.subrange(i + 1, j);
        assert(all_digits(m0)) by {
            assert forall|q: int| 0 <= q < m0.len() implies is_digit(#[trigger] m0[q]) by {
                assert(m0[q] == s[i + 1 + q]);
            }
        }
        assert forall|k: int| 0 <= k < spec_mentions_from(s, i).len() implies (
        #[trigger] spec_mentions_from(s, i)[k]).len() >= 4 && all_digits(
            spec_mentions_from(s, i)[k],
        ) by {
            if k == 0 {
                assert(spec_mentions_from(s, i)[k] == m0);
            } else {
                assert(spec_mentions_from(s, i)[k] == spec_mentions_from(s, j)[k - 1]);
            }
        }
    } else if is_digit(s[i]) {
        lemma_digit_run_bounds(s, i);
        lemma_digit_run_bounds(s, i + 1);
        lemma_digit_run_digits(s, i);
        let run = digit_run_len(s, i);
        let j = i + run;
        if run >= 4 && j < s.len() && s[j] == '번' {
            lemma_mentions_are_digit_runs(s, j + 1);
            let m0 = s.subrange(i, j);
            assert(all_digits(m0)) by {
                assert forall|q: int| 0 <= q < m0.len() implies is_digit(#[trigger] m0[q]) by {
                    assert(m0[q] == s[i + q]);
                }
            }
            assert forall|k: int| 0 <= k < spec_mentions_from(s, i).len() implies (
            #[trigger] spec_mentions_from(s, i)[k]).len() >= 4 && all_digits(
                spec_mentions_from(s, i)[k],
            ) by {
                if k == 0 {
                    assert(spec_mentions_from(s, i)[k] == m0);
                } else {
                    assert(spec_mentions_from(s, i)[k] == spec_mentions_from(s, j + 1)[k - 1]);
                }
            }
        } else {
            lemma_mentions_are_digit_runs(s, j);
            assert(spec_mentions_from(s, i) == spec_mentions_from(s, j));
        }
    } else {
        lemma_mentions_are_digit_runs(s, i + 1);
        assert(spec_mentions_from(s, i) == spec_mentions_from(s, i + 1));
    }
}

/// The maximal digit run of `chars` starting at `from`, per
/// [`digit_run_len`].
fn digit_run(chars: &Vec<char>, from: usize) -> (r: usize)
    requires
        from <= chars@.len(),
    ensures
        r as int == digit_run_len(chars@, from as int),
        from + r <= chars@.len(),
{
    let mut j = from;
    while j < chars.len() && is_digit_char(chars[j])
        invariant
            from <= j <= chars@.len(),
            digit_run_len(chars@, from as int) == (j - from) + digit_run_len(chars@, j as int),
        decreases chars@.len() - j,
    {
        j = j + 1;
    }
    proof {
        assert(digit_run_len(chars@, j as int) == 0);
    }
    j - from
}

/// Collect the mentions of `text` from position `i` on, per
/// [`spec_mentions_from`].
fn scan_from(text: &str, chars: &Vec<char>, i: usize) -> (r: Vec<String>)
    requires
        chars@ == text@,
        i <= chars@.len(),
    ensures
        r.deep_view() == spec_mentions_from(text@, i as int),
    decreases chars@.len() - i,
{
    if i >= chars.len() {
        let r: Vec<String> = Vec::new();
        proof {
            assert(r.deep_view() =~= spec_mentions_from(text@, i as int));
        }
        return r;
    }
    let c = chars[i];
    if c == '#' {
        let run = digit_run(chars, i + 1);
        if run >= 4 {
            let j = i + 1 + run;
            let tok = text.substring_char(i + 1, j).to_owned();
            let mut r: Vec<String> = Vec::new();
            r.push(tok);
            let mut rest = scan_from(text, chars, j);
            r.append(&mut rest);
            proof {
                assert(r.deep_view() =~= spec_mentions_from(text@, i as int));
            }
            return r;
        }
    }
    if is_digit_char(c) {
        let run = digit_run(chars, i);
        let j = i + run;
        if run >= 4 && j < chars.len() && chars[j] == '번' {
            let tok = text.substring_char(i, j).to_owned();
            let mut r: Vec<String> = Vec::new();
            r.push(tok);
            let mut rest = scan_from(text, chars, j + 1);
            r.append(&mut rest);
            proof {
                assert(r.deep_view() =~= spec_mentions_from(text@, i as int));
            }
            return r;
        }
        proof {
            lemma_digit_run_bounds(chars@, i + 1);
        }
        let r = scan_from(text, chars, j);
        proof {
            assert(r.deep_view() =~= spec_mentions_from(text@, i as int));
        }
        return r;
    }
    let r = scan_from(text, chars, i + 1);
    proof {
        assert(r.deep_view() =~= spec_mentions_from(text@, i as int));
    }
    r
}

/// Scan a free-text message for problem-number mentions, per
/// [`spec_mentions`]: the digit strings of every `#NNNN` and `NNNN번`
/// occurrence with at least four digits, left to right.
pub fn find_mentions(text: &str) -> (r: Vec<String>)
    ensures
        r.deep_view() == spec_mentions(text@),
{
    let chars = chars_of(text);
    scan_from(text, &chars, 0)
}

/// The numeric value a digit character stands for; zero for any other
/// character.
pub open spec fn spec_digit_value(c: char) -> nat {
    if is_digit(c) {
        (c as int - 48) as nat
    } else {
        0
    }
}

/// The value of a digit string read in base ten.
pub open spec fn spec_digits_value(s: Seq<char>) -> nat
    decreases s.len(),
{
    if s.len() == 0 {
        0
    } else {
        spec_digits_value(s.drop_last()) * 10 + spec_digit_value(s.last())
    }
}

fn digit_value(c: char) -> (d: u64)
    ensures
        d as nat == spec_digit_value(c),
{
    let u = c as u32;
    if 48 <= u && u <= 57 {
        (u - 48) as u64
    } else {
        0
    }
}

/// The problem number a mention stands for: its digit string's value, or
/// zero when that value does not fit a problem identifier.
pub open spec fn spec_mention_target(s: Seq<char>) -> nat {
    if spec_digits_value(s) <= u32::MAX {
        spec_digits_value(s)
    } else {
        0
    }
}

/// Read a digit string as a problem number, per [`spec_mention_target`]:
/// base ten, with zero standing in when the value overflows.
pub fn parse_u32_or_zero(s: &str) -> (r: u32)
    ensures
        r as nat == spec_mention_target(s@),
{
    let chars = chars_of(s);
    let mut acc: u64 = 0;
    let mut over: bool = false;
    let mut i: usize = 0;
    while i < chars.len()
        invariant
            i <= chars@.len(),
            chars@ == s@,
            !over ==> acc as nat == spec_digits_value(s@.take(i as int)) && acc <= u32::MAX,
            over ==> spec_digits_value(s@.take(i as int)) > u32::MAX,
        decreases chars@.len() - i,
    {
        let d = digit_value(chars[i]);
        proof {
            assert(s@.take(i + 1).drop_last() =~= s@.take(i as int));
            assert(s@.take(i + 1).last() == s@[i as int]);
        }
        if !over {
            let next = acc * 10 + d;
            if next > u32::MAX as u64 {
                over = true;
            } else {
                acc = next;
            }
        }
        i = i + 1;
    }
    proof {
        assert(s@.take(s@.len() as int) =~= s@);
    }
    if over {
        0
    } else {
        acc as u32
    }
}

/// The first problem of a list bearing a given number, if any.
pub open spec fn spec_find_problem(ps: Seq<Problem>, id: int) -> Option<Problem>
    decreases ps.len(),
{
    if ps.len() == 0 {
        None
    } else if ps[0].id == id {
        Some(ps[0])
    } else {
        spec_find_problem(ps.skip(1), id)
    }
}

/// Find the first problem with the given number, per
/// [`spec_find_problem`], returning its index.
pub fn find_problem(problems: &Vec<Problem>, id: u32) -> (r: Option<usize>)
    ensures
        match r {
            Some(k) => k < problems@.len() && spec_find_problem(problems@, id as int) == Some(
                problems@[k as int],
            ),
            None => spec_find_problem(problems@, id as int) is None,
        },
{
    let mut i: usize = 0;
    proof {
        assert(problems@.skip(0) =~= problems@);
    }
    while i < problems.len()
        invariant
            i <= problems@.len(),
            spec_find_problem(problems@, id as int) == spec_find_problem(
                problems@.skip(i as int),
                id as int,
            ),
        decreases problems@.len() - i,
    {
        proof {
            assert(problems@.skip(i as int)[0] == problems@[i as int]);
            assert(problems@.skip(i as int).skip(1) =~= problems@.skip(i + 1));
        }
        if problems[i].id == id {
            return Some(i);
        }
        i = i + 1;
    }
    None
}

/// One free-text mention paired with the search response its digit string
/// was queried with.
pub struct MentionLookup {
    pub number: String,
    pub search: Search,
}

/// The listing line one mention contributes: the line of the first problem
/// in its own search result whose number matches the mention exactly, or
/// nothing when none matches.
pub open spec fn spec_mention_line(e: MentionLookup) -> Option<Seq<char>> {
    match spec_find_problem(e.search.problems@, spec_mention_target(e.number@) as int) {
        Some(p) => Some(spec_problem_line(p)),
        None => None,
    }
}

/// The listing lines the mentions contribute, in order; silently skipped
/// mentions contribute nothing.
pub open spec fn spec_mention_lines(entries: Seq<MentionLookup>) -> Seq<Seq<char>>
    decreases entries.len(),
{
    if entries.len() == 0 {
        Seq::<Seq<char>>::empty()
    } else {
        spec_mention_lines(entries.drop_last()) + (match spec_mention_line(entries.last()) {
            Some(line) => seq![line],
            None => Seq::<Seq<char>>::empty(),
        })
    }
}

/// Lines joined with single line breaks, in order.
pub open spec fn spec_join_lines(lines: Seq<Seq<char>>) -> Seq<char>
    decreases lines.len(),
{
    if lines.len() == 0 {
        Seq::<char>::empty()
    } else if lines.len() == 1 {
        lines[0]
    } else {
        spec_join_lines(lines.drop_last()) + "\n"@ + lines.last()
    }
}

/// The whole plain-text reply: every mention's contributed line, joined
/// with line breaks.
pub open spec fn spec_mention_reply_text(entries: Seq<MentionLookup>) -> Seq<char> {
    spec_join_lines(spec_mention_lines(entries))
}

/// Join lines with line breaks, per [`spec_join_lines`].
fn join_lines(lines: &Vec<String>) -> (r: String)
    ensures
        r@ == spec_join_lines(lines.deep_view()),
{
    let mut s = String::new();
    let mut i: usize = 0;
    while i < lines.len()
        invariant
            i <= lines@.len(),
            s@ == spec_join_lines(lines.deep_view().take(i as int)),
        decreases lines@.len() - i,
    {
        if i > 0 {
            s.append("\n");
        }
        s.append(lines[i].as_str());
        i = i + 1;
        proof {
            assert(lines.deep_view().take(i as int).drop_last() =~= lines.deep_view().take(i - 1));
            assert(lines.deep_view().take(i as int).last() == lines.deep_view()[i - 1]);
            assert(s@ =~= spec_join_lines(lines.deep_view().take(i as int)));
        }
    }
    proof {
        assert(lines.deep_view().take(lines@.len() as int) =~= lines.deep_view());
    }
    s
}

/// Build the reply to a free-text message from its mentions' search
/// results, per [`spec_mention_reply_text`]: the matched listing lines
/// joined with line breaks, or no reply at all when no mention found an
/// exact match.
pub fn mention_reply(entries: &Vec<MentionLookup>) -> (r: Option<String>)
    requires
        forall|i: int| 0 <= i < entries@.len() ==> (#[trigger] entries@[i]).search.wf(),
    ensures
        spec_mention_reply_text(entries@).len() == 0 ==> r is None,
        spec_mention_reply_text(entries@).len() > 0 ==> (r matches Some(t) && t@
            == spec_mention_reply_text(entries@)),
{
    let mut lines: Vec<String> = Vec::new();
    let mut i: usize = 0;
    while i < entries.len()
        invariant
            i <= entries@.len(),
            forall|k: int| 0 <= k < entries@.len() ==> (#[trigger] entries@[k]).search.wf(),
            lines.deep_view() == spec_mention_lines(entries@.take(i as int)),
        decreases entries@.len() - i,
    {
        let entry = &entries[i];
        let id = parse_u32_or_zero(entry.number.as_str());
        proof {
            assert(entries@[i as int].search.wf());
        }
        match find_problem(&entry.search.problems, id) {
            Some(k) => {
                proof {
                    assert(entry.search.problems@[k as int].level.wf());
                }
                let line = problem_line(&entry.search.problems[k]);
                lines.push(line);
            },
            None => {},
        }
        i = i + 1;
        proof {
            assert(entries@.take(i as int).drop_last() =~= entries@.take(i - 1));
            assert(entries@.take(i as int).last() == entries@[i - 1]);
            assert(lines.deep_view() =~= spec_mention_lines(entries@.take(i as int)));
        }
    }
    proof {
        assert(entries@.take(entries@.len() as int) =~= entries@);
    }
    let text = join_lines(&lines);
    if text.as_str().unicode_len() == 0 {
        None
    } else {
        Some(text)
    }
}

} // verus!
