//! Parsing of `/label args...` command strings and resolution of the label
//! against the fixed command vocabulary.

use vstd::prelude::*;
use vstd::string::*;

use crate::error::BotError;
use crate::util::{chars_of, is_space, is_space_char};

verus! {

/// The index of the first whitespace character of `s` at or after `from`,
/// or `s.len()` if none follows.
pub open spec fn first_space_from(s: Seq<char>, from: int) -> int
    recommends
        0 <= from <= s.len(),
    decreases s.len() - from,
{
    if from < 0 || from >= s.len() {
        s.len() as int
    } else if is_space(s[from]) {
        from
    } else {
        first_space_from(s, from + 1)
    }
}

/// The index of the first non-whitespace character of `s` at or after
/// `from`, or `s.len()` if none follows.
pub open spec fn first_non_space_from(s: Seq<char>, from: int) -> int
    recommends
        0 <= from <= s.len(),
    decreases s.len() - from,
{
    if from < 0 || from >= s.len() {
        s.len() as int
    } else if !is_space(s[from]) {
        from
    } else {
        first_non_space_from(s, from + 1)
    }
}

/// `s` with its leading whitespace removed.
pub open spec fn spec_trim_start(s: Seq<char>) -> Seq<char> {
    s.skip(first_non_space_from(s, 0))
}

/// The label of a raw command string: everything between the sigil and the
/// first whitespace, or to the end if none.
pub open spec fn spec_label(raw: Seq<char>) -> Seq<char> {
    raw.subrange(1, first_space_from(raw, 1))
}

/// The argument text of a raw command string: everything after the first
/// whitespace, trimmed of further leading whitespace; empty if the label
/// runs to the end.
pub open spec fn spec_rest(raw: Seq<char>) -> Seq<char> {
    let delim = first_space_from(raw, 1);
    if delim == raw.len() {
        Seq::<char>::empty()
    } else {
        spec_trim_start(raw.skip(delim + 1))
    }
}

/// One parsed command: its label and the argument text still to be
/// tokenized. [`Command::next_token`] consumes the argument text; parsing
/// the raw string again restarts the token stream.
#[derive(Debug, Clone, Copy)]
pub struct Command<'a> {
    label: &'a str,
    args_left: &'a str,
}

impl<'a> Command<'a> {
    /// The parsed label.
    pub closed spec fn label_view(&self) -> Seq<char> {
        self.label@
    }

    /// The argument text not yet consumed by [`Command::next_token`].
    pub closed spec fn rest_view(&self) -> Seq<char> {
        self.args_left@
    }

    /// Parse a raw command string.
    ///
    /// Fails when the string does not start with the `/` sigil; otherwise
    /// the label is the text between the sigil and the first whitespace,
    /// and the remaining argument text follows the first whitespace run.
    pub fn new(raw: &'a str) -> (r: Result<Command<'a>, BotError>)
        ensures
            (raw@.len() == 0 || raw@[0] != '/') <==> r is Err,
            r matches Err(e) ==> e matches BotError::NotACommand(t) && t@ == raw@,
            r matches Ok(c) ==> c.label_view() == spec_label(raw@) && c.rest_view() == spec_rest(
                raw@,
            ),
    {
        let chars = chars_of(raw);
        let n = chars.len();
        if n == 0 || chars[0] != '/' {
            return Err(BotError::NotACommand(raw.to_owned()));
        }
        let mut delim: usize = 1;
        while delim < n && !is_space_char(chars[delim])
            invariant
                1 <= delim <= n,
                n == raw@.len(),
                chars@ == raw@,
                first_space_from(raw@, 1) == first_space_from(raw@, delim as int),
            decreases n - delim,
        {
            delim = delim + 1;
        }
        proof {
            assert(first_space_from(raw@, delim as int) == delim as int);
        }
        let label = raw.substring_char(1, delim);
        let args_left = if delim == n {
            let empty = raw.substring_char(n, n);
            proof {
                assert(empty@ =~= spec_rest(raw@));
            }
            empty
        } else {
            let mut start: usize = delim + 1;
            while start < n && is_space_char(chars[start])
                invariant
                    delim + 1 <= start <= n,
                    n == raw@.len(),
                    chars@ == raw@,
                    first_non_space_from(raw@, delim + 1) == first_non_space_from(
                        raw@,
                        start as int,
                    ),
                decreases n - start,
            {
                start = start + 1;
            }
            proof {
                assert(first_non_space_from(raw@, start as int) == start as int);
                lemma_first_non_space_shift(raw@, delim + 1);
            }
            let rest = raw.substring_char(start, n);
            proof {
                assert(rest@ =~= spec_rest(raw@));
            }
            rest
        };
        Ok(Command { label, args_left })
    }

    /// The parsed label, as one string.
    pub fn label(&self) -> (r: &'a str)
        ensures
            r@ == self.label_view(),
    {
        self.label
    }

    /// The argument text not yet consumed, as one string.
    pub fn rest(&self) -> (r: &'a str)
        ensures
            r@ == self.rest_view(),
    {
        self.args_left
    }

    /// Take the next whitespace-delimited token of the argument text, or
    /// `None` once none remains. The token runs to the first whitespace
    /// (or to the end); the text after it is trimmed of leading whitespace
    /// before the next call.
    pub fn next_token(&mut self) -> (t: Option<&'a str>)
        ensures
            final(self).label_view() == old(self).label_view(),
            old(self).rest_view().len() == 0 ==> t is None && final(self).rest_view() == old(
                self,
            ).rest_view(),
            old(self).rest_view().len() > 0 ==> {
                let rest = old(self).rest_view();
                let delim = first_space_from(rest, 0);
                &&& t matches Some(tok) && tok@ == rest.subrange(0, delim)
                &&& final(self).rest_view() == (if delim == rest.len() {
                    Seq::<char>::empty()
                } else {
                    spec_trim_start(rest.skip(delim + 1))
                })
            },
    {
        let rest = self.args_left;
        let chars = chars_of(rest);
        let n = chars.len();
        if n == 0 {
            return None;
        }
        let mut delim: usize = 0;
        while delim < n && !is_space_char(chars[delim])
            invariant
                delim <= n,
                n == rest@.len(),
                chars@ == rest@,
                first_space_from(rest@, 0) == first_space_from(rest@, delim as int),
            decreases n - delim,
        {
            delim = delim + 1;
        }
        proof {
            assert(first_space_from(rest@, delim as int) == delim as int);
        }
        let token = rest.substring_char(0, delim);
        if delim == n {
            self.args_left = rest.substring_char(n, n);
            proof {
                assert(self.args_left@ =~= Seq::<char>::empty());
            }
        } else {
            let mut start: usize = delim + 1;
            while start < n && is_space_char(chars[start])
                invariant
                    delim + 1 <= start <= n,
                    n == rest@.len(),
                    chars@ == rest@,
                    first_non_space_from(rest@, delim + 1) == first_non_space_from(
                        rest@,
                        start as int,
                    ),
                decreases n - start,
            {
                start = start + 1;
            }
            proof {
                assert(first_non_space_from(rest@, start as int) == start as int);
                lemma_first_non_space_shift(rest@, delim + 1);
            }
            self.args_left = rest.substring_char(start, n);
            proof {
                assert(self.args_left@ =~= spec_trim_start(rest@.skip(delim + 1)));
            }
        }
        Some(token)
    }
}

/// Trimming a suffix `s.skip(from)` removes exactly the characters up to
/// the first non-whitespace position of `s` at or after `from`.
proof fn lemma_first_non_space_shift(s: Seq<char>, from: int)
    requires
        0 <= from <= s.len(),
    ensures
        spec_trim_start(s.skip(from)) == s.skip(first_non_space_from(s, from)),
        from <= first_non_space_from(s, from) <= s.len(),
{
    lemma_first_non_space_bounds(s, from);
    let t = s.skip(from);
    lemma_skip_shift(s, from, first_non_space_from(s, from));
    if from == s.len() {
        assert(t.len() == 0);
        assert(first_non_space_from(t, 0) == 0);
    } else {
        lemma_first_non_space_skip(s, from, 0);
    }
}

/// `first_non_space_from` never leaves the string.
proof fn lemma_first_non_space_bounds(s: Seq<char>, from: int)
    requires
        0 <= from <= s.len(),
    ensures
        from <= first_non_space_from(s, from) <= s.len(),
    decreases s.len() - from,
{
    if from < s.len() && is_space(s[from]) {
        lemma_first_non_space_bounds(s, from + 1);
    }
}

/// Searching a suffix finds the same first non-whitespace position,
/// shifted by the suffix's offset.
proof fn lemma_first_non_space_skip(s: Seq<char>, from: int, i: int)
    requires
        0 <= from < s.len(),
        0 <= i <= s.len() - from,
    ensures
        first_non_space_from(s.skip(from), i) == first_non_space_from(s, from + i) - from,
    decreases s.len() - from - i,
{
    let t = s.skip(from);
    if i < t.len() {
        assert(t[i] == s[from + i]);
        if is_space(s[from + i]) {
            lemma_first_non_space_skip(s, from, i + 1);
        }
    }
}

/// The two commands the bot knows.
#[derive(Debug, Clone, Copy, PartialEq, Eq, Structural)]
pub enum CommandKind {
    Problem,
    User,
}

/// Whether `a` is an order-preserving subsequence of `b`: the characters
/// of `a` all occur in `b`, in the same order, not necessarily adjacent.
/// The empty sequence is a subsequence of everything.
pub open spec fn spec_subsequence(a: Seq<char>, b: Seq<char>) -> bool
    decreases b.len(),
{
    if a.len() == 0 {
        true
    } else if b.len() == 0 {
        false
    } else if a[0] == b[0] {
        spec_subsequence(a.skip(1), b.skip(1))
    } else {
        spec_subsequence(a, b.skip(1))
    }
}

/// Decide [`spec_subsequence`] by greedy matching.
pub fn is_subsequence(a: &str, b: &str) -> (r: bool)
    ensures
        r == spec_subsequence(a@, b@),
{
    let av = chars_of(a);
    let bv = chars_of(b);
    let mut i: usize = 0;
    let mut j: usize = 0;
    proof {
        assert(a@.skip(0) =~= a@);
        assert(b@.skip(0) =~= b@);
    }
    while i < av.len() && j < bv.len()
        invariant
            i <= av@.len(),
            j <= bv@.len(),
            av@ == a@,
            bv@ == b@,
            spec_subsequence(a@, b@) == spec_subsequence(a@.skip(i as int), b@.skip(j as int)),
        decreases bv@.len() - j,
    {
        proof {
            assert(a@.skip(i as int)[0] == a@[i as int]);
            assert(b@.skip(j as int)[0] == b@[j as int]);
            assert(a@.skip(i as int).skip(1) =~= a@.skip(i + 1));
            assert(b@.skip(j as int).skip(1) =~= b@.skip(j + 1));
        }
        if av[i] == bv[j] {
            i = i + 1;
        }
        j = j + 1;
    }
    proof {
        if i == av@.len() {
            assert(a@.skip(i as int).len() == 0);
        } else {
            assert(a@.skip(i as int).len() > 0);
            assert(b@.skip(j as int).len() == 0);
        }
    }
    i == a.unicode_len()
}

/// Which command a label resolves to.
///
/// Matching policy, fixed deliberately: the label matches a command when it
/// is an order-preserving subsequence of the command word, and the words
/// are tried in the fixed order `problem`, then `user`; the first match
/// wins. So `p`, `pr`, and also `pm` resolve to `Problem`, while a label
/// that matches no word resolves to nothing.
pub open spec fn spec_resolve(label: Seq<char>) -> Option<CommandKind> {
    if spec_subsequence(label, "problem"@) {
        Some(CommandKind::Problem)
    } else if spec_subsequence(label, "user"@) {
        Some(CommandKind::User)
    } else {
        None
    }
}

/// Resolve a command label against the vocabulary, per [`spec_resolve`].
/// A label that resolves to nothing is not an error: the caller drops the
/// message silently.
pub fn resolve(label: &str) -> (r: Option<CommandKind>)
    ensures
        r == spec_resolve(label@),
{
    if is_subsequence(label, "problem") {
        Some(CommandKind::Problem)
    } else if is_subsequence(label, "user") {
        Some(CommandKind::User)
    } else {
        None
    }
}

/// Skipping to an index inside a suffix is skipping to it in the whole.
proof fn lemma_skip_shift(s: Seq<char>, from: int, to: int)
    requires
        0 <= from <= to <= s.len(),
    ensures
        s.skip(from).skip(to - from) == s.skip(to),
{
    assert(s.skip(from).skip(to - from) =~= s.skip(to));
}

} // verus!
