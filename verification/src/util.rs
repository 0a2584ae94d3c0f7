//! Text helpers shared by the formatting pipeline: MarkdownV2 escaping,
//! decimal rendering, and thousands grouping.

use vstd::prelude::*;
use vstd::string::*;

verus! {

/// The fixed set of characters that MarkdownV2 templates treat as markup;
/// each must be escaped before interpolation.
pub open spec fn is_special(c: char) -> bool {
    ||| c == '_'
    ||| c == '*'
    ||| c == '['
    ||| c == ']'
    ||| c == '('
    ||| c == ')'
    ||| c == '~'
    ||| c == '`'
    ||| c == '>'
    ||| c == '#'
    ||| c == '+'
    ||| c == '-'
    ||| c == '='
    ||| c == '|'
    ||| c == '{'
    ||| c == '}'
    ||| c == '.'
    ||| c == '!'
}

/// What escaping yields: the text with a backslash inserted before every
/// markup character. The backslash itself is not markup, so escaping an
/// already-escaped text escapes it again.
pub open spec fn spec_escape(s: Seq<char>) -> Seq<char>
    decreases s.len(),
{
    if s.len() == 0 {
        Seq::<char>::empty()
    } else {
        spec_escape(s.drop_last()) + (if is_special(s.last()) {
            seq!['\\', s.last()]
        } else {
            seq![s.last()]
        })
    }
}

/// Whether a single character is markup, decided exactly as [`is_special`]
/// states.
pub fn is_special_char(c: char) -> (r: bool)
    ensures
        r == is_special(c),
{
    c == '_' || c == '*' || c == '[' || c == ']' || c == '(' || c == ')' || c == '~' || c == '`'
        || c == '>' || c == '#' || c == '+' || c == '-' || c == '=' || c == '|' || c == '{'
        || c == '}' || c == '.' || c == '!'
}

/// The characters of `s`, in order.
pub fn chars_of(s: &str) -> (v: Vec<char>)
    ensures
        v@ == s@,
{
    let n = s.unicode_len();
    let mut v: Vec<char> = Vec::new();
    let mut i: usize = 0;
    while i < n
        invariant
            i <= n,
            n == s@.len(),
            v@ == s@.take(i as int),
        decreases n - i,
    {
        let c = s.get_char(i);
        v.push(c);
        i = i + 1;
        assert(v@ =~= s@.take(i as int));
    }
    assert(v@ =~= s@);
    v
}

/// Relies on `String`'s `FromIterator<char>` implementation: collecting
/// characters yields the string of exactly those characters, in order.
#[verifier::external_body]
pub(crate) fn chars_to_string(v: &Vec<char>) -> (r: String)
    ensures
        r@ == v@,
{
    v.iter().collect()
}

/// Escape a text for interpolation into a MarkdownV2 template, per
/// [`spec_escape`]. Escaping is applied exactly once per interpolation
/// site, never to an assembled message: it is not idempotent
/// (see [`lemma_escape_not_idempotent`]).
pub fn escape_markdown(s: &str) -> (r: String)
    ensures
        r@ == spec_escape(s@),
{
    let chars = chars_of(s);
    let mut out: Vec<char> = Vec::new();
    let mut i: usize = 0;
    while i < chars.len()
        invariant
            i <= chars@.len(),
            chars@ == s@,
            out@ == spec_escape(s@.take(i as int)),
        decreases chars@.len() - i,
    {
        let c = chars[i];
        if is_special_char(c) {
            out.push('\\');
            out.push(c);
        } else {
            out.push(c);
        }
        i = i + 1;
        proof {
            assert(s@.take(i as int).drop_last() =~= s@.take(i - 1));
            assert(s@.take(i as int).last() == s@[i - 1]);
            assert(out@ =~= spec_escape(s@.take(i as int)));
        }
    }
    proof {
        assert(s@.take(s@.len() as int) =~= s@);
    }
    chars_to_string(&out)
}

/// How many markup characters a text holds.
pub open spec fn count_special(s: Seq<char>) -> nat
    decreases s.len(),
{
    if s.len() == 0 {
        0
    } else {
        count_special(s.drop_last()) + (if is_special(s.last()) {
            1nat
        } else {
            0nat
        })
    }
}

/// Escaping adds one character per markup character.
pub proof fn lemma_escape_len(s: Seq<char>)
    ensures
        spec_escape(s).len() == s.len() + count_special(s),
    decreases s.len(),
{
    if s.len() > 0 {
        lemma_escape_len(s.drop_last());
    }
}

/// Escaping neither removes nor adds markup characters: the inserted
/// backslashes are not markup, and every original character stays.
pub proof fn lemma_escape_count(s: Seq<char>)
    ensures
        count_special(spec_escape(s)) == count_special(s),
    decreases s.len(),
{
    if s.len() > 0 {
        lemma_escape_count(s.drop_last());
        let e = spec_escape(s.drop_last());
        if is_special(s.last()) {
            let t = e + seq!['\\', s.last()];
            assert(t.drop_last() =~= e + seq!['\\']);
            assert((e + seq!['\\']).drop_last() =~= e);
            lemma_count_snoc(e, '\\');
            lemma_count_snoc(e + seq!['\\'], s.last());
        } else {
            let t = e + seq![s.last()];
            assert(t.drop_last() =~= e);
            lemma_count_snoc(e, s.last());
        }
    }
}

/// Appending one character raises the markup count by one exactly when that
/// character is markup.
proof fn lemma_count_snoc(s: Seq<char>, c: char)
    ensures
        count_special(s + seq![c]) == count_special(s) + (if is_special(c) {
            1nat
        } else {
            0nat
        }),
{
    assert((s + seq![c]).drop_last() =~= s);
    assert((s + seq![c]).last() == c);
}

/// A text with at least one markup character has a positive markup count.
proof fn lemma_count_pos(s: Seq<char>, i: int)
    requires
        0 <= i < s.len(),
        is_special(s[i]),
    ensures
        count_special(s) >= 1,
    decreases s.len(),
{
    if i == s.len() - 1 {
    } else {
        lemma_count_pos(s.drop_last(), i);
    }
}

/// Escaping is not self-inverse: on any text that holds a markup character,
/// escaping twice yields a longer text than escaping once, so callers must
/// escape each fragment exactly once.
pub proof fn lemma_escape_not_idempotent(s: Seq<char>, i: int)
    requires
        0 <= i < s.len(),
        is_special(s[i]),
    ensures
        spec_escape(spec_escape(s)) != spec_escape(s),
{
    lemma_count_pos(s, i);
    lemma_escape_len(s);
    lemma_escape_count(s);
    lemma_escape_len(spec_escape(s));
}

/// The whitespace characters that delimit command tokens: ASCII space,
/// tab, and line breaks.
pub open spec fn is_space(c: char) -> bool {
    c == ' ' || c == '\t' || c == '\n' || c == '\r'
}

/// Whether a character is token-delimiting whitespace, per [`is_space`].
pub fn is_space_char(c: char) -> (r: bool)
    ensures
        r == is_space(c),
{
    c == ' ' || c == '\t' || c == '\n' || c == '\r'
}

/// The decimal digit character for a value in `0..=9`.
pub open spec fn spec_digit_char(d: int) -> char {
    if d == 0 {
        '0'
    } else if d == 1 {
        '1'
    } else if d == 2 {
        '2'
    } else if d == 3 {
        '3'
    } else if d == 4 {
        '4'
    } else if d == 5 {
        '5'
    } else if d == 6 {
        '6'
    } else if d == 7 {
        '7'
    } else if d == 8 {
        '8'
    } else {
        '9'
    }
}

/// The decimal rendering of a number: most significant digit first, no
/// leading zeros except for the number `0` itself.
pub open spec fn spec_digits(n: nat) -> Seq<char>
    decreases n,
{
    if n < 10 {
        seq![spec_digit_char(n as int)]
    } else {
        spec_digits(n / 10) + seq![spec_digit_char((n % 10) as int)]
    }
}

fn digit_char(d: u64) -> (c: char)
    requires
        d < 10,
    ensures
        c == spec_digit_char(d as int),
{
    if d == 0 {
        '0'
    } else if d == 1 {
        '1'
    } else if d == 2 {
        '2'
    } else if d == 3 {
        '3'
    } else if d == 4 {
        '4'
    } else if d == 5 {
        '5'
    } else if d == 6 {
        '6'
    } else if d == 7 {
        '7'
    } else if d == 8 {
        '8'
    } else {
        '9'
    }
}

/// The decimal digits of `n`, per [`spec_digits`].
pub fn u64_digits(n: u64) -> (v: Vec<char>)
    ensures
        v@ == spec_digits(n as nat),
    decreases n,
{
    if n < 10 {
        let mut v: Vec<char> = Vec::new();
        v.push(digit_char(n));
        proof {
            assert(v@ =~= spec_digits(n as nat));
        }
        v
    } else {
        let mut v = u64_digits(n / 10);
        v.push(digit_char(n % 10));
        proof {
            assert(v@ =~= spec_digits(n as nat));
        }
        v
    }
}

/// A digit string with a comma before each complete group of three digits
/// counted from the right, as the English locale writes large numbers.
pub open spec fn spec_grouped(d: Seq<char>) -> Seq<char>
    decreases d.len(),
{
    if d.len() <= 3 {
        d
    } else {
        spec_grouped(d.take(d.len() - 3)) + seq![','] + d.skip(d.len() - 3)
    }
}

/// Insert thousands separators into a digit string, per [`spec_grouped`].
fn group_chars(d: &Vec<char>) -> (v: Vec<char>)
    ensures
        v@ == spec_grouped(d@),
    decreases d@.len(),
{
    let n = d.len();
    if n <= 3 {
        let mut v: Vec<char> = Vec::new();
        let mut i: usize = 0;
        while i < n
            invariant
                i <= n,
                n == d@.len(),
                v@ == d@.take(i as int),
            decreases n - i,
        {
            v.push(d[i]);
            i = i + 1;
            assert(v@ =~= d@.take(i as int));
        }
        proof {
            assert(d@.take(n as int) =~= d@);
        }
        v
    } else {
        let mut head: Vec<char> = Vec::new();
        let mut i: usize = 0;
        while i < n - 3
            invariant
                i <= n - 3,
                3 < n == d@.len(),
                head@ == d@.take(i as int),
            decreases n - 3 - i,
        {
            head.push(d[i]);
            i = i + 1;
            assert(head@ =~= d@.take(i as int));
        }
        let mut v = group_chars(&head);
        v.push(',');
        v.push(d[n - 3]);
        v.push(d[n - 2]);
        v.push(d[n - 1]);
        proof {
            assert(v@ =~= spec_grouped(d@));
        }
        v
    }
}

/// The thousands-separated decimal rendering of a number, as the English
/// locale writes it.
pub open spec fn spec_formatted(n: nat) -> Seq<char> {
    spec_grouped(spec_digits(n))
}

/// Render `n` with thousands separators: decimal digits with a comma before
/// each complete group of three, counted from the right.
pub fn format_thousands(n: u64) -> (r: String)
    ensures
        r@ == spec_formatted(n as nat),
{
    let digits = u64_digits(n);
    let grouped = group_chars(&digits);
    chars_to_string(&grouped)
}

} // verus!
