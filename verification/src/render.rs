//! Rendering of search results into reply text: problem listing lines,
//! user cards, command replies, and inline-query items.

use vstd::prelude::*;
use vstd::string::*;

use crate::command::CommandKind;
use crate::solved::{ClassDecoration, Problem, Search, User, spec_level_text};
use crate::util::{
    chars_to_string, escape_markdown, format_thousands, spec_digits, spec_escape, spec_formatted,
    u64_digits,
};

verus! {

/// A problem's listing line: its level, number, and escaped caption,
/// rendered as a link to its canonical URL.
pub open spec fn spec_problem_line(p: Problem) -> Seq<char> {
    "["@ + spec_level_text(p.level) + " \\| \\#"@ + spec_digits(p.id as nat) + " \\- "@
        + spec_escape(p.caption@) + "]("@ + p.href@ + ")"@
}

/// Render one problem's listing line, per [`spec_problem_line`].
pub fn problem_line(p: &Problem) -> (r: String)
    requires
        p.level.wf(),
    ensures
        r@ == spec_problem_line(*p),
{
    let mut s = "[".to_owned();
    let level = p.level.render();
    s.append(level.as_str());
    s.append(" \\| \\#");
    let id = u64_digits(p.id as u64);
    let id_text = chars_to_string(&id);
    s.append(id_text.as_str());
    s.append(" \\- ");
    let caption = escape_markdown(p.caption.as_str());
    s.append(caption.as_str());
    s.append("](");
    s.append(p.href.as_str());
    s.append(")");
    proof {
        assert(s@ =~= spec_problem_line(*p));
    }
    s
}

/// Problem listing lines joined with single line breaks, in order.
pub open spec fn spec_problem_lines(ps: Seq<Problem>) -> Seq<char>
    decreases ps.len(),
{
    if ps.len() == 0 {
        Seq::<char>::empty()
    } else if ps.len() == 1 {
        spec_problem_line(ps[0])
    } else {
        spec_problem_lines(ps.drop_last()) + "\n"@ + spec_problem_line(ps.last())
    }
}

/// Join all problems' listing lines with line breaks, per
/// [`spec_problem_lines`].
pub fn problem_lines(problems: &Vec<Problem>) -> (r: String)
    requires
        forall|i: int| 0 <= i < problems@.len() ==> (#[trigger] problems@[i]).level.wf(),
    ensures
        r@ == spec_problem_lines(problems@),
{
    let mut s = String::new();
    let mut i: usize = 0;
    while i < problems.len()
        invariant
            i <= problems@.len(),
            forall|k: int| 0 <= k < problems@.len() ==> (#[trigger] problems@[k]).level.wf(),
            s@ == spec_problem_lines(problems@.take(i as int)),
        decreases problems@.len() - i,
    {
        if i > 0 {
            s.append("\n");
        }
        let line = problem_line(&problems[i]);
        s.append(line.as_str());
        i = i + 1;
        proof {
            assert(problems@.take(i as int).drop_last() =~= problems@.take(i - 1));
            assert(problems@.take(i as int).last() == problems@[i - 1]);
            assert(s@ =~= spec_problem_lines(problems@.take(i as int)));
        }
    }
    proof {
        assert(problems@.take(problems@.len() as int) =~= problems@);
    }
    s
}

/// The fixed reply when an explicit command's search matched nothing.
pub open spec fn spec_no_results() -> Seq<char> {
    "검색 결과가 없습니다\\."@
}

/// The text a `/problem` command replies with: the joined listing lines,
/// or the fixed no-results line when the search matched no problem.
pub open spec fn spec_problem_reply_text(ps: Seq<Problem>) -> Seq<char> {
    if ps.len() == 0 {
        spec_no_results()
    } else {
        spec_problem_lines(ps)
    }
}

/// Render the `/problem` reply text, per [`spec_problem_reply_text`].
pub fn problem_list_message(problems: &Vec<Problem>) -> (r: String)
    requires
        forall|i: int| 0 <= i < problems@.len() ==> (#[trigger] problems@[i]).level.wf(),
    ensures
        r@ == spec_problem_reply_text(problems@),
{
    if problems.len() == 0 {
        "검색 결과가 없습니다\\.".to_owned()
    } else {
        problem_lines(problems)
    }
}

/// The decoration suffix appended to a user's class number.
pub open spec fn spec_deco_suffix(d: ClassDecoration) -> Seq<char> {
    match d {
        ClassDecoration::Normal => Seq::<char>::empty(),
        ClassDecoration::Silver => "\\+"@,
        ClassDecoration::Gold => "\\+\\+"@,
    }
}

/// The class decoration's escaped display suffix, per [`spec_deco_suffix`].
pub fn deco_suffix(d: ClassDecoration) -> (r: &'static str)
    ensures
        r@ == spec_deco_suffix(d),
{
    proof {
        reveal_strlit("");
    }
    match d {
        ClassDecoration::Normal => "",
        ClassDecoration::Silver => "\\+",
        ClassDecoration::Gold => "\\+\\+",
    }
}

/// A user's card: escaped handle and rank, level and decorated class,
/// escaped bio, thousands-separated solve count and experience, and the two
/// profile links built from the raw handle.
pub open spec fn spec_user_card(u: User) -> Seq<char> {
    "*"@ + spec_escape(u.user_id@) + " \\("@ + spec_digits(u.rank as nat) + "위\\)*\n__"@
        + spec_level_text(u.level) + ", Class "@ + spec_digits(u.class as nat) + spec_deco_suffix(
        u.class_decoration,
    ) + "__\n"@ + spec_escape(u.bio@) + "\n*"@ + spec_formatted(u.solved as nat)
        + "문제* 해결 \\| *경험치* "@ + spec_formatted(u.exp as nat)
        + "\n▸ [solved\\.ac](https://solved.ac/profile/"@ + u.user_id@
        + ") ▸ [acmicpc\\.net](https://acmicpc.net/user/"@ + u.user_id@ + ")"@
}

/// Render one user's card, per [`spec_user_card`].
pub fn user_card(u: &User) -> (r: String)
    requires
        u.level.wf(),
    ensures
        r@ == spec_user_card(*u),
{
    let mut s = "*".to_owned();
    let handle = escape_markdown(u.user_id.as_str());
    s.append(handle.as_str());
    s.append(" \\(");
    let rank = u64_digits(u.rank as u64);
    let rank_text = chars_to_string(&rank);
    s.append(rank_text.as_str());
    s.append("위\\)*\n__");
    let level = u.level.render();
    s.append(level.as_str());
    s.append(", Class ");
    let class = u64_digits(u.class as u64);
    let class_text = chars_to_string(&class);
    s.append(class_text.as_str());
    s.append(deco_suffix(u.class_decoration));
    s.append("__\n");
    let bio = escape_markdown(u.bio.as_str());
    s.append(bio.as_str());
    s.append("\n*");
    let solved = format_thousands(u.solved as u64);
    s.append(solved.as_str());
    s.append("문제* 해결 \\| *경험치* ");
    let exp = format_thousands(u.exp);
    s.append(exp.as_str());
    s.append("\n▸ [solved\\.ac](https://solved.ac/profile/");
    s.append(u.user_id.as_str());
    s.append(") ▸ [acmicpc\\.net](https://acmicpc.net/user/");
    s.append(u.user_id.as_str());
    s.append(")");
    proof {
        assert(s@ =~= spec_user_card(*u));
    }
    s
}

/// The image a user card is attached to: the user's own profile image, or
/// the fixed placeholder when they have none.
pub open spec fn spec_user_image(u: User) -> Seq<char> {
    match u.profile_image_url {
        Some(url) => url@,
        None => "https://static.solved.ac/misc/360x360/default_profile.png"@,
    }
}

/// The user card's image URL, per [`spec_user_image`].
pub fn user_image(u: &User) -> (r: String)
    ensures
        r@ == spec_user_image(*u),
{
    match &u.profile_image_url {
        Some(url) => url.clone(),
        None => "https://static.solved.ac/misc/360x360/default_profile.png".to_owned(),
    }
}

/// One outbound reply: plain formatted text, or a photo with a caption.
#[derive(Debug, Clone)]
pub enum Reply {
    Text(String),
    Photo { url: String, caption: String },
}

/// Build the reply to a resolved command from its search response.
///
/// `/problem` always answers with text: the listing lines, or the fixed
/// no-results line. `/user` answers with a photo carrying the first matched
/// user's card, or with the no-results text when no user matched.
pub fn command_reply(kind: CommandKind, search: &Search) -> (r: Reply)
    requires
        search.wf(),
    ensures
        kind == CommandKind::Problem ==> (r matches Reply::Text(t) && t@
            == spec_problem_reply_text(search.problems@)),
        kind == CommandKind::User && search.users@.len() == 0 ==> (r matches Reply::Text(t) && t@
            == spec_no_results()),
        kind == CommandKind::User && search.users@.len() > 0 ==> (r matches Reply::Photo {
            url,
            caption,
        } && url@ == spec_user_image(search.users@[0]) && caption@ == spec_user_card(
            search.users@[0],
        )),
{
    match kind {
        CommandKind::Problem => Reply::Text(problem_list_message(&search.problems)),
        CommandKind::User => {
            if search.users.len() == 0 {
                Reply::Text("검색 결과가 없습니다\\.".to_owned())
            } else {
                let u = &search.users[0];
                proof {
                    assert(search.users@[0].level.wf());
                }
                Reply::Photo { url: user_image(u), caption: user_card(u) }
            }
        },
    }
}

/// One selectable inline-query result: its identifier, its visible title,
/// and the message text it expands to.
#[derive(Debug, Clone)]
pub struct QueryItem {
    pub id: String,
    pub title: String,
    pub text: String,
}

/// The three views of a query item, for stating contracts.
pub open spec fn spec_query_item(q: QueryItem) -> (Seq<char>, Seq<char>, Seq<char>) {
    (q.id@, q.title@, q.text@)
}

/// A problem's inline item: the problem number as identifier, the number
/// and raw caption as title, and the listing line as text.
pub open spec fn spec_problem_item(p: Problem) -> (Seq<char>, Seq<char>, Seq<char>) {
    (
        spec_digits(p.id as nat),
        spec_digits(p.id as nat) + "번 - "@ + p.caption@,
        spec_problem_line(p),
    )
}

/// A user's inline item: the handle as identifier and title, and the card
/// as text.
pub open spec fn spec_user_item(u: User) -> (Seq<char>, Seq<char>, Seq<char>) {
    (u.user_id@, u.user_id@, spec_user_card(u))
}

/// Build a problem's inline item, per [`spec_problem_item`].
pub fn problem_query_item(p: &Problem) -> (r: QueryItem)
    requires
        p.level.wf(),
    ensures
        spec_query_item(r) == spec_problem_item(*p),
{
    let id = u64_digits(p.id as u64);
    let id_text = chars_to_string(&id);
    let mut title = id_text.clone();
    title.append("번 - ");
    title.append(p.caption.as_str());
    let text = problem_line(p);
    let r = QueryItem { id: id_text, title, text };
    proof {
        assert(r.title@ =~= spec_problem_item(*p).1);
        assert(spec_query_item(r) =~= spec_problem_item(*p));
    }
    r
}

/// Build a user's inline item, per [`spec_user_item`].
pub fn user_query_item(u: &User) -> (r: QueryItem)
    requires
        u.level.wf(),
    ensures
        spec_query_item(r) == spec_user_item(*u),
{
    let r = QueryItem { id: u.user_id.clone(), title: u.user_id.clone(), text: user_card(u) };
    proof {
        assert(spec_query_item(r) =~= spec_user_item(*u));
    }
    r
}

/// Build the full inline-query answer from one search response: an item
/// for every matched problem, then one for every matched user.
pub fn inline_results(search: &Search) -> (r: Vec<QueryItem>)
    requires
        search.wf(),
    ensures
        r@.len() == search.problems@.len() + search.users@.len(),
        forall|i: int|
            0 <= i < search.problems@.len() ==> spec_query_item(r@[i]) == spec_problem_item(
                #[trigger] search.problems@[i],
            ),
        forall|i: int|
            0 <= i < search.users@.len() ==> spec_query_item(r@[search.problems@.len() + i])
                == spec_user_item(#[trigger] search.users@[i]),
{
    let mut r: Vec<QueryItem> = Vec::new();
    let mut i: usize = 0;
    while i < search.problems.len()
        invariant
            search.wf(),
            i <= search.problems@.len(),
            r@.len() == i,
            forall|k: int|
                0 <= k < i ==> spec_query_item(r@[k]) == spec_problem_item(
                    #[trigger] search.problems@[k],
                ),
        decreases search.problems@.len() - i,
    {
        proof {
            assert(search.problems@[i as int].level.wf());
        }
        let item = problem_query_item(&search.problems[i]);
        r.push(item);
        i = i + 1;
    }
    let mut j: usize = 0;
    while j < search.users.len()
        invariant
            search.wf(),
            j <= search.users@.len(),
            r@.len() == search.problems@.len() + j,
            forall|k: int|
                0 <= k < search.problems@.len() ==> spec_query_item(r@[k]) == spec_problem_item(
                    #[trigger] search.problems@[k],
                ),
            forall|k: int|
                0 <= k < j ==> spec_query_item(r@[search.problems@.len() + k]) == spec_user_item(
                    #[trigger] search.users@[k],
                ),
        decreases search.users@.len() - j,
    {
        proof {
            assert(search.users@[j as int].level.wf());
        }
        let item = user_query_item(&search.users[j]);
        r.push(item);
        j = j + 1;
    }
    r
}

} // verus!
