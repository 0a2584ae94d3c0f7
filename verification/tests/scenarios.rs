//! End-to-end runs through the pipeline, with search responses supplied by
//! hand in place of the network.

use solvedbot::command::{resolve, Command, CommandKind};
use solvedbot::mention::{find_mentions, mention_reply, MentionLookup};
use solvedbot::render::{command_reply, Reply};
use solvedbot::solved::{decode_level, Problem, Search};

fn empty_search() -> Search {
    Search {
        autocomplete: Vec::new(),
        problems: Vec::new(),
        problem_count: 0,
        users: Vec::new(),
        user_count: 0,
        algorithms: Vec::new(),
        algorithm_count: 0,
        wiki_articles: Vec::new(),
    }
}

#[test]
fn free_text_mention_yields_one_listing_line() {
    // A free-text message mentioning one problem, whose own search returns
    // that problem among others: one formatted line, carrying the number
    // and the link.
    let numbers = find_mentions("#1000 풀이");
    assert_eq!(numbers, vec!["1000"]);

    let mut search = empty_search();
    search.problems.push(Problem {
        id: 1000,
        title: String::from("A+B"),
        level: decode_level(1).unwrap(),
        solved: 300000,
        caption: String::from("A+B"),
        description: String::new(),
        href: String::from("https://www.acmicpc.net/problem/1000"),
    });
    search.problem_count = 1;

    let entries: Vec<MentionLookup> = numbers
        .into_iter()
        .map(|number| MentionLookup { number, search: search.clone() })
        .collect();
    let reply = mention_reply(&entries).unwrap();
    assert!(reply.contains("\\#1000"));
    assert!(reply.contains("https://www.acmicpc.net/problem/1000"));
    assert_eq!(
        reply,
        "[Bronze V \\| \\#1000 \\- A\\+B](https://www.acmicpc.net/problem/1000)"
    );
}

#[test]
fn free_text_without_long_number_yields_no_reply() {
    let numbers = find_mentions("오늘 123 풀었다");
    assert!(numbers.is_empty());
    assert_eq!(mention_reply(&Vec::new()), None);
}

#[test]
fn user_command_with_empty_search_answers_no_results_text() {
    // `/user` with an empty argument string, and a search that matched no
    // user: the literal no-results text, not a photo.
    let command = Command::new("/user").unwrap();
    assert_eq!(command.rest(), "");
    let kind = resolve(command.label()).unwrap();
    assert_eq!(kind, CommandKind::User);

    let reply = command_reply(kind, &empty_search());
    match reply {
        Reply::Text(t) => assert_eq!(t, "검색 결과가 없습니다\\."),
        Reply::Photo { .. } => panic!("expected a text reply, not a photo"),
    }
}
