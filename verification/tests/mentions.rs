use solvedbot::mention::{find_mentions, mention_reply, parse_u32_or_zero, MentionLookup};
use solvedbot::solved::{decode_level, Problem, Search};

fn empty_search() -> Search {
    Search {
        autocomplete: Vec::new(),
        problems: Vec::new(),
        problem_count: 0,
        users: Vec::new(),
        user_count: 0,
        algorithms: Vec::new(),
        algorithm_count: 0,
        wiki_articles: Vec::new(),
    }
}

fn problem(id: u32) -> Problem {
    Problem {
        id,
        title: String::from("A+B"),
        level: decode_level(1).unwrap(),
        solved: 1,
        caption: String::from("A+B"),
        description: String::new(),
        href: format!("https://www.acmicpc.net/problem/{}", id),
    }
}

#[test]
fn finds_hash_mentions() {
    assert_eq!(find_mentions("#1000 풀이"), vec!["1000"]);
}

#[test]
fn finds_suffix_mentions() {
    assert_eq!(find_mentions("1000번 풀이"), vec!["1000"]);
}

#[test]
fn finds_multiple_mentions_in_order() {
    assert_eq!(find_mentions("#1000 그리고 20000번!"), vec!["1000", "20000"]);
}

#[test]
fn short_numbers_are_not_mentions() {
    assert_eq!(find_mentions("#123"), Vec::<String>::new());
    assert_eq!(find_mentions("123번"), Vec::<String>::new());
}

#[test]
fn plain_text_has_no_mentions() {
    assert_eq!(find_mentions(""), Vec::<String>::new());
    assert_eq!(find_mentions("hello world"), Vec::<String>::new());
    assert_eq!(find_mentions("4자리 숫자가 없다"), Vec::<String>::new());
}

#[test]
fn bare_numbers_are_not_mentions() {
    assert_eq!(find_mentions("1000"), Vec::<String>::new());
    assert_eq!(find_mentions("1000 번"), Vec::<String>::new());
}

#[test]
fn mention_takes_the_whole_digit_run() {
    assert_eq!(find_mentions("#123456"), vec!["123456"]);
    assert_eq!(find_mentions("##1234"), vec!["1234"]);
}

#[test]
fn parse_reads_base_ten() {
    assert_eq!(parse_u32_or_zero("1000"), 1000);
    assert_eq!(parse_u32_or_zero("0001000"), 1000);
    assert_eq!(parse_u32_or_zero("4294967295"), u32::MAX);
}

#[test]
fn parse_overflow_falls_back_to_zero() {
    assert_eq!(parse_u32_or_zero("4294967296"), 0);
    assert_eq!(parse_u32_or_zero("99999999999999999999"), 0);
}

#[test]
fn mention_reply_formats_exact_match() {
    let mut search = empty_search();
    search.problems.push(problem(9999));
    search.problems.push(problem(1000));
    let entries = vec![MentionLookup {
        number: String::from("1000"),
        search,
    }];
    let reply = mention_reply(&entries).unwrap();
    assert_eq!(
        reply,
        "[Bronze V \\| \\#1000 \\- A\\+B](https://www.acmicpc.net/problem/1000)"
    );
}

#[test]
fn mention_reply_joins_lines() {
    let mut first = empty_search();
    first.problems.push(problem(1000));
    let mut second = empty_search();
    second.problems.push(problem(2000));
    let entries = vec![
        MentionLookup {
            number: String::from("1000"),
            search: first,
        },
        MentionLookup {
            number: String::from("2000"),
            search: second,
        },
    ];
    let reply = mention_reply(&entries).unwrap();
    assert_eq!(
        reply,
        "[Bronze V \\| \\#1000 \\- A\\+B](https://www.acmicpc.net/problem/1000)\n\
         [Bronze V \\| \\#2000 \\- A\\+B](https://www.acmicpc.net/problem/2000)"
    );
}

#[test]
fn mention_without_exact_match_is_skipped() {
    let mut search = empty_search();
    search.problems.push(problem(9999));
    let entries = vec![MentionLookup {
        number: String::from("1000"),
        search,
    }];
    assert_eq!(mention_reply(&entries), None);
}

#[test]
fn no_mentions_means_no_reply() {
    assert_eq!(mention_reply(&Vec::new()), None);
}
