use solvedbot::command::CommandKind;
use solvedbot::error::BotError;
use solvedbot::render::{
    command_reply, inline_results, problem_line, problem_list_message, user_card, Reply,
};
use solvedbot::solved::{
    decode_level, resolve_search_result, ClassDecoration, Problem, Search, User,
};

fn empty_search() -> Search {
    Search {
        autocomplete: Vec::new(),
        problems: Vec::new(),
        problem_count: 0,
        users: Vec::new(),
        user_count: 0,
        algorithms: Vec::new(),
        algorithm_count: 0,
        wiki_articles: Vec::new(),
    }
}

fn sample_problem() -> Problem {
    Problem {
        id: 1000,
        title: String::from("A+B"),
        level: decode_level(1).unwrap(),
        solved: 300000,
        caption: String::from("A+B"),
        description: String::from("두 정수를 더한다"),
        href: String::from("https://www.acmicpc.net/problem/1000"),
    }
}

fn sample_user() -> User {
    User {
        user_id: String::from("sample_user"),
        bio: String::from("Hello. World!"),
        profile_image_url: None,
        solved: 1234,
        exp: 5678901,
        level: decode_level(30).unwrap(),
        class: 7,
        class_decoration: ClassDecoration::Gold,
        vote_count: 10,
        rank: 42,
    }
}

#[test]
fn problem_line_text() {
    assert_eq!(
        problem_line(&sample_problem()),
        "[Bronze V \\| \\#1000 \\- A\\+B](https://www.acmicpc.net/problem/1000)"
    );
}

#[test]
fn empty_problem_listing_is_no_results_line() {
    assert_eq!(problem_list_message(&Vec::new()), "검색 결과가 없습니다\\.");
}

#[test]
fn problem_listing_joins_with_line_breaks() {
    let mut second = sample_problem();
    second.id = 2000;
    second.caption = String::from("숫자");
    second.href = String::from("https://www.acmicpc.net/problem/2000");
    let text = problem_list_message(&vec![sample_problem(), second]);
    assert_eq!(
        text,
        "[Bronze V \\| \\#1000 \\- A\\+B](https://www.acmicpc.net/problem/1000)\n\
         [Bronze V \\| \\#2000 \\- 숫자](https://www.acmicpc.net/problem/2000)"
    );
}

#[test]
fn user_card_text() {
    let card = user_card(&sample_user());
    assert_eq!(
        card,
        "*sample\\_user \\(42위\\)*\n\
         __Ruby I, Class 7\\+\\+__\n\
         Hello\\. World\\!\n\
         *1,234문제* 해결 \\| *경험치* 5,678,901\n\
         ▸ [solved\\.ac](https://solved.ac/profile/sample_user) ▸ [acmicpc\\.net](https://acmicpc.net/user/sample_user)"
    );
}

#[test]
fn problem_command_reply_lists_problems() {
    let mut search = empty_search();
    search.problems.push(sample_problem());
    search.problem_count = 1;
    let reply = command_reply(CommandKind::Problem, &search);
    match reply {
        Reply::Text(t) => assert_eq!(
            t,
            "[Bronze V \\| \\#1000 \\- A\\+B](https://www.acmicpc.net/problem/1000)"
        ),
        Reply::Photo { .. } => panic!("problem reply must be text"),
    }
}

#[test]
fn user_command_reply_without_users_is_text() {
    let search = empty_search();
    let reply = command_reply(CommandKind::User, &search);
    match reply {
        Reply::Text(t) => assert_eq!(t, "검색 결과가 없습니다\\."),
        Reply::Photo { .. } => panic!("an empty user search must answer with text"),
    }
}

#[test]
fn user_command_reply_attaches_placeholder_image() {
    let mut search = empty_search();
    search.users.push(sample_user());
    search.user_count = 1;
    let reply = command_reply(CommandKind::User, &search);
    match reply {
        Reply::Photo { url, caption } => {
            assert_eq!(
                url,
                "https://static.solved.ac/misc/360x360/default_profile.png"
            );
            assert!(caption.starts_with("*sample\\_user \\(42위\\)*"));
        }
        Reply::Text(_) => panic!("a matched user must answer with a photo"),
    }
}

#[test]
fn user_command_reply_keeps_own_image() {
    let mut user = sample_user();
    user.profile_image_url = Some(String::from("https://example.com/me.png"));
    let mut search = empty_search();
    search.users.push(user);
    let reply = command_reply(CommandKind::User, &search);
    match reply {
        Reply::Photo { url, .. } => assert_eq!(url, "https://example.com/me.png"),
        Reply::Text(_) => panic!("a matched user must answer with a photo"),
    }
}

#[test]
fn inline_results_list_problems_then_users() {
    let mut search = empty_search();
    search.problems.push(sample_problem());
    search.users.push(sample_user());
    let items = inline_results(&search);
    assert_eq!(items.len(), 2);
    assert_eq!(items[0].id, "1000");
    assert_eq!(items[0].title, "1000번 - A+B");
    assert_eq!(
        items[0].text,
        "[Bronze V \\| \\#1000 \\- A\\+B](https://www.acmicpc.net/problem/1000)"
    );
    assert_eq!(items[1].id, "sample_user");
    assert_eq!(items[1].title, "sample_user");
    assert_eq!(items[1].text, user_card(&sample_user()));
}

#[test]
fn envelope_with_payload_passes_through() {
    let mut search = empty_search();
    search.problems.push(sample_problem());
    let out = resolve_search_result(Some(search), "1000").unwrap();
    assert_eq!(out.problems.len(), 1);
    assert_eq!(out.problems[0].id, 1000);
}

#[test]
fn envelope_without_payload_is_empty_search_result() {
    let r = resolve_search_result(None, "1000");
    assert!(matches!(r, Err(BotError::EmptySearchResult(ref q)) if q == "1000"));
}
