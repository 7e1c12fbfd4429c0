use cia::config::Environment;
use cia::order::rank;
use cia::path::{
    is_same_path, is_under, path_components, path_file_name, path_join, path_relative_to,
};
use cia::text::{
    contains_text, decimal_text, is_before, is_white_space, join_texts, leading_line, lines_of,
    lowered_chars, parse_i64, parse_u32, signed_decimal_text, split_text, starts_with, trim,
};
use cia::userpath::{
    display_dir_path, display_path, expand_user_path, is_bare_project_name, new_project_path,
    split_executable_path,
};

const SAMPLES: [&str; 16] = [
    "",
    "a",
    " a ",
    "\u{a0}\u{2003}x\u{3000}",
    "a\nb",
    "a\r\nb\r\n",
    "\n",
    "a\n\nb\r",
    "\u{1f}a\u{1f}",
    "\u{130}STANBUL",
    "\u{df}\u{3a3}",
    "-12",
    "+7",
    "99999999999999999999",
    "007",
    "/usr//local/./bin/",
];

#[test]
fn texts_are_handled_as_the_standard_library_does() {
    for sample in SAMPLES {
        assert_eq!(trim(sample), sample.trim());
        assert_eq!(lines_of(sample), sample.lines().collect::<Vec<_>>());
        assert_eq!(leading_line(sample), sample.lines().next());
        assert_eq!(
            split_text(sample, '\u{1f}'),
            sample.split('\u{1f}').collect::<Vec<_>>()
        );
        assert_eq!(parse_i64(sample), sample.parse::<i64>().ok());
        assert_eq!(parse_u32(sample), sample.parse::<u32>().ok());
        assert_eq!(
            lowered_chars(sample),
            sample
                .chars()
                .flat_map(char::to_lowercase)
                .collect::<Vec<_>>()
        );
        for other in SAMPLES {
            assert_eq!(contains_text(sample, other), sample.contains(other));
            assert_eq!(starts_with(sample, other), sample.starts_with(other));
            assert_eq!(is_before(sample, other), sample < other);
        }
    }
    for number in 0..0x3100u32 {
        if let Some(character) = char::from_u32(number) {
            assert_eq!(is_white_space(character), character.is_whitespace());
        }
    }
}

#[test]
fn numbers_are_written_in_digits() {
    assert_eq!(decimal_text(0), "0");
    assert_eq!(decimal_text(u128::MAX), u128::MAX.to_string());
    assert_eq!(signed_decimal_text(i64::MIN), i64::MIN.to_string());
    assert_eq!(signed_decimal_text(42), "42");
    assert_eq!(parse_i64("-9223372036854775808"), Some(i64::MIN));
    assert_eq!(parse_i64("-9223372036854775809"), None);
    assert_eq!(parse_u32("4294967296"), None);
    assert_eq!(
        join_texts(&vec!["a".to_owned(), "".to_owned(), "b".to_owned()], "; "),
        "a; ; b"
    );
}

const PATHS: [&str; 14] = [
    "", ".", "/", "a", "a/b", "/a/b/", "/a//b", "./a", "../a", "/a/..", "/a/./b", "a/.", "//", "/a/b.jsonl",
];

#[test]
fn paths_are_handled_as_the_standard_library_does() {
    for sample in PATHS {
        let path = std::path::Path::new(sample);
        assert_eq!(
            path_file_name(sample).as_deref(),
            path.file_name().and_then(|name| name.to_str()),
            "{sample}"
        );
        let components: Vec<String> = path
            .components()
            .map(|component| component.as_os_str().to_str().unwrap().to_owned())
            .collect();
        assert_eq!(path_components(sample), components, "{sample}");
        for other in PATHS {
            let second = std::path::Path::new(other);
            assert_eq!(
                path_join(sample, other),
                path.join(second).to_str().unwrap(),
                "{sample} {other}"
            );
            assert_eq!(is_same_path(sample, other), path == second);
            assert_eq!(
                path_relative_to(sample, other),
                path.strip_prefix(second)
                    .ok()
                    .map(|rest| rest.to_str().unwrap().to_owned()),
                "{sample} {other}"
            );
        }
    }
    assert!(is_under("/s/archived/x", "/s", "archived"));
    assert!(!is_under("/s/x/archived", "/s", "archived"));
}

#[test]
fn paths_are_shown_from_home() {
    let env = Environment {
        variables: vec![("HOME".to_owned(), "/home/me".to_owned())],
    };
    assert_eq!(display_path("/home/me/bin/pi", &env), "~/bin/pi");
    assert_eq!(display_path("/home/me", &env), "~");
    assert_eq!(display_path("/home/meadow", &env), "/home/meadow");
    assert_eq!(display_dir_path("/home/me/a", &env), "~/a/");
    assert_eq!(display_dir_path("/", &env), "/");
    assert_eq!(expand_user_path("~/a", &env), "/home/me/a");
    assert_eq!(expand_user_path("~", &env), "/home/me");
    assert_eq!(expand_user_path("~other", &env), "~other");
    assert!(is_bare_project_name("name"));
    assert!(!is_bare_project_name("a/b"));
    assert!(!is_bare_project_name("/a"));
    assert_eq!(
        new_project_path("name", &env),
        "/home/me/.local/state/cia/name"
    );
    assert_eq!(new_project_path("/abs", &env), "/abs");
    assert_eq!(new_project_path("a/b", &env), "a/b");
    assert_eq!(split_executable_path("/usr/bin/pi"), ("/usr/bin/", "pi"));
    assert_eq!(split_executable_path("pi"), ("", "pi"));
}

#[test]
fn ranking_keeps_equals_in_place() {
    let thread = |id: &str, updated: i64| cia::agent::Thread {
        harness_id: "pi".to_owned(),
        id: id.to_owned(),
        name: None,
        preview: String::new(),
        cwd: String::new(),
        created_at: 0,
        updated_at: updated,
        recency_at: None,
        source: None,
        git_info: None,
        context_remaining: None,
        archived: false,
        path: None,
    };
    let ranked = rank(vec![
        thread("a", 1),
        thread("b", 2),
        thread("c", 1),
        thread("d", 2),
    ]);
    let ids: Vec<&str> = ranked.iter().map(|thread| thread.id.as_str()).collect();
    assert_eq!(ids, vec!["b", "d", "a", "c"]);
}
