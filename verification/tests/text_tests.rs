use leaderboard::leaderboard_config::LeaderboardConfig;
use leaderboard::numbers::{is_space, read_u32, trimmed_range, write_csv, write_decimal};
use leaderboard::reqwest_helpers::{
    AuthenticatedHeaderMiddleware, MAX_RETRIES, REQUESTS_PER_SECOND, RetryDecision, retry_decision,
};
use leaderboard::server::parse_csv;
use leaderboard::text::{
    chars_of, contains_text, find_first_text, find_last_text, same_text, split_on, text_is_before,
};
use leaderboard::tick::POLL_EVERY_MINUTES;

fn strings(items: &[&str]) -> Vec<String> {
    items.iter().map(|s| s.to_string()).collect()
}

#[test]
fn split_cuts_at_every_separator() {
    assert_eq!(split_on("A,B,C", ','), strings(&["A", "B", "C"]));
    assert_eq!(split_on("A", ','), strings(&["A"]));
    assert_eq!(split_on("", ','), strings(&[""]));
    assert_eq!(split_on(",", ','), strings(&["", ""]));
    assert_eq!(split_on("A,,B,", ','), strings(&["A", "", "B", ""]));
    assert_eq!(split_on("X1-\u{e9}t\u{e9}-I52", '-'), strings(&["X1", "\u{e9}t\u{e9}", "I52"]));
}

#[test]
fn split_agrees_with_the_standard_library() {
    for text in ["", "a", ",", "a,b", ",a,,b,", "12,5, 7 ,x"] {
        let expected: Vec<String> = text.split(',').map(|s| s.to_string()).collect();
        assert_eq!(split_on(text, ','), expected);
    }
}

#[test]
fn parse_csv_reads_the_numbers() {
    assert_eq!(parse_csv("0,5,10,15"), vec![0, 5, 10, 15]);
    assert_eq!(parse_csv(""), Vec::<u32>::new());
    assert_eq!(parse_csv("7"), vec![7]);
    assert_eq!(parse_csv(" 7 ,\t8\n, +9"), vec![7, 8, 9]);
    assert_eq!(parse_csv("+9,007"), vec![9, 7]);
}

#[test]
fn parse_csv_passes_over_what_is_no_number() {
    assert_eq!(parse_csv("1,x,2"), vec![1, 2]);
    assert_eq!(parse_csv("1,,2"), vec![1, 2]);
    assert_eq!(parse_csv("-1,2"), vec![2]);
    assert_eq!(parse_csv("1.5,2"), vec![2]);
    assert_eq!(parse_csv("+,2"), vec![2]);
    assert_eq!(parse_csv("1 2,3"), vec![3]);
    assert_eq!(parse_csv("4294967295,4294967296"), vec![4294967295]);
    assert_eq!(parse_csv("99999999999999999999999,1"), vec![1]);
    assert_eq!(parse_csv("0000000000000000000000012"), vec![12]);
}

#[test]
fn parse_csv_agrees_with_the_standard_library() {
    for text in ["", "1", "1,2", " 1 , 2", "+3,-3,3+", "\u{a0}5\u{2003},6", "4294967295,4294967296", "a,b"] {
        let expected: Vec<u32> =
            text.split(',').filter_map(|item| item.trim().parse::<u32>().ok()).collect();
        assert_eq!(parse_csv(text), expected);
    }
}

#[test]
fn white_space_is_what_the_standard_library_takes_for_it() {
    let mut c = 0u32;
    while c <= 0x3100 {
        if let Some(ch) = char::from_u32(c) {
            assert_eq!(is_space(ch), ch.is_whitespace());
        }
        c += 1;
    }
}

#[test]
fn trimming_finds_the_text_between_white_space() {
    let chars = chars_of("  12 3\t");
    assert_eq!(trimmed_range(&chars), (2, 6));
    let chars = chars_of("   ");
    let (from, to) = trimmed_range(&chars);
    assert_eq!(from, to);
    let chars = chars_of("");
    assert_eq!(trimmed_range(&chars), (0, 0));
    let chars = chars_of("abc");
    assert_eq!(trimmed_range(&chars), (0, 3));
}

#[test]
fn reading_a_number_from_a_part_of_a_text() {
    let chars = chars_of("ab123cd");
    assert_eq!(read_u32(&chars, 2, 5), Some(123));
    assert_eq!(read_u32(&chars, 2, 6), None);
    assert_eq!(read_u32(&chars, 2, 2), None);
    let chars = chars_of("+42");
    assert_eq!(read_u32(&chars, 0, 3), Some(42));
    assert_eq!(read_u32(&chars, 0, 1), None);
}

#[test]
fn texts_are_ordered_by_code_point() {
    assert!(text_is_before("A", "B"));
    assert!(!text_is_before("B", "A"));
    assert!(!text_is_before("A", "A"));
    assert!(text_is_before("", "A"));
    assert!(!text_is_before("", ""));
    assert!(text_is_before("AB", "ABC"));
    assert!(text_is_before("Z", "a"));
    assert!(text_is_before("a", "\u{e9}"));
    assert!(text_is_before("\u{ffff}", "\u{10000}"));
}

#[test]
fn text_order_agrees_with_the_standard_library() {
    let samples = ["", "A", "AB", "B", "a", "\u{e9}", "\u{ffff}", "\u{10000}", "ZZZ-1", "ZZZ_1"];
    for a in samples {
        for b in samples {
            assert_eq!(text_is_before(a, b), a < b);
        }
    }
}

#[test]
fn texts_are_found_by_their_characters() {
    let keys = strings(&["A", "B", "A", "C"]);
    assert_eq!(find_first_text(&keys, &"A".to_string()), Some(0));
    assert_eq!(find_last_text(&keys, &"A".to_string()), Some(2));
    assert_eq!(find_first_text(&keys, &"C".to_string()), Some(3));
    assert_eq!(find_last_text(&keys, &"D".to_string()), None);
    assert_eq!(find_first_text(&keys, &"D".to_string()), None);
    assert!(contains_text(&keys, &"B".to_string()));
    assert!(!contains_text(&keys, &"b".to_string()));
    assert!(same_text(&"X1".to_string(), &"X1".to_string()));
    assert!(!same_text(&"X1".to_string(), &"X2".to_string()));
}

#[test]
fn numbers_are_written_in_decimal() {
    assert_eq!(write_decimal(0), "0");
    assert_eq!(write_decimal(7), "7");
    assert_eq!(write_decimal(10), "10");
    assert_eq!(write_decimal(1205), "1205");
    assert_eq!(write_decimal(u32::MAX), "4294967295");
}

#[test]
fn a_list_that_was_written_reads_back() {
    assert_eq!(write_csv(&vec![]), "");
    assert_eq!(write_csv(&vec![5]), "5");
    assert_eq!(write_csv(&vec![0, 15, 4294967295]), "0,15,4294967295");
    for numbers in [vec![], vec![0], vec![1, 2, 3], vec![4294967295, 0, 10]] {
        assert_eq!(parse_csv(&write_csv(&numbers)), numbers);
    }
}

#[test]
fn bind_address_joins_host_and_port() {
    let config = LeaderboardConfig {
        database_url: "sqlite://data/leaderboard.db".to_string(),
        app_leaderboard_host: "0.0.0.0".to_string(),
        app_leaderboard_port: "8080".to_string(),
    };
    assert_eq!(config.bind_address(), "0.0.0.0:8080");
}

#[test]
fn the_bearer_token_is_presented_after_the_word_bearer() {
    let middleware = AuthenticatedHeaderMiddleware::new("abc.def".to_string());
    assert_eq!(middleware.authorization_value(), "Bearer abc.def");
    assert_eq!(AuthenticatedHeaderMiddleware::new(String::new()).authorization_value(), "Bearer ");
}

#[test]
fn the_client_calls_twice_a_second_and_retries_three_times() {
    assert_eq!(REQUESTS_PER_SECOND, 2);
    assert_eq!(MAX_RETRIES, 3);
}

#[test]
fn only_failures_of_the_server_are_retried() {
    assert_eq!(retry_decision(200), RetryDecision::Accept);
    assert_eq!(retry_decision(204), RetryDecision::Accept);
    assert_eq!(retry_decision(299), RetryDecision::Accept);
    assert_eq!(retry_decision(500), RetryDecision::Retry);
    assert_eq!(retry_decision(503), RetryDecision::Retry);
    assert_eq!(retry_decision(599), RetryDecision::Retry);
    assert_eq!(retry_decision(600), RetryDecision::GiveUp);
    assert_eq!(retry_decision(499), RetryDecision::GiveUp);
    assert_eq!(retry_decision(404), RetryDecision::GiveUp);
    assert_eq!(retry_decision(429), RetryDecision::GiveUp);
    assert_eq!(retry_decision(301), RetryDecision::GiveUp);
    assert_eq!(retry_decision(199), RetryDecision::GiveUp);
    assert_eq!(retry_decision(0), RetryDecision::GiveUp);
}

#[test]
fn the_poll_is_taken_every_five_minutes() {
    assert_eq!(POLL_EVERY_MINUTES, 5);
}
