use secubot::commands::mention::{input_to_users, mention_at, push_mention};
use std::collections::HashSet;

fn set_of(users: &[u64]) -> HashSet<u64> {
    users.iter().copied().collect()
}

fn with_regex(text: &str) -> HashSet<u64> {
    let pattern = regex::Regex::new(r"<@!?([0-9]+)>").unwrap();
    pattern.captures_iter(text).filter_map(|found| found[1].parse::<u64>().ok()).collect()
}

#[test]
fn mentions_of_both_forms_are_read() {
    assert_eq!(input_to_users("hello <@123> and <@!456> end"), set_of(&[123, 456]));
}

#[test]
fn text_without_mentions_gives_nobody() {
    assert_eq!(input_to_users(""), set_of(&[]));
    assert_eq!(input_to_users("hello world"), set_of(&[]));
    assert_eq!(input_to_users("<@ 12>"), set_of(&[]));
    assert_eq!(input_to_users("< @12>"), set_of(&[]));
    assert_eq!(input_to_users("<@>"), set_of(&[]));
    assert_eq!(input_to_users("<@!>"), set_of(&[]));
    assert_eq!(input_to_users("<@12"), set_of(&[]));
    assert_eq!(input_to_users("@12>"), set_of(&[]));
    assert_eq!(input_to_users("<@!!12>"), set_of(&[]));
    assert_eq!(input_to_users("<@12a>"), set_of(&[]));
    assert_eq!(input_to_users("<@-12>"), set_of(&[]));
    assert_eq!(input_to_users("<#12>"), set_of(&[]));
    assert_eq!(input_to_users("<@&12>"), set_of(&[]));
}

#[test]
fn mentions_may_touch_and_repeat() {
    assert_eq!(input_to_users("<@1><@!2><@1>"), set_of(&[1, 2]));
    assert_eq!(input_to_users("<<@3>>"), set_of(&[3]));
    assert_eq!(input_to_users("<@<@4>"), set_of(&[4]));
    assert_eq!(input_to_users("<@5<@6>"), set_of(&[6]));
    assert_eq!(input_to_users("é<@7>ü"), set_of(&[7]));
}

#[test]
fn leading_zeros_count_for_nothing() {
    assert_eq!(input_to_users("<@007>"), set_of(&[7]));
    assert_eq!(input_to_users("<@0>"), set_of(&[0]));
    assert_eq!(input_to_users("<@!000000000000000000000000000042>"), set_of(&[42]));
}

#[test]
fn numbers_beyond_64_bits_are_no_users() {
    assert_eq!(input_to_users("<@18446744073709551615>"), set_of(&[u64::MAX]));
    assert_eq!(input_to_users("<@18446744073709551616>"), set_of(&[]));
    assert_eq!(input_to_users("<@99999999999999999999999> <@5>"), set_of(&[5]));
}

#[test]
fn digits_of_other_scripts_are_no_digits() {
    assert_eq!(input_to_users("<@\u{0661}\u{0662}>"), set_of(&[]));
}

#[test]
fn mention_at_reads_one_place() {
    let text: Vec<char> = "a<@12>b".chars().collect();
    assert_eq!(mention_at(&text, 0), None);
    assert_eq!(mention_at(&text, 1), Some(12));
    assert_eq!(mention_at(&text, 2), None);
    assert_eq!(mention_at(&text, 6), None);
    let text: Vec<char> = "<@!9>".chars().collect();
    assert_eq!(mention_at(&text, 0), Some(9));
    let text: Vec<char> = "<@9".chars().collect();
    assert_eq!(mention_at(&text, 0), None);
}

#[test]
fn scanner_agrees_with_the_pattern() {
    let samples = [
        "",
        "hello <@123> and <@!456> end",
        "<@1><@!2><@1>",
        "<@<@4>",
        "<@5<@6>",
        "<@!!12>",
        "<@18446744073709551616><@18446744073709551615>",
        "x<@!0>y<@00>z",
        "<@12 ><@ 13><@14>",
        ">@<<@!77>!@<",
    ];
    for sample in samples {
        assert_eq!(input_to_users(sample), with_regex(sample), "{}", sample);
    }
}

#[test]
fn written_mentions_are_read_back() {
    let mut text = String::from("to ");
    push_mention(&mut text, 31);
    push_mention(&mut text, 0);
    push_mention(&mut text, u64::MAX);
    assert_eq!(text, "to <@!31><@!0><@!18446744073709551615>");
    assert_eq!(input_to_users(&text), set_of(&[0, 31, u64::MAX]));
}
