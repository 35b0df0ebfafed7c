use chat_core::period::{check_period, check_repeats};
use chat_core::text::{chars_of, contains, names_match};

fn chars(s: &str) -> Vec<char> {
    s.chars().collect()
}

#[test]
fn check_period_of_one_repeated_letter() {
    assert_eq!(check_repeats("aaaa"), 1);
}

#[test]
fn check_period_of_a_repeated_word() {
    assert_eq!(check_repeats("abcabc"), 3);
}

#[test]
fn check_period_of_a_text_without_repeats() {
    assert_eq!(check_repeats("abcdef"), 6);
}

#[test]
fn check_period_of_a_single_letter() {
    assert_eq!(check_repeats("x"), 1);
}

#[test]
fn check_period_with_a_cut_last_round() {
    assert_eq!(check_repeats("ababa"), 2);
    assert_eq!(check_repeats("abaab"), 3);
    assert_eq!(check_repeats("aab"), 3);
    assert_eq!(check_repeats("abcab"), 3);
}

#[test]
fn check_period_counts_characters_not_bytes() {
    assert_eq!(check_repeats("éé"), 1);
    assert_eq!(check_repeats("héllo"), 5);
    assert_eq!(check_repeats("日本日本"), 2);
}

#[test]
fn check_period_on_characters() {
    assert_eq!(check_period(&chars("hahaha")), 2);
    assert_eq!(check_period(&chars("okokok")), 2);
    assert_eq!(check_period(&chars("hello")), 5);
}

#[test]
fn period_is_least_and_within_length() {
    let samples = [
        "a", "ab", "aa", "aba", "abab", "abcabcab", "aabaabaa", "zzzzzzzz", "abcdefg", "xyxyxyx",
        "aaab", "baaa", "abba", "abbaabba", "abcabcabd",
    ];
    for text in samples {
        let s = chars(text);
        let d = check_repeats(text);
        assert!(1 <= d && d <= s.len());
        for j in d..s.len() {
            assert_eq!(s[j], s[j - d]);
        }
        for e in 1..d {
            assert!((e..s.len()).any(|j| s[j] != s[j - e]));
        }
    }
}

#[test]
fn period_of_a_long_text() {
    let text: String = "abcde".repeat(200);
    assert_eq!(check_repeats(&text), 5);
    let mut broken = text.clone();
    broken.push('x');
    assert_eq!(check_repeats(&broken), 1001);
}

#[test]
fn chars_of_keeps_every_character() {
    assert_eq!(chars_of("héllo"), vec!['h', 'é', 'l', 'l', 'o']);
    assert_eq!(chars_of(""), Vec::<char>::new());
}

#[test]
fn contains_finds_a_text_inside_another() {
    assert!(contains(&chars("lobby"), &chars("lob")));
    assert!(contains(&chars("lobby"), &chars("bby")));
    assert!(contains(&chars("lobby"), &chars("obb")));
    assert!(contains(&chars("lobby"), &chars("lobby")));
    assert!(contains(&chars("lobby"), &chars("")));
    assert!(contains(&chars(""), &chars("")));
    assert!(!contains(&chars("lobby"), &chars("lobbyist")));
    assert!(!contains(&chars("lobby"), &chars("loby")));
    assert!(!contains(&chars(""), &chars("a")));
    assert!(!contains(&chars("aab"), &chars("aba")));
    assert!(contains(&chars("aaab"), &chars("aab")));
}

#[test]
fn names_match_in_either_direction() {
    assert!(names_match("lob", "lobby"));
    assert!(names_match("lobby", "lob"));
    assert!(names_match("lobby", "lobby"));
    assert!(names_match("", "lobby"));
    assert!(!names_match("lobby", "games"));
    assert!(!names_match("alice", "alicia"));
}
