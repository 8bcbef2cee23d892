use moosicyak::text::{decimal_text, retain_ascii, take_chars};
use moosicyak::youtube::{VideoInfo, LABEL_LIMIT, SEARCH_RESULTS};

fn video(title: &str, length: i64) -> VideoInfo {
    VideoInfo { title: title.to_string(), video_id: "id".to_string(), length }
}

fn reference_label(title: &str, length: i64) -> String {
    format!(
        "({}:{:02}) {}",
        length / 60,
        length % 60,
        title.replace(|c: char| !c.is_ascii(), "")
    )
    .chars()
    .take(80)
    .collect()
}

#[test]
fn retain_ascii_drops_other_characters() {
    assert_eq!(retain_ascii("Café ☕ song"), "Caf  song");
    assert_eq!(retain_ascii(""), "");
    assert_eq!(retain_ascii("日本語"), "");
    assert_eq!(retain_ascii("plain ASCII ~!"), "plain ASCII ~!");
}

#[test]
fn take_chars_counts_characters_not_bytes() {
    assert_eq!(take_chars("héllo", 2), "hé");
    assert_eq!(take_chars("abc", 10), "abc");
    assert_eq!(take_chars("abc", 0), "");
    assert_eq!(take_chars("abc", 3), "abc");
}

#[test]
fn decimal_text_matches_to_string() {
    for n in [0u64, 5, 9, 10, 42, 100, 1234567890, u64::MAX] {
        assert_eq!(decimal_text(n), n.to_string());
    }
}

#[test]
fn label_of_a_typical_video() {
    let v = video("Rick Astley - Never Gonna Give You Up (Official Music Video)", 213);
    assert_eq!(
        v.get_discord_interaction_str(),
        "(3:33) Rick Astley - Never Gonna Give You Up (Official Music Video)"
    );
}

#[test]
fn label_pads_seconds_to_two_digits() {
    assert_eq!(video("x", 65).get_discord_interaction_str(), "(1:05) x");
    assert_eq!(video("x", 0).get_discord_interaction_str(), "(0:00) x");
    assert_eq!(video("x", 3600).get_discord_interaction_str(), "(60:00) x");
}

#[test]
fn label_of_a_negative_length_follows_integer_division() {
    assert_eq!(video("x", -65).get_discord_interaction_str(), "(-1:-5) x");
    assert_eq!(video("x", -5).get_discord_interaction_str(), "(0:-5) x");
}

#[test]
fn label_drops_non_ascii_and_cuts_at_eighty() {
    let long = "ä".repeat(10) + &"a".repeat(200);
    let label = video(&long, 59).get_discord_interaction_str();
    assert_eq!(label.chars().count(), LABEL_LIMIT);
    assert!(label.starts_with("(0:59) aaaa"));
    assert!(label.is_ascii());
}

#[test]
fn label_agrees_with_formatting_reference() {
    let titles = ["", "Song", "Ünïcödé ♪ title", &"z".repeat(120)];
    let lengths = [0i64, 1, 9, 10, 59, 60, 61, 599, 600, 86399, -1, -61, i64::MAX, i64::MIN];
    for t in titles.iter() {
        for l in lengths.iter() {
            assert_eq!(video(t, *l).get_discord_interaction_str(), reference_label(t, *l));
        }
    }
}

#[test]
fn search_asks_for_five_results() {
    assert_eq!(SEARCH_RESULTS, 5);
}
