use hackernews_tui::text::{clone_ids, clone_opt_string, decimal, str_equal, string_or};
use hackernews_tui::view::utils::{
    construct_footer_view, elapsed_time_as_text, get_elapsed_time_as_text,
    get_status_bar_with_desc, get_story_view_desc_by_tag, seconds_or_zero, shorten_url, tag_title,
    unix_time_now, FooterAction, HAlign, MAX_URL_LEN,
};

#[test]
fn decimal_of_zero_and_digits() {
    assert_eq!(decimal(0), "0");
    assert_eq!(decimal(7), "7");
    assert_eq!(decimal(10), "10");
    assert_eq!(decimal(1234567890), "1234567890");
}

#[test]
fn decimal_of_largest_number() {
    assert_eq!(decimal(u64::MAX), "18446744073709551615");
}

#[test]
fn str_equal_compares_characters() {
    assert!(str_equal("job", "job"));
    assert!(!str_equal("job", "jobs"));
    assert!(str_equal("", ""));
}

#[test]
fn string_helpers_copy_their_input() {
    assert_eq!(string_or(&Some("a".to_string()), "[deleted]"), "a");
    assert_eq!(string_or(&None, "[deleted]"), "[deleted]");
    assert_eq!(clone_opt_string(&Some("x".to_string())), Some("x".to_string()));
    assert_eq!(clone_opt_string(&None), None);
    assert_eq!(clone_ids(&vec![3, 1, 2]), vec![3, 1, 2]);
}

#[test]
fn elapsed_time_in_minutes() {
    assert_eq!(elapsed_time_as_text(1000, 1000), "0 minutes");
    assert_eq!(elapsed_time_as_text(1059, 1000), "0 minutes");
    assert_eq!(elapsed_time_as_text(1060, 1000), "1 minutes");
    assert_eq!(elapsed_time_as_text(59 * 60 + 59, 0), "59 minutes");
}

#[test]
fn elapsed_time_in_hours() {
    assert_eq!(elapsed_time_as_text(60 * 60, 0), "1 hours");
    assert_eq!(elapsed_time_as_text(7200, 0), "2 hours");
    assert_eq!(elapsed_time_as_text(24 * 60 * 60 - 1, 0), "23 hours");
}

#[test]
fn elapsed_time_in_days() {
    assert_eq!(elapsed_time_as_text(24 * 60 * 60, 0), "1 days");
    assert_eq!(elapsed_time_as_text(365 * 24 * 60 * 60 - 1, 0), "364 days");
}

#[test]
fn elapsed_time_in_years() {
    assert_eq!(elapsed_time_as_text(365 * 24 * 60 * 60, 0), "1 years");
    assert_eq!(elapsed_time_as_text(10 * 365 * 24 * 60 * 60 + 5, 5), "10 years");
    assert_eq!(elapsed_time_as_text(u64::MAX, 0), "584942417355 years");
}

#[test]
fn elapsed_time_of_a_time_ahead_is_zero() {
    assert_eq!(elapsed_time_as_text(10, 5000), "0 minutes");
    assert_eq!(elapsed_time_as_text(0, u64::MAX), "0 minutes");
}

#[test]
fn elapsed_time_by_the_clock_agrees_with_the_clock() {
    let before = unix_time_now();
    let text = get_elapsed_time_as_text(0);
    let after = unix_time_now();
    assert!(before <= after);
    let candidates: Vec<String> = (before..=after).map(|now| elapsed_time_as_text(now, 0)).collect();
    assert!(candidates.contains(&text));
    assert_eq!(get_elapsed_time_as_text(u64::MAX), "0 minutes");
}

#[test]
fn short_url_stays_whole() {
    assert_eq!(shorten_url("https://example.com"), "https://example.com");
    assert_eq!(shorten_url(""), "");
    let exact: String = "a".repeat(MAX_URL_LEN);
    assert_eq!(shorten_url(&exact), exact);
}

#[test]
fn long_url_is_cut_to_head_and_tail() {
    let url = "https://www.example.com/a/very/long/path/that/goes/on/and/on/index.html?query=1";
    assert_eq!(url.chars().count(), 79);
    assert_eq!(
        shorten_url(url),
        "https://www.example.com/a/very/long/path/that/goes...x.html?query=1"
    );
}

#[test]
fn url_of_65_characters_is_cut() {
    let url: String = ('a'..='z').cycle().take(65).collect();
    let out = shorten_url(&url);
    let head: String = url.chars().take(50).collect();
    let tail: String = url.chars().skip(51).collect();
    assert_eq!(out, format!("{}...{}", head, tail));
    assert_eq!(out.chars().count(), 67);
}

#[test]
fn long_url_is_cut_by_character_not_by_byte() {
    let url: String = "é".repeat(70);
    let out = shorten_url(&url);
    assert_eq!(out, format!("{}...{}", "é".repeat(50), "é".repeat(14)));
}

#[test]
fn footer_has_title_and_two_buttons() {
    let footer = construct_footer_view();
    assert_eq!(footer.title, "Hacker News Terminal UI - made by AOME ©");
    assert_eq!(footer.buttons.len(), 2);
    assert_eq!(footer.buttons[0].label, "[help] ");
    assert_eq!(footer.buttons[0].action, FooterAction::Help);
    assert_eq!(footer.buttons[1].label, "[quit] ");
    assert_eq!(footer.buttons[1].action, FooterAction::Quit);
}

#[test]
fn status_bar_centers_its_description() {
    let bar = get_status_bar_with_desc("Story View - Jobs (new, page: 1)");
    assert_eq!(bar.text, "Story View - Jobs (new, page: 1)");
    assert_eq!(bar.align, HAlign::Center);
}

#[test]
fn tag_titles() {
    assert_eq!(tag_title("front_page"), Some("Front Page"));
    assert_eq!(tag_title("story"), Some("All Stories"));
    assert_eq!(tag_title("job"), Some("Jobs"));
    assert_eq!(tag_title("ask_hn"), Some("Ask HN"));
    assert_eq!(tag_title("show_hn"), Some("Show HN"));
    assert_eq!(tag_title("poll"), None);
    assert_eq!(tag_title(""), None);
}

#[test]
fn story_view_description_by_tag() {
    assert_eq!(
        get_story_view_desc_by_tag("front_page", false, 0),
        "Story View - Front Page (popular, page: 1)"
    );
    assert_eq!(
        get_story_view_desc_by_tag("ask_hn", true, 9),
        "Story View - Ask HN (new, page: 10)"
    );
    assert_eq!(
        get_story_view_desc_by_tag("story", true, 0),
        "Story View - All Stories (new, page: 1)"
    );
    assert_eq!(
        get_story_view_desc_by_tag("job", false, 41),
        "Story View - Jobs (popular, page: 42)"
    );
    assert_eq!(
        get_story_view_desc_by_tag("show_hn", false, 2),
        "Story View - Show HN (popular, page: 3)"
    );
}

#[test]
fn reading_of_the_clock_in_seconds() {
    assert_eq!(seconds_or_zero(Some(0)), 0);
    assert_eq!(seconds_or_zero(Some(1_700_000_000)), 1_700_000_000);
    assert_eq!(seconds_or_zero(Some(u64::MAX)), u64::MAX);
    assert_eq!(seconds_or_zero(None), 0);
}

#[test]
fn clock_stands_after_the_epoch() {
    assert!(unix_time_now() > 0);
}
