use store_create::terminal;

#[test]
fn open_line_gets_one_to_three_dots() {
    assert_eq!(terminal::tick("work", 0), (Some("work.".to_string()), 1));
    assert_eq!(terminal::tick("work", 1), (Some("work..".to_string()), 2));
    assert_eq!(terminal::tick("work", 2), (Some("work...".to_string()), 3));
    assert_eq!(terminal::tick("work", 3), (Some("work.".to_string()), 1));
    assert_eq!(terminal::tick("", 0), (Some(".".to_string()), 1));
}

#[test]
fn ended_line_gets_no_dots() {
    assert_eq!(terminal::tick("done\n", 2), (None, 2));
}

#[test]
fn short_text_is_kept() {
    let text = "x".repeat(20_000);
    assert_eq!(terminal::shortened(&text), text);
}

#[test]
fn long_text_keeps_whole_lines_of_its_end() {
    let mut text = "x".repeat(15_000);
    text.push('\n');
    text.push_str(&"y".repeat(8_000));
    assert_eq!(terminal::shortened(&text), "y".repeat(8_000));
}

#[test]
fn long_line_is_cut() {
    let text = "x".repeat(20_001);
    assert_eq!(terminal::shortened(&text).len(), 10_000);
}

#[test]
fn line_end_at_the_very_end_leaves_nothing() {
    let mut text = "x".repeat(25_000);
    text.push('\n');
    assert_eq!(terminal::shortened(&text), "");
}

#[test]
fn wide_characters_are_kept_whole() {
    let mut text = "x".repeat(12_001);
    text.push_str(&"选".repeat(2_000));
    text.push('\n');
    text.push_str(&"项".repeat(1_000));
    assert!(terminal::is_shortenable(&text));
    assert_eq!(terminal::shortened(&text), "项".repeat(1_000));
}

#[test]
fn cut_within_a_character_is_told() {
    assert!(!terminal::is_shortenable(&"选".repeat(7_000)));
    assert!(terminal::is_shortenable(&"选".repeat(6_666)));
    assert!(terminal::is_shortenable(""));
}

#[test]
fn last_line_is_ended_once() {
    assert_eq!(terminal::end_line("a".to_string()), "a\n");
    assert_eq!(terminal::end_line("a\n".to_string()), "a\n");
    assert_eq!(terminal::end_line(String::new()), "\n");
}
