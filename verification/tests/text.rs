use runner_config::text::{center, join, pad, split, starts_with};

fn strings(items: &[&str]) -> Vec<String> {
    items.iter().map(|item| item.to_string()).collect()
}

#[test]
fn split_cuts_at_every_separator() {
    assert_eq!(split("a,b,c", ','), strings(&["a", "b", "c"]));
}

#[test]
fn split_of_the_empty_text_is_one_empty_piece() {
    assert_eq!(split("", ','), strings(&[""]));
}

#[test]
fn split_without_separator_is_the_text() {
    assert_eq!(split("x", ','), strings(&["x"]));
}

#[test]
fn split_keeps_empty_pieces() {
    assert_eq!(split(",a,,b,", ','), strings(&["", "a", "", "b", ""]));
}

#[test]
fn split_agrees_with_std() {
    for text in ["", ",", "a", "a,b", ",,", "né,ü,", "a=b,c"] {
        let expected: Vec<String> = text.split(',').map(|piece| piece.to_string()).collect();
        assert_eq!(split(text, ','), expected);
    }
}

#[test]
fn split_counts_characters_not_bytes() {
    assert_eq!(split("é,ü", ','), strings(&["é", "ü"]));
}

#[test]
fn starts_with_accepts_a_prefix() {
    assert!(starts_with("--keyword=net", "--keyword="));
    assert!(starts_with("--keyword=", "--keyword="));
    assert!(starts_with("anything", ""));
}

#[test]
fn starts_with_rejects_other_texts() {
    assert!(!starts_with("--keyword", "--keyword="));
    assert!(!starts_with("--keywords=net", "--keyword="));
    assert!(!starts_with("", "-"));
}

#[test]
fn join_puts_the_separator_between_neighbours() {
    assert_eq!(join(&strings(&["a", "b", "c"]), " & "), "a & b & c");
}

#[test]
fn join_of_one_part_is_the_part() {
    assert_eq!(join(&strings(&["a"]), " & "), "a");
}

#[test]
fn join_of_nothing_is_empty() {
    assert_eq!(join(&Vec::new(), " & "), "");
}

#[test]
fn join_keeps_empty_parts() {
    assert_eq!(join(&strings(&["", "a", ""]), ","), ",a,");
}

#[test]
fn join_undoes_split() {
    for text in ["", ",", "a", "a,b", ",,", "x,,y,"] {
        assert_eq!(join(&split(text, ','), ","), text);
    }
}

#[test]
fn pad_appends_spaces() {
    let mut line = String::from("ab");
    pad(&mut line, 3);
    assert_eq!(line, "ab   ");
    pad(&mut line, 0);
    assert_eq!(line, "ab   ");
}

#[test]
fn center_shares_the_room_evenly() {
    assert_eq!(center("ab", 6), "  ab  ");
}

#[test]
fn center_gives_the_odd_space_to_the_right() {
    assert_eq!(center("ab", 5), " ab  ");
    assert_eq!(center("a", 2), "a ");
}

#[test]
fn center_leaves_a_long_text_alone() {
    assert_eq!(center("abcdef", 6), "abcdef");
    assert_eq!(center("abcdefg", 6), "abcdefg");
    assert_eq!(center("", 0), "");
}

#[test]
fn center_agrees_with_std() {
    for text in ["", "a", "ab", "Began run in HEADLESS mode", "disallowing focused", "né"] {
        assert_eq!(center(text, 80), format!("{:^80}", text));
        assert_eq!(center(text, 7), format!("{:^7}", text));
    }
}
