use ash::chains::{highest_of, holds, normalize_chains};
use ash::clock::Moment;
use ash::dice::Dice;
use ash::text::{
    after_separators, chars_of, decimal_text, has_prefix, has_substring, is_blank_char,
    is_separator_char, matches_at, same_text, trim_bounds,
};

#[test]
fn moment_from_secs_is_in_nanoseconds() {
    assert_eq!(Moment::from_secs(2).nanos, 2_000_000_000);
    assert_eq!(Moment::from_nanos(7).nanos, 7);
}

#[test]
fn moment_from_secs_stops_at_the_last_reading() {
    assert_eq!(Moment::from_secs(u64::MAX).nanos, u64::MAX);
}

#[test]
fn seconds_since_rounds_down() {
    let earlier = Moment::from_nanos(500_000_000);
    let later = Moment::from_nanos(2_499_999_999);
    assert_eq!(later.seconds_since(earlier), 1);
    assert_eq!(Moment::from_nanos(2_500_000_000).seconds_since(earlier), 2);
}

#[test]
fn seconds_since_a_later_moment_is_zero() {
    assert_eq!(Moment::from_secs(1).seconds_since(Moment::from_secs(9)), 0);
}

#[test]
fn chars_of_keeps_every_character() {
    assert_eq!(chars_of("a\u{e9}b"), vec!['a', '\u{e9}', 'b']);
    assert_eq!(chars_of(""), Vec::<char>::new());
}

#[test]
fn same_text_compares_characters() {
    assert!(same_text("repo", "repo"));
    assert!(!same_text("repo", "repo "));
    assert!(same_text("", ""));
}

#[test]
fn separators_are_comma_colon_and_white_space() {
    assert!(is_separator_char(','));
    assert!(is_separator_char(':'));
    assert!(is_separator_char(' '));
    assert!(is_separator_char('\t'));
    assert!(is_separator_char('\n'));
    assert!(!is_separator_char(';'));
}

#[test]
fn blanks_are_white_space() {
    for c in [' ', '\t', '\n', '\r', '\u{b}', '\u{c}', '\u{85}', '\u{a0}', '\u{2003}', '\u{3000}'] {
        assert!(is_blank_char(c));
        assert!(c.is_whitespace());
    }
    for c in ['a', ',', ':', '0', '\u{200b}'] {
        assert!(!is_blank_char(c));
        assert!(!c.is_whitespace());
    }
}

#[test]
fn matches_at_looks_at_one_place() {
    let hay = chars_of("what is jabber");
    let needle = chars_of("jabber");
    assert!(matches_at(&hay, &needle, 8));
    assert!(!matches_at(&hay, &needle, 7));
    assert!(!matches_at(&hay, &needle, 9));
    assert!(!matches_at(&hay, &needle, 100));
}

#[test]
fn has_prefix_and_substring() {
    let hay = chars_of("ash: repo");
    assert!(has_prefix(&hay, &chars_of("ash")));
    assert!(has_prefix(&hay, &chars_of("")));
    assert!(!has_prefix(&hay, &chars_of("sh")));
    assert!(has_substring(&hay, &chars_of("repo")));
    assert!(has_substring(&hay, &chars_of("")));
    assert!(!has_substring(&hay, &chars_of("repos")));
    assert!(!has_substring(&chars_of(""), &chars_of("a")));
    assert!(has_substring(&chars_of(""), &chars_of("")));
}

#[test]
fn after_separators_skips_the_run() {
    let text = chars_of("ash, :\trepo");
    assert_eq!(after_separators(&text, 3), 7);
    assert_eq!(after_separators(&text, 0), 0);
    assert_eq!(after_separators(&text, 11), 11);
    let only = chars_of("ash:::");
    assert_eq!(after_separators(&only, 3), 6);
}

#[test]
fn trim_bounds_drops_blanks_at_both_ends() {
    let text = chars_of("  repo \t\n");
    assert_eq!(trim_bounds(&text, 0), (2, 6));
    let blank = chars_of("   ");
    assert_eq!(trim_bounds(&blank, 0), (3, 3));
    let inner = chars_of("a b");
    assert_eq!(trim_bounds(&inner, 0), (0, 3));
    assert_eq!(trim_bounds(&inner, 1), (2, 3));
}

#[test]
fn decimal_text_writes_numbers() {
    assert_eq!(decimal_text(0), "0");
    assert_eq!(decimal_text(7), "7");
    assert_eq!(decimal_text(10), "10");
    assert_eq!(decimal_text(1234567890), "1234567890");
    assert_eq!(decimal_text(usize::MAX), usize::MAX.to_string());
}

#[test]
fn scripted_dice_hand_out_the_script() {
    let mut dice = Dice::scripted(vec![3, 99, 250]);
    assert_eq!(dice.remaining(), 3);
    assert_eq!(dice.roll(100), 3);
    assert_eq!(dice.roll(100), 99);
    assert_eq!(dice.roll(100), 50);
    assert_eq!(dice.remaining(), 0);
    for _ in 0..200 {
        assert!(dice.roll(7) < 7);
    }
    assert_eq!(dice.remaining(), 0);
}

#[test]
fn live_dice_stay_below_the_bound() {
    let mut dice = Dice::live();
    assert_eq!(dice.remaining(), 0);
    let mut seen = [false; 4];
    for _ in 0..400 {
        let roll = dice.roll(4);
        assert!(roll < 4);
        seen[roll as usize] = true;
    }
    assert_eq!(seen, [true; 4]);
    for _ in 0..50 {
        assert_eq!(dice.roll(1), 0);
    }
}

#[test]
fn holds_and_highest() {
    assert!(holds(&vec![4, 2, 9], 9));
    assert!(!holds(&vec![4, 2, 9], 3));
    assert!(!holds(&vec![], 0));
    assert_eq!(highest_of(&vec![4, 2, 9, 1]), 9);
    assert_eq!(highest_of(&vec![]), 0);
}

#[test]
fn chains_always_hold_zero() {
    assert_eq!(normalize_chains(&None), vec![0]);
    assert_eq!(normalize_chains(&Some(vec![])), vec![0]);
    assert_eq!(normalize_chains(&Some(vec![0])), vec![0]);
    assert_eq!(normalize_chains(&Some(vec![1])), vec![1, 0]);
    assert_eq!(normalize_chains(&Some(vec![2, 0, 1])), vec![2, 0, 1]);
}

#[test]
fn chains_hold_nothing_twice() {
    assert_eq!(normalize_chains(&Some(vec![3, 3, 1, 3, 1])), vec![3, 1, 0]);
    assert_eq!(normalize_chains(&Some(vec![0, 0, 5, 0])), vec![0, 5]);
}
