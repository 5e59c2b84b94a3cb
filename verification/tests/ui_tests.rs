use kanban_lite::model::{Column, Priority};
use kanban_lite::text::{char_is_whitespace, decimal_text, is_blank, split_words, trim_text};
use kanban_lite::ui::{
    card_text_widths, column_content_width, column_label, column_title, priority_label,
    priority_tag, stats_bar_width,
};
use kanban_lite::ui::{
    bounded_center_rect, percent, progress_fill, truncate_with_ellipsis, wrap_text, Rect,
};

#[test]
fn percent_rounds_down_and_guards_zero() {
    assert_eq!(percent(1, 3), 33);
    assert_eq!(percent(3, 3), 100);
    assert_eq!(percent(5, 0), 0);
    assert_eq!(percent(usize::MAX, usize::MAX), 1);
}

#[test]
fn progress_bar_lengths() {
    assert_eq!(progress_fill(1, 2, 0), None);
    assert_eq!(progress_fill(0, 2, 10), Some((0, 10)));
    assert_eq!(progress_fill(3, 0, 10), Some((0, 10)));
    assert_eq!(progress_fill(1, 2, 10), Some((5, 5)));
    assert_eq!(progress_fill(1, 100, 10), Some((1, 9)));
    assert_eq!(progress_fill(3, 2, 10), Some((15, 0)));
}

#[test]
fn truncation_counts_characters() {
    assert_eq!(truncate_with_ellipsis("short", 10), "short");
    assert_eq!(truncate_with_ellipsis("exactly", 7), "exactly");
    assert_eq!(truncate_with_ellipsis("árvíztűrő", 3), "árv...");
}

#[test]
fn centred_rectangle() {
    let area = Rect { x: 2, y: 1, width: 200, height: 50 };
    assert_eq!(
        bounded_center_rect(area, 140, 32),
        Rect { x: 32, y: 10, width: 140, height: 32 }
    );
    let small = Rect { x: 0, y: 0, width: 0, height: 3 };
    assert_eq!(
        bounded_center_rect(small, 140, 32),
        Rect { x: 0, y: 0, width: 1, height: 3 }
    );
}

#[test]
fn wrapping_at_word_boundaries() {
    assert_eq!(wrap_text("one two three four", 9), vec!["one two", "three", "four"]);
    assert_eq!(wrap_text("  spaced\t out  ", 20), vec!["spaced out"]);
    assert_eq!(wrap_text("averyveryverylongword x", 5), vec!["averyveryverylongword", "x"]);
    assert_eq!(wrap_text("", 5), vec![""]);
    assert_eq!(wrap_text("anything", 0), vec![""]);
    assert_eq!(wrap_text("é é", 3), vec!["é", "é"]);
}

#[test]
fn wrapped_lines_fit_unless_single_word() {
    let text = "the quick brown fox jumps over the lazy dog";
    for width in 1..20 {
        for line in wrap_text(text, width) {
            assert!(line.len() <= width || !line.contains(' '));
        }
    }
}

#[test]
fn labels_titles_and_widths() {
    assert_eq!(column_label(Column::Doing), "Doing");
    assert_eq!(column_title(Column::Todo, 3), "Todo (3)");
    assert_eq!(column_title(Column::Done, 0), "Done (0)");
    assert_eq!(column_title(Column::Doing, 120), "Doing (120)");
    assert_eq!(priority_label(Priority::Medium), "Medium");
    assert_eq!(priority_tag(Priority::Medium), "[Med]");
    assert_eq!(priority_tag(Priority::High), "[High]");
    assert_eq!(stats_bar_width(100), 80);
    assert_eq!(stats_bar_width(25), 10);
    assert_eq!(column_content_width(30), 26);
    assert_eq!(column_content_width(3), 0);
    assert_eq!(card_text_widths(30, 5), (24, 30));
    assert_eq!(card_text_widths(4, 5), (1, 4));
    assert_eq!(card_text_widths(0, 0), (1, 1));
}

#[test]
fn decimal_text_writes_digits() {
    assert_eq!(decimal_text(0), "0");
    assert_eq!(decimal_text(9), "9");
    assert_eq!(decimal_text(1234567890), "1234567890");
    assert_eq!(decimal_text(u64::MAX), u64::MAX.to_string());
}

#[test]
fn trimming_and_words() {
    assert_eq!(trim_text("\u{3000} a b\u{85}\n"), "a b");
    assert!(is_blank(" \t\u{a0}"));
    assert!(!is_blank(" x "));
    assert_eq!(split_words(" one\u{2003}two  three "), vec!["one", "two", "three"]);
}

#[test]
fn white_space_agrees_with_std_on_every_char() {
    for v in 0..=0x10FFFFu32 {
        if let Some(c) = char::from_u32(v) {
            assert_eq!(char_is_whitespace(c), c.is_whitespace(), "U+{v:04X}");
        }
    }
}
