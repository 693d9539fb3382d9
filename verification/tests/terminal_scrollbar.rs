use tinyshell::terminal_scrollbar::{display_offset_for_scroll, scroll_offset_lines};

#[test]
fn scroll_offset_saturates_for_short_content_and_large_display_offsets() {
    assert_eq!(scroll_offset_lines(5, 10, 0), 0);
    assert_eq!(scroll_offset_lines(100, 20, 30), 50);
    assert_eq!(scroll_offset_lines(100, 20, 100), 0);
}

#[test]
fn display_offset_is_clamped_to_terminal_history() {
    assert_eq!(display_offset_for_scroll(100, 20, -200), 0);
    assert_eq!(display_offset_for_scroll(100, 20, -30), 50);
    assert_eq!(display_offset_for_scroll(100, 20, 20), 80);
    assert_eq!(display_offset_for_scroll(5, 10, 20), 0);
    assert_eq!(
        display_offset_for_scroll(usize::MAX, 0, 0),
        i64::MAX as usize
    );
}

#[test]
fn display_offset_stays_within_history_for_every_delta() {
    for delta in [-1000, -81, -80, -1, 0, 1, 79, 1000] {
        let offset = display_offset_for_scroll(100, 20, delta);
        assert!(offset <= 80);
    }
    assert_eq!(display_offset_for_scroll(100, 20, 0), 80);
}
