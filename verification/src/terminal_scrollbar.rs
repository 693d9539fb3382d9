//! Line arithmetic behind the terminal scrollbar.
use vstd::prelude::*;

verus! {

/// `a - b`, or zero when `b > a`.
pub open spec fn sat_sub(a: int, b: int) -> int {
    if a > b {
        a - b
    } else {
        0
    }
}

/// The largest display offset, capped at `i64::MAX`.
pub open spec fn max_scroll_offset(total_lines: int, viewport_lines: int) -> int {
    let m = sat_sub(total_lines, viewport_lines);
    if m > i64::MAX {
        i64::MAX as int
    } else {
        m
    }
}

/// `v` clamped to `lo..=hi`.
pub open spec fn clamp(v: int, lo: int, hi: int) -> int {
    if v < lo {
        lo
    } else if v > hi {
        hi
    } else {
        v
    }
}

/// How many lines the viewport sits below the top of the scrollback, for a
/// terminal scrolled `display_offset` lines up from the bottom.
pub fn scroll_offset_lines(total_lines: usize, viewport_lines: usize, display_offset: usize) -> (r:
    usize)
    ensures
        r == sat_sub(sat_sub(total_lines as int, viewport_lines as int), display_offset as int),
{
    total_lines.saturating_sub(viewport_lines).saturating_sub(display_offset)
}

/// The display offset after scrolling by `offset_delta` lines, clamped to the
/// history that exists.
pub fn display_offset_for_scroll(total_lines: usize, viewport_lines: usize, offset_delta: i32) -> (r:
    usize)
    requires
        max_scroll_offset(total_lines as int, viewport_lines as int) + offset_delta <= i64::MAX,
    ensures
        r == clamp(
            max_scroll_offset(total_lines as int, viewport_lines as int) + offset_delta,
            0,
            max_scroll_offset(total_lines as int, viewport_lines as int),
        ),
{
    let max_offset = total_lines.saturating_sub(viewport_lines);
    let wide: u64 = max_offset as u64;
    let max_offset_signed: i64 = if wide > 0x7fff_ffff_ffff_ffffu64 {
        i64::MAX
    } else {
        wide as i64
    };
    assert(max_offset_signed == max_scroll_offset(total_lines as int, viewport_lines as int));
    assert(max_offset_signed <= max_offset);
    let v: i64 = max_offset_signed + (offset_delta as i64);
    if v < 0 {
        0
    } else if v > max_offset_signed {
        max_offset_signed as usize
    } else {
        v as usize
    }
}

/// Scrolling by `d` and then by `-d` returns to the starting offset, as long as
/// neither step runs into an end of the history.
pub proof fn scroll_offsets_stay_in_history(total_lines: int, viewport_lines: int, delta: int)
    requires
        0 <= total_lines,
        0 <= viewport_lines,
    ensures
        0 <= clamp(
            max_scroll_offset(total_lines, viewport_lines) + delta,
            0,
            max_scroll_offset(total_lines, viewport_lines),
        ) <= max_scroll_offset(total_lines, viewport_lines),
{
}

} // verus!
