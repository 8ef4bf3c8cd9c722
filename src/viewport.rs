use vstd::prelude::*;

verus! {

/// Rows kept visible above and below the cursor when the list scrolls.
pub const MARGIN: usize = 2;

/// The margin used for a list area of `height` rows: `MARGIN`, made smaller when the
/// area is too low to hold it on both sides of the cursor.
pub open spec fn margin_for(height: int) -> int {
    if height <= 0 {
        0
    } else if (height - 1) / 2 < MARGIN {
        (height - 1) / 2
    } else {
        MARGIN as int
    }
}

fn margin(height: usize) -> (r: usize)
    ensures
        r == margin_for(height as int),
{
    if height == 0 {
        0
    } else if (height - 1) / 2 < MARGIN {
        (height - 1) / 2
    } else {
        MARGIN
    }
}

/// `a + b`, or the largest `usize` when that is larger.
pub open spec fn sat_add(a: int, b: int) -> int {
    if a + b > usize::MAX { usize::MAX as int } else { a + b }
}

/// `a - b`, or 0 when that is negative.
pub open spec fn sat_sub(a: int, b: int) -> int {
    if a >= b { a - b } else { 0 }
}

/// The cursor clamped to the last row of a list of `len` rows.
pub open spec fn clamped_cursor(len: int, cursor: int) -> int {
    if cursor >= len {
        if len == 0 { 0 } else { len - 1 }
    } else {
        cursor
    }
}

/// The scroll offset after fitting: 0 when the list fits; otherwise moved the least
/// that keeps the margin rows around the cursor, then clamped to `len - height`.
pub open spec fn fitted_scroll(len: int, height: int, cursor: int, scroll: int) -> int {
    if len <= height {
        0
    } else {
        let m = margin_for(height);
        let s = if cursor < sat_add(scroll, m) && scroll > 0 {
            sat_sub(cursor, m)
        } else if sat_add(cursor, m) >= sat_add(scroll, height) && sat_add(scroll, height) < len {
            sat_sub(sat_add(cursor, m + 1), height)
        } else {
            scroll
        };
        if s > len - height { len - height } else { s }
    }
}

/// Brings a cursor and a scroll offset into bounds for a list of `len` rows shown
/// `height` rows at a time. The cursor is clamped to the last row. When the whole list
/// fits, the offset is 0. Otherwise the list scrolls the least amount that keeps
/// `margin_for(height)` rows visible above and below the cursor, and the offset is
/// clamped to `len - height`. The cursor row is then always visible.
pub fn fit_view(len: usize, height: usize, cursor: usize, scroll: usize) -> (r: (usize, usize))
    ensures
        r.0 == clamped_cursor(len as int, cursor as int),
        r.1 == fitted_scroll(len as int, height as int, r.0 as int, scroll as int),
        len <= height ==> r.1 == 0,
        r.1 <= if len > height { len - height } else { 0 },
        len > height && height >= 1 ==> r.1 <= r.0 && r.0 <= r.1 + height - 1,
        len > height && scroll + height <= len && scroll + margin_for(height as int) <= r.0
            && r.0 + margin_for(height as int) < scroll + height ==> r.1 == scroll,
{
    let mut c = cursor;
    if c >= len {
        c = if len == 0 { 0 } else { len - 1 };
    }
    if len <= height {
        return (c, 0);
    }
    let m = margin(height);
    let mut s = scroll;
    if c < s.saturating_add(m) && s > 0 {
        s = c.saturating_sub(m);
    } else if c.saturating_add(m) >= s.saturating_add(height) && s.saturating_add(height) < len {
        s = c.saturating_add(m + 1).saturating_sub(height);
    }
    let max_scroll = len - height;
    if s > max_scroll {
        s = max_scroll;
    }
    (c, s)
}

} // verus!
