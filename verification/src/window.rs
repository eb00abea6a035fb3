//! The size of the main window.

use vstd::prelude::*;

verus! {

/// `n` kept between `low` and `high`.
pub open spec fn within(n: int, low: int, high: int) -> int {
    if n < low {
        low
    } else if n > high {
        high
    } else {
        n
    }
}

/// 80 % of `n`, rounded to the nearest number; a half is rounded up.
pub open spec fn four_fifths(n: int) -> int {
    (8 * n + 5) / 10
}

/// 85 % of `n`, rounded to the nearest number; a half is rounded up.
pub open spec fn most_of(n: int) -> int {
    (17 * n + 10) / 20
}

fn keep_within(n: u64, low: u32, high: u32) -> (r: u32)
    requires
        low <= high,
    ensures
        r == within(n as int, low as int, high as int),
{
    if n < low as u64 {
        low
    } else if n > high as u64 {
        high
    } else {
        n as u32
    }
}

/// The size to open the window with on a screen of this size: 80 % of its width
/// and 85 % of its height, within limits that look well on any screen.
pub fn window_size(width: u32, height: u32) -> (r: (u32, u32))
    ensures
        r.0 == within(four_fifths(width as int), 1024, 1600),
        r.1 == within(most_of(height as int), 640, 1000),
{
    let w: u64 = (8 * width as u64 + 5) / 10;
    let h: u64 = (17 * height as u64 + 10) / 20;
    (keep_within(w, 1024, 1600), keep_within(h, 640, 1000))
}

/// The window is never smaller than 1024 by 640 nor larger than 1600 by 1000,
/// and on a screen that is large enough it fits into it.
pub proof fn law_window_fits(width: int, height: int)
    requires
        width >= 0,
        height >= 0,
    ensures
        1024 <= within(four_fifths(width), 1024, 1600) <= 1600,
        640 <= within(most_of(height), 640, 1000) <= 1000,
        width >= 1024 ==> within(four_fifths(width), 1024, 1600) <= width,
        height >= 640 ==> within(most_of(height), 640, 1000) <= height,
{
}

/// The width is 80 % and the height 85 % of the screen's, to the nearest number,
/// a half up, as far as the limits allow.
pub proof fn law_window_share(width: int, height: int)
    requires
        width >= 0,
        height >= 0,
    ensures
        ({
            let w = within(four_fifths(width), 1024, 1600);
            let h = within(most_of(height), 640, 1000);
            &&& 1024 < w < 1600 ==> -5 < 10 * w - 8 * width <= 5
            &&& w == 1024 ==> 8 * width < 10245
            &&& w == 1600 ==> 8 * width >= 15995
            &&& 640 < h < 1000 ==> -10 < 20 * h - 17 * height <= 10
            &&& h == 640 ==> 17 * height < 12810
            &&& h == 1000 ==> 17 * height >= 19990
        }),
{
}

} // verus!
