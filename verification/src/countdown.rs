//! The countdown: how far a hold has come and how the overlay words it.
//!
//! Time is counted in whole nanoseconds. A hold of [`HOLD_NANOS`] is complete;
//! everything shown is a function of the nanoseconds held so far. The bar and
//! the percentage are cut from a product of doubles, so at some moments they
//! are a pixel or a percent late.
use vstd::prelude::*;
use crate::double::{divide, shorten, Double, Number, TOO_LONG, TOP_BIT};
use crate::text::to_decimal;

verus! {

/// How long the hotkey has to be held, in nanoseconds: ten seconds.
pub const HOLD_NANOS: u64 = 10_000_000_000;

/// The same in seconds.
pub const HOLD_SECONDS: u64 = 10;

/// One second in nanoseconds.
pub const SECOND: u64 = 1_000_000_000;

/// The shortest rest of a hold that is still counted in seconds.
pub const COUNTED_REST: u64 = 100_000_000;

pub const REMAINING_HINT: &'static str =
    " seconds remaining \u{2014} release keys to cancel";

pub const RESTARTING_NOW: &'static str = "Restarting now...";

/// The part of a hold that counts: time beyond a complete hold adds nothing.
pub open spec fn progress_of(elapsed: int) -> int {
    if elapsed < HOLD_NANOS {
        elapsed
    } else {
        HOLD_NANOS as int
    }
}

/// The quotient rounded towards zero.
pub open spec fn truncated_quotient(a: int, b: int) -> int {
    if a >= 0 {
        a / b
    } else {
        -((-a) / b)
    }
}

/// A time in seconds, as a double.
pub open spec fn in_seconds(nanos: int) -> Double {
    crate::double::plus(
        nanos / SECOND as int,
        crate::double::quotient(nanos % SECOND as int, SECOND as int, 1),
    )
}

/// The progress as a fraction of a complete hold, as a double.
pub open spec fn fraction(progress: int) -> Double {
    if progress >= HOLD_NANOS {
        Double { m: 1, scale: 1 }
    } else {
        crate::double::divided(in_seconds(progress), HOLD_SECONDS as int)
    }
}

/// The share of a bar of the given width that the progress fills: the width
/// times the fraction, as a double, cut to whole pixels.
pub open spec fn filled(width: int, progress: int) -> int {
    if width >= 0 {
        crate::double::truncated(crate::double::times(width, fraction(progress)))
    } else {
        -crate::double::truncated(crate::double::times(-width, fraction(progress)))
    }
}

/// The whole percents of a hold, as shown: the pixels of a bar of a hundred.
pub open spec fn percents(progress: int) -> int {
    filled(100, progress)
}

/// The nearest whole number of seconds, a tie going to the even one.
pub open spec fn nearest_second(nanos: int) -> int {
    let whole = nanos / SECOND as int;
    let rest = nanos % SECOND as int;
    if 2 * rest < SECOND || (2 * rest == SECOND && whole % 2 == 0) {
        whole
    } else {
        whole + 1
    }
}

/// The seconds left of a hold, as shown: the nearest whole number, where half
/// a second left still counts as one.
pub open spec fn seconds_shown(progress: int) -> int {
    let rest = HOLD_NANOS - progress;
    if 2 * rest == SECOND {
        1
    } else {
        nearest_second(rest)
    }
}

/// The line under the title.
pub open spec fn subtitle_text(progress: int) -> Seq<char> {
    if HOLD_NANOS - progress >= COUNTED_REST {
        crate::text::decimal(seconds_shown(progress) as nat) + REMAINING_HINT@
    } else {
        RESTARTING_NOW@
    }
}

/// The text under the progress bar.
pub open spec fn percent_text(progress: int) -> Seq<char> {
    crate::text::decimal(percents(progress) as nat) + "%"@
}

/// The progress that a hold of the given length makes.
pub fn progress_after(elapsed: u128) -> (progress: u64)
    ensures
        progress == progress_of(elapsed as int),
        elapsed < HOLD_NANOS ==> progress == elapsed,
        elapsed >= HOLD_NANOS ==> progress == HOLD_NANOS,
{
    if elapsed < HOLD_NANOS as u128 {
        elapsed as u64
    } else {
        HOLD_NANOS
    }
}

/// The progress as a fraction of a complete hold.
fn fraction_of(progress: u64) -> (share: Number)
    requires
        progress <= HOLD_NANOS,
    ensures
        share@ == fraction(progress as int),
        share.m <= TOO_LONG,
        0 < share.scale,
{
    if progress >= HOLD_NANOS {
        return Number { m: 1, scale: 1 };
    }
    let whole: u128 = (progress / SECOND) as u128;
    let part: u128 = (progress % SECOND) as u128;
    let below: Number = divide(part, SECOND as u128, 1);
    proof {
        crate::double::lemma_quotient_near(part as int, SECOND as int, 1);
        assert(below.scale <= TOO_LONG * SECOND) by (nonlinear_arith)
            requires
                below.scale == 1 || part * below.scale < (TOO_LONG * SECOND) * 1,
                part == 0 ==> below.scale == 1,
                TOO_LONG * SECOND >= 1,
        ;
    }
    assert(whole * below.scale <= 9 * below.scale) by (nonlinear_arith)
        requires
            whole <= 9,
    ;
    let sum: u128 = whole * below.scale + below.m;
    let seconds: Number = shorten(sum, below.scale);
    proof {
        lemma_seconds_fit(progress as int, below, seconds);
        lemma_fraction_near(progress as int);
    }
    divide(seconds.m, HOLD_SECONDS as u128, seconds.scale)
}

proof fn lemma_seconds_fit(progress: int, below: Number, seconds: Number)
    requires
        0 <= progress < HOLD_NANOS,
        below@ == crate::double::quotient(progress % SECOND as int, SECOND as int, 1),
        seconds@ == in_seconds(progress),
        below.scale <= TOO_LONG * SECOND,
        below.m <= TOO_LONG,
        progress % SECOND as int > 0 ==> TOP_BIT <= below.m,
        progress % SECOND as int == 0 ==> below.m == 0 && below.scale == 1,
    ensures
        0 < seconds.scale < crate::double::ROOM,
        seconds.m <= TOO_LONG,
        0 < seconds.m ==> seconds.scale * (TOO_LONG * HOLD_SECONDS) <= seconds.m
            * crate::double::ROOM,
{
    let whole = progress / SECOND as int;
    let part = progress % SECOND as int;
    let (scale, m) = (below.scale as int, below.m as int);
    let n = whole * scale + m;
    reveal_with_fuel(crate::double::is_power, 2);
    crate::double::lemma_quotient_near(part, SECOND as int, 1);
    crate::double::lemma_quotient_scale(part, SECOND as int, 1);
    assert(0 <= whole * scale <= 9 * scale) by (nonlinear_arith)
        requires
            0 <= whole <= 9,
            0 < scale,
    ;
    if part > 0 {
        crate::double::lemma_quotient_error(2 * part, SECOND as int, 2);
        assert(2 <= scale);
    }
    assert(n < TOO_LONG * (scale * 1));
    crate::double::lemma_cut_error(n, scale, 1);
    crate::double::lemma_cut_is_short(n, scale, 1);
    let (out, left) = (seconds.m as int, seconds.scale as int);
    if part > 0 {
        assert(n * left <= 2 * (out * scale)) by (nonlinear_arith)
            requires
                -(n * left) <= TOO_LONG * (out * (scale * 1) - n * left),
                0 <= n,
                0 < left,
                TOO_LONG >= 2,
        ;
        assert(left * (TOO_LONG * HOLD_SECONDS) <= out * crate::double::ROOM) by (nonlinear_arith)
            requires
                n * left <= 2 * (out * scale),
                TOP_BIT <= n,
                0 < left,
                0 <= out,
                0 < scale <= TOO_LONG * SECOND,
                TOO_LONG == 2 * TOP_BIT,
                0 < TOP_BIT,
                4 * SECOND * (TOO_LONG * HOLD_SECONDS) <= crate::double::ROOM,
        ;
    }
}

/// How many pixels of a bar of the given width are filled.
pub fn fill_width(width: i32, progress: u64) -> (pixels: i32)
    requires
        progress <= HOLD_NANOS,
    ensures
        pixels == filled(width as int, progress as int),
{
    let length: u128 = if width < 0 { (-(width as i64)) as u128 } else { width as u128 };
    let share = fraction_of(progress);
    assert(length * share.m <= 0x8000_0000 * TOO_LONG) by (nonlinear_arith)
        requires
            length <= 0x8000_0000,
            share.m <= TOO_LONG,
    ;
    let product: Number = shorten(length * share.m, share.scale);
    let part: u128 = product.m / product.scale;
    proof {
        lemma_filled_bounds(length as int, progress as int);
    }
    if width < 0 {
        (-(part as i64)) as i32
    } else {
        part as i32
    }
}

/// The whole percents of a hold.
pub fn percent(progress: u64) -> (percents_shown: u32)
    requires
        progress <= HOLD_NANOS,
    ensures
        percents_shown == percents(progress as int),
{
    proof {
        lemma_filled_bounds(100, progress as int);
    }
    fill_width(100, progress) as u32
}

/// The seconds left of a hold.
pub fn seconds_left(progress: u64) -> (seconds: u32)
    requires
        progress <= HOLD_NANOS,
    ensures
        seconds == seconds_shown(progress as int),
        2 * (seconds * SECOND - (HOLD_NANOS - progress)) <= SECOND,
        2 * ((HOLD_NANOS - progress) - seconds * SECOND) <= SECOND,
{
    let rest: u64 = HOLD_NANOS - progress;
    if 2 * rest == SECOND {
        return 1;
    }
    let whole: u32 = (rest / SECOND) as u32;
    let part: u64 = rest % SECOND;
    if 2 * part < SECOND || (2 * part == SECOND && whole % 2 == 0) {
        whole
    } else {
        whole + 1
    }
}

/// The line under the title: the countdown, or that it is over.
pub fn subtitle(progress: u64) -> (text: String)
    requires
        progress <= HOLD_NANOS,
    ensures
        text@ == subtitle_text(progress as int),
        HOLD_NANOS - progress < COUNTED_REST ==> text@ == "Restarting now..."@,
        HOLD_NANOS - progress >= COUNTED_REST ==> text@ == crate::text::decimal(
            seconds_shown(progress as int) as nat,
        ) + " seconds remaining \u{2014} release keys to cancel"@,
{
    if HOLD_NANOS - progress >= COUNTED_REST {
        let mut text = to_decimal(seconds_left(progress));
        text.append(REMAINING_HINT);
        text
    } else {
        RESTARTING_NOW.to_string()
    }
}

/// The text under the progress bar.
pub fn percent_label(progress: u64) -> (text: String)
    requires
        progress <= HOLD_NANOS,
    ensures
        text@ == percent_text(progress as int),
        text@ == crate::text::decimal(percents(progress as int) as nat) + "%"@,
{
    let mut text = to_decimal(percent(progress));
    text.append("%");
    text
}

/// Seven operations leave fourteen decimal places right.
proof fn lemma_near_share(y: real, x: real)
    requires
        0real <= x,
        crate::double::near(y, x, 7real),
    ensures
        100_000_000_000_000real * (y - x) <= x,
        100_000_000_000_000real * (x - y) <= x,
{
    let e = crate::double::precision();
    crate::double::lemma_precision();
    assert(100_000_000_000_000real * (7real * e * x) <= x) by (nonlinear_arith)
        requires
            1_000_000_000_000_000real * e <= 1real,
            0real < e,
            0real <= x,
    ;
}

/// The fraction is near the exact one.
pub proof fn lemma_fraction_near(progress: int)
    requires
        0 <= progress < HOLD_NANOS,
    ensures
        crate::double::is_double(fraction(progress)),
        crate::double::near(
            crate::double::value(fraction(progress)),
            progress as real / HOLD_NANOS as real,
            5real,
        ),
{
    let whole = progress / SECOND as int;
    let part = progress % SECOND as int;
    let below = crate::double::quotient(part, SECOND as int, 1);
    let seconds = in_seconds(progress);
    let exact = progress as real / SECOND as real;
    let rest = part as real / SECOND as real;
    crate::double::lemma_quotient_near(part, SECOND as int, 1);
    assert((SECOND as int * 1) as real == SECOND as real);
    crate::double::lemma_plus_near(whole, below);
    crate::double::lemma_real_product(whole, SECOND as int);
    assert(progress as real == whole as real * SECOND as real + part as real);
    let (w, s) = (whole as real, SECOND as real);
    assert(exact == w + rest && 0real <= rest <= exact) by (nonlinear_arith)
        requires
            exact == progress as real / s,
            rest == part as real / s,
            progress as real == w * s + part as real,
            0real < s,
            0real <= w,
            0real <= part as real,
    ;
    let middle = whole as real + crate::double::value(below);
    assert(crate::double::near(middle, exact, 1real)) by {
        let e = crate::double::precision();
        crate::double::lemma_precision();
        assert(1real * e * rest <= 1real * e * exact) by (nonlinear_arith)
            requires
                rest <= exact,
                0real < e,
        ;
    }
    crate::double::lemma_near_chain(exact, middle, crate::double::value(seconds), 1real, 1real);
    crate::double::lemma_divided_near(seconds, HOLD_SECONDS as int);
    let tenth = 1real / 10real;
    crate::double::lemma_near_scaled(exact, crate::double::value(seconds), tenth, 3real);
    assert(tenth * crate::double::value(seconds) == crate::double::value(seconds) / 10real);
    let total = progress as real;
    assert(tenth * exact == total / HOLD_NANOS as real) by (nonlinear_arith)
        requires
            tenth == 1real / 10real,
            exact == total / 1_000_000_000real,
            HOLD_NANOS as real == 10_000_000_000real,
    ;
    crate::double::lemma_near_chain(
        tenth * exact,
        tenth * crate::double::value(seconds),
        crate::double::value(fraction(progress)),
        3real,
        1real,
    );
}

/// The exact number of pixels that a progress stands for.
pub open spec fn exact_pixels(width: int, progress: int) -> real {
    width as real * (progress as real / HOLD_NANOS as real)
}

/// The product before it is cut is near the exact number of pixels.
pub proof fn lemma_product_near(width: int, progress: int)
    requires
        0 <= width,
        0 <= progress < HOLD_NANOS,
    ensures
        ({
            let product = crate::double::value(
                crate::double::times(width, fraction(progress)),
            );
            let exact = exact_pixels(width, progress);
            &&& crate::double::is_double(crate::double::times(width, fraction(progress)))
            &&& 0real <= exact
            &&& 100_000_000_000_000real * (product - exact) <= exact
            &&& 100_000_000_000_000real * (exact - product) <= exact
            &&& filled(width, progress) as real <= product < filled(width, progress) as real + 1real
            &&& 0 <= filled(width, progress)
        }),
{
    let share = fraction(progress);
    let product = crate::double::times(width, share);
    let (w, x) = (width as real, progress as real / HOLD_NANOS as real);
    assert(HOLD_NANOS as real == 10_000_000_000real);
    assert(0real <= x);
    lemma_fraction_near(progress);
    crate::double::lemma_times_near(width, share);
    crate::double::lemma_near_scaled(x, crate::double::value(share), w, 5real);
    assert(0real <= w * x) by (nonlinear_arith)
        requires
            0real <= w,
            0real <= x,
    ;
    crate::double::lemma_near_chain(
        w * x,
        w * crate::double::value(share),
        crate::double::value(product),
        5real,
        1real,
    );
    lemma_near_share(crate::double::value(product), w * x);
    crate::double::lemma_truncated(product);
}

/// No hold fills no bar, whatever its width.
pub proof fn lemma_nothing_filled(width: int)
    ensures
        filled(width, 0) == 0,
{
    let length = if width < 0 {
        -width
    } else {
        width
    };
    assert(fraction(0) == (Double { m: 0, scale: 1 }));
    assert(length * 0 == 0);
    assert(crate::double::times(length, fraction(0)) == (Double { m: 0, scale: 1 }));
}

/// A complete hold fills the whole bar.
proof fn lemma_filled_whole(width: int)
    requires
        0 <= width,
    ensures
        filled(width, HOLD_NANOS as int) == width,
{
    assert(crate::double::times(width, fraction(HOLD_NANOS as int)).m == width);
}

proof fn lemma_filled_bounds(width: int, progress: int)
    requires
        0 <= width,
        0 <= progress <= HOLD_NANOS,
    ensures
        0 <= filled(width, progress) <= width,
        0 < width && progress < HOLD_NANOS ==> filled(width, progress) < width,
{
    if progress < HOLD_NANOS {
        lemma_product_near(width, progress);
        let (w, x) = (width as real, progress as real / HOLD_NANOS as real);
        let exact = w * x;
        let product = crate::double::value(crate::double::times(width, fraction(progress)));
        assert(10_000_000_000real * x <= 9_999_999_999real);
        assert(10_000_000_000real * exact <= 9_999_999_999real * w) by (nonlinear_arith)
            requires
                10_000_000_000real * x <= 9_999_999_999real,
                0real <= w,
                exact == w * x,
        ;
        assert(product <= w);
        assert(width > 0 ==> product < w);
    } else {
        lemma_filled_whole(width);
    }
}

proof fn lemma_filled_grows(width: int, earlier: int, later: int)
    requires
        0 <= width,
        0 <= earlier <= later <= HOLD_NANOS,
    ensures
        filled(width, earlier) <= filled(width, later),
{
    if later >= HOLD_NANOS {
        lemma_filled_whole(width);
        lemma_filled_bounds(width, earlier);
    } else if earlier < later {
        lemma_product_near(width, earlier);
        lemma_product_near(width, later);
        let w = width as real;
        let (x, y) = (earlier as real / HOLD_NANOS as real, later as real / HOLD_NANOS as real);
        assert(10_000_000_000real * (y - x) >= 1real && x <= 1real && y <= 1real);
        let unit = w / 10_000_000_000real;
        assert(w * y - w * x >= unit && w * x <= w && w * y <= w) by (nonlinear_arith)
            requires
                10_000_000_000real * (y - x) >= 1real,
                x <= 1real,
                y <= 1real,
                0real <= w,
                unit == w / 10_000_000_000real,
        ;
    }
}

/// The progress is the time held, up to ten seconds, which is the most it can
/// be: it never falls as a hold goes on.
pub proof fn law_progress_counts_the_time(elapsed: int, longer: int)
    requires
        0 <= elapsed <= longer,
    ensures
        HOLD_NANOS == 10_000_000_000,
        elapsed <= HOLD_NANOS ==> progress_of(elapsed) == elapsed,
        elapsed >= HOLD_NANOS ==> progress_of(elapsed) == HOLD_NANOS,
        progress_of(elapsed) <= progress_of(longer) <= progress_of(elapsed) + (longer - elapsed),
{
}

/// A longer hold never shows less progress: the bar does not shrink, the
/// percentage does not fall and the seconds left do not rise.
pub proof fn law_display_follows_the_hold(width: int, earlier: int, later: int)
    requires
        0 <= width,
        0 <= earlier <= later <= HOLD_NANOS,
    ensures
        filled(width, earlier) <= filled(width, later),
        percents(earlier) <= percents(later),
        seconds_shown(earlier) >= seconds_shown(later),
{
    lemma_filled_grows(width, earlier, later);
    lemma_filled_grows(100, earlier, later);
}

/// The display starts at an empty bar, 0% and ten seconds, ends at a full bar,
/// 100% and no seconds, and stays within these bounds in between.
pub proof fn law_display_bounds(width: int, progress: int)
    requires
        0 <= width,
        0 <= progress <= HOLD_NANOS,
    ensures
        0 <= filled(width, progress) <= width,
        0 <= percents(progress) <= 100,
        0 <= seconds_shown(progress) <= 10,
        filled(width, 0) == 0 && percents(0) == 0 && seconds_shown(0) == 10,
        filled(width, HOLD_NANOS as int) == width,
        percents(HOLD_NANOS as int) == 100,
        seconds_shown(HOLD_NANOS as int) == 0,
        progress < HOLD_NANOS ==> percents(progress) < 100,
{
    law_display_follows_the_hold(width, 0, progress);
    law_display_follows_the_hold(width, progress, HOLD_NANOS as int);
    lemma_filled_bounds(width, progress);
    lemma_filled_bounds(100, progress);
    lemma_filled_whole(width);
    lemma_filled_whole(100);
    lemma_nothing_filled(width);
    lemma_nothing_filled(100);
}

/// The seconds shown are never more than half a second off.
pub proof fn law_seconds_are_nearest(progress: int)
    requires
        0 <= progress <= HOLD_NANOS,
    ensures
        2 * (seconds_shown(progress) * SECOND - (HOLD_NANOS - progress)) <= SECOND,
        2 * ((HOLD_NANOS - progress) - seconds_shown(progress) * SECOND) <= SECOND,
{
}

} // verus!
