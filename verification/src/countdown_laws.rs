//! How what is shown relates to the exact progress, and to the double
//! precision arithmetic by which it is rounded.
use vstd::prelude::*;
use vstd::arithmetic::power2::{lemma2_to64, lemma2_to64_rest, pow2};
use crate::countdown::{COUNTED_REST, HOLD_NANOS, HOLD_SECONDS, SECOND};
use crate::double::{lemma_cut_is, lemma_quotient_is, Double, TOO_LONG, TOP_BIT};

verus! {

/// The width of the bar in a window of the overlay's own size.
pub const OWN_BAR: i32 = 332;

/// The seconds left of a hold, as a double: ten times what the fraction leaves.
pub open spec fn rest(progress: int) -> Double {
    crate::double::times(
        HOLD_SECONDS as int,
        crate::double::one_minus(crate::countdown::fraction(progress)),
    )
}

/// Whether a double is more than the double nearest to a tenth.
pub open spec fn exceeds_a_tenth(d: Double) -> bool {
    d.m * 0x80_0000_0000_0000 > 0xC_CCCC_CCCC_CCCD * d.scale
}

/// The bar and the percentage come about by four operations in double
/// precision: the parts of a second held are divided, the whole seconds added,
/// the sum divided by ten, and the width or a hundred multiplied with the
/// quotient. A bar of a negative width is that of its opposite, mirrored.
pub proof fn law_bar_is_a_double_product(width: int, progress: int)
    requires
        0 <= width,
        0 <= progress < HOLD_NANOS,
    ensures
        ({
            let below = crate::double::quotient(
                progress % 1_000_000_000,
                1_000_000_000,
                1,
            );
            let seconds = crate::double::plus(progress / 1_000_000_000, below);
            let share = crate::double::divided(seconds, 10);
            let product = crate::double::times(width, share);
            let percent = crate::double::times(100, share);
            let (pixels, percents) = (
                crate::countdown::filled(width, progress),
                crate::countdown::percents(progress),
            );
            &&& pixels * product.scale <= product.m < (pixels + 1) * product.scale
            &&& percents * percent.scale <= percent.m < (percents + 1) * percent.scale
        }),
        crate::countdown::filled(-width, progress) == -crate::countdown::filled(width, progress),
        crate::countdown::filled(width, HOLD_NANOS as int) == width,
        crate::countdown::filled(-width, HOLD_NANOS as int) == -width,
        crate::countdown::percents(HOLD_NANOS as int) == 100,
{
    crate::countdown::law_display_bounds(width, progress);
    crate::countdown::lemma_product_near(width, progress);
    crate::countdown::lemma_product_near(100, progress);
    lemma_cut_down(crate::double::times(width, crate::countdown::fraction(progress)));
    lemma_cut_down(crate::double::times(100, crate::countdown::fraction(progress)));
}

proof fn lemma_cut_down(d: Double)
    requires
        crate::double::is_double(d),
    ensures
        crate::double::truncated(d) * d.scale <= d.m < (crate::double::truncated(d) + 1) * d.scale,
{
    let t = crate::double::truncated(d);
    assert(t * d.scale <= d.m < (t + 1) * d.scale) by (nonlinear_arith)
        requires
            t == d.m / d.scale,
            0 < d.scale,
    ;
}

/// A bar of whatever width that a window can have shows the exact number of
/// pixels, cut to a whole number, or is one pixel off.
pub proof fn law_bar_is_no_more_than_a_pixel_off(width: int, progress: int)
    requires
        0 <= width <= 0x8000_0000,
        0 <= progress <= HOLD_NANOS,
    ensures
        (width * progress) / 10_000_000_000 - 1 <= crate::countdown::filled(width, progress)
            <= (width * progress) / 10_000_000_000 + 1,
{
    let exact = (width * progress) / HOLD_NANOS as int;
    let left = (width * progress) % HOLD_NANOS as int;
    if progress == HOLD_NANOS {
        crate::countdown::law_display_bounds(width, progress);
        assert(width * progress == width * HOLD_NANOS);
        assert(exact == width);
    } else {
        crate::countdown::lemma_product_near(width, progress);
        let pixels = crate::countdown::exact_pixels(width, progress);
        lemma_exact_pixels(width, progress);
        assert(10_000_000_000real * pixels == 10_000_000_000real * exact as real + left as real);
        assert(pixels <= 2_147_483_648real);
    }
}

/// The exact number of pixels, as a quotient and a remainder.
proof fn lemma_exact_pixels(width: int, progress: int)
    requires
        0 <= width,
        0 <= progress <= HOLD_NANOS,
    ensures
        ({
            let exact = (width * progress) / HOLD_NANOS as int;
            let left = (width * progress) % HOLD_NANOS as int;
            &&& 10_000_000_000real * crate::countdown::exact_pixels(width, progress)
                == 10_000_000_000real * exact as real + left as real
            &&& 0 <= left < HOLD_NANOS
            &&& crate::countdown::exact_pixels(width, progress) <= width as real
        }),
{
    let exact = (width * progress) / HOLD_NANOS as int;
    let left = (width * progress) % HOLD_NANOS as int;
    let pixels = crate::countdown::exact_pixels(width, progress);
    let (w, p, h) = (width as real, progress as real, HOLD_NANOS as real);
    crate::double::lemma_real_product(width, progress);
    assert(width * progress == exact * HOLD_NANOS + left);
    assert(0 <= width * progress <= width * HOLD_NANOS) by (nonlinear_arith)
        requires
            0 <= width,
            0 <= progress <= HOLD_NANOS,
    ;
    assert(w * p == exact as real * h + left as real);
    assert(h * pixels == w * p) by (nonlinear_arith)
        requires
            pixels == w * (p / h),
            h > 0real,
    ;
    assert(h == 10_000_000_000real);
}

/// Bars of less than ten thousand pixels, the percentage among them, show the
/// exact number of pixels, cut to a whole number; where the exact number is
/// itself whole, rounding may cost one pixel.
pub proof fn law_pixels_are_exact_between_marks(width: int, progress: int)
    requires
        0 <= width < 10_000,
        0 <= progress <= HOLD_NANOS,
    ensures
        ({
            let exact = (width * progress) / HOLD_NANOS as int;
            let shown = crate::countdown::filled(width, progress);
            &&& exact - 1 <= shown <= exact
            &&& (width * progress) % HOLD_NANOS as int != 0 ==> shown == exact
        }),
{
    let exact = (width * progress) / HOLD_NANOS as int;
    let left = (width * progress) % HOLD_NANOS as int;
    let shown = crate::countdown::filled(width, progress);
    if progress == HOLD_NANOS {
        crate::countdown::law_display_bounds(width, progress);
        assert(width * progress == width * HOLD_NANOS);
        assert(exact == width);
    } else {
        crate::countdown::lemma_product_near(width, progress);
        let pixels = crate::countdown::exact_pixels(width, progress);
        lemma_exact_pixels(width, progress);
        assert(10_000_000_000real * pixels == 10_000_000_000real * exact as real + left as real);
        assert(pixels < 10_000real);
    }
}

/// The overlay's own bar shows the exact number of pixels, cut to a whole
/// number, at every moment of a hold.
pub proof fn law_own_bar_is_exact(progress: int)
    requires
        0 <= progress <= HOLD_NANOS,
    ensures
        crate::countdown::filled(OWN_BAR as int, progress) == (OWN_BAR * progress)
            / HOLD_NANOS as int,
{
    law_pixels_are_exact_between_marks(OWN_BAR as int, progress);
    if (OWN_BAR * progress) % HOLD_NANOS as int == 0 {
        let k = (OWN_BAR * progress) / HOLD_NANOS as int;
        let quarter = (-2078313253) * k + 69 * progress;
        assert(83 * progress == 2_500_000_000 * k);
        assert(k == 83 * quarter);
        assert(progress == 2_500_000_000 * quarter);
        crate::countdown::law_display_bounds(OWN_BAR as int, progress);
        lemma_first_quarter();
        lemma_second_quarter();
        lemma_third_quarter();
    }
}

#[verifier::spinoff_prover]
proof fn lemma_first_quarter()
    ensures
        crate::countdown::filled(OWN_BAR as int, 2_500_000_000) == 83,
{
    lemma2_to64();
    lemma2_to64_rest();
    let share = Double { m: 4_503_599_627_370_496, scale: 18_014_398_509_481_984 };
    lemma_quotient_is(500_000_000, 1_000_000_000, 1, 53);
    lemma_cut_is(22_517_998_136_852_480, 2_251_799_813_685_248, 1, 2);
    lemma_quotient_is(5_629_499_534_213_120, 10, 2_251_799_813_685_248, 3);
    assert(crate::countdown::fraction(2_500_000_000) == share);
    lemma_cut_is(1_495_195_076_287_004_672, 70_368_744_177_664, 1, 8);
}

#[verifier::spinoff_prover]
proof fn lemma_second_quarter()
    ensures
        crate::countdown::filled(OWN_BAR as int, 5_000_000_000) == 166,
{
    lemma2_to64();
    lemma2_to64_rest();
    let share = Double { m: 4_503_599_627_370_496, scale: 9_007_199_254_740_992 };
    lemma_quotient_is(5, 10, 1, 53);
    assert(crate::countdown::fraction(5_000_000_000) == share);
    lemma_cut_is(1_495_195_076_287_004_672, 35_184_372_088_832, 1, 8);
}

#[verifier::spinoff_prover]
proof fn lemma_third_quarter()
    ensures
        crate::countdown::filled(OWN_BAR as int, 7_500_000_000) == 249,
{
    lemma2_to64();
    lemma2_to64_rest();
    let share = Double { m: 6_755_399_441_055_744, scale: 9_007_199_254_740_992 };
    lemma_quotient_is(500_000_000, 1_000_000_000, 1, 53);
    lemma_cut_is(67_553_994_410_557_440, 1_125_899_906_842_624, 1, 3);
    lemma_quotient_is(8_444_249_301_319_680, 10, 1_125_899_906_842_624, 3);
    assert(crate::countdown::fraction(7_500_000_000) == share);
    lemma_cut_is(2_242_792_614_430_507_008, 35_184_372_088_832, 1, 8);
}

/// The percentage is the hundredths of a hold that have passed, cut to a whole
/// number; where one has passed to the nanosecond, it may come a moment late.
pub proof fn law_percentage_counts_hundredths(progress: int)
    requires
        0 <= progress <= HOLD_NANOS,
    ensures
        progress % 100_000_000 != 0 ==> crate::countdown::percents(progress) == progress
            / 100_000_000,
        progress / 100_000_000 - 1 <= crate::countdown::percents(progress) <= progress
            / 100_000_000,
{
    law_pixels_are_exact_between_marks(100, progress);
    assert((100 * progress) / 10_000_000_000 == progress / 100_000_000);
    assert((100 * progress) % 10_000_000_000 == 100 * (progress % 100_000_000));
}

/// What the overlay says: until a tenth of a second is left, how many seconds
/// are, to the nearest, and how to cancel; from then on, that it is over. Under
/// the bar stands the percentage.
pub proof fn law_words_tell_the_time_left(progress: int)
    requires
        0 <= progress <= HOLD_NANOS,
    ensures
        progress <= 9_900_000_000 ==> crate::countdown::subtitle_text(progress)
            == crate::text::decimal(crate::countdown::seconds_shown(progress) as nat)
            + " seconds remaining \u{2014} release keys to cancel"@,
        progress > 9_900_000_000 ==> crate::countdown::subtitle_text(progress)
            == "Restarting now..."@,
        crate::countdown::percent_text(progress) == crate::text::decimal(
            crate::countdown::percents(progress) as nat,
        ) + "%"@,
        -500_000_000 <= 1_000_000_000 * crate::countdown::seconds_shown(progress) - (
        10_000_000_000 - progress) <= 500_000_000,
        0 <= crate::countdown::seconds_shown(progress),
        0 <= crate::countdown::percents(progress),
{
    crate::countdown::law_display_bounds(0, progress);
    crate::countdown::law_seconds_are_nearest(progress);
}

/// The seconds left of a hold, exactly.
pub open spec fn exact_rest(progress: int) -> real {
    (HOLD_NANOS - progress) as real / SECOND as real
}

/// Twelve decimal places of the seconds left are right.
proof fn lemma_rest_near(progress: int)
    requires
        0 <= progress < HOLD_NANOS,
    ensures
        crate::double::is_double(rest(progress)),
        -1real <= 1_000_000_000_000real * (crate::double::value(rest(progress)) - exact_rest(
            progress,
        )) <= 1real,
{
    let share = crate::countdown::fraction(progress);
    let left = crate::double::one_minus(share);
    let (f, o) = (crate::double::value(share), crate::double::value(left));
    let (t, r) = (crate::double::value(rest(progress)), exact_rest(progress));
    let x = progress as real / HOLD_NANOS as real;
    let e = crate::double::precision();
    crate::double::lemma_precision();
    crate::countdown::lemma_fraction_near(progress);
    assert(HOLD_NANOS as real == 10_000_000_000real && SECOND as real == 1_000_000_000real);
    assert(0real <= x && 10_000_000_000real * x <= 9_999_999_999real);
    assert(0real <= 5real * e * x <= 5real * e) by (nonlinear_arith)
        requires
            0real <= x <= 1real,
            0real < e,
    ;
    assert(0real <= 1real - f <= 2real);
    let (m, scale) = (share.m as real, share.scale as real);
    assert(m <= scale) by (nonlinear_arith)
        requires
            f == m / scale,
            f <= 1real,
            0real < scale,
    ;
    crate::double::lemma_one_minus_near(share);
    assert(1real * e * (1real - f) <= 2real * e) by (nonlinear_arith)
        requires
            1real - f <= 2real,
            0real < e,
    ;
    crate::double::lemma_times_near(HOLD_SECONDS as int, left);
    assert(o <= 3real);
    assert(1real * e * (10real * o) <= 30real * e) by (nonlinear_arith)
        requires
            o <= 3real,
            0real < e,
    ;
    assert(r == 10real - 10real * x);
    assert(HOLD_SECONDS as int as real == 10real);
}

/// The seconds shown are the seconds left in double precision, rounded to a
/// whole number, a tie going to the even one; and they are shown exactly while
/// the seconds left in double precision are more than a tenth.
pub proof fn law_seconds_follow_double_precision(progress: int)
    requires
        0 <= progress <= HOLD_NANOS,
    ensures
        crate::double::nearest(rest(progress).m, rest(progress).scale)
            == crate::countdown::seconds_shown(progress),
        exceeds_a_tenth(rest(progress)) <==> HOLD_NANOS - progress >= COUNTED_REST,
{
    if progress == HOLD_NANOS {
        assert(crate::double::one_minus(crate::countdown::fraction(progress)) == (Double {
            m: 0,
            scale: 1,
        }));
    } else {
        lemma_rest_near(progress);
        if progress % SECOND as int == 500_000_000 {
            lemma_half_seconds(progress / SECOND as int);
        } else {
            lemma_seconds_off_marks(progress);
        }
        if progress == 9_900_000_000 {
            lemma_last_tenth();
        } else {
            lemma_tenth_off_mark(progress);
        }
    }
}

proof fn lemma_seconds_off_marks(progress: int)
    requires
        0 <= progress < HOLD_NANOS,
        progress % SECOND as int != 500_000_000,
    ensures
        crate::double::nearest(rest(progress).m, rest(progress).scale)
            == crate::countdown::seconds_shown(progress),
{
    lemma_rest_near(progress);
    crate::double::lemma_nearest_double(rest(progress));
    crate::countdown::law_seconds_are_nearest(progress);
    let shown = crate::countdown::seconds_shown(progress);
    let n = crate::double::nearest(rest(progress).m, rest(progress).scale);
    let off = shown * SECOND - (HOLD_NANOS - progress);
    assert(-SECOND < 2 * off < SECOND);
    let (r, s) = (exact_rest(progress), shown as real);
    assert(SECOND as real == 1_000_000_000real);
    crate::double::lemma_real_product(shown, SECOND as int);
    assert(1_000_000_000real * r == (HOLD_NANOS - progress) as real);
    assert(off as real == 1_000_000_000real * (s - r));
    assert(-499_999_999real <= off as real <= 499_999_999real);
    assert(-1real < n as real - s < 1real);
}

proof fn lemma_tenth_off_mark(progress: int)
    requires
        0 <= progress < HOLD_NANOS,
        progress != 9_900_000_000,
    ensures
        exceeds_a_tenth(rest(progress)) <==> HOLD_NANOS - progress >= COUNTED_REST,
{
    lemma_rest_near(progress);
    let d = rest(progress);
    let (m, scale, v) = (d.m as real, d.scale as real, crate::double::value(d));
    let (a, b) = (36_028_797_018_963_968real, 3_602_879_701_896_397real);
    let r = exact_rest(progress);
    assert(SECOND as real == 1_000_000_000real);
    crate::double::lemma_real_product(d.m, 0x80_0000_0000_0000);
    crate::double::lemma_real_product(0xC_CCCC_CCCC_CCCD, d.scale);
    assert(m * a > b * scale <==> v * a > b) by (nonlinear_arith)
        requires
            v == m / scale,
            0real < scale,
    ;
    assert(1_000_000_000real * r == (HOLD_NANOS - progress) as real);
    if HOLD_NANOS - progress >= COUNTED_REST {
        assert(1_000_000_000real * r >= 100_000_001real);
        assert(v * a > b);
    } else {
        assert(1_000_000_000real * r <= 99_999_999real);
        assert(v * a <= b);
    }
    assert(m * a == (d.m * 0x80_0000_0000_0000) as real);
    assert(b * scale == (0xC_CCCC_CCCC_CCCD * d.scale) as real);
}

/// The seconds left at a mark, given what each step to it comes to and how
/// often a number is doubled in it.
proof fn lemma_rest_is(
    progress: int,
    below: Double,
    seconds: Double,
    share: Double,
    left: Double,
    last: Double,
    doublings: (nat, nat, nat, nat, nat),
)
    requires
        0 <= progress < HOLD_NANOS,
        ({
            let whole = progress / SECOND as int;
            let part = progress % SECOND as int;
            let sum = whole * below.scale + below.m;
            let difference = share.scale - share.m;
            let product = 10 * left.m;
            &&& is_quotient(part, SECOND as int, 1, below, doublings.0)
            &&& is_cut(sum, below.scale, seconds, doublings.1)
            &&& is_quotient(seconds.m, 10, seconds.scale, share, doublings.2)
            &&& is_cut(difference, share.scale, left, doublings.3)
            &&& is_cut(product, left.scale, last, doublings.4)
        }),
    ensures
        rest(progress) == last,
{
    let whole = progress / SECOND as int;
    let part = progress % SECOND as int;
    lemma_quotient_is(part, SECOND as int, 1, doublings.0);
    lemma_cut_is(whole * below.scale + below.m, seconds.scale, 1, doublings.1);
    lemma_quotient_is(seconds.m, 10, seconds.scale, doublings.2);
    lemma_cut_is(share.scale - share.m, left.scale, 1, doublings.3);
    lemma_cut_is(10 * left.m, last.scale, 1, doublings.4);
}

/// Whether `a / (b * scale)`, doubled this often, comes to `d`.
spec fn is_quotient(a: int, b: int, scale: int, d: Double, doublings: nat) -> bool {
    &&& 0 < a && 0 < b
    &&& TOP_BIT * b <= a * pow2(doublings)
    &&& doublings > 0 ==> a * pow2((doublings - 1) as nat) < TOP_BIT * b
    &&& d.m == crate::double::nearest(a * pow2(doublings), b)
    &&& d.scale == scale * pow2(doublings)
}

/// Whether `n / scale`, its unit doubled this often, is cut to `d`.
spec fn is_cut(n: int, scale: int, d: Double, doublings: nat) -> bool {
    &&& 0 < d.scale
    &&& scale == d.scale * pow2(doublings)
    &&& n < TOO_LONG * pow2(doublings)
    &&& doublings > 0 ==> TOO_LONG * pow2((doublings - 1) as nat) <= n
    &&& d.m == crate::double::nearest(n, pow2(doublings) as int)
}

/// Whether the seconds shown are those left in double precision, rounded.
spec fn is_rounded(progress: int) -> bool {
    crate::double::nearest(rest(progress).m, rest(progress).scale)
        == crate::countdown::seconds_shown(progress)
}

/// Where the seconds left are half way between two whole numbers.
proof fn lemma_half_seconds(whole: int)
    requires
        0 <= whole < 10,
    ensures
        is_rounded(whole * SECOND + 500_000_000),
{
    lemma_half_past_zero();
    lemma_half_past_one();
    lemma_half_past_two();
    lemma_half_past_three();
    lemma_half_past_four();
    lemma_half_past_five();
    lemma_half_past_six();
    lemma_half_past_seven();
    lemma_half_past_eight();
    lemma_half_past_nine();
}

#[verifier::spinoff_prover]
proof fn lemma_half_past_zero()
    ensures
        is_rounded(500_000_000),
{
    lemma2_to64();
    lemma2_to64_rest();
    let below = Double { m: 4_503_599_627_370_496, scale: 9_007_199_254_740_992 };
    let seconds = Double { m: 4_503_599_627_370_496, scale: 9_007_199_254_740_992 };
    let share = Double { m: 7_205_759_403_792_794, scale: 144_115_188_075_855_872 };
    let left = Double { m: 8_556_839_292_003_942, scale: 9_007_199_254_740_992 };
    let last = Double { m: 5_348_024_557_502_464, scale: 562_949_953_421_312 };
    assert(is_quotient(500_000_000, 1_000_000_000, 1, below, 53));
    assert(is_cut(4_503_599_627_370_496, 9_007_199_254_740_992, seconds, 0));
    assert(is_quotient(4_503_599_627_370_496, 10, 9_007_199_254_740_992, share, 4));
    assert(is_cut(136_909_428_672_063_078, 144_115_188_075_855_872, left, 4));
    assert(is_cut(85_568_392_920_039_420, 9_007_199_254_740_992, last, 4));
    lemma_rest_is(500_000_000, below, seconds, share, left, last, (53, 0, 4, 4, 4));
}

#[verifier::spinoff_prover]
proof fn lemma_half_past_one()
    ensures
        is_rounded(1_500_000_000),
{
    lemma2_to64();
    lemma2_to64_rest();
    let below = Double { m: 4_503_599_627_370_496, scale: 9_007_199_254_740_992 };
    let seconds = Double { m: 6_755_399_441_055_744, scale: 4_503_599_627_370_496 };
    let share = Double { m: 5_404_319_552_844_595, scale: 36_028_797_018_963_968 };
    let left = Double { m: 7_656_119_366_529_843, scale: 9_007_199_254_740_992 };
    let last = Double { m: 4_785_074_604_081_152, scale: 562_949_953_421_312 };
    assert(is_quotient(500_000_000, 1_000_000_000, 1, below, 53));
    assert(is_cut(13_510_798_882_111_488, 9_007_199_254_740_992, seconds, 1));
    assert(is_quotient(6_755_399_441_055_744, 10, 4_503_599_627_370_496, share, 3));
    assert(is_cut(30_624_477_466_119_373, 36_028_797_018_963_968, left, 2));
    assert(is_cut(76_561_193_665_298_430, 9_007_199_254_740_992, last, 4));
    lemma_rest_is(1_500_000_000, below, seconds, share, left, last, (53, 1, 3, 2, 4));
}

#[verifier::spinoff_prover]
proof fn lemma_half_past_two()
    ensures
        is_rounded(2_500_000_000),
{
    lemma2_to64();
    lemma2_to64_rest();
    let below = Double { m: 4_503_599_627_370_496, scale: 9_007_199_254_740_992 };
    let seconds = Double { m: 5_629_499_534_213_120, scale: 2_251_799_813_685_248 };
    let share = Double { m: 4_503_599_627_370_496, scale: 18_014_398_509_481_984 };
    let left = Double { m: 6_755_399_441_055_744, scale: 9_007_199_254_740_992 };
    let last = Double { m: 8_444_249_301_319_680, scale: 1_125_899_906_842_624 };
    assert(is_quotient(500_000_000, 1_000_000_000, 1, below, 53));
    assert(is_cut(22_517_998_136_852_480, 9_007_199_254_740_992, seconds, 2));
    assert(is_quotient(5_629_499_534_213_120, 10, 2_251_799_813_685_248, share, 3));
    assert(is_cut(13_510_798_882_111_488, 18_014_398_509_481_984, left, 1));
    assert(is_cut(67_553_994_410_557_440, 9_007_199_254_740_992, last, 3));
    lemma_rest_is(2_500_000_000, below, seconds, share, left, last, (53, 2, 3, 1, 3));
}

#[verifier::spinoff_prover]
proof fn lemma_half_past_three()
    ensures
        is_rounded(3_500_000_000),
{
    lemma2_to64();
    lemma2_to64_rest();
    let below = Double { m: 4_503_599_627_370_496, scale: 9_007_199_254_740_992 };
    let seconds = Double { m: 7_881_299_347_898_368, scale: 2_251_799_813_685_248 };
    let share = Double { m: 6_305_039_478_318_694, scale: 18_014_398_509_481_984 };
    let left = Double { m: 5_854_679_515_581_645, scale: 9_007_199_254_740_992 };
    let last = Double { m: 7_318_349_394_477_056, scale: 1_125_899_906_842_624 };
    assert(is_quotient(500_000_000, 1_000_000_000, 1, below, 53));
    assert(is_cut(31_525_197_391_593_472, 9_007_199_254_740_992, seconds, 2));
    assert(is_quotient(7_881_299_347_898_368, 10, 2_251_799_813_685_248, share, 3));
    assert(is_cut(11_709_359_031_163_290, 18_014_398_509_481_984, left, 1));
    assert(is_cut(58_546_795_155_816_450, 9_007_199_254_740_992, last, 3));
    lemma_rest_is(3_500_000_000, below, seconds, share, left, last, (53, 2, 3, 1, 3));
}

#[verifier::spinoff_prover]
proof fn lemma_half_past_four()
    ensures
        is_rounded(4_500_000_000),
{
    lemma2_to64();
    lemma2_to64_rest();
    let below = Double { m: 4_503_599_627_370_496, scale: 9_007_199_254_740_992 };
    let seconds = Double { m: 5_066_549_580_791_808, scale: 1_125_899_906_842_624 };
    let share = Double { m: 8_106_479_329_266_893, scale: 18_014_398_509_481_984 };
    let left = Double { m: 4_953_959_590_107_546, scale: 9_007_199_254_740_992 };
    let last = Double { m: 6_192_449_487_634_432, scale: 1_125_899_906_842_624 };
    assert(is_quotient(500_000_000, 1_000_000_000, 1, below, 53));
    assert(is_cut(40_532_396_646_334_464, 9_007_199_254_740_992, seconds, 3));
    assert(is_quotient(5_066_549_580_791_808, 10, 1_125_899_906_842_624, share, 4));
    assert(is_cut(9_907_919_180_215_091, 18_014_398_509_481_984, left, 1));
    assert(is_cut(49_539_595_901_075_460, 9_007_199_254_740_992, last, 3));
    lemma_rest_is(4_500_000_000, below, seconds, share, left, last, (53, 3, 4, 1, 3));
}

#[verifier::spinoff_prover]
proof fn lemma_half_past_five()
    ensures
        is_rounded(5_500_000_000),
{
    lemma2_to64();
    lemma2_to64_rest();
    let below = Double { m: 4_503_599_627_370_496, scale: 9_007_199_254_740_992 };
    let seconds = Double { m: 6_192_449_487_634_432, scale: 1_125_899_906_842_624 };
    let share = Double { m: 4_953_959_590_107_546, scale: 9_007_199_254_740_992 };
    let left = Double { m: 4_053_239_664_633_446, scale: 9_007_199_254_740_992 };
    let last = Double { m: 5_066_549_580_791_808, scale: 1_125_899_906_842_624 };
    assert(is_quotient(500_000_000, 1_000_000_000, 1, below, 53));
    assert(is_cut(49_539_595_901_075_456, 9_007_199_254_740_992, seconds, 3));
    assert(is_quotient(6_192_449_487_634_432, 10, 1_125_899_906_842_624, share, 3));
    assert(is_cut(4_053_239_664_633_446, 9_007_199_254_740_992, left, 0));
    assert(is_cut(40_532_396_646_334_460, 9_007_199_254_740_992, last, 3));
    lemma_rest_is(5_500_000_000, below, seconds, share, left, last, (53, 3, 3, 0, 3));
}

#[verifier::spinoff_prover]
proof fn lemma_half_past_six()
    ensures
        is_rounded(6_500_000_000),
{
    lemma2_to64();
    lemma2_to64_rest();
    let below = Double { m: 4_503_599_627_370_496, scale: 9_007_199_254_740_992 };
    let seconds = Double { m: 7_318_349_394_477_056, scale: 1_125_899_906_842_624 };
    let share = Double { m: 5_854_679_515_581_645, scale: 9_007_199_254_740_992 };
    let left = Double { m: 3_152_519_739_159_347, scale: 9_007_199_254_740_992 };
    let last = Double { m: 7_881_299_347_898_368, scale: 2_251_799_813_685_248 };
    assert(is_quotient(500_000_000, 1_000_000_000, 1, below, 53));
    assert(is_cut(58_546_795_155_816_448, 9_007_199_254_740_992, seconds, 3));
    assert(is_quotient(7_318_349_394_477_056, 10, 1_125_899_906_842_624, share, 3));
    assert(is_cut(3_152_519_739_159_347, 9_007_199_254_740_992, left, 0));
    assert(is_cut(31_525_197_391_593_470, 9_007_199_254_740_992, last, 2));
    lemma_rest_is(6_500_000_000, below, seconds, share, left, last, (53, 3, 3, 0, 2));
}

#[verifier::spinoff_prover]
proof fn lemma_half_past_seven()
    ensures
        is_rounded(7_500_000_000),
{
    lemma2_to64();
    lemma2_to64_rest();
    let below = Double { m: 4_503_599_627_370_496, scale: 9_007_199_254_740_992 };
    let seconds = Double { m: 8_444_249_301_319_680, scale: 1_125_899_906_842_624 };
    let share = Double { m: 6_755_399_441_055_744, scale: 9_007_199_254_740_992 };
    let left = Double { m: 2_251_799_813_685_248, scale: 9_007_199_254_740_992 };
    let last = Double { m: 5_629_499_534_213_120, scale: 2_251_799_813_685_248 };
    assert(is_quotient(500_000_000, 1_000_000_000, 1, below, 53));
    assert(is_cut(67_553_994_410_557_440, 9_007_199_254_740_992, seconds, 3));
    assert(is_quotient(8_444_249_301_319_680, 10, 1_125_899_906_842_624, share, 3));
    assert(is_cut(2_251_799_813_685_248, 9_007_199_254_740_992, left, 0));
    assert(is_cut(22_517_998_136_852_480, 9_007_199_254_740_992, last, 2));
    lemma_rest_is(7_500_000_000, below, seconds, share, left, last, (53, 3, 3, 0, 2));
}

#[verifier::spinoff_prover]
proof fn lemma_half_past_eight()
    ensures
        is_rounded(8_500_000_000),
{
    lemma2_to64();
    lemma2_to64_rest();
    let below = Double { m: 4_503_599_627_370_496, scale: 9_007_199_254_740_992 };
    let seconds = Double { m: 4_785_074_604_081_152, scale: 562_949_953_421_312 };
    let share = Double { m: 7_656_119_366_529_843, scale: 9_007_199_254_740_992 };
    let left = Double { m: 1_351_079_888_211_149, scale: 9_007_199_254_740_992 };
    let last = Double { m: 6_755_399_441_055_745, scale: 4_503_599_627_370_496 };
    assert(is_quotient(500_000_000, 1_000_000_000, 1, below, 53));
    assert(is_cut(76_561_193_665_298_432, 9_007_199_254_740_992, seconds, 4));
    assert(is_quotient(4_785_074_604_081_152, 10, 562_949_953_421_312, share, 4));
    assert(is_cut(1_351_079_888_211_149, 9_007_199_254_740_992, left, 0));
    assert(is_cut(13_510_798_882_111_490, 9_007_199_254_740_992, last, 1));
    lemma_rest_is(8_500_000_000, below, seconds, share, left, last, (53, 4, 4, 0, 1));
}

#[verifier::spinoff_prover]
proof fn lemma_half_past_nine()
    ensures
        is_rounded(9_500_000_000),
{
    lemma2_to64();
    lemma2_to64_rest();
    let below = Double { m: 4_503_599_627_370_496, scale: 9_007_199_254_740_992 };
    let seconds = Double { m: 5_348_024_557_502_464, scale: 562_949_953_421_312 };
    let share = Double { m: 8_556_839_292_003_942, scale: 9_007_199_254_740_992 };
    let left = Double { m: 450_359_962_737_050, scale: 9_007_199_254_740_992 };
    let last = Double { m: 4_503_599_627_370_500, scale: 9_007_199_254_740_992 };
    assert(is_quotient(500_000_000, 1_000_000_000, 1, below, 53));
    assert(is_cut(85_568_392_920_039_424, 9_007_199_254_740_992, seconds, 4));
    assert(is_quotient(5_348_024_557_502_464, 10, 562_949_953_421_312, share, 4));
    assert(is_cut(450_359_962_737_050, 9_007_199_254_740_992, left, 0));
    assert(is_cut(4_503_599_627_370_500, 9_007_199_254_740_992, last, 0));
    lemma_rest_is(9_500_000_000, below, seconds, share, left, last, (53, 4, 4, 0, 0));
}

/// Where a tenth of a second is left.
#[verifier::spinoff_prover]
proof fn lemma_last_tenth()
    ensures
        exceeds_a_tenth(rest(9_900_000_000)),
{
    lemma2_to64();
    lemma2_to64_rest();
    let below = Double { m: 8_106_479_329_266_893, scale: 9_007_199_254_740_992 };
    let seconds = Double { m: 5_573_204_538_870_989, scale: 562_949_953_421_312 };
    let share = Double { m: 8_917_127_262_193_582, scale: 9_007_199_254_740_992 };
    let left = Double { m: 90_071_992_547_410, scale: 9_007_199_254_740_992 };
    let last = Double { m: 900_719_925_474_100, scale: 9_007_199_254_740_992 };
    assert(is_quotient(900_000_000, 1_000_000_000, 1, below, 53));
    assert(is_cut(89_171_272_621_935_821, 9_007_199_254_740_992, seconds, 4));
    assert(is_quotient(5_573_204_538_870_989, 10, 562_949_953_421_312, share, 4));
    assert(is_cut(90_071_992_547_410, 9_007_199_254_740_992, left, 0));
    assert(is_cut(900_719_925_474_100, 9_007_199_254_740_992, last, 0));
    lemma_rest_is(9_900_000_000, below, seconds, share, left, last, (53, 4, 4, 0, 0));
}

} // verus!
