//! The picture that the overlay shows, as a list of drawing operations.
use vstd::prelude::*;
use crate::countdown::{fill_width, percent_label, subtitle, HOLD_NANOS};
use crate::overlay::{OverlayState, WND_WIDTH};
use crate::text::to_wide;

verus! {

// Colours, as Windows orders their bytes: blue, green, red.
pub const BG_COLOR: u32 = 0x00FF_FFFF;

pub const BORDER_COLOR: u32 = 0x00E0_E0E0;

pub const BAR_BG_COLOR: u32 = 0x00ED_EDED;

pub const FILL_COLOR: u32 = 0x00D7_7800;

pub const TEXT_COL: u32 = 0x0040_3A36;

pub const SUBTEXT_COL: u32 = 0x0076_7676;

/// The space left free on either side.
pub const MARGIN: i32 = 24;

/// The height of the progress bar.
pub const BAR_HEIGHT: i32 = 6;

// Font heights. Windows takes a negative number as the height of the
// characters themselves, in pixels.
pub const TITLE_HEIGHT: i32 = -20;

pub const SUBTITLE_HEIGHT: i32 = -14;

pub const PERCENT_HEIGHT: i32 = -12;

pub const FONT_FACE: &'static str = "Segoe UI";

pub const TITLE: &'static str = "Restarting Explorer...";

/// A rectangle; its right and bottom edges lie outside of it.
#[derive(Clone, Copy, Debug, PartialEq, Eq, Structural)]
pub struct Area {
    pub left: i32,
    pub top: i32,
    pub right: i32,
    pub bottom: i32,
}

#[derive(Clone, Copy, Debug, PartialEq, Eq, Structural)]
pub enum Weight {
    Normal,
    Semibold,
}

/// A font of the face [`FONT_FACE`].
#[derive(Clone, Copy, Debug, PartialEq, Eq, Structural)]
pub struct Font {
    pub height: i32,
    pub weight: Weight,
}

/// Where a single line of text stands in its rectangle.
#[derive(Clone, Copy, Debug, PartialEq, Eq, Structural)]
pub enum Alignment {
    /// At the left edge, centred vertically.
    LeftMiddle,
    /// At the right edge, at the top.
    RightTop,
}

/// A drawing operation.
#[derive(Debug, PartialEq, Eq)]
pub enum PaintOp {
    /// Fill a rectangle.
    Fill { area: Area, color: u32 },
    /// Draw a border of one pixel inside a rectangle.
    Frame { area: Area, color: u32 },
    /// Draw the text that follows without a background.
    TransparentText,
    /// Draw a line of text, given as a wide string with its terminating zero.
    Text { text: Vec<u16>, area: Area, font: Font, color: u32, alignment: Alignment },
}

/// The model of a drawing operation.
pub enum Stroke {
    Fill { area: Area, color: u32 },
    Frame { area: Area, color: u32 },
    TransparentText,
    Text { text: Seq<u16>, area: Area, font: Font, color: u32, alignment: Alignment },
}

impl View for PaintOp {
    type V = Stroke;

    open spec fn view(&self) -> Stroke {
        match *self {
            PaintOp::Fill { area, color } => Stroke::Fill { area, color },
            PaintOp::Frame { area, color } => Stroke::Frame { area, color },
            PaintOp::TransparentText => Stroke::TransparentText,
            PaintOp::Text { text, area, font, color, alignment } => Stroke::Text {
                text: text@,
                area,
                font,
                color,
                alignment,
            },
        }
    }
}

/// The drawing operations of a list.
pub open spec fn strokes(ops: Seq<PaintOp>) -> Seq<Stroke> {
    ops.map_values(|op: PaintOp| op@)
}

/// A client rectangle in which all parts of the picture have coordinates.
pub open spec fn paintable_spec(client: Area) -> bool {
    &&& client.right >= i32::MIN + 2 * MARGIN
    &&& client.bottom >= i32::MIN + 32
}

/// Whether the picture can be laid out in a client rectangle.
pub fn paintable(client: &Area) -> (yes: bool)
    ensures
        yes == paintable_spec(*client),
        yes <==> client.right >= i32::MIN + 48 && client.bottom >= i32::MIN + 32,
{
    client.right >= i32::MIN + 2 * MARGIN && client.bottom >= i32::MIN + 32
}

/// The track of the progress bar: near the bottom, as wide as the margins let it.
pub open spec fn bar_area(client: Area) -> Area {
    Area {
        left: MARGIN,
        top: (client.bottom - 32) as i32,
        right: (client.right - MARGIN) as i32,
        bottom: (client.bottom - 32 + BAR_HEIGHT) as i32,
    }
}

/// How many pixels of the bar are filled.
pub open spec fn bar_fill(client: Area, progress: int) -> int {
    crate::countdown::filled(bar_area(client).right - bar_area(client).left, progress)
}

/// The window's ground: white, a thin border, and an accent strip at the top.
pub open spec fn ground(client: Area) -> Seq<Stroke> {
    seq![
        Stroke::Fill { area: client, color: BG_COLOR },
        Stroke::Frame { area: client, color: BORDER_COLOR },
        Stroke::Fill {
            area: Area { left: 1, top: 1, right: (client.right - 1) as i32, bottom: 5 },
            color: FILL_COLOR,
        },
        Stroke::TransparentText,
    ]
}

/// The title and, under it, the countdown.
pub open spec fn heading(client: Area, progress: int) -> Seq<Stroke> {
    let right = (client.right - MARGIN) as i32;
    seq![
        Stroke::Text {
            text: crate::text::wide(TITLE@),
            area: Area { left: MARGIN, top: 16, right, bottom: 48 },
            font: Font { height: TITLE_HEIGHT, weight: Weight::Semibold },
            color: TEXT_COL,
            alignment: Alignment::LeftMiddle,
        },
        Stroke::Text {
            text: crate::text::wide(crate::countdown::subtitle_text(progress)),
            area: Area { left: MARGIN, top: 48, right, bottom: 70 },
            font: Font { height: SUBTITLE_HEIGHT, weight: Weight::Normal },
            color: SUBTEXT_COL,
            alignment: Alignment::LeftMiddle,
        },
    ]
}

/// The progress bar: its track, and the filled part where there is any.
pub open spec fn bar(client: Area, progress: int) -> Seq<Stroke> {
    let track = bar_area(client);
    let pixels = bar_fill(client, progress);
    let empty = seq![Stroke::Fill { area: track, color: BAR_BG_COLOR }];
    if pixels > 0 {
        empty.push(
            Stroke::Fill {
                area: Area { right: (track.left + pixels) as i32, ..track },
                color: FILL_COLOR,
            },
        )
    } else {
        empty
    }
}

/// The percentage under the bar, at the right.
pub open spec fn percentage(client: Area, progress: int) -> Seq<Stroke> {
    seq![
        Stroke::Text {
            text: crate::text::wide(crate::countdown::percent_text(progress)),
            area: Area {
                left: MARGIN,
                top: (client.bottom - 32 + BAR_HEIGHT + 2) as i32,
                right: (client.right - MARGIN) as i32,
                bottom: (client.bottom - 4) as i32,
            },
            font: Font { height: PERCENT_HEIGHT, weight: Weight::Normal },
            color: SUBTEXT_COL,
            alignment: Alignment::RightTop,
        },
    ]
}

/// The whole picture, from the back to the front.
pub open spec fn picture(client: Area, progress: int) -> Seq<Stroke> {
    ground(client) + heading(client, progress) + bar(client, progress) + percentage(
        client,
        progress,
    )
}

/// The progress that is painted: that of the state, if there is one yet.
pub open spec fn painted_progress(state: Option<&OverlayState>) -> int {
    match state {
        Some(state) => state@.progress,
        None => 0,
    }
}

fn paint_ground(ops: &mut Vec<PaintOp>, client: Area)
    requires
        paintable_spec(client),
    ensures
        strokes(final(ops)@) == strokes(old(ops)@) + ground(client),
{
    ops.push(PaintOp::Fill { area: client, color: BG_COLOR });
    ops.push(PaintOp::Frame { area: client, color: BORDER_COLOR });
    ops.push(
        PaintOp::Fill {
            area: Area { left: 1, top: 1, right: client.right - 1, bottom: 5 },
            color: FILL_COLOR,
        },
    );
    ops.push(PaintOp::TransparentText);
    assert(strokes(ops@) =~= strokes(old(ops)@) + ground(client));
}

fn paint_heading(ops: &mut Vec<PaintOp>, client: Area, progress: u64)
    requires
        paintable_spec(client),
        progress <= HOLD_NANOS,
    ensures
        strokes(final(ops)@) == strokes(old(ops)@) + heading(client, progress as int),
{
    let right: i32 = client.right - MARGIN;
    ops.push(
        PaintOp::Text {
            text: to_wide(TITLE),
            area: Area { left: MARGIN, top: 16, right, bottom: 48 },
            font: Font { height: TITLE_HEIGHT, weight: Weight::Semibold },
            color: TEXT_COL,
            alignment: Alignment::LeftMiddle,
        },
    );
    let line = subtitle(progress);
    ops.push(
        PaintOp::Text {
            text: to_wide(line.as_str()),
            area: Area { left: MARGIN, top: 48, right, bottom: 70 },
            font: Font { height: SUBTITLE_HEIGHT, weight: Weight::Normal },
            color: SUBTEXT_COL,
            alignment: Alignment::LeftMiddle,
        },
    );
    assert(strokes(ops@) =~= strokes(old(ops)@) + heading(client, progress as int));
}

fn paint_bar(ops: &mut Vec<PaintOp>, client: Area, progress: u64)
    requires
        paintable_spec(client),
        progress <= HOLD_NANOS,
    ensures
        strokes(final(ops)@) == strokes(old(ops)@) + bar(client, progress as int),
{
    let top: i32 = client.bottom - 32;
    let track = Area {
        left: MARGIN,
        top,
        right: client.right - MARGIN,
        bottom: top + BAR_HEIGHT,
    };
    ops.push(PaintOp::Fill { area: track, color: BAR_BG_COLOR });
    let pixels: i32 = fill_width(track.right - track.left, progress);
    proof {
        if track.right >= track.left {
            crate::countdown::law_display_bounds(track.right - track.left, progress as int);
        }
    }
    if pixels > 0 {
        assert(track.right >= track.left) by {
            lemma_inverted_bar(track.right - track.left, progress as int);
        }
        ops.push(
            PaintOp::Fill {
                area: Area {
                    left: track.left,
                    top: track.top,
                    right: track.left + pixels,
                    bottom: track.bottom,
                },
                color: FILL_COLOR,
            },
        );
    }
    assert(strokes(ops@) =~= strokes(old(ops)@) + bar(client, progress as int));
}

proof fn lemma_inverted_bar(width: int, progress: int)
    requires
        0 <= progress <= HOLD_NANOS,
    ensures
        width < 0 ==> crate::countdown::filled(width, progress) <= 0,
{
    if width < 0 {
        crate::countdown::law_display_bounds(-width, progress);
    }
}

fn paint_percentage(ops: &mut Vec<PaintOp>, client: Area, progress: u64)
    requires
        paintable_spec(client),
        progress <= HOLD_NANOS,
    ensures
        strokes(final(ops)@) == strokes(old(ops)@) + percentage(client, progress as int),
{
    let label = percent_label(progress);
    ops.push(
        PaintOp::Text {
            text: to_wide(label.as_str()),
            area: Area {
                left: MARGIN,
                top: client.bottom - 32 + BAR_HEIGHT + 2,
                right: client.right - MARGIN,
                bottom: client.bottom - 4,
            },
            font: Font { height: PERCENT_HEIGHT, weight: Weight::Normal },
            color: SUBTEXT_COL,
            alignment: Alignment::RightTop,
        },
    );
    assert(strokes(ops@) =~= strokes(old(ops)@) + percentage(client, progress as int));
}

/// Whether one rectangle lies within another.
pub open spec fn within(inner: Area, outer: Area) -> bool {
    &&& outer.left <= inner.left <= inner.right <= outer.right
    &&& outer.top <= inner.top <= inner.bottom <= outer.bottom
}

/// Whether a drawing operation stays within a rectangle.
pub open spec fn drawn_within(stroke: Stroke, outer: Area) -> bool {
    match stroke {
        Stroke::Fill { area, .. } => within(area, outer),
        Stroke::Frame { area, .. } => within(area, outer),
        Stroke::TransparentText => true,
        Stroke::Text { area, .. } => within(area, outer),
    }
}

/// In a window that leaves room for the margins and the two lines of text, the
/// overlay's own size among them, nothing is drawn outside the client
/// rectangle, and the filled part of the bar stays on its track.
pub proof fn law_picture_fits_the_window(client: Area, progress: int)
    requires
        client.left == 0,
        client.top == 0,
        client.right >= 2 * MARGIN,
        client.bottom >= 70,
        0 <= progress <= HOLD_NANOS,
    ensures
        forall|i: int|
            0 <= i < picture(client, progress).len() ==> drawn_within(
                #[trigger] picture(client, progress)[i],
                client,
            ),
        0 <= bar_fill(client, progress) <= bar_area(client).right - bar_area(client).left,
{
    crate::countdown::law_display_bounds(
        bar_area(client).right - bar_area(client).left,
        progress,
    );
}

/// A window with no hold under way shows a bar with nothing filled.
pub proof fn law_idle_bar_is_empty(client: Area)
    ensures
        bar(client, 0) == seq![Stroke::Fill { area: bar_area(client), color: BAR_BG_COLOR }],
{
    crate::countdown::lemma_nothing_filled(bar_area(client).right - bar_area(client).left);
}

/// The model of a drawing operation holds what is handed to the system, and
/// that of a list its operations in their order.
pub proof fn law_operations_are_drawn_as_modelled(ops: Seq<PaintOp>, i: int)
    requires
        0 <= i < ops.len(),
    ensures
        strokes(ops).len() == ops.len(),
        match (ops[i], strokes(ops)[i]) {
            (PaintOp::Fill { area, color }, Stroke::Fill { area: a, color: c }) => {
                area == a && color == c
            },
            (PaintOp::Frame { area, color }, Stroke::Frame { area: a, color: c }) => {
                area == a && color == c
            },
            (PaintOp::TransparentText, Stroke::TransparentText) => true,
            (
                PaintOp::Text { text, area, font, color, alignment },
                Stroke::Text { text: t, area: a, font: f, color: c, alignment: l },
            ) => text@ == t && area == a && font == f && color == c && alignment == l,
            _ => false,
        },
{
}

/// What the picture is made of, from the back to the front, whatever the size
/// of the window: a white ground, a grey border and a blue strip; the title;
/// the time left under it; the track of the bar and, on it, the part that is
/// filled; and the percentage.
pub proof fn law_picture_has_its_parts(client: Area, progress: int)
    requires
        paintable_spec(client),
        0 <= progress <= HOLD_NANOS,
    ensures
        ({
            let p = picture(client, progress);
            let (right, top) = (client.right - 24, client.bottom - 32);
            let n = p.len();
            &&& n == 8 || n == 9
            &&& p[0] == (Stroke::Fill { area: client, color: 0xFFFFFF })
            &&& p[1] == (Stroke::Frame { area: client, color: 0xE0E0E0 })
            &&& p[2] matches Stroke::Fill { area, color } && is_area(
                area,
                1,
                1,
                client.right - 1,
                5,
            ) && color == 0xD77800
            &&& p[3] == Stroke::TransparentText
            &&& p[4] matches Stroke::Text { text, area, font, color, alignment } && text
                == crate::text::wide("Restarting Explorer..."@) && is_area(area, 24, 16, right, 48)
                && font.height == -20 && font.weight == Weight::Semibold && color == 0x403A36
                && alignment == Alignment::LeftMiddle
            &&& p[5] matches Stroke::Text { text, area, font, color, alignment } && text
                == crate::text::wide(crate::countdown::subtitle_text(progress)) && is_area(
                area,
                24,
                48,
                right,
                70,
            ) && font.height == -14 && font.weight == Weight::Normal && color == 0x767676
                && alignment == Alignment::LeftMiddle
            &&& p[6] matches Stroke::Fill { area, color } && is_area(
                area,
                24,
                top,
                right,
                top + 6,
            ) && color == 0xEDEDED
            &&& n == 9 ==> is_fill(p[7], 0xD77800) && p[7]->Fill_area.left == 24
                && p[7]->Fill_area.top == top && p[7]->Fill_area.bottom == top + 6
            &&& p[n - 1] matches Stroke::Text { text, area, font, color, alignment } && text
                == crate::text::wide(crate::countdown::percent_text(progress)) && is_area(
                area,
                24,
                top + 8,
                right,
                client.bottom - 4,
            ) && font.height == -12 && font.weight == Weight::Normal && color == 0x767676
                && alignment == Alignment::RightTop
        }),
{
    lemma_bar_width(client, progress);
}

/// Whether a rectangle has these edges.
pub open spec fn is_area(area: Area, left: int, top: int, right: int, bottom: int) -> bool {
    area.left == left && area.top == top && area.right == right && area.bottom == bottom
}

/// Whether a drawing operation fills a rectangle in this colour.
pub open spec fn is_fill(stroke: Stroke, color: u32) -> bool {
    stroke is Fill && stroke->Fill_color == color
}

/// How wide the filled part of the bar is painted: nothing, where none is.
pub open spec fn painted_width(client: Area, progress: int) -> int {
    let p = picture(client, progress);
    if p.len() == 9 {
        p[7]->Fill_area.right - p[7]->Fill_area.left
    } else {
        0
    }
}

proof fn lemma_bar_width(client: Area, progress: int)
    requires
        paintable_spec(client),
        0 <= progress <= HOLD_NANOS,
    ensures
        ({
            let filled = crate::countdown::filled(client.right - 48, progress);
            &&& filled <= 0 ==> painted_width(client, progress) == 0
            &&& filled > 0 ==> painted_width(client, progress) == filled
            &&& picture(client, progress).len() == (if filled > 0 {
                9
            } else {
                8int
            })
            &&& client.right < 48 ==> filled <= 0
            &&& client.right >= 48 ==> 0 <= filled <= client.right - 48
        }),
{
    let width = client.right - 48;
    if width >= 0 {
        crate::countdown::law_display_bounds(width, progress);
    } else {
        lemma_inverted_bar(width, progress);
    }
}

/// The filled part of the bar begins where its track does and is as much of it
/// as the progress is of ten seconds, cut to whole pixels: in windows of less
/// than ten thousand pixels exactly that, but for the moments at which a pixel
/// is completed, when it may come late; in any window, to the pixel. A bar
/// without room is never filled, and a complete hold fills the whole track.
pub proof fn law_bar_shows_the_share(client: Area, progress: int)
    requires
        paintable_spec(client),
        0 <= progress <= HOLD_NANOS,
    ensures
        ({
            let p = picture(client, progress);
            let track = client.right - 48;
            let exact = (track * progress) / 10_000_000_000;
            let painted = painted_width(client, progress);
            &&& painted > 0 ==> p.len() == 9 && is_fill(p[7], FILL_COLOR) && is_area(
                p[7]->Fill_area,
                24,
                client.bottom - 32,
                24 + painted,
                client.bottom - 26,
            )
            &&& painted == 0 ==> p.len() == 8
            &&& track <= 0 ==> painted == 0
            &&& track > 0 ==> 0 <= painted <= track && exact - 1 <= painted <= exact + 1
            &&& 0 < track < 10_000 ==> painted <= exact
            &&& 0 < track < 10_000 && (track * progress) % 10_000_000_000 != 0 ==> painted == exact
            &&& track > 0 && progress == 10_000_000_000 ==> painted == track
            &&& progress == 0 ==> painted == 0
        }),
{
    let track = client.right - 48;
    lemma_bar_width(client, progress);
    law_picture_has_its_parts(client, progress);
    crate::countdown::lemma_nothing_filled(track);
    if track > 0 {
        crate::countdown::law_display_bounds(track, progress);
        crate::countdown_laws::law_bar_is_no_more_than_a_pixel_off(track, progress);
        if track < 10_000 {
            crate::countdown_laws::law_pixels_are_exact_between_marks(track, progress);
        }
    } else if track == 0 {
        crate::countdown::law_display_bounds(track, progress);
    }
}

/// The painted bar never shrinks during a hold.
pub proof fn law_painted_bar_never_shrinks(client: Area, earlier: int, later: int)
    requires
        paintable_spec(client),
        0 <= earlier <= later <= HOLD_NANOS,
    ensures
        painted_width(client, earlier) <= painted_width(client, later),
{
    lemma_bar_width(client, earlier);
    lemma_bar_width(client, later);
    if client.right >= 48 {
        crate::countdown::law_display_follows_the_hold(client.right - 48, earlier, later);
    }
}

/// All text is in one face; and in a window of the overlay's own size the track
/// of the bar has the width of the overlay's own bar.
pub proof fn law_own_window_holds_the_own_bar(client: Area)
    requires
        client.right - client.left == WND_WIDTH,
        client.left == 0,
    ensures
        FONT_FACE@ == "Segoe UI"@,
        bar_area(client).right - bar_area(client).left == crate::countdown_laws::OWN_BAR,
{
}

/// A picture shows the progress of the state it is painted for, and no progress
/// where there is no state yet.
pub proof fn law_picture_shows_the_state(state: Option<&OverlayState>)
    ensures
        state is Some ==> painted_progress(state) == state->0@.progress,
        state is None ==> painted_progress(state) == 0,
{
}

/// Lays out the picture of the overlay in the window's client rectangle.
pub fn paint_overlay(client: Area, state: Option<&OverlayState>) -> (ops: Vec<PaintOp>)
    requires
        paintable_spec(client),
    ensures
        strokes(ops@) == picture(client, painted_progress(state)),
        state is Some ==> strokes(ops@) == picture(client, state->0@.progress),
        state is None ==> strokes(ops@) == picture(client, 0),
{
    let progress: u64 = match state {
        Some(state) => state.progress(),
        None => 0,
    };
    let mut ops: Vec<PaintOp> = Vec::new();
    paint_ground(&mut ops, client);
    paint_heading(&mut ops, client, progress);
    paint_bar(&mut ops, client, progress);
    paint_percentage(&mut ops, client, progress);
    assert(strokes(ops@) =~= picture(client, progress as int));
    ops
}

} // verus!
