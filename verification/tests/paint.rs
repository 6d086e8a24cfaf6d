use eee::overlay::{OverlayState, Poll};
use eee::paint::{paint_overlay, paintable, Alignment, Area, Font, PaintOp, Weight};
use eee::text::to_wide;

const CLIENT: Area = Area { left: 0, top: 0, right: 380, bottom: 140 };

fn held_for(nanos: u128) -> OverlayState {
    let mut state = OverlayState::new();
    state.on_timer(&Poll {
        held: true,
        started_at: 0,
        now: nanos,
        screen_width: 1920,
        screen_height: 1080,
    });
    state
}

fn line(text: &str, area: Area, height: i32, weight: Weight, color: u32) -> PaintOp {
    PaintOp::Text {
        text: to_wide(text),
        area,
        font: Font { height, weight },
        color,
        alignment: Alignment::LeftMiddle,
    }
}

#[test]
fn the_whole_picture_in_the_middle_of_a_hold() {
    let state = held_for(2_500_000_001);
    let expected = vec![
        PaintOp::Fill { area: CLIENT, color: 0x00FFFFFF },
        PaintOp::Frame { area: CLIENT, color: 0x00E0E0E0 },
        PaintOp::Fill { area: Area { left: 1, top: 1, right: 379, bottom: 5 }, color: 0x00D77800 },
        PaintOp::TransparentText,
        line(
            "Restarting Explorer...",
            Area { left: 24, top: 16, right: 356, bottom: 48 },
            -20,
            Weight::Semibold,
            0x00403A36,
        ),
        line(
            "7 seconds remaining \u{2014} release keys to cancel",
            Area { left: 24, top: 48, right: 356, bottom: 70 },
            -14,
            Weight::Normal,
            0x00767676,
        ),
        PaintOp::Fill {
            area: Area { left: 24, top: 108, right: 356, bottom: 114 },
            color: 0x00EDEDED,
        },
        PaintOp::Fill {
            area: Area { left: 24, top: 108, right: 107, bottom: 114 },
            color: 0x00D77800,
        },
        PaintOp::Text {
            text: to_wide("25%"),
            area: Area { left: 24, top: 116, right: 356, bottom: 136 },
            font: Font { height: -12, weight: Weight::Normal },
            color: 0x00767676,
            alignment: Alignment::RightTop,
        },
    ];
    assert_eq!(paint_overlay(CLIENT, Some(&state)), expected);
}

#[test]
fn nothing_is_filled_before_a_hold() {
    let ops = paint_overlay(CLIENT, None);
    assert_eq!(ops.len(), 8);
    assert_eq!(ops, paint_overlay(CLIENT, Some(&OverlayState::new())));
    assert_eq!(
        ops[5],
        line(
            "10 seconds remaining \u{2014} release keys to cancel",
            Area { left: 24, top: 48, right: 356, bottom: 70 },
            -14,
            Weight::Normal,
            0x00767676,
        )
    );
}

#[test]
fn a_full_hold_fills_the_bar() {
    let ops = paint_overlay(CLIENT, Some(&held_for(10_000_000_000)));
    assert_eq!(
        ops[7],
        PaintOp::Fill {
            area: Area { left: 24, top: 108, right: 356, bottom: 114 },
            color: 0x00D77800,
        }
    );
    match &ops[8] {
        PaintOp::Text { text, .. } => assert_eq!(*text, to_wide("100%")),
        other => panic!("{:?}", other),
    }
}

#[test]
fn a_window_without_room_has_no_filled_bar() {
    let empty = Area { left: 0, top: 0, right: 0, bottom: 0 };
    let ops = paint_overlay(empty, Some(&held_for(9_000_000_000)));
    assert_eq!(ops.len(), 8);
    assert_eq!(
        ops[6],
        PaintOp::Fill {
            area: Area { left: 24, top: -32, right: -24, bottom: -26 },
            color: 0x00EDEDED,
        }
    );
}

#[test]
fn everything_is_painted_inside_the_window() {
    for nanos in [0, 1, 5_000_000_000, 9_999_999_999, 10_000_000_000] {
        for op in paint_overlay(CLIENT, Some(&held_for(nanos))) {
            let area = match op {
                PaintOp::Fill { area, .. } => area,
                PaintOp::Frame { area, .. } => area,
                PaintOp::Text { area, .. } => area,
                PaintOp::TransparentText => continue,
            };
            assert!(0 <= area.left && area.left <= area.right && area.right <= 380);
            assert!(0 <= area.top && area.top <= area.bottom && area.bottom <= 140);
        }
    }
}

#[test]
fn a_rectangle_out_of_range_cannot_be_painted() {
    assert!(paintable(&CLIENT));
    assert!(paintable(&Area { left: 0, top: 0, right: i32::MIN + 48, bottom: i32::MIN + 32 }));
    assert!(!paintable(&Area { left: 0, top: 0, right: i32::MIN + 47, bottom: 0 }));
    assert!(!paintable(&Area { left: 0, top: 0, right: 0, bottom: i32::MIN + 31 }));
}
