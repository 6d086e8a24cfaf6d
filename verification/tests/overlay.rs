use eee::countdown::HOLD_NANOS;
use eee::overlay::{
    on_create, on_destroy, window_message, OverlayAction, OverlayState, Poll, WindowMessage,
};

const SECOND: u128 = 1_000_000_000;

const SHOW: OverlayAction = OverlayAction::Show { x: 770, y: 470, width: 380, height: 140 };

fn poll(held: bool, at: u128) -> Poll {
    Poll { held, started_at: at, now: at, screen_width: 1920, screen_height: 1080 }
}

#[test]
fn messages_are_told_apart() {
    assert_eq!(window_message(0x0001), WindowMessage::Create);
    assert_eq!(window_message(0x0113), WindowMessage::Timer);
    assert_eq!(window_message(0x000F), WindowMessage::Paint);
    assert_eq!(window_message(0x0002), WindowMessage::Destroy);
    assert_eq!(window_message(0x0005), WindowMessage::Other);
    assert_eq!(window_message(0), WindowMessage::Other);
}

#[test]
fn a_new_window_polls_and_hides() {
    let (state, actions) = on_create();
    assert_eq!(
        actions,
        vec![OverlayAction::StartTimer { id: 1, period_ms: 50 }, OverlayAction::Hide]
    );
    assert_eq!(state.progress(), 0);
    assert!(!state.is_triggered());
}

#[test]
fn a_destroyed_window_quits() {
    assert_eq!(on_destroy(), vec![OverlayAction::Quit { code: 0 }]);
}

#[test]
fn without_the_hotkey_the_window_only_repaints() {
    let mut state = OverlayState::new();
    assert_eq!(state.on_timer(&poll(false, 5)), vec![OverlayAction::Redraw]);
    assert_eq!(state.progress(), 0);
}

#[test]
fn holding_shows_the_overlay_once() {
    let mut state = OverlayState::new();
    assert_eq!(state.on_timer(&poll(true, 5 * SECOND)), vec![SHOW, OverlayAction::Redraw]);
    assert_eq!(state.progress(), 0);
    assert_eq!(state.on_timer(&poll(true, 8 * SECOND)), vec![OverlayAction::Redraw]);
    assert_eq!(state.progress(), 3_000_000_000);
}

#[test]
fn releasing_early_cancels() {
    let mut state = OverlayState::new();
    state.on_timer(&poll(true, 0));
    state.on_timer(&poll(true, 9 * SECOND));
    assert_eq!(
        state.on_timer(&poll(false, 9 * SECOND + 1)),
        vec![OverlayAction::Hide, OverlayAction::Redraw]
    );
    assert_eq!(state.progress(), 0);
    assert_eq!(state.on_timer(&poll(true, 11 * SECOND)), vec![SHOW, OverlayAction::Redraw]);
    assert_eq!(state.progress(), 0);
}

#[test]
fn ten_seconds_restart_explorer() {
    let mut state = OverlayState::new();
    state.on_timer(&poll(true, SECOND));
    assert_eq!(state.on_timer(&poll(true, 11 * SECOND - 1)), vec![OverlayAction::Redraw]);
    assert_eq!(
        state.on_timer(&poll(true, 11 * SECOND)),
        vec![OverlayAction::Hide, OverlayAction::RestartExplorer]
    );
    assert!(state.is_triggered());
    assert_eq!(state.progress(), HOLD_NANOS);
}

#[test]
fn polls_during_a_restart_do_nothing() {
    let mut state = OverlayState::new();
    state.on_timer(&poll(true, 0));
    state.on_timer(&poll(true, 10 * SECOND));
    assert_eq!(state.on_timer(&poll(true, 30 * SECOND)), vec![]);
    assert_eq!(state.on_timer(&poll(false, 30 * SECOND)), vec![]);
    assert!(state.is_triggered());
}

#[test]
fn another_restart_needs_another_hold() {
    let mut state = OverlayState::new();
    state.on_timer(&poll(true, 0));
    state.on_timer(&poll(true, 10 * SECOND));
    assert_eq!(state.on_restarted(), vec![OverlayAction::Redraw]);
    assert!(!state.is_triggered());
    assert_eq!(state.progress(), 0);
    assert_eq!(state.on_timer(&poll(true, 11 * SECOND)), vec![SHOW, OverlayAction::Redraw]);
    assert_eq!(state.on_timer(&poll(true, 20 * SECOND)), vec![OverlayAction::Redraw]);
    assert_eq!(
        state.on_timer(&poll(true, 21 * SECOND)),
        vec![OverlayAction::Hide, OverlayAction::RestartExplorer]
    );
}

#[test]
fn a_restart_may_come_with_the_first_poll() {
    let mut state = OverlayState::new();
    let late = Poll { now: 10 * SECOND, ..poll(true, 0) };
    assert_eq!(
        state.on_timer(&late),
        vec![SHOW, OverlayAction::Hide, OverlayAction::RestartExplorer]
    );
}

#[test]
fn a_clock_that_goes_back_counts_as_nothing() {
    let mut state = OverlayState::new();
    state.on_timer(&poll(true, 5 * SECOND));
    assert_eq!(state.on_timer(&poll(true, 4 * SECOND)), vec![OverlayAction::Redraw]);
    assert_eq!(state.progress(), 0);
}

#[test]
fn the_window_is_centred_on_any_screen() {
    let mut state = OverlayState::new();
    let odd = Poll { screen_width: 1367, screen_height: 769, ..poll(true, 0) };
    assert_eq!(
        state.on_timer(&odd)[0],
        OverlayAction::Show { x: 493, y: 314, width: 380, height: 140 }
    );
    let mut state = OverlayState::new();
    let tiny = Poll { screen_width: 377, screen_height: 0, ..poll(true, 0) };
    assert_eq!(
        state.on_timer(&tiny)[0],
        OverlayAction::Show { x: -1, y: -70, width: 380, height: 140 }
    );
}

#[test]
fn a_screen_out_of_range_cannot_be_placed_on() {
    assert!(poll(true, 0).placeable());
    assert!(Poll { screen_width: i32::MIN + 380, ..poll(true, 0) }.placeable());
    assert!(!Poll { screen_width: i32::MIN + 379, ..poll(true, 0) }.placeable());
    assert!(!Poll { screen_height: i32::MIN + 139, ..poll(true, 0) }.placeable());
}

#[test]
fn the_window_is_visible_only_while_held() {
    let polls = [
        (false, 0, false),
        (true, 1, true),
        (true, 5, true),
        (false, 6, false),
        (true, 7, true),
        (true, 16, true),
        (true, 17, false),
        (true, 18, true),
        (false, 19, false),
    ];
    let (mut state, actions) = on_create();
    let mut visible = true;
    let mut see = |action: OverlayAction| {
        match action {
            OverlayAction::Show { .. } => visible = true,
            OverlayAction::Hide => visible = false,
            _ => {}
        }
        visible
    };
    for action in actions {
        see(action);
    }
    for (held, second, expected) in polls {
        let mut seen = None;
        for action in state.on_timer(&poll(held, second * SECOND)) {
            seen = Some(see(action));
        }
        if state.is_triggered() {
            state.on_restarted();
        }
        assert_eq!(seen, Some(expected), "{}", second);
    }
}
