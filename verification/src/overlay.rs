//! The overlay window: when it shows, when it hides, when it fires.
//!
//! The window polls the hotkey. The first poll that finds it held starts the
//! countdown and shows the overlay; a poll that finds it released cancels;
//! a poll that finds it held for ten seconds restarts Explorer.
use vstd::prelude::*;
use crate::countdown::{progress_after, HOLD_NANOS};

verus! {

/// The number of the polling timer.
pub const TIMER_ID: usize = 1;

/// The time between two polls, in milliseconds.
pub const POLL_MS: u32 = 50;

pub const WND_WIDTH: i32 = 380;

pub const WND_HEIGHT: i32 = 140;

/// The name of the window's class.
pub const CLASS_NAME: &'static str = "eee_overlay";

pub const WINDOW_TITLE: &'static str = "eee";

/// How opaque the window is, of 255.
pub const WINDOW_ALPHA: u8 = 245;

pub const WM_CREATE: u32 = 0x0001;

pub const WM_DESTROY: u32 = 0x0002;

pub const WM_PAINT: u32 = 0x000F;

pub const WM_TIMER: u32 = 0x0113;

/// The messages that the window answers itself.
#[derive(Clone, Copy, Debug, PartialEq, Eq, Structural)]
pub enum WindowMessage {
    Create,
    Timer,
    Paint,
    Destroy,
    /// Any other message, which goes to the system's default procedure.
    Other,
}

pub open spec fn message_of(code: u32) -> WindowMessage {
    if code == WM_CREATE {
        WindowMessage::Create
    } else if code == WM_TIMER {
        WindowMessage::Timer
    } else if code == WM_PAINT {
        WindowMessage::Paint
    } else if code == WM_DESTROY {
        WindowMessage::Destroy
    } else {
        WindowMessage::Other
    }
}

/// Tells which message a message number stands for.
pub fn window_message(code: u32) -> (message: WindowMessage)
    ensures
        message == message_of(code),
        message == WindowMessage::Create <==> code == 1,
        message == WindowMessage::Destroy <==> code == 2,
        message == WindowMessage::Paint <==> code == 15,
        message == WindowMessage::Timer <==> code == 275,
{
    match code {
        WM_CREATE => WindowMessage::Create,
        WM_TIMER => WindowMessage::Timer,
        WM_PAINT => WindowMessage::Paint,
        WM_DESTROY => WindowMessage::Destroy,
        _ => WindowMessage::Other,
    }
}

/// What the program does to the window or to the system.
#[derive(Clone, Copy, Debug, PartialEq, Eq, Structural)]
pub enum OverlayAction {
    /// Start a repeating timer.
    StartTimer { id: usize, period_ms: u32 },
    /// Show the window on top of all others, at this place and of this size.
    Show { x: i32, y: i32, width: i32, height: i32 },
    /// Hide the window.
    Hide,
    /// Restart Explorer, and report back when that is done.
    RestartExplorer,
    /// Have the whole window painted again.
    Redraw,
    /// Leave the message loop with this exit code.
    Quit { code: i32 },
}

/// What a poll found.
#[derive(Clone, Copy, Debug, PartialEq, Eq, Structural)]
pub struct Poll {
    /// Whether all keys of the hotkey are down.
    pub held: bool,
    /// The clock, in nanoseconds, when a hold found by this poll began.
    pub started_at: u128,
    /// The clock, in nanoseconds, when the length of the hold is taken.
    pub now: u128,
    /// The width of the screen in pixels.
    pub screen_width: i32,
    /// The height of the screen in pixels.
    pub screen_height: i32,
}

impl Poll {
    /// A screen whose distance to the window's size is a 32-bit number.
    pub open spec fn placeable_spec(self) -> bool {
        &&& self.screen_width >= i32::MIN + WND_WIDTH
        &&& self.screen_height >= i32::MIN + WND_HEIGHT
    }

    /// Whether the window can be placed on the screen.
    pub fn placeable(&self) -> (yes: bool)
        ensures
            yes == self.placeable_spec(),
            yes <==> self.screen_width >= i32::MIN + 380 && self.screen_height >= i32::MIN + 140,
    {
        self.screen_width >= i32::MIN + WND_WIDTH && self.screen_height >= i32::MIN + WND_HEIGHT
    }
}

/// The model of the overlay's state.
pub struct Overlay {
    /// When the current hold began.
    pub hold_start: Option<int>,
    /// How far the current hold has come, in nanoseconds.
    pub progress: int,
    /// Whether Explorer is being restarted.
    pub triggered: bool,
}

/// The overlay with no hold under way.
pub open spec fn idle() -> Overlay {
    Overlay { hold_start: None, progress: 0, triggered: false }
}

/// What holds of the overlay at all times.
pub open spec fn well_formed(s: Overlay) -> bool {
    &&& 0 <= s.progress <= HOLD_NANOS
    &&& s.hold_start is None ==> s == idle()
    &&& s.triggered <==> s.progress == HOLD_NANOS
}

/// The coordinate that centres a window of the given size.
pub open spec fn centred(screen: int, size: int) -> int {
    crate::countdown::truncated_quotient(screen - size, 2)
}

/// Shows the window in the middle of the screen.
pub open spec fn show_centred(poll: Poll) -> OverlayAction {
    OverlayAction::Show {
        x: centred(poll.screen_width as int, WND_WIDTH as int) as i32,
        y: centred(poll.screen_height as int, WND_HEIGHT as int) as i32,
        width: WND_WIDTH,
        height: WND_HEIGHT,
    }
}

/// When the hold that a poll sees began: at this poll, if none was under way.
pub open spec fn start_of(s: Overlay, poll: Poll) -> int {
    match s.hold_start {
        Some(start) => start,
        None => poll.started_at as int,
    }
}

/// How long the hold that a poll sees has lasted.
pub open spec fn elapsed(s: Overlay, poll: Poll) -> int {
    if poll.now >= start_of(s, poll) {
        poll.now - start_of(s, poll)
    } else {
        0
    }
}

/// Whether a poll makes the overlay fire.
pub open spec fn fires(s: Overlay, poll: Poll) -> bool {
    !s.triggered && poll.held && elapsed(s, poll) >= HOLD_NANOS
}

/// The state after a poll.
pub open spec fn polled(s: Overlay, poll: Poll) -> Overlay {
    if s.triggered {
        s
    } else if poll.held {
        Overlay {
            hold_start: Some(start_of(s, poll)),
            progress: crate::countdown::progress_of(elapsed(s, poll)),
            triggered: fires(s, poll),
        }
    } else {
        idle()
    }
}

/// What a poll has the program do.
pub open spec fn poll_actions(s: Overlay, poll: Poll) -> Seq<OverlayAction> {
    if s.triggered {
        seq![]
    } else if poll.held {
        (if s.hold_start is None {
            seq![show_centred(poll)]
        } else {
            seq![]
        }) + (if fires(s, poll) {
            seq![OverlayAction::Hide, OverlayAction::RestartExplorer]
        } else {
            seq![OverlayAction::Redraw]
        })
    } else if s.hold_start is Some {
        seq![OverlayAction::Hide, OverlayAction::Redraw]
    } else {
        seq![OverlayAction::Redraw]
    }
}

/// The state of the overlay window.
#[derive(Debug)]
pub struct OverlayState {
    hold_start: Option<u128>,
    progress: u64,
    triggered: bool,
}

impl View for OverlayState {
    type V = Overlay;

    closed spec fn view(&self) -> Overlay {
        Overlay {
            hold_start: match self.hold_start {
                Some(start) => Some(start as int),
                None => None,
            },
            progress: self.progress as int,
            triggered: self.triggered,
        }
    }
}

fn centre(screen: i32, size: i32) -> (at: i32)
    requires
        0 <= size,
        screen >= i32::MIN + size,
    ensures
        at == centred(screen as int, size as int),
{
    let rest: i32 = screen - size;
    if rest >= 0 {
        rest / 2
    } else {
        (-((-(rest as i64)) / 2)) as i32
    }
}

impl OverlayState {
    #[verifier::type_invariant]
    spec fn is_well_formed(self) -> bool {
        well_formed(self@)
    }

    /// The state of a new window: no hold is under way.
    pub fn new() -> (state: OverlayState)
        ensures
            state@ == idle(),
            state@.hold_start is None,
            state@.progress == 0,
            !state@.triggered,
    {
        OverlayState { hold_start: None, progress: 0, triggered: false }
    }

    /// Whether Explorer is being restarted. Polls change nothing until then.
    pub fn is_triggered(&self) -> (triggered: bool)
        ensures
            triggered == self@.triggered,
    {
        self.triggered
    }

    /// How far the current hold has come, in nanoseconds.
    pub fn progress(&self) -> (progress: u64)
        ensures
            progress == self@.progress,
            progress <= HOLD_NANOS,
    {
        proof {
            use_type_invariant(self);
        }
        self.progress
    }

    /// Takes in a poll and decides what is to be done.
    pub fn on_timer(&mut self, poll: &Poll) -> (actions: Vec<OverlayAction>)
        requires
            poll.placeable_spec(),
        ensures
            final(self)@ == polled(old(self)@, *poll),
            actions@ == poll_actions(old(self)@, *poll),
            !old(self)@.triggered && poll.held ==> {
                let start = match old(self)@.hold_start {
                    Some(start) => start,
                    None => poll.started_at as int,
                };
                let time = poll.now - start;
                &&& final(self)@.hold_start == Some(start)
                &&& time <= 0 ==> final(self)@.progress == 0
                &&& 0 <= time <= HOLD_NANOS ==> final(self)@.progress == time
                &&& time >= HOLD_NANOS ==> final(self)@.progress == HOLD_NANOS
                &&& final(self)@.triggered <==> time >= HOLD_NANOS
            },
    {
        proof {
            use_type_invariant(&*self);
        }
        let mut actions: Vec<OverlayAction> = Vec::new();
        if self.triggered {
            return actions;
        }
        if poll.held {
            let start: u128 = match self.hold_start {
                Some(start) => start,
                None => {
                    actions.push(
                        OverlayAction::Show {
                            x: centre(poll.screen_width, WND_WIDTH),
                            y: centre(poll.screen_height, WND_HEIGHT),
                            width: WND_WIDTH,
                            height: WND_HEIGHT,
                        },
                    );
                    poll.started_at
                },
            };
            let elapsed: u128 = if poll.now >= start { poll.now - start } else { 0 };
            let complete = elapsed >= HOLD_NANOS as u128;
            *self = OverlayState {
                hold_start: Some(start),
                progress: progress_after(elapsed),
                triggered: complete,
            };
            if complete {
                actions.push(OverlayAction::Hide);
                actions.push(OverlayAction::RestartExplorer);
            } else {
                actions.push(OverlayAction::Redraw);
            }
        } else {
            if self.hold_start.is_some() {
                actions.push(OverlayAction::Hide);
            }
            *self = OverlayState::new();
            actions.push(OverlayAction::Redraw);
        }
        assert(actions@ =~= poll_actions(old(self)@, *poll));
        actions
    }

    /// Takes in that Explorer has been restarted: the next hold starts afresh.
    pub fn on_restarted(&mut self) -> (actions: Vec<OverlayAction>)
        ensures
            final(self)@ == idle(),
            final(self)@.hold_start is None,
            final(self)@.progress == 0,
            !final(self)@.triggered,
            actions@ == seq![OverlayAction::Redraw],
    {
        *self = OverlayState::new();
        vec![OverlayAction::Redraw]
    }
}

/// What a new window does: it starts polling, hidden.
pub fn on_create() -> (started: (OverlayState, Vec<OverlayAction>))
    ensures
        started.0@ == idle(),
        started.0@.hold_start is None,
        started.0@.progress == 0,
        !started.0@.triggered,
        started.1@ == seq![
            OverlayAction::StartTimer { id: TIMER_ID, period_ms: POLL_MS },
            OverlayAction::Hide,
        ],
        started.1@ == seq![
            OverlayAction::StartTimer { id: 1, period_ms: 50 },
            OverlayAction::Hide,
        ],
{
    (
        OverlayState::new(),
        vec![OverlayAction::StartTimer { id: TIMER_ID, period_ms: POLL_MS }, OverlayAction::Hide],
    )
}

/// What a window that is destroyed does: it ends the program.
pub fn on_destroy() -> (actions: Vec<OverlayAction>)
    ensures
        actions@ == seq![OverlayAction::Quit { code: 0 }],
{
    vec![OverlayAction::Quit { code: 0 }]
}

} // verus!
