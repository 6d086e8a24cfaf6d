//! What holds of every run of the overlay, however the polls turn out.
use vstd::prelude::*;
use crate::countdown::HOLD_NANOS;
use crate::overlay::{Overlay, OverlayAction, Poll, WindowMessage};

verus! {

/// The state that the next poll finds: when the overlay has fired, the restart
/// is over by then.
pub open spec fn settled(s: Overlay) -> Overlay {
    if s.triggered {
        crate::overlay::idle()
    } else {
        s
    }
}

/// The state before the `k`-th poll of a run that began idle.
pub open spec fn state_before(polls: Seq<Poll>, k: int) -> Overlay
    decreases k,
{
    if k <= 0 {
        crate::overlay::idle()
    } else {
        settled(crate::overlay::polled(state_before(polls, k - 1), polls[k - 1]))
    }
}

/// Whether the `k`-th poll restarts Explorer.
pub open spec fn restarts_at(polls: Seq<Poll>, k: int) -> bool {
    crate::overlay::poll_actions(state_before(polls, k), polls[k]).contains(
        OverlayAction::RestartExplorer,
    )
}

/// Whether every poll from the `j`-th to the `k`-th found the hotkey held.
pub open spec fn held_throughout(polls: Seq<Poll>, j: int, k: int) -> bool {
    forall|i: int| j <= i <= k ==> (#[trigger] polls[i]).held
}

/// Whether the window is visible after these actions.
pub open spec fn visible_after(before: bool, actions: Seq<OverlayAction>) -> bool
    decreases actions.len(),
{
    if actions.len() == 0 {
        before
    } else {
        match actions.last() {
            OverlayAction::Show { .. } => true,
            OverlayAction::Hide => false,
            _ => visible_after(before, actions.drop_last()),
        }
    }
}

/// What a poll makes of the state, in numbers. While Explorer is being
/// restarted, nothing changes. A poll that finds the hotkey released leaves no
/// hold behind. One that finds it held keeps the moment at which the hold
/// began, its own if there was none; the progress is the time since, no less
/// than nothing and no more than ten seconds; and ten seconds fire.
pub proof fn law_poll_measures_the_hold(s: Overlay, poll: Poll)
    ensures
        ({
            let after = crate::overlay::polled(s, poll);
            let start = if s.hold_start is Some {
                s.hold_start->0
            } else {
                poll.started_at as int
            };
            let time = poll.now - start;
            if s.triggered {
                after == s
            } else if !poll.held {
                &&& after.hold_start is None
                &&& after.progress == 0
                &&& !after.triggered
            } else {
                &&& after.hold_start == Some(start)
                &&& time <= 0 ==> after.progress == 0
                &&& 0 <= time <= 10_000_000_000 ==> after.progress == time
                &&& time >= 10_000_000_000 ==> after.progress == 10_000_000_000
                &&& after.triggered <==> time >= 10_000_000_000
            }
        }),
        crate::overlay::idle().hold_start is None,
        crate::overlay::idle().progress == 0,
        !crate::overlay::idle().triggered,
{
}

/// What a poll has the program do. The poll that begins a hold shows the
/// window, of its own size, as far from the left edge of the screen as from
/// the right and from the top as from the bottom, to the pixel. The poll that
/// ends it hides the window, and restarts Explorer if it has lasted ten
/// seconds. The window is painted again unless Explorer is restarted first.
pub proof fn law_poll_shows_hides_and_fires(s: Overlay, poll: Poll)
    requires
        poll.screen_width >= i32::MIN + 380,
        poll.screen_height >= i32::MIN + 140,
    ensures
        ({
            let actions = crate::overlay::poll_actions(s, poll);
            let start = if s.hold_start is Some {
                s.hold_start->0
            } else {
                poll.started_at as int
            };
            let full = poll.now - start >= 10_000_000_000;
            let shown = if poll.held && s.hold_start is None {
                1int
            } else {
                0int
            };
            if s.triggered {
                actions.len() == 0
            } else if poll.held {
                &&& shown == 1 ==> match actions[0] {
                    OverlayAction::Show { x, y, width, height } => {
                        &&& width == 380 && height == 140
                        &&& is_middle(poll.screen_width as int, 380, x as int)
                        &&& is_middle(poll.screen_height as int, 140, y as int)
                    },
                    _ => false,
                }
                &&& full ==> actions.len() == shown + 2 && actions[shown] == OverlayAction::Hide
                    && actions[shown + 1] == OverlayAction::RestartExplorer
                &&& !full ==> actions.len() == shown + 1 && actions[shown] == OverlayAction::Redraw
            } else if s.hold_start is Some {
                actions == seq![OverlayAction::Hide, OverlayAction::Redraw]
            } else {
                actions == seq![OverlayAction::Redraw]
            }
        }),
{
}

/// Whether a window of this size, put at this coordinate, has as much of the
/// screen before it as behind it, but for one pixel; and no less behind it,
/// unless it is larger than the screen.
pub open spec fn is_middle(screen: int, size: int, at: int) -> bool {
    let behind = screen - size - at;
    if screen >= size {
        0 <= behind - at <= 1
    } else {
        -1 <= behind - at <= 0
    }
}

/// The window has a class and a title by which it is known to the system, is a
/// little transparent, and is polled twenty times a second.
pub proof fn law_window_is_known_by_its_names()
    ensures
        crate::overlay::CLASS_NAME@ == "eee_overlay"@,
        crate::overlay::WINDOW_TITLE@ == "eee"@,
        crate::overlay::WINDOW_ALPHA == 245,
        20 * crate::overlay::POLL_MS == 1000,
{
}

/// The window answers messages by their numbers, which are those of Windows.
pub proof fn law_messages_are_told_apart(code: u32)
    ensures
        crate::overlay::message_of(code) == WindowMessage::Create <==> code == 0x1,
        crate::overlay::message_of(code) == WindowMessage::Destroy <==> code == 0x2,
        crate::overlay::message_of(code) == WindowMessage::Paint <==> code == 0xF,
        crate::overlay::message_of(code) == WindowMessage::Timer <==> code == 0x113,
{
}

/// Polls and restarts keep the state well-formed, and an idle one is.
pub proof fn law_state_stays_well_formed(s: Overlay, poll: Poll)
    requires
        crate::overlay::well_formed(s),
    ensures
        crate::overlay::well_formed(crate::overlay::idle()),
        crate::overlay::well_formed(crate::overlay::polled(s, poll)),
        crate::overlay::well_formed(settled(s)),
{
}

/// A poll restarts Explorer exactly if it fires, and then hides the window
/// first and leaves the painting to the end of the restart.
pub proof fn law_restart_is_the_last_action(s: Overlay, poll: Poll)
    ensures
        crate::overlay::poll_actions(s, poll).contains(OverlayAction::RestartExplorer)
            <==> crate::overlay::fires(s, poll),
        crate::overlay::fires(s, poll) ==> {
            let actions = crate::overlay::poll_actions(s, poll);
            &&& actions.last() == OverlayAction::RestartExplorer
            &&& actions[actions.len() - 2] == OverlayAction::Hide
            &&& !actions.drop_last().contains(OverlayAction::RestartExplorer)
            &&& !actions.contains(OverlayAction::Redraw)
        },
{
    let actions = crate::overlay::poll_actions(s, poll);
    if crate::overlay::fires(s, poll) {
        assert(actions[actions.len() - 1] == OverlayAction::RestartExplorer);
    }
}

/// While a restart is under way a poll does nothing at all.
pub proof fn law_no_poll_during_restart(s: Overlay, poll: Poll)
    requires
        s.triggered,
    ensures
        crate::overlay::polled(s, poll) == s,
        crate::overlay::poll_actions(s, poll).len() == 0,
{
}

/// Releasing the hotkey early cancels: nothing is restarted, the window hides
/// if it was shown, and the next hold starts from nothing.
pub proof fn law_release_cancels(polls: Seq<Poll>, k: int)
    requires
        0 <= k < polls.len(),
        !polls[k].held,
    ensures
        !restarts_at(polls, k),
        state_before(polls, k + 1) == crate::overlay::idle(),
        !visible_before(polls, k + 1),
{
    lemma_state_before(polls, k);
    law_visible_while_held(polls, k + 1);
}

/// Whether the window is visible before the `k`-th poll, hidden as it was made.
pub open spec fn visible_before(polls: Seq<Poll>, k: int) -> bool
    decreases k,
{
    if k <= 0 {
        false
    } else {
        visible_after(
            visible_before(polls, k - 1),
            crate::overlay::poll_actions(state_before(polls, k - 1), polls[k - 1]),
        )
    }
}

/// The window is visible exactly while a hold is under way: the last poll
/// found the hotkey held and did not restart Explorer. It is invisible before
/// the first hold, after a cancelled one and after a restart.
pub proof fn law_visible_while_held(polls: Seq<Poll>, k: int)
    requires
        0 <= k <= polls.len(),
    ensures
        visible_before(polls, k) <==> state_before(polls, k).hold_start is Some,
        visible_before(polls, k) <==> k > 0 && polls[k - 1].held && !restarts_at(polls, k - 1),
    decreases k,
{
    if k > 0 {
        law_visible_while_held(polls, k - 1);
        lemma_state_before(polls, k - 1);
        lemma_visibility(state_before(polls, k - 1), polls[k - 1]);
        law_restart_is_the_last_action(state_before(polls, k - 1), polls[k - 1]);
    }
}

proof fn lemma_visibility(s: Overlay, poll: Poll)
    requires
        !s.triggered,
    ensures
        visible_after(s.hold_start is Some, crate::overlay::poll_actions(s, poll)) <==> (poll.held
            && !crate::overlay::fires(s, poll)),
{
    let actions = crate::overlay::poll_actions(s, poll);
    reveal_with_fuel(visible_after, 4);
    if poll.held && s.hold_start is None && !crate::overlay::fires(s, poll) {
        assert(actions.drop_last().last() == crate::overlay::show_centred(poll));
    }
    if !poll.held && s.hold_start is Some {
        assert(actions.drop_last().last() == OverlayAction::Hide);
    }
    if !poll.held && s.hold_start is None {
        assert(actions.drop_last().len() == 0);
    }
    if poll.held && s.hold_start is Some && !crate::overlay::fires(s, poll) {
        assert(actions.drop_last().len() == 0);
    }
}

proof fn lemma_state_before(polls: Seq<Poll>, k: int)
    ensures
        crate::overlay::well_formed(state_before(polls, k)),
        !state_before(polls, k).triggered,
    decreases k,
{
    if k > 0 {
        lemma_state_before(polls, k - 1);
    }
}

/// Whether a hold that began at the `j`-th poll is still under way before the
/// `k`-th one.
pub open spec fn holding_since(polls: Seq<Poll>, j: int, k: int) -> bool {
    &&& state_before(polls, j).hold_start is None
    &&& held_throughout(polls, j, k - 1)
    &&& forall|i: int| j <= i < k ==> !restarts_at(polls, i)
}

proof fn lemma_hold_began(polls: Seq<Poll>, k: int) -> (j: int)
    requires
        0 <= k <= polls.len(),
        state_before(polls, k).hold_start is Some,
    ensures
        0 <= j < k,
        holding_since(polls, j, k),
        state_before(polls, k).hold_start == Some(polls[j].started_at as int),
    decreases k,
{
    let before = state_before(polls, k - 1);
    lemma_state_before(polls, k - 1);
    law_restart_is_the_last_action(before, polls[k - 1]);
    assert(polls[k - 1].held && !restarts_at(polls, k - 1));
    if before.hold_start is None {
        k - 1
    } else {
        lemma_hold_began(polls, k - 1)
    }
}

/// Explorer is restarted only at the end of a hold of at least ten seconds:
/// the hotkey was found held at a poll that began a countdown, at the poll
/// that restarts, and at every poll between them, and nothing was restarted
/// on the way.
pub proof fn law_restart_needs_a_full_hold(polls: Seq<Poll>, k: int)
    requires
        0 <= k < polls.len(),
        restarts_at(polls, k),
    ensures
        exists|j: int|
            #![trigger polls[j]]
            0 <= j <= k && holding_since(polls, j, k) && polls[k].held && polls[k].now
                - polls[j].started_at >= HOLD_NANOS,
{
    let before = state_before(polls, k);
    law_restart_is_the_last_action(before, polls[k]);
    if before.hold_start is None {
        assert(holding_since(polls, k, k));
        assert(polls[k].now - polls[k].started_at >= HOLD_NANOS);
    } else {
        let j = lemma_hold_began(polls, k);
        assert(polls[k].now - polls[j].started_at >= HOLD_NANOS);
    }
}

/// Two restarts are two holds: the second one needs ten seconds that begin
/// after the first.
pub proof fn law_each_restart_needs_its_own_hold(polls: Seq<Poll>, first: int, second: int)
    requires
        0 <= first < second < polls.len(),
        restarts_at(polls, first),
        restarts_at(polls, second),
    ensures
        exists|j: int|
            #![trigger polls[j]]
            first < j <= second && holding_since(polls, j, second) && polls[second].now
                - polls[j].started_at >= HOLD_NANOS,
{
    law_restart_needs_a_full_hold(polls, second);
    let j = choose|j: int|
        #![trigger polls[j]]
        0 <= j <= second && holding_since(polls, j, second) && polls[second].held
            && polls[second].now - polls[j].started_at >= HOLD_NANOS;
    assert(first < j);
    assert(polls[j].started_at == polls[j].started_at);
}

/// Holding to completion always restarts Explorer: once the hotkey has been
/// found held for ten seconds without a break, one of those polls restarts it.
pub proof fn law_full_hold_restarts(polls: Seq<Poll>, j: int, k: int)
    requires
        0 <= j <= k < polls.len(),
        state_before(polls, j).hold_start is None,
        held_throughout(polls, j, k),
        polls[k].now - polls[j].started_at >= HOLD_NANOS,
    ensures
        exists|i: int| j <= i <= k && restarts_at(polls, i),
{
    if forall|i: int| j <= i < k ==> !restarts_at(polls, i) {
        lemma_hold_goes_on(polls, j, k);
        lemma_state_before(polls, k);
        law_restart_is_the_last_action(state_before(polls, k), polls[k]);
        assert(polls[k].held);
        assert(restarts_at(polls, k));
    }
}

/// While a hold is under way, the progress shown is the time that has passed
/// since the poll that began it, up to ten seconds.
pub proof fn law_progress_is_the_time_held(polls: Seq<Poll>, j: int, k: int)
    requires
        0 <= j <= k < polls.len(),
        holding_since(polls, j, k),
        polls[k].held,
        polls[k].now >= polls[j].started_at,
    ensures
        ({
            let time = polls[k].now - polls[j].started_at;
            let shown = crate::overlay::polled(state_before(polls, k), polls[k]).progress;
            &&& time <= HOLD_NANOS ==> shown == time
            &&& time >= HOLD_NANOS ==> shown == HOLD_NANOS
        }),
{
    lemma_state_before(polls, k);
    lemma_hold_goes_on(polls, j, k);
}

/// As long as a hold goes on, and the clock with it, the countdown never runs
/// backwards.
pub proof fn law_progress_never_falls(polls: Seq<Poll>, j: int, earlier: int, later: int)
    requires
        0 <= j <= earlier <= later < polls.len(),
        holding_since(polls, j, later),
        polls[later].held,
        polls[j].started_at <= polls[earlier].now <= polls[later].now,
    ensures
        crate::overlay::polled(state_before(polls, earlier), polls[earlier]).progress
            <= crate::overlay::polled(state_before(polls, later), polls[later]).progress,
{
    assert(polls[earlier].held);
    assert(holding_since(polls, j, earlier));
    law_progress_is_the_time_held(polls, j, earlier);
    law_progress_is_the_time_held(polls, j, later);
}

proof fn lemma_hold_goes_on(polls: Seq<Poll>, j: int, k: int)
    requires
        0 <= j <= k <= polls.len(),
        holding_since(polls, j, k),
    ensures
        j < k ==> state_before(polls, k).hold_start == Some(polls[j].started_at as int),
    decreases k,
{
    if j < k {
        lemma_hold_goes_on(polls, j, k - 1);
        let before = state_before(polls, k - 1);
        lemma_state_before(polls, k - 1);
        law_restart_is_the_last_action(before, polls[k - 1]);
        assert(polls[k - 1].held);
        assert(!restarts_at(polls, k - 1));
    }
}

} // verus!
