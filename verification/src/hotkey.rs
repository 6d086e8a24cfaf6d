//! The hotkey: Ctrl+Alt+Shift+E, asked of the keyboard one key at a time.
use vstd::prelude::*;

verus! {

pub const VK_E: i32 = 0x45;

pub const VK_CONTROL: i32 = 0x11;

/// The Alt key.
pub const VK_MENU: i32 = 0x12;

pub const VK_SHIFT: i32 = 0x10;

/// The keys of the hotkey, in the order in which they are asked for.
pub open spec fn hotkey_keys() -> Seq<i32> {
    seq![VK_E, VK_CONTROL, VK_MENU, VK_SHIFT]
}

/// Whether a key state says that the key is down: its top bit is set.
pub open spec fn is_down(state: i16) -> bool {
    state < 0
}

/// Whether key states, one for each key asked for so far, are all down.
pub open spec fn all_down(states: Seq<i16>) -> bool {
    forall|i: int| 0 <= i < states.len() ==> is_down(#[trigger] states[i])
}

/// The key to ask for after these states.
pub open spec fn key_to_ask(states: Seq<i16>) -> Option<i32> {
    if all_down(states) && states.len() < hotkey_keys().len() {
        Some(hotkey_keys()[states.len() as int])
    } else {
        None
    }
}

/// Whether these states show that the whole hotkey is held.
pub open spec fn shows_hold(states: Seq<i16>) -> bool {
    states.len() >= hotkey_keys().len() && all_down(states)
}

fn are_down(states: &Vec<i16>) -> (yes: bool)
    ensures
        yes == all_down(states@),
{
    for i in 0..states.len()
        invariant
            forall|j: int| 0 <= j < i ==> is_down(#[trigger] states@[j]),
    {
        if states[i] >= 0 {
            assert(!is_down(states@[i as int]));
            return false;
        }
    }
    true
}

/// The key to ask for next, given the states of the keys asked for so far:
/// none, once all have been asked for or one of them is up.
pub fn next_key(states: &Vec<i16>) -> (key: Option<i32>)
    ensures
        key == key_to_ask(states@),
        key is Some <==> states@.len() < 4 && forall|i: int|
            0 <= i < states@.len() ==> #[trigger] states@[i] < 0,
{
    if !are_down(states) {
        return None;
    }
    match states.len() {
        0 => Some(VK_E),
        1 => Some(VK_CONTROL),
        2 => Some(VK_MENU),
        3 => Some(VK_SHIFT),
        _ => None,
    }
}

/// Whether the hotkey is held, given the states of the keys asked for: all
/// were asked for, and all are down.
pub fn hotkey_held(states: &Vec<i16>) -> (held: bool)
    ensures
        held == shows_hold(states@),
        held <==> states@.len() >= 4 && forall|i: int|
            0 <= i < states@.len() ==> #[trigger] states@[i] < 0,
{
    states.len() >= 4 && are_down(states)
}

/// Asking stops as soon as the answer is certain: where no further key is asked
/// for, the states so far show a hold exactly if all four keys are down.
pub proof fn law_asking_settles_the_hotkey(keyboard: Seq<i16>, asked: int)
    requires
        keyboard.len() == hotkey_keys().len(),
        0 <= asked <= keyboard.len(),
        key_to_ask(keyboard.take(asked)) is None,
    ensures
        shows_hold(keyboard.take(asked)) <==> all_down(keyboard),
{
    if shows_hold(keyboard.take(asked)) {
        assert(keyboard.take(asked) =~= keyboard);
    } else if all_down(keyboard) {
        assert(all_down(keyboard.take(asked)));
    }
}

/// The four keys are asked for in turn, each once, as long as those before it
/// are down; and the hotkey is held exactly if all four are.
pub proof fn law_hotkey_is_four_keys(states: Seq<i16>)
    ensures
        ({
            let down = forall|i: int| 0 <= i < states.len() ==> #[trigger] states[i] < 0;
            &&& shows_hold(states) <==> down && states.len() >= 4
            &&& key_to_ask(states) is None <==> !down || states.len() >= 4
            &&& down && states.len() == 0 ==> key_to_ask(states) == Some(0x45i32)
            &&& down && states.len() == 1 ==> key_to_ask(states) == Some(0x11i32)
            &&& down && states.len() == 2 ==> key_to_ask(states) == Some(0x12i32)
            &&& down && states.len() == 3 ==> key_to_ask(states) == Some(0x10i32)
        }),
{
    let down = forall|i: int| 0 <= i < states.len() ==> #[trigger] states[i] < 0;
    if down {
        assert(all_down(states));
    } else {
        let i = choose|i: int| 0 <= i < states.len() && #[trigger] states[i] >= 0;
        assert(!is_down(states[i]));
    }
}

} // verus!
