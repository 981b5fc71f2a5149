//! How input from the end user is routed: to Tattoy itself (keybindings, scrolling the
//! history) or on to the underlying terminal.
//!
//! Tattoy wraps a headless terminal, so it cannot rely on the user's terminal to scroll: mouse
//! wheel events scroll the headless terminal's history, except in the alternate screen where
//! they belong to the application running there.
use crate::config_input::KeyPress;
use crate::shadow_terminal::Scroll;
use vstd::prelude::*;

verus! {

/// All the possible actions a user can trigger in Tattoy.
#[derive(Clone, Copy, Debug, PartialEq, Eq, Structural)]
pub enum KeybindingAction {
    /// Toggle Tattoy's rendering. Doesn't affect the TTY.
    ToggleTattoy,
    /// Toggle scrollback scrolling mode.
    ToggleScrolling,
    /// Scroll up. Also triggers scroll mode if it's not currently enabled.
    ScrollUp,
    /// Scroll down.
    ScrollDown,
    /// Exit scrolling mode.
    ScrollExit,
}

/// The state of the application that input routing reads.
#[derive(Clone, Copy, Debug, PartialEq, Eq, Structural)]
pub struct InputState {
    /// Is the user scrolling the scrollback?
    pub is_scrolling: bool,
    /// Is the underlying terminal in the alternate screen?
    pub is_alternate_screen: bool,
    /// Is Tattoy rendering?
    pub is_rendering_enabled: bool,
}

/// The wheel of a mouse event, as far as scrolling cares.
#[derive(Clone, Copy, Debug, PartialEq, Eq, Structural)]
pub enum Wheel {
    /// Exactly the vertical wheel turned up.
    Up,
    /// Exactly the vertical wheel turned down.
    Down,
    /// Any other combination of buttons.
    Other,
}

/// A parsed input event, as far as routing cares.
#[derive(Clone, Copy, Debug, PartialEq, Eq, Structural)]
pub enum InputEvent {
    /// A key, with the keybinding it matches, if any, and whether it is the escape key.
    Key { action: Option<KeybindingAction>, is_escape: bool },
    /// A mouse event.
    Mouse(Wheel),
    /// Anything else: pixel mouse events, resizes, pastes, wake-ups.
    Other,
}

/// Something the application does in answer to input.
#[derive(Clone, Copy, Debug, PartialEq, Eq, Structural)]
pub enum InputEffect {
    /// Turn Tattoy's rendering on or off.
    SetRendering(bool),
    /// Scroll the underlying terminal's history.
    Scroll(Scroll),
    /// Forward the raw input bytes to the underlying terminal.
    Forward,
}

/// What a keybinding does: whether the key is Tattoy's, and the effect.
pub open spec fn key_outcome(action: KeybindingAction, state: InputState) -> (bool, Option<InputEffect>) {
    match action {
        KeybindingAction::ToggleTattoy => (true, Some(InputEffect::SetRendering(!state.is_rendering_enabled))),
        KeybindingAction::ToggleScrolling => (
            true,
            Some(
                InputEffect::Scroll(
                    if state.is_scrolling {
                        Scroll::Cancel
                    } else {
                        Scroll::Up
                    },
                ),
            ),
        ),
        KeybindingAction::ScrollUp => (true, Some(InputEffect::Scroll(Scroll::Up))),
        KeybindingAction::ScrollDown => if state.is_scrolling {
            (true, Some(InputEffect::Scroll(Scroll::Down)))
        } else {
            (false, None)
        },
        KeybindingAction::ScrollExit => if state.is_scrolling {
            (true, Some(InputEffect::Scroll(Scroll::Cancel)))
        } else {
            (false, None)
        },
    }
}

/// What a mouse event does: outside the alternate screen it is Tattoy's; the wheel up scrolls
/// up, and the wheel down scrolls down while scrolling.
pub open spec fn mouse_outcome(wheel: Wheel, state: InputState) -> (bool, Seq<InputEffect>) {
    if state.is_alternate_screen {
        (false, Seq::empty())
    } else if wheel == Wheel::Up {
        (true, seq![InputEffect::Scroll(Scroll::Up)])
    } else if wheel == Wheel::Down && state.is_scrolling {
        (true, seq![InputEffect::Scroll(Scroll::Down)])
    } else {
        (true, Seq::empty())
    }
}

/// What an input event does: Tattoy's own events and any input while scrolling stay with
/// Tattoy; everything else is forwarded to the underlying terminal.
pub open spec fn input_effects(event: InputEvent, state: InputState) -> Seq<InputEffect> {
    let (is_tattoy, effects) = match event {
        InputEvent::Key { action, .. } => match action {
            Some(a) => {
                let (used, effect) = key_outcome(a, state);
                (
                    used,
                    match effect {
                        Some(e) => seq![e],
                        None => Seq::empty(),
                    },
                )
            },
            None => (false, Seq::empty()),
        },
        InputEvent::Mouse(wheel) => mouse_outcome(wheel, state),
        InputEvent::Other => (false, Seq::empty()),
    };
    if is_tattoy || state.is_scrolling {
        effects
    } else {
        effects.push(InputEffect::Forward)
    }
}

/// The proxy between the end user's terminal and the underlying terminal.
pub struct Proxy;

impl Proxy {
    /// The action of a keybinding whose key press is the given one, if any. When several
    /// actions share the key press, which one is found depends on the order of the bindings.
    pub fn keybinding_action(keybindings: &Vec<(KeybindingAction, KeyPress)>, key: &KeyPress) -> (res:
        Option<KeybindingAction>)
        ensures
            res matches Some(a) ==> exists|i: int|
                0 <= i < keybindings@.len() && #[trigger] keybindings@[i].0 == a && keybindings@[i].1@
                    == key@,
            res is None <==> forall|i: int|
                0 <= i < keybindings@.len() ==> #[trigger] keybindings@[i].1@ != key@,
    {
        let mut i: usize = 0;
        while i < keybindings.len()
            invariant
                0 <= i <= keybindings@.len(),
                forall|k: int| 0 <= k < i ==> #[trigger] keybindings@[k].1@ != key@,
            decreases keybindings@.len() - i,
        {
            if keybindings[i].1.same_as(key) {
                return Some(keybindings[i].0);
            }
            i = i + 1;
        }
        None
    }

    /// Handle a key event that a keybinding matches: whether Tattoy used it, and its effect.
    pub fn handle_tattoy_key_event(action: Option<KeybindingAction>, state: InputState) -> (res: (
        bool,
        Option<InputEffect>,
    ))
        ensures
            action matches Some(a) ==> res == key_outcome(a, state),
            action is None ==> res == (false, None::<InputEffect>),
    {
        let trigger = match action {
            Some(a) => a,
            None => return (false, None),
        };
        match trigger {
            KeybindingAction::ToggleTattoy => (true, Some(InputEffect::SetRendering(!state.is_rendering_enabled))),
            KeybindingAction::ToggleScrolling => {
                if state.is_scrolling {
                    (true, Some(InputEffect::Scroll(Scroll::Cancel)))
                } else {
                    (true, Some(InputEffect::Scroll(Scroll::Up)))
                }
            },
            KeybindingAction::ScrollUp => (true, Some(InputEffect::Scroll(Scroll::Up))),
            KeybindingAction::ScrollDown => {
                if state.is_scrolling {
                    return (true, Some(InputEffect::Scroll(Scroll::Down)));
                }
                (false, None)
            },
            KeybindingAction::ScrollExit => {
                if state.is_scrolling {
                    return (true, Some(InputEffect::Scroll(Scroll::Cancel)));
                }
                (false, None)
            },
        }
    }

    /// Scroll the underlying terminal's history with the mouse wheel, outside the alternate
    /// screen: whether Tattoy used the event, and the scrolls.
    pub fn handle_mouse_scrolling_input(wheel: Wheel, state: InputState) -> (res: (bool, Vec<InputEffect>))
        ensures
            (res.0, res.1@) == mouse_outcome(wheel, state),
    {
        let mut effects: Vec<InputEffect> = Vec::new();
        if state.is_alternate_screen {
            return (false, effects);
        }
        if wheel == Wheel::Up {
            effects.push(InputEffect::Scroll(Scroll::Up));
        }
        if state.is_scrolling && wheel == Wheel::Down {
            effects.push(InputEffect::Scroll(Scroll::Down));
        }
        assert(effects@ =~= mouse_outcome(wheel, state).1);
        (true, effects)
    }

    /// Handle input from the end user: the effects, in order.
    pub fn handle_input(event: InputEvent, state: InputState) -> (res: Vec<InputEffect>)
        ensures
            res@ == input_effects(event, state),
    {
        let (is_tattoy, mut effects) = match event {
            InputEvent::Key { action, .. } => {
                let (used, effect) = Self::handle_tattoy_key_event(action, state);
                let mut effects: Vec<InputEffect> = Vec::new();
                match effect {
                    Some(e) => effects.push(e),
                    None => {},
                }
                (used, effects)
            },
            InputEvent::Mouse(wheel) => Self::handle_mouse_scrolling_input(wheel, state),
            InputEvent::Other => (false, Vec::new()),
        };
        if !(is_tattoy || state.is_scrolling) {
            effects.push(InputEffect::Forward);
        }
        proof {
            match event {
                InputEvent::Key { action, .. } => {
                    match action {
                        Some(a) => {
                            let effect = key_outcome(a, state).1;
                            if effect is Some {
                                assert(seq![effect->0] =~= Seq::empty().push(effect->0));
                            }
                        },
                        None => {},
                    }
                },
                _ => {},
            }
        }
        assert(effects@ =~= input_effects(event, state));
        effects
    }
}

/// While the user scrolls, no input reaches the underlying terminal.
pub proof fn lemma_no_forwarding_while_scrolling(event: InputEvent, state: InputState)
    requires
        state.is_scrolling,
    ensures
        !input_effects(event, state).contains(InputEffect::Forward),
{
    let effects = input_effects(event, state);
    if effects.contains(InputEffect::Forward) {
        let i = choose|i: int| 0 <= i < effects.len() && effects[i] == InputEffect::Forward;
        assert(effects[i] == InputEffect::Forward);
    }
}

/// In the alternate screen the mouse belongs to the application there: its events are
/// forwarded unless the user scrolls, and never scroll the history.
pub proof fn lemma_alternate_screen_owns_the_mouse(wheel: Wheel, state: InputState)
    requires
        state.is_alternate_screen,
    ensures
        input_effects(InputEvent::Mouse(wheel), state) == if state.is_scrolling {
            Seq::<InputEffect>::empty()
        } else {
            seq![InputEffect::Forward]
        },
{
    assert(Seq::<InputEffect>::empty().push(InputEffect::Forward) =~= seq![InputEffect::Forward]);
}

/// The terminal proxy that scrolls on any mouse event outside the alternate screen.
pub struct TerminalProxy;

/// What the terminal proxy does with an input event.
pub open spec fn direct_input_effects(event: InputEvent, state: InputState) -> Seq<InputEffect> {
    let is_tattoy_event = event is Mouse && !state.is_alternate_screen;
    if is_tattoy_event {
        match event {
            InputEvent::Mouse(Wheel::Up) => seq![InputEffect::Scroll(Scroll::Up)],
            InputEvent::Mouse(Wheel::Down) => seq![InputEffect::Scroll(Scroll::Down)],
            _ => Seq::empty(),
        }
    } else if !state.is_scrolling {
        seq![InputEffect::Forward]
    } else if event matches InputEvent::Key { is_escape, .. } && is_escape {
        seq![InputEffect::Scroll(Scroll::Cancel)]
    } else {
        Seq::empty()
    }
}

/// What the proxy learns from an update of the underlying terminal's scrollback.
#[derive(Clone, Copy, Debug, PartialEq, Eq, Structural)]
pub struct ScrollbackUpdate {
    /// Whether the user is now scrolling.
    pub is_scrolling: bool,
    /// The cursor's new visibility, when scrolling started or stopped: hidden while scrolling.
    pub cursor_visibility: Option<bool>,
}

impl TerminalProxy {
    /// A scrollback update: scrolling starts or stops with the scroll position, and the
    /// user's cursor hides while scrolling.
    pub fn handle_scrolling_output(is_scrolling: bool, position: usize) -> (res: ScrollbackUpdate)
        ensures
            res.is_scrolling == (position != 0),
            res.cursor_visibility == if is_scrolling != (position != 0) {
                Some(position == 0)
            } else {
                None::<bool>
            },
    {
        let new_is_scrolling_state = position != 0;
        if is_scrolling != new_is_scrolling_state {
            ScrollbackUpdate { is_scrolling: new_is_scrolling_state, cursor_visibility: Some(!new_is_scrolling_state) }
        } else {
            ScrollbackUpdate { is_scrolling, cursor_visibility: None }
        }
    }

    /// The first row of the scrollback that shows on the screen: the screen is the bottom of
    /// the scrollback, moved up by the scroll position.
    pub fn visible_rows_offset(scrollback_height: usize, tty_height: u16, position: usize) -> (res: usize)
        requires
            tty_height + position <= scrollback_height,
        ensures
            res == scrollback_height - tty_height - position,
    {
        scrollback_height - (tty_height as usize) - position
    }

    /// Is the input event specific to Tattoy? Then its raw bytes are not passed on.
    pub fn is_tattoy_input_event(event: InputEvent, state: InputState) -> (res: bool)
        ensures
            res == (event is Mouse && !state.is_alternate_screen),
    {
        match event {
            InputEvent::Mouse(_) => !state.is_alternate_screen,
            _ => false,
        }
    }

    /// Scroll with the mouse wheel, outside the alternate screen.
    pub fn handle_scrolling_input(event: InputEvent, state: InputState) -> (res: Option<Scroll>)
        ensures
            res == if state.is_alternate_screen {
                None
            } else {
                match event {
                    InputEvent::Mouse(Wheel::Up) => Some(Scroll::Up),
                    InputEvent::Mouse(Wheel::Down) => Some(Scroll::Down),
                    _ => None,
                }
            },
    {
        if state.is_alternate_screen {
            return None;
        }
        match event {
            InputEvent::Mouse(Wheel::Up) => Some(Scroll::Up),
            InputEvent::Mouse(Wheel::Down) => Some(Scroll::Down),
            _ => None,
        }
    }

    /// Handle input from the end user: scroll, forward, or leave scrolling with escape.
    pub fn handle_input(event: InputEvent, state: InputState) -> (res: Vec<InputEffect>)
        ensures
            res@ == direct_input_effects(event, state),
    {
        let mut effects: Vec<InputEffect> = Vec::new();
        if Self::is_tattoy_input_event(event, state) {
            match Self::handle_scrolling_input(event, state) {
                Some(scroll) => effects.push(InputEffect::Scroll(scroll)),
                None => {},
            }
        } else if !state.is_scrolling {
            effects.push(InputEffect::Forward);
        } else {
            match event {
                InputEvent::Key { is_escape, .. } => {
                    if is_escape {
                        effects.push(InputEffect::Scroll(Scroll::Cancel));
                    }
                },
                _ => {},
            }
        }
        assert(effects@ =~= direct_input_effects(event, state));
        effects
    }
}

/// What the scroll keybindings do. While scrolling, each is Tattoy's: the scroll keys scroll
/// up and down, and both the scroll exit key and the scrolling toggle cancel scrolling, so the
/// exit key always ends scrolling. Outside scrolling, the scroll up key and the toggle start
/// scrolling up, while the scroll down and exit keys are not Tattoy's and reach the terminal.
/// The rendering toggle is always Tattoy's and flips rendering.
pub proof fn lemma_keybindings_scroll(state: InputState)
    ensures
        state.is_scrolling ==> key_outcome(KeybindingAction::ScrollExit, state) == (
        true,
        Some(InputEffect::Scroll(Scroll::Cancel)),
        ),
        state.is_scrolling ==> key_outcome(KeybindingAction::ToggleScrolling, state) == (
        true,
        Some(InputEffect::Scroll(Scroll::Cancel)),
        ),
        state.is_scrolling ==> key_outcome(KeybindingAction::ScrollDown, state) == (
        true,
        Some(InputEffect::Scroll(Scroll::Down)),
        ),
        key_outcome(KeybindingAction::ScrollUp, state) == (true, Some(InputEffect::Scroll(Scroll::Up))),
        !state.is_scrolling ==> key_outcome(KeybindingAction::ToggleScrolling, state) == (
        true,
        Some(InputEffect::Scroll(Scroll::Up)),
        ),
        !state.is_scrolling ==> key_outcome(KeybindingAction::ScrollDown, state).0 == false,
        !state.is_scrolling ==> key_outcome(KeybindingAction::ScrollExit, state).0 == false,
        key_outcome(KeybindingAction::ToggleTattoy, state) == (
            true,
            Some(InputEffect::SetRendering(!state.is_rendering_enabled)),
        ),
        state.is_scrolling ==> input_effects(
            InputEvent::Key { action: Some(KeybindingAction::ScrollExit), is_escape: false },
            state,
        ) == seq![InputEffect::Scroll(Scroll::Cancel)],
        !state.is_scrolling ==> input_effects(
            InputEvent::Key { action: Some(KeybindingAction::ScrollExit), is_escape: false },
            state,
        ) == seq![InputEffect::Forward],
{
    let exit = InputEvent::Key { action: Some(KeybindingAction::ScrollExit), is_escape: false };
    if state.is_scrolling {
        assert(input_effects(exit, state) =~= seq![InputEffect::Scroll(Scroll::Cancel)]);
    } else {
        assert(input_effects(exit, state) =~= Seq::<InputEffect>::empty().push(InputEffect::Forward));
    }
}

} // verus!
