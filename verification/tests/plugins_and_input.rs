use std::collections::VecDeque;
use tattoy::input::StdinAccumulator;
use tattoy::plugin_protocol::{invert_cells, pty_update_cells, Cell};
use tattoy::shadow_terminal::Scroll;
use tattoy::smokey_cursor::{ParticleSeed, Simulation};
use tattoy::terminal_proxy::{
    InputEffect, InputEvent, InputState, KeybindingAction, Proxy, TerminalProxy, Wheel,
};

fn cell(character: char, x: u32, y: u32) -> Cell<u8> {
    Cell { character, coordinates: (x, y), bg: None, fg: Some(7) }
}

#[test]
fn inverter_turns_the_terminal_around() {
    let cells = vec![cell('a', 0, 0), cell('b', 3, 1)];
    let inverted = invert_cells((4, 2), &cells).unwrap();
    assert_eq!(inverted, vec![cell('a', 3, 1), cell('b', 0, 0)]);
    assert_eq!(invert_cells((4, 2), &inverted).unwrap(), cells);
    assert!(invert_cells::<u8>((0, 2), &Vec::new()).is_none());
}

#[test]
fn plugins_are_told_about_visible_cells() {
    let screen: Vec<Vec<(Vec<char>, u8, u8)>> = vec![
        vec![(vec!['x'], 1, 2), (vec![' '], 3, 4), (vec![], 5, 6)],
        vec![(vec!['é', '\u{301}'], 7, 8)],
    ];
    let cells = pty_update_cells(&screen);
    assert_eq!(
        cells,
        vec![
            Cell { character: 'x', coordinates: (0, 0), bg: Some(1), fg: Some(2) },
            Cell { character: 'é', coordinates: (0, 1), bg: Some(7), fg: Some(8) },
        ]
    );
}

#[test]
fn characters_and_cursor_become_particles() {
    let mut simulation = Simulation::new(10, 8, 3000);
    assert!(simulation.is_ready());
    let pty = vec![cell('a', 2, 3), cell(' ', 4, 4)];
    let count = simulation.add_pty_particles((5, 1), &pty);
    assert_eq!(count, 2 + 64);
    assert_eq!(simulation.particles.len(), 66);
    // The newest particle comes first: the last of the cursor square.
    assert_eq!(simulation.particles[0], ParticleSeed { x: 5 + 7 - 4, y: 2 + 7 - 4 + 1, is_immovable: false });
    assert_eq!(simulation.particles[63], ParticleSeed { x: 1, y: -1, is_immovable: false });
    assert_eq!(simulation.particles[64], ParticleSeed { x: 2, y: 4, is_immovable: true });
    assert_eq!(simulation.particles[65], ParticleSeed { x: 2, y: 3, is_immovable: true });
}

#[test]
fn oldest_particle_goes_when_full() {
    let mut simulation = Simulation::new(1, 1, 2);
    simulation.particles = VecDeque::from(vec![
        ParticleSeed { x: 1, y: 1, is_immovable: false },
        ParticleSeed { x: 2, y: 2, is_immovable: false },
    ]);
    simulation.remove_old_particles();
    assert_eq!(simulation.particles.len(), 1);
    assert_eq!(simulation.particles[0].x, 1);
    simulation.remove_old_particles();
    assert_eq!(simulation.particles.len(), 1);
    assert!(!Simulation::new(0, 4, 1).is_ready());
}

fn state(is_scrolling: bool, is_alternate_screen: bool) -> InputState {
    InputState { is_scrolling, is_alternate_screen, is_rendering_enabled: true }
}

#[test]
fn keybindings_are_tattoys() {
    let key = |action| InputEvent::Key { action: Some(action), is_escape: false };
    assert_eq!(
        Proxy::handle_input(key(KeybindingAction::ToggleTattoy), state(false, false)),
        vec![InputEffect::SetRendering(false)]
    );
    assert_eq!(
        Proxy::handle_input(key(KeybindingAction::ToggleScrolling), state(true, false)),
        vec![InputEffect::Scroll(Scroll::Cancel)]
    );
    assert_eq!(
        Proxy::handle_input(key(KeybindingAction::ScrollUp), state(false, false)),
        vec![InputEffect::Scroll(Scroll::Up)]
    );
    assert_eq!(
        Proxy::handle_input(key(KeybindingAction::ScrollDown), state(false, false)),
        vec![InputEffect::Forward]
    );
    assert_eq!(
        Proxy::handle_tattoy_key_event(Some(KeybindingAction::ScrollDown), state(true, false)),
        (true, Some(InputEffect::Scroll(Scroll::Down)))
    );
    assert_eq!(Proxy::handle_tattoy_key_event(None, state(true, false)), (false, None));
}

#[test]
fn mouse_wheel_scrolls_the_history() {
    assert_eq!(
        Proxy::handle_input(InputEvent::Mouse(Wheel::Up), state(false, false)),
        vec![InputEffect::Scroll(Scroll::Up)]
    );
    assert_eq!(Proxy::handle_input(InputEvent::Mouse(Wheel::Down), state(false, false)), vec![]);
    assert_eq!(
        Proxy::handle_input(InputEvent::Mouse(Wheel::Up), state(false, true)),
        vec![InputEffect::Forward]
    );
    assert_eq!(Proxy::handle_input(InputEvent::Other, state(true, false)), vec![]);
    assert_eq!(Proxy::handle_input(InputEvent::Other, state(false, false)), vec![InputEffect::Forward]);
}

#[test]
fn terminal_proxy_routes_input() {
    assert!(TerminalProxy::is_tattoy_input_event(InputEvent::Mouse(Wheel::Other), state(false, false)));
    assert_eq!(
        TerminalProxy::handle_input(InputEvent::Mouse(Wheel::Down), state(false, false)),
        vec![InputEffect::Scroll(Scroll::Down)]
    );
    let escape = InputEvent::Key { action: None, is_escape: true };
    assert_eq!(TerminalProxy::handle_input(escape, state(true, false)), vec![InputEffect::Scroll(Scroll::Cancel)]);
    assert_eq!(TerminalProxy::handle_input(escape, state(false, false)), vec![InputEffect::Forward]);
    assert_eq!(TerminalProxy::handle_scrolling_input(InputEvent::Mouse(Wheel::Up), state(false, true)), None);
}

#[test]
fn stdin_accumulates_long_input() {
    let mut stdin = StdinAccumulator::new();
    let full = [b'a'; 128];
    assert!(stdin.receive(&full, 128));
    let mut tail = [0u8; 128];
    tail[0] = b'b';
    assert!(stdin.receive(&tail, 1));
    assert_eq!(stdin.accumulated.len(), 256);
    assert_eq!(stdin.accumulated[128], b'b');
    let bytes = stdin.event_parsed();
    assert_eq!(bytes.len(), 256);
    assert!(!stdin.is_accumulating);
    assert!(!stdin.receive(&tail, 1));
    assert_eq!(stdin.accumulated, tail.to_vec());
}
