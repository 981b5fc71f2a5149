use tattoy::compositor::{BlendStep, Compositor, Kind};
use tattoy::renderer::{render_order, Side};
use tattoy::shaders::{align_dimension, cycle_shader, output_buffer_size};
use tattoy::loader::{start_tattoys, EnabledInConfig, EnabledOnCommandLine, TattoyKind};
use tattoy::run::{
    get_startup_command, is_nesting_refused, log_path, setup_logging, startup_action, LogFilters, LogLevel,
    StartupAction,
};
use tattoy::steppable_terminal::ScreenSnapshot;
use tattoy::tattoys::startup_logo::StartupLogo;
use tattoy::terminal_proxy::{ScrollbackUpdate, TerminalProxy};
use tattoy::util::{split_lines, trimmed};

fn chars(s: &str) -> Vec<char> {
    s.chars().collect()
}

fn text(v: Vec<char>) -> String {
    v.into_iter().collect()
}

#[test]
fn missing_cells_are_named() {
    assert_eq!(text(Compositor::no_coord_error_message(&['y'], 12)), "No y coord (12) for cell");
    let cells = vec![vec![1, 2], vec![3]];
    assert_eq!(Compositor::get_cell(&cells, 1, 0), Ok(&2));
    assert_eq!(Compositor::get_cell(&cells, 1, 1).map_err(text), Err("No x coord (1) for cell".to_string()));
    assert_eq!(Compositor::get_cell(&cells, 0, 5).map_err(text), Err("No y coord (5) for cell".to_string()));
    let mut cells = cells;
    Compositor::set_cell(&mut cells, 0, 1, 9).unwrap();
    assert_eq!(cells, vec![vec![1, 2], vec![9]]);
    assert!(Compositor::set_cell(&mut cells, 3, 0, 9).is_err());
}

#[test]
fn text_above_takes_the_character() {
    let plan = Compositor::composite_plan(&['a'], Some(1u8), &['b'], Some(2u8), Some(3u8));
    assert!(plan.take_character);
    assert_eq!(
        plan.blends,
        vec![
            BlendStep { kind: Kind::Background, colour: 1 },
            BlendStep { kind: Kind::Foreground, colour: 2 },
            BlendStep { kind: Kind::Background, colour: 3 },
        ]
    );
    let tint = Compositor::composite_plan(&['a'], Some(1u8), &[' '], Some(2u8), Some(3u8));
    assert!(!tint.take_character);
    assert_eq!(
        tint.blends,
        vec![BlendStep { kind: Kind::Background, colour: 3 }, BlendStep { kind: Kind::Foreground, colour: 3 }]
    );
    assert!(Compositor::opaque_blends::<u8>(&['a'], Some(1), &[], None, None).is_empty());
}

#[test]
fn upper_pixels_on_upper_pixels_keep_their_own_foreground() {
    let blends = Compositor::opaque_blends(&['▀'], Some(1u8), &['▀'], Some(2u8), None);
    assert_eq!(blends, vec![BlendStep { kind: Kind::Foreground, colour: 2 }]);
}

#[test]
fn different_half_blocks_swap_attributes() {
    let swapped = Compositor::blender_blends(&['▀'], &['▄'], Some(1u8), Some(2u8));
    assert_eq!(
        swapped,
        vec![BlendStep { kind: Kind::Background, colour: 1 }, BlendStep { kind: Kind::Foreground, colour: 2 }]
    );
    let same = Compositor::blender_blends(&['▄'], &['▄'], Some(1u8), None);
    assert_eq!(same, vec![BlendStep { kind: Kind::Foreground, colour: 1 }]);
}

#[test]
fn foreground_only_applies_to_real_text() {
    assert!(Compositor::fg_colour_only_applies(&[' ', 'x']));
    assert!(!Compositor::fg_colour_only_applies(&[' ', '▀', '\u{3000}']));
    assert!(!Compositor::fg_colour_only_applies(&[]));
}

#[test]
fn lines_and_trimming_follow_std() {
    for sample in ["", "a", "a\n", "a\r\nb", "\n\nx\r", "foo\r\nbar\n\nbaz\r"] {
        let expected: Vec<String> = sample.lines().map(|l| l.to_string()).collect();
        let actual: Vec<String> = split_lines(&chars(sample)).into_iter().map(text).collect();
        assert_eq!(actual, expected, "lines of {sample:?}");
        assert_eq!(text(trimmed(&chars(sample))), sample.trim());
    }
}

#[test]
fn startup_command_is_split_into_words() {
    let words = |cli: Option<&str>, config: &str| -> Vec<String> {
        get_startup_command(&cli.map(|c| c.to_string()), &config.to_string()).into_iter().map(text).collect()
    };
    assert_eq!(words(None, "  bash  -l\t"), vec!["bash", "-l"]);
    assert_eq!(words(Some("zsh"), "bash"), vec!["zsh"]);
    assert!(words(None, "   ").is_empty());
}

#[test]
fn nesting_needs_permission() {
    assert!(is_nesting_refused(true, &None));
    assert!(is_nesting_refused(true, &Some("yes".to_string())));
    assert!(!is_nesting_refused(true, &Some("allow".to_string())));
    assert!(!is_nesting_refused(false, &None));
}

#[test]
fn logo_dimensions_and_version() {
    let logo = chars("ab\nlonger\nc");
    assert_eq!(StartupLogo::get_width_and_height(&logo), (6, 3));
    let full = text(StartupLogo::make_logo(&logo, 6, &chars("v1")));
    assert_eq!(full, "ab\nlonger\nc    v1");
}

#[test]
fn logo_is_centred() {
    let logo = StartupLogo { logo: chars("ab\ncd"), width: 2, height: 2 };
    assert!(logo.fits(10, 6));
    assert!(!logo.fits(2, 6));
    let placed: Vec<(u16, u16, char)> = logo.layout(10, 6).into_iter().map(|c| (c.x, c.y, c.character)).collect();
    // Centre column 10 / 2 - 1 = 4, minus half the logo: 3. Row 6 / 2 - 1 - 1 = 1.
    assert_eq!(placed, vec![(3, 1, 'a'), (4, 1, 'b'), (3, 2, 'c'), (4, 2, 'd')]);
}

fn snapshot() -> ScreenSnapshot {
    let row = |cells: &[&str]| cells.iter().map(|c| chars(c)).collect::<Vec<Vec<char>>>();
    ScreenSnapshot {
        rows: 3,
        cols: 3,
        scrollback: 1,
        cells: vec![row(&["$", " ", "x"]), row(&["a", "b", "c"]), row(&["d", "x"])],
    }
}

#[test]
fn screen_text_starts_at_the_scrollback_position() {
    let screen = snapshot();
    assert_eq!(text(screen.screen_as_string()), "abc\ndx\n");
    assert_eq!(text(screen.get_prompt_string()), "abcdx");
    assert_eq!(screen.get_coords_of_cell_by_content(&['x']), Some((2, 0)));
    assert_eq!(screen.get_coords_of_cell_by_content(&['z']), None);
    assert_eq!(screen.get_cell_at(1, 1).map(text), Some("x".to_string()));
    assert_eq!(screen.get_cell_at(2, 1), None);
    assert_eq!(text(screen.get_string_at(0, 0, 5)), "abc");
}

#[test]
fn startup_decisions() {
    assert_eq!(startup_action(true, Some("x.png".to_string()), false), StartupAction::CapturePaletteAndExit);
    assert_eq!(
        startup_action(false, Some("x.png".to_string()), true),
        StartupAction::ParsePaletteAndExit("x.png".to_string())
    );
    assert_eq!(startup_action(false, None, false), StartupAction::CapturePaletteThenRun);
    assert_eq!(startup_action(false, None, true), StartupAction::Run);

    assert_eq!(setup_logging(LogLevel::Off, None, false), None);
    assert_eq!(setup_logging(LogLevel::Off, None, true), Some(LogFilters::FromEnvironment));
    assert_eq!(
        setup_logging(LogLevel::Off, Some(LogLevel::Debug), false),
        Some(LogFilters::Crates(vec![
            "shadow_terminal=debug".to_string(),
            "tattoy=debug".to_string(),
            "tests=debug".to_string(),
        ]))
    );
    assert_eq!(setup_logging(LogLevel::Info, Some(LogLevel::Off), false), None);
}

#[test]
fn tattoys_start_in_order() {
    let cli = EnabledOnCommandLine {
        notifications: false,
        random_walker: true,
        minimap: false,
        shaders: false,
        bg_command: false,
    };
    let config = EnabledInConfig { notifications: true, minimap: false, shaders: true, bg_command: false };
    let started = start_tattoys(cli, config, &vec![None, Some(false), Some(true)]);
    assert_eq!(
        started,
        vec![
            TattoyKind::Notifications,
            TattoyKind::Scrollbar,
            TattoyKind::RandomWalker,
            TattoyKind::Shaders,
            TattoyKind::Plugin(0),
            TattoyKind::Plugin(2),
        ]
    );
}

#[test]
fn scrolling_hides_the_cursor() {
    assert_eq!(
        TerminalProxy::handle_scrolling_output(false, 3),
        ScrollbackUpdate { is_scrolling: true, cursor_visibility: Some(false) }
    );
    assert_eq!(
        TerminalProxy::handle_scrolling_output(true, 0),
        ScrollbackUpdate { is_scrolling: false, cursor_visibility: Some(true) }
    );
    assert_eq!(
        TerminalProxy::handle_scrolling_output(true, 2),
        ScrollbackUpdate { is_scrolling: true, cursor_visibility: None }
    );
    assert_eq!(TerminalProxy::visible_rows_offset(100, 20, 5), 75);
}

#[test]
fn tattoys_are_layered_around_the_terminal() {
    let layers: Vec<i16> = vec![100, -10, 0, -10, 90, -8, 200];
    assert_eq!(render_order(&layers, Side::Below), vec![1, 3, 5]);
    assert_eq!(render_order(&layers, Side::Above), vec![4, 0, 6]);
    assert!(render_order(&Vec::new(), Side::Above).is_empty());
}

#[test]
fn shaders_cycle_in_name_order() {
    let names: Vec<Vec<u8>> = vec![b"b.glsl".to_vec(), b"a.glsl".to_vec(), b"c.glsl".to_vec()];
    assert_eq!(cycle_shader(&names, &b"a.glsl".to_vec(), true), Some(0));
    assert_eq!(cycle_shader(&names, &b"c.glsl".to_vec(), true), Some(1));
    assert_eq!(cycle_shader(&names, &b"a.glsl".to_vec(), false), Some(2));
    assert_eq!(cycle_shader(&names, &b"c.glsl".to_vec(), false), Some(0));
    assert_eq!(cycle_shader(&names, &b"zzz".to_vec(), true), Some(1));
    assert_eq!(cycle_shader(&names, &b"zzz".to_vec(), false), Some(2));
    assert_eq!(cycle_shader(&Vec::new(), &b"a".to_vec(), true), None);
    let prefixes: Vec<Vec<u8>> = vec![b"ab".to_vec(), b"a".to_vec()];
    assert_eq!(cycle_shader(&prefixes, &b"a".to_vec(), true), Some(0));
}

#[test]
fn shader_buffer_sides_are_aligned_to_multiples() {
    assert_eq!(align_dimension(0), 0);
    assert_eq!(align_dimension(1), 256);
    assert_eq!(align_dimension(256), 256);
    assert_eq!(align_dimension(257), 512);
    assert_eq!(align_dimension(300), 512);
    assert_eq!(align_dimension(1920), 2048);
    assert_eq!(output_buffer_size(80, 48), 4 * 256 * 256);
    assert_eq!(output_buffer_size(300, 600), 4 * 512 * 768);
    assert_eq!(output_buffer_size(u16::MAX, u16::MAX), 4 * 65536 * 65536);
}

#[test]
fn command_line_log_path_wins() {
    assert_eq!(log_path("/state/tattoy.log".to_owned(), Some("/tmp/tattoy.log".to_owned())), "/tmp/tattoy.log");
    assert_eq!(log_path("/state/tattoy.log".to_owned(), None), "/state/tattoy.log");
}
