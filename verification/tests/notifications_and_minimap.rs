use tattoy::config_watch::{config_reload_notification, reloads_config, ConfigFileChange};
use tattoy::tattoys::minimap::{
    render_plan, AnimationPhase, MinimapDraw, MinimapError, MinimapGeometry, MinimapSource,
    MinimapState,
};
use tattoy::tattoys::notifications::{layout, Level, Message, Notifications};

fn message(title: &str, body: Option<&str>, level: Level) -> Message {
    Message { title: title.to_string(), body: body.map(|b| b.to_string()), level }
}

#[test]
fn widest_part_of_a_message() {
    assert_eq!(message("title", None, Level::Info).max_width(), 5);
    assert_eq!(message("t", Some("a\nlonger line\r\nb"), Level::Info).max_width(), 11);
    // Widths are in bytes: "é" is two.
    assert_eq!(message("éé", Some("abc"), Level::Info).max_width(), 4);
    assert_eq!(Level::default(), Level::Warn);
    assert!(Level::Error.rank() < Level::Trace.rank());
}

#[test]
fn messages_are_laid_out_most_urgent_first() {
    let messages = vec![
        message("info", None, Level::Info),
        message("boom", Some("line one\nl2"), Level::Error),
        message("trace", None, Level::Trace),
        message("warn", None, Level::Warn),
    ];
    let lines = layout(&messages, Level::Info, 20);
    let rows: Vec<(usize, usize, String, usize, bool)> = lines
        .into_iter()
        .map(|l| (l.x, l.y, l.text.into_iter().collect(), l.message, l.is_body))
        .collect();
    assert_eq!(
        rows,
        vec![
            (10, 0, " boom     ".to_string(), 1, false),
            (10, 1, " line one ".to_string(), 1, true),
            (10, 2, " l2       ".to_string(), 1, true),
            (14, 3, " warn ".to_string(), 3, false),
            (14, 4, " info ".to_string(), 0, false),
        ]
    );
}

#[test]
fn wide_messages_are_cut_to_the_terminal() {
    let messages = vec![message("a very long title", None, Level::Error)];
    let lines = layout(&messages, Level::Trace, 8);
    assert_eq!(lines.len(), 1);
    assert_eq!(lines[0].x, 0);
    let text: String = lines[0].text.iter().collect();
    assert_eq!(text, " a very long title ");
}

#[test]
fn minimap_shows_and_hides() {
    let mut state = MinimapState::new();
    assert!(state.is_hidden());
    assert!(state.needs_rerendering());
    state.check_if_mouse_is_over_right_columns(79, 80, 10);
    assert_eq!(state.phase, AnimationPhase::Showing);
    assert!(state.advance(false));
    assert!(state.advance(true));
    assert!(state.is_shown());
    state.output_changed = false;
    assert!(!state.advance(false));
    state.check_if_mouse_is_over_right_columns(75, 80, 10);
    assert!(state.is_shown());
    state.check_if_mouse_is_over_right_columns(5, 80, 10);
    assert_eq!(state.phase, AnimationPhase::Hiding);
    assert!(state.advance(true));
    assert!(state.is_hidden());
    assert!(!state.needs_rerendering());
    state.check_for_keybind();
    assert_eq!(state.phase, AnimationPhase::Showing);
}

fn geometry(alternate: bool) -> MinimapGeometry {
    MinimapGeometry {
        width: 10,
        height: 2,
        scrollback_width: 2,
        scrollback_height: 3,
        screen_width: 1,
        screen_height: 2,
        x_offset: 0,
        is_alternate_screen: alternate,
    }
}

#[test]
fn minimap_plan_reads_the_scrollback() {
    let draws = render_plan(geometry(false)).unwrap();
    let pixel = |x: usize, y: usize, image_x: u32, image_y: u32| MinimapDraw::Pixel {
        x,
        y,
        source: MinimapSource::Scrollback,
        image_x,
        image_y,
    };
    assert_eq!(
        draws,
        vec![
            MinimapDraw::Blank { x: 8, row: 0 },
            MinimapDraw::Blank { x: 9, row: 0 },
            pixel(8, 1, 0, 0),
            pixel(9, 1, 1, 0),
            pixel(8, 2, 0, 1),
            pixel(9, 2, 1, 1),
            pixel(8, 3, 0, 2),
            pixel(9, 3, 1, 2),
        ]
    );
}

#[test]
fn minimap_plan_needs_the_screen_pixels() {
    assert_eq!(
        render_plan(geometry(true)),
        Err(MinimapError::MissingPixel { x: 1, y: 0 })
    );
    let mut slid = geometry(true);
    slid.x_offset = 1;
    let draws = render_plan(slid).unwrap();
    assert_eq!(draws.len(), 4);
    assert_eq!(
        draws[3],
        MinimapDraw::Pixel { x: 9, y: 3, source: MinimapSource::Screen, image_x: 0, image_y: 1 }
    );
}

#[test]
fn logs_help_points_at_the_log_file() {
    assert_eq!(
        Notifications::logs_help_text(true, "/tmp/tattoy.log"),
        "Check logs for more details: /tmp/tattoy.log"
    );
    assert_eq!(Notifications::logs_help_text(false, "/tmp/tattoy.log"), "Enable logging for more details");
}

#[test]
fn notification_bodies_get_the_logs_message_on_request() {
    assert_eq!(
        Notifications::notification_body(Some("Bad config".to_owned()), true, false, "x.log"),
        Some("Bad config\n\nEnable logging for more details".to_owned())
    );
    assert_eq!(
        Notifications::notification_body(Some("Bad config".to_owned()), true, true, "x.log"),
        Some("Bad config\n\nCheck logs for more details: x.log".to_owned())
    );
    assert_eq!(
        Notifications::notification_body(Some("Bad config".to_owned()), false, true, "x.log"),
        Some("Bad config".to_owned())
    );
    assert_eq!(Notifications::notification_body(None, true, true, "x.log"), None);
}

#[test]
fn made_messages_keep_their_parts() {
    let m = Message::make("Config updated", Level::Info, None);
    assert_eq!(m.title, "Config updated");
    assert_eq!(m.level, Level::Info);
    assert!(m.body.is_none());
}

#[test]
fn only_data_changes_reload_the_config() {
    assert!(reloads_config(ConfigFileChange::DataModified));
    assert!(!reloads_config(ConfigFileChange::Other));
}

#[test]
fn config_reloads_are_notified() {
    let ok = config_reload_notification(Ok(()));
    assert_eq!(ok.title, "Config updated");
    assert_eq!(ok.level, Level::Info);
    assert!(ok.body.is_none());
    let bad = config_reload_notification(Err("expected `=`".to_owned()));
    assert_eq!(bad.title, "Config update error");
    assert_eq!(bad.level, Level::Error);
    assert_eq!(bad.body.as_deref(), Some("expected `=`"));
}
