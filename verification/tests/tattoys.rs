use tattoy::shared_state::TTYSize;
use tattoy::tattoys::scrollbar::{Scrollbar, ScrollbarFrame};
use tattoy::tattoys::tattoyer::{ProtocolMessage, SurfaceUpdate, Tattoyer, TattoyerError};

fn tattoyer() -> Tattoyer {
    Tattoyer::new(String::from("test"), 3)
}

#[test]
fn a_new_tattoy_is_not_ready() {
    let t = tattoyer();
    assert_eq!(t.id, "test");
    assert_eq!(t.layer, 3);
    assert_eq!(t.frame_rate, 30);
    assert!(!t.is_ready());
    assert!(!t.is_scrolling());
    assert!(!t.is_scrolling_end());
    assert!(!t.is_alternate_screen());
}

#[test]
fn resize_makes_a_tattoy_ready() {
    let mut t = tattoyer();
    t.handle_common_protocol_messages(ProtocolMessage::Resize { width: 80, height: 24 }).unwrap();
    assert!(t.is_ready());
    assert_eq!((t.width, t.height), (80, 24));
    t.handle_common_protocol_messages(ProtocolMessage::Resize { width: 80, height: 0 }).unwrap();
    assert!(!t.is_ready());
}

#[test]
fn outputs_update_size_scroll_and_screen_mode() {
    let mut t = tattoyer();
    let diff = SurfaceUpdate::ScrollbackDiff {
        width: 100,
        height: 30,
        scrollback_height: 500,
        position: 12,
        changes: 4,
    };
    t.handle_pty_output(diff).unwrap();
    assert_eq!((t.width, t.height, t.scrollback_height, t.scroll_position), (100, 30, 500, 12));
    assert!(t.is_scrolling());
    t.handle_pty_output(SurfaceUpdate::CompleteScreen { width: 90, height: 20, alternate: true }).unwrap();
    assert!(t.is_alternate_screen());
    assert_eq!((t.width, t.height), (90, 20));
    t.handle_pty_output(SurfaceUpdate::CompleteScrollback { scrollback_height: 40, position: 0 }).unwrap();
    assert!(!t.is_scrolling());
    t.handle_common_protocol_messages(ProtocolMessage::Config { frame_rate: 60 }).unwrap();
    assert_eq!(t.frame_rate, 60);
}

#[test]
fn oversized_dimensions_are_refused() {
    let mut t = tattoyer();
    let diff = SurfaceUpdate::ScrollbackDiff {
        width: 70_000,
        height: 30,
        scrollback_height: 500,
        position: 12,
        changes: 4,
    };
    assert_eq!(t.handle_pty_output(diff), Err(TattoyerError::DimensionTooLarge(70_000)));
    assert_eq!(t.scrollback_height, 500);
    assert_eq!((t.width, t.height, t.scroll_position), (0, 0, 0));
    let screen = SurfaceUpdate::ScreenDiff { width: 10, height: 66_000, changes: 2 };
    assert_eq!(
        t.handle_common_protocol_messages(ProtocolMessage::Output(screen)),
        Err(TattoyerError::DimensionTooLarge(66_000))
    );
}

#[test]
fn scrolling_end_is_reported_once() {
    let mut t = tattoyer();
    t.scroll_position = 5;
    t.frame_sent();
    t.scroll_position = 0;
    assert!(t.is_scrolling_end());
    t.frame_sent();
    assert!(!t.is_scrolling_end());
}

#[test]
fn output_changes_ignore_the_cursor_only_diff() {
    let resize = ProtocolMessage::Resize { width: 1, height: 1 };
    assert!(Tattoyer::is_scrollback_output_changed(&resize));
    assert!(Tattoyer::is_screen_output_changed(&resize));
    let cursor_only = ProtocolMessage::Output(SurfaceUpdate::ScreenDiff { width: 1, height: 1, changes: 1 });
    assert!(!Tattoyer::is_screen_output_changed(&cursor_only));
    let more = ProtocolMessage::Output(SurfaceUpdate::ScreenDiff { width: 1, height: 1, changes: 2 });
    assert!(Tattoyer::is_screen_output_changed(&more));
    assert!(!Tattoyer::is_scrollback_output_changed(&more));
    let complete = ProtocolMessage::Output(SurfaceUpdate::CompleteScrollback { scrollback_height: 1, position: 0 });
    assert!(Tattoyer::is_scrollback_output_changed(&complete));
    assert!(!Tattoyer::is_screen_output_changed(&ProtocolMessage::Other));
}

#[test]
fn tty_size_defaults_to_nothing() {
    let size = TTYSize::default();
    assert_eq!((size.width, size.height), (0, 0));
}

fn scrolled_bar(height: u16, scrollback_height: usize, position: usize) -> Scrollbar {
    let mut bar = Scrollbar::new();
    bar.tattoy.width = 80;
    bar.tattoy.height = height;
    bar.tattoy.scrollback_height = scrollback_height;
    bar.tattoy.scroll_position = position;
    bar
}

#[test]
fn scrollbar_start_and_end() {
    // The window shows rows 60..80 of 100: the bar covers 60% to 80% of 20 rows.
    let bar = scrolled_bar(20, 100, 20);
    assert_eq!(bar.get_start_end(), (12, 16));
    // At the very top of the history the bar starts on the first row.
    let top = scrolled_bar(20, 100, 80);
    assert_eq!(top.get_start_end(), (0, 4));
    // Just above the bottom the bar reaches the last row.
    let bottom = scrolled_bar(20, 100, 1);
    assert_eq!(bottom.get_start_end(), (15, 19));
    // Rounding down: 7 * 10 / 33 = 2.12, 17 * 10 / 33 = 5.15.
    let rounded = scrolled_bar(10, 33, 16);
    assert_eq!(rounded.get_start_end(), (2, 5));
}

#[test]
fn scrollbar_frames() {
    let mut bar = Scrollbar::new();
    assert_eq!(bar.tattoy.id, "scrollbar");
    assert_eq!(bar.tattoy.layer, 100);
    let scrolled = ProtocolMessage::Output(SurfaceUpdate::ScrollbackDiff {
        width: 80,
        height: 20,
        scrollback_height: 100,
        position: 20,
        changes: 1,
    });
    assert_eq!(
        bar.handle_protocol_message(scrolled),
        Ok(Some(ScrollbarFrame::Bar { column: 79, start: 12, end: 16 }))
    );
    assert_eq!(bar.tattoy.last_scroll_position, 20);
    // Nothing moved: nothing to render.
    assert_eq!(bar.handle_protocol_message(ProtocolMessage::Other), Ok(None));
    let back = ProtocolMessage::Output(SurfaceUpdate::CompleteScrollback { scrollback_height: 100, position: 0 });
    assert_eq!(bar.handle_protocol_message(back), Ok(Some(ScrollbarFrame::Blank)));
    assert_eq!(bar.tattoy.last_scroll_position, 0);
    assert_eq!(bar.render(), None);
}
