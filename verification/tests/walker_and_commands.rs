use tattoy::tattoys::bg_command::{BGCommand, BGCommandError};
use tattoy::tattoys::random_walker::RandomWalker;
use tattoy::tattoys::tattoyer::ProtocolMessage;
use tattoy::surface::{Glyph, PixelSurface};

fn chars(s: &str) -> Vec<char> {
    s.chars().collect()
}

fn text(v: Vec<char>) -> String {
    v.into_iter().collect()
}

#[test]
fn walker_starts_in_the_corner() {
    let walker = RandomWalker::new();
    assert_eq!(walker.position(), (0, 0));
    assert_eq!(walker.tattoy.id, "random_walker");
    assert_eq!(walker.tattoy.layer, -10);
}

#[test]
fn resize_puts_the_walker_on_the_terminal() {
    for _ in 0..50 {
        let mut walker = RandomWalker::new();
        walker.handle_protocol_message(&ProtocolMessage::Resize { width: 7, height: 3 });
        let (x, y) = walker.position();
        assert!((0..7).contains(&x));
        assert!((0..6).contains(&y));
    }
}

#[test]
fn walker_moves_one_pixel_at_most_and_stays_inside() {
    let mut walker = RandomWalker::new();
    walker.tattoy.set_tty_size(5, 2);
    let mut previous = walker.position();
    for _ in 0..200 {
        walker.step();
        let (x, y) = walker.position();
        assert!((1..=4).contains(&x));
        assert!((1..=3).contains(&y));
        assert!((x - previous.0.clamp(1, 4)).abs() <= 1);
        assert!((y - previous.1.clamp(1, 3)).abs() <= 1);
        previous = (x, y);
    }
}

#[test]
fn walker_moves_are_clamped_to_the_inner_area() {
    let mut walker = RandomWalker::new();
    walker.tattoy.set_tty_size(5, 2);
    walker.move_by(-1, -1);
    assert_eq!(walker.position(), (1, 1));
    walker.move_by(1, 1);
    assert_eq!(walker.position(), (2, 2));
    for _ in 0..5 {
        walker.move_by(1, 1);
    }
    assert_eq!(walker.position(), (4, 3));
    walker.move_by(0, -1);
    assert_eq!(walker.position(), (4, 2));
}

#[test]
fn walker_is_drawn_as_one_pixel() {
    let mut walker = RandomWalker::new();
    assert!(walker.render(1u8, 0u8).is_none());
    walker.tattoy.set_tty_size(6, 4);
    let surface: PixelSurface<u8> = walker.render(1u8, 0u8).unwrap();
    let (x, y) = walker.position();
    let mut drawn = 0;
    for row in 0..4 {
        for col in 0..6 {
            let cell = surface.get_cell_at(col, row).unwrap();
            if cell.glyph != Glyph::Other {
                drawn += 1;
                assert_eq!((col, row), (x as usize, (y / 2) as usize));
                assert_eq!(cell.fg, 1);
            }
        }
    }
    assert_eq!(drawn, 1);
}

fn screen(rows: &[&[&str]]) -> Vec<Vec<Vec<char>>> {
    rows.iter().map(|row| row.iter().map(|cell| chars(cell)).collect()).collect()
}

fn command(width: u16, height: u16, rows: &[&[&str]], words: &[&str]) -> BGCommand {
    let mut bg = BGCommand::new(-8, words.iter().map(|w| w.to_string()).collect());
    bg.tattoy.width = width;
    bg.tattoy.height = height;
    bg.screen = screen(rows);
    bg
}

#[test]
fn dump_joins_rows_and_trims() {
    let bg = command(10, 3, &[&[" ", "h", "i"], &["y", "o", " "], &[" ", " ", " "]], &["echo"]);
    assert_eq!(bg.tattoy.id, "bg_command");
    assert_eq!(bg.tattoy.layer, -8);
    assert_eq!(text(bg.dump_last_known_output()), "hi\nyo");
}

#[test]
fn dump_cuts_long_lines_with_an_ellipsis() {
    let row: &[&str] = &["a", "b", "c", "d", "e", "f", "g"];
    let bg = command(6, 1, &[row], &["echo"]);
    // Cut after the cell in column 6 - 4 = 2.
    assert_eq!(text(bg.dump_last_known_output()), "abc…");
}

#[test]
fn dump_drops_long_trailing_blanks_only() {
    // Three trailing spaces are kept, four are trimmed.
    let bg = command(20, 2, &[&["a", " ", " ", " "], &["b", " ", " ", " ", " ", "c"]], &["echo"]);
    assert_eq!(text(bg.dump_last_known_output()), "a   \nb    c");
    let bg = command(20, 2, &[&["x", " ", " ", " ", " "], &["y"]], &["echo"]);
    assert_eq!(text(bg.dump_last_known_output()), "x\ny");
}

#[test]
fn dump_keeps_newlines_of_cells() {
    let bg = command(5, 2, &[&["a", "\n", "b", "c", "d"], &["e"]], &["echo"]);
    // The first row has a newline, so it is not cut and no newline is added before it.
    assert_eq!(text(bg.dump_last_known_output()), "a\nbcd\ne");
}

#[test]
fn no_output_is_reported() {
    let bg = command(8, 2, &[&[" ", " "]], &["nonexistent", "--flag"]);
    assert_eq!(
        bg.exit_notification(true).map(|m| m.map(text)),
        Ok(Some("No output, does `nonexistent` command exist?".to_string()))
    );
    let unnamed = command(8, 2, &[&[" "]], &[]);
    assert_eq!(unnamed.exit_notification(false), Err(BGCommandError::NoBaseCommand));
}

#[test]
fn expected_exit_with_output_is_quiet() {
    let bg = command(8, 2, &[&["o", "k"]], &["true"]);
    assert_eq!(bg.exit_notification(true), Ok(None));
}

#[test]
fn unexpected_exit_shows_a_sample() {
    // 8 x 2 cells: output is cut to 4 bytes, which fills the cut.
    let bg = command(8, 2, &[&["a", "b", "c", "d", "e"]], &["cmd"]);
    assert_eq!(
        bg.exit_notification(false).map(|m| m.map(text)),
        Ok(Some("Sample of output:\nabcd...\n".to_string()))
    );
    let short = command(40, 2, &[&["a", "b"]], &["cmd"]);
    assert_eq!(short.exit_notification(false).map(|m| m.map(text)), Ok(Some("ab".to_string())));
}

#[test]
fn walker_positions_are_random() {
    let mut seen = std::collections::HashSet::new();
    for _ in 0..100 {
        let mut walker = RandomWalker::new();
        walker.handle_protocol_message(&ProtocolMessage::Resize { width: 200, height: 100 });
        seen.insert(walker.position());
    }
    assert!(seen.len() > 1);

    let mut walker = RandomWalker::new();
    walker.tattoy.set_tty_size(200, 100);
    walker.handle_protocol_message(&ProtocolMessage::Resize { width: 200, height: 100 });
    let mut moves = std::collections::HashSet::new();
    for _ in 0..100 {
        let before = walker.position();
        walker.step();
        let after = walker.position();
        moves.insert((after.0 - before.0.clamp(1, 199), after.1 - before.1.clamp(1, 199)));
    }
    assert!(moves.len() > 1);
}
