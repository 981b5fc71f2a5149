use tattoy::palette::parser::Parser;
use tattoy::palette::state_machine::Machine;
use tattoy::palette::{PaletteColour, PaletteParseError, Pixel};
use tattoy::palette_parser::PaletteParser;

/// A palette whose neighbouring colours differ clearly.
fn palette() -> Vec<PaletteColour> {
    (0..256u32)
        .map(|k| (k as u8, (255 - k) as u8, ((k * 3) % 256) as u8))
        .collect()
}

/// The screenshot of the printed palette grid: each palette row is a pixel row of red marker,
/// pure blue, 16 colours and a border cell, every cell `width` pixels wide.
fn screenshot(palette: &[PaletteColour], width: usize, rows: usize) -> Vec<Pixel> {
    let border: Pixel = (30, 30, 30, 0);
    let mut pixels = Vec::new();
    for row in 0..rows {
        let mut cells: Vec<Pixel> = vec![(255, row as u8, 0, 255), (0, 0, 255, 255)];
        for column in 0..16 {
            let c = palette[16 * row + column];
            cells.push((c.0, c.1, c.2, 255));
        }
        cells.push(border);
        for cell in cells {
            for _ in 0..width {
                pixels.push(cell);
            }
        }
    }
    pixels
}

#[test]
fn state_machine_parses_a_clean_screenshot() {
    let colours = palette();
    let parsed = Machine::parse_screenshot(&screenshot(&colours, 6, 16)).unwrap();
    assert_eq!(parsed, colours);
}

#[test]
fn exact_parser_parses_a_clean_screenshot() {
    let colours = palette();
    let parsed = PaletteParser::parse_screenshot(&screenshot(&colours, 2, 16)).unwrap();
    assert_eq!(parsed, colours);
}

#[test]
fn state_machine_tolerates_noise() {
    let colours = palette();
    let width = 6;
    let mut pixels = screenshot(&colours, width, 16);
    for (i, pixel) in pixels.iter_mut().enumerate() {
        let cell = (i % (19 * width)) / width;
        let is_last_pixel_of_cell = i % width == width - 1;
        if (2..18).contains(&cell) && is_last_pixel_of_cell {
            pixel.1 = if pixel.1 < 128 { pixel.1 + 2 } else { pixel.1 - 2 };
        }
    }
    let parsed = Machine::parse_screenshot(&pixels).unwrap();
    assert_eq!(parsed, colours);
}

#[test]
fn incomplete_screenshots_are_refused() {
    let colours = palette();
    assert_eq!(
        Machine::parse_screenshot(&screenshot(&colours, 6, 3)),
        Err(PaletteParseError::Incomplete { found: 48 })
    );
    assert_eq!(
        PaletteParser::parse_screenshot(&screenshot(&colours, 2, 3)),
        Err(PaletteParseError::Incomplete { found: 48 })
    );
    assert_eq!(
        Machine::parse_screenshot(&Vec::new()),
        Err(PaletteParseError::Incomplete { found: 0 })
    );
}

#[test]
fn two_true_colours_share_a_cell() {
    let text: String = Parser::two_true_colours_in_1((1, 2, 3), (40, 50, 255)).into_iter().collect();
    assert_eq!(text, "\x1b[48;2;1;2;3m\x1b[38;2;40;50;255m▄\x1b[m");
}

#[test]
fn true_colour_palette_needs_every_colour() {
    assert!(Parser::true_colour_palette_text(&vec![(0, 0, 0); 255]).is_none());
    let text: String = Parser::true_colour_palette_text(&palette()).unwrap().into_iter().collect();
    let lines: Vec<&str> = text.lines().collect();
    assert_eq!(lines.len(), 10);
    assert_eq!(lines[0], format!("╭{}╮", "─".repeat(18)));
    assert_eq!(lines[9], format!("╰{}╯", "─".repeat(18)));
    assert!(lines[1].starts_with("│\x1b[48;2;255;0;0m\x1b[38;2;255;1;0m▄\x1b[m"));
}

#[test]
fn native_palette_uses_palette_indexes() {
    let text: String = Parser::native_palette_text().into_iter().collect();
    let lines: Vec<&str> = text.lines().collect();
    assert_eq!(lines.len(), 10);
    assert!(lines[1].contains("\x1b[48;5;0m\x1b[38;5;16m▄\x1b[m"));
    assert!(lines[8].contains("\x1b[48;5;239m\x1b[38;5;255m▄\x1b[m"));
}
