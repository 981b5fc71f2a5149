use tattoy::palette::saved::{decimal_text, load_palette, palette_colour, palette_entries, save_palette};
use tattoy::palette::PaletteParseError;

#[test]
fn indices_are_written_in_decimal() {
    assert_eq!(decimal_text(0), "0");
    assert_eq!(decimal_text(7), "7");
    assert_eq!(decimal_text(128), "128");
    assert_eq!(decimal_text(255), "255");
}

#[test]
fn palette_entries_are_keyed_by_index() {
    let entries = palette_entries(&vec![(1, 1, 0), (175, 0, 215)]);
    assert_eq!(entries, vec![("0".to_owned(), (1, 1, 0)), ("1".to_owned(), (175, 0, 215))]);
}

#[test]
fn saved_palette_loads_back() {
    let palette: Vec<(u8, u8, u8)> = (0..=255u8).map(|i| (i, 255 - i, i / 2)).collect();
    let text = save_palette(&palette).unwrap();
    let entries = load_palette(&text).unwrap();
    assert_eq!(entries.len(), 256);
    for index in 0..=255u8 {
        assert_eq!(palette_colour(&entries, index), Some(palette[index as usize]));
    }
}

#[test]
fn palette_file_is_a_toml_table() {
    let entries = load_palette("\"0\" = [1, 1, 0]\n\"128\" = [175, 0, 215]\n").unwrap();
    assert_eq!(palette_colour(&entries, 0), Some((1, 1, 0)));
    assert_eq!(palette_colour(&entries, 128), Some((175, 0, 215)));
    assert_eq!(palette_colour(&entries, 255), None);
    assert!(load_palette("\"0\" = [1, 1]\n").is_err());
    assert!(load_palette("not toml").is_err());
}

#[test]
fn incomplete_palette_error_says_how_many_were_found() {
    let message: String = PaletteParseError::Incomplete { found: 42 }.message().into_iter().collect();
    assert_eq!(message, "Couldn't find all colours in palette, only found: 42.");
}

#[test]
fn saving_a_palette_always_succeeds() {
    assert!(save_palette(&Vec::new()).is_ok());
    let text = save_palette(&vec![(1, 2, 3)]).unwrap();
    assert_eq!(palette_colour(&load_palette(&text).unwrap(), 0), Some((1, 2, 3)));
}
