//! The palette as its configuration file holds it: a TOML table from each palette index,
//! written in decimal, to the index's true colour.
use super::PaletteColour;
use crate::ansi::decimal;
use std::collections::HashMap;
use vstd::prelude::*;

verus! {

/// The table of palette entries: each entry's key to its colour.
pub open spec fn entries_map(entries: Seq<(String, PaletteColour)>) -> Map<Seq<char>, PaletteColour> {
    Map::new(
        |key: Seq<char>| exists|i: int| 0 <= i < entries.len() && #[trigger] entries[i].0@ == key,
        |key: Seq<char>|
            entries[choose|i: int| 0 <= i < entries.len() && #[trigger] entries[i].0@ == key].1,
    )
}

/// No key occurs twice among the entries.
pub open spec fn keys_distinct(entries: Seq<(String, PaletteColour)>) -> bool {
    forall|i: int, j: int|
        0 <= i < j < entries.len() ==> #[trigger] entries[i].0@ != #[trigger] entries[j].0@
}

/// The table of a palette: each index, in decimal, to its colour.
pub open spec fn palette_map(palette: Seq<PaletteColour>) -> Map<Seq<char>, PaletteColour> {
    Map::new(
        |key: Seq<char>| exists|i: int| 0 <= i < palette.len() && #[trigger] decimal(i as nat) == key,
        |key: Seq<char>| palette[choose|i: int| 0 <= i < palette.len() && #[trigger] decimal(i as nat) == key],
    )
}

/// What `toml::from_str` deserialises from a text into a table of palette entries: nothing
/// when the text is not such a table. It depends on the text alone.
pub uninterp spec fn palette_toml(text: Seq<char>) -> Option<Map<Seq<char>, PaletteColour>>;

/// `toml::from_str` into a `HashMap<String, (u8, u8, u8)>`, its entries handed out in the map's
/// order, or the message of the TOML error. Said of it here: it succeeds exactly on the texts
/// that deserialise into such a table, and then gives that table's entries, each key once. The
/// order of the entries is not said: it is the order in which a `HashMap` is walked.
#[verifier::external_body]
fn parse_palette_toml(text: &str) -> (res: Result<Vec<(String, PaletteColour)>, String>)
    ensures
        res is Ok <==> palette_toml(text@) is Some,
        res matches Ok(entries) ==> palette_toml(text@) == Some(entries_map(entries@)) && keys_distinct(
            entries@,
        ),
{
    match toml::from_str::<HashMap<String, PaletteColour>>(text) {
        Ok(map) => Ok(map.into_iter().collect()),
        Err(error) => Err(error.message().to_owned()),
    }
}

/// `toml::to_string` of the entries gathered in a `HashMap<String, (u8, u8, u8)>`. Said of it
/// here, as the serialiser's source shows: it succeeds on such a map (string keys become a
/// table's keys, each colour an array of integers, and nothing in that path fails), and
/// reading the text back gives the same table. The text itself depends on the order in which
/// the map is walked, so it is not said.
#[verifier::external_body]
fn write_palette_toml(entries: &Vec<(String, PaletteColour)>) -> (res: Result<String, String>)
    requires
        keys_distinct(entries@),
    ensures
        res is Ok,
        res matches Ok(text) ==> palette_toml(text@) == Some(entries_map(entries@)),
{
    let map: HashMap<String, PaletteColour> = entries.iter().cloned().collect();
    toml::to_string(&map).map_err(|error| error.to_string())
}

/// The text of a decimal digit.
fn digit_text(d: u64) -> (res: &'static str)
    requires
        d < 10,
    ensures
        res@ == decimal(d as nat),
{
    proof {
        reveal_strlit("0");
        reveal_strlit("1");
        reveal_strlit("2");
        reveal_strlit("3");
        reveal_strlit("4");
        reveal_strlit("5");
        reveal_strlit("6");
        reveal_strlit("7");
        reveal_strlit("8");
        reveal_strlit("9");
    }
    if d == 0 {
        "0"
    } else if d == 1 {
        "1"
    } else if d == 2 {
        "2"
    } else if d == 3 {
        "3"
    } else if d == 4 {
        "4"
    } else if d == 5 {
        "5"
    } else if d == 6 {
        "6"
    } else if d == 7 {
        "7"
    } else if d == 8 {
        "8"
    } else {
        "9"
    }
}

/// A number in decimal.
pub fn decimal_text(n: u64) -> (res: String)
    ensures
        res@ == decimal(n as nat),
    decreases n,
{
    if n < 10 {
        String::from_str(digit_text(n))
    } else {
        let mut text = decimal_text(n / 10);
        let last = digit_text(n % 10);
        text.append(last);
        assert(decimal((n % 10) as nat) == seq![crate::ansi::digit((n % 10) as int)]);
        text
    }
}

/// The entries that a palette is saved as: each index, in decimal, with its colour.
pub fn palette_entries(palette: &Vec<PaletteColour>) -> (res: Vec<(String, PaletteColour)>)
    requires
        palette@.len() <= 256,
    ensures
        res@.len() == palette@.len(),
        forall|i: int|
            0 <= i < palette@.len() ==> (#[trigger] res@[i]).0@ == decimal(i as nat) && res@[i].1
                == palette@[i],
{
    let mut entries: Vec<(String, PaletteColour)> = Vec::new();
    let mut i: usize = 0;
    while i < palette.len()
        invariant
            0 <= i <= palette@.len(),
            palette@.len() <= 256,
            entries@.len() == i,
            forall|k: int|
                0 <= k < i ==> (#[trigger] entries@[k]).0@ == decimal(k as nat) && entries@[k].1
                    == palette@[k],
        decreases palette@.len() - i,
    {
        entries.push((decimal_text(i as u64), palette[i]));
        i = i + 1;
    }
    entries
}

/// The text of the palette's configuration file. Read back, the text gives the palette: each
/// index, in decimal, with its colour.
pub fn save_palette(palette: &Vec<PaletteColour>) -> (res: Result<String, String>)
    requires
        palette@.len() <= 256,
    ensures
        res is Ok,
        res matches Ok(text) ==> palette_toml(text@) == Some(palette_map(palette@)),
{
    let entries = palette_entries(palette);
    proof {
        assert forall|i: int, j: int| 0 <= i < j < entries@.len() implies #[trigger] entries@[i].0@
            != #[trigger] entries@[j].0@ by {
            crate::ansi::lemma_decimal_injective(i as nat, j as nat);
        }
        let em = entries_map(entries@);
        let pm = palette_map(palette@);
        assert forall|key: Seq<char>| em.contains_key(key) <==> pm.contains_key(key) by {
            if em.contains_key(key) {
                let i = choose|i: int| 0 <= i < entries@.len() && #[trigger] entries@[i].0@ == key;
                assert(decimal(i as nat) == key);
            }
            if pm.contains_key(key) {
                let i = choose|i: int| 0 <= i < palette@.len() && #[trigger] decimal(i as nat) == key;
                assert(entries@[i].0@ == key);
            }
        }
        assert forall|key: Seq<char>| em.contains_key(key) implies em[key] == pm[key] by {
            let i = choose|i: int| 0 <= i < entries@.len() && #[trigger] entries@[i].0@ == key;
            let j = choose|j: int| 0 <= j < palette@.len() && #[trigger] decimal(j as nat) == key;
            assert(decimal(i as nat) == key);
            crate::ansi::lemma_decimal_injective(i as nat, j as nat);
        }
        assert(em =~= pm);
    }
    write_palette_toml(&entries)
}

/// Load the palette's entries from the text of its configuration file: the table that the
/// text holds, or the deserialiser's message.
pub fn load_palette(text: &str) -> (res: Result<Vec<(String, PaletteColour)>, String>)
    ensures
        res is Ok <==> palette_toml(text@) is Some,
        res matches Ok(entries) ==> palette_toml(text@) == Some(entries_map(entries@)) && keys_distinct(
            entries@,
        ),
{
    parse_palette_toml(text)
}

/// The true colour of a palette index among loaded entries, if the entries have it.
pub fn palette_colour(entries: &Vec<(String, PaletteColour)>, index: u8) -> (res: Option<PaletteColour>)
    requires
        keys_distinct(entries@),
    ensures
        res is Some <==> entries_map(entries@).contains_key(decimal(index as nat)),
        res matches Some(c) ==> entries_map(entries@)[decimal(index as nat)] == c,
{
    let key = decimal_text(index as u64);
    let mut i: usize = 0;
    while i < entries.len()
        invariant
            0 <= i <= entries@.len(),
            key@ == decimal(index as nat),
            keys_distinct(entries@),
            forall|k: int| 0 <= k < i ==> (#[trigger] entries@[k]).0@ != key@,
        decreases entries@.len() - i,
    {
        if entries[i].0.eq(&key) {
            proof {
                let c = choose|j: int| 0 <= j < entries@.len() && #[trigger] entries@[j].0@ == key@;
                if c != i {
                    if c < i {
                        assert(entries@[c].0@ != entries@[i as int].0@);
                    } else {
                        assert(entries@[i as int].0@ != entries@[c].0@);
                    }
                }
            }
            return Some(entries[i].1);
        }
        i = i + 1;
    }
    None
}

} // verus!
