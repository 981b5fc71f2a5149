//! Starting Tattoy: the command that runs in the terminal, and whether Tattoy may start inside
//! another Tattoy.
use crate::util::{is_whitespace, spec_is_whitespace, string_chars};
use vstd::prelude::*;

verus! {

/// The words of a text: its runs of characters that are not white space, as
/// `str::split_whitespace` gives them.
pub open spec fn words(s: Seq<char>) -> Seq<Seq<char>>
    decreases s.len(),
{
    if s.len() == 0 {
        Seq::empty()
    } else {
        let before = words(s.drop_last());
        let c = s.last();
        if spec_is_whitespace(c) {
            before
        } else if s.len() == 1 || spec_is_whitespace(s[s.len() - 2]) {
            before.push(seq![c])
        } else {
            before.drop_last().push(before.last().push(c))
        }
    }
}

/// The words read so far, with the word being read.
spec fn words_so_far(done: Seq<Seq<char>>, current: Seq<char>) -> Seq<Seq<char>> {
    if current.len() == 0 {
        done
    } else {
        done.push(current)
    }
}

/// The command that runs in the terminal, split into its words: the one given on the command
/// line, or else the one in the configuration.
pub fn get_startup_command(cli_command: &Option<String>, config_command: &String) -> (res: Vec<Vec<char>>)
    ensures
        res@.map_values(|w: Vec<char>| w@) == words(
            match cli_command {
                Some(c) => c@,
                None => config_command@,
            },
        ),
{
    let command = match cli_command {
        Some(c) => string_chars(c),
        None => string_chars(config_command),
    };
    let ghost s = command@;
    let mut out: Vec<Vec<char>> = Vec::new();
    let mut current: Vec<char> = Vec::new();
    let mut i: usize = 0;
    while i < command.len()
        invariant
            s == command@,
            0 <= i <= s.len(),
            words(s.take(i as int)) == words_so_far(out@.map_values(|w: Vec<char>| w@), current@),
            current@.len() > 0 <==> (i > 0 && !spec_is_whitespace(s[i - 1])),
        decreases s.len() - i,
    {
        let c = command[i];
        let ghost done = out@.map_values(|w: Vec<char>| w@);
        proof {
            assert(s.take(i + 1).drop_last() =~= s.take(i as int));
            assert(s.take(i + 1).last() == c);
            if i > 0 {
                assert(s.take(i + 1)[i - 1] == s[i - 1]);
            }
        }
        if is_whitespace(c) {
            if current.len() > 0 {
                let word = current;
                let ghost w = word@;
                out.push(word);
                assert(out@.map_values(|w: Vec<char>| w@) =~= done.push(w));
                current = Vec::new();
            }
        } else {
            let ghost before = current@;
            current.push(c);
            proof {
                if before.len() > 0 {
                    assert(done.push(before).drop_last() =~= done);
                    assert(done.push(before).last() == before);
                    assert(words(s.take(i + 1)) == done.push(before.push(c)));
                } else {
                    assert(current@ =~= seq![c]);
                    assert(words(s.take(i + 1)) == done.push(seq![c]));
                }
                assert(words(s.take(i + 1)) == words_so_far(done, current@));
            }
        }
        i = i + 1;
    }
    if current.len() > 0 {
        let ghost done = out@.map_values(|w: Vec<char>| w@);
        let ghost w = current@;
        out.push(current);
        assert(out@.map_values(|w: Vec<char>| w@) =~= done.push(w));
    }
    assert(s.take(i as int) =~= s);
    out
}

/// Whether Tattoy refuses to start inside another Tattoy: it does when one is running, unless
/// nesting is allowed with the setting `allow`.
pub fn is_nesting_refused(is_running: bool, nest_setting: &Option<String>) -> (res: bool)
    ensures
        res == (is_running && !(nest_setting matches Some(v) && v@ == "allow"@)),
{
    let allowed = match nest_setting {
        Some(v) => {
            let chars = string_chars(v);
            proof {
                reveal_strlit("allow");
            }
            let res = chars.len() == 5 && chars[0] == 'a' && chars[1] == 'l' && chars[2] == 'l'
                && chars[3] == 'o' && chars[4] == 'w';
            proof {
                if res {
                    assert(chars@ =~= "allow"@);
                }
                if chars@ == "allow"@ {
                    assert(chars@[0] == 'a' && chars@[1] == 'l' && chars@[2] == 'l' && chars@[3] == 'o' && chars@[4] == 'w');
                }
            }
            res
        },
        None => false,
    };
    is_running && !allowed
}

/// What Tattoy does when it starts.
#[derive(Debug, PartialEq, Eq)]
pub enum StartupAction {
    /// Capture a screenshot of the palette, parse it, and exit.
    CapturePaletteAndExit,
    /// Parse the given screenshot of the palette, and exit.
    ParsePaletteAndExit(String),
    /// There is no palette yet: capture and parse one, then run.
    CapturePaletteThenRun,
    /// Run.
    Run,
}

/// Decide what Tattoy does when it starts, from its command line and whether a palette is
/// configured.
pub fn startup_action(capture_palette: bool, parse_palette: Option<String>, palette_config_exists: bool) -> (res: StartupAction)
    ensures
        capture_palette ==> res == StartupAction::CapturePaletteAndExit,
        !capture_palette && parse_palette is Some ==> res == StartupAction::ParsePaletteAndExit(
            parse_palette->0,
        ),
        !capture_palette && parse_palette is None && !palette_config_exists ==> res
            == StartupAction::CapturePaletteThenRun,
        !capture_palette && parse_palette is None && palette_config_exists ==> res
            == StartupAction::Run,
{
    if capture_palette {
        return StartupAction::CapturePaletteAndExit;
    }
    match parse_palette {
        Some(screenshot) => StartupAction::ParsePaletteAndExit(screenshot),
        None => {
            if !palette_config_exists {
                StartupAction::CapturePaletteThenRun
            } else {
                StartupAction::Run
            }
        },
    }
}

/// How much to log.
#[derive(Clone, Copy, Debug, PartialEq, Eq, Structural)]
pub enum LogLevel {
    /// Errors.
    Error,
    /// Warnings.
    Warn,
    /// Information.
    Info,
    /// Debugging.
    Debug,
    /// Tracing.
    Trace,
    /// No logging.
    Off,
}

/// The name of a level, as log filters write it.
pub open spec fn level_name(level: LogLevel) -> Seq<char> {
    match level {
        LogLevel::Error => "error"@,
        LogLevel::Warn => "warn"@,
        LogLevel::Info => "info"@,
        LogLevel::Debug => "debug"@,
        LogLevel::Trace => "trace"@,
        LogLevel::Off => "off"@,
    }
}

/// Which log filters to use.
#[derive(Debug, PartialEq, Eq)]
pub enum LogFilters {
    /// The user set the filters in the environment; anything else logs errors.
    FromEnvironment,
    /// Log Tattoy's own crates at a level, and nothing else.
    Crates(Vec<String>),
}

/// The level that applies: the command line's over the configuration's.
pub open spec fn chosen_level(config_level: LogLevel, cli_level: Option<LogLevel>) -> LogLevel {
    match cli_level {
        Some(level) => level,
        None => config_level,
    }
}

/// The filters of Tattoy's own crates at a level.
pub open spec fn crate_directives(level: LogLevel) -> Seq<Seq<char>> {
    seq![
        "shadow_terminal="@ + level_name(level),
        "tattoy="@ + level_name(level),
        "tests="@ + level_name(level),
    ]
}

/// The name of a level.
fn level_string(level: LogLevel) -> (res: String)
    ensures
        res@ == level_name(level),
{
    match level {
        LogLevel::Error => String::from_str("error"),
        LogLevel::Warn => String::from_str("warn"),
        LogLevel::Info => String::from_str("info"),
        LogLevel::Debug => String::from_str("debug"),
        LogLevel::Trace => String::from_str("trace"),
        LogLevel::Off => String::from_str("off"),
    }
}

/// A filter directive: a crate's name and a level.
fn directive(name: &str, level: LogLevel) -> (res: String)
    ensures
        res@ == name@ + level_name(level),
{
    let owned = name.to_owned();
    let level_text = level_string(level);
    owned.concat(level_text.as_str())
}

/// The path of the log file: the command line's over the configuration's.
pub fn log_path(config_path: String, cli_path: Option<String>) -> (res: String)
    ensures
        res@ == match cli_path {
            Some(p) => p@,
            None => config_path@,
        },
{
    match cli_path {
        Some(path) => path,
        None => config_path,
    }
}

/// Decide how to log: not at all when the level is off and the environment sets no filters;
/// with the environment's filters when it sets them; otherwise at the chosen level for
/// Tattoy's own crates.
pub fn setup_logging(config_level: LogLevel, cli_level: Option<LogLevel>, are_log_filters_manually_set: bool) -> (res: Option<LogFilters>)
    ensures
        chosen_level(config_level, cli_level) == LogLevel::Off && !are_log_filters_manually_set
            <==> res is None,
        are_log_filters_manually_set ==> res == Some(LogFilters::FromEnvironment),
        res matches Some(LogFilters::Crates(_)) <==> !are_log_filters_manually_set && chosen_level(
            config_level,
            cli_level,
        ) != LogLevel::Off,
        res matches Some(LogFilters::Crates(directives)) ==> !are_log_filters_manually_set
            && directives@.map_values(|d: String| d@) == crate_directives(
            chosen_level(config_level, cli_level),
        ),
{
    let level = match cli_level {
        Some(l) => l,
        None => config_level,
    };
    let is_loggable = level != LogLevel::Off || are_log_filters_manually_set;
    if !is_loggable {
        return None;
    }
    if are_log_filters_manually_set {
        return Some(LogFilters::FromEnvironment);
    }
    proof {
        reveal_strlit("shadow_terminal=");
        reveal_strlit("tattoy=");
        reveal_strlit("tests=");
    }
    let mut directives: Vec<String> = Vec::new();
    directives.push(directive("shadow_terminal=", level));
    directives.push(directive("tattoy=", level));
    directives.push(directive("tests=", level));
    assert(directives@.map_values(|d: String| d@) =~= crate_directives(level));
    Some(LogFilters::Crates(directives))
}

} // verus!
