//! Supporting user-defined keybindings.
//!
//! A keybinding in the configuration is a key, like `x` or `PageUp`, and optional modifiers,
//! like `CTRL|SHIFT`. It becomes a key press by way of termwiz's own deserialiser for its
//! `KeyEvent`: the binding is written as the TOML text of a key event, which saves mapping
//! every key code by hand, and the modifiers are parsed by termwiz. A key press is held here as
//! plain values: the key, as a character or as the name of termwiz's key code, and the bits of
//! the modifiers.
use crate::terminal_proxy::KeybindingAction;
use crate::util::{str_len, string_chars, text_len, trim};
use termwiz::input::{KeyCode, KeyEvent, Modifiers};
use vstd::prelude::*;

verus! {

/// A key, as termwiz's key codes name it.
#[derive(Clone, Debug, PartialEq, Eq)]
pub enum KeyName {
    /// A character key.
    Char(char),
    /// Any other key code, by the name termwiz gives it (like `Home`, or `Function(5)`).
    Named(String),
}

/// A key together with the modifiers held down.
#[derive(Clone, Debug, PartialEq, Eq)]
pub struct KeyPress {
    /// The key.
    pub key: KeyName,
    /// The bits of termwiz's `Modifiers`.
    pub modifiers: u16,
}

/// A key as values.
pub enum KeyNameView {
    /// A character key.
    Char(char),
    /// Any other key code, by its name.
    Named(Seq<char>),
}

/// A key press as values.
pub struct KeyPressView {
    /// The key.
    pub key: KeyNameView,
    /// The bits of the modifiers.
    pub modifiers: u16,
}

impl View for KeyName {
    type V = KeyNameView;

    open spec fn view(&self) -> KeyNameView {
        match self {
            KeyName::Char(c) => KeyNameView::Char(*c),
            KeyName::Named(n) => KeyNameView::Named(n@),
        }
    }
}

impl View for KeyPress {
    type V = KeyPressView;

    open spec fn view(&self) -> KeyPressView {
        KeyPressView { key: self.key@, modifiers: self.modifiers }
    }
}

/// The user config for defining a keybinding.
pub struct KeybindingConfigRaw {
    /// The modifier keys, like `CTRL`, `SHIFT`, etc.
    pub mods: Option<String>,
    /// The actual key, like a 'x' or `PageUp`.
    pub key: String,
}

/// Why a keybinding is not a key event.
#[derive(Debug)]
pub enum KeybindingError {
    /// The key is not one termwiz knows: the TOML deserialiser's message.
    InvalidKey(String),
    /// The modifiers are not ones termwiz knows: termwiz's message.
    InvalidModifier(String),
}

/// The TOML text of a key: a one byte key is a character, anything else names a key code.
pub open spec fn key_toml(key: Seq<char>) -> Seq<char> {
    if str_len(key) == 1 {
        "{ Char = \""@ + key + "\" }"@
    } else {
        "\""@ + key + "\""@
    }
}

/// The TOML text of a key event for the key, with no modifiers.
pub open spec fn key_event_toml(key: Seq<char>) -> Seq<char> {
    "\n                modifiers = { bits = 0 }\n                key = "@ + key_toml(key)
        + "\n            "@
}

/// The parts of a text between its `|` separators.
pub open spec fn modifier_parts(s: Seq<char>) -> Seq<Seq<char>>
    decreases s.len(),
{
    if s.len() == 0 {
        seq![Seq::empty()]
    } else {
        let before = modifier_parts(s.drop_last());
        if s.last() == '|' {
            before.push(Seq::empty())
        } else {
            before.drop_last().push(before.last().push(s.last()))
        }
    }
}

/// A modifier name that termwiz knows, or nothing.
pub open spec fn is_modifier_name(name: Seq<char>) -> bool {
    ||| name == "SHIFT"@
    ||| name == "ALT"@
    ||| name == "OPT"@
    ||| name == "META"@
    ||| name == "CTRL"@
    ||| name == "SUPER"@
    ||| name == "CMD"@
    ||| name == "WIN"@
    ||| name == "LEADER"@
    ||| name == "NONE"@
    ||| name.len() == 0
}

/// Every `|`-separated part of the text, without surrounding white space, is a modifier name.
pub open spec fn modifier_names_valid(s: Seq<char>) -> bool {
    forall|i: int| 0 <= i < modifier_parts(s).len() ==> is_modifier_name(#[trigger] trim(modifier_parts(s)[i]))
}

/// The modifier bits that a modifier name stands for, in termwiz's `Modifiers`: `SHIFT` is
/// bit 1, `ALT` (or `OPT`, `META`) bit 2, `CTRL` bit 3, `SUPER` (or `CMD`, `WIN`) bit 4,
/// `LEADER` bit 7, and `NONE` or nothing no bit.
pub open spec fn modifier_name_bits(name: Seq<char>) -> u16 {
    if name == "SHIFT"@ {
        2
    } else if name == "ALT"@ || name == "OPT"@ || name == "META"@ {
        4
    } else if name == "CTRL"@ {
        8
    } else if name == "SUPER"@ || name == "CMD"@ || name == "WIN"@ {
        16
    } else if name == "LEADER"@ {
        128
    } else {
        0
    }
}

/// The modifier bits of `|`-separated parts, each trimmed: all their bits together.
pub open spec fn parts_bits(parts: Seq<Seq<char>>) -> u16
    decreases parts.len(),
{
    if parts.len() == 0 {
        0
    } else {
        parts_bits(parts.drop_last()) | modifier_name_bits(trim(parts.last()))
    }
}

/// The modifier bits that a modifiers text names.
pub open spec fn modifier_bits(s: Seq<char>) -> u16 {
    parts_bits(modifier_parts(s))
}

/// The names of termwiz's key codes that carry no value, which a key event's TOML text names
/// as a string.
pub open spec fn key_code_names() -> Seq<Seq<char>> {
    seq![
        "Hyper"@, "Super"@, "Meta"@, "Cancel"@, "Backspace"@, "Tab"@, "Clear"@, "Enter"@,
        "Shift"@, "Escape"@, "LeftShift"@, "RightShift"@, "Control"@, "LeftControl"@,
        "RightControl"@, "Alt"@, "LeftAlt"@, "RightAlt"@, "Menu"@, "LeftMenu"@, "RightMenu"@,
        "Pause"@, "CapsLock"@, "PageUp"@, "PageDown"@, "End"@, "Home"@, "LeftArrow"@,
        "RightArrow"@, "UpArrow"@, "DownArrow"@, "Select"@, "Print"@, "Execute"@, "PrintScreen"@,
        "Insert"@, "Delete"@, "Help"@, "LeftWindows"@, "RightWindows"@, "Applications"@,
        "Sleep"@, "Numpad0"@, "Numpad1"@, "Numpad2"@, "Numpad3"@, "Numpad4"@, "Numpad5"@,
        "Numpad6"@, "Numpad7"@, "Numpad8"@, "Numpad9"@, "Multiply"@, "Add"@, "Separator"@,
        "Subtract"@, "Decimal"@, "Divide"@, "NumLock"@, "ScrollLock"@, "Copy"@, "Cut"@, "Paste"@,
        "BrowserBack"@, "BrowserForward"@, "BrowserRefresh"@, "BrowserStop"@, "BrowserSearch"@,
        "BrowserFavorites"@, "BrowserHome"@, "VolumeMute"@, "VolumeDown"@, "VolumeUp"@,
        "MediaNextTrack"@, "MediaPrevTrack"@, "MediaStop"@, "MediaPlayPause"@,
        "ApplicationLeftArrow"@, "ApplicationRightArrow"@, "ApplicationUpArrow"@,
        "ApplicationDownArrow"@, "KeyPadHome"@, "KeyPadEnd"@, "KeyPadPageUp"@, "KeyPadPageDown"@,
        "KeyPadBegin"@, "InternalPasteStart"@, "InternalPasteEnd"@,
    ]
}

/// A one byte key that a TOML basic string holds as it is: printable ASCII other than the
/// quote and the backslash.
pub open spec fn plain_key_char(c: char) -> bool {
    0x20 <= (c as u32) <= 0x7e && c != '"' && c != '\\'
}

/// What `toml::from_str` deserialises from the text into a `termwiz::input::KeyEvent`, as
/// values: nothing when the text is not a key event. It depends on the text alone.
pub uninterp spec fn deserialised_key(text: Seq<char>) -> Option<KeyPressView>;

/// `toml::from_str` into a `termwiz::input::KeyEvent`, as values, or the message of the TOML
/// error. Said of it here: it gives what the text deserialises to, a function of the text
/// alone; and, as the serde derives of `KeyEvent`, `KeyCode` and `Modifiers` show, the text of
/// a plain character key with no modifiers gives that character, and the text of a key code
/// that carries no value gives that key code by its name.
#[verifier::external_body]
fn parse_key_event(config: &Vec<char>) -> (res: Result<KeyPress, String>)
    ensures
        res is Ok <==> deserialised_key(config@) is Some,
        res matches Ok(k) ==> deserialised_key(config@) == Some(k@),
        res is Ok || (forall|c: char|
            !(plain_key_char(c) && config@ == #[trigger] key_event_toml(seq![c]))),
        res matches Ok(k) ==> (forall|c: char|
            plain_key_char(c) && config@ == #[trigger] key_event_toml(seq![c]) ==> k@ == (KeyPressView {
                key: KeyNameView::Char(c),
                modifiers: 0,
            })),
        res is Ok || (forall|name: Seq<char>|
            !(key_code_names().contains(name) && config@ == #[trigger] key_event_toml(name))),
        res matches Ok(k) ==> (forall|name: Seq<char>|
            key_code_names().contains(name) && config@ == #[trigger] key_event_toml(name) ==> k@ == (
            KeyPressView { key: KeyNameView::Named(name), modifiers: 0 })),
{
    let text: String = config.iter().collect();
    match toml::from_str::<KeyEvent>(text.as_str()) {
        Ok(event) => {
            let key = match event.key {
                KeyCode::Char(c) => KeyName::Char(c),
                other => KeyName::Named(format!("{other:?}")),
            };
            Ok(KeyPress { key, modifiers: event.modifiers.bits() })
        },
        Err(error) => Err(error.message().to_owned()),
    }
}

/// `termwiz::input::Modifiers::try_from` a `String`, as the modifiers' bits. Said of it here,
/// as its source shows: it succeeds exactly when every `|`-separated part, trimmed, is a name
/// it knows, and then gives the bits of all the names together.
#[verifier::external_body]
fn parse_modifiers(mods: String) -> (res: Result<u16, String>)
    ensures
        res is Ok <==> modifier_names_valid(mods@),
        res matches Ok(bits) ==> bits == modifier_bits(mods@),
{
    match Modifiers::try_from(mods) {
        Ok(modifiers) => Ok(modifiers.bits()),
        Err(error) => Err(error),
    }
}

/// Append a string's characters.
fn push_text(out: &mut Vec<char>, s: &Vec<char>)
    ensures
        final(out)@ == old(out)@ + s@,
{
    let mut i: usize = 0;
    while i < s.len()
        invariant
            0 <= i <= s@.len(),
            out@ == old(out)@ + s@.take(i as int),
        decreases s@.len() - i,
    {
        out.push(s[i]);
        i = i + 1;
        assert(out@ =~= old(out)@ + s@.take(i as int));
    }
    assert(s@.take(i as int) =~= s@);
}

/// The characters of a string literal.
fn literal_chars(s: &str) -> (res: Vec<char>)
    ensures
        res@ == s@,
{
    string_chars(&s.to_owned())
}

impl KeybindingConfigRaw {
    /// The TOML text of the key event for the binding's key, with no modifiers.
    pub fn key_event_toml(&self) -> (res: Vec<char>)
        ensures
            res@ == key_event_toml(self.key@),
    {
        let key = string_chars(&self.key);
        let mut out: Vec<char> = Vec::new();
        let head = literal_chars("\n                modifiers = { bits = 0 }\n                key = ");
        push_text(&mut out, &head);
        if text_len(key.as_slice()) == 1 {
            let open = literal_chars("{ Char = \"");
            let close = literal_chars("\" }");
            push_text(&mut out, &open);
            push_text(&mut out, &key);
            push_text(&mut out, &close);
        } else {
            let quote = literal_chars("\"");
            push_text(&mut out, &quote);
            push_text(&mut out, &key);
            push_text(&mut out, &quote);
        }
        let tail = literal_chars("\n            ");
        push_text(&mut out, &tail);
        assert(out@ =~= key_event_toml(self.key@));
        out
    }

    /// The binding's key press from what deserialising its key gave: a key that did not
    /// deserialise is refused with the deserialiser's message; then modifiers that termwiz does
    /// not know are refused; otherwise the key, with the modifiers replaced by the binding's
    /// when it has some.
    pub fn with_modifiers(parsed: Result<KeyPress, String>, mods: Option<String>) -> (res: Result<
        KeyPress,
        KeybindingError,
    >)
        ensures
            parsed matches Err(message) ==> res matches Err(KeybindingError::InvalidKey(m)) && m
                == message,
            parsed is Ok ==> (res matches Err(KeybindingError::InvalidModifier(_)) <==> (
            mods matches Some(m) && !modifier_names_valid(m@))),
            parsed matches Ok(k) ==> (res matches Ok(r) ==> r@ == with_mods(k@, mods)),
            parsed is Ok ==> (res is Ok <==> !(mods matches Some(m) && !modifier_names_valid(m@))),
    {
        match parsed {
            Ok(key_press) => {
                match mods {
                    Some(modifiers) => match parse_modifiers(modifiers) {
                        Ok(bits) => Ok(KeyPress { key: key_press.key, modifiers: bits }),
                        Err(err) => Err(KeybindingError::InvalidModifier(err)),
                    },
                    None => Ok(key_press),
                }
            },
            Err(error) => Err(KeybindingError::InvalidKey(error)),
        }
    }

    /// The key press of the binding: the key event that termwiz deserialises from the key's
    /// TOML text, with the binding's modifiers when it has some. A key that does not
    /// deserialise is refused first; then modifiers that termwiz does not know.
    pub fn try_into_key_event(self) -> (res: Result<KeyPress, KeybindingError>)
        ensures
            res matches Err(KeybindingError::InvalidKey(_)) <==> deserialised_key(
                key_event_toml(self.key@),
            ) is None,
            res matches Err(KeybindingError::InvalidModifier(_)) <==> deserialised_key(
                key_event_toml(self.key@),
            ) is Some && (self.mods matches Some(m) && !modifier_names_valid(m@)),
            res is Ok <==> binding_ok(self),
            res matches Ok(k) ==> k@ == binding_key(self),
    {
        let config = self.key_event_toml();
        let parsed = parse_key_event(&config);
        Self::with_modifiers(parsed, self.mods)
    }
}

/// A key press with its modifiers replaced by those that the text names, if there is one.
pub open spec fn with_mods(k: KeyPressView, mods: Option<String>) -> KeyPressView {
    match mods {
        Some(m) => KeyPressView { modifiers: modifier_bits(m@), ..k },
        None => k,
    }
}

/// The key press that a binding becomes, when it becomes one.
pub open spec fn binding_key(binding: KeybindingConfigRaw) -> KeyPressView {
    with_mods(deserialised_key(key_event_toml(binding.key@))->0, binding.mods)
}

/// The binding becomes a key press: its key deserialises and its modifiers, if any, are known.
pub open spec fn binding_ok(binding: KeybindingConfigRaw) -> bool {
    deserialised_key(key_event_toml(binding.key@)) is Some && !(binding.mods matches Some(m)
        && !modifier_names_valid(m@))
}

/// The actions of some keybindings, in their order.
pub open spec fn actions_of<E>(bindings: Seq<(KeybindingAction, E)>) -> Seq<KeybindingAction> {
    bindings.map_values(|b: (KeybindingAction, E)| b.0)
}

/// No action is bound twice.
pub open spec fn actions_distinct<E>(bindings: Seq<(KeybindingAction, E)>) -> bool {
    forall|i: int, j: int|
        0 <= i < j < bindings.len() ==> #[trigger] bindings[i].0 != #[trigger] bindings[j].0
}

/// The user's actions, in their order, that the defaults do not bind.
pub open spec fn unbound_actions(defaults: Seq<KeybindingAction>, user: Seq<KeybindingAction>) -> Seq<
    KeybindingAction,
>
    decreases user.len(),
{
    if user.len() == 0 {
        Seq::empty()
    } else {
        let before = unbound_actions(defaults, user.drop_last());
        if defaults.contains(user.last()) {
            before
        } else {
            before.push(user.last())
        }
    }
}

/// A copy of a keybinding.
fn copy_binding(binding: &KeybindingConfigRaw) -> (res: KeybindingConfigRaw)
    ensures
        res.key@ == binding.key@,
        res.mods == binding.mods,
{
    let mods = match &binding.mods {
        Some(m) => Some(m.clone()),
        None => None,
    };
    KeybindingConfigRaw { mods, key: binding.key.clone() }
}

/// Whether an action is among the bindings.
fn is_bound<E>(bindings: &Vec<(KeybindingAction, E)>, action: KeybindingAction) -> (res: bool)
    ensures
        res == actions_of(bindings@).contains(action),
{
    let mut i: usize = 0;
    while i < bindings.len()
        invariant
            0 <= i <= bindings@.len(),
            forall|k: int| 0 <= k < i ==> bindings@[k].0 != action,
        decreases bindings@.len() - i,
    {
        if bindings[i].0 == action {
            assert(actions_of(bindings@)[i as int] == action);
            return true;
        }
        i = i + 1;
    }
    proof {
        if actions_of(bindings@).contains(action) {
            let k = choose|k: int| 0 <= k < actions_of(bindings@).len() && actions_of(bindings@)[k] == action;
            assert(bindings@[k].0 == action);
        }
    }
    false
}

/// The index of the binding of an action, among bindings that bind it.
pub open spec fn binding_index<E>(bindings: Seq<(KeybindingAction, E)>, action: KeybindingAction) -> int {
    choose|j: int| 0 <= j < bindings.len() && bindings[j].0 == action
}

/// The key press that is in force for an action: the user's binding when the user binds the
/// action, otherwise the default binding.
pub open spec fn chosen_key(
    defaults: Seq<(KeybindingAction, KeybindingConfigRaw)>,
    user: Seq<(KeybindingAction, KeybindingConfigRaw)>,
    action: KeybindingAction,
) -> KeyPressView {
    if actions_of(user).contains(action) {
        binding_key(user[binding_index(user, action)].1)
    } else {
        binding_key(defaults[binding_index(defaults, action)].1)
    }
}

/// Among bindings that bind each action once, the binding at `j` is the binding of its action.
proof fn lemma_binding_index<E>(bindings: Seq<(KeybindingAction, E)>, j: int)
    requires
        actions_distinct(bindings),
        0 <= j < bindings.len(),
    ensures
        binding_index(bindings, bindings[j].0) == j,
        actions_of(bindings).contains(bindings[j].0),
{
    let a = bindings[j].0;
    assert(actions_of(bindings)[j] == a);
    let c = binding_index(bindings, a);
    assert(0 <= c < bindings.len() && bindings[c].0 == a);
    if c < j {
        assert(bindings[c].0 != bindings[j].0);
    } else if c > j {
        assert(bindings[j].0 != bindings[c].0);
    }
}

/// A copy of a key press.
fn copy_key(key: &KeyPress) -> (res: KeyPress)
    ensures
        res@ == key@,
{
    let name = match &key.key {
        KeyName::Char(c) => KeyName::Char(*c),
        KeyName::Named(n) => KeyName::Named(n.clone()),
    };
    KeyPress { key: name, modifiers: key.modifiers }
}

/// Convert bindings in their order; the first one that does not become a key press is the
/// error.
fn convert_bindings(bindings: &Vec<(KeybindingAction, KeybindingConfigRaw)>) -> (res: Result<
    Vec<(KeybindingAction, KeyPress)>,
    KeybindingError,
>)
    ensures
        res is Ok <==> forall|i: int| 0 <= i < bindings@.len() ==> binding_ok(#[trigger] bindings@[i].1),
        res matches Ok(converted) ==> converted@.len() == bindings@.len() && forall|i: int|
            0 <= i < bindings@.len() ==> #[trigger] converted@[i].0 == bindings@[i].0
                && converted@[i].1@ == binding_key(bindings@[i].1),
{
    let mut converted: Vec<(KeybindingAction, KeyPress)> = Vec::new();
    let mut i: usize = 0;
    while i < bindings.len()
        invariant
            0 <= i <= bindings@.len(),
            converted@.len() == i,
            forall|k: int| 0 <= k < i ==> binding_ok(#[trigger] bindings@[k].1),
            forall|k: int|
                0 <= k < i ==> #[trigger] converted@[k].0 == bindings@[k].0 && converted@[k].1@
                    == binding_key(bindings@[k].1),
        decreases bindings@.len() - i,
    {
        let (action, binding) = &bindings[i];
        match copy_binding(binding).try_into_key_event() {
            Ok(key) => {
                converted.push((*action, key));
            },
            Err(error) => {
                return Err(error);
            },
        }
        i = i + 1;
    }
    Ok(converted)
}

/// The index of an action among converted bindings, if it is bound there.
fn find_action(bindings: &Vec<(KeybindingAction, KeyPress)>, action: KeybindingAction) -> (res: Option<
    usize,
>)
    ensures
        res matches Some(j) ==> j < bindings@.len() && bindings@[j as int].0 == action,
        res is None ==> !actions_of(bindings@).contains(action),
{
    let mut i: usize = 0;
    while i < bindings.len()
        invariant
            0 <= i <= bindings@.len(),
            forall|k: int| 0 <= k < i ==> bindings@[k].0 != action,
        decreases bindings@.len() - i,
    {
        if bindings[i].0 == action {
            return Some(i);
        }
        i = i + 1;
    }
    proof {
        if actions_of(bindings@).contains(action) {
            let k = choose|k: int| 0 <= k < actions_of(bindings@).len() && actions_of(bindings@)[k] == action;
            assert(bindings@[k].0 == action);
        }
    }
    None
}

/// The keybindings in force, as key presses: every default binding, with the user's key for
/// the actions that the user binds too, then each of the user's bindings whose action has no
/// default binding, each in its order. Every binding is converted, defaults first, so the
/// result is an error exactly when one of the default or user bindings does not become a key
/// press; which one is reported depends on their order.
#[verifier::spinoff_prover]
#[verifier::rlimit(40)]
pub fn load_keybindings(
    defaults: &Vec<(KeybindingAction, KeybindingConfigRaw)>,
    user: &Vec<(KeybindingAction, KeybindingConfigRaw)>,
) -> (res: Result<Vec<(KeybindingAction, KeyPress)>, KeybindingError>)
    requires
        actions_distinct(defaults@),
        actions_distinct(user@),
    ensures
        res is Ok <==> (forall|i: int| 0 <= i < defaults@.len() ==> binding_ok(#[trigger] defaults@[i].1))
            && (forall|i: int| 0 <= i < user@.len() ==> binding_ok(#[trigger] user@[i].1)),
        res matches Ok(bound) ==> actions_of(bound@) == actions_of(defaults@) + unbound_actions(
            actions_of(defaults@),
            actions_of(user@),
        ),
        res matches Ok(bound) ==> forall|i: int|
            0 <= i < bound@.len() ==> #[trigger] bound@[i].1@ == chosen_key(defaults@, user@, bound@[i].0),
{
    let converted_defaults = match convert_bindings(defaults) {
        Ok(c) => c,
        Err(error) => {
            return Err(error);
        },
    };
    let converted_user = match convert_bindings(user) {
        Ok(c) => c,
        Err(error) => {
            return Err(error);
        },
    };
    assert(actions_of(converted_user@) =~= actions_of(user@));
    assert forall|k: int| 0 <= k < user@.len() implies #[trigger] converted_user@[k].1@ == binding_key(
        user@[k].1,
    ) by {
        assert(converted_user@[k].0 == user@[k].0);
    }
    let mut bound: Vec<(KeybindingAction, KeyPress)> = Vec::new();
    let mut i: usize = 0;
    while i < converted_defaults.len()
        invariant
            0 <= i <= defaults@.len(),
            converted_defaults@.len() == defaults@.len(),
            converted_user@.len() == user@.len(),
            actions_distinct(defaults@),
            actions_distinct(user@),
            actions_of(converted_user@) == actions_of(user@),
            forall|k: int|
                0 <= k < defaults@.len() ==> #[trigger] converted_defaults@[k].0 == defaults@[k].0
                    && converted_defaults@[k].1@ == binding_key(defaults@[k].1),
            forall|k: int| 0 <= k < user@.len() ==> #[trigger] converted_user@[k].0 == user@[k].0,
            forall|k: int|
                0 <= k < user@.len() ==> #[trigger] converted_user@[k].1@ == binding_key(user@[k].1),
            actions_of(bound@) == actions_of(defaults@).take(i as int),
            forall|k: int|
                0 <= k < bound@.len() ==> #[trigger] bound@[k].1@ == chosen_key(defaults@, user@, bound@[k].0),
        decreases defaults@.len() - i,
    {
        let action = converted_defaults[i].0;
        let ghost before = bound@;
        proof {
            lemma_binding_index(defaults@, i as int);
        }
        match find_action(&converted_user, action) {
            Some(j) => {
                proof {
                    lemma_binding_index(user@, j as int);
                }
                let key = copy_key(&converted_user[j].1);
                bound.push((action, key));
            },
            None => {
                let key = copy_key(&converted_defaults[i].1);
                bound.push((action, key));
            },
        }
        proof {
            assert(actions_of(bound@) =~= actions_of(before).push(action));
            assert(actions_of(defaults@).take(i + 1) =~= actions_of(defaults@).take(i as int).push(
                defaults@[i as int].0,
            ));
            assert(bound@[i as int].1@ == chosen_key(defaults@, user@, bound@[i as int].0));
        }
        i = i + 1;
    }
    assert(actions_of(defaults@).take(i as int) =~= actions_of(defaults@));
    let ghost default_actions = actions_of(defaults@);
    let mut j: usize = 0;
    while j < converted_user.len()
        invariant
            0 <= j <= user@.len(),
            converted_user@.len() == user@.len(),
            default_actions == actions_of(defaults@),
            actions_distinct(user@),
            forall|k: int| 0 <= k < user@.len() ==> #[trigger] converted_user@[k].0 == user@[k].0,
            forall|k: int|
                0 <= k < user@.len() ==> #[trigger] converted_user@[k].1@ == binding_key(user@[k].1),
            actions_of(bound@) == default_actions + unbound_actions(
                default_actions,
                actions_of(user@).take(j as int),
            ),
            forall|k: int|
                0 <= k < bound@.len() ==> #[trigger] bound@[k].1@ == chosen_key(defaults@, user@, bound@[k].0),
        decreases user@.len() - j,
    {
        let action = converted_user[j].0;
        let is_default = is_bound(defaults, action);
        proof {
            let taken = actions_of(user@).take(j + 1);
            assert(taken.drop_last() =~= actions_of(user@).take(j as int));
            assert(taken.last() == user@[j as int].0);
            lemma_binding_index(user@, j as int);
        }
        let ghost before = bound@;
        if !is_default {
            let key = copy_key(&converted_user[j].1);
            bound.push((action, key));
            proof {
                assert(actions_of(bound@) =~= actions_of(before).push(user@[j as int].0));
                assert(bound@[before.len() as int].1@ == chosen_key(defaults@, user@, action));
            }
        }
        j = j + 1;
    }
    assert(actions_of(user@).take(j as int) =~= actions_of(user@));
    Ok(bound)
}

impl KeyPress {
    /// Whether two key presses are the same key with the same modifiers.
    pub fn same_as(&self, other: &KeyPress) -> (res: bool)
        ensures
            res == (self@ == other@),
    {
        if self.modifiers != other.modifiers {
            return false;
        }
        match (&self.key, &other.key) {
            (KeyName::Char(a), KeyName::Char(b)) => *a == *b,
            (KeyName::Named(a), KeyName::Named(b)) => a.eq(b),
            _ => false,
        }
    }
}

} // verus!
