//! Configuration values with their defaults, and the hotkey syntax.
use vstd::prelude::*;
use vstd::string::StringExecFns;

verus! {

/// Settings of the history and of its presentation.
#[derive(Debug, Clone)]
pub struct Config {
    /// Largest number of clipboard entries kept.
    pub max_entries: usize,
    /// Largest size of a single entry, in bytes.
    pub max_entry_size: usize,
    pub ui: UiConfig,
    pub hotkey: HotkeyConfig,
}

/// Size of the popup window, in pixels.
#[derive(Debug, Clone)]
pub struct UiConfig {
    pub width: i32,
    pub height: i32,
}

/// The key combination that opens the popup, such as `Ctrl+Shift+V`.
#[derive(Debug, Clone)]
pub struct HotkeyConfig {
    pub popup: String,
}

/// Default number of entries kept.
pub fn default_max_entries() -> (r: usize)
    ensures
        r == 100,
{
    100
}

/// Default largest entry size: one mebibyte.
pub fn default_max_entry_size() -> (r: usize)
    ensures
        r == 1048576,
{
    1048576
}

/// Default popup width.
pub fn default_popup_width() -> (r: i32)
    ensures
        r == 600,
{
    600
}

/// Default popup height.
pub fn default_popup_height() -> (r: i32)
    ensures
        r == 400,
{
    400
}

/// Default hotkey.
pub fn default_hotkey() -> (r: String)
    ensures
        r@ == "Ctrl+Shift+V"@,
{
    String::from_str("Ctrl+Shift+V")
}

impl Default for Config {
    fn default() -> (r: Self)
        ensures
            r.max_entries == 100,
            r.max_entry_size == 1048576,
            r.ui.width == 600,
            r.ui.height == 400,
            r.hotkey.popup@ == "Ctrl+Shift+V"@,
    {
        Config {
            max_entries: default_max_entries(),
            max_entry_size: default_max_entry_size(),
            ui: UiConfig::default(),
            hotkey: HotkeyConfig::default(),
        }
    }
}

impl Default for UiConfig {
    fn default() -> (r: Self)
        ensures
            r.width == 600,
            r.height == 400,
    {
        UiConfig { width: default_popup_width(), height: default_popup_height() }
    }
}

impl Default for HotkeyConfig {
    fn default() -> (r: Self)
        ensures
            r.popup@ == "Ctrl+Shift+V"@,
    {
        HotkeyConfig { popup: default_hotkey() }
    }
}

/// Why a hotkey string was refused.
#[derive(Debug, Clone, Copy, PartialEq, Eq, Structural)]
pub enum HotkeyError {
    /// No token other than a modifier names a key (this includes the empty
    /// string).
    NoKey,
    /// More than one token names a key.
    MultipleKeys,
}

/// The pieces of `s` between occurrences of `sep`, in order; there is
/// always one more piece than there are separators.
pub open spec fn split_on(s: Seq<char>, sep: char) -> Seq<Seq<char>>
    decreases s.len(),
{
    if s.len() == 0 {
        seq![Seq::<char>::empty()]
    } else {
        let prev = split_on(s.drop_last(), sep);
        if s.last() == sep {
            prev.push(Seq::<char>::empty())
        } else {
            prev.update(prev.len() - 1, prev.last().push(s.last()))
        }
    }
}

/// `s` without leading and trailing white space.
pub uninterp spec fn trimmed(s: Seq<char>) -> Seq<char>;

/// `s` in lower case.
pub uninterp spec fn lower_of(s: Seq<char>) -> Seq<char>;

/// `s` in upper case.
pub uninterp spec fn upper_of(s: Seq<char>) -> Seq<char>;

/// Relies on `str::split` with a `char` pattern: the pieces between the
/// separators, in order, empty ones included.
#[verifier::external_body]
fn split_on_plus(s: &str) -> (r: Vec<String>)
    ensures
        r@.len() == split_on(s@, '+').len(),
        forall|i: int| 0 <= i < r@.len() ==> #[trigger] r@[i]@ == split_on(s@, '+')[i],
{
    s.split('+').map(|p| p.to_string()).collect()
}

/// Relies on `str::trim`: the text without surrounding white space.
#[verifier::external_body]
fn trim_text(s: &str) -> (r: String)
    ensures
        r@ == trimmed(s@),
{
    s.trim().to_string()
}

/// Relies on `str::to_lowercase`: the text in lower case.
#[verifier::external_body]
fn lowercase(s: &str) -> (r: String)
    ensures
        r@ == lower_of(s@),
{
    s.to_lowercase()
}

/// Relies on `str::to_uppercase`: the text in upper case.
#[verifier::external_body]
fn uppercase(s: &str) -> (r: String)
    ensures
        r@ == upper_of(s@),
{
    s.to_uppercase()
}

/// The modifier flags (control, shift, alt) and the key gathered from the
/// lower-case tokens `tokens`, read left to right. A token names a modifier
/// (`ctrl` or `control`, `shift`, `alt`) or else a key, taken as it stands
/// while none is held yet (an empty token leaves none held); a second key
/// is an error.
pub open spec fn modifiers_and_key(tokens: Seq<Seq<char>>) -> Result<(bool, bool, bool, Seq<char>), HotkeyError>
    decreases tokens.len(),
{
    if tokens.len() == 0 {
        Ok((false, false, false, Seq::<char>::empty()))
    } else {
        match modifiers_and_key(tokens.drop_last()) {
            Err(e) => Err(e),
            Ok((c, s, a, k)) => {
                let t = tokens.last();
                if t == "ctrl"@ || t == "control"@ {
                    Ok((true, s, a, k))
                } else if t == "shift"@ {
                    Ok((c, true, a, k))
                } else if t == "alt"@ {
                    Ok((c, s, true, k))
                } else if k.len() == 0 {
                    Ok((c, s, a, t))
                } else {
                    Err(HotkeyError::MultipleKeys)
                }
            },
        }
    }
}

/// The hotkey described by the lower-case tokens `tokens`: the modifiers
/// and a key, which must not be empty.
pub open spec fn hotkey_of(tokens: Seq<Seq<char>>) -> Result<(bool, bool, bool, Seq<char>), HotkeyError> {
    match modifiers_and_key(tokens) {
        Err(e) => Err(e),
        Ok((c, s, a, k)) => if k.len() == 0 {
            Err(HotkeyError::NoKey)
        } else {
            Ok((c, s, a, k))
        },
    }
}

/// `m` with its key, if it has one, in upper case.
pub open spec fn with_upper_key(
    m: Result<(bool, bool, bool, Seq<char>), HotkeyError>,
) -> Result<(bool, bool, bool, Seq<char>), HotkeyError> {
    match m {
        Ok((c, s, a, k)) => Ok((c, s, a, upper_of(k))),
        Err(e) => Err(e),
    }
}

/// The tokens of a hotkey string: its `+`-separated pieces, trimmed and in
/// lower case.
pub open spec fn hotkey_tokens(s: Seq<char>) -> Seq<Seq<char>> {
    split_on(s, '+').map(|i: int, p: Seq<char>| lower_of(trimmed(p)))
}

/// `r` is the executable form of the mathematical result `m`.
pub open spec fn same_hotkey(
    r: Result<(bool, bool, bool, String), HotkeyError>,
    m: Result<(bool, bool, bool, Seq<char>), HotkeyError>,
) -> bool {
    match (r, m) {
        (Ok((c, s, a, k)), Ok((c2, s2, a2, k2))) => c == c2 && s == s2 && a == a2 && k@ == k2,
        (Err(e), Err(e2)) => e == e2,
        _ => false,
    }
}

/// An error met on a prefix of the tokens stays the outcome of every longer
/// prefix.
proof fn lemma_error_stays(tokens: Seq<Seq<char>>, i: int, j: int)
    requires
        0 <= i <= j <= tokens.len(),
        modifiers_and_key(tokens.subrange(0, i)) is Err,
    ensures
        modifiers_and_key(tokens.subrange(0, j)) == modifiers_and_key(tokens.subrange(0, i)),
    decreases j - i,
{
    if j > i {
        lemma_error_stays(tokens, i, j - 1);
        assert(tokens.subrange(0, j).drop_last() =~= tokens.subrange(0, j - 1));
    }
}

/// Reads a hotkey from its lower-case tokens (see `hotkey_of`); the key is
/// given back as its token stands.
pub fn parse_hotkey_tokens(tokens: &Vec<String>) -> (r: Result<(bool, bool, bool, String), HotkeyError>)
    ensures
        same_hotkey(r, hotkey_of(tokens@.map_values(|t: String| t@))),
{
    let ghost ts = tokens@.map_values(|t: String| t@);
    let ctrl_word = String::from_str("ctrl");
    let control_word = String::from_str("control");
    let shift_word = String::from_str("shift");
    let alt_word = String::from_str("alt");
    let mut ctrl = false;
    let mut shift = false;
    let mut alt = false;
    let mut key = String::new();
    let mut i: usize = 0;
    while i < tokens.len()
        invariant
            i <= tokens@.len(),
            ts == tokens@.map_values(|t: String| t@),
            ctrl_word@ == "ctrl"@,
            control_word@ == "control"@,
            shift_word@ == "shift"@,
            alt_word@ == "alt"@,
            modifiers_and_key(ts.subrange(0, i as int)) == Ok::<(bool, bool, bool, Seq<char>), HotkeyError>(
                (ctrl, shift, alt, key@),
            ),
        decreases tokens@.len() - i,
    {
        assert(ts.subrange(0, i as int + 1).drop_last() =~= ts.subrange(0, i as int));
        let t = &tokens[i];
        if *t == ctrl_word || *t == control_word {
            ctrl = true;
        } else if *t == shift_word {
            shift = true;
        } else if *t == alt_word {
            alt = true;
        } else if key.as_str().is_empty() {
            key = t.clone();
        } else {
            proof {
                lemma_error_stays(ts, i as int + 1, ts.len() as int);
                assert(ts.subrange(0, ts.len() as int) =~= ts);
            }
            return Err(HotkeyError::MultipleKeys);
        }
        i += 1;
    }
    assert(ts.subrange(0, ts.len() as int) =~= ts);
    if key.as_str().is_empty() {
        Err(HotkeyError::NoKey)
    } else {
        Ok((ctrl, shift, alt, key))
    }
}

/// Parses a hotkey string such as `Ctrl+Shift+V` into its control, shift
/// and alt flags and its key in upper case. Pieces are separated by `+`,
/// trimmed, and matched without regard to case.
pub fn parse_hotkey(hotkey_str: &str) -> (r: Result<(bool, bool, bool, String), HotkeyError>)
    ensures
        same_hotkey(r, with_upper_key(hotkey_of(hotkey_tokens(hotkey_str@)))),
{
    let parts = split_on_plus(hotkey_str);
    let ghost pieces = split_on(hotkey_str@, '+');
    let mut tokens: Vec<String> = Vec::new();
    let mut i: usize = 0;
    while i < parts.len()
        invariant
            i <= parts@.len(),
            parts@.len() == pieces.len(),
            forall|j: int| 0 <= j < parts@.len() ==> #[trigger] parts@[j]@ == pieces[j],
            tokens@.len() == i,
            forall|j: int| 0 <= j < i ==> #[trigger] tokens@[j]@ == lower_of(trimmed(pieces[j])),
        decreases parts@.len() - i,
    {
        let trimmed_part = trim_text(parts[i].as_str());
        tokens.push(lowercase(trimmed_part.as_str()));
        i += 1;
    }
    assert(tokens@.map_values(|t: String| t@) =~= hotkey_tokens(hotkey_str@));
    match parse_hotkey_tokens(&tokens) {
        Ok((ctrl, shift, alt, key)) => Ok((ctrl, shift, alt, uppercase(key.as_str()))),
        Err(e) => Err(e),
    }
}

} // verus!
