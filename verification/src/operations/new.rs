//! Creating a new local theme.

use crate::errors::{friendly_message, is_friendly, LeftError};
use crate::models::config::{
    entered_into, gathered, Config, ConfigView, LOCAL_REPO_NAME, LOCAL_REPO_URL,
};
use crate::models::laws::all_unique;
use crate::models::theme::{all_named, first_of, fresh_theme};
use crate::models::Theme;
use crate::utils::read::{normalize, trimmed, uppercased};
use vstd::prelude::*;

verus! {

/// The arguments of `new`.
#[derive(Debug)]
pub struct New {
    /// The name of the theme to create.
    pub name: String,
}

/// Whether a character may stand in a theme's name: a lower-case letter, a digit, or
/// one of `@`, `.`, `_`, `+` and `-`.
pub open spec fn name_char(c: char) -> bool {
    ('a' <= c && c <= 'z') || ('0' <= c && c <= '9') || c == '@' || c == '.' || c == '_' || c
        == '+' || c == '-'
}

/// Whether a text can be a theme's name: it is made of the characters that a name may
/// hold, and starts with neither a hyphen nor a dot.
pub open spec fn valid_name(name: Seq<char>) -> bool {
    &&& forall|i: int| 0 <= i < name.len() ==> name_char(#[trigger] name[i])
    &&& name.len() > 0 ==> name[0] != '-' && name[0] != '.'
}

/// A name that can be a theme's holds no slash.
pub proof fn valid_name_has_no_slash(name: Seq<char>)
    requires
        valid_name(name),
    ensures
        !name.contains('/'),
{
    if name.contains('/') {
        let i = choose|i: int| 0 <= i < name.len() && name[i] == '/';
        assert(name_char(name[i]));
    }
}

/// Whether a character may stand in a theme's name.
pub fn is_name_char(c: char) -> (r: bool)
    ensures
        r == name_char(c),
{
    ('a' <= c && c <= 'z') || ('0' <= c && c <= '9') || c == '@' || c == '.' || c == '_' || c
        == '+' || c == '-'
}

/// A set of files to start a new theme from.
#[derive(Debug, Clone, Copy, PartialEq, Eq, Structural)]
pub enum Prefill {
    Lemonbar,
    Polybar,
    Xmobar,
    Nothing,
}

/// The set of files that an answer to the prompt picks, if it picks one.
pub open spec fn prefill_of(state: Seq<char>) -> Option<Prefill> {
    if state == "0"@ {
        Some(Prefill::Lemonbar)
    } else if state == "1"@ {
        Some(Prefill::Polybar)
    } else if state == "2"@ {
        Some(Prefill::Xmobar)
    } else if state == "3"@ {
        Some(Prefill::Nothing)
    } else {
        None
    }
}

impl Prefill {
    /// The set of files that an answer picks, where the answer is one of `0` to `3`;
    /// anything else is no answer, and the question is to be asked again.
    pub fn from_answer(state: &String) -> (r: Option<Prefill>)
        ensures
            r == prefill_of(state@),
    {
        if *state == "0".to_string() {
            Some(Prefill::Lemonbar)
        } else if *state == "1".to_string() {
            Some(Prefill::Polybar)
        } else if *state == "2".to_string() {
            Some(Prefill::Xmobar)
        } else if *state == "3".to_string() {
            Some(Prefill::Nothing)
        } else {
            None
        }
    }

    /// The set of files that a line typed by the user picks.
    pub fn from_line(words: &str) -> (r: Option<Prefill>)
        ensures
            r == prefill_of(uppercased(trimmed(words@))),
    {
        let state = normalize(words);
        Prefill::from_answer(&state)
    }

    /// The directory that holds the files to copy; none where nothing is to be copied.
    pub fn directory(&self) -> (r: Option<&'static str>)
        ensures
            match *self {
                Prefill::Lemonbar => r matches Some(dir) && dir@
                    == "/usr/share/leftwm/themes/basic_lemonbar/"@,
                Prefill::Polybar => r matches Some(dir) && dir@
                    == "/usr/share/leftwm/themes/basic_polybar/"@,
                Prefill::Xmobar => r matches Some(dir) && dir@
                    == "/usr/share/leftwm/themes/basic_xmobar/"@,
                Prefill::Nothing => r.is_none(),
            },
    {
        match self {
            Prefill::Lemonbar => Some("/usr/share/leftwm/themes/basic_lemonbar/"),
            Prefill::Polybar => Some("/usr/share/leftwm/themes/basic_polybar/"),
            Prefill::Xmobar => Some("/usr/share/leftwm/themes/basic_xmobar/"),
            Prefill::Nothing => None,
        }
    }
}

impl New {
    /// Whether a theme of the wanted name can be created. Fails, with words for the
    /// user, where the name cannot be a theme's, or where a registry lists a theme of
    /// that name already.
    pub fn exec(&self, config: &Config) -> (r: Result<(), LeftError>)
        ensures
            r.is_ok() <==> valid_name(self.name@) && first_of(
                all_named(gathered(config@.repos, false), self.name@, false),
            ).is_none(),
            r matches Err(e) ==> is_friendly(
                e,
                if valid_name(self.name@) {
                    "A theme with that name already exists"@
                } else {
                    "Theme name not valid."@
                },
            ),
    {
        match New::validate_name(self.name.as_str()) {
            Ok(_) => {},
            Err(e) => {
                return Err(e);
            },
        }
        match Theme::find(config, self.name.as_str()) {
            Some(_theme) => Err(friendly_message("A theme with that name already exists")),
            None => Ok(()),
        }
    }

    /// Enters the new theme, created in the given directory, into the local registry:
    /// a record of the wanted name with that directory and nothing else.
    pub fn register(&self, config: &mut Config, dir: String)
        ensures
            final(config)@ == (ConfigView {
                repos: entered_into(
                    old(config)@.repos,
                    fresh_theme(self.name@, None, Some(dir@)),
                    LOCAL_REPO_URL@,
                    LOCAL_REPO_NAME@,
                ),
                ..old(config)@
            }),
            all_unique(old(config)@.repos) ==> all_unique(final(config)@.repos),
    {
        let theme = Theme::new(self.name.as_str(), None, Some(dir));
        let url = LOCAL_REPO_URL.to_string();
        let name = LOCAL_REPO_NAME.to_string();
        Config::update_or_append(config, &theme, (&url, &name));
    }

    /// Accepts a text as a theme's name, or fails, with words for the user, where it
    /// cannot be one: a name is made of lower-case letters, digits, `@`, `.`, `_`, `+`
    /// and `-`, and starts with neither a hyphen nor a dot.
    pub fn validate_name(name: &str) -> (r: Result<bool, LeftError>)
        ensures
            r.is_ok() <==> valid_name(name@),
            r matches Ok(valid) ==> valid,
            r matches Err(e) ==> is_friendly(e, "Theme name not valid."@),
    {
        let mut valid = true;
        let mut first = true;
        for c in it: name.chars()
            invariant
                it.seq() == name@,
                first == (it.index() == 0),
                valid == ((forall|i: int| 0 <= i < it.index() ==> name_char(#[trigger] name@[i]))
                    && (it.index() > 0 ==> name@[0] != '-' && name@[0] != '.')),
        {
            if !is_name_char(c) {
                valid = false;
            }
            if first && (c == '-' || c == '.') {
                valid = false;
            }
            first = false;
        }
        if !valid {
            return Err(friendly_message("Theme name not valid."));
        }
        Ok(true)
    }
}

} // verus!
