//! The settings of the application.

use crate::i18n::Language;
use crate::paths::{join_path, user_config_dir};
use std::path::PathBuf;
use vstd::prelude::*;
use vstd::string::StringExecFns;

verus! {

/// Application settings structure
#[derive(Debug)]
pub struct Settings {
    /// Hotkey configuration
    pub hotkey: HotkeySettings,
    /// Storage configuration
    pub storage: StorageSettings,
    /// Theme configuration
    pub theme: AppTheme,
}

#[derive(Debug, Clone, Copy, PartialEq, Eq, Structural)]
pub enum AppTheme {
    Light,
    Dark,
    System,
}

/// What the system says of its own appearance.
#[derive(Debug, Clone, Copy, PartialEq, Eq, Structural)]
pub enum SystemMode {
    Dark,
    Light,
    Unspecified,
}

impl AppTheme {
    /// The theme to show: this theme, or for the system's theme what the
    /// system says, light where it says nothing.
    pub fn get_theme(&self, system: SystemMode) -> (theme: Self)
        ensures
            theme == (if *self == AppTheme::System {
                if system == SystemMode::Dark {
                    AppTheme::Dark
                } else {
                    AppTheme::Light
                }
            } else {
                *self
            }),
    {
        match self {
            AppTheme::System => match system {
                SystemMode::Dark => AppTheme::Dark,
                SystemMode::Light => AppTheme::Light,
                SystemMode::Unspecified => AppTheme::Light,
            },
            AppTheme::Light => AppTheme::Light,
            AppTheme::Dark => AppTheme::Dark,
        }
    }
}

#[derive(Debug)]
pub struct HotkeySettings {
    /// Global hotkey to activate clipboard manager (e.g., "cmd+shift+v")
    pub activation_key: String,
}

#[derive(Debug, Clone, Copy, PartialEq, Eq, Structural)]
pub struct StorageSettings {
    /// Maximum number of records to keep in history
    pub max_history_records: usize,
}

impl Clone for HotkeySettings {
    fn clone(&self) -> (copy: Self)
        ensures
            copy.activation_key@ == self.activation_key@,
    {
        HotkeySettings { activation_key: self.activation_key.clone() }
    }
}

impl Clone for Settings {
    fn clone(&self) -> (copy: Self)
        ensures
            copy.hotkey.activation_key@ == self.hotkey.activation_key@,
            copy.storage == self.storage,
            copy.theme == self.theme,
    {
        Settings { hotkey: self.hotkey.clone(), storage: self.storage, theme: self.theme }
    }
}

/// A failure to find the settings.
#[derive(Debug)]
pub enum ConfigError {
    /// Something the settings need is not there.
    NotFound(String),
    /// A failure underneath, in its own words.
    Foreign(String),
}

impl ConfigError {
    /// The failure in words.
    pub fn message(&self) -> (text: String)
        ensures
            text@ == match *self {
                ConfigError::NotFound(what) => what@,
                ConfigError::Foreign(what) => what@,
            },
    {
        match self {
            ConfigError::NotFound(what) => what.clone(),
            ConfigError::Foreign(what) => what.clone(),
        }
    }
}

impl Default for Settings {
    fn default() -> (settings: Self)
        ensures
            settings.hotkey.activation_key@ == "control+shift+d"@,
            settings.storage.max_history_records == DEFAULT_MAX_HISTORY_RECORDS,
            settings.theme == AppTheme::System,
    {
        Settings {
            hotkey: HotkeySettings { activation_key: String::from_str("control+shift+d") },
            storage: StorageSettings { max_history_records: DEFAULT_MAX_HISTORY_RECORDS },
            theme: AppTheme::System,
        }
    }
}

impl Settings {
    /// Get the configuration directory path
    pub fn config_dir() -> (r: Result<PathBuf, ConfigError>)
        ensures
            r matches Err(e) ==> e is NotFound,
    {
        Self::config_dir_in(user_config_dir())
    }

    /// The configuration directory under the directory that the system
    /// names for settings; without the latter there is none.
    pub fn config_dir_in(base: Option<PathBuf>) -> (r: Result<PathBuf, ConfigError>)
        ensures
            r is Ok <==> base is Some,
            r matches Err(e) ==> e is NotFound,
    {
        match base {
            Some(dir) => Ok(join_path(&dir, "ropy")),
            None => Err(ConfigError::NotFound(String::from_str("Config directory not found"))),
        }
    }

    /// Get the configuration file path
    pub fn config_file() -> (r: Result<PathBuf, ConfigError>)
        ensures
            r matches Err(e) ==> e is NotFound,
    {
        Self::config_file_in(user_config_dir())
    }

    /// The configuration file in the configuration directory under the
    /// directory that the system names for settings; without the latter
    /// there is none.
    pub fn config_file_in(base: Option<PathBuf>) -> (r: Result<PathBuf, ConfigError>)
        ensures
            r is Ok <==> base is Some,
            r matches Err(e) ==> e is NotFound,
    {
        match Self::config_dir_in(base) {
            Ok(dir) => Ok(join_path(&dir, "config.toml")),
            Err(e) => Err(e),
        }
    }
}

/// The value of a decimal digit; `None` for any other character.
pub open spec fn decimal_digit(c: char) -> Option<int> {
    if '0' <= c <= '9' {
        Some(c as int - '0' as int)
    } else {
        None
    }
}

/// Every character is a decimal digit.
pub open spec fn all_digits(digits: Seq<char>) -> bool {
    forall|i: int| 0 <= i < digits.len() ==> decimal_digit(#[trigger] digits[i]) is Some
}

/// The number that decimal digits write, the first digit weighing most.
pub open spec fn decimal_value(digits: Seq<char>) -> int
    decreases digits.len(),
{
    if digits.len() == 0 {
        0
    } else {
        decimal_value(digits.drop_last()) * 10 + decimal_digit(digits.last()).unwrap()
    }
}

/// The number that a text writes: decimal digits, one at least, with or
/// without a `+` before them, that come to no more than 64 bits hold;
/// `None` for any other text.
pub open spec fn parsed_count(text: Seq<char>) -> Option<u64> {
    let digits = if text.len() > 0 && text[0] == '+' {
        text.skip(1)
    } else {
        text
    };
    if digits.len() > 0 && all_digits(digits) && decimal_value(digits) <= u64::MAX {
        Some(decimal_value(digits) as u64)
    } else {
        None
    }
}

/// `str::parse::<u64>` of std. The contract claims what std documents: the
/// text is read as a number where it is an optional `+` and then digits
/// only, and the number fits; every other text, the empty one and one with
/// blanks among them, is refused.
#[verifier::external_body]
fn parse_count(text: &str) -> (count: Option<u64>)
    ensures
        count == parsed_count(text@),
{
    text.parse::<u64>().ok()
}

/// The most records that the history holds where the user has named no number.
pub const DEFAULT_MAX_HISTORY_RECORDS: usize = 100;

/// The number of records that the history holds, as contracts say it: the
/// number that was read from what the user typed, or the default where none
/// was read or the number is beyond what this machine can count.
pub open spec fn max_history_of(typed: Option<u64>) -> usize {
    match typed {
        Some(count) => if count <= usize::MAX {
            count as usize
        } else {
            DEFAULT_MAX_HISTORY_RECORDS
        },
        None => DEFAULT_MAX_HISTORY_RECORDS,
    }
}

/// The number of records that the history holds: the number that was read
/// from what the user typed, or the default where none was read.
pub fn max_history_or_default(typed: Option<u64>) -> (max: usize)
    ensures
        max == max_history_of(typed),
{
    match typed {
        Some(count) => if count <= usize::MAX as u64 {
            count as usize
        } else {
            DEFAULT_MAX_HISTORY_RECORDS
        },
        None => DEFAULT_MAX_HISTORY_RECORDS,
    }
}

/// The number of records that the user asks the history to hold: the number
/// that was typed, or the default where what was typed is no number.
pub fn max_history_from_input(input: &str) -> (max: usize)
    ensures
        max == max_history_of(parsed_count(input@)),
{
    max_history_or_default(parse_count(input))
}

/// The theme at a place of the list of themes: light, dark, and for every
/// other place the system's.
pub fn theme_at(index: usize) -> (theme: AppTheme)
    ensures
        theme == (if index == 0 {
            AppTheme::Light
        } else if index == 1 {
            AppTheme::Dark
        } else {
            AppTheme::System
        }),
{
    if index == 0 {
        AppTheme::Light
    } else if index == 1 {
        AppTheme::Dark
    } else {
        AppTheme::System
    }
}

/// The place of a theme in the list of themes.
pub fn theme_index(theme: AppTheme) -> (index: usize)
    ensures
        index < 3,
        index == match theme {
            AppTheme::Light => 0usize,
            AppTheme::Dark => 1usize,
            AppTheme::System => 2usize,
        },
{
    match theme {
        AppTheme::Light => 0,
        AppTheme::Dark => 1,
        AppTheme::System => 2,
    }
}

/// The language at a place of the list of languages; the default language
/// where the list has no such place.
pub fn language_at(index: usize) -> (language: Language)
    ensures
        language == (if index == 1 {
            Language::ChineseSimplified
        } else {
            Language::English
        }),
{
    let languages = Language::all();
    if index < languages.len() {
        languages[index]
    } else {
        Language::English
    }
}

/// The place of a language in the list of languages.
pub fn language_index(language: Language) -> (index: usize)
    ensures
        index == match language {
            Language::English => 0usize,
            Language::ChineseSimplified => 1usize,
        },
{
    match language {
        Language::English => 0,
        Language::ChineseSimplified => 1,
    }
}

/// The activation key that the settings take from what the user typed, and
/// whether what was typed was refused.
#[derive(Debug)]
pub struct ActivationKey {
    /// The key that the settings take.
    pub key: String,
    /// Something was typed that is no hotkey.
    pub refused: bool,
}

/// The activation key that the settings start with.
pub open spec fn default_activation_key() -> Seq<char> {
    "control+shift+d"@
}

/// Decides the activation key from what the user typed. Nothing typed keeps
/// the key that is set, or takes the default where none is set. Something
/// typed that is a hotkey is taken; something typed that is none is refused,
/// and the default taken in its place.
pub fn settle_activation_key(input: &str, current: &str, input_is_hotkey: bool) -> (settled:
    ActivationKey)
    ensures
        settled.refused == (input@.len() > 0 && !input_is_hotkey),
        settled.key@ == (if input@.len() == 0 {
            if current@.len() == 0 {
                default_activation_key()
            } else {
                current@
            }
        } else if input_is_hotkey {
            input@
        } else {
            default_activation_key()
        }),
{
    if input.is_empty() {
        if current.is_empty() {
            ActivationKey { key: String::from_str("control+shift+d"), refused: false }
        } else {
            ActivationKey { key: String::from_str(current), refused: false }
        }
    } else if !input_is_hotkey {
        ActivationKey { key: String::from_str("control+shift+d"), refused: true }
    } else {
        ActivationKey { key: String::from_str(input), refused: false }
    }
}

} // verus!
