//! What the user can set, and what holds where nothing was set.

use crate::text::{blank, law_blank_means_white_space, trim, white_space};
use vstd::prelude::*;

verus! {

/// The settings.
#[derive(Debug)]
pub struct Config {
    /// The key for Groq. Empty until the user has entered one.
    pub api_key: String,
    /// The global shortcut, such as `Alt+R`.
    pub shortcut: String,
    /// Whether a second stage polishes the punctuation.
    pub polish: bool,
    /// The language that is dictated.
    pub language: String,
}

/// [`Config`], with texts as sequences of characters.
#[verifier::ext_equal]
pub struct ConfigView {
    pub api_key: Seq<char>,
    pub shortcut: Seq<char>,
    pub polish: bool,
    pub language: Seq<char>,
}

impl View for Config {
    type V = ConfigView;

    open spec fn view(&self) -> ConfigView {
        ConfigView {
            api_key: self.api_key@,
            shortcut: self.shortcut@,
            polish: self.polish,
            language: self.language@,
        }
    }
}

impl ConfigView {
    /// What holds where nothing was set.
    pub open spec fn initial() -> Self {
        ConfigView {
            api_key: Seq::empty(),
            shortcut: "Alt+R"@,
            polish: true,
            language: "es"@,
        }
    }

    /// There is a key to use.
    pub open spec fn has_key(self) -> bool {
        !blank(self.api_key)
    }
}

/// The shortcut where none was set.
pub fn default_shortcut() -> (r: String)
    ensures
        r@ == "Alt+R"@,
{
    "Alt+R".to_string()
}

/// Polishing is on where nothing was set.
pub fn default_true() -> (r: bool)
    ensures
        r,
{
    true
}

/// The language where none was set.
pub fn default_language() -> (r: String)
    ensures
        r@ == "es"@,
{
    "es".to_string()
}

impl Default for Config {
    fn default() -> (r: Self)
        ensures
            r@ == ConfigView::initial(),
    {
        Config {
            api_key: String::new(),
            shortcut: default_shortcut(),
            polish: default_true(),
            language: default_language(),
        }
    }
}

impl Clone for Config {
    fn clone(&self) -> (r: Self)
        ensures
            r == *self,
    {
        Config {
            api_key: self.api_key.clone(),
            shortcut: self.shortcut.clone(),
            polish: self.polish,
            language: self.language.clone(),
        }
    }
}

impl Config {
    /// Whether there is a key to use.
    pub fn has_key(&self) -> (r: bool)
        ensures
            r == self@.has_key(),
    {
        !trim(self.api_key.as_str()).is_empty()
    }
}

/// The settings to start with: the stored ones, where some could be read, and else the initial
/// ones.
pub fn load(stored: Option<Config>) -> (r: Config)
    ensures
        r@ == match stored {
            Some(config) => config@,
            None => ConfigView::initial(),
        },
{
    match stored {
        Some(config) => config,
        None => Config::default(),
    }
}

/// There is a key exactly when something other than white space was entered.
pub proof fn law_a_key_is_not_blank(config: ConfigView)
    ensures
        config.has_key() <==> exists|i: int|
            0 <= i < config.api_key.len() && !white_space(#[trigger] config.api_key[i]),
{
    law_blank_means_white_space(config.api_key);
}

/// Where nothing was set there is no key, polishing is on, and Spanish is dictated with `Alt+R`.
pub proof fn law_what_holds_where_nothing_was_set()
    ensures
        !ConfigView::initial().has_key(),
        ConfigView::initial().api_key.len() == 0,
        ConfigView::initial().polish,
        ConfigView::initial().language == "es"@,
        ConfigView::initial().shortcut == "Alt+R"@,
{
    law_a_key_is_not_blank(ConfigView::initial());
}

/// All four settings are seen as they are.
pub proof fn law_settings_are_seen_whole(config: Config)
    ensures
        config@.api_key == config.api_key@,
        config@.shortcut == config.shortcut@,
        config@.polish == config.polish,
        config@.language == config.language@,
{
}

} // verus!
