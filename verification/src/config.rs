//! The reader's settings and their stored form.

use crate::text::{chars_of, find_first, lemma_split_at_mark, spells};
use vstd::prelude::*;
use vstd::string::*;

verus! {

/// The reader's settings.
#[derive(Clone, Copy, Debug, PartialEq, Eq, Structural)]
pub struct Config {
    /// Keep the reading position of each document between sessions.
    pub save_position: bool,
    /// Keep the most recent document itself between sessions.
    pub cache_book: bool,
}

/// The text of a switch.
pub open spec fn bool_text(on: bool) -> Seq<char> {
    if on {
        "true"@
    } else {
        "false"@
    }
}

/// The switch that a text stands for, if it stands for one.
pub open spec fn bool_of(text: Seq<char>) -> Option<bool> {
    if text == "true"@ {
        Some(true)
    } else if text == "false"@ {
        Some(false)
    } else {
        None
    }
}

/// The stored form of settings: the two switches, a colon between them.
pub open spec fn config_text(config: Config) -> Seq<char> {
    bool_text(config.save_position) + seq![':'] + bool_text(config.cache_book)
}

/// The settings that a stored text holds. The text is split at its first
/// colon; it holds settings where both parts stand for switches.
pub open spec fn config_of(text: Seq<char>) -> Option<Config> {
    match text.index_of_first(':') {
        Some(colon) => match (
            bool_of(text.subrange(0, colon)),
            bool_of(text.subrange(colon + 1, text.len() as int)),
        ) {
            (Some(save_position), Some(cache_book)) => Some(Config { save_position, cache_book }),
            _ => None,
        },
        None => None,
    }
}

/// The settings of a reader that was never set up: positions are kept,
/// documents are not.
pub open spec fn default_config() -> Config {
    Config { save_position: true, cache_book: false }
}

/// The settings to start a session with: those that were stored, or the
/// defaults where nothing usable was stored.
pub open spec fn initial_config(stored: Option<&str>) -> Config {
    match stored {
        Some(text) => match config_of(text@) {
            Some(config) => config,
            None => default_config(),
        },
        None => default_config(),
    }
}

/// Settings that were stored are read back unchanged.
pub proof fn lemma_config_reads_back(config: Config)
    ensures
        config_of(config_text(config)) == Some(config),
{
    reveal_strlit("true");
    reveal_strlit("false");
    lemma_split_at_mark(bool_text(config.save_position), ':', bool_text(config.cache_book));
}

impl Default for Config {
    /// Positions are kept, documents are not.
    fn default() -> (config: Self)
        ensures
            config == default_config(),
    {
        Self { save_position: true, cache_book: false }
    }
}

impl Config {
    /// The stored form of the settings.
    pub fn save(&self) -> (text: String)
        ensures
            text@ == config_text(*self),
    {
        let mut text = String::new();
        text.append(if self.save_position {
            "true"
        } else {
            "false"
        });
        proof {
            reveal_strlit(":");
        }
        text.append(":");
        text.append(if self.cache_book {
            "true"
        } else {
            "false"
        });
        text
    }

    /// Switches the keeping of documents on or off, and says whether the
    /// document that is kept has to go: it has when keeping is switched off.
    pub fn set_cache_book(&mut self, on: bool) -> (discard: bool)
        ensures
            *final(self) == (Config { cache_book: on, ..*old(self) }),
            discard == !on,
    {
        self.cache_book = on;
        !on
    }

    /// Switches the keeping of positions on or off.
    pub fn set_save_position(&mut self, on: bool)
        ensures
            *final(self) == (Config { save_position: on, ..*old(self) }),
    {
        self.save_position = on;
    }
}

/// Reads a switch.
fn read_bool(chars: &Vec<char>, from: usize, to: usize) -> (on: Option<bool>)
    requires
        from <= to <= chars.len(),
    ensures
        on == bool_of(chars@.subrange(from as int, to as int)),
{
    if spells(chars, from, to, "true") {
        Some(true)
    } else if spells(chars, from, to, "false") {
        Some(false)
    } else {
        None
    }
}

/// Reads stored settings. Gives nothing for a text that holds none.
pub fn load(text: &str) -> (config: Option<Config>)
    ensures
        config == config_of(text@),
{
    let chars = chars_of(text);
    match find_first(&chars, ':') {
        Some(colon) => {
            let save_position = read_bool(&chars, 0, colon);
            let cache_book = read_bool(&chars, colon + 1, chars.len());
            match (save_position, cache_book) {
                (Some(save_position), Some(cache_book)) => Some(
                    Config { save_position, cache_book },
                ),
                _ => None,
            }
        },
        None => None,
    }
}

/// The settings to start a session with, `stored` being what the durable
/// store holds for them.
pub fn init(stored: Option<&str>) -> (config: Config)
    ensures
        config == initial_config(stored),
{
    match stored {
        Some(text) => match load(text) {
            Some(config) => config,
            None => Config::default(),
        },
        None => Config::default(),
    }
}

} // verus!
