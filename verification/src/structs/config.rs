//! The persisted configuration: where to look, where to publish, and the message table.

use vstd::prelude::*;

verus! {

/// The persisted configuration.
#[derive(Clone, Debug)]
pub struct SenderConfig {
    /// The name of the game server to look up.
    pub server_name: String,
    /// The game whose statistics source is polled.
    pub game: Games,
    /// The token with which to log in to the chat platform.
    pub token: String,
    /// The channel to publish in; zero while unset.
    pub channel: u64,
    /// The message table: the handle of the title message, then two per team.
    pub messages: Vec<u64>,
}

impl Default for SenderConfig {
    /// The configuration to fall back to: nothing set, no messages, the first game.
    fn default() -> (cfg: SenderConfig)
        ensures
            cfg.is_blank(),
    {
        proof {
            reveal_strlit("bf1");
        }
        SenderConfig {
            server_name: String::new(),
            token: String::new(),
            channel: 0,
            messages: Vec::new(),
            game: Games::from("bf1"),
        }
    }
}

/// A required field of the configuration that is not set.
#[derive(Clone, Copy, Debug, PartialEq, Eq, Structural)]
pub enum ConfigProblem {
    ServerNameUnset,
    TokenUnset,
    ChannelUnset,
}

impl SenderConfig {
    /// Whether nothing is set: the configuration that a failed load falls back to.
    pub open spec fn is_blank(self) -> bool {
        &&& self.server_name@.len() == 0
        &&& self.token@.len() == 0
        &&& self.channel == 0
        &&& self.messages@.len() == 0
        &&& self.game == Games::Bf1
    }

    /// The required fields that are not set, each judged by itself: the server name, the
    /// token, the channel, in this order.
    pub open spec fn problems_of(self) -> Seq<ConfigProblem> {
        (if self.server_name@.len() == 0 {
            seq![ConfigProblem::ServerNameUnset]
        } else {
            Seq::empty()
        }) + (if self.token@.len() == 0 {
            seq![ConfigProblem::TokenUnset]
        } else {
            Seq::empty()
        }) + (if self.channel == 0 {
            seq![ConfigProblem::ChannelUnset]
        } else {
            Seq::empty()
        })
    }

    /// What came of loading the configuration: the loaded one, or the blank one if loading
    /// failed.
    pub fn loaded_or_default(loaded: Option<SenderConfig>) -> (cfg: SenderConfig)
        ensures
            loaded matches Some(stored) ==> cfg == stored,
            loaded is None ==> cfg.is_blank(),
    {
        match loaded {
            Some(stored) => stored,
            None => SenderConfig::default(),
        }
    }

    /// Lists the required fields that are not set. None of them keeps the process from
    /// starting; they are for the operator to mend.
    pub fn problems(&self) -> (found: Vec<ConfigProblem>)
        ensures
            found@ == self.problems_of(),
    {
        let mut found: Vec<ConfigProblem> = Vec::new();
        if self.server_name.as_str().unicode_len() == 0 {
            found.push(ConfigProblem::ServerNameUnset);
        }
        if self.token.as_str().unicode_len() == 0 {
            found.push(ConfigProblem::TokenUnset);
        }
        if self.channel == 0 {
            found.push(ConfigProblem::ChannelUnset);
        }
        found
    }

    /// The configuration with the message table replaced by `messages`.
    pub fn with_messages(self, messages: Vec<u64>) -> (cfg: SenderConfig)
        ensures
            cfg.messages == messages,
            cfg.server_name == self.server_name,
            cfg.game == self.game,
            cfg.token == self.token,
            cfg.channel == self.channel,
    {
        SenderConfig {
            server_name: self.server_name,
            game: self.game,
            token: self.token,
            channel: self.channel,
            messages,
        }
    }
}

/// The game whose statistics source is polled.
#[derive(Clone, Copy, Debug, PartialEq, Eq, Structural)]
pub enum Games {
    Bf4,
    Bf1,
}

/// The characters of the selector that picks [`Games::Bf4`].
pub open spec fn bf4_selector() -> Seq<char> {
    seq!['b', 'f', '4']
}

impl Games {
    /// The game named by a selector: `bf4` picks [`Games::Bf4`], anything else [`Games::Bf1`].
    pub open spec fn of(input: Seq<char>) -> Games {
        if input == bf4_selector() {
            Games::Bf4
        } else {
            Games::Bf1
        }
    }

    /// Reads a game selector; an unknown selector falls back to [`Games::Bf1`].
    pub fn from(input: &str) -> (game: Games)
        ensures
            game == Games::of(input@),
    {
        proof {
            reveal_strlit("bf4");
            assert("bf4"@ =~= bf4_selector());
        }
        if input.to_owned() == "bf4".to_owned() {
            Games::Bf4
        } else {
            Games::Bf1
        }
    }
}

} // verus!
