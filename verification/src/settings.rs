//! The operator's settings, and what a request for traffic falls back on
//! where it leaves something out.

use crate::text::{is_number, number_value, parse_unsigned, without_plus};
use vstd::prelude::*;

verus! {

/// The port of a request that names none, where none is configured either.
pub const FALLBACK_PORT: u16 = 80;

/// The duration in seconds of a request that names none, where none is
/// configured either.
pub const FALLBACK_DURATION: u64 = 10;

/// The text of an optional string.
pub open spec fn text_of(value: Option<String>) -> Option<Seq<char>> {
    match value {
        Some(s) => Some(s@),
        None => None,
    }
}

/// The operator's settings. Each may be absent.
#[derive(Clone, Debug, PartialEq, Eq)]
pub struct Config {
    pub telegram_token: Option<String>,
    pub telegram_chat_id: Option<String>,
    pub default_target: Option<String>,
    pub default_port: Option<u16>,
    pub traffic_duration: Option<u64>,
}

/// Why no alert can be sent.
#[derive(Clone, Copy, Debug, PartialEq, Eq, Structural)]
pub enum AlertError {
    /// No token is configured.
    TokenMissing,
    /// A token is configured, but no chat.
    ChatIdMissing,
}

/// A request for traffic with every gap filled.
#[derive(Clone, Debug, PartialEq, Eq)]
pub struct TrafficRequest {
    pub target: String,
    pub port: u16,
    pub duration: u64,
}

/// The text of an optional string slice.
pub open spec fn slice_text(value: Option<&str>) -> Option<Seq<char>> {
    match value {
        Some(s) => Some(s@),
        None => None,
    }
}

/// The port that `text` writes, if it writes one.
pub open spec fn port_in(text: Option<Seq<char>>) -> Option<u16> {
    match number_in(text, u16::MAX as nat) {
        Some(n) => Some(n as u16),
        None => None,
    }
}

/// The duration that `text` writes, if it writes one.
pub open spec fn duration_in(text: Option<Seq<char>>) -> Option<u64> {
    match number_in(text, u64::MAX as nat) {
        Some(n) => Some(n as u64),
        None => None,
    }
}

/// What `text` says as a number of at most `max`, if it says one.
pub open spec fn number_in(text: Option<Seq<char>>, max: nat) -> Option<nat> {
    match text {
        Some(t) => if is_number(without_plus(t), 10) && number_value(without_plus(t), 10) <= max {
            Some(number_value(without_plus(t), 10))
        } else {
            None
        },
        None => None,
    }
}

impl Default for Config {
    /// The settings of a first start: port 80 and ten seconds, nothing else.
    fn default() -> (config: Config)
        ensures
            config.telegram_token is None,
            config.telegram_chat_id is None,
            config.default_target is None,
            config.default_port == Some(FALLBACK_PORT),
            config.traffic_duration == Some(FALLBACK_DURATION),
    {
        Config {
            telegram_token: None,
            telegram_chat_id: None,
            default_target: None,
            default_port: Some(FALLBACK_PORT),
            traffic_duration: Some(FALLBACK_DURATION),
        }
    }
}

impl Config {
    /// The port of a request that names `requested`, or nothing.
    pub open spec fn port_for(self, requested: Option<u16>) -> u16 {
        match requested {
            Some(port) => port,
            None => match self.default_port {
                Some(port) => port,
                None => FALLBACK_PORT,
            },
        }
    }

    /// The duration of a request that names `requested`, or nothing.
    pub open spec fn duration_for(self, requested: Option<u64>) -> u64 {
        match requested {
            Some(duration) => duration,
            None => match self.traffic_duration {
                Some(duration) => duration,
                None => FALLBACK_DURATION,
            },
        }
    }

    /// The target of a request that names `requested`, or nothing.
    pub open spec fn target_for(self, requested: Option<Seq<char>>) -> Option<Seq<char>> {
        match requested {
            Some(target) => Some(target),
            None => text_of(self.default_target),
        }
    }

    /// The port to use: the requested one, else the configured one, else 80.
    pub fn port_or_default(&self, requested: Option<u16>) -> (port: u16)
        ensures
            port == self.port_for(requested),
    {
        match requested {
            Some(port) => port,
            None => match self.default_port {
                Some(port) => port,
                None => FALLBACK_PORT,
            },
        }
    }

    /// The duration to use: the requested one, else the configured one, else
    /// ten seconds.
    pub fn duration_or_default(&self, requested: Option<u64>) -> (duration: u64)
        ensures
            duration == self.duration_for(requested),
    {
        match requested {
            Some(duration) => duration,
            None => match self.traffic_duration {
                Some(duration) => duration,
                None => FALLBACK_DURATION,
            },
        }
    }

    /// The target to use: the requested one, else the configured one, if any.
    pub fn target_or_default(&self, requested: Option<&str>) -> (target: Option<String>)
        ensures
            text_of(target) == self.target_for(slice_text(requested)),
    {
        match requested {
            Some(target) => Some(target.to_owned()),
            None => match &self.default_target {
                Some(target) => Some(target.clone()),
                None => None,
            },
        }
    }

    /// Fills the gaps of a request made when the program starts. A port or a
    /// duration that is no number counts as left out. Without a target,
    /// requested or configured, there is no request.
    pub fn startup_request(
        &self,
        target: Option<&str>,
        port: Option<&str>,
        duration: Option<&str>,
    ) -> (request: Option<TrafficRequest>)
        ensures
            request is Some <==> self.target_for(slice_text(target)) is Some,
            request matches Some(r) ==> {
                &&& Some(r.target@) == self.target_for(slice_text(target))
                &&& r.port == self.port_for(port_in(slice_text(port)))
                &&& r.duration == self.duration_for(duration_in(slice_text(duration)))
            },
    {
        let target = match self.target_or_default(target) {
            Some(target) => target,
            None => {
                return None;
            },
        };
        let port: Option<u16> = match port {
            Some(text) => match parse_unsigned(text, 65535) {
                Some(n) => Some(n as u16),
                None => None,
            },
            None => None,
        };
        let duration: Option<u64> = match duration {
            Some(text) => parse_unsigned(text, u64::MAX),
            None => None,
        };
        Some(
            TrafficRequest {
                target,
                port: self.port_or_default(port),
                duration: self.duration_or_default(duration),
            },
        )
    }

    /// Sets the token of the alert channel.
    pub fn set_telegram_token(&mut self, token: &str)
        ensures
            text_of(final(self).telegram_token) == Some(token@),
            final(self).telegram_chat_id == old(self).telegram_chat_id,
            final(self).default_target == old(self).default_target,
            final(self).default_port == old(self).default_port,
            final(self).traffic_duration == old(self).traffic_duration,
    {
        self.telegram_token = Some(token.to_owned());
    }

    /// Sets the chat of the alert channel.
    pub fn set_telegram_chat_id(&mut self, chat_id: &str)
        ensures
            text_of(final(self).telegram_chat_id) == Some(chat_id@),
            final(self).telegram_token == old(self).telegram_token,
            final(self).default_target == old(self).default_target,
            final(self).default_port == old(self).default_port,
            final(self).traffic_duration == old(self).traffic_duration,
    {
        self.telegram_chat_id = Some(chat_id.to_owned());
    }

    /// The token and the chat of the alert channel, where both are
    /// configured. A missing token is named before a missing chat.
    pub fn alert_credentials(&self) -> (credentials: Result<(String, String), AlertError>)
        ensures
            match credentials {
                Ok((token, chat_id)) => Some(token) == self.telegram_token && Some(chat_id)
                    == self.telegram_chat_id,
                Err(AlertError::TokenMissing) => self.telegram_token is None,
                Err(AlertError::ChatIdMissing) => self.telegram_token is Some
                    && self.telegram_chat_id is None,
            },
    {
        let token = match &self.telegram_token {
            Some(token) => token.clone(),
            None => {
                return Err(AlertError::TokenMissing);
            },
        };
        let chat_id = match &self.telegram_chat_id {
            Some(chat_id) => chat_id.clone(),
            None => {
                return Err(AlertError::ChatIdMissing);
            },
        };
        Ok((token, chat_id))
    }
}

impl AlertError {
    /// The message for the operator.
    pub fn message(&self) -> (text: &'static str)
        ensures
            text@ == match *self {
                AlertError::TokenMissing => "Telegram token not configured"@,
                AlertError::ChatIdMissing => "Telegram chat ID not configured"@,
            },
    {
        match self {
            AlertError::TokenMissing => "Telegram token not configured",
            AlertError::ChatIdMissing => "Telegram chat ID not configured",
        }
    }
}

} // verus!
