//! The operator's command line: its words, and the command they ask for.

use crate::settings::{duration_in, port_in, Config};
use crate::text::{bounds_within, chars_of, fields_of, parse_unsigned};
use vstd::prelude::*;
use vstd::string::StrSliceExecFns;

verus! {

/// Whether `c` is white space.
pub open spec fn is_space(c: char) -> bool {
    ||| '\u{9}' <= c && c <= '\u{d}'
    ||| c == ' '
    ||| c == '\u{85}'
    ||| c == '\u{a0}'
    ||| c == '\u{1680}'
    ||| '\u{2000}' <= c && c <= '\u{200a}'
    ||| c == '\u{2028}'
    ||| c == '\u{2029}'
    ||| c == '\u{202f}'
    ||| c == '\u{205f}'
    ||| c == '\u{3000}'
}

/// The words of `s`: its longest pieces without white space, in order.
pub open spec fn words(s: Seq<char>) -> Seq<Seq<char>>
    decreases s.len(),
{
    if s.len() == 0 {
        Seq::<Seq<char>>::empty()
    } else {
        let before = words(s.drop_last());
        if is_space(s.last()) {
            before
        } else if s.len() >= 2 && !is_space(s[s.len() - 2]) {
            before.drop_last().push(before.last().push(s.last()))
        } else {
            before.push(seq![s.last()])
        }
    }
}

/// Whether `s` is not empty and holds no white space.
pub open spec fn is_solid(s: Seq<char>) -> bool {
    s.len() > 0 && forall|i: int| 0 <= i < s.len() ==> !is_space(#[trigger] s[i])
}

/// Every word holds a character and no white space, a text that ends in
/// white space has the words of what stands before it, and one that ends
/// otherwise ends with its last word.
pub proof fn lemma_words_are_solid(s: Seq<char>)
    ensures
        forall|i: int| 0 <= i < words(s).len() ==> is_solid(#[trigger] words(s)[i]),
        s.len() > 0 && !is_space(s.last()) ==> words(s).len() > 0 && words(s).last().last()
            == s.last(),
    decreases s.len(),
{
    if s.len() > 0 {
        lemma_words_are_solid(s.drop_last());
        let before = words(s.drop_last());
        if is_space(s.last()) {
        } else if s.len() >= 2 && !is_space(s[s.len() - 2]) {
            assert(s.drop_last().last() == s[s.len() - 2]);
            let grown = before.last().push(s.last());
            assert(is_solid(before[before.len() - 1]));
            assert(is_solid(grown));
        } else {
            assert(is_solid(seq![s.last()]));
        }
    }
}

/// Whether `c` is white space.
pub fn is_whitespace(c: char) -> (space: bool)
    ensures
        space == is_space(c),
{
    ('\u{9}' <= c && c <= '\u{d}') || c == ' ' || c == '\u{85}' || c == '\u{a0}' || c
        == '\u{1680}' || ('\u{2000}' <= c && c <= '\u{200a}') || c == '\u{2028}' || c
        == '\u{2029}' || c == '\u{202f}' || c == '\u{205f}' || c == '\u{3000}'
}

/// Where each word of `chars` begins and ends.
fn word_bounds(chars: &Vec<char>) -> (bounds: Vec<(usize, usize)>)
    ensures
        bounds_within(bounds@, 0, chars.len() as int),
        fields_of(chars@, bounds@) == words(chars@),
{
    let mut bounds: Vec<(usize, usize)> = Vec::new();
    let mut start: usize = 0;
    let mut inside: bool = false;
    let mut i: usize = 0;
    proof {
        assert(chars@.take(0) =~= Seq::<char>::empty());
        assert(fields_of(chars@, bounds@) =~= words(chars@.take(0)));
    }
    while i < chars.len()
        invariant
            start <= i <= chars.len(),
            bounds_within(bounds@, 0, chars.len() as int),
            inside <==> i > 0 && !is_space(chars@[i - 1]),
            !inside ==> fields_of(chars@, bounds@) == words(chars@.take(i as int)),
            inside ==> words(chars@.take(i as int)).len() > 0 && fields_of(chars@, bounds@)
                == words(chars@.take(i as int)).drop_last() && words(
                chars@.take(i as int),
            ).last() == chars@.subrange(start as int, i as int),
        decreases chars.len() - i,
    {
        let c = chars[i];
        let ghost seen = chars@.take(i as int);
        let ghost next = chars@.take(i + 1);
        let ghost before = bounds@;
        proof {
            assert(next.drop_last() =~= seen);
            assert(next.last() == c);
            if i > 0 {
                assert(next[next.len() - 2] == chars@[i - 1]);
            }
        }
        if is_whitespace(c) {
            if inside {
                bounds.push((start, i));
                proof {
                    assert(fields_of(chars@, bounds@) =~= fields_of(chars@, before).push(
                        chars@.subrange(start as int, i as int),
                    ));
                    assert(words(seen) =~= words(seen).drop_last().push(words(seen).last()));
                }
            }
            inside = false;
        } else {
            if inside {
                proof {
                    assert(chars@.subrange(start as int, i as int).push(c) =~= chars@.subrange(
                        start as int,
                        i + 1,
                    ));
                    assert(words(next).drop_last() =~= words(seen).drop_last());
                }
            } else {
                start = i;
                proof {
                    assert(chars@.subrange(i as int, i + 1) =~= seq![c]);
                    assert(words(next).drop_last() =~= words(seen));
                }
            }
            inside = true;
        }
        i = i + 1;
    }
    proof {
        assert(chars@.take(chars.len() as int) =~= chars@);
    }
    if inside {
        let ghost before = bounds@;
        bounds.push((start, i));
        proof {
            assert(fields_of(chars@, bounds@) =~= fields_of(chars@, before).push(
                chars@.subrange(start as int, i as int),
            ));
            assert(words(chars@) =~= words(chars@).drop_last().push(words(chars@).last()));
        }
    }
    bounds
}

/// The texts of a sequence of strings.
pub open spec fn texts(strings: Seq<String>) -> Seq<Seq<char>> {
    Seq::new(strings.len(), |i: int| strings[i]@)
}

/// The words of `line`.
pub fn words_of(line: &str) -> (found: Vec<String>)
    ensures
        texts(found@) == words(line@),
{
    let chars = chars_of(line);
    let bounds = word_bounds(&chars);
    let mut found: Vec<String> = Vec::new();
    let mut i: usize = 0;
    proof {
        assert(fields_of(chars@, bounds@).len() == bounds.len());
    }
    while i < bounds.len()
        invariant
            i <= bounds.len(),
            chars@ == line@,
            bounds_within(bounds@, 0, chars.len() as int),
            fields_of(chars@, bounds@) == words(line@),
            found.len() == i,
            forall|j: int| 0 <= j < i ==> (#[trigger] found[j])@ == words(line@)[j],
        decreases bounds.len() - i,
    {
        let (from, to) = bounds[i];
        let word = line.substring_char(from, to).to_owned();
        proof {
            assert(fields_of(chars@, bounds@)[i as int] == line@.subrange(from as int, to as int));
        }
        found.push(word);
        i = i + 1;
    }
    proof {
        assert(fields_of(chars@, bounds@).len() == bounds.len());
        assert(texts(found@) =~= words(line@));
    }
    found
}

/// Whether two texts are the same.
pub fn same_text(a: &str, b: &str) -> (same: bool)
    ensures
        same == (a@ == b@),
{
    let left = a.to_owned();
    let right = b.to_owned();
    left == right
}

/// The commands whose argument may be missing.
#[derive(Clone, Copy, Debug, PartialEq, Eq, Structural)]
pub enum Usage {
    Ping,
    Traceroute,
    TelegramToken,
    TelegramChatId,
}

/// What a command line asks for.
#[derive(Clone, Debug, PartialEq, Eq)]
pub enum Command {
    /// Nothing: the line is blank, or the configured target is empty.
    Nothing,
    /// Show the commands.
    Help,
    /// Check whether this host can be reached.
    Ping(String),
    /// Trace the path to this host.
    Traceroute(String),
    /// Show the settings.
    ViewConfig,
    /// Set the token of the alert channel.
    SetTelegramToken(String),
    /// Set the chat of the alert channel.
    SetTelegramChatId(String),
    /// Send a test alert.
    TestTelegram,
    /// Run traffic against a target.
    GenerateTraffic { target: String, port: u16, duration: u64 },
    /// Clear the screen.
    Clear,
    /// Leave.
    Exit,
    /// The command lacks its argument.
    MissingArgument(Usage),
    /// Traffic was asked for without a target, and none is configured.
    NoTarget,
    /// The port is no number from 0 to 65535.
    InvalidPort,
    /// The duration is no number of seconds that fits 64 bits.
    InvalidDuration,
    /// The first word is no command.
    Unknown,
}

/// What a command line asks for, as text.
pub enum CommandModel {
    Nothing,
    Help,
    Ping(Seq<char>),
    Traceroute(Seq<char>),
    ViewConfig,
    SetTelegramToken(Seq<char>),
    SetTelegramChatId(Seq<char>),
    TestTelegram,
    GenerateTraffic { target: Seq<char>, port: u16, duration: u64 },
    Clear,
    Exit,
    MissingArgument(Usage),
    NoTarget,
    InvalidPort,
    InvalidDuration,
    Unknown,
}

impl View for Command {
    type V = CommandModel;

    open spec fn view(&self) -> CommandModel {
        match *self {
            Command::Nothing => CommandModel::Nothing,
            Command::Help => CommandModel::Help,
            Command::Ping(host) => CommandModel::Ping(host@),
            Command::Traceroute(host) => CommandModel::Traceroute(host@),
            Command::ViewConfig => CommandModel::ViewConfig,
            Command::SetTelegramToken(token) => CommandModel::SetTelegramToken(token@),
            Command::SetTelegramChatId(chat_id) => CommandModel::SetTelegramChatId(chat_id@),
            Command::TestTelegram => CommandModel::TestTelegram,
            Command::GenerateTraffic { target, port, duration } => CommandModel::GenerateTraffic {
                target: target@,
                port,
                duration,
            },
            Command::Clear => CommandModel::Clear,
            Command::Exit => CommandModel::Exit,
            Command::MissingArgument(usage) => CommandModel::MissingArgument(usage),
            Command::NoTarget => CommandModel::NoTarget,
            Command::InvalidPort => CommandModel::InvalidPort,
            Command::InvalidDuration => CommandModel::InvalidDuration,
            Command::Unknown => CommandModel::Unknown,
        }
    }
}

/// The word at `i`, if there is one.
pub open spec fn word_at(line: Seq<Seq<char>>, i: int) -> Option<Seq<char>> {
    if 0 <= i < line.len() {
        Some(line[i])
    } else {
        None
    }
}

/// What a request for traffic asks for: `line[1]` is its target, `line[2]`
/// its port and `line[3]` its duration, each of which may be left out. The
/// target is looked at first, then the port, then the duration.
pub open spec fn traffic_command(line: Seq<Seq<char>>, config: Config) -> CommandModel {
    match config.target_for(word_at(line, 1)) {
        None => CommandModel::NoTarget,
        Some(target) => {
            let port = port_in(word_at(line, 2));
            let duration = duration_in(word_at(line, 3));
            if target.len() == 0 {
                CommandModel::Nothing
            } else if line.len() > 2 && port is None {
                CommandModel::InvalidPort
            } else if line.len() > 3 && duration is None {
                CommandModel::InvalidDuration
            } else {
                CommandModel::GenerateTraffic {
                    target,
                    port: config.port_for(port),
                    duration: config.duration_for(duration),
                }
            }
        },
    }
}

/// A command that takes one argument, or the notice that it is missing.
pub open spec fn with_argument(
    line: Seq<Seq<char>>,
    usage: Usage,
    make: spec_fn(Seq<char>) -> CommandModel,
) -> CommandModel {
    if line.len() < 2 {
        CommandModel::MissingArgument(usage)
    } else {
        make(line[1])
    }
}

/// What the words of a line ask for. The first word names the command;
/// words that a command has no use for are passed over.
pub open spec fn command_for(line: Seq<Seq<char>>, config: Config) -> CommandModel {
    if line.len() == 0 {
        CommandModel::Nothing
    } else if line[0] == "help"@ {
        CommandModel::Help
    } else if line[0] == "ping"@ {
        with_argument(line, Usage::Ping, |host: Seq<char>| CommandModel::Ping(host))
    } else if line[0] == "traceroute"@ {
        with_argument(line, Usage::Traceroute, |host: Seq<char>| CommandModel::Traceroute(host))
    } else if line[0] == "view_config"@ {
        CommandModel::ViewConfig
    } else if line[0] == "config_telegram_token"@ {
        with_argument(
            line,
            Usage::TelegramToken,
            |token: Seq<char>| CommandModel::SetTelegramToken(token),
        )
    } else if line[0] == "config_telegram_chat_id"@ {
        with_argument(
            line,
            Usage::TelegramChatId,
            |chat_id: Seq<char>| CommandModel::SetTelegramChatId(chat_id),
        )
    } else if line[0] == "test_telegram"@ {
        CommandModel::TestTelegram
    } else if line[0] == "generate_traffic"@ {
        traffic_command(line, config)
    } else if line[0] == "clear"@ {
        CommandModel::Clear
    } else if line[0] == "exit"@ {
        CommandModel::Exit
    } else {
        CommandModel::Unknown
    }
}

/// What a request for traffic asks for, given the words of its line.
fn traffic_request(line: &Vec<String>, config: &Config) -> (command: Command)
    requires
        line.len() >= 1,
    ensures
        command@ == traffic_command(texts(line@), *config),
{
    let ghost model = texts(line@);
    proof {
        assert(model.len() == line.len());
        if line.len() > 1 {
            assert(model[1] == line[1]@);
        }
        if line.len() > 2 {
            assert(model[2] == line[2]@);
        }
        if line.len() > 3 {
            assert(model[3] == line[3]@);
        }
    }
    let requested: Option<&str> = if line.len() > 1 {
        Some(line[1].as_str())
    } else {
        None
    };
    let target = match config.target_or_default(requested) {
        None => {
            return Command::NoTarget;
        },
        Some(target) => target,
    };
    if target.as_str().unicode_len() == 0 {
        return Command::Nothing;
    }
    let port: Option<u16> = if line.len() > 2 {
        match parse_unsigned(line[2].as_str(), 65535) {
            None => {
                return Command::InvalidPort;
            },
            Some(n) => Some(n as u16),
        }
    } else {
        None
    };
    let duration: Option<u64> = if line.len() > 3 {
        match parse_unsigned(line[3].as_str(), u64::MAX) {
            None => {
                return Command::InvalidDuration;
            },
            Some(n) => Some(n),
        }
    } else {
        None
    };
    Command::GenerateTraffic {
        target,
        port: config.port_or_default(port),
        duration: config.duration_or_default(duration),
    }
}

/// What the operator's line asks for, with the gaps of a request for
/// traffic filled from `config`.
pub fn interpret(line: &str, config: &Config) -> (command: Command)
    ensures
        command@ == command_for(words(line@), *config),
{
    let found = words_of(line);
    let ghost model = texts(found@);
    proof {
        assert(model.len() == found.len());
    }
    if found.len() == 0 {
        return Command::Nothing;
    }
    proof {
        assert(model[0] == found[0]@);
        if found.len() > 1 {
            assert(model[1] == found[1]@);
        }
    }
    let name = found[0].as_str();
    if same_text(name, "help") {
        Command::Help
    } else if same_text(name, "ping") {
        if found.len() < 2 {
            Command::MissingArgument(Usage::Ping)
        } else {
            Command::Ping(found[1].clone())
        }
    } else if same_text(name, "traceroute") {
        if found.len() < 2 {
            Command::MissingArgument(Usage::Traceroute)
        } else {
            Command::Traceroute(found[1].clone())
        }
    } else if same_text(name, "view_config") {
        Command::ViewConfig
    } else if same_text(name, "config_telegram_token") {
        if found.len() < 2 {
            Command::MissingArgument(Usage::TelegramToken)
        } else {
            Command::SetTelegramToken(found[1].clone())
        }
    } else if same_text(name, "config_telegram_chat_id") {
        if found.len() < 2 {
            Command::MissingArgument(Usage::TelegramChatId)
        } else {
            Command::SetTelegramChatId(found[1].clone())
        }
    } else if same_text(name, "test_telegram") {
        Command::TestTelegram
    } else if same_text(name, "generate_traffic") {
        traffic_request(&found, config)
    } else if same_text(name, "clear") {
        Command::Clear
    } else if same_text(name, "exit") {
        Command::Exit
    } else {
        Command::Unknown
    }
}

impl Usage {
    /// How the command is to be written.
    pub fn notice(&self) -> (text: &'static str)
        ensures
            text@ == match *self {
                Usage::Ping => "Usage: ping <ip>"@,
                Usage::Traceroute => "Usage: traceroute <ip>"@,
                Usage::TelegramToken => "Usage: config_telegram_token <token>"@,
                Usage::TelegramChatId => "Usage: config_telegram_chat_id <id>"@,
            },
    {
        match self {
            Usage::Ping => "Usage: ping <ip>",
            Usage::Traceroute => "Usage: traceroute <ip>",
            Usage::TelegramToken => "Usage: config_telegram_token <token>",
            Usage::TelegramChatId => "Usage: config_telegram_chat_id <id>",
        }
    }
}

} // verus!
