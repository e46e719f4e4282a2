//! The commands of the text shell: what a line asks for.

use vstd::prelude::*;
use vstd::string::*;
use crate::facet::{join_lines, joined};
use crate::text::{same_text, split_words, spans_of, texts_of, words_spec};

verus! {

/// What a command line asks for.
#[derive(Clone, Copy, Debug, PartialEq, Eq, Structural)]
pub enum CommandAction {
    /// An empty line: nothing to do and nothing to say.
    Nothing,
    /// Show the help text.
    Help,
    /// Show the system information.
    Sysinfo,
    /// Ask the world model for a prediction.
    Predict,
    /// Ask the world model to look at itself.
    Introspect,
    /// Turn online learning on or off.
    SetLearning(bool),
    /// Have the model's weights saved.
    SaveWeights,
    /// Clear the output.
    Clear,
    /// Leave the shell.
    Quit,
    /// Hand the whole line to the system shell.
    Shell,
    /// The world model is needed for a prediction and is not there.
    PredictOffline,
    /// The world model is needed and is not there.
    Offline,
    /// The learning command was not understood.
    LearningUsage,
    /// The weights command was not understood.
    WeightsUsage,
}

/// The word of a line that span number `k` marks, or nothing where there
/// are not so many words.
pub open spec fn word_at(line: Seq<char>, k: int) -> Option<Seq<char>> {
    let words = words_spec(line);
    if 0 <= k < words.len() {
        Some(line.subrange(words[k].0, words[k].1))
    } else {
        None
    }
}

/// What a line asks for, by its first word and, for two commands, its
/// second. Anything that is no command of the shell goes to the system
/// shell.
pub open spec fn command_spec(line: Seq<char>, connected: bool) -> CommandAction {
    match word_at(line, 0) {
        None => CommandAction::Nothing,
        Some(first) => if first == "help"@ {
            CommandAction::Help
        } else if first == "sysinfo"@ {
            CommandAction::Sysinfo
        } else if first == "predict"@ {
            if connected {
                CommandAction::Predict
            } else {
                CommandAction::PredictOffline
            }
        } else if first == "introspect"@ {
            if connected {
                CommandAction::Introspect
            } else {
                CommandAction::Offline
            }
        } else if first == "learning"@ {
            match word_at(line, 1) {
                None => CommandAction::LearningUsage,
                Some(second) => if second == "on"@ || second == "enable"@ {
                    CommandAction::SetLearning(true)
                } else if second == "off"@ || second == "disable"@ {
                    CommandAction::SetLearning(false)
                } else {
                    CommandAction::LearningUsage
                },
            }
        } else if first == "weights"@ {
            if word_at(line, 1) == Some("save"@) {
                CommandAction::SaveWeights
            } else {
                CommandAction::WeightsUsage
            }
        } else if first == "clear"@ {
            CommandAction::Clear
        } else if first == "exit"@ || first == "quit"@ {
            CommandAction::Quit
        } else {
            CommandAction::Shell
        },
    }
}

/// What there is to say where an action is an answer in itself.
pub open spec fn reply_spec(action: CommandAction) -> Option<Seq<char>> {
    match action {
        CommandAction::Nothing => Some(""@),
        CommandAction::PredictOffline => Some(
            "Aurora AI is offline. Start cfcd on host for predictions."@,
        ),
        CommandAction::Offline => Some("Aurora AI is offline."@),
        CommandAction::LearningUsage => Some("Usage: learning on|off"@),
        CommandAction::WeightsUsage => Some("Usage: weights save"@),
        CommandAction::Clear => Some("__CLEAR__"@),
        CommandAction::Quit => Some("__QUIT__"@),
        _ => None,
    }
}

/// Decides what a command line asks for. `connected` says whether the
/// world model can be reached.
pub fn decide(line: &str, connected: bool) -> (action: CommandAction)
    ensures
        action == command_spec(line@, connected),
{
    let words = split_words(line);
    assert(spans_of(words@).len() == words@.len());
    if words.len() == 0 {
        return CommandAction::Nothing;
    }
    let span = words[0];
    assert(spans_of(words@)[0] == (span.0 as int, span.1 as int));
    let first: &str = line.substring_char(span.0, span.1);
    if same_text(first, "help") {
        CommandAction::Help
    } else if same_text(first, "sysinfo") {
        CommandAction::Sysinfo
    } else if same_text(first, "predict") {
        if connected {
            CommandAction::Predict
        } else {
            CommandAction::PredictOffline
        }
    } else if same_text(first, "introspect") {
        if connected {
            CommandAction::Introspect
        } else {
            CommandAction::Offline
        }
    } else if same_text(first, "learning") {
        if words.len() < 2 {
            return CommandAction::LearningUsage;
        }
        let span = words[1];
        assert(spans_of(words@)[1] == (span.0 as int, span.1 as int));
        let second: &str = line.substring_char(span.0, span.1);
        if same_text(second, "on") || same_text(second, "enable") {
            CommandAction::SetLearning(true)
        } else if same_text(second, "off") || same_text(second, "disable") {
            CommandAction::SetLearning(false)
        } else {
            CommandAction::LearningUsage
        }
    } else if same_text(first, "weights") {
        if words.len() < 2 {
            return CommandAction::WeightsUsage;
        }
        let span = words[1];
        assert(spans_of(words@)[1] == (span.0 as int, span.1 as int));
        let second: &str = line.substring_char(span.0, span.1);
        if same_text(second, "save") {
            CommandAction::SaveWeights
        } else {
            CommandAction::WeightsUsage
        }
    } else if same_text(first, "clear") {
        CommandAction::Clear
    } else if same_text(first, "exit") || same_text(first, "quit") {
        CommandAction::Quit
    } else {
        CommandAction::Shell
    }
}

/// What there is to say where an action is an answer in itself.
pub fn reply(action: CommandAction) -> (text: Option<&'static str>)
    ensures
        text is Some <==> reply_spec(action) is Some,
        text matches Some(t) ==> Some(t@) == reply_spec(action),
{
    match action {
        CommandAction::Nothing => Some(""),
        CommandAction::PredictOffline => Some(
            "Aurora AI is offline. Start cfcd on host for predictions.",
        ),
        CommandAction::Offline => Some("Aurora AI is offline."),
        CommandAction::LearningUsage => Some("Usage: learning on|off"),
        CommandAction::WeightsUsage => Some("Usage: weights save"),
        CommandAction::Clear => Some("__CLEAR__"),
        CommandAction::Quit => Some("__QUIT__"),
        _ => None,
    }
}

/// The lines of the help text.
pub open spec fn help_lines() -> Seq<Seq<char>> {
    seq![
        "╔══════════════════════════════════════════╗"@,
        "║       NEBULA SHELL — AETHER OS v0.3      ║"@,
        "╠══════════════════════════════════════════╣"@,
        "║ System                                    ║"@,
        "║   sysinfo     System status dashboard     ║"@,
        "║   ps          Running processes           ║"@,
        "║   free        Memory usage                ║"@,
        "║   df          Disk usage                  ║"@,
        "║   dmesg       Kernel messages             ║"@,
        "║                                            ║"@,
        "║ AI / Aurora                                ║"@,
        "║   predict     Run CFC-JEPA prediction     ║"@,
        "║   introspect  Model introspection          ║"@,
        "║   learning on/off  Toggle online learning ║"@,
        "║   weights save     Save model weights     ║"@,
        "║                                            ║"@,
        "║ Files & Network                            ║"@,
        "║   ls, cat, cp, mv, rm, mkdir              ║"@,
        "║   ip addr, ping, wget                     ║"@,
        "║                                            ║"@,
        "║ Shell                                      ║"@,
        "║   clear       Clear output                ║"@,
        "║   exit        Exit Nebula                 ║"@,
        "║                                            ║"@,
        "║ Navigation: ↑↓ history, PgUp/PgDn scroll  ║"@,
        "╚══════════════════════════════════════════╝"@,
    ]
}

/// The help text.
pub fn help_text() -> (text: String)
    ensures
        text@ == joined(help_lines()),
{
    let mut lines: Vec<String> = Vec::new();
    lines.push(String::from_str("╔══════════════════════════════════════════╗"));
    lines.push(String::from_str("║       NEBULA SHELL — AETHER OS v0.3      ║"));
    lines.push(String::from_str("╠══════════════════════════════════════════╣"));
    lines.push(String::from_str("║ System                                    ║"));
    lines.push(String::from_str("║   sysinfo     System status dashboard     ║"));
    lines.push(String::from_str("║   ps          Running processes           ║"));
    lines.push(String::from_str("║   free        Memory usage                ║"));
    lines.push(String::from_str("║   df          Disk usage                  ║"));
    lines.push(String::from_str("║   dmesg       Kernel messages             ║"));
    lines.push(String::from_str("║                                            ║"));
    lines.push(String::from_str("║ AI / Aurora                                ║"));
    lines.push(String::from_str("║   predict     Run CFC-JEPA prediction     ║"));
    lines.push(String::from_str("║   introspect  Model introspection          ║"));
    lines.push(String::from_str("║   learning on/off  Toggle online learning ║"));
    lines.push(String::from_str("║   weights save     Save model weights     ║"));
    lines.push(String::from_str("║                                            ║"));
    lines.push(String::from_str("║ Files & Network                            ║"));
    lines.push(String::from_str("║   ls, cat, cp, mv, rm, mkdir              ║"));
    lines.push(String::from_str("║   ip addr, ping, wget                     ║"));
    lines.push(String::from_str("║                                            ║"));
    lines.push(String::from_str("║ Shell                                      ║"));
    lines.push(String::from_str("║   clear       Clear output                ║"));
    lines.push(String::from_str("║   exit        Exit Nebula                 ║"));
    lines.push(String::from_str("║                                            ║"));
    lines.push(String::from_str("║ Navigation: ↑↓ history, PgUp/PgDn scroll  ║"));
    lines.push(String::from_str("╚══════════════════════════════════════════╝"));
    assert(texts_of(lines@) =~= help_lines());
    join_lines(&lines)
}

} // verus!
