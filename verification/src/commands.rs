//! Interactive command language: `/add`, `/alert add ...`, `/config set ...`.

use vstd::prelude::*;
use vstd::string::*;
use crate::alerts::AlertDirection;
use crate::cli::ConfigAction;
use crate::fixed::{fixed_value, parse_fixed, parse_u64, uint_value};
use crate::text::{strings_view, split_words, words, lower_seq, to_ascii_lower, str_eq, push_char};

verus! {

/// Target for `/alert clear`.
#[derive(Debug, Clone, Copy, PartialEq, Eq, Structural)]
pub enum ClearTarget {
    Id(u64),
    All,
}

/// Alert sub-commands. Prices are in units of `10^-8`.
#[derive(Debug, Clone)]
pub enum AlertAction {
    Add { symbol: String, direction: AlertDirection, price: i128 },
    List,
    Clear { target: ClearTarget },
}

/// Interactive commands for the terminal session.
#[derive(Debug, Clone)]
pub enum InteractiveCommand {
    /// Subscribe to symbols
    Add { symbols: Vec<String> },
    /// Unsubscribe from symbols
    Remove { symbols: Vec<String> },
    /// List current subscriptions
    List,
    /// Show session statistics
    Status,
    /// Show details for one symbol
    Show { symbol: String },
    /// Force reconnection and resync
    Reconnect,
    /// Quit the application
    Quit,
    /// Show recent logs
    Logs,
    /// Configuration management
    Config { action: Option<ConfigAction> },
    /// Show interactive help
    Help,
    /// Manage price alerts
    Alert { action: AlertAction },
}

/// Why a command line was not understood.
#[derive(Debug, Clone)]
pub enum CommandError {
    AddUsage,
    RemoveUsage,
    ShowUsage,
    ConfigUsage,
    AlertUsage,
    AlertAddUsage,
    AlertClearUsage,
    InvalidDirection(String),
    InvalidPrice(String),
    InvalidAlertId(String),
    UnknownAlertAction(String),
    UnknownCommand(String),
}

/// Words joined by single spaces.
pub open spec fn join_space(ws: Seq<Seq<char>>) -> Seq<char>
    decreases ws.len(),
{
    if ws.len() == 0 {
        Seq::empty()
    } else if ws.len() == 1 {
        ws[0]
    } else {
        join_space(ws.drop_last()) + seq![' '] + ws.last()
    }
}

/// How `/config ...` reads.
pub open spec fn config_result(ws: Seq<Seq<char>>, r: Result<Option<InteractiveCommand>, CommandError>) -> bool {
    if ws.len() == 1 {
        r matches Ok(Some(InteractiveCommand::Config { action: None }))
    } else if ws.len() == 2 && ws[1] == "show"@ {
        r matches Ok(Some(InteractiveCommand::Config { action: Some(ConfigAction::Show) }))
    } else if ws.len() == 2 && ws[1] == "reset"@ {
        r matches Ok(Some(InteractiveCommand::Config { action: Some(ConfigAction::Reset) }))
    } else if ws.len() >= 3 && ws[1] == "set"@ {
        r matches Ok(Some(InteractiveCommand::Config { action: Some(ConfigAction::SetValue { key, value }) }))
            && key@ == ws[2] && value@ == join_space(ws.subrange(3, ws.len() as int))
    } else {
        r matches Err(CommandError::ConfigUsage)
    }
}

/// How `/alert ...` reads.
pub open spec fn alert_result(ws: Seq<Seq<char>>, r: Result<Option<InteractiveCommand>, CommandError>) -> bool {
    if ws.len() < 2 {
        r matches Err(CommandError::AlertUsage)
    } else if ws[1] == "add"@ {
        if ws.len() < 5 {
            r matches Err(CommandError::AlertAddUsage)
        } else if lower_seq(ws[3]) != "above"@ && lower_seq(ws[3]) != "below"@ {
            r matches Err(CommandError::InvalidDirection(d)) && d@ == lower_seq(ws[3])
        } else if fixed_value(ws[4]) is None {
            r matches Err(CommandError::InvalidPrice(p)) && p@ == ws[4]
        } else {
            &&& r matches Ok(Some(InteractiveCommand::Alert { action: AlertAction::Add { symbol, direction, price } }))
            &&& symbol@ == ws[2]
            &&& direction == (if lower_seq(ws[3]) == "above"@ {
                AlertDirection::Above
            } else {
                AlertDirection::Below
            })
            &&& price == fixed_value(ws[4])->0
        }
    } else if ws[1] == "list"@ {
        r matches Ok(Some(InteractiveCommand::Alert { action: AlertAction::List }))
    } else if ws[1] == "clear"@ {
        if ws.len() < 3 {
            r matches Err(CommandError::AlertClearUsage)
        } else if lower_seq(ws[2]) == "all"@ {
            r matches Ok(Some(InteractiveCommand::Alert { action: AlertAction::Clear { target: ClearTarget::All } }))
        } else if uint_value(ws[2]) is Some && uint_value(ws[2])->0 <= u64::MAX {
            r matches Ok(Some(InteractiveCommand::Alert { action: AlertAction::Clear { target: ClearTarget::Id(id) } }))
                && id == uint_value(ws[2])->0
        } else {
            r matches Err(CommandError::InvalidAlertId(s)) && s@ == ws[2]
        }
    } else {
        r matches Err(CommandError::UnknownAlertAction(s)) && s@ == ws[1]
    }
}

/// How an input line reads, word by word.
pub open spec fn command_result(ws: Seq<Seq<char>>, r: Result<Option<InteractiveCommand>, CommandError>) -> bool {
    if ws.len() == 0 {
        r matches Ok(None)
    } else {
        let h = ws[0];
        if h == "/add"@ {
            if ws.len() < 2 {
                r matches Err(CommandError::AddUsage)
            } else {
                r matches Ok(Some(InteractiveCommand::Add { symbols })) && strings_view(symbols@)
                    == ws.drop_first()
            }
        } else if h == "/remove"@ {
            if ws.len() < 2 {
                r matches Err(CommandError::RemoveUsage)
            } else {
                r matches Ok(Some(InteractiveCommand::Remove { symbols })) && strings_view(symbols@)
                    == ws.drop_first()
            }
        } else if h == "/list"@ || h == "pairs"@ {
            r matches Ok(Some(InteractiveCommand::List))
        } else if h == "/show"@ {
            if ws.len() < 2 {
                r matches Err(CommandError::ShowUsage)
            } else {
                r matches Ok(Some(InteractiveCommand::Show { symbol })) && symbol@ == ws[1]
            }
        } else if h == "/status"@ {
            r matches Ok(Some(InteractiveCommand::Status))
        } else if h == "/reconnect"@ || h == "/r"@ {
            r matches Ok(Some(InteractiveCommand::Reconnect))
        } else if h == "/config"@ {
            config_result(ws, r)
        } else if h == "/alert"@ {
            alert_result(ws, r)
        } else if h == "/help"@ || h == "?"@ {
            r matches Ok(Some(InteractiveCommand::Help))
        } else if h == "/logs"@ {
            r matches Ok(Some(InteractiveCommand::Logs))
        } else if h == "/quit"@ || h == "/exit"@ || h == "/q"@ {
            r matches Ok(Some(InteractiveCommand::Quit))
        } else {
            r matches Err(CommandError::UnknownCommand(s)) && s@ == h
        }
    }
}

fn copy_strings(v: &Vec<String>, from: usize) -> (r: Vec<String>)
    requires
        from <= v.len(),
    ensures
        strings_view(r@) == strings_view(v@).subrange(from as int, v@.len() as int),
{
    let mut out: Vec<String> = Vec::new();
    let mut i: usize = from;
    while i < v.len()
        invariant
            from <= i <= v.len(),
            strings_view(out@) == strings_view(v@).subrange(from as int, i as int),
        decreases v.len() - i,
    {
        let ghost before = out@;
        out.push(v[i].clone());
        proof {
            assert(out@ == before.push(v@[i as int]));
            assert(strings_view(out@) =~= strings_view(before).push(v@[i as int]@));
            assert(strings_view(v@).subrange(from as int, i + 1) =~= strings_view(v@).subrange(from as int, i as int).push(v@[i as int]@));
        }
        i = i + 1;
    }
    out
}

fn join_from(v: &Vec<String>, from: usize) -> (r: String)
    requires
        from <= v.len(),
    ensures
        r@ == join_space(strings_view(v@).subrange(from as int, v@.len() as int)),
{
    let mut out = String::new();
    let mut i: usize = from;
    proof {
        assert(strings_view(v@).subrange(from as int, from as int) =~= Seq::<Seq<char>>::empty());
    }
    while i < v.len()
        invariant
            from <= i <= v.len(),
            out@ == join_space(strings_view(v@).subrange(from as int, i as int)),
        decreases v.len() - i,
    {
        let ghost sub = strings_view(v@).subrange(from as int, i + 1);
        proof {
            assert(sub.drop_last() =~= strings_view(v@).subrange(from as int, i as int));
            assert(sub.last() == v@[i as int]@);
        }
        if i > from {
            push_char(&mut out, ' ');
        }
        out.append(v[i].as_str());
        proof {
            if i == from {
                assert(sub.len() == 1);
                assert(out@ =~= sub[0]);
            } else {
                assert(out@ =~= join_space(sub.drop_last()) + seq![' '] + sub.last());
            }
        }
        i = i + 1;
    }
    out
}

fn parse_alert_command(parts: &Vec<String>) -> (r: Result<Option<InteractiveCommand>, CommandError>)
    requires
        parts@.len() >= 1,
    ensures
        alert_result(strings_view(parts@), r),
{
    let ghost ws = strings_view(parts@);
    if parts.len() < 2 {
        return Err(CommandError::AlertUsage);
    }
    proof {
        assert forall|k: int| 0 <= k < parts@.len() implies #[trigger] ws[k] == parts@[k]@ by {}
    }
    let action = parts[1].as_str();
    if str_eq(action, "add") {
        if parts.len() < 5 {
            return Err(CommandError::AlertAddUsage);
        }
        let dir = to_ascii_lower(parts[3].as_str());
        let direction = if str_eq(dir.as_str(), "above") {
            AlertDirection::Above
        } else if str_eq(dir.as_str(), "below") {
            AlertDirection::Below
        } else {
            return Err(CommandError::InvalidDirection(dir));
        };
        let price = match parse_fixed(parts[4].as_str()) {
            Some(p) => p,
            None => {
                return Err(CommandError::InvalidPrice(parts[4].clone()));
            },
        };
        Ok(
            Some(
                InteractiveCommand::Alert {
                    action: AlertAction::Add { symbol: parts[2].clone(), direction, price },
                },
            ),
        )
    } else if str_eq(action, "list") {
        Ok(Some(InteractiveCommand::Alert { action: AlertAction::List }))
    } else if str_eq(action, "clear") {
        if parts.len() < 3 {
            return Err(CommandError::AlertClearUsage);
        }
        let lowered = to_ascii_lower(parts[2].as_str());
        if str_eq(lowered.as_str(), "all") {
            Ok(Some(InteractiveCommand::Alert { action: AlertAction::Clear { target: ClearTarget::All } }))
        } else {
            let parsed = parse_u64(parts[2].as_str());
            proof {
                assert(parts@[2]@ == ws[2]);
            }
            match parsed {
                Some(id) => Ok(
                    Some(
                        InteractiveCommand::Alert {
                            action: AlertAction::Clear { target: ClearTarget::Id(id) },
                        },
                    ),
                ),
                None => Err(CommandError::InvalidAlertId(parts[2].clone())),
            }
        }
    } else {
        Err(CommandError::UnknownAlertAction(parts[1].clone()))
    }
}

/// Reads an interactive command line (see `command_result`); a blank line
/// reads as `Ok(None)`.
pub fn parse_command(input: &str) -> (r: Result<Option<InteractiveCommand>, CommandError>)
    ensures
        command_result(words(input@), r),
{
    let parts = split_words(input);
    proof {
        assert(strings_view(parts@) == words(input@));
    }
    if parts.len() == 0 {
        return Ok(None);
    }
    let head = parts[0].as_str();
    if str_eq(head, "/add") || str_eq(head, "/remove") {
        let is_add = str_eq(head, "/add");
        if parts.len() < 2 {
            return Err(if is_add { CommandError::AddUsage } else { CommandError::RemoveUsage });
        }
        let symbols = copy_strings(&parts, 1);
        proof {
            assert(strings_view(parts@).subrange(1, parts@.len() as int) =~= strings_view(parts@).drop_first());
        }
        if is_add {
            Ok(Some(InteractiveCommand::Add { symbols }))
        } else {
            Ok(Some(InteractiveCommand::Remove { symbols }))
        }
    } else if str_eq(head, "/list") || str_eq(head, "pairs") {
        Ok(Some(InteractiveCommand::List))
    } else if str_eq(head, "/show") {
        if parts.len() < 2 {
            return Err(CommandError::ShowUsage);
        }
        Ok(Some(InteractiveCommand::Show { symbol: parts[1].clone() }))
    } else if str_eq(head, "/status") {
        Ok(Some(InteractiveCommand::Status))
    } else if str_eq(head, "/reconnect") || str_eq(head, "/r") {
        Ok(Some(InteractiveCommand::Reconnect))
    } else if str_eq(head, "/config") {
        if parts.len() == 1 {
            Ok(Some(InteractiveCommand::Config { action: None }))
        } else if parts.len() == 2 && str_eq(parts[1].as_str(), "show") {
            Ok(Some(InteractiveCommand::Config { action: Some(ConfigAction::Show) }))
        } else if parts.len() == 2 && str_eq(parts[1].as_str(), "reset") {
            Ok(Some(InteractiveCommand::Config { action: Some(ConfigAction::Reset) }))
        } else if parts.len() >= 3 && str_eq(parts[1].as_str(), "set") {
            let key = parts[2].clone();
            let value = join_from(&parts, 3);
            Ok(Some(InteractiveCommand::Config { action: Some(ConfigAction::SetValue { key, value }) }))
        } else {
            Err(CommandError::ConfigUsage)
        }
    } else if str_eq(head, "/alert") {
        parse_alert_command(&parts)
    } else if str_eq(head, "/help") || str_eq(head, "?") {
        Ok(Some(InteractiveCommand::Help))
    } else if str_eq(head, "/logs") {
        Ok(Some(InteractiveCommand::Logs))
    } else if str_eq(head, "/quit") || str_eq(head, "/exit") || str_eq(head, "/q") {
        Ok(Some(InteractiveCommand::Quit))
    } else {
        Err(CommandError::UnknownCommand(parts[0].clone()))
    }
}

/// Metadata describing an interactive command (used for UI hints).
#[derive(Debug, Clone, Copy)]
pub struct CommandInfo {
    pub trigger: &'static str,
    pub usage: &'static str,
    pub description: &'static str,
}

fn quoted(prefix: &str, s: &String, suffix: &str) -> (r: String)
    ensures
        r@ == prefix@ + s@ + suffix@,
{
    let mut out = String::from_str(prefix);
    out.append(s.as_str());
    out.append(suffix);
    out
}

impl CommandError {
    /// The text shown for the error.
    pub fn message(&self) -> (r: String)
        ensures
            r@ == (match *self {
                CommandError::AddUsage => "Usage: add <symbol1> [symbol2] ..."@,
                CommandError::RemoveUsage => "Usage: remove <symbol1> [symbol2] ..."@,
                CommandError::ShowUsage => "Usage: focus <symbol>"@,
                CommandError::ConfigUsage => "Usage: config [show|set <key> <value>|reset]"@,
                CommandError::AlertUsage =>
                    "Usage: /alert <add|list|clear> [...]. Example: /alert add BTCUSDT above 45000"@,
                CommandError::AlertAddUsage => "Usage: /alert add <symbol> <above|below> <price>"@,
                CommandError::AlertClearUsage =>
                    "Usage: /alert clear <id|all>. Example: /alert clear 1"@,
                CommandError::InvalidDirection(d) => "Invalid direction '"@ + d@
                    + "'. Use 'above' or 'below'."@,
                CommandError::InvalidPrice(p) => "Invalid price '"@ + p@ + "'. Price must be a number."@,
                CommandError::InvalidAlertId(x) => "Invalid alert id '"@ + x@ + "'. Expected a number."@,
                CommandError::UnknownAlertAction(a) => "Unknown alert action '"@ + a@
                    + "'. Use add, list, or clear."@,
                CommandError::UnknownCommand(c) => "Unknown command: "@ + c@
                    + ". Type '/help' for available commands."@,
            }),
    {
        match self {
            CommandError::AddUsage => String::from_str("Usage: add <symbol1> [symbol2] ..."),
            CommandError::RemoveUsage => String::from_str("Usage: remove <symbol1> [symbol2] ..."),
            CommandError::ShowUsage => String::from_str("Usage: focus <symbol>"),
            CommandError::ConfigUsage => String::from_str(
                "Usage: config [show|set <key> <value>|reset]",
            ),
            CommandError::AlertUsage => String::from_str(
                "Usage: /alert <add|list|clear> [...]. Example: /alert add BTCUSDT above 45000",
            ),
            CommandError::AlertAddUsage => String::from_str(
                "Usage: /alert add <symbol> <above|below> <price>",
            ),
            CommandError::AlertClearUsage => String::from_str(
                "Usage: /alert clear <id|all>. Example: /alert clear 1",
            ),
            CommandError::InvalidDirection(d) => quoted(
                "Invalid direction '",
                d,
                "'. Use 'above' or 'below'.",
            ),
            CommandError::InvalidPrice(p) => quoted(
                "Invalid price '",
                p,
                "'. Price must be a number.",
            ),
            CommandError::InvalidAlertId(x) => quoted(
                "Invalid alert id '",
                x,
                "'. Expected a number.",
            ),
            CommandError::UnknownAlertAction(a) => quoted(
                "Unknown alert action '",
                a,
                "'. Use add, list, or clear.",
            ),
            CommandError::UnknownCommand(c) => quoted(
                "Unknown command: ",
                c,
                ". Type '/help' for available commands.",
            ),
        }
    }
}

/// The lines of the interactive help.
pub open spec fn help_lines() -> Seq<Seq<char>> {
    seq![
        "XTrade Interactive Commands:"@,
        "  /add <symbol1> [symbol2] ...  - Subscribe to symbols"@,
        "  /remove <symbol1> [symbol2] ... - Unsubscribe from symbols"@,
        "  /list                         - Show current subscriptions"@,
        "  /show  <symbol>               - Show details for symbol"@,
        "  /status                       - Show session statistics"@,
        "  /reconnect                    - Force reconnection for all subscriptions"@,
        "  /logs                         - Show recent logs"@,
        "  /config [show|set|reset]      - Configuration management"@,
        "  /alert add <symbol> <above|below> <price> - Add price alert"@,
        "  /alert list                   - List configured alerts"@,
        "  /alert clear <id|all>         - Clear alerts"@,
        "  /help                         - Show this help"@,
        "  /quit                         - Exit the application"@,
    ]
}

/// The command catalog: trigger, usage and description of each command.
pub open spec fn command_catalog() -> Seq<(Seq<char>, Seq<char>, Seq<char>)> {
    seq![
        ("/add"@, "/add <symbol1> [symbol2] ..."@, "Subscribe to symbols"@),
        ("/remove"@, "/remove <symbol1> [symbol2] ..."@, "Unsubscribe from symbols"@),
        ("/list"@, "/list"@, "Show current subscriptions"@),
        ("/show"@, "/show <symbol>"@, "Show details for symbol"@),
        ("/status"@, "/status"@, "Show session statistics"@),
        ("/reconnect"@, "/reconnect"@, "Force reconnection for all subscriptions"@),
        ("/logs"@, "/logs"@, "Show recent logs"@),
        ("/config"@, "/config [show|set <key> <value>|reset]"@, "Configuration management"@),
        ("/alert"@, "/alert add <symbol> <above|below> <price> | /alert list | /alert clear <id|all>"@, "Manage price alerts"@),
        ("/help"@, "/help"@, "Show help"@),
        ("/quit"@, "/quit"@, "Exit the application"@),
    ]
}

/// Parses interactive input and tracks whether the session is interactive.
pub struct CommandRouter {
    interactive_mode: bool,
}

impl CommandRouter {
    /// Whether interactive mode is on.
    pub closed spec fn interactive(self) -> bool {
        self.interactive_mode
    }

    pub fn new() -> (r: Self)
        ensures
            !r.interactive(),
    {
        CommandRouter { interactive_mode: false }
    }

    pub fn start_interactive_mode(&mut self)
        ensures
            final(self).interactive(),
    {
        self.interactive_mode = true;
    }

    pub fn stop_interactive_mode(&mut self)
        ensures
            !final(self).interactive(),
    {
        self.interactive_mode = false;
    }

    pub fn is_interactive_mode(&self) -> (r: bool)
        ensures
            r == self.interactive(),
    {
        self.interactive_mode
    }

    /// Reads an interactive command line (see `command_result`).
    pub fn parse_interactive_command(&self, input: &str) -> (r: Result<Option<InteractiveCommand>, CommandError>)
        ensures
            command_result(words(input@), r),
    {
        parse_command(input)
    }

    /// Help text for the interactive commands, one line each.
    pub fn help_messages() -> (r: Vec<&'static str>)
        ensures
            r@.map_values(|t: &'static str| t@) == help_lines(),
    {
        let mut v: Vec<&'static str> = Vec::new();
        v.push("XTrade Interactive Commands:");
        v.push("  /add <symbol1> [symbol2] ...  - Subscribe to symbols");
        v.push("  /remove <symbol1> [symbol2] ... - Unsubscribe from symbols");
        v.push("  /list                         - Show current subscriptions");
        v.push("  /show  <symbol>               - Show details for symbol");
        v.push("  /status                       - Show session statistics");
        v.push("  /reconnect                    - Force reconnection for all subscriptions");
        v.push("  /logs                         - Show recent logs");
        v.push("  /config [show|set|reset]      - Configuration management");
        v.push("  /alert add <symbol> <above|below> <price> - Add price alert");
        v.push("  /alert list                   - List configured alerts");
        v.push("  /alert clear <id|all>         - Clear alerts");
        v.push("  /help                         - Show this help");
        v.push("  /quit                         - Exit the application");
        proof {
            assert(v@.map_values(|t: &'static str| t@) =~= help_lines());
        }
        v
    }

    /// The catalog of interactive commands for UI surfaces.
    pub fn commands() -> (r: Vec<CommandInfo>)
        ensures
            r@.map_values(|c: CommandInfo| (c.trigger@, c.usage@, c.description@)) == command_catalog(),
    {
        let mut v: Vec<CommandInfo> = Vec::new();
        v.push(CommandInfo { trigger: "/add", usage: "/add <symbol1> [symbol2] ...", description: "Subscribe to symbols" });
        v.push(CommandInfo { trigger: "/remove", usage: "/remove <symbol1> [symbol2] ...", description: "Unsubscribe from symbols" });
        v.push(CommandInfo { trigger: "/list", usage: "/list", description: "Show current subscriptions" });
        v.push(CommandInfo { trigger: "/show", usage: "/show <symbol>", description: "Show details for symbol" });
        v.push(CommandInfo { trigger: "/status", usage: "/status", description: "Show session statistics" });
        v.push(CommandInfo { trigger: "/reconnect", usage: "/reconnect", description: "Force reconnection for all subscriptions" });
        v.push(CommandInfo { trigger: "/logs", usage: "/logs", description: "Show recent logs" });
        v.push(CommandInfo { trigger: "/config", usage: "/config [show|set <key> <value>|reset]", description: "Configuration management" });
        v.push(CommandInfo { trigger: "/alert", usage: "/alert add <symbol> <above|below> <price> | /alert list | /alert clear <id|all>", description: "Manage price alerts" });
        v.push(CommandInfo { trigger: "/help", usage: "/help", description: "Show help" });
        v.push(CommandInfo { trigger: "/quit", usage: "/quit", description: "Exit the application" });
        proof {
            assert(v@.map_values(|c: CommandInfo| (c.trigger@, c.usage@, c.description@)) =~= command_catalog());
        }
        v
    }
}


/// The direction word of `/alert add` decides the direction, whatever its
/// case: "above" gives `Above`, "below" gives `Below`; with a readable
/// price the alert is added for the given symbol and price.
pub proof fn lemma_alert_direction(ws: Seq<Seq<char>>, r: Result<Option<InteractiveCommand>, CommandError>)
    requires
        alert_result(ws, r),
        ws.len() >= 5,
        ws[1] == "add"@,
        fixed_value(ws[4]) is Some,
    ensures
        lower_seq(ws[3]) == "below"@ ==> (r matches Ok(Some(InteractiveCommand::Alert { action: AlertAction::Add {
            symbol,
            direction,
            price,
        } })) && direction == AlertDirection::Below && symbol@ == ws[2] && price == fixed_value(ws[4])->0),
        lower_seq(ws[3]) == "above"@ ==> (r matches Ok(Some(InteractiveCommand::Alert { action: AlertAction::Add {
            symbol,
            direction,
            price,
        } })) && direction == AlertDirection::Above && symbol@ == ws[2] && price == fixed_value(ws[4])->0),
        r matches Ok(Some(InteractiveCommand::Alert { action: AlertAction::Add { direction, .. } })) ==> (
        direction == AlertDirection::Below <==> lower_seq(ws[3]) == "below"@),
{
    reveal_strlit("above");
    reveal_strlit("below");
    assert("above"@[0] == 'a' && "below"@[0] == 'b');
    assert("above"@ != "below"@);
}

} // verus!
