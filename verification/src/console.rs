//! The console: building the command registry and deciding what each line
//! typed on stdin does.

use vstd::prelude::*;
use crate::commands::dynamic_payload::{
    all_keywords, list_entry, names_in, names_of, payload_entries, register_commands, repeated,
    PayloadCommand, PayloadReport,
};
use crate::commands::help::{self, HelpCache};
use crate::commands::{
    action_effects, lemma_latest_match, latest_match, needle_of, EffectView, help_text, primary_names, selected, ActionView, CommandAction, CommandContext,
    CommandRegistry, CommandView,
};
use crate::commands::{disconnect, quit, send_heartbeat, show_config};
use crate::config::{config_text, Config};
use crate::state::ControlCommand;
use crate::json::{heartbeat_text, is_valid_json, json_valid};
use crate::text::{ascii_lower, chars_of, string_from_chars, trim, trim_chars};

verus! {

/// The `reload` command's registry entry.
pub open spec fn reload_entry() -> CommandView {
    CommandView {
        keywords: seq!["reload"@, "rl"@],
        description: "Reload dynamic payload commands from commands.toml"@,
        action: ActionView::Reload,
    }
}

/// Registers the reload command (aliases: "reload", "rl").
pub fn register_reload(reg: &mut CommandRegistry)
    ensures
        final(reg)@ == old(reg)@.push(reload_entry()),
{
    let keywords: [&str; 2] = ["reload", "rl"];
    reg.register(
        keywords.as_slice(),
        "Reload dynamic payload commands from commands.toml",
        CommandAction::Reload,
    );
    proof {
        reveal_strlit("reload");
        reveal_strlit("rl");
        assert(ascii_lower("reload"@) =~= "reload"@);
        assert(ascii_lower("rl"@) =~= "rl"@);
        assert(keywords@.map_values(|k: &str| k@).map_values(|k: Seq<char>| ascii_lower(k))
            =~= seq!["reload"@, "rl"@]);
    }
}

/// Loads the payload commands read from the commands file (none when the
/// file could not be read or parsed), then registers help so that it
/// reflects the latest registry.
pub fn load_dynamic_commands(
    reg: &mut CommandRegistry,
    commands: Option<&Vec<PayloadCommand>>,
    fancy: bool,
    ttl_secs: u64,
    now: u128,
) -> (res: (Option<PayloadReport>, HelpCache))
    ensures
        ({
            let loaded = match commands {
                Some(cmds) => {
                    let cv = cmds@.map_values(|c: PayloadCommand| c@);
                    old(reg)@ + payload_entries(cv) + seq![list_entry(names_of(cv))]
                },
                None => old(reg)@,
            };
            &&& final(reg)@ == loaded.push(
                (CommandView {
                    keywords: seq!["help"@, "?"@],
                    description: "Show this help message"@,
                    action: ActionView::ShowHelp,
                }),
            )
            &&& res.1.text@ == help_text(loaded, fancy)
            &&& res.1.fancy == fancy
            &&& res.1.ttl_secs == ttl_secs
            &&& res.1.rendered_at == now
        }),
        res.0 is Some <==> commands is Some,
        res.0 matches Some(report) ==> commands matches Some(cmds) && {
            let cv = cmds@.map_values(|c: PayloadCommand| c@);
            &&& report.duplicate_keywords@.map_values(|k: String| k@) == repeated(all_keywords(cv))
            &&& report.overridden@.map_values(|k: String| k@) == names_in(
                names_of(cv),
                primary_names(old(reg)@),
            )
            &&& report.loaded@.map_values(|k: String| k@) == names_of(cv)
        },
{
    let report = match commands {
        Some(cmds) => Some(register_commands(reg, cmds)),
        None => None,
    };
    let cache = help::register(reg, fancy, ttl_secs, now);
    (report, cache)
}

/// The registry of the built-in console commands, in registration order.
pub open spec fn builtin_entries(cfg: Config) -> Seq<CommandView> {
    seq![
        CommandView {
            keywords: seq!["config"@, "cfg"@],
            description: "Show current server configuration"@,
            action: ActionView::Print(config_text(cfg)),
        },
        CommandView {
            keywords: seq!["heartbeat"@, "hb"@],
            description: "Send a heartbeat JSON payload to all clients"@,
            action: ActionView::Broadcast(heartbeat_text("manual"@)),
        },
        CommandView {
            keywords: seq!["disconnect"@, "dc"@],
            description: "Disconnect all connected WebSocket clients"@,
            action: ActionView::DisconnectAll,
        },
        CommandView {
            keywords: seq!["quit"@, "exit"@, "q"@],
            description: "Disconnect all clients and gracefully shut down the server"@,
            action: ActionView::Quit,
        },
        reload_entry(),
    ]
}

/// Registers the built-in console commands: config, heartbeat, disconnect,
/// quit and reload.
pub fn register_builtin_commands(reg: &mut CommandRegistry, cfg: &Config)
    ensures
        final(reg)@ == old(reg)@ + builtin_entries(*cfg),
{
    let ghost start = reg@;
    show_config::register(reg, cfg);
    send_heartbeat::register(reg);
    disconnect::register(reg);
    quit::register(reg);
    register_reload(reg);
    assert(reg@ =~= start + builtin_entries(*cfg));
}

/// What a console line turned out to be.
#[derive(Debug, PartialEq, Eq)]
pub enum ConsoleOutcome {
    /// Nothing but whitespace.
    Blank,
    /// A command; its effects were added to the context.
    Command,
    /// Valid JSON, to broadcast as it stands (trimmed).
    Broadcast(String),
    /// Looks like JSON but does not parse; not sent.
    InvalidJson(String),
    /// Neither a command nor JSON.
    UnknownCommand(String),
}

/// Whether a line starting with `c` was meant as JSON: `{`, `[`, `"`, `t`,
/// `f`, `n`, `-` or a digit.
pub open spec fn looks_like_json(c: char) -> bool {
    c == '{' || c == '[' || c == '"' || c == 't' || c == 'f' || c == 'n' || c == '-' || ('0' <= c
        && c <= '9')
}

/// The outcome of a console line, by kind.
pub enum OutcomeView {
    Blank,
    Command,
    Broadcast(Seq<char>),
    InvalidJson(Seq<char>),
    UnknownCommand(Seq<char>),
}

impl View for ConsoleOutcome {
    type V = OutcomeView;

    open spec fn view(&self) -> OutcomeView {
        match self {
            ConsoleOutcome::Blank => OutcomeView::Blank,
            ConsoleOutcome::Command => OutcomeView::Command,
            ConsoleOutcome::Broadcast(s) => OutcomeView::Broadcast(s@),
            ConsoleOutcome::InvalidJson(s) => OutcomeView::InvalidJson(s@),
            ConsoleOutcome::UnknownCommand(s) => OutcomeView::UnknownCommand(s@),
        }
    }
}

/// What a console line is: blank, a command, JSON to broadcast, or an error.
pub open spec fn console_outcome(cmds: Seq<CommandView>, line: Seq<char>) -> OutcomeView {
    let t = trim(line);
    if t.len() == 0 {
        OutcomeView::Blank
    } else if selected(cmds, t) is Some {
        OutcomeView::Command
    } else if json_valid(t) {
        OutcomeView::Broadcast(t)
    } else if looks_like_json(t[0]) {
        OutcomeView::InvalidJson(t)
    } else {
        OutcomeView::UnknownCommand(t)
    }
}

/// Handles one console line: a command runs (its effects go to `ctx`),
/// valid JSON is to be broadcast, anything else is reported.
pub fn handle_console_line(reg: &CommandRegistry, line: &str, ctx: &mut CommandContext) -> (out:
    ConsoleOutcome)
    ensures
        out@ == console_outcome(reg@, line@),
        match selected(reg@, trim(line@)) {
            Some(i) => trim(line@).len() > 0 ==> final(ctx).effects_view() == old(
                ctx,
            ).effects_view() + action_effects(reg@[i].action),
            None => final(ctx).effects_view() == old(ctx).effects_view(),
        },
        trim(line@).len() == 0 ==> final(ctx).effects_view() == old(ctx).effects_view(),
{
    let chars = chars_of(line);
    let trimmed_chars = trim_chars(&chars);
    if trimmed_chars.len() == 0 {
        return ConsoleOutcome::Blank;
    }
    let trimmed = string_from_chars(&trimmed_chars);
    if reg.parse_and_execute(trimmed.as_str(), ctx) {
        return ConsoleOutcome::Command;
    }
    if is_valid_json(trimmed.as_str()) {
        return ConsoleOutcome::Broadcast(trimmed);
    }
    let c = trimmed_chars[0];
    if c == '{' || c == '[' || c == '"' || c == 't' || c == 'f' || c == 'n' || c == '-' || ('0'
        <= c && c <= '9') {
        ConsoleOutcome::InvalidJson(trimmed)
    } else {
        ConsoleOutcome::UnknownCommand(trimmed)
    }
}

} // verus!

verus! {

/// How a console line is classified, in terms of its trimmed text `t`: blank
/// exactly when `t` is empty; a command exactly when `t` selects one; broadcast
/// as it stands exactly when it selects none and is valid JSON, whatever its
/// first char; otherwise reported, never sent, carrying `t`.
pub proof fn lemma_console_outcome(cmds: Seq<CommandView>, line: Seq<char>)
    ensures
        (console_outcome(cmds, line) is Blank) <==> trim(line).len() == 0,
        (console_outcome(cmds, line) is Command) <==> (trim(line).len() > 0 && selected(
            cmds,
            trim(line),
        ) is Some),
        (console_outcome(cmds, line) == OutcomeView::Broadcast(trim(line))) <==> (trim(line).len()
            > 0 && selected(cmds, trim(line)) is None && json_valid(trim(line))),
        console_outcome(cmds, line) matches OutcomeView::Broadcast(x) ==> x == trim(line),
        console_outcome(cmds, line) matches OutcomeView::InvalidJson(x) ==> x == trim(line)
            && !json_valid(x) && selected(cmds, x) is None && x.len() > 0,
        console_outcome(cmds, line) matches OutcomeView::UnknownCommand(x) ==> x == trim(line)
            && !json_valid(x) && selected(cmds, x) is None && x.len() > 0,
{
}

/// A word without whitespace or uppercase letters is its own lookup needle.
proof fn lemma_plain_word_needle(w: Seq<char>)
    requires
        w.len() > 0,
        !crate::text::is_ws(w[0]),
        !crate::text::is_ws(w.last()),
        ascii_lower(w) == w,
    ensures
        needle_of(w) == w,
{
    assert(crate::text::trim_start(w) == w);
    assert(crate::text::trim_end(w) == w);
}

/// A needle found in built-in entry `j` and in no later built-in entry
/// selects that entry, whatever was registered before.
proof fn lemma_select_builtin(base: Seq<CommandView>, cfg: Config, w: Seq<char>, j: int)
    requires
        0 <= j < 5,
        w.len() > 0,
        needle_of(w) == w,
        builtin_entries(cfg)[j].keywords.contains(w),
        forall|k: int| j < k < 5 ==> !(#[trigger] builtin_entries(cfg)[k]).keywords.contains(w),
    ensures
        selected(base + builtin_entries(cfg), w) == Some(base.len() + j),
{
    let r = base + builtin_entries(cfg);
    lemma_latest_match(r, w);
    assert(r[base.len() + j] == builtin_entries(cfg)[j]);
    match latest_match(r, w) {
        Some(i) => {
            if i > base.len() + j {
                assert(r[i] == builtin_entries(cfg)[i - base.len()]);
            }
        },
        None => {},
    }
}

/// Each built-in command is reached by each of its keywords, after whatever
/// was registered before, and asks for its effects: quit/exit/q disconnect
/// every client and shut down, disconnect/dc only disconnect, heartbeat/hb
/// broadcast the manual heartbeat, config/cfg show the configuration, and
/// reload/rl reload.
pub proof fn lemma_builtin_commands(base: Seq<CommandView>, cfg: Config)
    ensures
        ({
            let r = base + builtin_entries(cfg);
            let quit_effects = seq![
                EffectView::Control(ControlCommand::DisconnectAll),
                EffectView::Shutdown,
            ];
            &&& selected(r, "quit"@) matches Some(i) && action_effects(r[i].action) == quit_effects
            &&& selected(r, "exit"@) matches Some(i) && action_effects(r[i].action) == quit_effects
            &&& selected(r, "q"@) matches Some(i) && action_effects(r[i].action) == quit_effects
            &&& selected(r, "disconnect"@) matches Some(i) && action_effects(r[i].action) == seq![
                EffectView::Control(ControlCommand::DisconnectAll),
            ]
            &&& selected(r, "dc"@) matches Some(i) && action_effects(r[i].action) == seq![
                EffectView::Control(ControlCommand::DisconnectAll),
            ]
            &&& selected(r, "heartbeat"@) matches Some(i) && action_effects(r[i].action) == seq![
                EffectView::Broadcast(heartbeat_text("manual"@)),
            ]
            &&& selected(r, "hb"@) matches Some(i) && action_effects(r[i].action) == seq![
                EffectView::Broadcast(heartbeat_text("manual"@)),
            ]
            &&& selected(r, "config"@) matches Some(i) && action_effects(r[i].action) == seq![
                EffectView::Print(config_text(cfg)),
            ]
            &&& selected(r, "cfg"@) matches Some(i) && action_effects(r[i].action) == seq![
                EffectView::Print(config_text(cfg)),
            ]
            &&& selected(r, "reload"@) matches Some(i) && action_effects(r[i].action) == seq![
                EffectView::Reload,
            ]
            &&& selected(r, "rl"@) matches Some(i) && action_effects(r[i].action) == seq![
                EffectView::Reload,
            ]
        }),
{
    let b = builtin_entries(cfg);
    reveal_strlit("config");
    reveal_strlit("cfg");
    reveal_strlit("heartbeat");
    reveal_strlit("hb");
    reveal_strlit("disconnect");
    reveal_strlit("dc");
    reveal_strlit("quit");
    reveal_strlit("exit");
    reveal_strlit("q");
    reveal_strlit("reload");
    reveal_strlit("rl");
    assert(ascii_lower("config"@) =~= "config"@);
    assert(ascii_lower("cfg"@) =~= "cfg"@);
    assert(ascii_lower("heartbeat"@) =~= "heartbeat"@);
    assert(ascii_lower("hb"@) =~= "hb"@);
    assert(ascii_lower("disconnect"@) =~= "disconnect"@);
    assert(ascii_lower("dc"@) =~= "dc"@);
    assert(ascii_lower("quit"@) =~= "quit"@);
    assert(ascii_lower("exit"@) =~= "exit"@);
    assert(ascii_lower("q"@) =~= "q"@);
    assert(ascii_lower("reload"@) =~= "reload"@);
    assert(ascii_lower("rl"@) =~= "rl"@);
    lemma_plain_word_needle("config"@);
    lemma_plain_word_needle("cfg"@);
    lemma_plain_word_needle("heartbeat"@);
    lemma_plain_word_needle("hb"@);
    lemma_plain_word_needle("disconnect"@);
    lemma_plain_word_needle("dc"@);
    lemma_plain_word_needle("quit"@);
    lemma_plain_word_needle("exit"@);
    lemma_plain_word_needle("q"@);
    lemma_plain_word_needle("reload"@);
    lemma_plain_word_needle("rl"@);
    assert(b[0].keywords[0] == "config"@ && b[0].keywords[1] == "cfg"@);
    assert(b[1].keywords[0] == "heartbeat"@ && b[1].keywords[1] == "hb"@);
    assert(b[2].keywords[0] == "disconnect"@ && b[2].keywords[1] == "dc"@);
    assert(b[3].keywords[0] == "quit"@ && b[3].keywords[1] == "exit"@ && b[3].keywords[2] == "q"@);
    assert(b[4].keywords[0] == "reload"@ && b[4].keywords[1] == "rl"@);
    assert("config"@[0] != "reload"@[0]);
    assert("hb"@[0] != "dc"@[0] && "hb"@[0] != "rl"@[0] && "dc"@[0] != "rl"@[0]);
    assert forall|k: int, w: Seq<char>|
        0 <= k < 5 && #[trigger] b[k].keywords.contains(w) implies (k == 0 && (w == "config"@
        || w == "cfg"@)) || (k == 1 && (w == "heartbeat"@ || w == "hb"@)) || (k == 2 && (w
        == "disconnect"@ || w == "dc"@)) || (k == 3 && (w == "quit"@ || w == "exit"@ || w
        == "q"@)) || (k == 4 && (w == "reload"@ || w == "rl"@)) by {
        let m = choose|m: int| 0 <= m < b[k].keywords.len() && b[k].keywords[m] == w;
    }
    lemma_select_builtin(base, cfg, "config"@, 0);
    lemma_select_builtin(base, cfg, "cfg"@, 0);
    lemma_select_builtin(base, cfg, "heartbeat"@, 1);
    lemma_select_builtin(base, cfg, "hb"@, 1);
    lemma_select_builtin(base, cfg, "disconnect"@, 2);
    lemma_select_builtin(base, cfg, "dc"@, 2);
    lemma_select_builtin(base, cfg, "quit"@, 3);
    lemma_select_builtin(base, cfg, "exit"@, 3);
    lemma_select_builtin(base, cfg, "q"@, 3);
    lemma_select_builtin(base, cfg, "reload"@, 4);
    lemma_select_builtin(base, cfg, "rl"@, 4);
    let r = base + b;
    assert(r[base.len() + 0int] == b[0]);
    assert(r[base.len() + 1int] == b[1]);
    assert(r[base.len() + 2int] == b[2]);
    assert(r[base.len() + 3int] == b[3]);
    assert(r[base.len() + 4int] == b[4]);
}

} // verus!
