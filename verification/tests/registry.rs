use ws_heartbeat::commands::help::{self, HelpCache};
use ws_heartbeat::commands::{
    disconnect, quit, send_heartbeat, show_config, CommandAction, CommandContext,
    CommandRegistry, Effect,
};
use ws_heartbeat::config::Config;
use ws_heartbeat::state::ControlCommand;

fn sample_config() -> Config {
    Config {
        heartbeat_interval_secs: 30,
        bind_ip: "127.0.0.1".to_string(),
        bind_port: 63325,
        fancy_help: true,
        help_cache_secs: 60,
    }
}

fn run(reg: &CommandRegistry, input: &str) -> (bool, Vec<Effect>) {
    let mut ctx = CommandContext::new();
    let consumed = reg.parse_and_execute(input, &mut ctx);
    (consumed, ctx.effects)
}

#[test]
fn new_registry_is_empty() {
    let reg = CommandRegistry::new();
    assert!(reg.primary_names_distinct().is_empty());
    assert_eq!(run(&reg, "help"), (false, vec![]));
}

#[test]
fn keywords_are_matched_case_insensitively_and_trimmed() {
    let mut reg = CommandRegistry::new();
    reg.register(&["Heartbeat", "HB"], "beat", CommandAction::Broadcast("{}".to_string()));
    assert_eq!(run(&reg, "  hb\t"), (true, vec![Effect::Broadcast("{}".to_string())]));
    assert_eq!(run(&reg, "HEARTBEAT"), (true, vec![Effect::Broadcast("{}".to_string())]));
    assert_eq!(run(&reg, "heart beat"), (false, vec![]));
}

#[test]
fn blank_input_is_not_consumed() {
    let mut reg = CommandRegistry::new();
    reg.register(&[""], "empty keyword", CommandAction::Reload);
    assert_eq!(run(&reg, "   "), (false, vec![]));
    assert_eq!(run(&reg, ""), (false, vec![]));
}

#[test]
fn later_registration_wins() {
    let mut reg = CommandRegistry::new();
    reg.register(&["go"], "first", CommandAction::Print("first".to_string()));
    reg.register(&["go", "g"], "second", CommandAction::Print("second".to_string()));
    assert_eq!(run(&reg, "go"), (true, vec![Effect::Print("second".to_string())]));
    reg.register(&["stop"], "third", CommandAction::Reload);
    assert_eq!(run(&reg, "go"), (true, vec![Effect::Print("second".to_string())]));
}

#[test]
fn quit_disconnects_then_shuts_down() {
    let mut reg = CommandRegistry::new();
    quit::register(&mut reg);
    let expected = vec![Effect::Control(ControlCommand::DisconnectAll), Effect::Shutdown];
    assert_eq!(run(&reg, "exit"), (true, expected.clone_effects()));
    assert_eq!(run(&reg, "Q"), (true, expected));
}

trait CloneEffects {
    fn clone_effects(&self) -> Vec<Effect>;
}

impl CloneEffects for Vec<Effect> {
    fn clone_effects(&self) -> Vec<Effect> {
        self.iter()
            .map(|e| match e {
                Effect::Broadcast(s) => Effect::Broadcast(s.clone()),
                Effect::Control(c) => Effect::Control(*c),
                Effect::Shutdown => Effect::Shutdown,
                Effect::Print(s) => Effect::Print(s.clone()),
                Effect::ShowHelp => Effect::ShowHelp,
                Effect::Reload => Effect::Reload,
            })
            .collect()
    }
}

#[test]
fn disconnect_sends_control_command() {
    let mut reg = CommandRegistry::new();
    disconnect::register(&mut reg);
    assert_eq!(
        run(&reg, "dc"),
        (true, vec![Effect::Control(ControlCommand::DisconnectAll)])
    );
}

#[test]
fn heartbeat_command_broadcasts_manual_heartbeat() {
    let mut reg = CommandRegistry::new();
    send_heartbeat::register(&mut reg);
    assert_eq!(
        run(&reg, "hb"),
        (
            true,
            vec![Effect::Broadcast("{\"data\":\"manual\",\"type\":\"heartbeat\"}".to_string())]
        )
    );
}

#[test]
fn config_command_prints_configuration() {
    let mut reg = CommandRegistry::new();
    show_config::register(&mut reg, &sample_config());
    let text = "\nConfiguration:\n  bind_ip: 127.0.0.1\n  bind_port: 63325\n  heartbeat_interval_secs: 30\n  fancy_help: true\n  help_cache_secs: 60";
    assert_eq!(run(&reg, "cfg"), (true, vec![Effect::Print(text.to_string())]));
}

#[test]
fn primary_names_keep_latest_registration_order() {
    let mut reg = CommandRegistry::new();
    reg.register(&["a", "x"], "", CommandAction::Reload);
    reg.register(&["B"], "", CommandAction::Reload);
    reg.register(&[], "no keywords", CommandAction::Reload);
    reg.register(&["a"], "", CommandAction::Reload);
    reg.register(&["c"], "", CommandAction::Reload);
    assert_eq!(reg.primary_names_distinct(), vec!["b", "a", "c"]);
}

#[test]
fn plain_help_text_is_exact() {
    let mut reg = CommandRegistry::new();
    send_heartbeat::register(&mut reg);
    reg.register(&["solo"], "Only one keyword", CommandAction::Reload);
    reg.register(&[], "hidden", CommandAction::Reload);
    let bar = "-".repeat(32);
    let expected = format!(
        "+{bar}+\n|  Available commands  |\n+{bar}+\nType a command, or a one-line JSON payload, then press Enter\n\n  - heartbeat (aliases: hb)\n     \u{2014} Send a heartbeat JSON payload to all clients\n  - solo\n     \u{2014} Only one keyword\n"
    );
    assert_eq!(reg.help_text_with_fancy(false), expected);
}

#[test]
fn fancy_help_text_uses_ansi_styles() {
    let mut reg = CommandRegistry::new();
    disconnect::register(&mut reg);
    let bar = "\u{2500}".repeat(32);
    let expected = format!(
        "\u{250c}{bar}\u{2510}\n\u{2502} \x1b[1m\x1b[33m Available commands \x1b[0m \u{2502}\n\u{2514}{bar}\u{2518}\n\x1b[2mType a command, or a one-line JSON payload, then press Enter\x1b[0m\n\n  \u{2022} \x1b[1m\x1b[36mdisconnect\x1b[0m \x1b[2m(aliases: \x1b[36mdc\x1b[0m\x1b[2m)\x1b[0m\n     \x1b[2m\u{2014} Disconnect all connected WebSocket clients\x1b[0m\n"
    );
    assert_eq!(reg.help_text_with_fancy(true), expected);
}

#[test]
fn help_cache_refreshes_only_after_ttl() {
    let mut reg = CommandRegistry::new();
    quit::register(&mut reg);
    let mut cache: HelpCache = help::register(&mut reg, false, 60, 1_000);
    let before_help = cache.text.clone();
    assert!(before_help.contains("quit"));
    assert!(!before_help.contains("help"));
    assert_eq!(run(&reg, "?"), (true, vec![Effect::ShowHelp]));
    let fresh = cache.text_at(1_000 + 59_999_999_999, &reg);
    assert_eq!(fresh, before_help);
    assert_eq!(cache.rendered_at, 1_000);
    let refreshed = cache.text_at(1_000 + 60_000_000_000, &reg);
    assert_eq!(refreshed, reg.help_text_with_fancy(false));
    assert!(refreshed.contains("help (aliases: ?)"));
    assert_eq!(cache.rendered_at, 60_000_001_000);
}

#[test]
fn help_cache_with_zero_ttl_always_refreshes() {
    let mut reg = CommandRegistry::new();
    let mut cache = help::register(&mut reg, true, 0, 500);
    let text = cache.text_at(10, &reg);
    assert_eq!(text, reg.help_text_with_fancy(true));
    assert_eq!(cache.rendered_at, 10);
}

#[test]
fn registering_appends_one_help_entry() {
    let mut reg = CommandRegistry::new();
    quit::register(&mut reg);
    let before = reg.help_text_with_fancy(false);
    reg.register(&["Extra", "X"], "An extra command", CommandAction::Reload);
    let after = reg.help_text_with_fancy(false);
    assert_eq!(after, format!("{before}  - extra (aliases: x)\n     \u{2014} An extra command\n"));
}
