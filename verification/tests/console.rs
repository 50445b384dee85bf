use ws_heartbeat::commands::dynamic_payload::PayloadCommand;
use ws_heartbeat::commands::{CommandContext, CommandRegistry, Effect};
use ws_heartbeat::config::Config;
use ws_heartbeat::console::{
    handle_console_line, load_dynamic_commands, register_builtin_commands, ConsoleOutcome,
};
use ws_heartbeat::state::ControlCommand;

fn registry() -> CommandRegistry {
    let cfg = Config {
        heartbeat_interval_secs: 30,
        bind_ip: "127.0.0.1".to_string(),
        bind_port: 63325,
        fancy_help: false,
        help_cache_secs: 60,
    };
    let mut reg = CommandRegistry::new();
    register_builtin_commands(&mut reg, &cfg);
    reg
}

fn line(reg: &CommandRegistry, text: &str) -> (ConsoleOutcome, Vec<Effect>) {
    let mut ctx = CommandContext::new();
    let out = handle_console_line(reg, text, &mut ctx);
    (out, ctx.effects)
}

#[test]
fn builtin_commands_are_registered_in_order() {
    let reg = registry();
    assert_eq!(
        reg.primary_names_distinct(),
        vec!["config", "heartbeat", "disconnect", "quit", "reload"]
    );
    assert_eq!(line(&reg, "rl"), (ConsoleOutcome::Command, vec![Effect::Reload]));
}

#[test]
fn blank_lines_are_skipped() {
    let reg = registry();
    assert_eq!(line(&reg, " \t \r\n"), (ConsoleOutcome::Blank, vec![]));
}

#[test]
fn commands_take_precedence_over_json() {
    let reg = registry();
    assert_eq!(
        line(&reg, "  DC  "),
        (ConsoleOutcome::Command, vec![Effect::Control(ControlCommand::DisconnectAll)])
    );
}

#[test]
fn valid_json_is_broadcast_trimmed() {
    let reg = registry();
    assert_eq!(
        line(&reg, "  {\"type\":\"x\"}\n"),
        (ConsoleOutcome::Broadcast("{\"type\":\"x\"}".to_string()), vec![])
    );
    assert_eq!(line(&reg, "42"), (ConsoleOutcome::Broadcast("42".to_string()), vec![]));
    assert_eq!(line(&reg, "true"), (ConsoleOutcome::Broadcast("true".to_string()), vec![]));
}

#[test]
fn broken_json_is_reported_as_invalid() {
    let reg = registry();
    assert_eq!(
        line(&reg, "{\"type\":"),
        (ConsoleOutcome::InvalidJson("{\"type\":".to_string()), vec![])
    );
    assert_eq!(line(&reg, "tru"), (ConsoleOutcome::InvalidJson("tru".to_string()), vec![]));
    assert_eq!(line(&reg, "-x"), (ConsoleOutcome::InvalidJson("-x".to_string()), vec![]));
    assert_eq!(line(&reg, "7up"), (ConsoleOutcome::InvalidJson("7up".to_string()), vec![]));
}

#[test]
fn other_words_are_unknown_commands() {
    let reg = registry();
    assert_eq!(
        line(&reg, "hello there"),
        (ConsoleOutcome::UnknownCommand("hello there".to_string()), vec![])
    );
}

#[test]
fn loading_without_file_registers_only_help() {
    let mut reg = registry();
    let (report, cache) = load_dynamic_commands(&mut reg, None, false, 60, 7);
    assert!(report.is_none());
    assert_eq!(
        reg.primary_names_distinct(),
        vec!["config", "heartbeat", "disconnect", "quit", "reload", "help"]
    );
    assert_eq!(cache.rendered_at, 7);
    assert!(!cache.text.contains("help"));
    assert_eq!(line(&reg, "help"), (ConsoleOutcome::Command, vec![Effect::ShowHelp]));
}

#[test]
fn reloading_overrides_earlier_dynamic_commands() {
    let mut reg = registry();
    let first = vec![PayloadCommand {
        name: "alert".to_string(),
        aliases: vec![],
        type_: Some("alert".to_string()),
        data: None,
        payload: None,
        description: None,
    }];
    let (report, _) = load_dynamic_commands(&mut reg, Some(&first), false, 60, 0);
    assert_eq!(report.unwrap().overridden, Vec::<String>::new());
    let second = vec![PayloadCommand {
        name: "alert".to_string(),
        aliases: vec![],
        type_: None,
        data: None,
        payload: Some("{\"v\":2}".to_string()),
        description: None,
    }];
    let (report, cache) = load_dynamic_commands(&mut reg, Some(&second), false, 60, 0);
    assert_eq!(report.unwrap().overridden, vec!["alert"]);
    assert!(cache.text.contains("alert"));
    assert_eq!(
        line(&reg, "alert"),
        (ConsoleOutcome::Command, vec![Effect::Broadcast("{\"v\":2}".to_string())])
    );
    assert_eq!(
        reg.primary_names_distinct(),
        vec!["config", "heartbeat", "disconnect", "quit", "reload", "alert", "commands", "help"]
    );
}
