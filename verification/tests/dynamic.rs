use ws_heartbeat::commands::dynamic_payload::{register_commands, PayloadCommand};
use ws_heartbeat::commands::{send_heartbeat, show_config, CommandContext, CommandRegistry, Effect};
use ws_heartbeat::config::Config;

fn cmd(
    name: &str,
    aliases: &[&str],
    type_: Option<&str>,
    data: Option<&str>,
    payload: Option<&str>,
    description: Option<&str>,
) -> PayloadCommand {
    PayloadCommand {
        name: name.to_string(),
        aliases: aliases.iter().map(|a| a.to_string()).collect(),
        type_: type_.map(|s| s.to_string()),
        data: data.map(|s| s.to_string()),
        payload: payload.map(|s| s.to_string()),
        description: description.map(|s| s.to_string()),
    }
}

fn run(reg: &CommandRegistry, input: &str) -> Vec<Effect> {
    let mut ctx = CommandContext::new();
    assert!(reg.parse_and_execute(input, &mut ctx));
    ctx.effects
}

fn base_registry() -> CommandRegistry {
    let mut reg = CommandRegistry::new();
    let cfg = Config {
        heartbeat_interval_secs: 5,
        bind_ip: "::1".to_string(),
        bind_port: 1,
        fancy_help: false,
        help_cache_secs: 1,
    };
    show_config::register(&mut reg, &cfg);
    send_heartbeat::register(&mut reg);
    reg
}

#[test]
fn payload_commands_are_registered_with_their_payloads() {
    let mut reg = base_registry();
    let batch = vec![
        cmd("Ping", &["p"], Some("ping"), Some("{\"n\":1}"), None, None),
        cmd("raw", &["p"], Some("ignored"), None, Some("[1,2]"), Some("Raw")),
        cmd("heartbeat", &[], None, None, None, None),
        cmd("Config", &[], None, Some("\"x\""), None, None),
    ];
    let report = register_commands(&mut reg, &batch);
    assert_eq!(report.duplicate_keywords, vec!["p"]);
    assert_eq!(report.overridden, vec!["heartbeat"]);
    assert_eq!(report.loaded, vec!["Ping", "raw", "heartbeat", "Config"]);
    assert_eq!(
        run(&reg, "ping"),
        vec![Effect::Broadcast("{\"data\":{\"n\":1},\"type\":\"ping\"}".to_string())]
    );
    assert_eq!(run(&reg, "p"), vec![Effect::Broadcast("[1,2]".to_string())]);
    assert_eq!(
        run(&reg, "heartbeat"),
        vec![Effect::Broadcast("{\"data\":null,\"type\":\"custom\"}".to_string())]
    );
    assert_eq!(
        run(&reg, "hb"),
        vec![Effect::Broadcast("{\"data\":\"manual\",\"type\":\"heartbeat\"}".to_string())]
    );
    assert_eq!(
        run(&reg, "config"),
        vec![Effect::Broadcast("{\"data\":\"x\",\"type\":\"custom\"}".to_string())]
    );
    assert_eq!(
        run(&reg, "cmds"),
        vec![Effect::Print("(commands.toml) Dynamic commands: Ping, raw, heartbeat, Config".to_string())]
    );
    let help = reg.help_text_with_fancy(false);
    assert!(help.contains("  - ping (aliases: p)\n     \u{2014} Send predefined payload: ping\n"));
    assert!(help.contains("  - raw (aliases: p)\n     \u{2014} Raw\n"));
    assert!(help.contains("  - heartbeat\n     \u{2014} Send predefined payload\n"));
    assert!(help.contains("  - commands (aliases: cmds)\n     \u{2014} List dynamically loaded commands\n"));
    assert_eq!(
        reg.primary_names_distinct(),
        vec!["ping", "raw", "heartbeat", "config", "commands"]
    );
}

#[test]
fn empty_batch_still_registers_listing_command() {
    let mut reg = CommandRegistry::new();
    let report = register_commands(&mut reg, &Vec::new());
    assert!(report.duplicate_keywords.is_empty());
    assert!(report.overridden.is_empty());
    assert!(report.loaded.is_empty());
    assert_eq!(reg.primary_names_distinct(), vec!["commands"]);
    assert_eq!(
        run(&reg, "commands"),
        vec![Effect::Print("(commands.toml) No dynamic commands loaded".to_string())]
    );
}

#[test]
fn name_repeated_as_its_own_alias_is_a_duplicate() {
    let mut reg = CommandRegistry::new();
    let report = register_commands(&mut reg, &vec![cmd("x", &["x", "y", "y"], None, None, None, None)]);
    assert_eq!(report.duplicate_keywords, vec!["x", "y"]);
}
