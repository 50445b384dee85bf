//! Server configuration and its rendering.

use vstd::prelude::*;
use crate::text::{decimal, decimal_string};

verus! {

/// Configuration loaded from `config.toml`.
#[derive(Debug)]
pub struct Config {
    /// Interval in seconds between heartbeat messages
    pub heartbeat_interval_secs: u64,
    /// IP address the server will bind to
    pub bind_ip: String,
    /// Port the server will bind to
    pub bind_port: u16,
    /// Toggle fancy ANSI-styled console help output
    pub fancy_help: bool,
    /// Seconds to cache the generated help text before regenerating
    pub help_cache_secs: u64,
}

/// `fancy_help` when the file does not set it.
pub open spec fn spec_default_fancy_help() -> bool {
    true
}

/// `help_cache_secs` when the file does not set it.
pub open spec fn spec_default_help_cache_secs() -> u64 {
    60
}

/// Default for `fancy_help` so older config files keep working.
pub fn default_fancy_help() -> (b: bool)
    ensures
        b == spec_default_fancy_help(),
{
    true
}

/// Default cache TTL for help text generation (in seconds).
pub fn default_help_cache_secs() -> (n: u64)
    ensures
        n == spec_default_help_cache_secs(),
{
    60
}

/// `true` or `false`, as `bool`'s `Display` writes it.
pub open spec fn bool_text(b: bool) -> Seq<char> {
    if b {
        "true"@
    } else {
        "false"@
    }
}

/// The text that the `config` console command shows for `c`.
pub open spec fn config_text(c: Config) -> Seq<char> {
    "\nConfiguration:\n  bind_ip: "@ + c.bind_ip@ + "\n  bind_port: "@ + decimal(c.bind_port as nat)
        + "\n  heartbeat_interval_secs: "@ + decimal(c.heartbeat_interval_secs as nat)
        + "\n  fancy_help: "@ + bool_text(c.fancy_help) + "\n  help_cache_secs: "@ + decimal(
        c.help_cache_secs as nat,
    )
}

impl Config {
    /// Whether the console help is styled: the configuration asks for it and
    /// the `NO_COLOR` environment variable is not set.
    pub fn fancy_help_enabled(&self, no_color_set: bool) -> (b: bool)
        ensures
            b == (self.fancy_help && !no_color_set),
    {
        self.fancy_help && !no_color_set
    }

    /// Renders the configuration as the `config` command prints it.
    pub fn summary_text(&self) -> (r: String)
        ensures
            r@ == config_text(*self),
    {
        let mut r = String::new();
        r.append("\nConfiguration:\n  bind_ip: ");
        r.append(self.bind_ip.as_str());
        r.append("\n  bind_port: ");
        let port = decimal_string(self.bind_port as u64);
        r.append(port.as_str());
        r.append("\n  heartbeat_interval_secs: ");
        let hb = decimal_string(self.heartbeat_interval_secs);
        r.append(hb.as_str());
        r.append("\n  fancy_help: ");
        if self.fancy_help {
            r.append("true");
        } else {
            r.append("false");
        }
        r.append("\n  help_cache_secs: ");
        let ttl = decimal_string(self.help_cache_secs);
        r.append(ttl.as_str());
        r
    }
}

} // verus!
