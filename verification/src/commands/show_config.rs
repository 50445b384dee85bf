//! Console command: config/cfg

use vstd::prelude::*;
use crate::commands::{ActionView, CommandAction, CommandRegistry, CommandView};
use crate::config::{config_text, Config};
use crate::text::ascii_lower;

verus! {

/// Register the config command (aliases: "config", "cfg"), which shows `cfg`.
pub fn register(reg: &mut CommandRegistry, cfg: &Config)
    ensures
        final(reg)@ == old(reg)@.push(
            (CommandView {
                keywords: seq!["config"@, "cfg"@],
                description: "Show current server configuration"@,
                action: ActionView::Print(config_text(*cfg)),
            }),
        ),
{
    let text = cfg.summary_text();
    let keywords: [&str; 2] = ["config", "cfg"];
    reg.register(
        keywords.as_slice(),
        "Show current server configuration",
        CommandAction::Print(text),
    );
    proof {
        reveal_strlit("config");
        reveal_strlit("cfg");
        assert(ascii_lower("config"@) =~= "config"@);
        assert(ascii_lower("cfg"@) =~= "cfg"@);
        assert(keywords@.map_values(|k: &str| k@).map_values(|k: Seq<char>| ascii_lower(k))
            =~= seq!["config"@, "cfg"@]);
    }
}

} // verus!
