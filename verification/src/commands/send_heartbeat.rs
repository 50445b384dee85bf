//! Console command: heartbeat/hb

use vstd::prelude::*;
use crate::commands::{ActionView, CommandAction, CommandRegistry, CommandView};
use crate::json::{heartbeat_payload, heartbeat_text};
use crate::text::ascii_lower;

verus! {

/// Register the heartbeat command (aliases: "heartbeat", "hb"), which
/// broadcasts `{"type": "heartbeat", "data": "manual"}`.
pub fn register(reg: &mut CommandRegistry)
    ensures
        final(reg)@ == old(reg)@.push(
            (CommandView {
                keywords: seq!["heartbeat"@, "hb"@],
                description: "Send a heartbeat JSON payload to all clients"@,
                action: ActionView::Broadcast(heartbeat_text("manual"@)),
            }),
        ),
{
    let payload = heartbeat_payload("manual");
    let keywords: [&str; 2] = ["heartbeat", "hb"];
    reg.register(
        keywords.as_slice(),
        "Send a heartbeat JSON payload to all clients",
        CommandAction::Broadcast(payload),
    );
    proof {
        reveal_strlit("heartbeat");
        reveal_strlit("hb");
        assert(ascii_lower("heartbeat"@) =~= "heartbeat"@);
        assert(ascii_lower("hb"@) =~= "hb"@);
        assert(keywords@.map_values(|k: &str| k@).map_values(|k: Seq<char>| ascii_lower(k))
            =~= seq!["heartbeat"@, "hb"@]);
    }
}

} // verus!
