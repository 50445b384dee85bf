//! Console command: disconnect/dc

use vstd::prelude::*;
use crate::commands::{ActionView, CommandAction, CommandRegistry, CommandView};
use crate::text::ascii_lower;

verus! {

/// Register the disconnect command (aliases: "disconnect", "dc")
pub fn register(reg: &mut CommandRegistry)
    ensures
        final(reg)@ == old(reg)@.push(
            (CommandView {
                keywords: seq!["disconnect"@, "dc"@],
                description: "Disconnect all connected WebSocket clients"@,
                action: ActionView::DisconnectAll,
            }),
        ),
{
    let keywords: [&str; 2] = ["disconnect", "dc"];
    reg.register(
        keywords.as_slice(),
        "Disconnect all connected WebSocket clients",
        CommandAction::DisconnectAll,
    );
    proof {
        reveal_strlit("disconnect");
        reveal_strlit("dc");
        assert(ascii_lower("disconnect"@) =~= "disconnect"@);
        assert(ascii_lower("dc"@) =~= "dc"@);
        assert(keywords@.map_values(|k: &str| k@).map_values(|k: Seq<char>| ascii_lower(k))
            =~= seq!["disconnect"@, "dc"@]);
    }
}

} // verus!
