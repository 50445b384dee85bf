//! Console command: quit/exit/q

use vstd::prelude::*;
use crate::commands::{ActionView, CommandAction, CommandRegistry, CommandView};
use crate::text::ascii_lower;

verus! {

/// Register the quit command (aliases: "quit", "exit", "q")
pub fn register(reg: &mut CommandRegistry)
    ensures
        final(reg)@ == old(reg)@.push(
            (CommandView {
                keywords: seq!["quit"@, "exit"@, "q"@],
                description: "Disconnect all clients and gracefully shut down the server"@,
                action: ActionView::Quit,
            }),
        ),
{
    let keywords: [&str; 3] = ["quit", "exit", "q"];
    reg.register(
        keywords.as_slice(),
        "Disconnect all clients and gracefully shut down the server",
        CommandAction::Quit,
    );
    proof {
        reveal_strlit("quit");
        reveal_strlit("exit");
        reveal_strlit("q");
        assert(ascii_lower("quit"@) =~= "quit"@);
        assert(ascii_lower("exit"@) =~= "exit"@);
        assert(ascii_lower("q"@) =~= "q"@);
        assert(keywords@.map_values(|k: &str| k@).map_values(|k: Seq<char>| ascii_lower(k))
            =~= seq!["quit"@, "exit"@, "q"@]);
    }
}

} // verus!
