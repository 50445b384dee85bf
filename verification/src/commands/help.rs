//! Console command: help/?

use vstd::prelude::*;
use crate::commands::{help_text, ActionView, CommandAction, CommandRegistry, CommandView};
use crate::text::ascii_lower;

verus! {

/// Nanoseconds in one second.
pub const NANOS_PER_SEC: u128 = 1_000_000_000;

/// The help text last rendered, when it was rendered, and how long it stays
/// fresh. Times are nanoseconds on one monotonic clock.
pub struct HelpCache {
    pub fancy: bool,
    pub ttl_secs: u64,
    pub rendered_at: u128,
    pub text: String,
}

/// Time elapsed from `from` to `now`; zero when `now` is earlier, as
/// `Instant::duration_since` saturates.
pub open spec fn elapsed(from: u128, now: u128) -> int {
    if now >= from {
        now - from
    } else {
        0
    }
}

/// Whether a text rendered at `rendered_at` has to be rendered again at `now`.
pub open spec fn refresh_due(rendered_at: u128, now: u128, ttl_secs: u64) -> bool {
    elapsed(rendered_at, now) >= ttl_secs * NANOS_PER_SEC
}

impl HelpCache {
    /// The help text to show at `now`: the cached text while it is fresh,
    /// else a new rendering of `reg`, which then replaces the cache.
    pub fn text_at(&mut self, now: u128, reg: &CommandRegistry) -> (r: String)
        ensures
            final(self).fancy == old(self).fancy,
            final(self).ttl_secs == old(self).ttl_secs,
            refresh_due(old(self).rendered_at, now, old(self).ttl_secs) ==> {
                &&& final(self).text@ == help_text(reg@, old(self).fancy)
                &&& final(self).rendered_at == now
            },
            !refresh_due(old(self).rendered_at, now, old(self).ttl_secs) ==> *final(self)
                == *old(self),
            r@ == final(self).text@,
    {
        let age: u128 = if now >= self.rendered_at {
            now - self.rendered_at
        } else {
            0
        };
        let ttl: u128 = (self.ttl_secs as u128) * NANOS_PER_SEC;
        if age >= ttl {
            self.text = reg.help_text_with_fancy(self.fancy);
            self.rendered_at = now;
        }
        self.text.clone()
    }
}

/// Register the help command with optional fancy styling and a cache TTL.
/// The cache starts with the help of the commands registered so far,
/// rendered at `now`.
pub fn register(reg: &mut CommandRegistry, fancy: bool, ttl_secs: u64, now: u128) -> (cache:
    HelpCache)
    ensures
        final(reg)@ == old(reg)@.push(
            (CommandView {
                keywords: seq!["help"@, "?"@],
                description: "Show this help message"@,
                action: ActionView::ShowHelp,
            }),
        ),
        cache.text@ == help_text(old(reg)@, fancy),
        cache.fancy == fancy,
        cache.ttl_secs == ttl_secs,
        cache.rendered_at == now,
{
    let initial = reg.help_text_with_fancy(fancy);
    let keywords: [&str; 2] = ["help", "?"];
    reg.register(keywords.as_slice(), "Show this help message", CommandAction::ShowHelp);
    proof {
        reveal_strlit("help");
        reveal_strlit("?");
        assert(ascii_lower("help"@) =~= "help"@);
        assert(ascii_lower("?"@) =~= "?"@);
        assert(keywords@.map_values(|k: &str| k@).map_values(|k: Seq<char>| ascii_lower(k))
            =~= seq!["help"@, "?"@]);
    }
    HelpCache { fancy, ttl_secs, rendered_at: now, text: initial }
}

} // verus!

verus! {

/// A text rendered at `now` is fresh at `now` unless the TTL is zero.
pub proof fn lemma_fresh_when_just_rendered(now: u128, ttl_secs: u64)
    ensures
        refresh_due(now, now, ttl_secs) <==> ttl_secs == 0,
{
}

/// A cached text stays fresh until the TTL has fully elapsed and is due from
/// then on.
pub proof fn lemma_refresh_due_after_ttl(rendered_at: u128, now: u128, ttl_secs: u64)
    ensures
        now >= rendered_at ==> (refresh_due(rendered_at, now, ttl_secs) <==> now - rendered_at
            >= ttl_secs * NANOS_PER_SEC),
        now < rendered_at ==> (refresh_due(rendered_at, now, ttl_secs) <==> ttl_secs == 0),
{
}

} // verus!
