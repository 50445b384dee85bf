//! The console command registry: keywords, descriptions and the action that
//! each command stands for, with lookup, listing and help rendering.

pub mod disconnect;
pub mod dynamic_payload;
pub mod help;
pub mod quit;
pub mod send_heartbeat;
pub mod show_config;

use vstd::prelude::*;
use crate::state::ControlCommand;
use crate::text::{ascii_lower, chars_of, is_infix, join_strings, lemma_infix_in_concat, lemma_infix_self, lemma_infix_trans, lemma_join_keeps_items, seq_join, total_len, lower_chars, string_from_chars, to_ascii_lowercase, trim, trim_chars};

verus! {

/// What a console command does when it runs.
#[derive(Debug, PartialEq, Eq)]
pub enum CommandAction {
    /// Broadcast a JSON payload to every connected client.
    Broadcast(String),
    /// Disconnect every connected client.
    DisconnectAll,
    /// Disconnect every client, then shut the server down.
    Quit,
    /// Show a text on the console.
    Print(String),
    /// Show the (cached) help text.
    ShowHelp,
    /// Reload the payload commands from their file.
    Reload,
}

/// The mathematical form of a [`CommandAction`].
pub enum ActionView {
    Broadcast(Seq<char>),
    DisconnectAll,
    Quit,
    Print(Seq<char>),
    ShowHelp,
    Reload,
}

impl View for CommandAction {
    type V = ActionView;

    open spec fn view(&self) -> ActionView {
        match self {
            CommandAction::Broadcast(p) => ActionView::Broadcast(p@),
            CommandAction::DisconnectAll => ActionView::DisconnectAll,
            CommandAction::Quit => ActionView::Quit,
            CommandAction::Print(t) => ActionView::Print(t@),
            CommandAction::ShowHelp => ActionView::ShowHelp,
            CommandAction::Reload => ActionView::Reload,
        }
    }
}

/// One thing that running a command asks of the server.
#[derive(Debug, PartialEq, Eq)]
pub enum Effect {
    /// Send this JSON text to every client.
    Broadcast(String),
    /// Send this command on the control channel.
    Control(ControlCommand),
    /// Stop the server.
    Shutdown,
    /// Show this text on the console.
    Print(String),
    /// Show the help text.
    ShowHelp,
    /// Reload the payload commands.
    Reload,
}

/// The mathematical form of an [`Effect`].
pub enum EffectView {
    Broadcast(Seq<char>),
    Control(ControlCommand),
    Shutdown,
    Print(Seq<char>),
    ShowHelp,
    Reload,
}

impl View for Effect {
    type V = EffectView;

    open spec fn view(&self) -> EffectView {
        match self {
            Effect::Broadcast(p) => EffectView::Broadcast(p@),
            Effect::Control(c) => EffectView::Control(*c),
            Effect::Shutdown => EffectView::Shutdown,
            Effect::Print(t) => EffectView::Print(t@),
            Effect::ShowHelp => EffectView::ShowHelp,
            Effect::Reload => EffectView::Reload,
        }
    }
}

/// The effects that running an action asks for, in order.
pub open spec fn action_effects(a: ActionView) -> Seq<EffectView> {
    match a {
        ActionView::Broadcast(p) => seq![EffectView::Broadcast(p)],
        ActionView::DisconnectAll => seq![EffectView::Control(ControlCommand::DisconnectAll)],
        ActionView::Quit => seq![
            EffectView::Control(ControlCommand::DisconnectAll),
            EffectView::Shutdown,
        ],
        ActionView::Print(t) => seq![EffectView::Print(t)],
        ActionView::ShowHelp => seq![EffectView::ShowHelp],
        ActionView::Reload => seq![EffectView::Reload],
    }
}

/// Execution context passed to command handlers: the effects they asked for,
/// which the server then carries out in order.
pub struct CommandContext {
    pub effects: Vec<Effect>,
}

impl CommandContext {
    /// A context with no effects yet.
    pub fn new() -> (c: Self)
        ensures
            c.effects@.len() == 0,
    {
        CommandContext { effects: Vec::new() }
    }

    /// The effects asked for so far, as values.
    pub open spec fn effects_view(&self) -> Seq<EffectView> {
        self.effects@.map_values(|e: Effect| e@)
    }

    /// Appends the effects of `action`.
    pub fn run_action(&mut self, action: &CommandAction)
        ensures
            final(self).effects_view() == old(self).effects_view() + action_effects(action@),
    {
        let ghost before = self.effects_view();
        match action {
            CommandAction::Broadcast(p) => {
                self.effects.push(Effect::Broadcast(p.clone()));
            },
            CommandAction::DisconnectAll => {
                self.effects.push(Effect::Control(ControlCommand::DisconnectAll));
            },
            CommandAction::Quit => {
                self.effects.push(Effect::Control(ControlCommand::DisconnectAll));
                self.effects.push(Effect::Shutdown);
            },
            CommandAction::Print(t) => {
                self.effects.push(Effect::Print(t.clone()));
            },
            CommandAction::ShowHelp => {
                self.effects.push(Effect::ShowHelp);
            },
            CommandAction::Reload => {
                self.effects.push(Effect::Reload);
            },
        }
        assert(self.effects_view() =~= before + action_effects(action@));
    }
}

/// A registered command: canonical keyword first, aliases after.
struct Command {
    keywords: Vec<String>,
    description: String,
    action: CommandAction,
}

/// The mathematical form of a registered command.
pub struct CommandView {
    pub keywords: Seq<Seq<char>>,
    pub description: Seq<char>,
    pub action: ActionView,
}

impl View for Command {
    type V = CommandView;

    closed spec fn view(&self) -> CommandView {
        CommandView {
            keywords: self.keywords@.map_values(|k: String| k@),
            description: self.description@,
            action: self.action@,
        }
    }
}

/// Registry for console commands, in registration order.
pub struct CommandRegistry {
    commands: Vec<Command>,
}

impl View for CommandRegistry {
    type V = Seq<CommandView>;

    closed spec fn view(&self) -> Seq<CommandView> {
        self.commands@.map_values(|c: Command| c@)
    }
}

/// The command that an entry registered with these keywords, description and
/// action becomes: keywords are stored ASCII-lowercased.
pub open spec fn registered(keywords: Seq<Seq<char>>, description: Seq<char>, action: ActionView) -> CommandView {
    CommandView {
        keywords: keywords.map_values(|k: Seq<char>| ascii_lower(k)),
        description,
        action,
    }
}

/// The index of the latest registered command that has `needle` among its
/// keywords, if any.
pub open spec fn latest_match(cmds: Seq<CommandView>, needle: Seq<char>) -> Option<int>
    decreases cmds.len(),
{
    if cmds.len() == 0 {
        None
    } else if cmds.last().keywords.contains(needle) {
        Some(cmds.len() - 1)
    } else {
        latest_match(cmds.drop_last(), needle)
    }
}

/// A match is an in-range command that has the keyword, and no later
/// command has it.
pub proof fn lemma_latest_match(cmds: Seq<CommandView>, needle: Seq<char>)
    ensures
        match latest_match(cmds, needle) {
            Some(i) => 0 <= i < cmds.len() && cmds[i].keywords.contains(needle) && forall|j: int|
                i < j < cmds.len() ==> !(#[trigger] cmds[j]).keywords.contains(needle),
            None => forall|j: int| 0 <= j < cmds.len() ==> !(#[trigger] cmds[j]).keywords.contains(
                needle,
            ),
        },
    decreases cmds.len(),
{
    if cmds.len() > 0 && !cmds.last().keywords.contains(needle) {
        lemma_latest_match(cmds.drop_last(), needle);
        assert forall|j: int| 0 <= j < cmds.len() - 1 implies cmds[j] == cmds.drop_last()[j] by {}
    }
}

/// The keyword that a console input is looked up by.
pub open spec fn needle_of(input: Seq<char>) -> Seq<char> {
    ascii_lower(trim(input))
}

/// The command that `input` selects: none for blank input, else the latest
/// registered command with the lowercased, trimmed input as a keyword.
pub open spec fn selected(cmds: Seq<CommandView>, input: Seq<char>) -> Option<int> {
    if needle_of(input).len() == 0 {
        None
    } else {
        latest_match(cmds, needle_of(input))
    }
}

/// Whether `v` holds a string equal to `s`.
pub fn contains_string(v: &Vec<String>, s: &String) -> (b: bool)
    ensures
        b == v@.map_values(|k: String| k@).contains(s@),
{
    let ghost views = v@.map_values(|k: String| k@);
    let mut i: usize = 0;
    while i < v.len()
        invariant
            i <= v.len(),
            views == v@.map_values(|k: String| k@),
            forall|j: int| 0 <= j < i ==> views[j] != s@,
        decreases v.len() - i,
    {
        if v[i] == *s {
            assert(views[i as int] == s@);
            return true;
        }
        i = i + 1;
    }
    false
}

/// The strings that style the help text; empty escapes when plain.
pub struct Styles {
    pub reset: &'static str,
    pub bold: &'static str,
    pub dim: &'static str,
    pub yellow: &'static str,
    pub cyan: &'static str,
    pub magenta: &'static str,
    pub border_h: &'static str,
    pub border_v: &'static str,
    pub border_tl: &'static str,
    pub border_tr: &'static str,
    pub border_bl: &'static str,
    pub border_br: &'static str,
    pub bullet: &'static str,
}

/// ANSI styles and box-drawing borders when `fancy`, plain ASCII otherwise.
pub open spec fn spec_styles(fancy: bool) -> Styles {
    if fancy {
        Styles {
            reset: "\x1b[0m",
            bold: "\x1b[1m",
            dim: "\x1b[2m",
            yellow: "\x1b[33m",
            cyan: "\x1b[36m",
            magenta: "\x1b[35m",
            border_h: "\u{2500}",
            border_v: "\u{2502}",
            border_tl: "\u{250c}",
            border_tr: "\u{2510}",
            border_bl: "\u{2514}",
            border_br: "\u{2518}",
            bullet: "\u{2022}",
        }
    } else {
        Styles {
            reset: "",
            bold: "",
            dim: "",
            yellow: "",
            cyan: "",
            magenta: "",
            border_h: "-",
            border_v: "|",
            border_tl: "+",
            border_tr: "+",
            border_bl: "+",
            border_br: "+",
            bullet: "-",
        }
    }
}

/// The styles for the help text.
fn styles(fancy: bool) -> (s: Styles)
    ensures
        s == spec_styles(fancy),
{
    if fancy {
        Styles {
            reset: "\x1b[0m",
            bold: "\x1b[1m",
            dim: "\x1b[2m",
            yellow: "\x1b[33m",
            cyan: "\x1b[36m",
            magenta: "\x1b[35m",
            border_h: "\u{2500}",
            border_v: "\u{2502}",
            border_tl: "\u{250c}",
            border_tr: "\u{2510}",
            border_bl: "\u{2514}",
            border_br: "\u{2518}",
            bullet: "\u{2022}",
        }
    } else {
        Styles {
            reset: "",
            bold: "",
            dim: "",
            yellow: "",
            cyan: "",
            magenta: "",
            border_h: "-",
            border_v: "|",
            border_tl: "+",
            border_tr: "+",
            border_bl: "+",
            border_br: "+",
            bullet: "-",
        }
    }
}

/// `s` repeated `n` times.
pub open spec fn repeat_seq(s: Seq<char>, n: nat) -> Seq<char>
    decreases n,
{
    if n == 0 {
        seq![]
    } else {
        repeat_seq(s, (n - 1) as nat) + s
    }
}

/// The boxed title and the usage line that open the help text.
pub open spec fn help_header(st: Styles) -> Seq<char> {
    let bar = repeat_seq(st.border_h@, 32);
    st.border_tl@ + bar + st.border_tr@ + "\n"@ + st.border_v@ + " "@ + st.bold@ + st.yellow@
        + " Available commands "@ + st.reset@ + " "@ + st.border_v@ + "\n"@ + st.border_bl@ + bar
        + st.border_br@ + "\n"@ + st.dim@
        + "Type a command, or a one-line JSON payload, then press Enter"@ + st.reset@ + "\n\n"@
}

/// The alias note of a help entry; empty when there are no aliases.
pub open spec fn alias_part(st: Styles, aliases: Seq<Seq<char>>) -> Seq<char> {
    if aliases.len() == 0 {
        seq![]
    } else {
        " "@ + st.dim@ + "(aliases: "@ + st.cyan@ + seq_join(aliases, ", "@) + st.reset@ + st.dim@
            + ")"@ + st.reset@
    }
}

/// The help entry of one command; a command without keywords has none.
pub open spec fn help_entry(st: Styles, c: CommandView) -> Seq<char> {
    if c.keywords.len() == 0 {
        seq![]
    } else {
        "  "@ + st.bullet@ + " "@ + st.bold@ + st.cyan@ + c.keywords[0] + st.reset@ + alias_part(
            st,
            c.keywords.drop_first(),
        ) + "\n     "@ + st.dim@ + "\u{2014} "@ + c.description + st.reset@ + "\n"@
    }
}

/// The help entries of all commands, in registration order.
pub open spec fn help_entries(st: Styles, cmds: Seq<CommandView>) -> Seq<char>
    decreases cmds.len(),
{
    if cmds.len() == 0 {
        seq![]
    } else {
        help_entries(st, cmds.drop_last()) + help_entry(st, cmds.last())
    }
}

/// The whole help text for the registered commands.
pub open spec fn help_text(cmds: Seq<CommandView>, fancy: bool) -> Seq<char> {
    help_header(spec_styles(fancy)) + help_entries(spec_styles(fancy), cmds)
}

/// Appends the header of the help text.
fn push_help_header(out: &mut String, st: &Styles)
    ensures
        final(out)@ == old(out)@ + help_header(*st),
{
    let ghost start = out@;
    out.append(st.border_tl);
    let mut bar = String::new();
    let mut k: usize = 0;
    while k < 32
        invariant
            k <= 32,
            bar@ == repeat_seq(st.border_h@, k as nat),
        decreases 32 - k,
    {
        bar.append(st.border_h);
        k = k + 1;
    }
    out.append(bar.as_str());
    out.append(st.border_tr);
    out.append("\n");
    out.append(st.border_v);
    out.append(" ");
    out.append(st.bold);
    out.append(st.yellow);
    out.append(" Available commands ");
    out.append(st.reset);
    out.append(" ");
    out.append(st.border_v);
    out.append("\n");
    out.append(st.border_bl);
    out.append(bar.as_str());
    out.append(st.border_br);
    out.append("\n");
    out.append(st.dim);
    out.append("Type a command, or a one-line JSON payload, then press Enter");
    out.append(st.reset);
    out.append("\n\n");
    assert(out@ =~= start + help_header(*st));
}

/// The alias note of a help entry for these aliases.
fn alias_note(st: &Styles, aliases: &Vec<String>) -> (r: String)
    ensures
        r@ == alias_part(*st, aliases@.map_values(|k: String| k@)),
{
    let mut r = String::new();
    if aliases.len() > 0 {
        let alias_list = join_strings(aliases, ", ");
        r.append(" ");
        r.append(st.dim);
        r.append("(aliases: ");
        r.append(st.cyan);
        r.append(alias_list.as_str());
        r.append(st.reset);
        r.append(st.dim);
        r.append(")");
        r.append(st.reset);
    }
    assert(r@ =~= alias_part(*st, aliases@.map_values(|k: String| k@)));
    r
}

/// The first keyword of every command that has one, in registration order.
pub open spec fn primary_names(cmds: Seq<CommandView>) -> Seq<Seq<char>>
    decreases cmds.len(),
{
    if cmds.len() == 0 {
        seq![]
    } else if cmds.last().keywords.len() > 0 {
        primary_names(cmds.drop_last()).push(cmds.last().keywords[0])
    } else {
        primary_names(cmds.drop_last())
    }
}

/// `names` with each name kept only at its last occurrence.
pub open spec fn keep_last(names: Seq<Seq<char>>) -> Seq<Seq<char>>
    decreases names.len(),
{
    if names.len() == 0 {
        seq![]
    } else if names.drop_first().contains(names[0]) {
        keep_last(names.drop_first())
    } else {
        seq![names[0]] + keep_last(names.drop_first())
    }
}

/// Keeping the last occurrences loses no name and adds none.
pub proof fn lemma_keep_last_same_names(names: Seq<Seq<char>>)
    ensures
        forall|x: Seq<char>| #[trigger] keep_last(names).contains(x) <==> names.contains(x),
    decreases names.len(),
{
    if names.len() > 0 {
        let rest = names.drop_first();
        lemma_keep_last_same_names(rest);
        assert forall|x: Seq<char>| #[trigger] keep_last(names).contains(x) <==> names.contains(x) by {
            if names.contains(x) && x != names[0] {
                let k = choose|k: int| 0 <= k < names.len() && names[k] == x;
                assert(rest[k - 1] == x);
            }
            if rest.contains(x) {
                let k = choose|k: int| 0 <= k < rest.len() && rest[k] == x;
                assert(names[k + 1] == x);
            }
            if !rest.contains(names[0]) {
                let kl = keep_last(rest);
                assert((seq![names[0]] + kl)[0] == names[0]);
                if kl.contains(x) {
                    let k = choose|k: int| 0 <= k < kl.len() && kl[k] == x;
                    assert((seq![names[0]] + kl)[k + 1] == x);
                }
                if (seq![names[0]] + kl).contains(x) && x != names[0] {
                    let k = choose|k: int| 0 <= k < kl.len() + 1 && (seq![names[0]] + kl)[k] == x;
                    assert(kl[k - 1] == x);
                }
            }
        }
    }
}

/// Keeping the last occurrences leaves no name twice.
pub proof fn lemma_keep_last_no_duplicates(names: Seq<Seq<char>>)
    ensures
        keep_last(names).no_duplicates(),
    decreases names.len(),
{
    if names.len() > 0 {
        let rest = names.drop_first();
        lemma_keep_last_no_duplicates(rest);
        lemma_keep_last_same_names(rest);
        let kl = keep_last(rest);
        if !rest.contains(names[0]) {
            let r = seq![names[0]] + kl;
            assert forall|i: int, j: int| 0 <= i < r.len() && 0 <= j < r.len() && i != j implies r[i]
                != r[j] by {
                if i == 0 && j > 0 {
                    assert(r[j] == kl[j - 1]);
                    assert(kl.contains(r[j]));
                } else if j == 0 && i > 0 {
                    assert(r[i] == kl[i - 1]);
                    assert(kl.contains(r[i]));
                } else if i > 0 && j > 0 {
                    assert(r[i] == kl[i - 1] && r[j] == kl[j - 1]);
                }
            }
        }
    }
}

impl CommandRegistry {
    /// An empty registry.
    pub fn new() -> (r: Self)
        ensures
            r@ == Seq::<CommandView>::empty(),
    {
        let r = CommandRegistry { commands: Vec::new() };
        assert(r@ =~= Seq::<CommandView>::empty());
        r
    }

    /// Register a command with keywords and description.
    pub fn register(&mut self, keywords: &[&str], description: &str, action: CommandAction)
        ensures
            final(self)@ == old(self)@.push(
                registered(keywords@.map_values(|k: &str| k@), description@, action@),
            ),
    {
        let ghost kv = keywords@.map_values(|k: &str| k@);
        let mut kws: Vec<String> = Vec::new();
        let mut i: usize = 0;
        while i < keywords.len()
            invariant
                i <= keywords@.len(),
                kv == keywords@.map_values(|k: &str| k@),
                kws@.len() == i,
                forall|j: int| 0 <= j < i ==> (#[trigger] kws@[j])@ == ascii_lower(kv[j]),
            decreases keywords@.len() - i,
        {
            let k = to_ascii_lowercase(keywords[i]);
            kws.push(k);
            i = i + 1;
        }
        assert(kws@.map_values(|k: String| k@) =~= kv.map_values(|k: Seq<char>| ascii_lower(k)));
        let description = String::from_str(description);
        let cmd = Command { keywords: kws, description, action };
        let ghost old_view = self@;
        self.commands.push(cmd);
        assert(self@ =~= old_view.push(cmd@));
    }

    /// Whether the command at `index` has `needle` among its keywords.
    fn has_keyword(&self, index: usize, needle: &String) -> (b: bool)
        requires
            index < self@.len(),
        ensures
            b == self@[index as int].keywords.contains(needle@),
    {
        contains_string(&self.commands[index].keywords, needle)
    }

    /// The index of the latest command with keyword `needle`.
    fn find_latest(&self, needle: &String) -> (r: Option<usize>)
        ensures
            r matches Some(i) ==> latest_match(self@, needle@) == Some(i as int),
            r is None ==> latest_match(self@, needle@) is None,
    {
        let mut i: usize = self.commands.len();
        assert(self@.take(i as int) =~= self@);
        while i > 0
            invariant
                i <= self@.len(),
                self@.len() == self.commands@.len(),
                latest_match(self@, needle@) == latest_match(self@.take(i as int), needle@),
            decreases i,
        {
            let found = self.has_keyword(i - 1, needle);
            assert(self@.take(i as int).last() == self@[i - 1]);
            if found {
                return Some(i - 1);
            }
            assert(self@.take(i as int).drop_last() =~= self@.take(i - 1));
            i = i - 1;
        }
        None
    }

    /// Attempt to parse and execute a command. Returns true if consumed.
    pub fn parse_and_execute(&self, input: &str, ctx: &mut CommandContext) -> (consumed: bool)
        ensures
            consumed == (selected(self@, input@) is Some),
            match selected(self@, input@) {
                Some(i) => final(ctx).effects_view() == old(ctx).effects_view() + action_effects(
                    self@[i].action,
                ),
                None => final(ctx).effects_view() == old(ctx).effects_view(),
            },
    {
        let chars = chars_of(input);
        let trimmed = trim_chars(&chars);
        let lowered = lower_chars(&trimmed);
        if lowered.len() == 0 {
            return false;
        }
        let needle = string_from_chars(&lowered);
        assert(needle@ == needle_of(input@));
        proof {
            lemma_latest_match(self@, needle@);
        }
        match self.find_latest(&needle) {
            Some(i) => {
                assert(self.commands@[i as int]@ == self@[i as int]);
                ctx.run_action(&self.commands[i].action);
                assert(needle_of(input@).len() != 0);
                assert(latest_match(self@, needle@) == Some(i as int));
                assert(selected(self@, input@) == Some(i as int));
                true
            },
            None => false,
        }
    }

    /// The aliases (keywords after the first) of the command at `index`.
    fn aliases_of(&self, index: usize) -> (rest: Vec<String>)
        requires
            index < self@.len(),
            self@[index as int].keywords.len() > 0,
        ensures
            rest@.map_values(|k: String| k@) == self@[index as int].keywords.drop_first(),
    {
        let cmd = &self.commands[index];
        assert(cmd@ == self@[index as int]);
        let ghost kv = cmd.keywords@.map_values(|k: String| k@);
        let mut rest: Vec<String> = Vec::new();
        let mut i: usize = 1;
        while i < cmd.keywords.len()
            invariant
                1 <= i <= cmd.keywords@.len(),
                kv == cmd.keywords@.map_values(|k: String| k@),
                rest@.len() == i - 1,
                forall|j: int| 0 <= j < i - 1 ==> (#[trigger] rest@[j])@ == kv[j + 1],
            decreases cmd.keywords@.len() - i,
        {
            rest.push(cmd.keywords[i].clone());
            i = i + 1;
        }
        assert(rest@.map_values(|k: String| k@) =~= kv.drop_first());
        rest
    }

    /// Appends the help entry of the command at `index`.
    fn push_help_entry(&self, out: &mut String, st: &Styles, index: usize)
        requires
            index < self@.len(),
        ensures
            final(out)@ == old(out)@ + help_entry(*st, self@[index as int]),
    {
        let ghost start = out@;
        let cmd = &self.commands[index];
        assert(cmd@ == self@[index as int]);
        if cmd.keywords.len() == 0 {
            assert(out@ =~= start + help_entry(*st, self@[index as int]));
            return;
        }
        let rest = self.aliases_of(index);
        let note = alias_note(st, &rest);
        let ghost first = self@[index as int].keywords[0];
        assert(cmd.keywords@[0]@ == first);
        out.append("  ");
        out.append(st.bullet);
        out.append(" ");
        out.append(st.bold);
        out.append(st.cyan);
        out.append(cmd.keywords[0].as_str());
        out.append(st.reset);
        out.append(note.as_str());
        out.append("\n     ");
        out.append(st.dim);
        out.append("\u{2014} ");
        out.append(cmd.description.as_str());
        out.append(st.reset);
        out.append("\n");
        assert(out@ =~= start + help_entry(*st, self@[index as int]));
    }

    /// Build a help text with optional ANSI styling.
    pub fn help_text_with_fancy(&self, fancy: bool) -> (out: String)
        ensures
            out@ == help_text(self@, fancy),
    {
        let st = styles(fancy);
        let mut out = String::new();
        push_help_header(&mut out, &st);
        let ghost header = out@;
        assert(header =~= help_header(st));
        let mut i: usize = 0;
        while i < self.commands.len()
            invariant
                i <= self@.len(),
                self@.len() == self.commands@.len(),
                st == spec_styles(fancy),
                out@ == header + help_entries(st, self@.take(i as int)),
            decreases self@.len() - i,
        {
            self.push_help_entry(&mut out, &st, i);
            assert(self@.take(i + 1).drop_last() =~= self@.take(i as int));
            i = i + 1;
            assert(out@ =~= header + help_entries(st, self@.take(i as int)));
        }
        assert(self@.take(self@.len() as int) =~= self@);
        out
    }

    /// The first keyword of every command that has one, in order.
    fn primary_name_list(&self) -> (names: Vec<String>)
        ensures
            names@.map_values(|k: String| k@) == primary_names(self@),
    {
        let mut names: Vec<String> = Vec::new();
        let mut i: usize = 0;
        while i < self.commands.len()
            invariant
                i <= self@.len(),
                self@.len() == self.commands@.len(),
                names@.map_values(|k: String| k@) == primary_names(self@.take(i as int)),
            decreases self@.len() - i,
        {
            let cmd = &self.commands[i];
            assert(cmd@ == self@[i as int]);
            assert(self@.take(i + 1).drop_last() =~= self@.take(i as int));
            assert(self@.take(i + 1).last() == self@[i as int]);
            let ghost before = names@;
            if cmd.keywords.len() > 0 {
                names.push(cmd.keywords[0].clone());
                assert(names@.map_values(|k: String| k@) =~= before.map_values(|k: String| k@).push(
                    self@[i as int].keywords[0],
                ));
            }
            i = i + 1;
        }
        assert(self@.take(self@.len() as int) =~= self@);
        names
    }

    /// Return the list of distinct primary command names, with latest registration winning
    pub fn primary_names_distinct(&self) -> (out: Vec<String>)
        ensures
            out@.map_values(|k: String| k@) == keep_last(primary_names(self@)),
    {
        let names = self.primary_name_list();
        let ghost nv = names@.map_values(|k: String| k@);
        let n = names.len();
        let mut out: Vec<String> = Vec::new();
        let mut i: usize = n;
        assert(nv.subrange(n as int, n as int) =~= Seq::<Seq<char>>::empty());
        while i > 0
            invariant
                i <= n == names@.len() == nv.len(),
                nv == names@.map_values(|k: String| k@),
                out@.map_values(|k: String| k@) == keep_last(nv.subrange(i as int, n as int)),
            decreases i,
        {
            let ghost t = nv.subrange(i - 1, n as int);
            assert(t.drop_first() =~= nv.subrange(i as int, n as int));
            assert(t[0] == names@[i - 1]@);
            proof {
                lemma_keep_last_same_names(nv.subrange(i as int, n as int));
            }
            let ghost before = out@;
            if !contains_string(&out, &names[i - 1]) {
                out.insert(0, names[i - 1].clone());
                assert(out@.map_values(|k: String| k@) =~= seq![t[0]] + before.map_values(
                    |k: String| k@,
                ));
            }
            i = i - 1;
        }
        assert(nv.subrange(0, n as int) =~= nv);
        out
    }
}

} // verus!

verus! {

/// Registering a command makes each of its keywords select it.
pub proof fn lemma_register_selects_new(cmds: Seq<CommandView>, c: CommandView, needle: Seq<char>)
    requires
        c.keywords.contains(needle),
    ensures
        latest_match(cmds.push(c), needle) == Some(cmds.len() as int),
{
    assert(cmds.push(c).last() == c);
}

/// Registering a command leaves the selection of every other keyword as it
/// was.
pub proof fn lemma_register_keeps_other_selections(
    cmds: Seq<CommandView>,
    c: CommandView,
    needle: Seq<char>,
)
    requires
        !c.keywords.contains(needle),
    ensures
        latest_match(cmds.push(c), needle) == latest_match(cmds, needle),
{
    assert(cmds.push(c).last() == c);
    assert(cmds.push(c).drop_last() =~= cmds);
}

/// When two commands share a keyword, the later registration wins.
pub proof fn lemma_later_registration_wins(
    cmds: Seq<CommandView>,
    earlier: CommandView,
    later: CommandView,
    needle: Seq<char>,
)
    requires
        earlier.keywords.contains(needle),
        later.keywords.contains(needle),
    ensures
        latest_match(cmds.push(earlier).push(later), needle) == Some(cmds.len() + 1 as int),
{
    lemma_register_selects_new(cmds.push(earlier), later, needle);
}

/// Lookup ignores ASCII case: an input selects what its lowercase form
/// selects.
pub proof fn lemma_selection_ignores_case(cmds: Seq<CommandView>, input: Seq<char>)
    ensures
        selected(cmds, ascii_lower(input)) == selected(cmds, input),
{
    crate::text::lemma_trim_lower_commute(input);
    crate::text::lemma_ascii_lower_idempotent(trim(input));
    assert(trim(input).map_values(|c: char| crate::text::lower_char(c)) == ascii_lower(
        trim(input),
    ));
}

/// Lookup ignores surrounding whitespace.
pub proof fn lemma_selection_ignores_padding(cmds: Seq<CommandView>, input: Seq<char>)
    ensures
        selected(cmds, trim(input)) == selected(cmds, input),
{
    crate::text::lemma_trim_idempotent(input);
}

/// A blank input selects nothing.
pub proof fn lemma_blank_selects_nothing(cmds: Seq<CommandView>, input: Seq<char>)
    requires
        trim(input).len() == 0,
    ensures
        selected(cmds, input) is None,
{
}

/// The distinct primary names hold each primary name exactly once.
pub proof fn lemma_primary_names_distinct(cmds: Seq<CommandView>)
    ensures
        keep_last(primary_names(cmds)).no_duplicates(),
        forall|x: Seq<char>| #[trigger]
            keep_last(primary_names(cmds)).contains(x) <==> primary_names(cmds).contains(x),
{
    lemma_keep_last_no_duplicates(primary_names(cmds));
    lemma_keep_last_same_names(primary_names(cmds));
}

/// Registering a command adds its entry at the end of the help text.
pub proof fn lemma_help_grows_by_entry(cmds: Seq<CommandView>, c: CommandView, fancy: bool)
    ensures
        help_text(cmds.push(c), fancy) == help_text(cmds, fancy) + help_entry(spec_styles(fancy), c),
{
    assert(cmds.push(c).drop_last() =~= cmds);
    assert(cmds.push(c).last() == c);
    let st = spec_styles(fancy);
    assert(help_text(cmds.push(c), fancy) =~= help_header(st) + help_entries(st, cmds) + help_entry(
        st,
        c,
    ));
}

/// Every keyword a registration stores is already lowercase, so lookups by
/// a lowercased needle can find it.
pub proof fn lemma_registered_keywords_lowercase(
    keywords: Seq<Seq<char>>,
    description: Seq<char>,
    action: ActionView,
)
    ensures
        forall|i: int|
            0 <= i < keywords.len() ==> ascii_lower(
                #[trigger] registered(keywords, description, action).keywords[i],
            ) == registered(keywords, description, action).keywords[i],
{
    assert forall|i: int| 0 <= i < keywords.len() implies ascii_lower(
        #[trigger] registered(keywords, description, action).keywords[i],
    ) == registered(keywords, description, action).keywords[i] by {
        crate::text::lemma_ascii_lower_idempotent(keywords[i]);
    }
}

/// The alias note of a help entry shows every alias whole, and is exactly
/// its fixed frame plus the aliases with one ", " between each two: no alias
/// is dropped, repeated or altered.
pub proof fn lemma_alias_note_shows_every_alias(st: Styles, aliases: Seq<Seq<char>>)
    ensures
        forall|i: int|
            0 <= i < aliases.len() ==> is_infix(#[trigger] aliases[i], alias_part(st, aliases)),
        aliases.len() > 0 ==> alias_part(st, aliases).len() == (" "@ + st.dim@ + "(aliases: "@
            + st.cyan@ + st.reset@ + st.dim@ + ")"@ + st.reset@).len() + total_len(aliases)
            + ", "@.len() * (aliases.len() - 1),
        aliases.len() == 0 ==> alias_part(st, aliases).len() == 0,
{
    lemma_join_keeps_items(aliases, ", "@);
    if aliases.len() > 0 {
        let pre = " "@ + st.dim@ + "(aliases: "@ + st.cyan@;
        let post = st.reset@ + st.dim@ + ")"@ + st.reset@;
        let j = seq_join(aliases, ", "@);
        assert(alias_part(st, aliases) =~= pre + j + post);
        assert forall|i: int| 0 <= i < aliases.len() implies is_infix(
            #[trigger] aliases[i],
            alias_part(st, aliases),
        ) by {
            lemma_infix_in_concat(aliases[i], pre, j, post);
        }
    }
}

/// Every help entry of the registered commands occurs in the help text.
proof fn lemma_help_entries_hold_each(st: Styles, cmds: Seq<CommandView>, i: int)
    requires
        0 <= i < cmds.len(),
    ensures
        is_infix(help_entry(st, cmds[i]), help_entries(st, cmds)),
    decreases cmds.len(),
{
    let init = cmds.drop_last();
    if i == cmds.len() - 1 {
        lemma_infix_self(help_entry(st, cmds[i]));
        lemma_infix_in_concat(help_entry(st, cmds[i]), help_entries(st, init), help_entry(st, cmds[i]), seq![]);
        assert(help_entries(st, init) + help_entry(st, cmds[i]) + seq![] =~= help_entries(st, cmds));
    } else {
        lemma_help_entries_hold_each(st, init, i);
        assert(init[i] == cmds[i]);
        lemma_infix_in_concat(help_entry(st, cmds[i]), seq![], help_entries(st, init), help_entry(st, cmds.last()));
        assert(seq![] + help_entries(st, init) + help_entry(st, cmds.last()) =~= help_entries(st, cmds));
    }
}

/// The help text shows every alias of every registered command, whole.
pub proof fn lemma_help_shows_every_alias(cmds: Seq<CommandView>, fancy: bool, i: int, k: int)
    requires
        0 <= i < cmds.len(),
        1 <= k < cmds[i].keywords.len(),
    ensures
        is_infix(cmds[i].keywords[k], help_text(cmds, fancy)),
{
    let st = spec_styles(fancy);
    let c = cmds[i];
    let aliases = c.keywords.drop_first();
    lemma_alias_note_shows_every_alias(st, aliases);
    assert(aliases[k - 1] == c.keywords[k]);
    assert(is_infix(aliases[k - 1], alias_part(st, aliases)));
    let pre = "  "@ + st.bullet@ + " "@ + st.bold@ + st.cyan@ + c.keywords[0] + st.reset@;
    let post = "\n     "@ + st.dim@ + "\u{2014} "@ + c.description + st.reset@ + "\n"@;
    assert(help_entry(st, c) =~= pre + alias_part(st, aliases) + post);
    lemma_infix_self(alias_part(st, aliases));
    lemma_infix_in_concat(alias_part(st, aliases), pre, alias_part(st, aliases), post);
    lemma_infix_trans(c.keywords[k], alias_part(st, aliases), help_entry(st, c));
    lemma_help_entries_hold_each(st, cmds, i);
    lemma_infix_trans(c.keywords[k], help_entry(st, c), help_entries(st, cmds));
    lemma_infix_self(help_entries(st, cmds));
    lemma_infix_in_concat(help_entries(st, cmds), help_header(st), help_entries(st, cmds), seq![]);
    assert(help_header(st) + help_entries(st, cmds) + seq![] =~= help_text(cmds, fancy));
    lemma_infix_trans(c.keywords[k], help_entries(st, cmds), help_text(cmds, fancy));
}

} // verus!
