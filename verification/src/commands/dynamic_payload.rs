//! Payload commands defined in `commands.toml`: each broadcasts a fixed JSON
//! payload.

use vstd::prelude::*;
use crate::commands::{
    contains_string, keep_last, lemma_keep_last_same_names, primary_names, registered,
    ActionView, CommandAction, CommandRegistry, CommandView,
};
use crate::json::{typed_payload, typed_payload_text};
use crate::text::{ascii_lower, join_strings, seq_join};

verus! {

/// One payload command as the file describes it; JSON values are held as
/// their JSON text.
pub struct PayloadCommand {
    /// Primary command name
    pub name: String,
    /// Optional aliases
    pub aliases: Vec<String>,
    /// Shorthand payload: JSON "type"
    pub type_: Option<String>,
    /// Shorthand payload: JSON text of "data"
    pub data: Option<String>,
    /// Full payload override: JSON text
    pub payload: Option<String>,
    /// Optional custom description
    pub description: Option<String>,
}

/// The mathematical form of a [`PayloadCommand`].
pub struct PayloadCommandView {
    pub name: Seq<char>,
    pub aliases: Seq<Seq<char>>,
    pub type_: Option<Seq<char>>,
    pub data: Option<Seq<char>>,
    pub payload: Option<Seq<char>>,
    pub description: Option<Seq<char>>,
}

/// The view of an optional string.
pub open spec fn opt_view(o: Option<String>) -> Option<Seq<char>> {
    match o {
        Some(s) => Some(s@),
        None => None,
    }
}

impl View for PayloadCommand {
    type V = PayloadCommandView;

    open spec fn view(&self) -> PayloadCommandView {
        PayloadCommandView {
            name: self.name@,
            aliases: self.aliases@.map_values(|a: String| a@),
            type_: opt_view(self.type_),
            data: opt_view(self.data),
            payload: opt_view(self.payload),
            description: opt_view(self.description),
        }
    }
}

/// What loading a batch of payload commands found.
pub struct PayloadReport {
    /// Keywords (names and aliases) that an earlier command of the batch
    /// already used, in the order met; the later one wins.
    pub duplicate_keywords: Vec<String>,
    /// Names that were already a primary command name before the batch.
    pub overridden: Vec<String>,
    /// The names of all commands of the batch, in order.
    pub loaded: Vec<String>,
}

/// The keywords of a payload command: its name, then its aliases.
pub open spec fn payload_keywords(c: PayloadCommandView) -> Seq<Seq<char>> {
    seq![c.name] + c.aliases
}

/// The description of a payload command: the given one, else one naming the
/// payload type.
pub open spec fn payload_description(c: PayloadCommandView) -> Seq<char> {
    match c.description {
        Some(d) => d,
        None => match c.type_ {
            Some(t) => "Send predefined payload: "@ + t,
            None => "Send predefined payload"@,
        },
    }
}

/// The payload a command broadcasts: the full payload when given, else
/// `{"type": <type or "custom">, "data": <data or null>}`.
pub open spec fn payload_text(c: PayloadCommandView) -> Seq<char> {
    match c.payload {
        Some(p) => p,
        None => typed_payload_text(
            match c.type_ {
                Some(t) => t,
                None => "custom"@,
            },
            match c.data {
                Some(d) => d,
                None => "null"@,
            },
        ),
    }
}

/// The registry entry of a payload command.
pub open spec fn payload_entry(c: PayloadCommandView) -> CommandView {
    registered(payload_keywords(c), payload_description(c), ActionView::Broadcast(payload_text(c)))
}

/// The registry entries of a batch, in order.
pub open spec fn payload_entries(cmds: Seq<PayloadCommandView>) -> Seq<CommandView> {
    cmds.map_values(|c: PayloadCommandView| payload_entry(c))
}

/// The names of a batch, in order.
pub open spec fn names_of(cmds: Seq<PayloadCommandView>) -> Seq<Seq<char>> {
    cmds.map_values(|c: PayloadCommandView| c.name)
}

/// Every keyword of a batch, command by command.
pub open spec fn all_keywords(cmds: Seq<PayloadCommandView>) -> Seq<Seq<char>>
    decreases cmds.len(),
{
    if cmds.len() == 0 {
        seq![]
    } else {
        all_keywords(cmds.drop_last()) + payload_keywords(cmds.last())
    }
}

/// The keywords that occur earlier in `keys`, in the order met.
pub open spec fn repeated(keys: Seq<Seq<char>>) -> Seq<Seq<char>>
    decreases keys.len(),
{
    if keys.len() == 0 {
        seq![]
    } else if keys.drop_last().contains(keys.last()) {
        repeated(keys.drop_last()).push(keys.last())
    } else {
        repeated(keys.drop_last())
    }
}

/// The names of `names` that occur in `existing`, in order.
pub open spec fn names_in(names: Seq<Seq<char>>, existing: Seq<Seq<char>>) -> Seq<Seq<char>>
    decreases names.len(),
{
    if names.len() == 0 {
        seq![]
    } else if existing.contains(names.last()) {
        names_in(names.drop_last(), existing).push(names.last())
    } else {
        names_in(names.drop_last(), existing)
    }
}

/// The text that the `commands` command shows for the loaded names.
pub open spec fn list_text(names: Seq<Seq<char>>) -> Seq<char> {
    if names.len() == 0 {
        "(commands.toml) No dynamic commands loaded"@
    } else {
        "(commands.toml) Dynamic commands: "@ + seq_join(names, ", "@)
    }
}

/// The entry of the `commands` command that lists the loaded names.
pub open spec fn list_entry(names: Seq<Seq<char>>) -> CommandView {
    CommandView {
        keywords: seq!["commands"@, "cmds"@],
        description: "List dynamically loaded commands"@,
        action: ActionView::Print(list_text(names)),
    }
}

/// The keywords of `c`: its name, then its aliases.
fn keywords_of(c: &PayloadCommand) -> (keys: Vec<String>)
    ensures
        keys@.map_values(|k: String| k@) == payload_keywords(c@),
{
    let mut keys: Vec<String> = Vec::new();
    keys.push(c.name.clone());
    let ghost av = c.aliases@.map_values(|a: String| a@);
    let mut i: usize = 0;
    while i < c.aliases.len()
        invariant
            i <= c.aliases@.len(),
            av == c.aliases@.map_values(|a: String| a@),
            keys@.len() == i + 1,
            keys@[0]@ == c.name@,
            forall|j: int| 0 <= j < i ==> (#[trigger] keys@[j + 1])@ == av[j],
        decreases c.aliases@.len() - i,
    {
        keys.push(c.aliases[i].clone());
        i = i + 1;
    }
    assert forall|m: int| 0 <= m < keys@.len() implies keys@.map_values(|k: String| k@)[m]
        == payload_keywords(c@)[m] by {
        if m > 0 {
            assert(keys@[(m - 1) + 1]@ == av[m - 1]);
        }
    }
    assert(keys@.map_values(|k: String| k@) =~= payload_keywords(c@));
    keys
}

/// The description of `c`.
fn description_of(c: &PayloadCommand) -> (d: String)
    ensures
        d@ == payload_description(c@),
{
    match &c.description {
        Some(d) => d.clone(),
        None => match &c.type_ {
            Some(t) => {
                let mut d = String::from_str("Send predefined payload: ");
                d.append(t.as_str());
                d
            },
            None => String::from_str("Send predefined payload"),
        },
    }
}

/// The payload that `c` broadcasts.
fn payload_of(c: &PayloadCommand) -> (p: String)
    ensures
        p@ == payload_text(c@),
{
    match &c.payload {
        Some(p) => p.clone(),
        None => {
            let kind: &str = match &c.type_ {
                Some(t) => t.as_str(),
                None => "custom",
            };
            let data: &str = match &c.data {
                Some(d) => d.as_str(),
                None => "null",
            };
            typed_payload(kind, data)
        },
    }
}

/// The text of the `commands` command.
fn list_text_of(names: &Vec<String>) -> (t: String)
    ensures
        t@ == list_text(names@.map_values(|k: String| k@)),
{
    if names.len() == 0 {
        String::from_str("(commands.toml) No dynamic commands loaded")
    } else {
        let mut t = String::from_str("(commands.toml) Dynamic commands: ");
        let joined = join_strings(names, ", ");
        t.append(joined.as_str());
        t
    }
}

/// Registers a command for each payload command of the batch, in order,
/// then the `commands` command listing their names, and reports repeated
/// keywords and overridden names.
pub fn register_commands(reg: &mut CommandRegistry, commands: &Vec<PayloadCommand>) -> (report:
    PayloadReport)
    ensures
        final(reg)@ == old(reg)@ + payload_entries(commands@.map_values(|c: PayloadCommand| c@))
            + seq![list_entry(names_of(commands@.map_values(|c: PayloadCommand| c@)))],
        report.duplicate_keywords@.map_values(|k: String| k@) == repeated(
            all_keywords(commands@.map_values(|c: PayloadCommand| c@)),
        ),
        report.overridden@.map_values(|k: String| k@) == names_in(
            names_of(commands@.map_values(|c: PayloadCommand| c@)),
            primary_names(old(reg)@),
        ),
        report.loaded@.map_values(|k: String| k@) == names_of(
            commands@.map_values(|c: PayloadCommand| c@),
        ),
{
    let ghost cv = commands@.map_values(|c: PayloadCommand| c@);
    let ghost start = reg@;
    let existing = reg.primary_names_distinct();
    proof {
        lemma_keep_last_same_names(primary_names(start));
    }
    let mut processed: Vec<String> = Vec::new();
    let mut duplicates: Vec<String> = Vec::new();
    let mut overridden: Vec<String> = Vec::new();
    let mut loaded: Vec<String> = Vec::new();
    let mut i: usize = 0;
    while i < commands.len()
        invariant
            i <= commands@.len(),
            cv == commands@.map_values(|c: PayloadCommand| c@),
            existing@.map_values(|k: String| k@) == keep_last(primary_names(start)),
            forall|x: Seq<char>| #[trigger]
                keep_last(primary_names(start)).contains(x) <==> primary_names(start).contains(x),
            reg@ == start + payload_entries(cv.take(i as int)),
            processed@.map_values(|k: String| k@) == all_keywords(cv.take(i as int)),
            duplicates@.map_values(|k: String| k@) == repeated(all_keywords(cv.take(i as int))),
            overridden@.map_values(|k: String| k@) == names_in(
                names_of(cv.take(i as int)),
                primary_names(start),
            ),
            loaded@.map_values(|k: String| k@) == names_of(cv.take(i as int)),
        decreases commands@.len() - i,
    {
        let c = &commands[i];
        assert(cv[i as int] == c@);
        let keys = keywords_of(c);
        let ghost kv = keys@.map_values(|k: String| k@);
        let ghost base = processed@.map_values(|k: String| k@);
        let mut j: usize = 0;
        let mut key_refs: Vec<&str> = Vec::new();
        while j < keys.len()
            invariant
                j <= keys@.len(),
                kv == keys@.map_values(|k: String| k@),
                processed@.map_values(|k: String| k@) == base + kv.take(j as int),
                duplicates@.map_values(|k: String| k@) == repeated(base + kv.take(j as int)),
                key_refs@.len() == j,
                forall|m: int| 0 <= m < j ==> (#[trigger] key_refs@[m])@ == kv[m],
            decreases keys@.len() - j,
        {
            let ghost seen = base + kv.take(j as int);
            assert(seen + kv.take(j + 1).subrange(j as int, j + 1) =~= base + kv.take(j + 1));
            assert((base + kv.take(j + 1)).drop_last() =~= seen);
            assert((base + kv.take(j + 1)).last() == kv[j as int]);
            let ghost dv = duplicates@;
            if contains_string(&processed, &keys[j]) {
                duplicates.push(keys[j].clone());
                assert(duplicates@.map_values(|k: String| k@) =~= dv.map_values(|k: String| k@).push(
                    kv[j as int],
                ));
            }
            let ghost pv = processed@;
            processed.push(keys[j].clone());
            assert(processed@.map_values(|k: String| k@) =~= pv.map_values(|k: String| k@).push(
                kv[j as int],
            ));
            key_refs.push(keys[j].as_str());
            j = j + 1;
        }
        assert(kv.take(kv.len() as int) =~= kv);
        assert(cv.take(i + 1).drop_last() =~= cv.take(i as int));
        assert(cv.take(i + 1).last() == c@);
        assert(key_refs@.map_values(|k: &str| k@) =~= kv);
        let ghost ov = overridden@;
        let ghost nn = names_of(cv.take(i + 1));
        assert(nn.drop_last() =~= names_of(cv.take(i as int)));
        assert(nn.last() == c@.name);
        if contains_string(&existing, &c.name) {
            overridden.push(c.name.clone());
            assert(overridden@.map_values(|k: String| k@) =~= ov.map_values(|k: String| k@).push(
                c@.name,
            ));
        }
        let ghost lv = loaded@;
        loaded.push(c.name.clone());
        assert(loaded@.map_values(|k: String| k@) =~= lv.map_values(|k: String| k@).push(c@.name));
        assert(names_of(cv.take(i + 1)) =~= names_of(cv.take(i as int)).push(c@.name));
        let desc = description_of(c);
        let payload = payload_of(c);
        let ghost rv = reg@;
        reg.register(key_refs.as_slice(), desc.as_str(), CommandAction::Broadcast(payload));
        assert(payload_entries(cv.take(i + 1)) =~= payload_entries(cv.take(i as int)).push(
            payload_entry(c@),
        ));
        assert(reg@ =~= start + payload_entries(cv.take(i + 1)));
        i = i + 1;
    }
    assert(cv.take(commands@.len() as int) =~= cv);
    let text = list_text_of(&loaded);
    let list_keywords: [&str; 2] = ["commands", "cmds"];
    let ghost before_list = reg@;
    reg.register(
        list_keywords.as_slice(),
        "List dynamically loaded commands",
        CommandAction::Print(text),
    );
    proof {
        reveal_strlit("commands");
        reveal_strlit("cmds");
        assert(ascii_lower("commands"@) =~= "commands"@);
        assert(ascii_lower("cmds"@) =~= "cmds"@);
        assert(list_keywords@.map_values(|k: &str| k@).map_values(|k: Seq<char>| ascii_lower(k))
            =~= seq!["commands"@, "cmds"@]);
        assert(reg@ =~= before_list.push(list_entry(names_of(cv))));
    }
    PayloadReport { duplicate_keywords: duplicates, overridden, loaded }
}

} // verus!

verus! {

/// What a payload command broadcasts: its full payload when it has one;
/// otherwise the object with the given type (or "custom" when none is given)
/// and the given data (or `null` when none is given), each independently of
/// the other.
pub proof fn lemma_payload_broadcast(c: PayloadCommandView)
    ensures
        c.payload matches Some(p) ==> payload_entry(c).action == ActionView::Broadcast(p),
        c.payload is None ==> (c.type_ matches Some(t) ==> (c.data matches Some(d)
            ==> payload_entry(c).action == ActionView::Broadcast(typed_payload_text(t, d)))),
        c.payload is None ==> (c.type_ matches Some(t) ==> (c.data is None
            ==> payload_entry(c).action == ActionView::Broadcast(typed_payload_text(t, "null"@)))),
        c.payload is None ==> (c.type_ is None ==> (c.data matches Some(d)
            ==> payload_entry(c).action == ActionView::Broadcast(
            typed_payload_text("custom"@, d),
        ))),
        c.payload is None ==> (c.type_ is None ==> (c.data is None
            ==> payload_entry(c).action == ActionView::Broadcast(
            typed_payload_text("custom"@, "null"@),
        ))),
{
}

/// After a batch is registered, the entry of its `i`-th command follows all
/// earlier entries, is reached by the command's lowercased name and every
/// lowercased alias, and broadcasts that command's payload.
pub proof fn lemma_batch_entry(start: Seq<CommandView>, cmds: Seq<PayloadCommandView>, i: int)
    requires
        0 <= i < cmds.len(),
    ensures
        ({
            let reg = start + payload_entries(cmds) + seq![list_entry(names_of(cmds))];
            &&& reg[start.len() + i] == payload_entry(cmds[i])
            &&& reg[start.len() + i].keywords.contains(ascii_lower(cmds[i].name))
            &&& forall|k: int| 0 <= k < cmds[i].aliases.len() ==> reg[start.len()
                + i].keywords.contains(ascii_lower(#[trigger] cmds[i].aliases[k]))
        }),
{
    let reg = start + payload_entries(cmds) + seq![list_entry(names_of(cmds))];
    assert(reg[start.len() + i] == payload_entries(cmds)[i]);
    let kw = payload_entry(cmds[i]).keywords;
    assert(kw[0] == ascii_lower(cmds[i].name));
    assert forall|k: int| 0 <= k < cmds[i].aliases.len() implies kw.contains(
        ascii_lower(#[trigger] cmds[i].aliases[k]),
    ) by {
        assert(kw[k + 1] == ascii_lower(cmds[i].aliases[k]));
    }
}

} // verus!
