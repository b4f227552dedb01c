//! The slash commands: their descriptions as Discord receives them, the registry
//! that finds a command by name, and the help texts and access rule of the help
//! command.

use vstd::prelude::*;
use vstd::utf8::encode_utf8;
use crate::text::{capitalize, capitalized, chars_of, str_eq, take_until};

verus! {

/// The kind of an application command, numbered as Discord numbers it.
#[derive(Debug, Clone, Copy, PartialEq, Eq, Structural)]
pub enum CommandType {
    ChatInput,
    User,
    Message,
}

impl CommandType {
    /// Discord's number for this kind.
    pub fn number(&self) -> (r: u8)
        ensures
            r == match *self {
                CommandType::ChatInput => 1u8,
                CommandType::User => 2u8,
                CommandType::Message => 3u8,
            },
    {
        match self {
            CommandType::ChatInput => 1,
            CommandType::User => 2,
            CommandType::Message => 3,
        }
    }
}

/// The type of a command option, numbered as Discord numbers it.
#[derive(Debug, Clone, Copy, PartialEq, Eq, Structural)]
pub enum CommandOptionType {
    SubCommand,
    SubCommandGroup,
    String,
    Integer,
    Boolean,
    User,
    Channel,
    Role,
    Mentionable,
    Number,
}

/// Discord's number for an option type.
pub open spec fn option_type_number(t: CommandOptionType) -> u8 {
    match t {
        CommandOptionType::SubCommand => 1,
        CommandOptionType::SubCommandGroup => 2,
        CommandOptionType::String => 3,
        CommandOptionType::Integer => 4,
        CommandOptionType::Boolean => 5,
        CommandOptionType::User => 6,
        CommandOptionType::Channel => 7,
        CommandOptionType::Role => 8,
        CommandOptionType::Mentionable => 9,
        CommandOptionType::Number => 10,
    }
}

impl CommandOptionType {
    /// Discord's number for this type.
    pub fn number(&self) -> (r: u8)
        ensures
            r == option_type_number(*self),
    {
        match self {
            CommandOptionType::SubCommand => 1,
            CommandOptionType::SubCommandGroup => 2,
            CommandOptionType::String => 3,
            CommandOptionType::Integer => 4,
            CommandOptionType::Boolean => 5,
            CommandOptionType::User => 6,
            CommandOptionType::Channel => 7,
            CommandOptionType::Role => 8,
            CommandOptionType::Mentionable => 9,
            CommandOptionType::Number => 10,
        }
    }
}

/// Where a command is defined: the path of its source file.
#[derive(Debug, Clone)]
pub struct CommandInfo {
    pub file: String,
}

/// An option of a command.
#[derive(Debug, Clone)]
pub struct CommandOption {
    pub option_type: CommandOptionType,
    pub name: String,
    pub description: String,
    pub required: bool,
    pub min_value: Option<i32>,
    pub max_value: Option<i32>,
}

/// A command as it is declared.
#[derive(Debug, Clone)]
pub struct CommandDetails {
    pub name: String,
    pub description: String,
    pub options: Vec<CommandOption>,
    pub default_permission: bool,
    pub available_in_dms: bool,
}

/// The "Manage Server" permission bit.
pub const MANAGE_GUILD: u64 = 32;

/// The "Administrator" permission bit.
pub const ADMINISTRATOR: u64 = 8;

/// A command as Discord receives it: a command that is not open to everyone by
/// default needs the "Manage Server" permission.
#[derive(Debug, Clone)]
pub struct DiscordCommandDetails {
    pub name: String,
    pub description: String,
    pub options: Vec<CommandOption>,
    pub default_member_permissions: Option<u64>,
    pub dm_permission: bool,
}

impl From<CommandDetails> for DiscordCommandDetails {
    fn from(c: CommandDetails) -> (r: DiscordCommandDetails) {
        DiscordCommandDetails {
            name: c.name,
            description: c.description,
            options: c.options,
            default_member_permissions: if c.default_permission {
                None
            } else {
                Some(MANAGE_GUILD)
            },
            dm_permission: c.available_in_dms,
        }
    }
}

impl vstd::std_specs::convert::FromSpecImpl<CommandDetails> for DiscordCommandDetails {
    open spec fn obeys_from_spec() -> bool {
        true
    }

    open spec fn from_spec(c: CommandDetails) -> DiscordCommandDetails {
        DiscordCommandDetails {
            name: c.name,
            description: c.description,
            options: c.options,
            default_member_permissions: if c.default_permission {
                None
            } else {
                Some(MANAGE_GUILD)
            },
            dm_permission: c.available_in_dms,
        }
    }
}

/// The first command registered under name `k`.
pub open spec fn lookup_in<C>(s: Seq<(String, C)>, k: Seq<char>) -> Option<C>
    decreases s.len(),
{
    if s.len() == 0 {
        None
    } else if s[0].0@ == k {
        Some(s[0].1)
    } else {
        lookup_in(s.drop_first(), k)
    }
}

/// Replacing the first entry named `k` changes what `k` finds and nothing else.
proof fn lemma_lookup_update<C>(s: Seq<(String, C)>, i: int, e: (String, C), k: Seq<char>)
    requires
        0 <= i < s.len(),
        s[i].0@ == e.0@,
        forall|j: int| 0 <= j < i ==> (#[trigger] s[j]).0@ != e.0@,
    ensures
        lookup_in(s.update(i, e), k) == (if k == e.0@ { Some(e.1) } else { lookup_in(s, k) }),
    decreases i,
{
    if i > 0 {
        assert(s.update(i, e).drop_first() =~= s.drop_first().update(i - 1, e));
        assert forall|j: int| 0 <= j < i - 1 implies (#[trigger] s.drop_first()[j]).0@ != e.0@ by {
            assert(s.drop_first()[j] == s[j + 1]);
        }
        lemma_lookup_update(s.drop_first(), i - 1, e, k);
        assert(s.update(i, e)[0] == s[0]);
        assert(s[0].0@ != e.0@);
    } else {
        assert(s.update(0, e).drop_first() =~= s.drop_first());
        assert(s.update(0, e)[0] == e);
    }
}

/// Adding an entry at the end makes its name find it when nothing else had it.
proof fn lemma_lookup_push<C>(s: Seq<(String, C)>, e: (String, C), k: Seq<char>)
    requires
        lookup_in(s, e.0@) is None,
    ensures
        lookup_in(s.push(e), k) == (if k == e.0@ { Some(e.1) } else { lookup_in(s, k) }),
    decreases s.len(),
{
    reveal_with_fuel(lookup_in, 2);
    if s.len() > 0 {
        assert(s.push(e).drop_first() =~= s.drop_first().push(e));
        assert(s.push(e)[0] == s[0]);
        assert(s[0].0@ != e.0@);
        assert(lookup_in(s.drop_first(), e.0@) is None);
        lemma_lookup_push(s.drop_first(), e, k);
    } else {
        assert(s.push(e).drop_first() =~= Seq::<(String, C)>::empty());
        assert(s.push(e)[0] == e);
    }
}

/// Where the first entry named `k` is, if any.
proof fn lemma_lookup_position<C>(s: Seq<(String, C)>, k: Seq<char>, i: int)
    requires
        0 <= i <= s.len(),
        forall|j: int| 0 <= j < i ==> (#[trigger] s[j]).0@ != k,
    ensures
        i < s.len() && s[i].0@ == k ==> lookup_in(s, k) == Some(s[i].1),
        i == s.len() ==> lookup_in(s, k) is None,
    decreases i,
{
    if i > 0 {
        assert forall|j: int| 0 <= j < i - 1 implies (#[trigger] s.drop_first()[j]).0@ != k by {
            assert(s.drop_first()[j] == s[j + 1]);
        }
        lemma_lookup_position(s.drop_first(), k, i - 1);
    }
}

/// The registered commands, each under its name; `C` is the command itself.
#[derive(Debug, Clone)]
pub struct Handler<C> {
    cmds: Vec<(String, C)>,
}

impl<C> Handler<C> {
    /// The registered entries, in the order they were first registered.
    pub closed spec fn entries(&self) -> Seq<(String, C)> {
        self.cmds@
    }

    /// No command yet.
    pub fn new() -> (r: Self)
        ensures
            r.entries().len() == 0,
    {
        Handler { cmds: Vec::new() }
    }

    /// Registers a command under its name, replacing a command of the same name. A
    /// command without a description, or with one longer than 100 bytes, is refused
    /// and nothing changes.
    pub fn add_command(&mut self, details: &CommandDetails, cmd: C) -> (r: Result<(), String>)
        ensures
            details.description@.len() == 0 ==> (r matches Err(m) && m@ == "Command "@ + details.name@
                + " has no description"@),
            details.description@.len() > 0 && encode_utf8(details.description@).len() > 100 ==> (
            r matches Err(m) && m@ == "Command "@ + details.name@
                + " has a description longer than 100 characters"@),
            r is Err ==> final(self).entries() == old(self).entries(),
            r is Ok <==> (details.description@.len() > 0 && encode_utf8(details.description@).len()
                <= 100),
            r is Ok ==> forall|k: Seq<char>| #[trigger] lookup_in(final(self).entries(), k) == (if k
                == details.name@ {
                Some(cmd)
            } else {
                lookup_in(old(self).entries(), k)
            }),
    {
        if details.description.as_str().is_empty() {
            let mut m = String::from_str("Command ");
            m.append(details.name.as_str());
            m.append(" has no description");
            return Err(m);
        }
        let bytes = details.description.as_str().as_bytes();
        if bytes.len() > 100 {
            let mut m = String::from_str("Command ");
            m.append(details.name.as_str());
            m.append(" has a description longer than 100 characters");
            return Err(m);
        }
        let ghost before = self.cmds@;
        let mut i: usize = 0;
        while i < self.cmds.len()
            invariant
                i <= self.cmds@.len(),
                self.cmds@ == before,
                before == old(self).cmds@,
                details.description@.len() > 0,
                encode_utf8(details.description@).len() <= 100,
                forall|j: int| 0 <= j < i ==> (#[trigger] self.cmds@[j]).0@ != details.name@,
            decreases self.cmds@.len() - i,
        {
            if str_eq(self.cmds[i].0.as_str(), details.name.as_str()) {
                let name = details.name.clone();
                let ghost e = (name, cmd);
                self.cmds.set(i, (name, cmd));
                proof {
                    assert(self.entries() == before.update(i as int, e));
                    assert forall|k: Seq<char>| #[trigger] lookup_in(self.entries(), k) == (if k == details.name@ {
                        Some(cmd)
                    } else {
                        lookup_in(before, k)
                    }) by {
                        lemma_lookup_update(before, i as int, e, k);
                    }
                }
                return Ok(());
            }
            i = i + 1;
        }
        proof {
            lemma_lookup_position(before, details.name@, before.len() as int);
        }
        let name = details.name.clone();
        let ghost e = (name, cmd);
        self.cmds.push((name, cmd));
        proof {
            assert(self.entries() == before.push(e));
            assert forall|k: Seq<char>| #[trigger] lookup_in(self.entries(), k) == (if k == details.name@ {
                Some(cmd)
            } else {
                lookup_in(before, k)
            }) by {
                lemma_lookup_push(before, e, k);
            }
        }
        Ok(())
    }

    /// The command registered under a name.
    pub fn get(&self, name: &str) -> (r: Option<&C>)
        ensures
            match r {
                Some(c) => lookup_in(self.entries(), name@) == Some(*c),
                None => lookup_in(self.entries(), name@) is None,
            },
    {
        let mut i: usize = 0;
        while i < self.cmds.len()
            invariant
                i <= self.cmds@.len(),
                forall|j: int| 0 <= j < i ==> (#[trigger] self.cmds@[j]).0@ != name@,
            decreases self.cmds@.len() - i,
        {
            if str_eq(self.cmds[i].0.as_str(), name) {
                proof {
                    lemma_lookup_position(self.cmds@, name@, i as int);
                }
                return Some(&self.cmds[i].1);
            }
            i = i + 1;
        }
        proof {
            lemma_lookup_position(self.cmds@, name@, self.cmds@.len() as int);
        }
        None
    }

    /// The registered commands, in the order of [`Handler::entries`].
    pub fn get_command_list(&self) -> (r: Vec<&C>)
        ensures
            r@.len() == self.entries().len(),
            forall|i: int| 0 <= i < r@.len() ==> *(#[trigger] r@[i]) == self.entries()[i].1,
    {
        let mut r: Vec<&C> = Vec::new();
        let mut i: usize = 0;
        while i < self.cmds.len()
            invariant
                i <= self.cmds@.len(),
                r@.len() == i,
                forall|j: int| 0 <= j < i ==> *(#[trigger] r@[j]) == self.cmds@[j].1,
            decreases self.cmds@.len() - i,
        {
            r.push(&self.cmds[i].1);
            i = i + 1;
        }
        r
    }
}

/// How an option is listed in a command's help: "<name> " when it is required,
/// "[name] " otherwise.
pub open spec fn option_usage(o: CommandOption) -> Seq<char> {
    if o.required {
        "<"@ + o.name@ + "> "@
    } else {
        "["@ + o.name@ + "] "@
    }
}

/// The usage of all options of a command, in order.
pub open spec fn options_usage(os: Seq<CommandOption>) -> Seq<char>
    decreases os.len(),
{
    if os.len() == 0 {
        Seq::<char>::empty()
    } else {
        options_usage(os.drop_last()) + option_usage(os.last())
    }
}

/// The usage of all options of a command, as [`options_usage`] says.
pub fn command_args(options: &Vec<CommandOption>) -> (r: String)
    ensures
        r@ == options_usage(options@),
{
    let mut r = String::new();
    let mut i: usize = 0;
    assert(options@.take(0) =~= Seq::<CommandOption>::empty());
    while i < options.len()
        invariant
            i <= options@.len(),
            r@ == options_usage(options@.take(i as int)),
        decreases options@.len() - i,
    {
        let o = &options[i];
        if o.required {
            r.append("<");
            r.append(o.name.as_str());
            r.append("> ");
        } else {
            r.append("[");
            r.append(o.name.as_str());
            r.append("] ");
        }
        assert(options@.take(i + 1).drop_last() =~= options@.take(i as int));
        i = i + 1;
    }
    assert(options@.take(options@.len() as int) =~= options@);
    r
}

/// The help text of a command: its description and, when it has options, their
/// usage.
pub open spec fn command_help(description: Seq<char>, args: Seq<char>) -> Seq<char> {
    "**Description:** "@ + description + if args.len() == 0 {
        Seq::<char>::empty()
    } else {
        "\n**Arguments:** "@ + args
    }
}

/// The help text of a command, as [`command_help`] says.
pub fn command_help_text(details: &CommandDetails) -> (r: String)
    ensures
        r@ == command_help(details.description@, options_usage(details.options@)),
{
    let args = command_args(&details.options);
    let mut r = String::from_str("**Description:** ");
    r.append(details.description.as_str());
    if !args.as_str().is_empty() {
        r.append("\n**Arguments:** ");
        r.append(args.as_str());
    }
    r
}

/// The part of `s` after its last `c`; all of `s` when it holds no `c`.
pub open spec fn after_last(s: Seq<char>, c: char) -> Seq<char>
    decreases s.len(),
{
    if s.len() == 0 {
        s
    } else if s.last() == c {
        Seq::<char>::empty()
    } else {
        after_last(s.drop_last(), c).push(s.last())
    }
}

/// The positions of the commands defined in file `key`, in order.
pub open spec fn positions_with(files: Seq<Seq<char>>, key: Seq<char>) -> Seq<int>
    decreases files.len(),
{
    if files.len() == 0 {
        Seq::<int>::empty()
    } else if files.last() == key {
        positions_with(files.drop_last(), key).push(files.len() - 1)
    } else {
        positions_with(files.drop_last(), key)
    }
}

/// The positions of the commands whose source file is `key`, in order: the
/// commands of one group of the help menu.
pub fn group_positions(files: &Vec<String>, key: &str) -> (r: Vec<usize>)
    ensures
        r@.map_values(|i: usize| i as int) == positions_with(files@.map_values(|f: String| f@), key@),
{
    let ghost fs = files@.map_values(|f: String| f@);
    let mut r: Vec<usize> = Vec::new();
    let mut i: usize = 0;
    while i < files.len()
        invariant
            i <= files@.len(),
            fs == files@.map_values(|f: String| f@),
            r@.map_values(|x: usize| x as int) == positions_with(fs.take(i as int), key@),
        decreases files@.len() - i,
    {
        let ghost before = r@;
        proof {
            let t = fs.take(i + 1);
            assert(t.drop_last() =~= fs.take(i as int));
            assert(t.last() == files@[i as int]@);
        }
        if str_eq(files[i].as_str(), key) {
            r.push(i);
            assert(r@.map_values(|x: usize| x as int) =~= before.map_values(|x: usize| x as int).push(i as int));
        }
        i = i + 1;
    }
    assert(fs.take(files@.len() as int) =~= fs);
    r
}

/// The name of the group of the commands of a source file: the file's name up to
/// its first '.', without the directories, capitalized ("src/commands/launches.rs"
/// gives "Launches").
pub open spec fn group_name_of(file: Seq<char>) -> Seq<char> {
    capitalized(after_last(take_until(file, '.'), '/'))
}

/// `take_until` is the part before the first `c`.
proof fn lemma_take_until_prefix(s: Seq<char>, c: char, i: int)
    requires
        0 <= i <= s.len(),
        forall|j: int| 0 <= j < i ==> s[j] != c,
        i == s.len() || s[i] == c,
    ensures
        take_until(s, c) == s.take(i),
    decreases i,
{
    if i > 0 {
        lemma_take_until_prefix(s.drop_first(), c, i - 1);
        assert(seq![s[0]] + s.drop_first().take(i - 1) =~= s.take(i));
    } else if s.len() > 0 {
        assert(s.take(0) =~= Seq::<char>::empty());
    } else {
        assert(s.take(0) =~= s);
    }
}

/// `after_last` is the part after the last `c`.
proof fn lemma_after_last_suffix(s: Seq<char>, c: char, i: int)
    requires
        0 <= i <= s.len(),
        forall|j: int| i <= j < s.len() ==> s[j] != c,
        i == 0 || s[i - 1] == c,
    ensures
        after_last(s, c) == s.skip(i),
    decreases s.len() - i,
{
    if i < s.len() {
        lemma_after_last_suffix(s.drop_last(), c, i);
        assert(s.drop_last().skip(i).push(s.last()) =~= s.skip(i));
    } else {
        assert(s.skip(i) =~= Seq::<char>::empty());
        if s.len() > 0 {
            assert(s.last() == c);
        }
    }
}

/// The name of the group of the commands of a source file, as [`group_name_of`]
/// says; the file's name must hold a '.'.
pub fn group_name(file: &str) -> (r: String)
    requires
        file@.contains('.'),
    ensures
        r@ == group_name_of(file@),
{
    let v = chars_of(file);
    let mut dot: usize = 0;
    while dot < v.len() && v[dot] != '.'
        invariant
            v@ == file@,
            dot <= v@.len(),
            forall|j: int| 0 <= j < dot ==> v@[j] != '.',
        decreases v@.len() - dot,
    {
        dot = dot + 1;
    }
    proof {
        lemma_take_until_prefix(file@, '.', dot as int);
    }
    let mut start = dot;
    while start > 0 && v[start - 1] != '/'
        invariant
            v@ == file@,
            start <= dot <= v@.len(),
            forall|j: int| start <= j < dot ==> v@[j] != '/',
        decreases start,
    {
        start = start - 1;
    }
    proof {
        let stem = file@.take(dot as int);
        lemma_after_last_suffix(stem, '/', start as int);
    }
    let stem = file.substring_char(start, dot);
    assert(stem@ =~= file@.take(dot as int).skip(start as int));
    capitalize(stem)
}

/// The lines that list commands in the help menu, one "- **/name**" line each.
pub open spec fn command_lines(names: Seq<String>) -> Seq<char>
    decreases names.len(),
{
    if names.len() == 0 {
        Seq::<char>::empty()
    } else {
        command_lines(names.drop_last()) + "\n- **/"@ + names.last()@ + "**"@
    }
}

/// The lines that list commands in the help menu, as [`command_lines`] says.
pub fn command_list_text(names: &Vec<String>) -> (r: String)
    ensures
        r@ == command_lines(names@),
{
    let mut r = String::new();
    let mut i: usize = 0;
    assert(names@.take(0) =~= Seq::<String>::empty());
    while i < names.len()
        invariant
            i <= names@.len(),
            r@ == command_lines(names@.take(i as int)),
        decreases names@.len() - i,
    {
        r.append("\n- **/");
        r.append(names[i].as_str());
        r.append("**");
        assert(names@.take(i + 1).drop_last() =~= names@.take(i as int));
        i = i + 1;
    }
    assert(names@.take(names@.len() as int) =~= names@);
    r
}

/// What decides whether a user may see commands that are not open to everyone.
#[derive(Debug, Clone, Copy, PartialEq, Eq, Structural)]
pub struct AccessFacts {
    /// The user is one of the bot's owners.
    pub bot_owner: bool,
    /// The interaction happened in a server channel.
    pub in_guild_channel: bool,
    /// The owner of the server, when the server is in the cache.
    pub guild_owner: Option<u64>,
    /// The user.
    pub user: u64,
    /// The user's permissions in the channel, when they are known.
    pub permissions: Option<u64>,
}

/// A user may see a group of commands when they own the bot, when one of the
/// commands is open to everyone, or, in a server channel, when they own the server
/// or hold the "Administrator" or "Manage Server" permission.
pub open spec fn commands_allowed(default_permissions: Seq<bool>, f: AccessFacts) -> bool {
    if f.bot_owner {
        true
    } else if forall|i: int| 0 <= i < default_permissions.len() ==> !#[trigger] default_permissions[i] {
        f.in_guild_channel && match f.guild_owner {
            None => false,
            Some(owner) => owner == f.user || match f.permissions {
                None => false,
                Some(p) => p & ADMINISTRATOR != 0 || p & MANAGE_GUILD != 0,
            },
        }
    } else {
        true
    }
}

/// Whether a user may see a group of commands, as [`commands_allowed`] says;
/// `default_permissions` holds whether each command is open to everyone.
pub fn allowed(default_permissions: &Vec<bool>, f: AccessFacts) -> (r: bool)
    ensures
        r == commands_allowed(default_permissions@, f),
{
    if f.bot_owner {
        return true;
    }
    let mut i: usize = 0;
    while i < default_permissions.len()
        invariant
            i <= default_permissions@.len(),
            forall|j: int| 0 <= j < i ==> !#[trigger] default_permissions@[j],
        decreases default_permissions@.len() - i,
    {
        if default_permissions[i] {
            return true;
        }
        i = i + 1;
    }
    if !f.in_guild_channel {
        return false;
    }
    match f.guild_owner {
        None => false,
        Some(owner) => {
            if owner == f.user {
                return true;
            }
            match f.permissions {
                None => false,
                Some(p) => p & ADMINISTRATOR != 0 || p & MANAGE_GUILD != 0,
            }
        },
    }
}

/// The prefix of the old text commands: ";" outside servers and when none was
/// stored, else the stored one.
pub fn prefix_for(in_guild: bool, stored: Option<String>) -> (r: String)
    ensures
        r@ == (match stored {
            Some(p) if in_guild => p@,
            _ => ";"@,
        }),
{
    match stored {
        Some(p) => if in_guild {
            p
        } else {
            String::from_str(";")
        },
        None => String::from_str(";"),
    }
}

/// The bot points to its slash commands when a message mentions it and is not an
/// inline reply.
pub fn points_to_slash_commands(mentions_bot: bool, inline_reply: bool) -> (r: bool)
    ensures
        r == (mentions_bot && !inline_reply),
{
    mentions_bot && !inline_reply
}

} // verus!
