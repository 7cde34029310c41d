//! The commands of the assistant, and the parser that takes the command word
//! of a chat line to one of them.

use crate::catalog::{
    all_aliases, calls, declared, declared_aliases, description_of, has_empty, in_order,
    lemma_attribute_added, lemma_resolution, lemma_violations_are_faults, lowercase, resolution,
    roles_of, row_aliases, row_of, rows_of, taken, valid_rows, violations, Attribute,
    CommandTable, Declaration, Declared, Entry, Fault, Row, StringOption, Violation,
};
use crate::roles::{
    admits, is_room_creator, is_superuser, lemma_clauses_are_vetoes, AuthorizationContext, Caller,
    CommandError, Roles,
};
use crate::text::strs;
use crate::types::Auth;
use vstd::prelude::*;

verus! {

/// What the assistant can be asked to do from the chat.
#[derive(Debug, Clone, Copy, PartialEq, Eq, Structural)]
pub enum Command {
    /// Search the word list.
    Search,
    /// Leave the room.
    Exit,
    /// Start the round at once.
    StartNow,
    /// Say what a command does.
    Help,
}

/// How many commands there are.
pub const COMMANDS: usize = 4;

/// The command at position `i` of the catalog.
pub open spec fn command_at(i: int) -> Command {
    if i == 0 {
        Command::Search
    } else if i == 1 {
        Command::Exit
    } else if i == 2 {
        Command::StartNow
    } else {
        Command::Help
    }
}

/// The position of `command` in the catalog.
pub open spec fn position(command: Command) -> int {
    match command {
        Command::Search => 0,
        Command::Exit => 1,
        Command::StartNow => 2,
        Command::Help => 3,
    }
}

/// The name under which `command` is declared.
pub open spec fn declared_name(command: Command) -> Seq<char> {
    match command {
        Command::Search => "Search"@,
        Command::Exit => "Exit"@,
        Command::StartNow => "StartNow"@,
        Command::Help => "Help"@,
    }
}

/// The alias that `command` is declared with, if it has one.
pub open spec fn declared_alias(command: Command) -> Option<Seq<char>> {
    match command {
        Command::Search => Some("c"@),
        Command::Exit => None,
        Command::StartNow => Some("sn"@),
        Command::Help => Some("h"@),
    }
}

/// The help text of `command`.
pub open spec fn declared_description(command: Command) -> Seq<char> {
    match command {
        Command::Search => "returns solves for a given query string"@,
        Command::Exit => "kicks the bot out of the room"@,
        Command::StartNow => "start the game now"@,
        Command::Help => "get help for a command"@,
    }
}

/// The role clauses of `command`, in the order of their declaration.
pub open spec fn declared_roles(command: Command) -> Seq<Roles> {
    match command {
        Command::Search => seq![Roles::Anyone],
        Command::Exit => seq![Roles::Developer, Roles::Creator],
        Command::StartNow => seq![Roles::Developer],
        Command::Help => seq![Roles::Anyone],
    }
}

/// What `command` asks of its query, if it is declared to ask anything.
pub open spec fn declared_options(command: Command) -> Option<StringOption> {
    match command {
        Command::Search => Some(StringOption { required: true, allow_whitespaces: true }),
        _ => None,
    }
}

/// The attributes of a command that is declared with `alias`, `description`,
/// `roles` and `options`, in this order.
pub open spec fn given(
    alias: Option<Seq<char>>,
    description: Seq<char>,
    roles: Seq<Roles>,
    options: Option<StringOption>,
) -> Seq<Entry> {
    (match alias {
        Some(a) => seq![Entry::Alias(a)],
        None => Seq::empty(),
    }) + seq![Entry::Description(description), Entry::Roles(roles)] + (match options {
        Some(o) => seq![Entry::StringOptions(o)],
        None => Seq::empty(),
    })
}

/// `command` as it is declared.
pub open spec fn command_declaration(command: Command) -> Declared {
    Declared {
        name: declared_name(command),
        attributes: given(
            declared_alias(command),
            declared_description(command),
            declared_roles(command),
            declared_options(command),
        ),
    }
}

/// The commands as they are declared, in the order of the catalog.
pub open spec fn catalog_declarations() -> Seq<Declared> {
    Seq::new(COMMANDS as nat, |i: int| command_declaration(command_at(i)))
}

/// The words that call `command`: its lower-cased name and its alias.
pub open spec fn command_words(command: Command) -> Seq<Seq<char>> {
    seq![lowercase(declared_name(command))] + match declared_alias(command) {
        Some(alias) => seq![alias],
        None => Seq::empty(),
    }
}

/// The catalog row of `command`.
pub open spec fn command_row(command: Command) -> Row {
    Row {
        name: declared_name(command),
        aliases: command_words(command),
        description: declared_description(command),
        roles: declared_roles(command),
    }
}

/// The catalog of the commands.
pub open spec fn catalog_rows() -> Seq<Row> {
    Seq::new(COMMANDS as nat, |i: int| command_row(command_at(i)))
}

/// The command that the word `text` calls, or the error that it calls none.
pub open spec fn command_called(text: Seq<char>) -> Result<Command, CommandError> {
    match resolution(catalog_rows(), text) {
        Ok(i) => Ok(command_at(i as int)),
        Err(e) => Err(e),
    }
}

/// What the command word `text` comes to for `caller`: the command that it
/// calls, if the command's role clauses admit the caller.
pub open spec fn command_parsed(text: Seq<char>, caller: Caller) -> Result<Command, CommandError> {
    match command_called(text) {
        Ok(command) => if admits(declared_roles(command), caller) {
            Ok(command)
        } else {
            Err(CommandError::NotEligible)
        },
        Err(e) => Err(e),
    }
}

/// Every word of a command calls that command: its lower-cased name and its
/// alias come to the same. A word that is no name and no alias of any command
/// calls none.
pub proof fn lemma_words_call_their_command(text: Seq<char>)
    requires
        valid_rows(catalog_rows()),
    ensures
        forall|command: Command| #[trigger]
            command_words(command).contains(text) ==> command_called(text) == Ok::<
                Command,
                CommandError,
            >(command),
        (forall|command: Command| !#[trigger] command_words(command).contains(text))
            ==> command_called(text) == Err::<Command, CommandError>(
            CommandError::UnknownCommand,
        ),
{
    lemma_resolution(catalog_rows(), text);
    assert forall|command: Command| #[trigger]
        command_words(command).contains(text) implies command_called(text) == Ok::<
        Command,
        CommandError,
    >(command) by {
        assert(calls(catalog_rows(), position(command), text));
    }
    if forall|command: Command| !#[trigger] command_words(command).contains(text) {
        assert forall|c: int| !calls(catalog_rows(), c, text) by {
            if 0 <= c < catalog_rows().len() {
                assert(!command_words(command_at(c)).contains(text));
            }
        }
    }
}

/// Who may use which command: anyone may search and ask for help; starting
/// the round is for developers; making the assistant leave is for developers
/// who are the room's creator as well. The privileged identity may use them
/// all.
pub proof fn lemma_who_may_use(caller: Caller)
    ensures
        admits(declared_roles(Command::Search), caller),
        admits(declared_roles(Command::Help), caller),
        admits(declared_roles(Command::StartNow), caller) <==> (is_superuser(caller)
            || caller.roles.contains("developer"@)),
        admits(declared_roles(Command::Exit), caller) <==> (is_superuser(caller) || (
        caller.roles.contains("developer"@) && (caller.roles.contains("creator"@)
            || is_room_creator(caller)))),
{
    lemma_clauses_are_vetoes(declared_roles(Command::Search), caller);
    lemma_clauses_are_vetoes(declared_roles(Command::Help), caller);
    lemma_clauses_are_vetoes(declared_roles(Command::StartNow), caller);
    lemma_clauses_are_vetoes(declared_roles(Command::Exit), caller);
}

/// What a command that is declared with `alias`, `description`, `roles` and
/// `options` comes to: its alias is its only alias, its description and its
/// roles are the first, and its attributes are in order if the description
/// and the roles are not empty.
pub proof fn lemma_given(
    alias: Option<Seq<char>>,
    description: Seq<char>,
    roles: Seq<Roles>,
    options: Option<StringOption>,
)
    ensures
        declared_aliases(given(alias, description, roles, options)) == match alias {
            Some(a) => seq![a],
            None => Seq::<Seq<char>>::empty(),
        },
        description_of(given(alias, description, roles, options)) == Some(description),
        roles_of(given(alias, description, roles, options)) == Some(roles),
        description.len() > 0 && roles.len() > 0 ==> in_order(
            given(alias, description, roles, options),
        ),
{
    let none = Seq::<Entry>::empty();
    let first = match alias {
        Some(a) => none.push(Entry::Alias(a)),
        None => none,
    };
    let second = first.push(Entry::Description(description));
    let third = second.push(Entry::Roles(roles));
    let all = match options {
        Some(o) => third.push(Entry::StringOptions(o)),
        None => third,
    };
    if let Some(a) = alias {
        lemma_attribute_added(none, Entry::Alias(a));
    }
    lemma_attribute_added(first, Entry::Description(description));
    lemma_attribute_added(second, Entry::Roles(roles));
    if let Some(o) = options {
        lemma_attribute_added(third, Entry::StringOptions(o));
    }
    assert(all =~= given(alias, description, roles, options));
}

/// The commands as they are declared give the catalog of the commands, and
/// the attributes of each are in order.
pub proof fn lemma_catalog_in_order()
    ensures
        rows_of(catalog_declarations()) == catalog_rows(),
        forall|c: int|
            0 <= c < catalog_declarations().len() ==> in_order(
                (#[trigger] catalog_declarations()[c]).attributes,
            ),
{
    reveal_strlit("returns solves for a given query string");
    reveal_strlit("kicks the bot out of the room");
    reveal_strlit("start the game now");
    reveal_strlit("get help for a command");
    assert forall|c: int| 0 <= c < COMMANDS implies row_of(#[trigger] catalog_declarations()[c])
        == command_row(command_at(c)) && in_order(catalog_declarations()[c].attributes) by {
        let command = command_at(c);
        lemma_given(
            declared_alias(command),
            declared_description(command),
            declared_roles(command),
            declared_options(command),
        );
    }
}

impl Declaration {
    /// Declares the command `name` with the given attributes, in the order
    /// alias, description, roles, query options.
    pub fn new(
        name: &str,
        alias: Option<&str>,
        description: &str,
        roles: Vec<Roles>,
        string_options: Option<StringOption>,
    ) -> (declaration: Declaration)
        ensures
            declaration@ == (Declared {
                name: name@,
                attributes: given(
                    match alias {
                        Some(a) => Some(a@),
                        None => None,
                    },
                    description@,
                    roles@,
                    string_options,
                ),
            }),
    {
        let mut attributes: Vec<Attribute> = Vec::new();
        if let Some(a) = alias {
            attributes.push(Attribute::Alias(a.to_owned()));
        }
        attributes.push(Attribute::Description(description.to_owned()));
        attributes.push(Attribute::Roles(roles));
        if let Some(options) = string_options {
            attributes.push(Attribute::StringOptions(options));
        }
        Declaration { name: name.to_owned(), attributes }
    }
}

impl Command {
    /// The position of the command in the catalog.
    pub fn index(&self) -> (i: usize)
        ensures
            i == position(*self),
            i < COMMANDS,
    {
        match self {
            Command::Search => 0,
            Command::Exit => 1,
            Command::StartNow => 2,
            Command::Help => 3,
        }
    }

    /// The command at position `i` of the catalog; `None` for a position
    /// outside it.
    pub fn from_index(i: usize) -> (command: Option<Command>)
        ensures
            command == if i < COMMANDS {
                Some(command_at(i as int))
            } else {
                None
            },
    {
        if i == 0 {
            Some(Command::Search)
        } else if i == 1 {
            Some(Command::Exit)
        } else if i == 2 {
            Some(Command::StartNow)
        } else if i == 3 {
            Some(Command::Help)
        } else {
            None
        }
    }

    /// The commands as they are declared, in the order of the catalog.
    pub fn declarations() -> (declarations: Vec<Declaration>)
        ensures
            declared(declarations@) == catalog_declarations(),
    {
        let mut declarations: Vec<Declaration> = Vec::new();
        let mut search_roles: Vec<Roles> = Vec::new();
        search_roles.push(Roles::Anyone);
        declarations.push(
            Declaration::new(
                "Search",
                Some("c"),
                "returns solves for a given query string",
                search_roles,
                Some(StringOption { required: true, allow_whitespaces: true }),
            ),
        );
        let mut exit_roles: Vec<Roles> = Vec::new();
        exit_roles.push(Roles::Developer);
        exit_roles.push(Roles::Creator);
        assert(exit_roles@ =~= declared_roles(Command::Exit));
        declarations.push(
            Declaration::new("Exit", None, "kicks the bot out of the room", exit_roles, None),
        );
        let mut start_roles: Vec<Roles> = Vec::new();
        start_roles.push(Roles::Developer);
        declarations.push(
            Declaration::new("StartNow", Some("sn"), "start the game now", start_roles, None),
        );
        let mut help_roles: Vec<Roles> = Vec::new();
        help_roles.push(Roles::Anyone);
        declarations.push(
            Declaration::new("Help", Some("h"), "get help for a command", help_roles, None),
        );
        declarations
    }
}

/// The parser of command words: the checked catalog of the commands.
pub struct CommandParser {
    table: CommandTable,
}

impl CommandParser {
    #[verifier::type_invariant]
    spec fn holds_catalog(self) -> bool {
        self.table@ == catalog_rows()
    }

    /// Checks the declarations of the commands and makes the parser of them.
    /// Without violation there is a parser; otherwise all violations of the
    /// declarations are reported together. The declarations are in order as
    /// they stand, so the parser is there exactly if the words that call the
    /// commands are: none of them empty, none of them given twice.
    pub fn new() -> (parser: Result<CommandParser, Vec<Violation>>)
        ensures
            match parser {
                Ok(_) => violations(catalog_declarations()).len() == 0,
                Err(found) => found@.len() > 0 && found@ == violations(catalog_declarations()),
            },
            parser is Ok <==> valid_rows(catalog_rows()),
            parser matches Err(found) ==> forall|i: int|
                0 <= i < found@.len() ==> {
                    &&& (#[trigger] found@[i]).command < COMMANDS
                    &&& (found@[i].fault == Fault::EmptyAlias || found@[i].fault
                        == Fault::AliasTaken)
                },
    {
        let declarations = Command::declarations();
        let ghost declared = catalog_declarations();
        proof {
            lemma_catalog_in_order();
            assert(row_aliases(catalog_rows()) =~= all_aliases(declared));
        }
        match CommandTable::new(declarations) {
            Ok(table) => {
                let _ = table.specs();
                Ok(CommandParser { table })
            },
            Err(found) => {
                proof {
                    assert forall|i: int| 0 <= i < found@.len() implies {
                        &&& (#[trigger] found@[i]).command < COMMANDS
                        &&& (found@[i].fault == Fault::EmptyAlias || found@[i].fault
                            == Fault::AliasTaken)
                    } by {
                        lemma_violations_are_faults(declared, declared.len(), i);
                    }
                    lemma_violations_are_faults(declared, declared.len(), 0);
                    let c = found@[0].command as int;
                    assert(has_empty(catalog_rows()[c].aliases) || taken(
                        row_aliases(catalog_rows()),
                        c,
                    ));
                }
                Err(found)
            },
        }
    }

    /// The command that `text` calls: the one that has it as its lower-cased
    /// name or as its alias, compared letter by letter. A word that calls no
    /// command is an `UnknownCommand`.
    pub fn parse(&self, text: &str) -> (command: Result<Command, CommandError>)
        ensures
            command == command_called(text@),
            match command {
                Ok(c) => command_words(c).contains(text@),
                Err(e) => e == CommandError::UnknownCommand && forall|c: Command|
                    !command_words(c).contains(text@),
            },
    {
        proof {
            use_type_invariant(self);
        }
        match self.table.resolve(text) {
            Ok(i) => {
                match Command::from_index(i) {
                    Some(command) => Ok(command),
                    None => Err(CommandError::UnknownCommand),
                }
            },
            Err(e) => {
                assert forall|c: Command| !command_words(c).contains(text@) by {
                    assert(!calls(catalog_rows(), position(c), text@));
                }
                Err(e)
            },
        }
    }

    /// What `command` does, for its help text.
    pub fn help(&self, command: Command) -> (text: &str)
        ensures
            text@ == declared_description(command),
    {
        proof {
            use_type_invariant(self);
        }
        match self.table.describe(command.index()) {
            Some(text) => text,
            None => "",
        }
    }

    /// What the command word `text` comes to for a caller with the roles
    /// `roles`, signed in as `auth` says, in a room created by `room_creator`:
    /// the command that `text` calls if its role clauses admit the caller,
    /// `NotEligible` if they do not, `UnknownCommand` if `text` calls no
    /// command.
    pub fn parse_command(
        &self,
        text: &str,
        roles: Vec<String>,
        auth: Option<&Auth>,
        room_creator: String,
    ) -> (command: Result<Command, CommandError>)
        ensures
            command == command_parsed(
                text@,
                Caller {
                    roles: strs(roles@),
                    id: match auth {
                        Some(a) => Some(a.id@),
                        None => None,
                    },
                    room_creator: room_creator@,
                },
            ),
    {
        proof {
            use_type_invariant(self);
        }
        let caller = AuthorizationContext::new(roles, auth, room_creator);
        match self.table.parse_command(text, &caller) {
            Ok(i) => {
                match Command::from_index(i) {
                    Some(command) => Ok(command),
                    None => Err(CommandError::UnknownCommand),
                }
            },
            Err(e) => Err(e),
        }
    }
}

} // verus!
