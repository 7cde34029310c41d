//! The catalog of commands. Commands are declared as a list of names with
//! attributes; the declarations are checked once, all faults are collected, and
//! only a catalog without fault becomes a table that chat lines are resolved
//! against.

use crate::roles::{admits, AuthorizationContext, Caller, CommandError, Roles};
use crate::text::{same, strs};
use vstd::prelude::*;

verus! {

/// The names that an attribute of a command can have.
#[derive(Debug, Clone, Copy, PartialEq, Eq, Structural)]
pub enum SupportedArguments {
    Alias,
    Description,
    Roles,
    StringOptions,
    Unknown,
}

/// The names that an option of a command's query can have.
#[derive(Debug, Clone, Copy, PartialEq, Eq, Structural)]
pub enum SupportedStringArguments {
    Required,
    AllowWhitespaces,
}

/// What a command asks of its query.
#[derive(Debug, Clone, Copy, PartialEq, Eq, Structural)]
pub struct StringOption {
    pub required: bool,
    pub allow_whitespaces: bool,
}

/// One attribute of a declared command.
#[derive(Debug, Clone)]
pub enum Attribute {
    /// Another word for the command.
    Alias(String),
    /// What the command does, for its help text.
    Description(String),
    /// The role clauses of the command, in the order of their declaration.
    Roles(Vec<Roles>),
    /// What the command asks of its query.
    StringOptions(StringOption),
}

/// A command as it is declared: its name and its attributes.
#[derive(Debug, Clone)]
pub struct Declaration {
    pub name: String,
    pub attributes: Vec<Attribute>,
}

/// What can be wrong with a declared command.
#[derive(Debug, Clone, Copy, PartialEq, Eq, Structural)]
pub enum Fault {
    /// The attribute is given more than once.
    DuplicateAttribute(SupportedArguments),
    /// The attribute is required and not given.
    MissingAttribute(SupportedArguments),
    /// A description is empty.
    EmptyDescription,
    /// A list of roles is empty.
    NoRoles,
    /// The command's lower-cased name or one of its aliases is empty.
    EmptyAlias,
    /// The command's lower-cased name or one of its aliases is given twice,
    /// by this command or by this and another one.
    AliasTaken,
}

/// A fault of the command at position `command` of the declarations.
#[derive(Debug, Clone, Copy, PartialEq, Eq, Structural)]
pub struct Violation {
    pub command: usize,
    pub fault: Fault,
}

/// A command of a checked catalog.
#[derive(Debug, Clone)]
pub struct CommandSpec {
    pub name: String,
    pub aliases: Vec<String>,
    pub description: String,
    pub roles: Vec<Roles>,
}

/// What a `CommandSpec` holds, as mathematics.
#[verifier::ext_equal]
pub struct Row {
    /// The name as declared.
    pub name: Seq<char>,
    /// The words that call the command: its lower-cased name first, then the
    /// declared aliases.
    pub aliases: Seq<Seq<char>>,
    /// The help text.
    pub description: Seq<char>,
    /// The role clauses, in the order of their declaration.
    pub roles: Seq<Roles>,
}

impl View for CommandSpec {
    type V = Row;

    open spec fn view(&self) -> Row {
        Row {
            name: self.name@,
            aliases: strs(self.aliases@),
            description: self.description@,
            roles: self.roles@,
        }
    }
}

/// What an `Attribute` holds, as mathematics.
pub enum Entry {
    Alias(Seq<char>),
    Description(Seq<char>),
    Roles(Seq<Roles>),
    StringOptions(StringOption),
}

impl View for Attribute {
    type V = Entry;

    open spec fn view(&self) -> Entry {
        match self {
            Attribute::Alias(alias) => Entry::Alias(alias@),
            Attribute::Description(text) => Entry::Description(text@),
            Attribute::Roles(roles) => Entry::Roles(roles@),
            Attribute::StringOptions(options) => Entry::StringOptions(*options),
        }
    }
}

/// The attributes of a list, as mathematics.
pub open spec fn entries(attributes: Seq<Attribute>) -> Seq<Entry> {
    Seq::new(attributes.len(), |i: int| attributes[i]@)
}

/// What a `Declaration` holds, as mathematics.
#[verifier::ext_equal]
pub struct Declared {
    pub name: Seq<char>,
    pub attributes: Seq<Entry>,
}

impl View for Declaration {
    type V = Declared;

    open spec fn view(&self) -> Declared {
        Declared { name: self.name@, attributes: entries(self.attributes@) }
    }
}

/// The declarations of a list, as mathematics.
pub open spec fn declared(declarations: Seq<Declaration>) -> Seq<Declared> {
    Seq::new(declarations.len(), |c: int| declarations[c]@)
}

/// The lower-case form of a text, as `str::to_lowercase` gives it.
pub uninterp spec fn lowercase(s: Seq<char>) -> Seq<char>;

/// `str::to_lowercase` depends on the text alone: it returns what `lowercase`
/// names.
pub assume_specification[ str::to_lowercase ](s: &str) -> (lower: String)
    ensures
        lower@ == lowercase(s@),
;

/// The name that `attribute` goes by.
pub open spec fn key_of(attribute: Entry) -> SupportedArguments {
    match attribute {
        Entry::Alias(_) => SupportedArguments::Alias,
        Entry::Description(_) => SupportedArguments::Description,
        Entry::Roles(_) => SupportedArguments::Roles,
        Entry::StringOptions(_) => SupportedArguments::StringOptions,
    }
}

/// How many of `attributes` go by the name `key`.
pub open spec fn count_key(attributes: Seq<Entry>, key: SupportedArguments) -> nat
    decreases attributes.len(),
{
    if attributes.len() == 0 {
        0
    } else {
        count_key(attributes.drop_last(), key) + if key_of(attributes.last()) == key {
            1nat
        } else {
            0nat
        }
    }
}

/// The aliases among `attributes`, in their order.
pub open spec fn declared_aliases(attributes: Seq<Entry>) -> Seq<Seq<char>>
    decreases attributes.len(),
{
    if attributes.len() == 0 {
        Seq::empty()
    } else {
        let before = declared_aliases(attributes.drop_last());
        match attributes.last() {
            Entry::Alias(alias) => before.push(alias),
            _ => before,
        }
    }
}

/// The first description among `attributes`.
pub open spec fn description_of(attributes: Seq<Entry>) -> Option<Seq<char>>
    decreases attributes.len(),
{
    if attributes.len() == 0 {
        None
    } else {
        match description_of(attributes.drop_last()) {
            Some(text) => Some(text),
            None => match attributes.last() {
                Entry::Description(text) => Some(text),
                _ => None,
            },
        }
    }
}

/// The first list of roles among `attributes`.
pub open spec fn roles_of(attributes: Seq<Entry>) -> Option<Seq<Roles>>
    decreases attributes.len(),
{
    if attributes.len() == 0 {
        None
    } else {
        match roles_of(attributes.drop_last()) {
            Some(roles) => Some(roles),
            None => match attributes.last() {
                Entry::Roles(roles) => Some(roles),
                _ => None,
            },
        }
    }
}

/// The words that call a declared command: its lower-cased name, then its
/// aliases.
pub open spec fn aliases_of(declaration: Declared) -> Seq<Seq<char>> {
    seq![lowercase(declaration.name)] + declared_aliases(declaration.attributes)
}

/// The words that call each of the declared commands.
pub open spec fn all_aliases(declarations: Seq<Declared>) -> Seq<Seq<Seq<char>>> {
    Seq::new(declarations.len(), |c: int| aliases_of(declarations[c]))
}

/// One of `attributes` is an empty description.
pub open spec fn has_empty_description(attributes: Seq<Entry>) -> bool {
    exists|i: int|
        0 <= i < attributes.len() && (#[trigger] attributes[i] matches Entry::Description(text)
            && text.len() == 0)
}

/// One of `attributes` is an empty list of roles.
pub open spec fn has_empty_roles(attributes: Seq<Entry>) -> bool {
    exists|i: int|
        0 <= i < attributes.len() && (#[trigger] attributes[i] matches Entry::Roles(roles)
            && roles.len() == 0)
}

/// One of `texts` is empty.
pub open spec fn has_empty(texts: Seq<Seq<char>>) -> bool {
    exists|i: int| 0 <= i < texts.len() && (#[trigger] texts[i]).len() == 0
}

/// The word at position `p` of command `c` stands at another place of
/// `aliases` too: at position `p2` of command `c2`.
pub open spec fn clash(aliases: Seq<Seq<Seq<char>>>, c: int, p: int, c2: int, p2: int) -> bool {
    &&& 0 <= c < aliases.len()
    &&& 0 <= p < aliases[c].len()
    &&& 0 <= c2 < aliases.len()
    &&& 0 <= p2 < aliases[c2].len()
    &&& (c2 != c || p2 != p)
    &&& aliases[c][p] == aliases[c2][p2]
}

/// A word of command `c` stands at another place of `aliases` too.
pub open spec fn taken(aliases: Seq<Seq<Seq<char>>>, c: int) -> bool {
    exists|p: int, c2: int, p2: int| clash(aliases, c, p, c2, p2)
}

/// Whether the command at position `c` of the declarations is at `fault`.
pub open spec fn at_fault(declarations: Seq<Declared>, c: int, fault: Fault) -> bool {
    let attributes = declarations[c].attributes;
    match fault {
        Fault::DuplicateAttribute(key) => count_key(attributes, key) >= 2,
        Fault::MissingAttribute(key) => count_key(attributes, key) == 0,
        Fault::EmptyDescription => has_empty_description(attributes),
        Fault::NoRoles => has_empty_roles(attributes),
        Fault::EmptyAlias => has_empty(aliases_of(declarations[c])),
        Fault::AliasTaken => taken(all_aliases(declarations), c),
    }
}

/// The attributes of a command are in order: a description and a list of
/// roles are given once and neither is empty, and no other attribute is given
/// twice.
pub open spec fn in_order(attributes: Seq<Entry>) -> bool {
    &&& count_key(attributes, SupportedArguments::Description) == 1
    &&& count_key(attributes, SupportedArguments::Roles) == 1
    &&& count_key(attributes, SupportedArguments::Alias) <= 1
    &&& count_key(attributes, SupportedArguments::StringOptions) <= 1
    &&& !has_empty_description(attributes)
    &&& !has_empty_roles(attributes)
}

/// The faults that every declared command is checked for, in the order in
/// which they are reported: no attribute twice, a description and roles
/// given, neither of them empty, no alias empty, no alias taken.
pub open spec fn checked_faults() -> Seq<Fault> {
    seq![
        Fault::DuplicateAttribute(SupportedArguments::Alias),
        Fault::DuplicateAttribute(SupportedArguments::Description),
        Fault::DuplicateAttribute(SupportedArguments::Roles),
        Fault::DuplicateAttribute(SupportedArguments::StringOptions),
        Fault::MissingAttribute(SupportedArguments::Description),
        Fault::MissingAttribute(SupportedArguments::Roles),
        Fault::EmptyDescription,
        Fault::NoRoles,
        Fault::EmptyAlias,
        Fault::AliasTaken,
    ]
}

/// The test that command `c` is at a fault.
pub open spec fn faulty(declarations: Seq<Declared>, c: int) -> spec_fn(Fault) -> bool {
    |fault: Fault| at_fault(declarations, c, fault)
}

/// The fault `fault` as a violation of command `c`.
pub open spec fn violation_of(c: int) -> spec_fn(Fault) -> Violation {
    |fault: Fault| Violation { command: c as usize, fault }
}

/// The violations of command `c`: each checked fault that it is at.
pub open spec fn violations_of(declarations: Seq<Declared>, c: int) -> Seq<Violation> {
    checked_faults().filter(faulty(declarations, c)).map_values(violation_of(c))
}

/// The violations of the first `n` declared commands, command by command.
pub open spec fn violations_upto(declarations: Seq<Declared>, n: nat) -> Seq<Violation>
    decreases n,
{
    if n == 0 {
        Seq::empty()
    } else {
        violations_upto(declarations, (n - 1) as nat) + violations_of(declarations, n - 1)
    }
}

/// All violations of the declarations.
pub open spec fn violations(declarations: Seq<Declared>) -> Seq<Violation> {
    violations_upto(declarations, declarations.len())
}

/// The catalog row that a declared command gives.
pub open spec fn row_of(declaration: Declared) -> Row {
    Row {
        name: declaration.name,
        aliases: aliases_of(declaration),
        description: match description_of(declaration.attributes) {
            Some(text) => text,
            None => Seq::empty(),
        },
        roles: match roles_of(declaration.attributes) {
            Some(roles) => roles,
            None => Seq::empty(),
        },
    }
}

/// The catalog rows that the declarations give.
pub open spec fn rows_of(declarations: Seq<Declared>) -> Seq<Row> {
    Seq::new(declarations.len(), |c: int| row_of(declarations[c]))
}

/// The words that call each command of `rows`.
pub open spec fn row_aliases(rows: Seq<Row>) -> Seq<Seq<Seq<char>>> {
    Seq::new(rows.len(), |c: int| rows[c].aliases)
}

/// What holds of a checked catalog: every command has a description that is
/// not empty and at least one role, no alias is empty, and no alias is given
/// twice anywhere in the catalog.
pub open spec fn valid_rows(rows: Seq<Row>) -> bool {
    forall|c: int|
        0 <= c < rows.len() ==> {
            &&& (#[trigger] rows[c]).description.len() > 0
            &&& rows[c].roles.len() > 0
            &&& !has_empty(rows[c].aliases)
            &&& !taken(row_aliases(rows), c)
        }
}

/// The word `text` calls the command at position `c` of `rows`.
pub open spec fn calls(rows: Seq<Row>, c: int, text: Seq<char>) -> bool {
    0 <= c < rows.len() && rows[c].aliases.contains(text)
}

/// The command that `text` calls in `rows`, or the error that it calls none.
pub open spec fn resolution(rows: Seq<Row>, text: Seq<char>) -> Result<usize, CommandError> {
    if exists|c: int| calls(rows, c, text) {
        Ok((choose|c: int| calls(rows, c, text)) as usize)
    } else {
        Err(CommandError::UnknownCommand)
    }
}

/// What a chat line's command word comes to in `rows` for `caller`: the
/// command that it calls, if the command's role clauses admit the caller.
pub open spec fn parsed(rows: Seq<Row>, text: Seq<char>, caller: Caller) -> Result<
    usize,
    CommandError,
> {
    match resolution(rows, text) {
        Ok(c) => if admits(rows[c as int].roles, caller) {
            Ok(c)
        } else {
            Err(CommandError::NotEligible)
        },
        Err(e) => Err(e),
    }
}

/// The attribute name that `name` spells.
pub open spec fn argument_named(name: Seq<char>) -> Option<SupportedArguments> {
    if name == "alias"@ {
        Some(SupportedArguments::Alias)
    } else if name == "description"@ {
        Some(SupportedArguments::Description)
    } else if name == "roles"@ {
        Some(SupportedArguments::Roles)
    } else if name == "string_options"@ {
        Some(SupportedArguments::StringOptions)
    } else {
        None
    }
}

/// The option name that `name` spells.
pub open spec fn string_argument_named(name: Seq<char>) -> Option<SupportedStringArguments> {
    if name == "required"@ {
        Some(SupportedStringArguments::Required)
    } else if name == "allow_whitespaces"@ {
        Some(SupportedStringArguments::AllowWhitespaces)
    } else {
        None
    }
}

impl SupportedArguments {
    /// The attribute name that `name` spells: "alias", "description", "roles"
    /// or "string_options". Any other name is an error.
    pub fn from_str(name: &str) -> (key: Result<SupportedArguments, ()>)
        ensures
            key == match argument_named(name@) {
                Some(k) => Ok::<SupportedArguments, ()>(k),
                None => Err::<SupportedArguments, ()>(()),
            },
    {
        if same(name, "alias") {
            Ok(SupportedArguments::Alias)
        } else if same(name, "description") {
            Ok(SupportedArguments::Description)
        } else if same(name, "roles") {
            Ok(SupportedArguments::Roles)
        } else if same(name, "string_options") {
            Ok(SupportedArguments::StringOptions)
        } else {
            Err(())
        }
    }
}

impl SupportedStringArguments {
    /// The option name that `name` spells: "required" or "allow_whitespaces".
    /// Any other name is an error.
    pub fn from_str(name: &str) -> (key: Result<SupportedStringArguments, ()>)
        ensures
            key == match string_argument_named(name@) {
                Some(k) => Ok::<SupportedStringArguments, ()>(k),
                None => Err::<SupportedStringArguments, ()>(()),
            },
    {
        if same(name, "required") {
            Ok(SupportedStringArguments::Required)
        } else if same(name, "allow_whitespaces") {
            Ok(SupportedStringArguments::AllowWhitespaces)
        } else {
            Err(())
        }
    }
}

impl Attribute {
    /// The name that the attribute goes by.
    pub fn key(&self) -> (key: SupportedArguments)
        ensures
            key == key_of(self@),
    {
        match self {
            Attribute::Alias(_) => SupportedArguments::Alias,
            Attribute::Description(_) => SupportedArguments::Description,
            Attribute::Roles(_) => SupportedArguments::Roles,
            Attribute::StringOptions(_) => SupportedArguments::StringOptions,
        }
    }
}

/// What one more attribute at the end of a list adds: it counts under its own
/// name, an alias joins the aliases, and a description or a list of roles is
/// the first only if there was none before.
pub proof fn lemma_attribute_added(attributes: Seq<Entry>, added: Entry)
    ensures
        forall|key: SupportedArguments| #[trigger]
            count_key(attributes.push(added), key) == count_key(attributes, key) + if key_of(added)
                == key {
                1nat
            } else {
                0nat
            },
        declared_aliases(attributes.push(added)) == match added {
            Entry::Alias(alias) => declared_aliases(attributes).push(alias),
            _ => declared_aliases(attributes),
        },
        description_of(attributes.push(added)) == match description_of(attributes) {
            Some(text) => Some(text),
            None => match added {
                Entry::Description(text) => Some(text),
                _ => None,
            },
        },
        roles_of(attributes.push(added)) == match roles_of(attributes) {
            Some(roles) => Some(roles),
            None => match added {
                Entry::Roles(roles) => Some(roles),
                _ => None,
            },
        },
{
    assert(attributes.push(added).drop_last() == attributes);
}

/// The texts of lists of strings.
pub open spec fn texts(lists: Seq<Vec<String>>) -> Seq<Seq<Seq<char>>> {
    Seq::new(lists.len(), |c: int| strs(lists[c]@))
}

/// How many of `attributes` go by the name `key`.
fn count_attributes(attributes: &Vec<Attribute>, key: SupportedArguments) -> (n: usize)
    ensures
        n == count_key(entries(attributes@), key),
{
    let mut n: usize = 0;
    let mut i: usize = 0;
    while i < attributes.len()
        invariant
            i <= attributes.len(),
            n <= i,
            n == count_key(entries(attributes@).take(i as int), key),
        decreases attributes.len() - i,
    {
        proof {
            let upto = entries(attributes@).take(i + 1);
            assert(upto.drop_last() == entries(attributes@).take(i as int));
        }
        if attributes[i].key() == key {
            n = n + 1;
        }
        i = i + 1;
    }
    assert(entries(attributes@).take(attributes.len() as int) == entries(attributes@));
    n
}

/// A copy of `roles`.
fn copy_roles(roles: &Vec<Roles>) -> (copy: Vec<Roles>)
    ensures
        copy@ == roles@,
{
    let mut copy: Vec<Roles> = Vec::new();
    let mut i: usize = 0;
    while i < roles.len()
        invariant
            i <= roles.len(),
            copy@ == roles@.take(i as int),
        decreases roles.len() - i,
    {
        copy.push(roles[i]);
        i = i + 1;
    }
    copy
}

/// The first description among `attributes`.
fn first_description(attributes: &Vec<Attribute>) -> (found: Option<String>)
    ensures
        match found {
            Some(text) => description_of(entries(attributes@)) == Some(text@),
            None => description_of(entries(attributes@)) is None,
        },
{
    let mut i: usize = 0;
    while i < attributes.len()
        invariant
            i <= attributes.len(),
            description_of(entries(attributes@).take(i as int)) is None,
        decreases attributes.len() - i,
    {
        proof {
            let upto = entries(attributes@).take(i + 1);
            assert(upto.drop_last() == entries(attributes@).take(i as int));
        }
        if let Attribute::Description(text) = &attributes[i] {
            proof {
                lemma_description_stays(entries(attributes@), i + 1);
            }
            return Some(text.clone());
        }
        i = i + 1;
    }
    assert(entries(attributes@).take(attributes.len() as int) == entries(attributes@));
    None
}

/// The first list of roles among `attributes`.
fn first_roles(attributes: &Vec<Attribute>) -> (found: Option<Vec<Roles>>)
    ensures
        match found {
            Some(roles) => roles_of(entries(attributes@)) == Some(roles@),
            None => roles_of(entries(attributes@)) is None,
        },
{
    let mut i: usize = 0;
    while i < attributes.len()
        invariant
            i <= attributes.len(),
            roles_of(entries(attributes@).take(i as int)) is None,
        decreases attributes.len() - i,
    {
        proof {
            let upto = entries(attributes@).take(i + 1);
            assert(upto.drop_last() == entries(attributes@).take(i as int));
        }
        if let Attribute::Roles(roles) = &attributes[i] {
            proof {
                lemma_roles_stay(entries(attributes@), i + 1);
            }
            return Some(copy_roles(roles));
        }
        i = i + 1;
    }
    assert(entries(attributes@).take(attributes.len() as int) == entries(attributes@));
    None
}

/// A description found among the first `n` attributes is the description of
/// the whole list.
proof fn lemma_description_stays(attributes: Seq<Entry>, n: int)
    requires
        0 <= n <= attributes.len(),
        description_of(attributes.take(n)) is Some,
    ensures
        description_of(attributes) == description_of(attributes.take(n)),
    decreases attributes.len() - n,
{
    if n < attributes.len() {
        let upto = attributes.take(n + 1);
        assert(upto.drop_last() == attributes.take(n));
        lemma_description_stays(attributes, n + 1);
    } else {
        assert(attributes.take(n) == attributes);
    }
}

/// A list of roles found among the first `n` attributes is the list of roles
/// of the whole list.
proof fn lemma_roles_stay(attributes: Seq<Entry>, n: int)
    requires
        0 <= n <= attributes.len(),
        roles_of(attributes.take(n)) is Some,
    ensures
        roles_of(attributes) == roles_of(attributes.take(n)),
    decreases attributes.len() - n,
{
    if n < attributes.len() {
        let upto = attributes.take(n + 1);
        assert(upto.drop_last() == attributes.take(n));
        lemma_roles_stay(attributes, n + 1);
    } else {
        assert(attributes.take(n) == attributes);
    }
}

/// Whether one of `attributes` is an empty description.
fn empty_description(attributes: &Vec<Attribute>) -> (r: bool)
    ensures
        r == has_empty_description(entries(attributes@)),
{
    let mut i: usize = 0;
    while i < attributes.len()
        invariant
            i <= attributes.len(),
            forall|j: int|
                0 <= j < i ==> !(#[trigger] entries(attributes@)[j] matches Entry::Description(text)
                    && text.len() == 0),
        decreases attributes.len() - i,
    {
        if let Attribute::Description(text) = &attributes[i] {
            if text.as_str().is_empty() {
                assert(entries(attributes@)[i as int] == Entry::Description(text@));
                return true;
            }
        }
        i = i + 1;
    }
    false
}

/// Whether one of `attributes` is an empty list of roles.
fn empty_roles(attributes: &Vec<Attribute>) -> (r: bool)
    ensures
        r == has_empty_roles(entries(attributes@)),
{
    let mut i: usize = 0;
    while i < attributes.len()
        invariant
            i <= attributes.len(),
            forall|j: int|
                0 <= j < i ==> !(#[trigger] entries(attributes@)[j] matches Entry::Roles(roles)
                    && roles.len() == 0),
        decreases attributes.len() - i,
    {
        if let Attribute::Roles(roles) = &attributes[i] {
            if roles.len() == 0 {
                assert(entries(attributes@)[i as int] == Entry::Roles(roles@));
                return true;
            }
        }
        i = i + 1;
    }
    false
}

/// Whether one of `list` is empty.
fn any_empty(list: &Vec<String>) -> (r: bool)
    ensures
        r == has_empty(strs(list@)),
{
    let mut i: usize = 0;
    while i < list.len()
        invariant
            i <= list.len(),
            forall|j: int| 0 <= j < i ==> (#[trigger] strs(list@)[j]).len() != 0,
        decreases list.len() - i,
    {
        if list[i].as_str().is_empty() {
            assert(strs(list@)[i as int].len() == 0);
            return true;
        }
        i = i + 1;
    }
    false
}

/// The words that call a declared command.
fn collect_aliases(declaration: &Declaration) -> (aliases: Vec<String>)
    ensures
        strs(aliases@) == aliases_of(declaration@),
{
    let mut aliases: Vec<String> = Vec::new();
    aliases.push(declaration.name.as_str().to_lowercase());
    let attributes = &declaration.attributes;
    let ghost head = seq![lowercase(declaration.name@)];
    let mut i: usize = 0;
    while i < attributes.len()
        invariant
            i <= attributes.len(),
            attributes == &declaration.attributes,
            head == seq![lowercase(declaration.name@)],
            strs(aliases@) == head + declared_aliases(entries(attributes@).take(i as int)),
        decreases attributes.len() - i,
    {
        proof {
            let upto = entries(attributes@).take(i + 1);
            assert(upto.drop_last() == entries(attributes@).take(i as int));
        }
        let ghost before = strs(aliases@);
        if let Attribute::Alias(alias) = &attributes[i] {
            aliases.push(alias.clone());
            assert(strs(aliases@) == before.push(alias@));
        }
        i = i + 1;
    }
    assert(entries(attributes@).take(attributes.len() as int) == entries(attributes@));
    aliases
}

/// The words that call each of the declared commands.
fn collect_all_aliases(declarations: &Vec<Declaration>) -> (all: Vec<Vec<String>>)
    ensures
        texts(all@) == all_aliases(declared(declarations@)),
{
    let mut all: Vec<Vec<String>> = Vec::new();
    let mut c: usize = 0;
    while c < declarations.len()
        invariant
            c <= declarations.len(),
            all@.len() == c,
            forall|k: int| 0 <= k < c ==> strs(#[trigger] all@[k]@) == aliases_of(declared(declarations@)[k]),
        decreases declarations.len() - c,
    {
        all.push(collect_aliases(&declarations[c]));
        c = c + 1;
    }
    all
}

/// Whether the word at position `p` of command `c` stands in command `c2`
/// too, at another place.
fn clashes_in(all: &Vec<Vec<String>>, c: usize, p: usize, c2: usize) -> (r: bool)
    requires
        c < all.len(),
        p < all[c as int].len(),
        c2 < all.len(),
    ensures
        r == exists|p2: int| clash(texts(all@), c as int, p as int, c2 as int, p2),
{
    let mut p2: usize = 0;
    while p2 < all[c2].len()
        invariant
            c < all.len(),
            p < all[c as int].len(),
            c2 < all.len(),
            p2 <= all[c2 as int].len(),
            forall|k: int| 0 <= k < p2 ==> !clash(texts(all@), c as int, p as int, c2 as int, k),
        decreases all[c2 as int].len() - p2,
    {
        if (c2 != c || p2 != p) && all[c][p] == all[c2][p2] {
            assert(clash(texts(all@), c as int, p as int, c2 as int, p2 as int));
            return true;
        }
        p2 = p2 + 1;
    }
    false
}

/// Whether the word at position `p` of command `c` stands at another place
/// too.
fn clashes(all: &Vec<Vec<String>>, c: usize, p: usize) -> (r: bool)
    requires
        c < all.len(),
        p < all[c as int].len(),
    ensures
        r == exists|c2: int, p2: int| clash(texts(all@), c as int, p as int, c2, p2),
{
    let mut c2: usize = 0;
    while c2 < all.len()
        invariant
            c < all.len(),
            p < all[c as int].len(),
            c2 <= all.len(),
            forall|k: int, p2: int|
                0 <= k < c2 ==> !clash(texts(all@), c as int, p as int, k, p2),
        decreases all.len() - c2,
    {
        if clashes_in(all, c, p, c2) {
            return true;
        }
        c2 = c2 + 1;
    }
    false
}

/// Whether a word of command `c` stands at another place too.
fn is_taken(all: &Vec<Vec<String>>, c: usize) -> (r: bool)
    requires
        c < all.len(),
    ensures
        r == taken(texts(all@), c as int),
{
    let mut p: usize = 0;
    while p < all[c].len()
        invariant
            c < all.len(),
            p <= all[c as int].len(),
            forall|k: int, c2: int, p2: int|
                0 <= k < p ==> !clash(texts(all@), c as int, k, c2, p2),
        decreases all[c as int].len() - p,
    {
        if clashes(all, c, p) {
            return true;
        }
        p = p + 1;
    }
    false
}

/// Whether the command at position `c` of the declarations is at `fault`;
/// `all` holds the words that call each command.
fn is_at_fault(
    declarations: &Vec<Declaration>,
    all: &Vec<Vec<String>>,
    c: usize,
    fault: Fault,
) -> (r: bool)
    requires
        c < declarations.len(),
        texts(all@) == all_aliases(declared(declarations@)),
    ensures
        r == at_fault(declared(declarations@), c as int, fault),
{
    let attributes = &declarations[c].attributes;
    assert(texts(all@).len() == all@.len());
    assert(all_aliases(declared(declarations@))[c as int] == aliases_of(declared(declarations@)[c as int]));
    match fault {
        Fault::DuplicateAttribute(key) => count_attributes(attributes, key) >= 2,
        Fault::MissingAttribute(key) => count_attributes(attributes, key) == 0,
        Fault::EmptyDescription => empty_description(attributes),
        Fault::NoRoles => empty_roles(attributes),
        Fault::EmptyAlias => any_empty(&all[c]),
        Fault::AliasTaken => is_taken(all, c),
    }
}

/// The faults that every declared command is checked for.
fn faults_to_check() -> (faults: Vec<Fault>)
    ensures
        faults@ == checked_faults(),
{
    let mut faults: Vec<Fault> = Vec::new();
    faults.push(Fault::DuplicateAttribute(SupportedArguments::Alias));
    faults.push(Fault::DuplicateAttribute(SupportedArguments::Description));
    faults.push(Fault::DuplicateAttribute(SupportedArguments::Roles));
    faults.push(Fault::DuplicateAttribute(SupportedArguments::StringOptions));
    faults.push(Fault::MissingAttribute(SupportedArguments::Description));
    faults.push(Fault::MissingAttribute(SupportedArguments::Roles));
    faults.push(Fault::EmptyDescription);
    faults.push(Fault::NoRoles);
    faults.push(Fault::EmptyAlias);
    faults.push(Fault::AliasTaken);
    faults
}

/// Checks the declarations and reports every violation, command by command in
/// the order of the declarations, and for each command fault by fault in the
/// order of `checked_faults`.
pub fn check(declarations: &Vec<Declaration>) -> (found: Vec<Violation>)
    ensures
        found@ == violations(declared(declarations@)),
{
    let all = collect_all_aliases(declarations);
    let faults = faults_to_check();
    let mut found: Vec<Violation> = Vec::new();
    let mut c: usize = 0;
    while c < declarations.len()
        invariant
            c <= declarations.len(),
            texts(all@) == all_aliases(declared(declarations@)),
            faults@ == checked_faults(),
            found@ == violations_upto(declared(declarations@), c as nat),
        decreases declarations.len() - c,
    {
        let ghost before = found@;
        let ghost test = faulty(declared(declarations@), c as int);
        let mut k: usize = 0;
        proof {
            reveal(Seq::filter);
            assert(faults@.take(0).filter(test).map_values(violation_of(c as int))
                == Seq::<Violation>::empty());
        }
        while k < faults.len()
            invariant
                c < declarations.len(),
                k <= faults.len(),
                texts(all@) == all_aliases(declared(declarations@)),
                faults@ == checked_faults(),
                test == faulty(declared(declarations@), c as int),
                found@ == before + faults@.take(k as int).filter(test).map_values(
                    violation_of(c as int),
                ),
            decreases faults.len() - k,
        {
            let fault = faults[k];
            proof {
                let seen = faults@.take(k as int);
                assert(faults@.take(k + 1) == seen.push(fault));
                seen.lemma_filter_push(fault, test);
                if test(fault) {
                    assert(seen.filter(test).push(fault).map_values(violation_of(c as int))
                        == seen.filter(test).map_values(violation_of(c as int)).push(
                        Violation { command: c, fault },
                    ));
                }
            }
            if is_at_fault(declarations, &all, c, fault) {
                found.push(Violation { command: c, fault });
            }
            k = k + 1;
        }
        assert(faults@.take(faults.len() as int) == faults@);
        c = c + 1;
    }
    found
}

/// A checked catalog of commands.
pub struct CommandTable {
    specs: Vec<CommandSpec>,
}

impl View for CommandTable {
    type V = Seq<Row>;

    closed spec fn view(&self) -> Seq<Row> {
        Seq::new(self.specs@.len(), |c: int| self.specs@[c]@)
    }
}

/// A list that holds no violation holds none of any command, so no command
/// is at any of the checked faults.
proof fn lemma_no_violation(declarations: Seq<Declared>, n: nat, c: int, k: int)
    requires
        violations_upto(declarations, n).len() == 0,
        0 <= c < n,
        0 <= k < checked_faults().len(),
    ensures
        !at_fault(declarations, c, checked_faults()[k]),
    decreases n,
{
    if c == n - 1 {
        let test = faulty(declarations, c);
        if test(checked_faults()[k]) {
            checked_faults().lemma_filter_contains(test, k);
        }
    } else {
        lemma_no_violation(declarations, (n - 1) as nat, c, k);
    }
}

/// Every violation reported is a fault that its command is at, and one of
/// the checked faults.
pub proof fn lemma_violations_are_faults(declarations: Seq<Declared>, n: nat, i: int)
    requires
        n <= usize::MAX,
        0 <= i < violations_upto(declarations, n).len(),
    ensures
        ({
            let found = violations_upto(declarations, n)[i];
            &&& found.command < n
            &&& at_fault(declarations, found.command as int, found.fault)
            &&& checked_faults().contains(found.fault)
        }),
    decreases n,
{
    let before = violations_upto(declarations, (n - 1) as nat);
    if i < before.len() {
        lemma_violations_are_faults(declarations, (n - 1) as nat, i);
    } else {
        let c = n - 1;
        let test = faulty(declarations, c);
        let k = i - before.len();
        let kept = checked_faults().filter(test);
        assert(violations_of(declarations, c)[k] == Violation {
            command: c as usize,
            fault: kept[k],
        });
        checked_faults().lemma_filter_pred(test, k);
        checked_faults().lemma_filter_contains_rev(test, kept[k]);
    }
}

/// Where no command is at any of the checked faults, nothing is reported.
pub proof fn lemma_sound_has_no_violation(declarations: Seq<Declared>, n: nat)
    requires
        n <= usize::MAX,
        forall|c: int, fault: Fault|
            0 <= c < n && checked_faults().contains(fault) ==> !#[trigger] at_fault(
                declarations,
                c,
                fault,
            ),
    ensures
        violations_upto(declarations, n).len() == 0,
    decreases n,
{
    if n > 0 {
        lemma_sound_has_no_violation(declarations, (n - 1) as nat);
        if violations_upto(declarations, n).len() > 0 {
            lemma_violations_are_faults(declarations, n, 0);
        }
    }
}

/// Where a description is given, the first one is among the attributes.
proof fn lemma_description_given(attributes: Seq<Entry>)
    requires
        count_key(attributes, SupportedArguments::Description) > 0,
    ensures
        description_of(attributes) is Some,
        exists|i: int|
            0 <= i < attributes.len() && (#[trigger] attributes[i] matches Entry::Description(
                text,
            ) && text == description_of(attributes)->0),
    decreases attributes.len(),
{
    let before = attributes.drop_last();
    if count_key(before, SupportedArguments::Description) > 0 {
        lemma_description_given(before);
        let i = choose|i: int|
            0 <= i < before.len() && (#[trigger] before[i] matches Entry::Description(text)
                && text == description_of(before)->0);
        assert(attributes[i] == before[i]);
    } else {
        lemma_count_none(before, SupportedArguments::Description);
        assert(attributes[attributes.len() - 1] == attributes.last());
    }
}

/// Where roles are given, the first list is among the attributes.
proof fn lemma_roles_given(attributes: Seq<Entry>)
    requires
        count_key(attributes, SupportedArguments::Roles) > 0,
    ensures
        roles_of(attributes) is Some,
        exists|i: int|
            0 <= i < attributes.len() && (#[trigger] attributes[i] matches Entry::Roles(roles)
                && roles == roles_of(attributes)->0),
    decreases attributes.len(),
{
    let before = attributes.drop_last();
    if count_key(before, SupportedArguments::Roles) > 0 {
        lemma_roles_given(before);
        let i = choose|i: int|
            0 <= i < before.len() && (#[trigger] before[i] matches Entry::Roles(roles)
                && roles == roles_of(before)->0);
        assert(attributes[i] == before[i]);
    } else {
        lemma_count_none(before, SupportedArguments::Roles);
        assert(attributes[attributes.len() - 1] == attributes.last());
    }
}

/// Where no attribute goes by a name, there is no first one of that name.
proof fn lemma_count_none(attributes: Seq<Entry>, key: SupportedArguments)
    requires
        count_key(attributes, key) == 0,
    ensures
        key == SupportedArguments::Description ==> description_of(attributes) is None,
        key == SupportedArguments::Roles ==> roles_of(attributes) is None,
    decreases attributes.len(),
{
    if attributes.len() > 0 {
        lemma_count_none(attributes.drop_last(), key);
    }
}

/// Declarations without violation give a catalog of which `valid_rows` holds.
pub proof fn lemma_checked_rows_valid(declarations: Seq<Declared>)
    requires
        violations(declarations).len() == 0,
    ensures
        valid_rows(rows_of(declarations)),
{
    let rows = rows_of(declarations);
    let n = declarations.len();
    assert(row_aliases(rows) =~= all_aliases(declarations));
    assert forall|c: int| 0 <= c < rows.len() implies {
        &&& (#[trigger] rows[c]).description.len() > 0
        &&& rows[c].roles.len() > 0
        &&& !has_empty(rows[c].aliases)
        &&& !taken(row_aliases(rows), c)
    } by {
        let attributes = declarations[c].attributes;
        lemma_no_violation(declarations, n, c, 4);
        lemma_no_violation(declarations, n, c, 5);
        lemma_no_violation(declarations, n, c, 6);
        lemma_no_violation(declarations, n, c, 7);
        lemma_no_violation(declarations, n, c, 8);
        lemma_no_violation(declarations, n, c, 9);
        lemma_description_given(attributes);
        lemma_roles_given(attributes);
    }
}

/// In a checked catalog a word calls one command at most.
pub proof fn lemma_one_command_per_word(rows: Seq<Row>, text: Seq<char>, c: int, c2: int)
    requires
        valid_rows(rows),
        calls(rows, c, text),
        calls(rows, c2, text),
    ensures
        c == c2,
{
    if c != c2 {
        let p = choose|p: int| 0 <= p < rows[c].aliases.len() && rows[c].aliases[p] == text;
        let p2 = choose|p2: int| 0 <= p2 < rows[c2].aliases.len() && rows[c2].aliases[p2] == text;
        assert(clash(row_aliases(rows), c, p, c2, p2));
    }
}

/// In a checked catalog every word of a command resolves to that command:
/// its lower-cased name and each of its aliases call the same command. A
/// word that is no name and no alias resolves to nothing.
pub proof fn lemma_resolution(rows: Seq<Row>, text: Seq<char>)
    requires
        valid_rows(rows),
    ensures
        forall|c: int| calls(rows, c, text) ==> resolution(rows, text) == Ok::<
            usize,
            CommandError,
        >(c as usize),
        (forall|c: int| !calls(rows, c, text)) ==> resolution(rows, text) == Err::<
            usize,
            CommandError,
        >(CommandError::UnknownCommand),
{
    assert forall|c: int| calls(rows, c, text) implies resolution(rows, text) == Ok::<
        usize,
        CommandError,
    >(c as usize) by {
        let chosen = choose|c: int| calls(rows, c, text);
        lemma_one_command_per_word(rows, text, c, chosen);
    }
}

impl CommandTable {
    #[verifier::type_invariant]
    spec fn checked(self) -> bool {
        valid_rows(self@)
    }

    /// Checks the declarations. Without violation they become the catalog
    /// with one row for each declared command, in the order of the
    /// declarations; otherwise all violations are reported.
    pub fn new(declarations: Vec<Declaration>) -> (table: Result<CommandTable, Vec<Violation>>)
        ensures
            match table {
                Ok(t) => violations(declared(declarations@)).len() == 0 && t@ == rows_of(declared(declarations@)),
                Err(found) => found@.len() > 0 && found@ == violations(declared(declarations@)),
            },
    {
        let found = check(&declarations);
        if found.len() > 0 {
            return Err(found);
        }
        let mut specs: Vec<CommandSpec> = Vec::new();
        let mut c: usize = 0;
        while c < declarations.len()
            invariant
                c <= declarations.len(),
                specs@.len() == c,
                forall|k: int| 0 <= k < c ==> (#[trigger] specs@[k])@ == row_of(declared(declarations@)[k]),
            decreases declarations.len() - c,
        {
            let declaration = &declarations[c];
            let description = match first_description(&declaration.attributes) {
                Some(text) => text,
                None => String::new(),
            };
            let roles = match first_roles(&declaration.attributes) {
                Some(roles) => roles,
                None => Vec::new(),
            };
            let spec = CommandSpec {
                name: declaration.name.clone(),
                aliases: collect_aliases(declaration),
                description,
                roles,
            };
            specs.push(spec);
            c = c + 1;
        }
        proof {
            lemma_checked_rows_valid(declared(declarations@));
            assert(Seq::new(specs@.len(), |c: int| specs@[c]@) =~= rows_of(declared(declarations@)));
        }
        Ok(CommandTable { specs })
    }

    /// The commands of the catalog.
    pub fn specs(&self) -> (specs: &Vec<CommandSpec>)
        ensures
            specs@.len() == self@.len(),
            forall|c: int| 0 <= c < self@.len() ==> (#[trigger] specs@[c])@ == self@[c],
            valid_rows(self@),
    {
        proof {
            use_type_invariant(self);
        }
        &self.specs
    }

    /// The command that `text` calls: the one that has it as its lower-cased
    /// name or as an alias, compared letter by letter. A word that calls no
    /// command is an `UnknownCommand`.
    pub fn resolve(&self, text: &str) -> (command: Result<usize, CommandError>)
        ensures
            command == resolution(self@, text@),
            match command {
                Ok(c) => calls(self@, c as int, text@),
                Err(e) => e == CommandError::UnknownCommand && forall|c: int|
                    !calls(self@, c, text@),
            },
    {
        let mut c: usize = 0;
        while c < self.specs.len()
            invariant
                c <= self.specs.len(),
                forall|k: int| 0 <= k < c ==> !calls(self@, k, text@),
            decreases self.specs.len() - c,
        {
            if crate::dictionary::has_word(&self.specs[c].aliases, text) {
                proof {
                    use_type_invariant(self);
                    lemma_resolution(self@, text@);
                    assert(calls(self@, c as int, text@));
                }
                return Ok(c);
            }
            c = c + 1;
        }
        proof {
            use_type_invariant(self);
            lemma_resolution(self@, text@);
        }
        Err(CommandError::UnknownCommand)
    }

    /// Whether the role clauses of the command at position `command` admit the
    /// caller. A position outside the catalog is an `UnknownCommand`.
    pub fn authorize(&self, command: usize, caller: &AuthorizationContext) -> (r: Result<
        (),
        CommandError,
    >)
        ensures
            r == if command >= self@.len() {
                Err::<(), CommandError>(CommandError::UnknownCommand)
            } else if admits(self@[command as int].roles, caller@) {
                Ok::<(), CommandError>(())
            } else {
                Err::<(), CommandError>(CommandError::NotEligible)
            },
    {
        if command >= self.specs.len() {
            Err(CommandError::UnknownCommand)
        } else {
            caller.authorize(&self.specs[command].roles)
        }
    }

    /// The help text of the command at position `command`; `None` for a
    /// position outside the catalog.
    pub fn describe(&self, command: usize) -> (text: Option<&str>)
        ensures
            match text {
                Some(t) => command < self@.len() && t@ == self@[command as int].description,
                None => command >= self@.len(),
            },
    {
        if command < self.specs.len() {
            Some(self.specs[command].description.as_str())
        } else {
            None
        }
    }

    /// What a chat line's command word comes to for `caller`: the command
    /// that `text` calls if its role clauses admit the caller, `NotEligible` if
    /// they do not, `UnknownCommand` if `text` calls no command.
    pub fn parse_command(&self, text: &str, caller: &AuthorizationContext) -> (command: Result<
        usize,
        CommandError,
    >)
        ensures
            command == parsed(self@, text@, caller@),
    {
        match self.resolve(text) {
            Ok(c) => match self.authorize(c, caller) {
                Ok(_) => Ok(c),
                Err(e) => Err(e),
            },
            Err(e) => Err(e),
        }
    }
}

} // verus!
