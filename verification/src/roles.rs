//! Who may use a command. A command declares role clauses; it admits a
//! caller if none of its clauses rejects them.

use crate::dictionary::has_word;
use crate::text::{same, strs};
use crate::types::Auth;
use vstd::prelude::*;

verus! {

/// The privileged identity: whoever is signed in under this id may use every
/// command.
pub const SUPERUSER: &'static str = "988839581384323083";

/// A role clause of a command.
#[derive(Debug, Clone, Copy, PartialEq, Eq, Structural)]
pub enum Roles {
    Anyone,
    Developer,
    Creator,
}

/// Why a chat line was not taken as a command.
#[derive(Debug, Clone, Copy, PartialEq, Eq, Structural)]
pub enum CommandError {
    /// The command word is no name or alias of any command.
    UnknownCommand,
    /// A role clause of the command rejects the caller.
    NotEligible,
}

/// Who calls a command: the roles that the room gives them, the id that they
/// are signed in under (if they are signed in), and the id of the room's
/// creator.
#[derive(Debug, Clone)]
pub struct AuthorizationContext {
    pub roles: Vec<String>,
    pub id: Option<String>,
    pub room_creator: String,
}

/// What an `AuthorizationContext` holds, as mathematics. A caller who is not
/// signed in has no id: no id of theirs equals any other.
pub struct Caller {
    pub roles: Seq<Seq<char>>,
    pub id: Option<Seq<char>>,
    pub room_creator: Seq<char>,
}

/// The id that a caller is signed in under, if they are signed in.
pub open spec fn caller_id(id: Option<String>) -> Option<Seq<char>> {
    match id {
        Some(text) => Some(text@),
        None => None,
    }
}

/// The id of a sign-in, if there is a sign-in.
pub open spec fn auth_id(auth: Option<Auth>) -> Option<Seq<char>> {
    match auth {
        Some(a) => Some(a.id@),
        None => None,
    }
}

impl View for AuthorizationContext {
    type V = Caller;

    open spec fn view(&self) -> Caller {
        Caller {
            roles: strs(self.roles@),
            id: caller_id(self.id),
            room_creator: self.room_creator@,
        }
    }
}

/// The caller is signed in under the privileged identity.
pub open spec fn is_superuser(caller: Caller) -> bool {
    caller.id == Some(SUPERUSER@)
}

/// The caller is signed in under the id of the room's creator.
pub open spec fn is_room_creator(caller: Caller) -> bool {
    caller.id == Some(caller.room_creator)
}

/// The clause `role` does not reject the caller: `Anyone` rejects nobody;
/// `Developer` wants the role "developer" or the privileged identity;
/// `Creator` wants the role "creator", the id of the room's creator, or the
/// privileged identity. A caller who is not signed in has neither identity.
pub open spec fn clause_passes(role: Roles, caller: Caller) -> bool {
    match role {
        Roles::Anyone => true,
        Roles::Developer => caller.roles.contains("developer"@) || is_superuser(caller),
        Roles::Creator => is_superuser(caller) || caller.roles.contains("creator"@)
            || is_room_creator(caller),
    }
}

/// Whether a command with the clauses `clauses` admits the caller. The clauses
/// are read in the order in which they were declared: a clause that rejects
/// the caller refuses them; a `Creator` clause met by the privileged identity
/// admits them at once, whatever clauses follow.
pub open spec fn admits(clauses: Seq<Roles>, caller: Caller) -> bool
    decreases clauses.len(),
{
    if clauses.len() == 0 {
        true
    } else if clauses[0] == Roles::Creator && is_superuser(caller) {
        true
    } else if clause_passes(clauses[0], caller) {
        admits(clauses.drop_first(), caller)
    } else {
        false
    }
}

/// The role that a name stands for.
pub open spec fn role_named(name: Seq<char>) -> Option<Roles> {
    if name == "anyone"@ {
        Some(Roles::Anyone)
    } else if name == "developer"@ {
        Some(Roles::Developer)
    } else if name == "creator"@ {
        Some(Roles::Creator)
    } else {
        None
    }
}

/// What is told to a caller whose line was not taken as a command.
pub open spec fn error_text(error: CommandError) -> Seq<char> {
    match error {
        CommandError::UnknownCommand => "unknown command"@,
        CommandError::NotEligible => "you are not eligible to use this command"@,
    }
}

impl Roles {
    /// The role that `name` stands for: "anyone", "developer" or "creator".
    /// Any other name is an error.
    pub fn from_str(name: &str) -> (role: Result<Roles, ()>)
        ensures
            role == match role_named(name@) {
                Some(r) => Ok::<Roles, ()>(r),
                None => Err::<Roles, ()>(()),
            },
    {
        if same(name, "anyone") {
            Ok(Roles::Anyone)
        } else if same(name, "developer") {
            Ok(Roles::Developer)
        } else if same(name, "creator") {
            Ok(Roles::Creator)
        } else {
            Err(())
        }
    }
}

impl CommandError {
    /// What is told to the caller.
    pub fn message(&self) -> (text: &'static str)
        ensures
            text@ == error_text(*self),
    {
        match self {
            CommandError::UnknownCommand => "unknown command",
            CommandError::NotEligible => "you are not eligible to use this command",
        }
    }
}

impl AuthorizationContext {
    /// The caller with the roles `roles`, signed in as `auth` says, in a room
    /// created by `room_creator`.
    pub fn new(roles: Vec<String>, auth: Option<&Auth>, room_creator: String) -> (ctx:
        AuthorizationContext)
        ensures
            ctx@ == (Caller {
                roles: strs(roles@),
                id: match auth {
                    Some(a) => Some(a.id@),
                    None => None,
                },
                room_creator: room_creator@,
            }),
    {
        let id = match auth {
            Some(a) => Some(a.id.clone()),
            None => None,
        };
        AuthorizationContext { roles, id, room_creator }
    }

    /// Whether the caller is signed in under the privileged identity.
    pub fn is_superuser(&self) -> (r: bool)
        ensures
            r == is_superuser(self@),
    {
        match &self.id {
            Some(id) => same(id.as_str(), SUPERUSER),
            None => false,
        }
    }

    /// Whether the caller is signed in under the id of the room's creator. A
    /// caller who is not signed in is not.
    pub fn is_room_creator(&self) -> (r: bool)
        ensures
            r == is_room_creator(self@),
    {
        match &self.id {
            Some(id) => same(id.as_str(), self.room_creator.as_str()),
            None => false,
        }
    }

    /// Whether the clause `role` does not reject the caller.
    pub fn passes(&self, role: Roles) -> (r: bool)
        ensures
            r == clause_passes(role, self@),
    {
        match role {
            Roles::Anyone => true,
            Roles::Developer => has_word(&self.roles, "developer") || self.is_superuser(),
            Roles::Creator => self.is_superuser() || has_word(&self.roles, "creator")
                || self.is_room_creator(),
        }
    }

    /// Whether a command with the clauses `clauses` admits the caller.
    pub fn authorize(&self, clauses: &Vec<Roles>) -> (r: Result<(), CommandError>)
        ensures
            r == if admits(clauses@, self@) {
                Ok::<(), CommandError>(())
            } else {
                Err::<(), CommandError>(CommandError::NotEligible)
            },
    {
        let mut i: usize = 0;
        assert(clauses@.skip(0) == clauses@);
        while i < clauses.len()
            invariant
                i <= clauses.len(),
                admits(clauses@, self@) == admits(clauses@.skip(i as int), self@),
            decreases clauses.len() - i,
        {
            let ghost rest = clauses@.skip(i as int);
            assert(rest.drop_first() == clauses@.skip(i + 1));
            let role = clauses[i];
            if role == Roles::Creator && self.is_superuser() {
                return Ok(());
            }
            if !self.passes(role) {
                return Err(CommandError::NotEligible);
            }
            i = i + 1;
        }
        Ok(())
    }
}

/// The privileged identity is admitted by every list of clauses.
pub proof fn lemma_superuser_admitted(clauses: Seq<Roles>, caller: Caller)
    requires
        is_superuser(caller),
    ensures
        admits(clauses, caller),
    decreases clauses.len(),
{
    if clauses.len() > 0 {
        lemma_superuser_admitted(clauses.drop_first(), caller);
    }
}

/// A caller is admitted exactly if they have the privileged identity or no
/// clause rejects them. So each clause is a veto, the order of the clauses
/// does not matter, and `Anyone` never refuses anybody.
pub proof fn lemma_clauses_are_vetoes(clauses: Seq<Roles>, caller: Caller)
    ensures
        admits(clauses, caller) <==> (is_superuser(caller) || forall|i: int|
            0 <= i < clauses.len() ==> clause_passes(#[trigger] clauses[i], caller)),
    decreases clauses.len(),
{
    if is_superuser(caller) {
        lemma_superuser_admitted(clauses, caller);
    } else if clauses.len() > 0 {
        let rest = clauses.drop_first();
        lemma_clauses_are_vetoes(rest, caller);
        if admits(clauses, caller) {
            assert forall|i: int| 0 <= i < clauses.len() implies clause_passes(
                #[trigger] clauses[i],
                caller,
            ) by {
                if i > 0 {
                    assert(clauses[i] == rest[i - 1]);
                }
            }
        } else if clause_passes(clauses[0], caller) {
            let i = choose|i: int|
                0 <= i < rest.len() && !clause_passes(#[trigger] rest[i], caller);
            assert(!clause_passes(clauses[i + 1], caller));
        }
    }
}

/// A caller who is not signed in is admitted by their roles alone: neither
/// the privileged identity nor the room creator's id is theirs, whatever the
/// room creator's id is, set or not.
pub proof fn lemma_no_id_no_identity(caller: Caller)
    requires
        caller.id is None,
    ensures
        !is_superuser(caller),
        !is_room_creator(caller),
        clause_passes(Roles::Developer, caller) <==> caller.roles.contains("developer"@),
        clause_passes(Roles::Creator, caller) <==> caller.roles.contains("creator"@),
{
}

/// A command for developers admits exactly the callers with the role
/// "developer" and the privileged identity.
pub proof fn lemma_developer_clause(caller: Caller)
    ensures
        admits(seq![Roles::Developer], caller) <==> (caller.roles.contains("developer"@)
            || is_superuser(caller)),
{
    lemma_clauses_are_vetoes(seq![Roles::Developer], caller);
}

/// A command for the creator admits exactly the callers with the role
/// "creator", the caller who is signed in under the room creator's id, and the
/// privileged identity.
pub proof fn lemma_creator_clause(caller: Caller)
    ensures
        admits(seq![Roles::Creator], caller) <==> (caller.roles.contains("creator"@)
            || is_room_creator(caller) || is_superuser(caller)),
{
    lemma_clauses_are_vetoes(seq![Roles::Creator], caller);
}

} // verus!
