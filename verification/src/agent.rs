//! Agent identifiers, and where the database of an agent lives.
//!
//! An identifier becomes part of a file name, so only identifiers that cannot
//! leave the database directory are accepted.

use vstd::prelude::*;
use vstd::string::StringExecFns;

verus! {

/// Whether `char::is_alphanumeric` holds of `c`.
pub uninterp spec fn is_alphanumeric(c: char) -> bool;

/// Calls `char::is_alphanumeric`, which says whether the character is
/// alphabetic or numeric by its Unicode properties. The contract gives the
/// answer its name.
#[verifier::external_body]
fn char_is_alphanumeric(c: char) -> (answer: bool)
    ensures
        answer == is_alphanumeric(c),
{
    c.is_alphanumeric()
}

/// A character may stand in an identifier: an alphanumeric one, a hyphen or
/// an underscore. `alphanumeric` says whether the character is alphanumeric.
pub open spec fn is_id_char(c: char, alphanumeric: bool) -> bool {
    alphanumeric || c == '-' || c == '_'
}

/// An identifier is valid when it is not empty and every character of it may
/// stand in an identifier.
pub open spec fn is_valid_agent_id(id: Seq<char>) -> bool {
    id.len() > 0 && forall|i: int| 0 <= i < id.len() ==> is_id_char(id[i], is_alphanumeric(id[i]))
}

/// Whether a character may stand in an identifier, given whether it is
/// alphanumeric.
pub fn accepts_id_char(c: char, alphanumeric: bool) -> (ok: bool)
    ensures
        ok == is_id_char(c, alphanumeric),
{
    alphanumeric || c == '-' || c == '_'
}

/// Validates an agent identifier, to keep path traversal out of file names:
/// valid are the non-empty identifiers made of alphanumeric characters,
/// hyphens and underscores.
pub fn validate_agent_id(id: &str) -> (valid: bool)
    ensures
        valid == is_valid_agent_id(id@),
{
    let mut seen: usize = 0;
    for c in it: id.chars()
        invariant
            it.seq() == id@,
            seen == 0 <==> it.index() == 0,
            forall|i: int| 0 <= i < it.index() ==> is_id_char(id@[i], is_alphanumeric(id@[i])),
    {
        if !accepts_id_char(c, char_is_alphanumeric(c)) {
            return false;
        }
        seen = 1;
    }
    seen != 0
}

/// An identifier that was refused.
#[derive(Debug, Clone, PartialEq, Eq)]
pub struct InvalidAgentId {
    pub id: String,
}

/// The text that `InvalidAgentId::message` yields for `id`.
pub open spec fn invalid_id_text(id: Seq<char>) -> Seq<char> {
    "Invalid agent ID '"@ + id
        + "'. Agent IDs must contain only alphanumeric characters, hyphens, and underscores."@
}

impl InvalidAgentId {
    /// The refusal in words.
    pub fn message(&self) -> (text: String)
        ensures
            text@ == invalid_id_text(self.id@),
    {
        String::from_str("Invalid agent ID '").concat(self.id.as_str()).concat(
            "'. Agent IDs must contain only alphanumeric characters, hyphens, and underscores.",
        )
    }
}

/// The database of the agent `id`, as a path relative to the working
/// directory: the file `<id>.db` in the directory `.agentfs`.
pub open spec fn database_path_of(id: Seq<char>) -> Seq<char> {
    ".agentfs/"@ + id + ".db"@
}

/// The path of the database of the agent `id`.
pub fn agent_database_path(id: &str) -> (path: String)
    ensures
        path@ == database_path_of(id@),
{
    String::from_str(".agentfs/").concat(id).concat(".db")
}

/// Configuration options for opening an agent's storage.
#[derive(Debug, Clone)]
pub struct AgentFSOptions {
    /// With an identifier the storage is persistent, in the database of that
    /// agent; without one it is ephemeral and lives in memory.
    pub id: Option<String>,
}

impl Default for AgentFSOptions {
    /// Ephemeral storage.
    fn default() -> (options: Self)
        ensures
            options.id is None,
    {
        AgentFSOptions { id: None }
    }
}

impl AgentFSOptions {
    /// Options for a persistent agent with the given identifier.
    pub fn with_id(id: &str) -> (options: Self)
        ensures
            options.id is Some,
            options.id->0@ == id@,
    {
        AgentFSOptions { id: Some(String::from_str(id)) }
    }

    /// Options for an ephemeral in-memory agent.
    pub fn ephemeral() -> (options: Self)
        ensures
            options.id is None,
    {
        AgentFSOptions { id: None }
    }

    /// What to open for these options: for a valid identifier the path of the
    /// agent's database, without an identifier the in-memory database
    /// `:memory:`. An invalid identifier is refused.
    pub fn database_location(&self) -> (location: Result<String, InvalidAgentId>)
        ensures
            match self.id {
                None => location is Ok && location->Ok_0@ == ":memory:"@,
                Some(id) => if is_valid_agent_id(id@) {
                    location is Ok && location->Ok_0@ == database_path_of(id@)
                } else {
                    location is Err && location->Err_0.id@ == id@
                },
            },
    {
        match &self.id {
            None => Ok(String::from_str(":memory:")),
            Some(id) => {
                if validate_agent_id(id.as_str()) {
                    Ok(agent_database_path(id.as_str()))
                } else {
                    Err(InvalidAgentId { id: id.clone() })
                }
            },
        }
    }
}

/// Why an agent's database could not be resolved.
#[derive(Debug, Clone, PartialEq, Eq)]
pub enum ResolveError {
    /// The argument names no existing file and is no valid identifier.
    InvalidId(InvalidAgentId),
    /// The identifier is valid, but the agent has no database.
    NotFound { id: String, db_path: String },
}

/// The text that `ResolveError::message` yields for a missing database.
pub open spec fn not_found_text(id: Seq<char>, db_path: Seq<char>) -> Seq<char> {
    "Agent '"@ + id + "' not found at '"@ + db_path + "'"@
}

impl ResolveError {
    /// The error in words.
    pub fn message(&self) -> (text: String)
        ensures
            text@ == match *self {
                ResolveError::InvalidId(invalid) => invalid_id_text(invalid.id@),
                ResolveError::NotFound { id, db_path } => not_found_text(id@, db_path@),
            },
    {
        match self {
            ResolveError::InvalidId(invalid) => invalid.message(),
            ResolveError::NotFound { id, db_path } => String::from_str("Agent '").concat(
                id.as_str(),
            ).concat("' not found at '").concat(db_path.as_str()).concat("'"),
        }
    }
}

/// Resolve what a command was given, an identifier or a path, to the
/// identifier of an agent and the path of its database.
///
/// The caller has looked at the file system: `path_exists` says whether the
/// argument names an existing file, `stem` is that file's name without its
/// extension where it has one that is text, and `db_exists` says whether the
/// file at `agent_database_path` of the argument exists.
///
/// An existing file is taken as the database itself, under the identifier
/// given by its stem, or `unknown` without one. Anything else must be a valid
/// identifier of an agent whose database exists.
pub fn resolve_agent_database(
    id_or_path: String,
    path_exists: bool,
    stem: Option<String>,
    db_exists: bool,
) -> (resolved: Result<(String, String), ResolveError>)
    ensures
        path_exists ==> resolved is Ok && resolved->Ok_0.1@ == id_or_path@ && resolved->Ok_0.0@
            == match stem {
            Some(stem) => stem@,
            None => "unknown"@,
        },
        !path_exists && !is_valid_agent_id(id_or_path@) ==> resolved is Err && resolved->Err_0
            is InvalidId && resolved->Err_0->InvalidId_0.id@ == id_or_path@,
        !path_exists && is_valid_agent_id(id_or_path@) && !db_exists ==> resolved is Err
            && resolved->Err_0 is NotFound && resolved->Err_0->id@ == id_or_path@
            && resolved->Err_0->db_path@ == database_path_of(id_or_path@),
        !path_exists && is_valid_agent_id(id_or_path@) && db_exists ==> resolved is Ok
            && resolved->Ok_0.0@ == id_or_path@ && resolved->Ok_0.1@ == database_path_of(
            id_or_path@,
        ),
{
    if path_exists {
        let id = match stem {
            Some(stem) => stem,
            None => String::from_str("unknown"),
        };
        Ok((id, id_or_path))
    } else {
        if !validate_agent_id(id_or_path.as_str()) {
            return Err(ResolveError::InvalidId(InvalidAgentId { id: id_or_path }));
        }
        let db_path = agent_database_path(id_or_path.as_str());
        if !db_exists {
            return Err(ResolveError::NotFound { id: id_or_path, db_path });
        }
        Ok((id_or_path, db_path))
    }
}

/// Why the storage of an agent cannot be created.
#[derive(Debug, Clone, PartialEq, Eq)]
pub enum InitError {
    /// The identifier is not valid.
    InvalidId(InvalidAgentId),
    /// The agent has a database already, and overwriting was not asked for.
    AlreadyExists { id: String, db_path: String },
}

/// The text that `InitError::message` yields for an existing database.
pub open spec fn already_exists_text(id: Seq<char>, db_path: Seq<char>) -> Seq<char> {
    "Agent '"@ + id + "' already exists at '"@ + db_path + "'. Use --force to overwrite."@
}

impl InitError {
    /// The error in words.
    pub fn message(&self) -> (text: String)
        ensures
            text@ == match *self {
                InitError::InvalidId(invalid) => invalid_id_text(invalid.id@),
                InitError::AlreadyExists { id, db_path } => already_exists_text(id@, db_path@),
            },
    {
        match self {
            InitError::InvalidId(invalid) => invalid.message(),
            InitError::AlreadyExists { id, db_path } => String::from_str("Agent '").concat(
                id.as_str(),
            ).concat("' already exists at '").concat(db_path.as_str()).concat(
                "'. Use --force to overwrite.",
            ),
        }
    }
}

/// Decide whether the storage of the agent `id` may be created, and where.
///
/// The identifier must be valid. `db_exists` says whether the file at
/// `agent_database_path(id)` exists: an existing database is only replaced
/// where `force` asks for it. The result is the path of the database.
pub fn check_can_create(id: &str, db_exists: bool, force: bool) -> (result: Result<
    String,
    InitError,
>)
    ensures
        !is_valid_agent_id(id@) ==> result is Err && result->Err_0 is InvalidId
            && result->Err_0->InvalidId_0.id@ == id@,
        is_valid_agent_id(id@) && db_exists && !force ==> result is Err && result->Err_0
            is AlreadyExists && result->Err_0->id@ == id@ && result->Err_0->db_path@
            == database_path_of(id@),
        is_valid_agent_id(id@) && (!db_exists || force) ==> result is Ok && result->Ok_0@
            == database_path_of(id@),
{
    if !validate_agent_id(id) {
        return Err(InitError::InvalidId(InvalidAgentId { id: String::from_str(id) }));
    }
    let db_path = agent_database_path(id);
    if db_exists && !force {
        return Err(InitError::AlreadyExists { id: String::from_str(id), db_path });
    }
    Ok(db_path)
}

} // verus!
