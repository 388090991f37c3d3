use agentfs_sandbox::agent::{
    accepts_id_char, agent_database_path, check_can_create, resolve_agent_database,
    validate_agent_id, AgentFSOptions, InitError, InvalidAgentId, ResolveError,
};

#[test]
fn valid_identifiers() {
    assert!(validate_agent_id("test-agent"));
    assert!(validate_agent_id("agent_1"));
    assert!(validate_agent_id("A"));
    assert!(validate_agent_id("agent-1700000000"));
    assert!(validate_agent_id("-"));
    assert!(validate_agent_id("_"));
    // Alphanumeric by Unicode, not by ASCII.
    assert!(validate_agent_id("über_1"));
    assert!(validate_agent_id("数字٣"));
}

#[test]
fn invalid_identifiers() {
    assert!(!validate_agent_id(""));
    assert!(!validate_agent_id("a/b"));
    assert!(!validate_agent_id("../etc/passwd"));
    assert!(!validate_agent_id(".."));
    assert!(!validate_agent_id("a b"));
    assert!(!validate_agent_id("agent.db"));
    assert!(!validate_agent_id("agent\\x"));
    assert!(!validate_agent_id("agent\0"));
    assert!(!validate_agent_id("ok-until-the-end!"));
    assert!(!validate_agent_id("/leading"));
}

#[test]
fn id_characters() {
    assert!(accepts_id_char('a', true));
    assert!(accepts_id_char('-', false));
    assert!(accepts_id_char('_', false));
    assert!(!accepts_id_char('/', false));
    assert!(!accepts_id_char('.', false));
    assert!(!accepts_id_char(' ', false));
}

#[test]
fn database_path_of_an_agent() {
    assert_eq!(agent_database_path("test-agent"), ".agentfs/test-agent.db");
    assert_eq!(agent_database_path("x"), ".agentfs/x.db");
    assert_eq!(agent_database_path(""), ".agentfs/.db");
}

#[test]
fn options_builders() {
    let with = AgentFSOptions::with_id("test-agent");
    assert_eq!(with.id, Some("test-agent".to_string()));
    assert_eq!(AgentFSOptions::ephemeral().id, None);
    assert_eq!(AgentFSOptions::default().id, None);
}

#[test]
fn database_location_of_options() {
    assert_eq!(AgentFSOptions::ephemeral().database_location(), Ok(":memory:".to_string()));
    assert_eq!(
        AgentFSOptions::with_id("my-agent").database_location(),
        Ok(".agentfs/my-agent.db".to_string())
    );
    assert_eq!(
        AgentFSOptions::with_id("../escape").database_location(),
        Err(InvalidAgentId { id: "../escape".to_string() })
    );
    assert_eq!(
        AgentFSOptions::with_id("").database_location(),
        Err(InvalidAgentId { id: String::new() })
    );
}

#[test]
fn invalid_id_message() {
    let invalid = InvalidAgentId { id: "a/b".to_string() };
    assert_eq!(
        invalid.message(),
        "Invalid agent ID 'a/b'. Agent IDs must contain only alphanumeric characters, hyphens, and underscores."
    );
}

#[test]
fn resolve_an_existing_file() {
    assert_eq!(
        resolve_agent_database("data/my.db".to_string(), true, Some("my".to_string()), false),
        Ok(("my".to_string(), "data/my.db".to_string()))
    );
    // An existing file wins even where the argument would be a valid identifier.
    assert_eq!(
        resolve_agent_database("agent".to_string(), true, Some("agent".to_string()), true),
        Ok(("agent".to_string(), "agent".to_string()))
    );
    assert_eq!(
        resolve_agent_database("..".to_string(), true, None, false),
        Ok(("unknown".to_string(), "..".to_string()))
    );
}

#[test]
fn resolve_an_identifier() {
    assert_eq!(
        resolve_agent_database("my-agent".to_string(), false, None, true),
        Ok(("my-agent".to_string(), ".agentfs/my-agent.db".to_string()))
    );
}

#[test]
fn resolve_refuses_an_invalid_identifier() {
    let err = resolve_agent_database("no/such/file".to_string(), false, Some("file".to_string()), true)
        .unwrap_err();
    assert_eq!(err, ResolveError::InvalidId(InvalidAgentId { id: "no/such/file".to_string() }));
    assert_eq!(
        err.message(),
        "Invalid agent ID 'no/such/file'. Agent IDs must contain only alphanumeric characters, hyphens, and underscores."
    );
}

#[test]
fn resolve_reports_a_missing_database() {
    let err = resolve_agent_database("ghost".to_string(), false, None, false).unwrap_err();
    assert_eq!(
        err,
        ResolveError::NotFound {
            id: "ghost".to_string(),
            db_path: ".agentfs/ghost.db".to_string()
        }
    );
    assert_eq!(err.message(), "Agent 'ghost' not found at '.agentfs/ghost.db'");
}

#[test]
fn storage_may_be_created() {
    assert_eq!(check_can_create("my-agent", false, false), Ok(".agentfs/my-agent.db".to_string()));
    assert_eq!(check_can_create("my-agent", false, true), Ok(".agentfs/my-agent.db".to_string()));
    assert_eq!(check_can_create("my-agent", true, true), Ok(".agentfs/my-agent.db".to_string()));
    let err = check_can_create("my-agent", true, false).unwrap_err();
    assert_eq!(
        err,
        InitError::AlreadyExists {
            id: "my-agent".to_string(),
            db_path: ".agentfs/my-agent.db".to_string()
        }
    );
    assert_eq!(
        err.message(),
        "Agent 'my-agent' already exists at '.agentfs/my-agent.db'. Use --force to overwrite."
    );
    // The identifier is looked at first.
    for (exists, force) in [(false, false), (false, true), (true, false), (true, true)] {
        let err = check_can_create("../x", exists, force).unwrap_err();
        assert_eq!(err, InitError::InvalidId(InvalidAgentId { id: "../x".to_string() }));
        assert_eq!(
            err.message(),
            "Invalid agent ID '../x'. Agent IDs must contain only alphanumeric characters, hyphens, and underscores."
        );
    }
}
