//! Provisioning of an ephemeral, uniquely named test database.
//!
//! The harness connects to the server without a database selector,
//! creates a database under a freshly generated name, reconnects to the
//! new database, runs the schema migrations in ascending order failing
//! fast, and hands back a ready pool. The decisions live here as a state
//! machine from state and event to next state and action; the harness
//! outside performs each action (connect, execute, migrate) and hands the
//! outcome back. Two runs under different generated names act on
//! disjoint namespaces, which is what lets test runs proceed
//! concurrently on a shared server. Dropping the database again is
//! deliberately not part of the sequence: each run leaves its database
//! behind, a known gap.

use vstd::prelude::*;
use vstd::string::StringExecFns;
use crate::configuration::DatabaseSettings;
use crate::secret::SecretString;

verus! {

/// How far a provisioning run has come.
#[derive(Clone, Copy, Debug, PartialEq, Eq, Structural)]
pub enum ProvisionState {
    /// Nothing has happened yet.
    Start,
    /// Connected to the server, no database selected.
    ServerConnected,
    /// The ephemeral database exists.
    DatabaseCreated,
    /// Connected to the ephemeral database, `applied` migrations done.
    Migrating { applied: u64 },
    /// All migrations applied; the pool is ready.
    Ready,
    /// A step failed; the run is aborted.
    Failed,
}

/// What the harness must do next.
pub enum ProvisionAction {
    /// Connect to the server with this no-database connection string.
    ConnectServer { dsn: SecretString },
    /// Execute this `CREATE DATABASE` statement.
    CreateDatabase { statement: String },
    /// Connect to the ephemeral database with this connection string.
    ConnectDatabase { dsn: SecretString },
    /// Apply migration number `index` (ascending from zero).
    ApplyMigration { index: u64 },
    /// Hand the ready pool to the caller.
    Finish,
    /// Abort the run; fail fast.
    Abort,
}

/// The statement creating the ephemeral database `name`.
pub open spec fn create_statement_chars(name: Seq<char>) -> Seq<char> {
    "CREATE DATABASE \""@ + name + "\";"@
}

/// Builds the `CREATE DATABASE` statement for `name`.
pub fn create_database_statement(name: &str) -> (r: String)
    ensures
        r@ == create_statement_chars(name@),
{
    let mut s = String::from_str("CREATE DATABASE \"");
    s.append(name);
    s.append("\";");
    proof {
        assert(s@ =~= create_statement_chars(name@));
    }
    s
}

/// The next state: forward on success, `Failed` on any failed step.
pub open spec fn next_state_spec(state: ProvisionState, ok: bool, migrations: u64) -> ProvisionState {
    if !ok {
        ProvisionState::Failed
    } else {
        match state {
            ProvisionState::Start => ProvisionState::ServerConnected,
            ProvisionState::ServerConnected => ProvisionState::DatabaseCreated,
            ProvisionState::DatabaseCreated => ProvisionState::Migrating { applied: 0 },
            ProvisionState::Migrating { applied } => if applied < migrations {
                ProvisionState::Migrating { applied: (applied + 1) as u64 }
            } else {
                ProvisionState::Ready
            },
            ProvisionState::Ready => ProvisionState::Ready,
            ProvisionState::Failed => ProvisionState::Failed,
        }
    }
}

/// Advances the run by the outcome `ok` of the last action, out of
/// `migrations` pending migrations in all.
pub fn next_state(state: ProvisionState, ok: bool, migrations: u64) -> (r: ProvisionState)
    requires
        state matches ProvisionState::Migrating { applied } ==> applied <= migrations,
    ensures
        r == next_state_spec(state, ok, migrations),
        r matches ProvisionState::Migrating { applied } ==> applied <= migrations,
{
    if !ok {
        return ProvisionState::Failed;
    }
    match state {
        ProvisionState::Start => ProvisionState::ServerConnected,
        ProvisionState::ServerConnected => ProvisionState::DatabaseCreated,
        ProvisionState::DatabaseCreated => ProvisionState::Migrating { applied: 0 },
        ProvisionState::Migrating { applied } => {
            if applied < migrations {
                ProvisionState::Migrating { applied: applied + 1 }
            } else {
                ProvisionState::Ready
            }
        },
        ProvisionState::Ready => ProvisionState::Ready,
        ProvisionState::Failed => ProvisionState::Failed,
    }
}

/// The action each state calls for, against the settings whose
/// `database_name` is the freshly generated ephemeral name.
pub fn next_action(state: &ProvisionState, settings: &DatabaseSettings, migrations: u64) -> (r:
    ProvisionAction)
    ensures
        match r {
            ProvisionAction::ConnectServer { dsn } => state is Start && dsn@
                == crate::configuration::dsn_chars(
                settings.username@,
                settings.password@,
                settings.host@,
                settings.port,
            ),
            ProvisionAction::CreateDatabase { statement } => state is ServerConnected && statement@
                == create_statement_chars(settings.database_name@),
            ProvisionAction::ConnectDatabase { dsn } => state is DatabaseCreated && dsn@
                == crate::configuration::dsn_chars(
                settings.username@,
                settings.password@,
                settings.host@,
                settings.port,
            ) + "/"@ + settings.database_name@,
            ProvisionAction::ApplyMigration { index } => state matches ProvisionState::Migrating {
                applied,
            } && index == applied && applied < migrations,
            ProvisionAction::Finish => state is Ready || (state matches ProvisionState::Migrating {
                applied,
            } && applied >= migrations),
            ProvisionAction::Abort => state is Failed,
        },
{
    match state {
        ProvisionState::Start => ProvisionAction::ConnectServer {
            dsn: settings.conn_string_no_db(),
        },
        ProvisionState::ServerConnected => ProvisionAction::CreateDatabase {
            statement: create_database_statement(settings.database_name.as_str()),
        },
        ProvisionState::DatabaseCreated => ProvisionAction::ConnectDatabase {
            dsn: settings.conn_string(),
        },
        ProvisionState::Migrating { applied } => {
            if *applied < migrations {
                ProvisionAction::ApplyMigration { index: *applied }
            } else {
                ProvisionAction::Finish
            }
        },
        ProvisionState::Ready => ProvisionAction::Finish,
        ProvisionState::Failed => ProvisionAction::Abort,
    }
}

/// A sequence differing in its middle part differs as a whole: gluing
/// the same prefix and suffix around two different names yields two
/// different strings.
pub proof fn lemma_affix_injective(p: Seq<char>, a: Seq<char>, b: Seq<char>, s: Seq<char>)
    requires
        a != b,
    ensures
        p + a + s != p + b + s,
{
    if a.len() == b.len() {
        if p + a + s == p + b + s {
            assert forall|i: int| 0 <= i < a.len() implies a[i] == b[i] by {
                assert((p + a + s)[p.len() + i] == a[i]);
                assert((p + b + s)[p.len() + i] == b[i]);
            }
            assert(a =~= b);
        }
    } else {
        assert((p + a + s).len() != (p + b + s).len());
    }
}

/// Provisioning under two different generated names never collides: the
/// two creation statements address two different databases, and the two
/// connection strings address them too, so concurrent runs touch
/// disjoint namespaces.
pub proof fn law_distinct_names_isolated(
    name_a: Seq<char>,
    name_b: Seq<char>,
    server: Seq<char>,
)
    requires
        name_a != name_b,
    ensures
        create_statement_chars(name_a) != create_statement_chars(name_b),
        server + "/"@ + name_a != server + "/"@ + name_b,
{
    lemma_affix_injective("CREATE DATABASE \""@, name_a, name_b, "\";"@);
    lemma_affix_injective(server + "/"@, name_a, name_b, Seq::<char>::empty());
    assert(server + "/"@ + name_a + Seq::<char>::empty() =~= server + "/"@ + name_a);
    assert(server + "/"@ + name_b + Seq::<char>::empty() =~= server + "/"@ + name_b);
}

} // verus!
