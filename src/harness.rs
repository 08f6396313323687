use vstd::prelude::*;
use crate::configuration::{loopback_address, loopback_address_string, DatabaseSettings};

verus! {

/// `http://127.0.0.1:<port>`: where a server spawned for one test answers.
pub open spec fn spec_base_url(port: u16) -> Seq<char> {
    seq!['h', 't', 't', 'p', ':', '/', '/'] + loopback_address(port)
}

/// The base URL of a server bound on loopback at `port`.
pub fn base_url(port: u16) -> (r: String)
    ensures
        r@ == spec_base_url(port),
{
    proof {
        reveal_strlit("http://");
    }
    let mut s = String::from_str("http://");
    let address = loopback_address_string(port);
    s.append(address.as_str());
    s
}

/// `CREATE DATABASE "<name>";`
pub open spec fn spec_create_database(name: Seq<char>) -> Seq<char> {
    seq!['C', 'R', 'E', 'A', 'T', 'E', ' ', 'D', 'A', 'T', 'A', 'B', 'A', 'S', 'E', ' ', '"'] + name
        + seq!['"', ';']
}

/// The statement that creates the database named `name`.
pub fn create_database_statement(name: &str) -> (r: String)
    ensures
        r@ == spec_create_database(name@),
{
    proof {
        reveal_strlit("CREATE DATABASE \"");
        reveal_strlit("\";");
    }
    let mut s = String::from_str("CREATE DATABASE \"");
    s.append(name);
    s.append("\";");
    s
}

/// The settings of one test: the base settings, with a database of its own.
pub fn test_database_settings(base: DatabaseSettings, unique_name: String) -> (r: DatabaseSettings)
    ensures
        r.username@ == base.username@,
        r.password@ == base.password@,
        r.host@ == base.host@,
        r.port == base.port,
        r.database_name@ == unique_name@,
        r.spec_connection_string_without_db() == base.spec_connection_string_without_db(),
{
    base.with_database_name(unique_name)
}

/// Two tests given different database names on one server create different databases and
/// connect to different ones, so neither sees the other's rows.
pub proof fn lemma_distinct_names_isolate(a: DatabaseSettings, b: DatabaseSettings)
    requires
        a.spec_connection_string_without_db() == b.spec_connection_string_without_db(),
        a.database_name@ != b.database_name@,
    ensures
        a.spec_connection_string() != b.spec_connection_string(),
        spec_create_database(a.database_name@) != spec_create_database(b.database_name@),
{
    let p = a.spec_connection_string_without_db() + seq!['/'];
    if a.spec_connection_string() == b.spec_connection_string() {
        assert(a.database_name@ =~= a.spec_connection_string().subrange(p.len() as int, a.spec_connection_string().len() as int));
        assert(b.database_name@ =~= b.spec_connection_string().subrange(p.len() as int, b.spec_connection_string().len() as int));
    }
    let q = seq!['C', 'R', 'E', 'A', 'T', 'E', ' ', 'D', 'A', 'T', 'A', 'B', 'A', 'S', 'E', ' ', '"'];
    let ca = spec_create_database(a.database_name@);
    let cb = spec_create_database(b.database_name@);
    if ca == cb {
        assert(a.database_name@ =~= ca.subrange(q.len() as int, ca.len() - 2));
        assert(b.database_name@ =~= cb.subrange(q.len() as int, cb.len() - 2));
    }
}

} // verus!
