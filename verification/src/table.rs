//! Tables from identifiers to channels.
//!
//! A channel is known by a number that whoever runs the relay gives it. The
//! tables are `chashmap` maps.

use vstd::prelude::*;

verus! {

/// How many items a channel holds at most; whoever sends more has to wait.
pub const CHANNEL_CAPACITY: usize = 10_000;

/// The concurrent map of `chashmap`.
#[verifier::external_type_specification]
#[verifier::external_body]
#[verifier::reject_recursive_types(K)]
#[verifier::reject_recursive_types(V)]
pub struct ExCHashMap<K, V>(chashmap::CHashMap<K, V>);

/// The entries of a map from connections to channels.
pub uninterp spec fn connection_entries(m: chashmap::CHashMap<usize, usize>) -> Map<usize, usize>;

/// The entries of a map from sessions to channels.
pub uninterp spec fn session_entries(m: chashmap::CHashMap<String, usize>) -> Map<
    Seq<char>,
    usize,
>;

/// `chashmap::CHashMap::new`: a map without entries.
#[verifier::external_body]
fn new_connections() -> (m: chashmap::CHashMap<usize, usize>)
    ensures
        connection_entries(m) == (Map::<usize, usize>::empty()),
{
    chashmap::CHashMap::new()
}

/// `chashmap::CHashMap::insert`: sets the entry of a key and gives back the value
/// it had. The map is borrowed mutably, so nobody else changes it meanwhile.
#[verifier::external_body]
fn insert_connection(m: &mut chashmap::CHashMap<usize, usize>, id: usize, channel: usize) -> (r:
    Option<usize>)
    ensures
        connection_entries(*final(m)) == connection_entries(*old(m)).insert(id, channel),
        r == connection_entries(*old(m)).get(id),
{
    m.insert(id, channel)
}

/// `chashmap::CHashMap::get`: the value of a key, if it has an entry.
#[verifier::external_body]
fn get_connection(m: &chashmap::CHashMap<usize, usize>, id: usize) -> (r: Option<usize>)
    ensures
        r == connection_entries(*m).get(id),
{
    m.get(&id).map(|channel| *channel)
}

/// `chashmap::CHashMap::new`: a map without entries.
#[verifier::external_body]
fn new_sessions() -> (m: chashmap::CHashMap<String, usize>)
    ensures
        session_entries(m) == (Map::<Seq<char>, usize>::empty()),
{
    chashmap::CHashMap::new()
}

/// `chashmap::CHashMap::insert`: sets the entry of a key and gives back the value
/// it had. The map is borrowed mutably, so nobody else changes it meanwhile.
#[verifier::external_body]
fn insert_session(m: &mut chashmap::CHashMap<String, usize>, uuid: String, channel: usize) -> (r:
    Option<usize>)
    ensures
        session_entries(*final(m)) == session_entries(*old(m)).insert(uuid@, channel),
        r == session_entries(*old(m)).get(uuid@),
{
    m.insert(uuid, channel)
}

/// `chashmap::CHashMap::get`: the value of a key, if it has an entry.
#[verifier::external_body]
fn get_session(m: &chashmap::CHashMap<String, usize>, uuid: &String) -> (r: Option<usize>)
    ensures
        r == session_entries(*m).get(uuid@),
{
    m.get(uuid).map(|channel| *channel)
}

/// The channels of connections, by the connection's identifier.
pub struct ConnectionTable {
    entries: chashmap::CHashMap<usize, usize>,
}

impl View for ConnectionTable {
    type V = Map<usize, usize>;

    closed spec fn view(&self) -> Map<usize, usize> {
        connection_entries(self.entries)
    }
}

impl ConnectionTable {
    pub fn new() -> (r: ConnectionTable)
        ensures
            r@ == Map::<usize, usize>::empty(),
    {
        ConnectionTable { entries: new_connections() }
    }

    /// Sets the channel of a connection; gives back the one it had.
    pub fn insert(&mut self, id: usize, channel: usize) -> (r: Option<usize>)
        ensures
            final(self)@ == old(self)@.insert(id, channel),
            r == old(self)@.get(id),
    {
        insert_connection(&mut self.entries, id, channel)
    }

    /// The channel of a connection, if it has one.
    pub fn get(&self, id: usize) -> (r: Option<usize>)
        ensures
            r == self@.get(id),
    {
        get_connection(&self.entries, id)
    }
}

/// The channels to clients, by the session's identifier.
pub struct SessionTable {
    entries: chashmap::CHashMap<String, usize>,
}

impl View for SessionTable {
    type V = Map<Seq<char>, usize>;

    closed spec fn view(&self) -> Map<Seq<char>, usize> {
        session_entries(self.entries)
    }
}

impl SessionTable {
    pub fn new() -> (r: SessionTable)
        ensures
            r@ == Map::<Seq<char>, usize>::empty(),
    {
        SessionTable { entries: new_sessions() }
    }

    /// Sets the channel of a session; gives back the one it had.
    pub fn insert(&mut self, uuid: String, channel: usize) -> (r: Option<usize>)
        ensures
            final(self)@ == old(self)@.insert(uuid@, channel),
            r == old(self)@.get(uuid@),
    {
        insert_session(&mut self.entries, uuid, channel)
    }

    /// The channel of a session, if there is such a session.
    pub fn get(&self, uuid: &String) -> (r: Option<usize>)
        ensures
            r == self@.get(uuid@),
    {
        get_session(&self.entries, uuid)
    }
}

} // verus!
