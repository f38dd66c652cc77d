//! Tracking of live connections, by number and by user.

use crate::proxy_core::hooks::UserId;
use crate::proxy_core::ip::SocketAddr;
use dashmap::DashMap;
use std::collections::HashSet;
use tokio_util::sync::CancellationToken;
use vstd::prelude::*;

verus! {

broadcast use vstd::std_specs::hash::group_hash_axioms;

/// A connection's number.
pub type ConnectionId = u64;

/// The concurrent map `dashmap::DashMap`.
#[verifier::external_type_specification]
#[verifier::external_body]
#[verifier::reject_recursive_types(K)]
#[verifier::reject_recursive_types(V)]
#[verifier::reject_recursive_types(S)]
pub struct ExDashMap<K, V, S>(DashMap<K, V, S>);

/// The signal handle `tokio_util::sync::CancellationToken`.
#[verifier::external_type_specification]
#[verifier::external_body]
pub struct ExCancellationToken(CancellationToken);

/// Which signal a handle belongs to: the clones of a handle share its signal.
pub uninterp spec fn signal(t: CancellationToken) -> int;

/// Whether the signal was given through this handle.
pub uninterp spec fn fired(t: CancellationToken) -> bool;

/// A live connection.
pub struct ActiveConnection {
    pub user_id: UserId,
    pub peer_addr: SocketAddr,
    pub cancel_token: CancellationToken,
}

/// The connections that a map holds, by number.
pub uninterp spec fn live(m: DashMap<u64, ActiveConnection>) -> Map<u64, ActiveConnection>;

/// The connection numbers that a map holds, by user.
pub uninterp spec fn by_user(m: DashMap<i64, HashSet<u64>>) -> Map<i64, Set<u64>>;

/// `CancellationToken::new`: a handle on a new signal, which has not been given.
#[verifier::external_body]
fn new_token() -> (r: CancellationToken)
    ensures
        !fired(r),
{
    CancellationToken::new()
}

/// `CancellationToken::clone`: another handle on the same signal.
#[verifier::external_body]
fn clone_token(t: &CancellationToken) -> (r: CancellationToken)
    ensures
        signal(r) == signal(*t),
{
    t.clone()
}

/// `CancellationToken::cancel`: gives the signal; the handle stays on it.
#[verifier::external_body]
fn cancel_token(t: &mut CancellationToken)
    ensures
        signal(*final(t)) == signal(*old(t)),
        fired(*final(t)),
{
    t.cancel()
}

/// `DashMap::new`: an empty map.
#[verifier::external_body]
fn new_connections() -> (r: DashMap<u64, ActiveConnection>)
    ensures
        (live(r) == Map::<u64, ActiveConnection>::empty()),
{
    DashMap::new()
}

/// `DashMap::insert`: puts the connection under its number, in place of any that is there.
#[verifier::external_body]
fn insert_connection(m: &mut DashMap<u64, ActiveConnection>, id: u64, c: ActiveConnection)
    ensures
        live(*final(m)) == live(*old(m)).insert(id, c),
{
    let _ = m.insert(id, c);
}

/// `DashMap::remove`: takes the connection of that number out, if there is one.
#[verifier::external_body]
fn remove_connection(m: &mut DashMap<u64, ActiveConnection>, id: u64) -> (r: Option<
    ActiveConnection,
>)
    ensures
        live(*final(m)) == live(*old(m)).remove(id),
        r is Some == live(*old(m)).contains_key(id),
        r is Some ==> r->0 == live(*old(m))[id],
{
    m.remove(&id).map(|entry| entry.1)
}

/// `DashMap::len`: how many connections there are.
#[verifier::external_body]
fn connections_len(m: &DashMap<u64, ActiveConnection>) -> (r: usize)
    ensures
        r == live(*m).dom().len(),
{
    m.len()
}

/// `DashMap::iter`: the numbers of the connections, each once, in no particular order.
#[verifier::external_body]
fn connection_ids(m: &DashMap<u64, ActiveConnection>) -> (r: Vec<u64>)
    ensures
        r@.no_duplicates() && r@.to_set() == live(*m).dom(),
{
    m.iter().map(|entry| *entry.key()).collect()
}

/// `DashMap::new`: an empty map.
#[verifier::external_body]
fn new_users() -> (r: DashMap<i64, HashSet<u64>>)
    ensures
        (by_user(r) == Map::<i64, Set<u64>>::empty()),
{
    DashMap::new()
}

/// The numbers of a user's connections; none if the user is unknown.
pub open spec fn ids_of(m: Map<i64, Set<u64>>, user: i64) -> Set<u64> {
    if m.contains_key(user) {
        m[user]
    } else {
        Set::empty()
    }
}

/// Adds a number to a set.
fn keep_id(ids: &mut HashSet<u64>, id: u64)
    ensures
        final(ids)@ == old(ids)@.insert(id),
{
    ids.insert(id);
}

/// The set of one number.
fn only_id(id: u64) -> (r: HashSet<u64>)
    ensures
        r@ == Set::<u64>::empty().insert(id),
{
    let mut ids: HashSet<u64> = HashSet::new();
    keep_id(&mut ids, id);
    ids
}

/// `DashMap::entry` with `and_modify` and `or_insert_with`: changes the user's set in place by
/// `keep_id`, or puts in the set that `only_id` gives where the user is unknown.
#[verifier::external_body]
fn add_user_id(m: &mut DashMap<i64, HashSet<u64>>, user: i64, id: u64)
    ensures
        by_user(*final(m)) == by_user(*old(m)).insert(user, ids_of(by_user(*old(m)), user).insert(id)),
{
    let _ = m.entry(user).and_modify(|ids| keep_id(ids, id)).or_insert_with(|| only_id(id));
}

/// The sets once a number is taken from the user's set; a set that becomes empty goes.
pub open spec fn forgotten(m: Map<i64, Set<u64>>, user: i64, id: u64) -> Map<i64, Set<u64>> {
    if !m.contains_key(user) {
        m
    } else if m[user].remove(id).is_empty() {
        m.remove(user)
    } else {
        m.insert(user, m[user].remove(id))
    }
}

/// Takes a number from a set, and says whether the set is empty now.
fn forget_id(ids: &mut HashSet<u64>, id: u64) -> (r: bool)
    ensures
        final(ids)@ == old(ids)@.remove(id),
        r == final(ids)@.is_empty(),
{
    ids.remove(&id);
    ids.is_empty()
}

/// `DashMap::remove_if_mut`: changes the user's set in place by `forget_id`, and takes the set
/// out where that says so.
#[verifier::external_body]
fn forget_user_id(m: &mut DashMap<i64, HashSet<u64>>, user: i64, id: u64)
    ensures
        by_user(*final(m)) == forgotten(by_user(*old(m)), user, id),
{
    let _ = m.remove_if_mut(&user, |_, ids| forget_id(ids, id));
}

/// `DashMap::get`: the numbers in the user's set, each once, in no particular order; nothing if
/// the user is unknown.
#[verifier::external_body]
fn user_ids(m: &DashMap<i64, HashSet<u64>>, user: i64) -> (r: Option<Vec<u64>>)
    ensures
        r is Some == by_user(*m).contains_key(user),
        r matches Some(ids) ==> ids@.no_duplicates() && ids@.to_set() == by_user(*m)[user],
{
    m.get(&user).map(|ids| ids.iter().copied().collect())
}

/// `DashMap::len`: how many users have a set.
#[verifier::external_body]
fn users_len(m: &DashMap<i64, HashSet<u64>>) -> (r: usize)
    ensures
        r == by_user(*m).dom().len(),
{
    m.len()
}

/// What is known of a connection.
pub struct ConnectionView {
    /// The user that it belongs to.
    pub user: UserId,
    /// The signal that ends it.
    pub signal: int,
    /// Whether that signal was given through the handle that is kept here. The handle that the
    /// connection itself holds can give it too, and that is not seen here.
    pub cancelled: bool,
}

/// What is known of a connection.
pub open spec fn connection_view(c: ActiveConnection) -> ConnectionView {
    ConnectionView {
        user: c.user_id,
        signal: signal(c.cancel_token),
        cancelled: fired(c.cancel_token),
    }
}

/// The numbers of the user's connections.
pub open spec fn connections_of(m: Map<ConnectionId, ConnectionView>, user: UserId) -> Set<
    ConnectionId,
> {
    m.dom().filter(|id: ConnectionId| m[id].user == user)
}

/// The users that have connections.
pub open spec fn users_of(m: Map<ConnectionId, ConnectionView>) -> Set<UserId> {
    m.dom().map(|id: ConnectionId| m[id].user)
}

/// The connections once those in `ids` are cancelled.
pub open spec fn cancelled(m: Map<ConnectionId, ConnectionView>, ids: Set<ConnectionId>) -> Map<
    ConnectionId,
    ConnectionView,
> {
    m.map_entries(
        |id: ConnectionId, c: ConnectionView|
            if ids.contains(id) {
                ConnectionView { cancelled: true, ..c }
            } else {
                c
            },
    )
}

/// The connections once one of the user is added under that number.
pub open spec fn with_connection(
    m: Map<ConnectionId, ConnectionView>,
    id: ConnectionId,
    user: UserId,
    signal: int,
) -> Map<ConnectionId, ConnectionView> {
    m.insert(id, (ConnectionView { user, signal, cancelled: false }))
}

/// The live connections of a node.
pub struct ConnectionManager {
    next_conn_id: u64,
    connections: DashMap<u64, ActiveConnection>,
    user_connections: DashMap<i64, HashSet<u64>>,
}

impl View for ConnectionManager {
    type V = Map<ConnectionId, ConnectionView>;

    closed spec fn view(&self) -> Map<ConnectionId, ConnectionView> {
        live(self.connections).map_values(|c: ActiveConnection| connection_view(c))
    }
}

impl ConnectionManager {
    /// The number that the next connection gets.
    pub closed spec fn next_id(&self) -> u64 {
        self.next_conn_id
    }

    /// Numbers are given once; a user's set holds exactly the numbers of the user's
    /// connections, and no set is empty.
    pub closed spec fn wf(&self) -> bool {
        let conns = live(self.connections);
        let users = by_user(self.user_connections);
        &&& conns.dom().finite()
        &&& users.dom().finite()
        &&& forall|id: u64| #[trigger] conns.contains_key(id) ==> 1 <= id < self.next_conn_id
        &&& forall|id: u64| #[trigger]
            conns.contains_key(id) ==> users.contains_key(conns[id].user_id)
                && users[conns[id].user_id].contains(id)
        &&& forall|u: i64, id: u64|
            users.contains_key(u) && #[trigger] users[u].contains(id) ==> conns.contains_key(id)
                && conns[id].user_id == u
        &&& forall|u: i64| #[trigger]
            users.contains_key(u) ==> users[u].finite() && users[u].len() > 0
        &&& self.next_conn_id >= 1
    }

    /// A manager without connections; numbers start at one.
    pub fn new() -> (r: Self)
        ensures
            r.wf(),
            r@ == Map::<ConnectionId, ConnectionView>::empty(),
            r.next_id() == 1,
    {
        let r = ConnectionManager {
            next_conn_id: 1,
            connections: new_connections(),
            user_connections: new_users(),
        };
        assert(r@ =~= Map::<ConnectionId, ConnectionView>::empty());
        r
    }

    /// Whether there is a number left for another connection.
    pub fn has_numbers(&self) -> (r: bool)
        ensures
            r == (self.next_id() < u64::MAX),
    {
        self.next_conn_id < u64::MAX
    }

    /// Adds a connection of the user: its number, which no other connection has had, and a
    /// handle on the signal that ends it.
    pub fn register(&mut self, user_id: UserId, peer_addr: SocketAddr) -> (r: (
        ConnectionId,
        CancellationToken,
    ))
        requires
            old(self).wf(),
            old(self).next_id() < u64::MAX,
        ensures
            final(self).wf(),
            r.0 == old(self).next_id(),
            !old(self)@.contains_key(r.0),
            final(self)@ == with_connection(old(self)@, r.0, user_id, signal(r.1)),
            final(self)@ == old(self)@.insert(
                r.0,
                (ConnectionView { user: user_id, signal: signal(r.1), cancelled: false }),
            ),
            final(self).next_id() == old(self).next_id() + 1,
    {
        let id: u64 = self.next_conn_id;
        self.next_conn_id = id + 1;
        let token: CancellationToken = new_token();
        let handle: CancellationToken = clone_token(&token);
        let ghost before = live(self.connections);
        let ghost users = by_user(self.user_connections);
        let conn = ActiveConnection { user_id, peer_addr, cancel_token: token };
        insert_connection(&mut self.connections, id, conn);
        add_user_id(&mut self.user_connections, user_id, id);
        proof {
            let conns = live(self.connections);
            let now = by_user(self.user_connections);
            assert(conns == before.insert(id, conn));
            assert(now == users.insert(user_id, ids_of(users, user_id).insert(id)));
            assert forall|u: i64, k: u64|
                now.contains_key(u) && #[trigger] now[u].contains(k) implies conns.contains_key(k)
                && conns[k].user_id == u by {
                if u == user_id && k == id {
                } else if u == user_id {
                    assert(users[u].contains(k));
                } else {
                    assert(users[u].contains(k));
                }
            }
            assert(self@ =~= old(self)@.insert(
                id,
                (ConnectionView { user: user_id, signal: signal(handle), cancelled: false }),
            ));
        }
        (id, handle)
    }

    /// Takes a connection out, if it is there.
    pub fn unregister(&mut self, conn_id: ConnectionId)
        requires
            old(self).wf(),
        ensures
            final(self).wf(),
            final(self)@ == old(self)@.remove(conn_id),
            final(self).next_id() == old(self).next_id(),
    {
        let ghost before = live(self.connections);
        let ghost users = by_user(self.user_connections);
        match remove_connection(&mut self.connections, conn_id) {
            Some(conn) => {
                let user_id: i64 = conn.user_id;
                forget_user_id(&mut self.user_connections, user_id, conn_id);
                proof {
                    let conns = live(self.connections);
                    let now = by_user(self.user_connections);
                    let rest = users[user_id].remove(conn_id);
                    assert(users.contains_key(user_id));
                    assert(now == forgotten(users, user_id, conn_id));
                    assert forall|k: u64| #[trigger] conns.contains_key(k) implies now.contains_key(
                        conns[k].user_id,
                    ) && now[conns[k].user_id].contains(k) by {
                        assert(before.contains_key(k));
                        if conns[k].user_id == user_id {
                            assert(rest.contains(k));
                        }
                    }
                    assert forall|u: i64, k: u64|
                        now.contains_key(u) && #[trigger] now[u].contains(
                            k,
                        ) implies conns.contains_key(k) && conns[k].user_id == u by {
                        assert(users[u].contains(k));
                    }
                }
            },
            None => {
                assert(live(self.connections) =~= before);
            },
        }
        assert(self@ =~= old(self)@.remove(conn_id));
    }

    /// Gives the signal of one connection, if it is there.
    fn cancel_one(&mut self, id: u64) -> (r: bool)
        requires
            old(self).wf(),
        ensures
            final(self).wf(),
            final(self).next_conn_id == old(self).next_conn_id,
            final(self).user_connections == old(self).user_connections,
            r == old(self)@.contains_key(id),
            final(self)@ == cancelled(old(self)@, set![id]),
            live(final(self).connections).dom() == live(old(self).connections).dom(),
    {
        let ghost before = live(self.connections);
        match remove_connection(&mut self.connections, id) {
            Some(conn) => {
                let mut c: ActiveConnection = conn;
                cancel_token(&mut c.cancel_token);
                insert_connection(&mut self.connections, id, c);
                proof {
                    let conns = live(self.connections);
                    assert(conns.dom() =~= before.dom());
                    assert forall|k: u64| #[trigger] conns.contains_key(k) implies conns[k].user_id
                        == before[k].user_id by {
                        assert(before.contains_key(k));
                    }
                    let users = by_user(self.user_connections);
                    assert forall|u: i64, k: u64|
                        users.contains_key(u) && #[trigger] users[u].contains(
                            k,
                        ) implies conns.contains_key(k) && conns[k].user_id == u by {
                        assert(before.contains_key(k));
                    }
                    assert(self@ =~= cancelled(old(self)@, set![id]));
                }
                true
            },
            None => {
                assert(live(self.connections) =~= before);
                assert(self@ =~= cancelled(old(self)@, set![id]));
                false
            },
        }
    }

    /// Gives the signals of the connections in `ids`.
    fn cancel_each(&mut self, ids: &Vec<u64>) -> (r: usize)
        requires
            old(self).wf(),
            ids@.to_set().subset_of(old(self)@.dom()),
        ensures
            final(self).wf(),
            final(self).next_conn_id == old(self).next_conn_id,
            r == ids@.len(),
            final(self)@ == cancelled(old(self)@, ids@.to_set()),
    {
        let mut count: usize = 0;
        let mut i: usize = 0;
        assert(self@ =~= cancelled(old(self)@, ids@.take(0).to_set()));
        while i < ids.len()
            invariant
                i <= ids@.len(),
                count == i,
                self.wf(),
                self.next_conn_id == old(self).next_conn_id,
                ids@.to_set().subset_of(old(self)@.dom()),
                self@ == cancelled(old(self)@, ids@.take(i as int).to_set()),
            decreases ids@.len() - i,
        {
            assert(ids@.to_set().contains(ids@[i as int]));
            assert(self@.contains_key(ids@[i as int]));
            if self.cancel_one(ids[i]) {
                count += 1;
            }
            proof {
                let a = ids@.take(i as int).to_set();
                let t = ids@.take(i + 1);
                let b = t.to_set();
                assert(t =~= ids@.take(i as int).push(ids@[i as int]));
                assert forall|k: u64| b.contains(k) == (a.contains(k) || k == ids@[i as int]) by {
                    if a.contains(k) {
                        let j = choose|j: int| 0 <= j < i && ids@.take(i as int)[j] == k;
                        assert(t[j] == k);
                    }
                    if k == ids@[i as int] {
                        assert(t[i as int] == k);
                    }
                    if b.contains(k) {
                        let j = choose|j: int| 0 <= j < i + 1 && t[j] == k;
                        if j < i {
                            assert(ids@.take(i as int)[j] == k);
                        }
                    }
                }
                assert(self@ =~= cancelled(old(self)@, b));
            }
            i += 1;
        }
        assert(ids@.take(ids@.len() as int) =~= ids@);
        count
    }

    /// Cancels all connections of a user, and no others; returns how many there were.
    pub fn kick_user(&mut self, user_id: UserId) -> (r: usize)
        requires
            old(self).wf(),
        ensures
            final(self).wf(),
            final(self)@ == cancelled(old(self)@, connections_of(old(self)@, user_id)),
            r == connections_of(old(self)@, user_id).len(),
            final(self).next_id() == old(self).next_id(),
    {
        match user_ids(&self.user_connections, user_id) {
            Some(ids) => {
                proof {
                    assert(ids@.to_set() =~= connections_of(self@, user_id));
                    ids@.unique_seq_to_set();
                }
                self.cancel_each(&ids)
            },
            None => {
                proof {
                    assert(connections_of(self@, user_id) =~= Set::<u64>::empty());
                    assert(self@ =~= cancelled(self@, Set::<u64>::empty()));
                }
                0
            },
        }
    }

    /// Cancels every connection; returns how many there were.
    pub fn cancel_all(&mut self) -> (r: usize)
        requires
            old(self).wf(),
        ensures
            final(self).wf(),
            final(self)@ == cancelled(old(self)@, old(self)@.dom()),
            r == old(self)@.dom().len(),
            final(self).next_id() == old(self).next_id(),
    {
        let ids: Vec<u64> = connection_ids(&self.connections);
        proof {
            assert(ids@.to_set() =~= self@.dom());
            ids@.unique_seq_to_set();
        }
        self.cancel_each(&ids)
    }

    /// How many connections there are.
    pub fn connection_count(&self) -> (r: usize)
        ensures
            r == self@.dom().len(),
    {
        assert(self@.dom() =~= live(self.connections).dom());
        connections_len(&self.connections)
    }

    /// How many users have connections.
    pub fn user_count(&self) -> (r: usize)
        requires
            self.wf(),
        ensures
            r == users_of(self@).len(),
    {
        proof {
            let users = by_user(self.user_connections);
            assert forall|u: i64| users_of(self@).contains(u) == users.dom().contains(u) by {
                if users.contains_key(u) {
                    assert(users[u].finite() && users[u].len() > 0);
                    let id = users[u].choose();
                    assert(users[u].contains(id));
                    assert(self@.dom().contains(id) && self@[id].user == u);
                }
                if users_of(self@).contains(u) {
                    let id = choose|id: u64| self@.dom().contains(id) && self@[id].user == u;
                    assert(live(self.connections).contains_key(id));
                }
            }
            assert(users_of(self@) =~= users.dom());
        }
        users_len(&self.user_connections)
    }

    /// Cancels the connections of every user in the list, in order; returns how many were
    /// cancelled, a connection counting once for each time its user is listed.
    pub fn kick_users(&mut self, users: &[UserId]) -> (r: usize)
        requires
            old(self).wf(),
            kick_total(old(self)@, users@) <= usize::MAX,
        ensures
            final(self).wf(),
            final(self)@ == cancelled(old(self)@, connections_of_any(old(self)@, users@)),
            r == kick_total(old(self)@, users@),
    {
        let mut total: usize = 0;
        let mut i: usize = 0;
        proof {
            assert(connections_of_any(self@, users@.take(0)) =~= Set::<u64>::empty());
            assert(self@ =~= cancelled(self@, Set::<u64>::empty()));
            lemma_kick_total_monotone(self@, users@, 0);
        }
        while i < users.len()
            invariant
                i <= users@.len(),
                self.wf(),
                self@ == cancelled(old(self)@, connections_of_any(old(self)@, users@.take(i as int))),
                total == kick_total(old(self)@, users@.take(i as int)),
                kick_total(old(self)@, users@) <= usize::MAX,
            decreases users@.len() - i,
        {
            proof {
                lemma_kick_total_monotone(old(self)@, users@, i + 1);
                assert(users@.take(i + 1).drop_last() =~= users@.take(i as int));
                assert(users@.take(i + 1).last() == users@[i as int]);
                assert(connections_of(self@, users@[i as int]) =~= connections_of(
                    old(self)@,
                    users@[i as int],
                ));
            }
            let kicked: usize = self.kick_user(users[i]);
            total = total + kicked;
            proof {
                let a = connections_of_any(old(self)@, users@.take(i as int));
                let b = connections_of_any(old(self)@, users@.take(i + 1));
                let c = connections_of(old(self)@, users@[i as int]);
                assert(users@.take(i + 1) =~= users@.take(i as int).push(users@[i as int]));
                assert forall|k: u64| b.contains(k) == (a.contains(k) || c.contains(k)) by {
                    let t = users@.take(i + 1);
                    if a.contains(k) {
                        let j = choose|j: int| 0 <= j < i && users@.take(i as int)[j]
                            == old(self)@[k].user;
                        assert(t[j] == old(self)@[k].user);
                    }
                    if c.contains(k) {
                        assert(t[i as int] == old(self)@[k].user);
                    }
                    if b.contains(k) {
                        let j = choose|j: int| 0 <= j < i + 1 && t[j] == old(self)@[k].user;
                        if j < i {
                            assert(users@.take(i as int)[j] == old(self)@[k].user);
                        }
                    }
                }
                assert(self@ =~= cancelled(old(self)@, b));
            }
            i += 1;
        }
        assert(users@.take(users@.len() as int) =~= users@);
        total
    }
}

impl Default for ConnectionManager {
    fn default() -> (r: Self)
        ensures
            r.wf(),
            r@ == Map::<ConnectionId, ConnectionView>::empty(),
            r.next_id() == 1,
    {
        ConnectionManager::new()
    }
}

/// The numbers of the connections of any of the users.
pub open spec fn connections_of_any(m: Map<ConnectionId, ConnectionView>, users: Seq<UserId>) -> Set<
    ConnectionId,
> {
    m.dom().filter(|id: ConnectionId| users.contains(m[id].user))
}

/// How many connections the users have, counted for each user in the list.
pub open spec fn kick_total(m: Map<ConnectionId, ConnectionView>, users: Seq<UserId>) -> nat
    decreases users.len(),
{
    if users.len() == 0 {
        0
    } else {
        kick_total(m, users.drop_last()) + connections_of(m, users.last()).len()
    }
}

proof fn lemma_kick_total_monotone(
    m: Map<ConnectionId, ConnectionView>,
    users: Seq<UserId>,
    i: int,
)
    requires
        0 <= i <= users.len(),
    ensures
        kick_total(m, users.take(i)) <= kick_total(m, users),
    decreases users.len() - i,
{
    if i < users.len() {
        lemma_kick_total_monotone(m, users, i + 1);
        assert(users.take(i + 1).drop_last() =~= users.take(i));
    } else {
        assert(users.take(i) =~= users);
    }
}

/// Taking out a connection that was just added leaves the connections as they were.
pub proof fn law_unregister_undoes_register(
    m: Map<ConnectionId, ConnectionView>,
    id: ConnectionId,
    c: ConnectionView,
)
    requires
        !m.contains_key(id),
    ensures
        m.insert(id, c).remove(id) == m,
{
    assert(m.insert(id, c).remove(id) =~= m);
}

/// Kicking a user touches no connection of another user, and takes none out.
pub proof fn law_kick_spares_others(
    m: Map<ConnectionId, ConnectionView>,
    user: UserId,
    id: ConnectionId,
)
    requires
        m.contains_key(id),
    ensures
        cancelled(m, connections_of(m, user)).dom() == m.dom(),
        m[id].user != user ==> cancelled(m, connections_of(m, user))[id] == m[id],
        m[id].user == user ==> cancelled(m, connections_of(m, user))[id].cancelled,
{
    assert(cancelled(m, connections_of(m, user)).dom() =~= m.dom());
}

/// Cancelling marks exactly the connections asked for, and changes nothing else of any: none goes,
/// and each keeps its user and its signal.
pub proof fn law_cancelling_marks_what_is_asked(
    m: Map<ConnectionId, ConnectionView>,
    ids: Set<ConnectionId>,
    id: ConnectionId,
)
    ensures
        cancelled(m, ids).contains_key(id) <==> m.contains_key(id),
        m.contains_key(id) ==> {
            let c = cancelled(m, ids)[id];
            c.user == m[id].user && c.signal == m[id].signal && c.cancelled == (m[id].cancelled
                || ids.contains(id))
        },
{
}

/// A user's connections are those that belong to the user and no others; the connections of
/// several users are those of each; and a user counts exactly if one connection is theirs.
pub proof fn law_connections_belong_to_users(
    m: Map<ConnectionId, ConnectionView>,
    user: UserId,
    users: Seq<UserId>,
    id: ConnectionId,
)
    ensures
        connections_of(m, user).contains(id) <==> m.contains_key(id) && m[id].user == user,
        connections_of_any(m, users).contains(id) <==> m.contains_key(id) && exists|k: int|
            0 <= k < users.len() && #[trigger] users[k] == m[id].user,
        users_of(m).contains(user) <==> exists|k: ConnectionId|
            #[trigger] m.contains_key(k) && m[k].user == user,
{
    if m.contains_key(id) && users.contains(m[id].user) {
        let k = choose|k: int| 0 <= k < users.len() && users[k] == m[id].user;
        assert(users[k] == m[id].user);
    }
    if users_of(m).contains(user) {
        let k = choose|k: ConnectionId| m.dom().contains(k) && m[k].user == user;
        assert(m.contains_key(k));
    }
    if exists|k: ConnectionId| #[trigger] m.contains_key(k) && m[k].user == user {
        let k = choose|k: ConnectionId| #[trigger] m.contains_key(k) && m[k].user == user;
        assert(m.dom().contains(k));
    }
}

/// The count of kicked connections adds up over the users in the list, each with all of theirs.
pub proof fn law_kicks_add_up(
    m: Map<ConnectionId, ConnectionView>,
    users: Seq<UserId>,
    user: UserId,
)
    ensures
        kick_total(m, Seq::empty()) == 0,
        kick_total(m, users.push(user)) == kick_total(m, users) + connections_of(m, user).len(),
{
    assert(users.push(user).drop_last() =~= users);
}

/// A connection that is added belongs to its user, is not cancelled, and is found among the user's
/// and nobody else's; every other connection stays as it is; and taking it out again leaves all as
/// it was.
pub proof fn law_added_connection_is_the_users(
    m: Map<ConnectionId, ConnectionView>,
    id: ConnectionId,
    user: UserId,
    signal: int,
    other: UserId,
    k: ConnectionId,
)
    requires
        !m.contains_key(id),
    ensures
        ({
            let now = with_connection(m, id, user, signal);
            &&& now.contains_key(id) && now[id].user == user && now[id].signal == signal
                && !now[id].cancelled
            &&& k != id ==> now.contains_key(k) == m.contains_key(k) && (m.contains_key(k)
                ==> now[k] == m[k])
            &&& connections_of(now, user) == connections_of(m, user).insert(id)
            &&& other != user ==> connections_of(now, other) == connections_of(m, other)
            &&& now.remove(id) == m
        }),
{
    let now = with_connection(m, id, user, signal);
    assert(connections_of(now, user) =~= connections_of(m, user).insert(id));
    if other != user {
        assert(connections_of(now, other) =~= connections_of(m, other));
    }
    assert(now.remove(id) =~= m);
}

/// Kicking the user of a connection cancels that connection, and kicking anybody else does not;
/// cancelling all cancels each.
pub proof fn law_kicks_reach_the_user(
    m: Map<ConnectionId, ConnectionView>,
    id: ConnectionId,
    user: UserId,
    users: Seq<UserId>,
)
    requires
        m.contains_key(id),
    ensures
        cancelled(m, connections_of(m, user))[id].cancelled == (m[id].cancelled || m[id].user
            == user),
        cancelled(m, connections_of_any(m, users))[id].cancelled == (m[id].cancelled || exists|
            k: int,
        |
            0 <= k < users.len() && #[trigger] users[k] == m[id].user),
        cancelled(m, m.dom())[id].cancelled,
{
    law_connections_belong_to_users(m, user, users, id);
}

} // verus!
