//! The pool of WebSocket connections.
//!
//! Every browser client that connects is held as a `UserConnection` under its
//! user id.  Requests for a user are spread over that user's connections in
//! round-robin order, and the pool never keeps a user with no connection.
//! Requests waiting for their answer are registered under their request id
//! with the channel on which the answer is to be delivered.

use vstd::prelude::*;
use std::sync::Arc;
use dashmap::DashMap;
use tokio::sync::mpsc::UnboundedSender;
use crate::message::WSMessage;
use crate::text::str_eq;

verus! {

/// The sending half of a tokio unbounded channel.
#[verifier::external_type_specification]
#[verifier::external_body]
#[verifier::reject_recursive_types(T)]
pub struct ExUnboundedSender<T>(UnboundedSender<T>);

/// dashmap's concurrent hash map.
#[verifier::external_type_specification]
#[verifier::external_body]
#[verifier::reject_recursive_types(K)]
#[verifier::reject_recursive_types(V)]
#[verifier::reject_recursive_types(S)]
pub struct ExDashMap<K, V, S>(DashMap<K, V, S>);

/// The largest number of nanoseconds that a `std::time::Duration` holds.
pub open spec fn max_duration_nanos() -> int {
    18446744073709551615999999999
}

/// Reads the system clock with `SystemTime::UNIX_EPOCH.elapsed()`: `Ok(n)`
/// when the clock stands `n` nanoseconds after the Unix epoch, `Err(n)` when
/// it stands `n` nanoseconds before it (the `Duration` that the error
/// carries).  Which time the clock shows is not stated; only that the offset
/// comes from a `Duration`.
#[verifier::external_body]
fn read_clock() -> (r: Result<u128, u128>)
    ensures
        match r {
            Ok(n) => n <= max_duration_nanos(),
            Err(n) => n <= max_duration_nanos(),
        },
{
    match std::time::SystemTime::UNIX_EPOCH.elapsed() {
        Ok(d) => Ok(d.as_nanos()),
        Err(e) => Err(e.duration().as_nanos()),
    }
}

/// A time that the clock can show: nanoseconds relative to the Unix epoch,
/// within the range of a `Duration` either way.
pub open spec fn clock_reading(t: int) -> bool {
    -max_duration_nanos() <= t <= max_duration_nanos()
}

/// A clock reading as `read_clock` reports it: `Ok(n)` for `n` nanoseconds
/// after the Unix epoch, `Err(n)` for `n` nanoseconds before it.
pub open spec fn reading_in_range(reading: Result<u128, u128>) -> bool {
    match reading {
        Ok(n) => n <= max_duration_nanos(),
        Err(n) => n <= max_duration_nanos(),
    }
}

/// The offset from the Unix epoch, in nanoseconds, of a clock reading:
/// `n` after the epoch, `-n` before it.
pub fn epoch_offset(reading: Result<u128, u128>) -> (t: i128)
    requires
        reading_in_range(reading),
    ensures
        t == match reading {
            Ok(n) => n as int,
            Err(n) => -(n as int),
        },
{
    match reading {
        Ok(n) => n as i128,
        Err(n) => -(n as i128),
    }
}

/// The current time, in nanoseconds relative to the Unix epoch (negative
/// before it).
pub fn clock_now() -> (t: i128)
    ensures
        clock_reading(t as int),
{
    epoch_offset(read_clock())
}

/// `UnboundedSender::send`: hands `message` to the channel.  When the
/// receiving half is closed the message comes back in the error (tokio's
/// documentation and source: `Err(SendError(message))`).  Whether the
/// receiver is open is not stated.
#[verifier::external_body]
fn channel_send(sender: &UnboundedSender<WSMessage>, message: WSMessage) -> (r: Result<(), WSMessage>)
    ensures
        r matches Err(m) ==> m == message,
{
    sender.send(message).map_err(|e| e.0)
}

/// `Arc::clone`: another handle to the same connection.
#[verifier::external_body]
fn share(connection: &Arc<UserConnection>) -> (r: Arc<UserConnection>)
    ensures
        r == *connection,
{
    Arc::clone(connection)
}

/// `UnboundedSender::same_channel`: whether two senders send into the same
/// channel.  A sender is read as the channel it sends into (a cloned sender
/// is the same value), so the answer is whether the two are equal.
#[verifier::external_body]
fn same_channel(a: &UnboundedSender<WSMessage>, b: &UnboundedSender<WSMessage>) -> (r: bool)
    ensures
        r == (*a == *b),
{
    a.same_channel(b)
}

/// One WebSocket connection of a user.
#[derive(Debug)]
pub struct UserConnection {
    pub user_id: String,
    /// When the connection was last active, in nanoseconds relative to the
    /// Unix epoch.
    pub last_active: i128,
    pub sender: UnboundedSender<WSMessage>,
}

/// A connection is active at `now` when it was last active no later than
/// `now` and less than `timeout` nanoseconds before it.
pub open spec fn active_at(connection: UserConnection, now: int, timeout: int) -> bool {
    connection.last_active <= now && now - connection.last_active < timeout
}

impl UserConnection {
    /// A connection of `user_id` that sends on `sender`, active as of now.
    pub fn new(user_id: String, sender: UnboundedSender<WSMessage>) -> (r: UserConnection)
        ensures
            r.user_id == user_id,
            r.sender == sender,
            clock_reading(r.last_active as int),
    {
        UserConnection { user_id, last_active: clock_now(), sender }
    }

    /// Sends a message to the client.  When the client's channel is closed,
    /// the error carries an `error` message with an empty id and no payload
    /// in place of the message.
    pub fn send_message(&self, message: WSMessage) -> (r: Result<(), WSMessage>)
        ensures
            r matches Err(e) ==> (e.id@ == Seq::<char>::empty() && e.message_type@ == "error"@
                && e.payload == crate::json::JsonValue::Null),
    {
        match channel_send(&self.sender, message) {
            Ok(()) => Ok(()),
            Err(_) => Err(
                WSMessage {
                    id: String::new(),
                    message_type: String::from_str("error"),
                    payload: crate::json::JsonValue::Null,
                },
            ),
        }
    }

    /// Whether the connection is active at `now` within `timeout`
    /// nanoseconds.
    pub fn is_active_at(&self, now: i128, timeout: u128) -> (r: bool)
        ensures
            r == active_at(*self, now as int, timeout as int),
    {
        let last = self.last_active;
        if last > now {
            false
        } else if last >= 0 || now < 0 {
            let elapsed: u128 = (now - last) as u128;
            elapsed < timeout
        } else {
            // `last` is negative and `now` is not: the difference may exceed
            // `i128::MAX` but fits in `u128`.
            let elapsed: u128 = now as u128 + (-(last + 1)) as u128 + 1;
            elapsed < timeout
        }
    }

    /// Whether the connection is active now within `timeout` nanoseconds.
    pub fn is_active(&self, timeout: u128) -> (r: bool)
        ensures
            exists|now: int| #[trigger] clock_reading(now) && r == active_at(*self, now, timeout as int),
    {
        let now = clock_now();
        self.is_active_at(now, timeout)
    }

    /// Marks the connection as active now.
    pub fn update_activity(&mut self)
        ensures
            final(self).user_id == old(self).user_id,
            final(self).sender == old(self).sender,
            clock_reading(final(self).last_active as int),
    {
        self.last_active = clock_now();
    }
}

/// The connections that remain when those of `user_id` are taken out.
pub open spec fn without_user(
    connections: Seq<Arc<UserConnection>>,
    user_id: Seq<char>,
) -> Seq<Arc<UserConnection>> {
    connections.filter(not_of_user(user_id))
}

/// A connection that does not belong to `user_id`.
pub open spec fn not_of_user(user_id: Seq<char>) -> spec_fn(Arc<UserConnection>) -> bool {
    |c: Arc<UserConnection>| c.user_id@ != user_id
}

/// Every connection of `connections` belongs to `user_id`.
pub open spec fn all_of_user(connections: Seq<Arc<UserConnection>>, user_id: Seq<char>) -> bool {
    forall|i: int| 0 <= i < connections.len() ==> (#[trigger] connections[i]).user_id@ == user_id
}

/// Filtering keeps connections of one user connections of that user.
proof fn lemma_filter_of_user(
    connections: Seq<Arc<UserConnection>>,
    pred: spec_fn(Arc<UserConnection>) -> bool,
    user_id: Seq<char>,
)
    requires
        all_of_user(connections, user_id),
    ensures
        all_of_user(connections.filter(pred), user_id),
{
    let f = connections.filter(pred);
    assert forall|j: int| 0 <= j < f.len() implies (#[trigger] f[j]).user_id@ == user_id by {
        assert(f.contains(f[j]));
        connections.lemma_filter_contains_rev(pred, f[j]);
    }
}

/// A connection that does not send on `sender`.
pub open spec fn not_on_channel(sender: UnboundedSender<WSMessage>) -> spec_fn(
    Arc<UserConnection>,
) -> bool {
    |c: Arc<UserConnection>| c.sender != sender
}

/// The channel that a connection sends on.
pub open spec fn channel_of(c: Arc<UserConnection>) -> UnboundedSender<WSMessage> {
    c.sender
}

/// The connections that remain when the one sending on `sender` is taken
/// out.
pub open spec fn without_channel(
    connections: Seq<Arc<UserConnection>>,
    sender: UnboundedSender<WSMessage>,
) -> Seq<Arc<UserConnection>> {
    connections.filter(not_on_channel(sender))
}

/// A connection that is active at `now` within `timeout`.
pub open spec fn active_within(now: int, timeout: int) -> spec_fn(Arc<UserConnection>) -> bool {
    |c: Arc<UserConnection>| active_at(*c, now, timeout)
}

/// The connections that are active at `now` within `timeout`.
pub open spec fn still_active(
    connections: Seq<Arc<UserConnection>>,
    now: int,
    timeout: int,
) -> Seq<Arc<UserConnection>> {
    connections.filter(active_within(now, timeout))
}

/// Filtering one element further: the filter of a longer prefix is the
/// filter of the shorter one, with the new element if it passes.
proof fn lemma_filter_step<A>(s: Seq<A>, i: int, pred: spec_fn(A) -> bool)
    requires
        0 <= i < s.len(),
    ensures
        s.take(i + 1).filter(pred) == if pred(s[i]) {
            s.take(i).filter(pred).push(s[i])
        } else {
            s.take(i).filter(pred)
        },
{
    reveal(Seq::filter);
    assert(s.take(i + 1).drop_last() =~= s.take(i));
    assert(s.take(i + 1).last() == s[i]);
}

/// One call of `UserConnections::get_next_connection`, from `before` to
/// `after`, picking `pick`: the connections stay; with none, nothing is
/// picked and the position stays; otherwise the connection at the position
/// modulo their number is picked and the position moves on by one.
pub open spec fn next_connection_step(
    before: UserConnections,
    after: UserConnections,
    pick: Option<Arc<UserConnection>>,
) -> bool {
    let n = before.connections@.len() as int;
    &&& after.connections@ == before.connections@
    &&& n == 0 ==> pick is None && after.next_index == before.next_index
    &&& n > 0 ==> pick == Some(before.connections@[before.next_index as int % n])
        && after.next_index == (before.next_index as int + 1) % n
}

/// The connections of one user and the round-robin position.
#[derive(Debug)]
pub struct UserConnections {
    pub connections: Vec<Arc<UserConnection>>,
    pub next_index: usize,
}

impl UserConnections {
    /// No connection, round robin at the start.
    pub fn new() -> (r: UserConnections)
        ensures
            r.connections@ == Seq::<Arc<UserConnection>>::empty(),
            r.next_index == 0,
    {
        UserConnections { connections: Vec::new(), next_index: 0 }
    }

    /// Appends a connection.
    pub fn add_connection(&mut self, connection: Arc<UserConnection>)
        ensures
            final(self).connections@ == old(self).connections@.push(connection),
            final(self).next_index == old(self).next_index,
    {
        self.connections.push(connection);
    }

    /// Drops every connection whose user id is `user_id`, keeping the order
    /// of the others.
    pub fn remove_connection(&mut self, user_id: &str)
        ensures
            final(self).connections@ == without_user(old(self).connections@, user_id@),
            final(self).next_index == old(self).next_index,
    {
        let ghost pred = not_of_user(user_id@);
        let mut kept: Vec<Arc<UserConnection>> = Vec::new();
        let mut i: usize = 0;
        assert(self.connections@.take(0) =~= Seq::<Arc<UserConnection>>::empty());
        proof {
            reveal(Seq::filter);
        }
        while i < self.connections.len()
            invariant
                0 <= i <= self.connections@.len(),
                pred == not_of_user(user_id@),
                kept@ == self.connections@.take(i as int).filter(pred),
            decreases self.connections@.len() - i,
        {
            proof {
                lemma_filter_step(self.connections@, i as int, pred);
            }
            if !str_eq(self.connections[i].user_id.as_str(), user_id) {
                kept.push(share(&self.connections[i]));
            }
            i = i + 1;
        }
        assert(self.connections@.take(i as int) =~= self.connections@);
        self.connections = kept;
    }

    /// Drops the connection that sends on `sender` (every such connection,
    /// should there be several), keeping the order of the others.
    pub fn remove_channel(&mut self, sender: &UnboundedSender<WSMessage>)
        ensures
            final(self).connections@ == without_channel(old(self).connections@, *sender),
            final(self).next_index == old(self).next_index,
    {
        let ghost pred = not_on_channel(*sender);
        let mut kept: Vec<Arc<UserConnection>> = Vec::new();
        let mut i: usize = 0;
        assert(self.connections@.take(0) =~= Seq::<Arc<UserConnection>>::empty());
        proof {
            reveal(Seq::filter);
        }
        while i < self.connections.len()
            invariant
                0 <= i <= self.connections@.len(),
                pred == not_on_channel(*sender),
                kept@ == self.connections@.take(i as int).filter(pred),
            decreases self.connections@.len() - i,
        {
            proof {
                lemma_filter_step(self.connections@, i as int, pred);
            }
            if !same_channel(&self.connections[i].sender, sender) {
                kept.push(share(&self.connections[i]));
            }
            i = i + 1;
        }
        assert(self.connections@.take(i as int) =~= self.connections@);
        self.connections = kept;
    }

    /// Picks the next connection in round-robin order: the one at
    /// `next_index` modulo the number of connections, and moves on by one.
    pub fn get_next_connection(&mut self) -> (r: Option<Arc<UserConnection>>)
        ensures
            next_connection_step(*old(self), *final(self), r),
    {
        let len = self.connections.len();
        if len == 0 {
            return None;
        }
        let index = self.next_index % len;
        // (next + 1) % len, computed without overflow.
        let next = if index + 1 == len {
            0
        } else {
            index + 1
        };
        proof {
            let n = self.next_index as int;
            let l = len as int;
            let q = n / l;
            vstd::arithmetic::div_mod::lemma_fundamental_div_mod(n, l);
            vstd::arithmetic::mul::lemma_mul_is_commutative(l, q);
            if index + 1 < len {
                vstd::arithmetic::div_mod::lemma_fundamental_div_mod_converse(n + 1, l, q, n % l + 1);
            } else {
                vstd::arithmetic::mul::lemma_mul_is_distributive_add(l, q, 1);
                vstd::arithmetic::mul::lemma_mul_is_commutative(l, q + 1);
                vstd::arithmetic::div_mod::lemma_fundamental_div_mod_converse(n + 1, l, q + 1, 0);
            }
        }
        self.next_index = next;
        Some(share(&self.connections[index]))
    }

    /// Keeps the connections that are active at `now` within `timeout`.
    pub fn cleanup_inactive_at(&mut self, now: i128, timeout: u128)
        ensures
            final(self).connections@ == still_active(
                old(self).connections@,
                now as int,
                timeout as int,
            ),
            final(self).next_index == old(self).next_index,
    {
        let ghost pred = active_within(now as int, timeout as int);
        let mut kept: Vec<Arc<UserConnection>> = Vec::new();
        let mut i: usize = 0;
        assert(self.connections@.take(0) =~= Seq::<Arc<UserConnection>>::empty());
        proof {
            reveal(Seq::filter);
        }
        while i < self.connections.len()
            invariant
                0 <= i <= self.connections@.len(),
                pred == active_within(now as int, timeout as int),
                kept@ == self.connections@.take(i as int).filter(pred),
            decreases self.connections@.len() - i,
        {
            proof {
                lemma_filter_step(self.connections@, i as int, pred);
            }
            if self.connections[i].is_active_at(now, timeout) {
                kept.push(share(&self.connections[i]));
            }
            i = i + 1;
        }
        assert(self.connections@.take(i as int) =~= self.connections@);
        self.connections = kept;
    }

    /// Keeps the connections that are active now within `timeout`
    /// nanoseconds (the clock is read once).
    pub fn cleanup_inactive(&mut self, timeout: u128)
        ensures
            exists|now: int|
                #[trigger] clock_reading(now) && final(self).connections@ == still_active(
                    old(self).connections@,
                    now,
                    timeout as int,
                ),
            final(self).next_index == old(self).next_index,
    {
        let now = clock_now();
        self.cleanup_inactive_at(now, timeout);
    }

    /// Whether there is no connection.
    pub fn is_empty(&self) -> (r: bool)
        ensures
            r == (self.connections@.len() == 0),
    {
        self.connections.len() == 0
    }

    /// The number of connections.
    pub fn len(&self) -> (r: usize)
        ensures
            r == self.connections@.len(),
    {
        self.connections.len()
    }
}

/// What the users table holds: each user's connections.
pub uninterp spec fn user_table(table: DashMap<String, UserConnections>) -> Map<
    Seq<char>,
    UserConnections,
>;

/// What the pending-requests table holds: each request's reply channel.
pub uninterp spec fn pending_table(table: DashMap<String, UnboundedSender<WSMessage>>) -> Map<
    Seq<char>,
    UnboundedSender<WSMessage>,
>;

/// `DashMap::new`: an empty users table.
#[verifier::external_body]
fn user_table_new() -> (r: DashMap<String, UserConnections>)
    ensures
        user_table(r).dom() == Set::<Seq<char>>::empty(),
{
    DashMap::new()
}

/// `DashMap::insert`: sets the entry of `key` (dashmap's documentation: the
/// value of an existing key is replaced).
#[verifier::external_body]
fn user_table_insert(table: &mut DashMap<String, UserConnections>, key: String, value: UserConnections)
    ensures
        user_table(*final(table)) == user_table(*old(table)).insert(key@, value),
{
    table.insert(key, value);
}

/// `DashMap::remove`: takes the entry of `key` out, giving back the stored
/// key (equal to `key`) and its value.
#[verifier::external_body]
fn user_table_remove(table: &mut DashMap<String, UserConnections>, key: &str) -> (r: Option<
    (String, UserConnections),
>)
    ensures
        user_table(*final(table)) == user_table(*old(table)).remove(key@),
        match r {
            Some((k, v)) => user_table(*old(table)).contains_key(key@) && k@ == key@ && v == user_table(
                *old(table),
            )[key@],
            None => !user_table(*old(table)).contains_key(key@),
        },
{
    table.remove(key)
}

/// `DashMap::iter`, keeping the keys: each key of the table once, in an
/// order that the source does not fix.
#[verifier::external_body]
fn user_table_keys(table: &DashMap<String, UserConnections>) -> (r: Vec<String>)
    ensures
        forall|i: int, j: int| 0 <= i < j < r@.len() ==> r@[i]@ != r@[j]@,
        forall|i: int| 0 <= i < r@.len() ==> user_table(*table).contains_key(#[trigger] r@[i]@),
        forall|k: Seq<char>|
            user_table(*table).contains_key(k) ==> exists|i: int| 0 <= i < r@.len() && #[trigger] r@[i]@ == k,
{
    table.iter().map(|entry| entry.key().clone()).collect()
}

/// `DashMap::get`, keeping the number of connections of the entry
/// (`UserConnections::len`): nothing when the key is absent.
#[verifier::external_body]
fn user_table_count(table: &DashMap<String, UserConnections>, key: &str) -> (r: Option<usize>)
    ensures
        match r {
            Some(n) => user_table(*table).contains_key(key@) && n == user_table(
                *table,
            )[key@].connections@.len(),
            None => !user_table(*table).contains_key(key@),
        },
{
    table.get(key).map(|entry| entry.value().len())
}

/// `DashMap::new`: an empty pending-requests table.
#[verifier::external_body]
fn pending_table_new() -> (r: DashMap<String, UnboundedSender<WSMessage>>)
    ensures
        pending_table(r).dom() == Set::<Seq<char>>::empty(),
{
    DashMap::new()
}

/// `DashMap::insert` on the pending requests.
#[verifier::external_body]
fn pending_table_insert(
    table: &mut DashMap<String, UnboundedSender<WSMessage>>,
    key: String,
    value: UnboundedSender<WSMessage>,
)
    ensures
        pending_table(*final(table)) == pending_table(*old(table)).insert(key@, value),
{
    table.insert(key, value);
}

/// `DashMap::remove` on the pending requests.
#[verifier::external_body]
fn pending_table_remove(table: &mut DashMap<String, UnboundedSender<WSMessage>>, key: &str) -> (r:
    Option<(String, UnboundedSender<WSMessage>)>)
    ensures
        pending_table(*final(table)) == pending_table(*old(table)).remove(key@),
        match r {
            Some((k, v)) => pending_table(*old(table)).contains_key(key@) && k@ == key@ && v
                == pending_table(*old(table))[key@],
            None => !pending_table(*old(table)).contains_key(key@),
        },
{
    table.remove(key)
}

/// `DashMap::get` on the pending requests, handing out a clone of the stored
/// sender in place of the guard that borrows it: a sender on the same
/// channel (tokio: a cloned `UnboundedSender` sends into the channel of the
/// one it was cloned from), which the contract takes as the stored value
/// itself.  Nothing when the key is absent.
#[verifier::external_body]
fn pending_table_get(table: &DashMap<String, UnboundedSender<WSMessage>>, key: &str) -> (r: Option<
    UnboundedSender<WSMessage>,
>)
    ensures
        match r {
            Some(s) => pending_table(*table).contains_key(key@) && s == pending_table(*table)[key@],
            None => !pending_table(*table).contains_key(key@),
        },
{
    table.get(key).map(|entry| entry.value().clone())
}

/// `DashMap::len` on the pending requests.
#[verifier::external_body]
fn pending_table_len(table: &DashMap<String, UnboundedSender<WSMessage>>) -> (r: usize)
    ensures
        r == pending_table(*table).len(),
{
    table.len()
}

/// The connections of `user` in `users`, none if the user is absent.
pub open spec fn connections_in(users: Map<Seq<char>, UserConnections>, user: Seq<char>) -> Seq<
    Arc<UserConnection>,
> {
    if users.contains_key(user) {
        users[user].connections@
    } else {
        Seq::empty()
    }
}

/// Every entry but that of `key` is the same in `before` and `after`.
pub open spec fn same_except<V>(before: Map<Seq<char>, V>, after: Map<Seq<char>, V>, key: Seq<
    char,
>) -> bool {
    forall|k: Seq<char>|
        k != key ==> (#[trigger] after.contains_key(k) == before.contains_key(k)) && (
        before.contains_key(k) ==> after[k] == before[k])
}

/// `after` is `before` with the round robin of `user` moved on by one pick:
/// same connections, `next_index` advanced modulo their number, every other
/// user unchanged.
pub open spec fn advanced(
    before: Map<Seq<char>, UserConnections>,
    after: Map<Seq<char>, UserConnections>,
    user: Seq<char>,
) -> bool {
    &&& before.contains_key(user)
    &&& after.contains_key(user)
    &&& after[user].connections@ == before[user].connections@
    &&& after[user].next_index == (before[user].next_index as int + 1) % (
    before[user].connections@.len() as int)
    &&& same_except(before, after, user)
}

/// The connection that the round robin of `user` picks next.
pub open spec fn picked_connection(users: Map<Seq<char>, UserConnections>, user: Seq<char>) -> Arc<
    UserConnection,
> {
    users[user].connections@[users[user].next_index as int % users[user].connections@.len() as int]
}

/// The number of connections of the users in `keys`.
pub open spec fn connection_count(users: Map<Seq<char>, UserConnections>, keys: Set<Seq<char>>) -> nat
    decreases keys.len(),
    when keys.finite()
{
    if keys.len() == 0 {
        0
    } else {
        let k = keys.choose();
        connections_in(users, k).len() + connection_count(users, keys.remove(k))
    }
}

/// `after` is `before` with every user's connections that are not active at
/// `now` within `timeout` dropped, and the users left without one dropped.
pub open spec fn cleaned_up(
    before: Map<Seq<char>, UserConnections>,
    after: Map<Seq<char>, UserConnections>,
    now: int,
    timeout: int,
) -> bool {
    &&& forall|k: Seq<char>|
        #[trigger] after.contains_key(k) == (before.contains_key(k) && still_active(
            before[k].connections@,
            now,
            timeout,
        ).len() > 0)
    &&& forall|k: Seq<char>|
        #[trigger] after.contains_key(k) ==> after[k].connections@ == still_active(
            before[k].connections@,
            now,
            timeout,
        ) && after[k].next_index == before[k].next_index
}

/// Counting the connections of a set of users one user at a time.
proof fn lemma_count_remove(users: Map<Seq<char>, UserConnections>, keys: Set<Seq<char>>, x: Seq<char>)
    requires
        keys.finite(),
        keys.contains(x),
    ensures
        connection_count(users, keys) == connections_in(users, x).len() + connection_count(
            users,
            keys.remove(x),
        ),
    decreases keys.len(),
{
    let c = keys.choose();
    if c != x {
        lemma_count_remove(users, keys.remove(c), x);
        lemma_count_remove(users, keys.remove(x), c);
        assert(keys.remove(c).remove(x) =~= keys.remove(x).remove(c));
    }
}

/// The pool of all connections, and the requests waiting for an answer.
pub struct ConnectionPool {
    users: DashMap<String, UserConnections>,
    pending_requests: DashMap<String, UnboundedSender<WSMessage>>,
    handed: Ghost<Seq<(UnboundedSender<WSMessage>, WSMessage)>>,
}

/// Statistics of a pool.
#[derive(Debug, Clone)]
pub struct ConnectionStats {
    pub total_connections: usize,
    pub total_users: usize,
    pub pending_requests: usize,
}

impl ConnectionPool {
    /// Each user's connections.
    pub closed spec fn users(self) -> Map<Seq<char>, UserConnections> {
        user_table(self.users)
    }

    /// Each pending request's reply channel.
    pub closed spec fn pending(self) -> Map<Seq<char>, UnboundedSender<WSMessage>> {
        pending_table(self.pending_requests)
    }

    /// The pool's invariant: finitely many entries, no user without a
    /// connection, and every connection kept under the user it belongs to.
    pub open spec fn wf(self) -> bool {
        &&& self.users().dom().finite()
        &&& self.pending().dom().finite()
        &&& forall|k: Seq<char>|
            #[trigger] self.users().contains_key(k) ==> self.users()[k].connections@.len() > 0
        &&& forall|k: Seq<char>| #[trigger]
            self.users().contains_key(k) ==> all_of_user(self.users()[k].connections@, k)
    }

    /// The number of connections of all users.
    pub open spec fn total_connections(self) -> nat {
        connection_count(self.users(), self.users().dom())
    }

    /// What the pool has handed to client channels so far, in order: each
    /// message with the channel it went to.
    pub closed spec fn handed(self) -> Seq<(UnboundedSender<WSMessage>, WSMessage)> {
        self.handed@
    }

    /// An empty pool.
    pub fn new() -> (r: ConnectionPool)
        ensures
            r.wf(),
            r.users() == Map::<Seq<char>, UserConnections>::empty(),
            r.pending() == Map::<Seq<char>, UnboundedSender<WSMessage>>::empty(),
            r.handed() == Seq::<(UnboundedSender<WSMessage>, WSMessage)>::empty(),
    {
        ConnectionPool {
            users: user_table_new(),
            pending_requests: pending_table_new(),
            handed: Ghost(Seq::empty()),
        }
    }

    /// Sends `message` to the client of `connection`
    /// (`UserConnection::send_message`), recording it as handed to that
    /// connection's channel.
    pub fn send_to(&mut self, connection: &UserConnection, message: WSMessage) -> (r: Result<
        (),
        WSMessage,
    >)
        requires
            old(self).wf(),
        ensures
            final(self).wf(),
            final(self).users() == old(self).users(),
            final(self).pending() == old(self).pending(),
            final(self).handed() == old(self).handed().push((connection.sender, message)),
            r matches Err(e) ==> (e.id@ == Seq::<char>::empty() && e.message_type@ == "error"@
                && e.payload == crate::json::JsonValue::Null),
    {
        proof {
            self.handed@ = self.handed@.push((connection.sender, message));
        }
        connection.send_message(message)
    }

    /// Adds a new connection of `user_id` that sends on `sender`, after the
    /// user's existing connections; a new user starts at the first position
    /// of the round robin.
    pub fn add_connection(&mut self, user_id: String, sender: UnboundedSender<WSMessage>) -> (r: Arc<
        UserConnection,
    >)
        requires
            old(self).wf(),
        ensures
            final(self).wf(),
            r.user_id == user_id,
            r.sender == sender,
            clock_reading(r.last_active as int),
            final(self).users().contains_key(user_id@),
            final(self).users()[user_id@].connections@ == connections_in(
                old(self).users(),
                user_id@,
            ).push(r),
            final(self).users()[user_id@].next_index == if old(self).users().contains_key(
                user_id@,
            ) {
                old(self).users()[user_id@].next_index
            } else {
                0
            },
            same_except(old(self).users(), final(self).users(), user_id@),
            final(self).pending() == old(self).pending(),
            final(self).handed() == old(self).handed(),
    {
        let connection = Arc::new(UserConnection::new(user_id.clone(), sender));
        let mut entry = match user_table_remove(&mut self.users, user_id.as_str()) {
            Some((_, existing)) => existing,
            None => UserConnections::new(),
        };
        entry.add_connection(share(&connection));
        user_table_insert(&mut self.users, user_id, entry);
        connection
    }

    /// Drops the connections whose user id is `connection_id` from the
    /// connections of `user_id`, and the user with them when none is left.
    pub fn remove_connection(&mut self, user_id: &str, connection_id: &str)
        requires
            old(self).wf(),
        ensures
            final(self).wf(),
            final(self).pending() == old(self).pending(),
            final(self).handed() == old(self).handed(),
            same_except(old(self).users(), final(self).users(), user_id@),
            !old(self).users().contains_key(user_id@) ==> !final(self).users().contains_key(
                user_id@,
            ),
            old(self).users().contains_key(user_id@) ==> {
                let kept = without_user(old(self).users()[user_id@].connections@, connection_id@);
                &&& final(self).users().contains_key(user_id@) == (kept.len() > 0)
                &&& kept.len() > 0 ==> final(self).users()[user_id@].connections@ == kept
                    && final(self).users()[user_id@].next_index == old(self).users()[user_id@].next_index
            },
    {
        match user_table_remove(&mut self.users, user_id) {
            Some((key, mut connections)) => {
                let ghost before = connections.connections@;
                connections.remove_connection(connection_id);
                proof {
                    lemma_filter_of_user(before, not_of_user(connection_id@), user_id@);
                }
                if !connections.is_empty() {
                    user_table_insert(&mut self.users, key, connections);
                }
            },
            None => {},
        }
    }

    /// Drops one connection of its user: the one that sends on
    /// `connection.sender`, keeping the order of the user's other
    /// connections; the user goes when that was their last connection.
    pub fn drop_connection(&mut self, connection: &UserConnection)
        requires
            old(self).wf(),
        ensures
            final(self).wf(),
            final(self).pending() == old(self).pending(),
            final(self).handed() == old(self).handed(),
            same_except(old(self).users(), final(self).users(), connection.user_id@),
            !old(self).users().contains_key(connection.user_id@) ==> !final(self).users().contains_key(
                connection.user_id@,
            ),
            old(self).users().contains_key(connection.user_id@) ==> {
                let before = old(self).users()[connection.user_id@];
                let kept = without_channel(before.connections@, connection.sender);
                &&& final(self).users().contains_key(connection.user_id@) == (kept.len() > 0)
                &&& kept.len() > 0 ==> final(self).users()[connection.user_id@].connections@ == kept
                    && final(self).users()[connection.user_id@].next_index == before.next_index
            },
    {
        match user_table_remove(&mut self.users, connection.user_id.as_str()) {
            Some((key, mut connections)) => {
                let ghost before = connections.connections@;
                connections.remove_channel(&connection.sender);
                proof {
                    lemma_filter_of_user(before, not_on_channel(connection.sender), connection.user_id@);
                }
                if !connections.is_empty() {
                    user_table_insert(&mut self.users, key, connections);
                }
            },
            None => {},
        }
    }

    /// Picks a connection of `user_id` in round-robin order (see
    /// `UserConnections::get_next_connection`); nothing for an unknown user.
    pub fn get_connection(&mut self, user_id: &str) -> (r: Option<Arc<UserConnection>>)
        requires
            old(self).wf(),
        ensures
            final(self).wf(),
            final(self).pending() == old(self).pending(),
            final(self).handed() == old(self).handed(),
            same_except(old(self).users(), final(self).users(), user_id@),
            !old(self).users().contains_key(user_id@) ==> r is None && !final(self).users().contains_key(user_id@),
            old(self).users().contains_key(user_id@) ==> {
                let before = old(self).users()[user_id@];
                let n = before.connections@.len() as int;
                &&& final(self).users().contains_key(user_id@)
                &&& final(self).users()[user_id@].connections@ == before.connections@
                &&& final(self).users()[user_id@].next_index == (before.next_index as int + 1) % n
                &&& r == Some(before.connections@[before.next_index as int % n])
            },
    {
        match user_table_remove(&mut self.users, user_id) {
            Some((key, mut connections)) => {
                let picked = connections.get_next_connection();
                user_table_insert(&mut self.users, key, connections);
                picked
            },
            None => None,
        }
    }

    /// Registers the reply channel of a request.
    pub fn register_pending_request(
        &mut self,
        request_id: String,
        sender: UnboundedSender<WSMessage>,
    )
        requires
            old(self).wf(),
        ensures
            final(self).wf(),
            final(self).users() == old(self).users(),
            final(self).pending() == old(self).pending().insert(request_id@, sender),
            final(self).handed() == old(self).handed(),
    {
        pending_table_insert(&mut self.pending_requests, request_id, sender);
    }

    /// Forgets the reply channel of a request.
    pub fn remove_pending_request(&mut self, request_id: &str)
        requires
            old(self).wf(),
        ensures
            final(self).wf(),
            final(self).users() == old(self).users(),
            final(self).pending() == old(self).pending().remove(request_id@),
            final(self).handed() == old(self).handed(),
    {
        pending_table_remove(&mut self.pending_requests, request_id);
    }

    /// The channel on which the answer to the pending request `request_id`
    /// is to be delivered; nothing when no such request is pending.
    pub fn response_channel(&self, request_id: &str) -> (r: Option<UnboundedSender<WSMessage>>)
        ensures
            match r {
                Some(s) => self.pending().contains_key(request_id@) && s == self.pending()[request_id@],
                None => !self.pending().contains_key(request_id@),
            },
    {
        pending_table_get(&self.pending_requests, request_id)
    }

    /// Delivers `message` to the pending request `request_id`: hands it to
    /// the request's channel (`response_channel`).  Returns false when no
    /// such request is pending; otherwise whether the channel took the
    /// message.
    pub fn send_response(&self, request_id: &str, message: WSMessage) -> (r: bool)
        ensures
            !self.pending().contains_key(request_id@) ==> !r,
    {
        match self.response_channel(request_id) {
            Some(sender) => channel_send(&sender, message).is_ok(),
            None => false,
        }
    }

    /// Keeps, for every user, the connections that are active at `now`
    /// within `timeout`, and drops the users left without one.
    pub fn cleanup_inactive_at(&mut self, now: i128, timeout: u128)
        requires
            old(self).wf(),
        ensures
            final(self).wf(),
            final(self).pending() == old(self).pending(),
            final(self).handed() == old(self).handed(),
            cleaned_up(old(self).users(), final(self).users(), now as int, timeout as int),
    {
        let keys = user_table_keys(&self.users);
        let ghost before = self.users();
        let mut i: usize = 0;
        while i < keys.len()
            invariant
                0 <= i <= keys@.len(),
                self.pending() == old(self).pending(),
                self.handed() == old(self).handed(),
                before == old(self).users(),
                forall|a: int, b: int| 0 <= a < b < keys@.len() ==> keys@[a]@ != keys@[b]@,
                forall|j: int| 0 <= j < keys@.len() ==> before.contains_key(#[trigger] keys@[j]@),
                forall|k: Seq<char>|
                    before.contains_key(k) ==> exists|j: int| 0 <= j < keys@.len() && #[trigger] keys@[j]@ == k,
                forall|k: Seq<char>| #[trigger] self.users().contains_key(k) ==> before.contains_key(k),
                forall|j: int|
                    i <= j < keys@.len() ==> self.users().contains_key(#[trigger] keys@[j]@)
                        && self.users()[keys@[j]@] == before[keys@[j]@],
                forall|j: int|
                    0 <= j < i ==> (self.users().contains_key(#[trigger] keys@[j]@) == (still_active(
                        before[keys@[j]@].connections@,
                        now as int,
                        timeout as int,
                    ).len() > 0)) && (self.users().contains_key(keys@[j]@) ==> self.users()[keys@[j]@].connections@
                        == still_active(before[keys@[j]@].connections@, now as int, timeout as int)
                        && self.users()[keys@[j]@].next_index == before[keys@[j]@].next_index),
            decreases keys@.len() - i,
        {
            let ghost current = self.users();
            match user_table_remove(&mut self.users, keys[i].as_str()) {
                Some((key, mut connections)) => {
                    connections.cleanup_inactive_at(now, timeout);
                    if !connections.is_empty() {
                        user_table_insert(&mut self.users, key, connections);
                    }
                },
                None => {},
            }
            proof {
                assert forall|j: int| i + 1 <= j < keys@.len() implies self.users().contains_key(
                    #[trigger] keys@[j]@,
                ) && self.users()[keys@[j]@] == before[keys@[j]@] by {
                    assert(keys@[j]@ != keys@[i as int]@);
                }
                assert forall|j: int| 0 <= j < i implies (self.users().contains_key(
                    #[trigger] keys@[j]@,
                ) == current.contains_key(keys@[j]@)) && (current.contains_key(keys@[j]@)
                    ==> self.users()[keys@[j]@] == current[keys@[j]@]) by {
                    assert(keys@[j]@ != keys@[i as int]@);
                }
            }
            i = i + 1;
        }
        proof {
            assert forall|k: Seq<char>|
                #[trigger] self.users().contains_key(k) == (before.contains_key(k) && still_active(
                    before[k].connections@,
                    now as int,
                    timeout as int,
                ).len() > 0) by {
                if before.contains_key(k) {
                    let j = choose|j: int| 0 <= j < keys@.len() && #[trigger] keys@[j]@ == k;
                    assert(keys@[j]@ == k);
                }
            }
            assert forall|k: Seq<char>| #[trigger] self.users().contains_key(k) implies self.users()[k].connections@
                == still_active(before[k].connections@, now as int, timeout as int)
                && self.users()[k].next_index == before[k].next_index by {
                let j = choose|j: int| 0 <= j < keys@.len() && #[trigger] keys@[j]@ == k;
                assert(keys@[j]@ == k);
            }
            assert(self.users().dom().subset_of(before.dom()));
            vstd::set_lib::lemma_len_subset(self.users().dom(), before.dom());
            assert forall|k: Seq<char>| #[trigger] self.users().contains_key(k) implies all_of_user(
                self.users()[k].connections@,
                k,
            ) by {
                assert(before.contains_key(k));
                lemma_filter_of_user(
                    before[k].connections@,
                    active_within(now as int, timeout as int),
                    k,
                );
            }
        }
    }

    /// Keeps the connections that are active now within `timeout`
    /// nanoseconds, and drops the users left without one (the clock is read
    /// once).
    pub fn cleanup_inactive(&mut self, timeout: u128)
        requires
            old(self).wf(),
        ensures
            final(self).wf(),
            final(self).pending() == old(self).pending(),
            final(self).handed() == old(self).handed(),
            exists|now: int|
                #[trigger] clock_reading(now) && cleaned_up(
                    old(self).users(),
                    final(self).users(),
                    now,
                    timeout as int,
                ),
    {
        let now = clock_now();
        self.cleanup_inactive_at(now, timeout);
    }

    /// Counts the connections and the users, one user at a time; nothing
    /// when the connection count does not fit in `usize`.
    fn count_connections(&self) -> (r: Option<(usize, usize)>)
        requires
            self.wf(),
        ensures
            r is Some <==> self.total_connections() <= usize::MAX,
            r matches Some((connections, users)) ==> connections == self.total_connections()
                && users == self.users().len(),
    {
        let keys = user_table_keys(&self.users);
        let ghost users = self.users();
        let ghost mut remaining = users.dom();
        let mut total_connections: usize = 0;
        let mut total_users: usize = 0;
        let mut i: usize = 0;
        while i < keys.len()
            invariant
                users == self.users(),
                users.dom().finite(),
                0 <= i <= keys@.len(),
                remaining.finite(),
                remaining.subset_of(users.dom()),
                forall|a: int, b: int| 0 <= a < b < keys@.len() ==> keys@[a]@ != keys@[b]@,
                forall|j: int| i <= j < keys@.len() ==> remaining.contains(#[trigger] keys@[j]@),
                forall|k: Seq<char>|
                    remaining.contains(k) ==> exists|j: int| i <= j < keys@.len() && #[trigger] keys@[j]@ == k,
                total_connections + connection_count(users, remaining) == connection_count(
                    users,
                    users.dom(),
                ),
                total_users + remaining.len() == users.dom().len(),
                total_users == i,
            decreases keys@.len() - i,
        {
            let key = keys[i].as_str();
            proof {
                lemma_count_remove(users, remaining, key@);
            }
            match user_table_count(&self.users, key) {
                Some(n) => match total_connections.checked_add(n) {
                    Some(t) => {
                        total_connections = t;
                    },
                    None => {
                        return None;
                    },
                },
                None => {},
            }
            total_users = total_users + 1;
            proof {
                remaining = remaining.remove(key@);
                assert forall|j: int| i + 1 <= j < keys@.len() implies remaining.contains(
                    #[trigger] keys@[j]@,
                ) by {
                    assert(keys@[j]@ != keys@[i as int]@);
                }
                assert forall|k: Seq<char>| remaining.contains(k) implies exists|j: int|
                    i + 1 <= j < keys@.len() && #[trigger] keys@[j]@ == k by {
                    let j = choose|j: int| i <= j < keys@.len() && #[trigger] keys@[j]@ == k;
                    assert(j != i);
                }
            }
            i = i + 1;
        }
        proof {
            if remaining.len() > 0 {
                let k = remaining.choose();
                assert(remaining.contains(k));
            }
        }
        Some((total_connections, total_users))
    }

    /// Counts the connections, the users and the pending requests.  The
    /// connection count is a sum over users; it must fit in `usize`.
    pub fn get_stats(&self) -> (r: ConnectionStats)
        requires
            self.wf(),
            self.total_connections() <= usize::MAX,
        ensures
            r.total_connections == self.total_connections(),
            r.total_users == self.users().len(),
            r.pending_requests == self.pending().len(),
    {
        let (total_connections, total_users) = self.count_connections().unwrap();
        ConnectionStats {
            total_connections,
            total_users,
            pending_requests: pending_table_len(&self.pending_requests),
        }
    }

    /// The statistics of the pool when its connection count fits in
    /// `usize` (see `get_stats`), nothing otherwise.
    pub fn try_get_stats(&self) -> (r: Option<ConnectionStats>)
        requires
            self.wf(),
        ensures
            r is Some <==> self.total_connections() <= usize::MAX,
            r matches Some(stats) ==> stats.total_connections == self.total_connections()
                && stats.total_users == self.users().len() && stats.pending_requests
                == self.pending().len(),
    {
        match self.count_connections() {
            Some((total_connections, total_users)) => Some(
                ConnectionStats {
                    total_connections,
                    total_users,
                    pending_requests: pending_table_len(&self.pending_requests),
                },
            ),
            None => None,
        }
    }
}

/// The round-robin position after `calls` picks from position `start` over
/// `len` connections (each pick moves `next_index` to `(next_index + 1) % len`,
/// see `UserConnections::get_next_connection`).
pub open spec fn round_robin_after(start: int, len: int, calls: nat) -> int
    decreases calls,
{
    if calls == 0 {
        start
    } else {
        (round_robin_after(start, len, (calls - 1) as nat) + 1) % len
    }
}

/// Round robin, pick by pick: from position `start` over `len` connections
/// that stay the same, the pick made after `calls` earlier picks is the
/// connection at `(start + calls) % len`.
pub proof fn law_round_robin_order(start: int, len: int, calls: nat)
    requires
        len > 0,
        start >= 0,
    ensures
        round_robin_after(start, len, calls) >= 0,
        round_robin_after(start, len, calls) % len == (start + calls) % len,
    decreases calls,
{
    if calls > 0 {
        law_round_robin_order(start, len, (calls - 1) as nat);
        let p = round_robin_after(start, len, (calls - 1) as nat);
        vstd::arithmetic::div_mod::lemma_mod_pos_bound(p + 1, len);
        vstd::arithmetic::div_mod::lemma_mod_twice(p + 1, len);
        vstd::arithmetic::div_mod::lemma_add_mod_noop(p, 1, len);
        vstd::arithmetic::div_mod::lemma_add_mod_noop(start + calls - 1, 1, len);
    }
}

/// Round robin is fair: within `len` consecutive picks over `len`
/// connections that stay the same, each connection is picked exactly once.
pub proof fn law_round_robin_fair(start: int, len: int, index: int)
    requires
        len > 0,
        start >= 0,
        0 <= index < len,
    ensures
        exists|calls: nat| calls < len && #[trigger] round_robin_after(start, len, calls) % len == index,
        forall|a: nat, b: nat|
            a < len && b < len && #[trigger] round_robin_after(start, len, a) % len == index
                && #[trigger] round_robin_after(start, len, b) % len == index ==> a == b,
{
    let r = start % len;
    let q = start / len;
    vstd::arithmetic::div_mod::lemma_fundamental_div_mod(start, len);
    vstd::arithmetic::div_mod::lemma_mod_pos_bound(start, len);
    vstd::arithmetic::mul::lemma_mul_is_commutative(len, q);
    let calls: nat = if index >= r {
        (index - r) as nat
    } else {
        (index - r + len) as nat
    };
    law_round_robin_order(start, len, calls);
    if index >= r {
        vstd::arithmetic::div_mod::lemma_fundamental_div_mod_converse(start + calls, len, q, index);
    } else {
        vstd::arithmetic::mul::lemma_mul_is_distributive_add(len, q, 1);
        vstd::arithmetic::mul::lemma_mul_is_commutative(len, q + 1);
        vstd::arithmetic::div_mod::lemma_fundamental_div_mod_converse(
            start + calls,
            len,
            q + 1,
            index,
        );
    }
    assert(round_robin_after(start, len, calls) % len == index);
    assert forall|a: nat, b: nat|
        a < len && b < len && #[trigger] round_robin_after(start, len, a) % len == index
            && #[trigger] round_robin_after(start, len, b) % len == index implies a == b by {
        law_round_robin_order(start, len, a);
        law_round_robin_order(start, len, b);
        vstd::arithmetic::div_mod::lemma_mod_equivalence(start + a, start + b, len);
        if a > b {
            vstd::arithmetic::div_mod::lemma_small_mod((a - b) as nat, len as nat);
        } else if b > a {
            vstd::arithmetic::div_mod::lemma_mod_equivalence(start + b, start + a, len);
            vstd::arithmetic::div_mod::lemma_small_mod((b - a) as nat, len as nat);
        }
    }
}


/// The positions reached in a run of picks agree with `round_robin_after`.
proof fn lemma_run_positions(
    states: Seq<UserConnections>,
    picks: Seq<Option<Arc<UserConnection>>>,
    k: int,
)
    requires
        states.len() == picks.len() + 1,
        states[0].connections@.len() > 0,
        forall|j: int|
            0 <= j < picks.len() ==> #[trigger] next_connection_step(states[j], states[j + 1], picks[j]),
        0 <= k < states.len(),
    ensures
        states[k].connections@ == states[0].connections@,
        states[k].next_index as int == round_robin_after(
            states[0].next_index as int,
            states[0].connections@.len() as int,
            k as nat,
        ),
    decreases k,
{
    if k > 0 {
        lemma_run_positions(states, picks, k - 1);
        assert(next_connection_step(states[k - 1], states[k - 1 + 1], picks[k - 1]));
    }
}

/// The position that call `k` of a run of round-robin picks takes, from
/// position `start` over `n` connections.
pub open spec fn pick_position(start: int, n: int, k: int) -> int {
    (start + k) % n
}

/// Round robin over a run of consecutive calls of
/// `UserConnections::get_next_connection` on connections that nothing else
/// changes (`states[k]` before call `k`, `picks[k]` what it returned): call
/// `k` picks the connection at `pick_position(start, n, k)`, for the
/// starting position `start` and the `n` connections; the first `n` calls
/// pick every connection exactly once; and call `n` picks the same
/// connection as call `0`.
pub proof fn law_round_robin_run(states: Seq<UserConnections>, picks: Seq<Option<Arc<UserConnection>>>)
    requires
        states.len() == picks.len() + 1,
        states[0].connections@.len() > 0,
        forall|j: int|
            0 <= j < picks.len() ==> #[trigger] next_connection_step(states[j], states[j + 1], picks[j]),
    ensures
        ({
            let conns = states[0].connections@;
            let n = conns.len() as int;
            let start = states[0].next_index as int;
            &&& forall|k: int|
                0 <= k < picks.len() ==> #[trigger] picks[k] == Some(conns[pick_position(start, n, k)])
            &&& picks.len() >= n ==> forall|i: int|
                0 <= i < n ==> exists|k: int|
                    0 <= k < n && #[trigger] picks[k] == Some(#[trigger] conns[i]) && pick_position(start, n, k) == i
            &&& forall|a: int, b: int|
                0 <= a < n && 0 <= b < n && a != b ==> #[trigger] pick_position(start, n, a)
                    != #[trigger] pick_position(start, n, b)
            &&& picks.len() > n ==> picks[n] == picks[0]
        }),
{
    let conns = states[0].connections@;
    let n = conns.len() as int;
    let start = states[0].next_index as int;
    assert forall|k: int| 0 <= k < picks.len() implies #[trigger] picks[k] == Some(
        conns[pick_position(start, n, k)],
    ) by {
        lemma_run_positions(states, picks, k);
        law_round_robin_order(start, n, k as nat);
        assert(next_connection_step(states[k], states[k + 1], picks[k]));
    }
    if picks.len() >= n {
        assert forall|i: int| 0 <= i < n implies exists|k: int|
            0 <= k < n && #[trigger] picks[k] == Some(#[trigger] conns[i]) && pick_position(start, n, k) == i by {
            law_round_robin_fair(start, n, i);
            let c = choose|c: nat| c < n && #[trigger] round_robin_after(start, n, c) % n == i;
            law_round_robin_order(start, n, c);
            assert(picks[c as int] == Some(conns[pick_position(start, n, c as int)]));
        }
    }
    assert forall|a: int, b: int|
        0 <= a < n && 0 <= b < n && a != b implies #[trigger] pick_position(start, n, a)
            != #[trigger] pick_position(start, n, b) by {
        law_round_robin_fair(start, n, (start + a) % n);
        law_round_robin_order(start, n, a as nat);
        law_round_robin_order(start, n, b as nat);
        vstd::arithmetic::div_mod::lemma_mod_pos_bound(start + a, n);
        if (start + a) % n == (start + b) % n {
            assert(round_robin_after(start, n, a as nat) % n == (start + a) % n);
            assert(round_robin_after(start, n, b as nat) % n == (start + a) % n);
        }
    }
    if picks.len() > n {
        assert(picks[n] == Some(conns[pick_position(start, n, n)]));
        assert(picks[0] == Some(conns[pick_position(start, n, 0)]));
        vstd::arithmetic::div_mod::lemma_mod_add_multiples_vanish(start, n);
    }
}

/// Filtering out exactly one position: the prefixes of `s` filtered by a
/// predicate that fails only at `p`.
proof fn lemma_filter_prefix_one(s: Seq<Arc<UserConnection>>, p: int, pred: spec_fn(Arc<UserConnection>) -> bool, i: int)
    requires
        0 <= p < s.len(),
        0 <= i <= s.len(),
        !pred(s[p]),
        forall|j: int| 0 <= j < s.len() && j != p ==> #[trigger] pred(s[j]),
    ensures
        s.take(i).filter(pred) == if i <= p {
            s.take(i)
        } else {
            s.take(i).remove(p)
        },
    decreases i,
{
    reveal(Seq::filter);
    if i > 0 {
        lemma_filter_prefix_one(s, p, pred, i - 1);
        lemma_filter_step(s, i - 1, pred);
        if i - 1 < p {
            assert(s.take(i - 1).push(s[i - 1]) =~= s.take(i));
        } else if i - 1 == p {
            assert(s.take(i - 1) =~= s.take(i).remove(p));
        } else {
            assert(s.take(i - 1).remove(p).push(s[i - 1]) =~= s.take(i).remove(p));
        }
    } else {
        assert(s.take(0).filter(pred) =~= s.take(0));
    }
}

/// Dropping the connection of one socket: where no other connection of the
/// list sends on the same channel as the one at `p`, taking out that
/// channel's connections takes out exactly the one at `p`, and the others
/// keep their order.
pub proof fn law_drop_one_connection(connections: Seq<Arc<UserConnection>>, p: int)
    requires
        0 <= p < connections.len(),
        forall|j: int|
            0 <= j < connections.len() && j != p ==> #[trigger] connections[j].sender
                != connections[p].sender,
    ensures
        without_channel(connections, connections[p].sender) == connections.remove(p),
{
    let pred = not_on_channel(channel_of(connections[p]));
    assert forall|j: int| 0 <= j < connections.len() && j != p implies #[trigger] pred(connections[j]) by {
        assert(connections[j].sender != connections[p].sender);
    }
    lemma_filter_prefix_one(connections, p, pred, connections.len() as int);
    assert(connections.take(connections.len() as int) =~= connections);
}

} // verus!
