//! The dispatcher's bookkeeping: the four registries (connections,
//! transactions, prepared statements, cursors) and the rules that decide, for
//! each call, which entry it reaches, what it may do there, and what changes.
//! The engine work itself (connect, run, commit, pull rows) happens between
//! these steps, on values that the store hands out and takes back.
use std::collections::VecDeque;
use vstd::prelude::*;
use vstd::string::StringSliceAdditionalSpecFns;
use crate::classify::{returns_rows, should_use_query};
use crate::handle::{is_handle_text, new_handle};
use crate::registry::Registry;

verus! {

/// The bound, in seconds, on a remote replica's sync, unless the caller gives another.
pub const DEFAULT_SYNC_TIMEOUT_SECS: u64 = 30;

/// How many fresh handles are drawn before a registration gives up.
const HANDLE_ATTEMPTS: usize = 4;

/// Where a connection's database lives.
#[derive(Clone, Copy, Debug, PartialEq, Eq, Structural)]
pub enum ConnMode {
    Local,
    RemotePrimary,
    RemoteReplica,
}

/// Whether writes on a replica are synced automatically.
#[derive(Clone, Copy, Debug, PartialEq, Eq, Structural)]
pub enum SyncMode {
    Enabled,
    Disabled,
}

/// When a transaction takes its locks.
#[derive(Clone, Copy, Debug, PartialEq, Eq, Structural)]
pub enum Behavior {
    Deferred,
    Immediate,
    Exclusive,
}

/// The life of a transaction.
#[derive(Clone, Copy, Debug, PartialEq, Eq, Structural)]
pub enum TxState {
    Open,
    Committed,
    RolledBack,
}

/// The engine call a statement goes through.
#[derive(Clone, Copy, Debug, PartialEq, Eq, Structural)]
pub enum Route {
    /// The statement yields rows: run it as a query.
    Rows,
    /// The statement yields no rows: run it as an execute.
    NoRows,
}

/// What a cursor's rows came from.
#[derive(Clone, Copy, Debug, PartialEq, Eq, Structural)]
pub enum CursorSource {
    Query,
    Statement,
}

/// Why a call failed.
#[derive(Debug, PartialEq, Eq)]
pub enum DbError {
    /// The handle is not in the registry it was looked up in.
    NotFound,
    /// The entry exists but cannot take this operation.
    InvalidState,
    /// No fresh handle could be drawn.
    HandleCollision,
    /// The engine reported a failure.
    Engine(String),
    /// A remote sync exceeded its bound.
    Timeout,
}

/// One live connection.
pub struct ConnectionEntry<C> {
    pub mode: ConnMode,
    pub sync: SyncMode,
    pub conn: C,
}

/// One open transaction, and the handle of the connection it was begun on.
pub struct TransactionEntry<X> {
    pub conn_id: String,
    pub behavior: Behavior,
    pub state: TxState,
    pub txn: X,
}

/// One prepared statement, the handle of its connection, and its route.
pub struct StatementEntry<S> {
    pub conn_id: String,
    pub route: Route,
    pub stmt: S,
}

/// One forward-only cursor: its column names and the rows not yet handed out,
/// in stream order.
pub struct CursorEntry<R> {
    pub source: CursorSource,
    pub columns: Vec<String>,
    pub rows: VecDeque<R>,
}

/// What one step of a cursor yields.
#[derive(Debug, PartialEq, Eq)]
pub enum CursorStep<R> {
    Row(R),
    EndOfStream,
}

/// The route of a statement with bytes `b`.
pub open spec fn route_of(b: Seq<u8>) -> Route {
    if returns_rows(b) {
        Route::Rows
    } else {
        Route::NoRows
    }
}

/// The route of `sql`: rows for a SELECT or a RETURNING clause, else none.
pub fn route_for(sql: &str) -> (r: Route)
    ensures
        r == route_of(sql.spec_bytes()),
{
    if should_use_query(sql) {
        Route::Rows
    } else {
        Route::NoRows
    }
}

/// Draws a handle that `reg` does not hold yet, within a few attempts. An
/// empty registry takes the first draw.
fn fresh_handle<T>(reg: &Registry<T>) -> (r: Option<String>)
    requires
        reg.wf(),
    ensures
        reg@ == Map::<Seq<char>, T>::empty() ==> r is Some,
        match r {
            Some(h) => is_handle_text(h@) && !reg@.contains_key(h@),
            None => true,
        },
{
    let mut tries: usize = 0;
    while tries < HANDLE_ATTEMPTS
        invariant
            reg.wf(),
            reg@ == Map::<Seq<char>, T>::empty() ==> tries == 0,
        decreases HANDLE_ATTEMPTS - tries,
    {
        let h = new_handle();
        if !reg.contains(h.as_str()) {
            return Some(h);
        }
        tries = tries + 1;
    }
    None
}

/// The four registries.
pub struct Store<C, X, S, R> {
    connections: Registry<ConnectionEntry<C>>,
    transactions: Registry<TransactionEntry<X>>,
    statements: Registry<StatementEntry<S>>,
    cursors: Registry<CursorEntry<R>>,
}

impl<C, X, S, R> Store<C, X, S, R> {
    /// The connections, by handle.
    pub closed spec fn connections(&self) -> Map<Seq<char>, ConnectionEntry<C>> {
        self.connections@
    }

    /// The open transactions, by handle.
    pub closed spec fn transactions(&self) -> Map<Seq<char>, TransactionEntry<X>> {
        self.transactions@
    }

    /// The prepared statements, by handle.
    pub closed spec fn statements(&self) -> Map<Seq<char>, StatementEntry<S>> {
        self.statements@
    }

    /// The cursors, by handle.
    pub closed spec fn cursors(&self) -> Map<Seq<char>, CursorEntry<R>> {
        self.cursors@
    }

    /// Each registry is well formed, and every registered transaction is open.
    pub closed spec fn wf(&self) -> bool {
        &&& self.connections.wf()
        &&& self.transactions.wf()
        &&& self.statements.wf()
        &&& self.cursors.wf()
        &&& forall|h: Seq<char>| #[trigger]
            self.transactions@.contains_key(h) ==> self.transactions@[h].state == TxState::Open
    }

    /// `h` names a statement whose connection is still registered.
    pub open spec fn live_statement(&self, h: Seq<char>) -> bool {
        &&& self.statements().contains_key(h)
        &&& self.connections().contains_key(self.statements()[h].conn_id@)
    }

    /// `h` names a transaction whose connection is still registered.
    pub open spec fn live_transaction(&self, h: Seq<char>) -> bool {
        &&& self.transactions().contains_key(h)
        &&& self.connections().contains_key(self.transactions()[h].conn_id@)
    }

    /// Nothing changed between `self` and `o`.
    pub open spec fn same(&self, o: &Self) -> bool {
        &&& self.connections() == o.connections()
        &&& self.transactions() == o.transactions()
        &&& self.statements() == o.statements()
        &&& self.cursors() == o.cursors()
    }

    /// What `open` does: on success a fresh handle `h` names the new
    /// connection and nothing else changes; on failure nothing changes.
    pub open spec fn opens(
        &self,
        mode: ConnMode,
        sync: SyncMode,
        conn: C,
        r: Result<String, DbError>,
        after: Self,
    ) -> bool {
        match r {
            Ok(h) => {
                &&& is_handle_text(h@)
                &&& !self.connections().contains_key(h@)
                &&& after.connections() == self.connections().insert(
                    h@,
                    (ConnectionEntry { mode, sync, conn }),
                )
                &&& after.transactions() == self.transactions()
                &&& after.statements() == self.statements()
                &&& after.cursors() == self.cursors()
            },
            Err(e) => e == DbError::HandleCollision && after.same(&self),
        }
    }

    /// What `close(h)` does: a registered connection leaves the registry and
    /// comes back to the caller; an unknown handle fails with NotFound.
    pub open spec fn closes(&self, h: Seq<char>, r: Result<C, DbError>, after: Self) -> bool {
        match r {
            Ok(c) => {
                &&& self.connections().contains_key(h)
                &&& c == self.connections()[h].conn
                &&& after.connections() == self.connections().remove(h)
                &&& after.transactions() == self.transactions()
                &&& after.statements() == self.statements()
                &&& after.cursors() == self.cursors()
            },
            Err(e) => {
                &&& e == DbError::NotFound
                &&& !self.connections().contains_key(h)
                &&& after.same(&self)
            },
        }
    }

    /// What ending the transaction `h` in state `end` does: a registered
    /// transaction leaves the registry and comes back in state `end`; an
    /// unknown handle fails with NotFound.
    pub open spec fn ends(
        &self,
        h: Seq<char>,
        end: TxState,
        r: Result<TransactionEntry<X>, DbError>,
        after: Self,
    ) -> bool {
        match r {
            Ok(e) => {
                &&& self.transactions().contains_key(h)
                &&& e.conn_id == self.transactions()[h].conn_id
                &&& e.behavior == self.transactions()[h].behavior
                &&& e.txn == self.transactions()[h].txn
                &&& e.state == end
                &&& after.transactions() == self.transactions().remove(h)
                &&& after.connections() == self.connections()
                &&& after.statements() == self.statements()
                &&& after.cursors() == self.cursors()
            },
            Err(e) => {
                &&& e == DbError::NotFound
                &&& !self.transactions().contains_key(h)
                &&& after.same(&self)
            },
        }
    }

    /// What one step of the cursor `h` does: hand out its first row and keep
    /// the rest; or, with no row left, end the stream and drop the cursor; or,
    /// for an unknown handle, fail with NotFound.
    pub open spec fn steps(&self, h: Seq<char>, r: Result<CursorStep<R>, DbError>, after: Self) -> bool {
        &&& after.connections() == self.connections()
        &&& after.transactions() == self.transactions()
        &&& after.statements() == self.statements()
        &&& match r {
            Ok(CursorStep::Row(x)) => {
                &&& self.cursors().contains_key(h)
                &&& self.cursors()[h].rows@.len() > 0
                &&& x == self.cursors()[h].rows@[0]
                &&& after.cursors() == self.cursors().insert(h, after.cursors()[h])
                &&& after.cursors()[h].rows@ == self.cursors()[h].rows@.drop_first()
                &&& after.cursors()[h].source == self.cursors()[h].source
                &&& after.cursors()[h].columns == self.cursors()[h].columns
            },
            Ok(CursorStep::EndOfStream) => {
                &&& self.cursors().contains_key(h)
                &&& self.cursors()[h].rows@.len() == 0
                &&& after.cursors() == self.cursors().remove(h)
            },
            Err(e) => {
                &&& e == DbError::NotFound
                &&& !self.cursors().contains_key(h)
                &&& after.cursors() == self.cursors()
            },
        }
    }

    /// What fetching up to `max` rows from the cursor `h` does: hand out the
    /// first `min(max, n)` of its `n` rows in order. With fewer than `max`
    /// rows left the stream has ended and the cursor leaves the registry;
    /// otherwise it keeps the rest. An unknown handle fails with NotFound.
    pub open spec fn fetches(&self, h: Seq<char>, max: nat, r: Result<Vec<R>, DbError>, after: Self) -> bool {
        &&& after.connections() == self.connections()
        &&& after.transactions() == self.transactions()
        &&& after.statements() == self.statements()
        &&& match r {
            Ok(v) => {
                let rows = self.cursors()[h].rows@;
                &&& self.cursors().contains_key(h)
                &&& v@ == rows.take(if rows.len() < max { rows.len() as int } else { max as int })
                &&& rows.len() < max ==> after.cursors() == self.cursors().remove(h)
                &&& rows.len() >= max ==> {
                    &&& after.cursors() == self.cursors().insert(h, after.cursors()[h])
                    &&& after.cursors()[h].rows@ == rows.skip(max as int)
                    &&& after.cursors()[h].source == self.cursors()[h].source
                    &&& after.cursors()[h].columns == self.cursors()[h].columns
                }
            },
            Err(e) => {
                &&& e == DbError::NotFound
                &&& !self.cursors().contains_key(h)
                &&& after.cursors() == self.cursors()
            },
        }
    }

    /// Empty registries.
    pub fn new() -> (r: Self)
        ensures
            r.wf(),
            r.connections() == Map::<Seq<char>, ConnectionEntry<C>>::empty(),
            r.transactions() == Map::<Seq<char>, TransactionEntry<X>>::empty(),
            r.statements() == Map::<Seq<char>, StatementEntry<S>>::empty(),
            r.cursors() == Map::<Seq<char>, CursorEntry<R>>::empty(),
    {
        Store {
            connections: Registry::new(),
            transactions: Registry::new(),
            statements: Registry::new(),
            cursors: Registry::new(),
        }
    }

    /// Registers a connection that the engine has opened, under a fresh handle.
    pub fn open(&mut self, mode: ConnMode, sync: SyncMode, conn: C) -> (r: Result<
        String,
        DbError,
    >)
        requires
            old(self).wf(),
        ensures
            final(self).wf(),
            old(self).opens(mode, sync, conn, r, *final(self)),
            old(self).connections() == Map::<Seq<char>, ConnectionEntry<C>>::empty() ==> r is Ok,
    {
        match fresh_handle(&self.connections) {
            Some(h) => {
                let key = h.clone();
                self.connections.insert(key, ConnectionEntry { mode, sync, conn });
                Ok(h)
            },
            None => Err(DbError::HandleCollision),
        }
    }

    /// Takes a connection out of the registry and hands it back for release.
    pub fn close(&mut self, h: &str) -> (r: Result<C, DbError>)
        requires
            old(self).wf(),
        ensures
            final(self).wf(),
            old(self).closes(h@, r, *final(self)),
    {
        match self.connections.remove(h) {
            Some(kv) => Ok(kv.1.conn),
            None => Err(DbError::NotFound),
        }
    }

    /// The connection that `h` names.
    pub fn connection(&self, h: &str) -> (r: Result<&ConnectionEntry<C>, DbError>)
        requires
            self.wf(),
        ensures
            match r {
                Ok(e) => self.connections().contains_key(h@) && *e == self.connections()[h@],
                Err(e) => e == DbError::NotFound && !self.connections().contains_key(h@),
            },
    {
        match self.connections.get(h) {
            Some(e) => Ok(e),
            None => Err(DbError::NotFound),
        }
    }

    /// The route that `sql` takes on the connection `h`.
    pub fn route(&self, h: &str, sql: &str) -> (r: Result<Route, DbError>)
        requires
            self.wf(),
        ensures
            match r {
                Ok(rt) => self.connections().contains_key(h@) && rt == route_of(sql.spec_bytes()),
                Err(e) => e == DbError::NotFound && !self.connections().contains_key(h@),
            },
    {
        if !self.connections.contains(h) {
            return Err(DbError::NotFound);
        }
        Ok(route_for(sql))
    }

    /// Registers a statement that the engine has prepared from `sql` on the
    /// connection `conn_h`; its route is decided here, once.
    pub fn prepare(&mut self, conn_h: &str, sql: &str, stmt: S) -> (r: Result<String, DbError>)
        requires
            old(self).wf(),
        ensures
            final(self).wf(),
            old(self).connections().contains_key(conn_h@) && old(self).statements() == Map::<
                Seq<char>,
                StatementEntry<S>,
            >::empty() ==> r is Ok,
            match r {
                Ok(h) => {
                    &&& old(self).connections().contains_key(conn_h@)
                    &&& is_handle_text(h@)
                    &&& !old(self).statements().contains_key(h@)
                    &&& final(self).statements() == old(self).statements().insert(
                        h@,
                        final(self).statements()[h@],
                    )
                    &&& final(self).statements()[h@].conn_id@ == conn_h@
                    &&& final(self).statements()[h@].route == route_of(sql.spec_bytes())
                    &&& final(self).statements()[h@].stmt == stmt
                    &&& final(self).connections() == old(self).connections()
                    &&& final(self).transactions() == old(self).transactions()
                    &&& final(self).cursors() == old(self).cursors()
                },
                Err(e) => {
                    &&& e == DbError::NotFound ==> !old(self).connections().contains_key(conn_h@)
                    &&& !old(self).connections().contains_key(conn_h@) ==> e == DbError::NotFound
                    &&& e == DbError::NotFound || e == DbError::HandleCollision
                    &&& final(self).same(old(self))
                },
            },
    {
        if !self.connections.contains(conn_h) {
            return Err(DbError::NotFound);
        }
        let route = route_for(sql);
        match fresh_handle(&self.statements) {
            Some(h) => {
                let key = h.clone();
                let entry = StatementEntry { conn_id: conn_h.to_owned(), route, stmt };
                self.statements.insert(key, entry);
                Ok(h)
            },
            None => Err(DbError::HandleCollision),
        }
    }

    /// The statement that `h` names, while its connection is registered.
    pub fn statement(&self, h: &str) -> (r: Result<&StatementEntry<S>, DbError>)
        requires
            self.wf(),
        ensures
            match r {
                Ok(e) => self.live_statement(h@) && *e == self.statements()[h@],
                Err(e) => e == DbError::NotFound && !self.live_statement(h@),
            },
    {
        match self.statements.get(h) {
            Some(e) => {
                if self.connections.contains(e.conn_id.as_str()) {
                    Ok(e)
                } else {
                    Err(DbError::NotFound)
                }
            },
            None => Err(DbError::NotFound),
        }
    }

    /// Takes a statement out of the registry and hands it back for release.
    pub fn close_statement(&mut self, h: &str) -> (r: Result<S, DbError>)
        requires
            old(self).wf(),
        ensures
            final(self).wf(),
            match r {
                Ok(st) => {
                    &&& old(self).statements().contains_key(h@)
                    &&& st == old(self).statements()[h@].stmt
                    &&& final(self).statements() == old(self).statements().remove(h@)
                    &&& final(self).connections() == old(self).connections()
                    &&& final(self).transactions() == old(self).transactions()
                    &&& final(self).cursors() == old(self).cursors()
                },
                Err(e) => {
                    &&& e == DbError::NotFound
                    &&& !old(self).statements().contains_key(h@)
                    &&& final(self).same(old(self))
                },
            },
    {
        match self.statements.remove(h) {
            Some(kv) => Ok(kv.1.stmt),
            None => Err(DbError::NotFound),
        }
    }

    /// Registers a transaction that the engine has begun on the connection
    /// `conn_h`, in state `Open`.
    pub fn begin(&mut self, conn_h: &str, behavior: Behavior, txn: X) -> (r: Result<
        String,
        DbError,
    >)
        requires
            old(self).wf(),
        ensures
            final(self).wf(),
            old(self).connections().contains_key(conn_h@) && old(self).transactions() == Map::<
                Seq<char>,
                TransactionEntry<X>,
            >::empty() ==> r is Ok,
            match r {
                Ok(h) => {
                    &&& old(self).connections().contains_key(conn_h@)
                    &&& is_handle_text(h@)
                    &&& !old(self).transactions().contains_key(h@)
                    &&& final(self).transactions() == old(self).transactions().insert(
                        h@,
                        final(self).transactions()[h@],
                    )
                    &&& final(self).transactions()[h@].conn_id@ == conn_h@
                    &&& final(self).transactions()[h@].behavior == behavior
                    &&& final(self).transactions()[h@].state == TxState::Open
                    &&& final(self).transactions()[h@].txn == txn
                    &&& final(self).connections() == old(self).connections()
                    &&& final(self).statements() == old(self).statements()
                    &&& final(self).cursors() == old(self).cursors()
                },
                Err(e) => {
                    &&& e == DbError::NotFound ==> !old(self).connections().contains_key(conn_h@)
                    &&& !old(self).connections().contains_key(conn_h@) ==> e == DbError::NotFound
                    &&& e == DbError::NotFound || e == DbError::HandleCollision
                    &&& final(self).same(old(self))
                },
            },
    {
        if !self.connections.contains(conn_h) {
            return Err(DbError::NotFound);
        }
        match fresh_handle(&self.transactions) {
            Some(h) => {
                let key = h.clone();
                let entry = TransactionEntry {
                    conn_id: conn_h.to_owned(),
                    behavior,
                    state: TxState::Open,
                    txn,
                };
                self.transactions.insert(key, entry);
                Ok(h)
            },
            None => Err(DbError::HandleCollision),
        }
    }

    /// The open transaction that `h` names, while its connection is registered.
    pub fn transaction(&self, h: &str) -> (r: Result<&TransactionEntry<X>, DbError>)
        requires
            self.wf(),
        ensures
            match r {
                Ok(e) => {
                    &&& self.live_transaction(h@)
                    &&& *e == self.transactions()[h@]
                    &&& e.state == TxState::Open
                },
                Err(e) => e == DbError::NotFound && !self.live_transaction(h@),
            },
    {
        match self.transactions.get(h) {
            Some(e) => {
                if self.connections.contains(e.conn_id.as_str()) {
                    Ok(e)
                } else {
                    Err(DbError::NotFound)
                }
            },
            None => Err(DbError::NotFound),
        }
    }

    /// The route that `sql` takes inside the open transaction `h`.
    pub fn transaction_route(&self, h: &str, sql: &str) -> (r: Result<Route, DbError>)
        requires
            self.wf(),
        ensures
            match r {
                Ok(rt) => self.live_transaction(h@) && rt == route_of(sql.spec_bytes()),
                Err(e) => e == DbError::NotFound && !self.live_transaction(h@),
            },
    {
        match self.transaction(h) {
            Ok(_) => Ok(route_for(sql)),
            Err(e) => Err(e),
        }
    }

    /// Ends the transaction `h`: takes it out of the registry, whatever the
    /// engine then reports, and hands it back in state `end` so that the
    /// engine's commit or rollback can run on it.
    fn finish(&mut self, h: &str, end: TxState) -> (r: Result<TransactionEntry<X>, DbError>)
        requires
            old(self).wf(),
            end != TxState::Open,
        ensures
            final(self).wf(),
            old(self).ends(h@, end, r, *final(self)),
    {
        match self.transactions.remove(h) {
            Some(kv) => {
                let mut e = kv.1;
                e.state = end;
                Ok(e)
            },
            None => Err(DbError::NotFound),
        }
    }

    /// Commits the transaction `h`: it leaves the registry in state `Committed`.
    pub fn commit(&mut self, h: &str) -> (r: Result<TransactionEntry<X>, DbError>)
        requires
            old(self).wf(),
        ensures
            final(self).wf(),
            old(self).ends(h@, TxState::Committed, r, *final(self)),
    {
        self.finish(h, TxState::Committed)
    }

    /// Rolls back the transaction `h`: it leaves the registry in state `RolledBack`.
    pub fn rollback(&mut self, h: &str) -> (r: Result<TransactionEntry<X>, DbError>)
        requires
            old(self).wf(),
        ensures
            final(self).wf(),
            old(self).ends(h@, TxState::RolledBack, r, *final(self)),
    {
        self.finish(h, TxState::RolledBack)
    }

    /// Registers a cursor over `rows`, which a query produced, in stream order.
    pub fn open_cursor(&mut self, source: CursorSource, columns: Vec<String>, rows: VecDeque<R>) -> (r:
        Result<String, DbError>)
        requires
            old(self).wf(),
        ensures
            final(self).wf(),
            old(self).cursors() == Map::<Seq<char>, CursorEntry<R>>::empty() ==> r is Ok,
            match r {
                Ok(h) => {
                    &&& is_handle_text(h@)
                    &&& !old(self).cursors().contains_key(h@)
                    &&& final(self).cursors() == old(self).cursors().insert(
                        h@,
                        (CursorEntry { source, columns, rows }),
                    )
                    &&& final(self).connections() == old(self).connections()
                    &&& final(self).transactions() == old(self).transactions()
                    &&& final(self).statements() == old(self).statements()
                },
                Err(e) => e == DbError::HandleCollision && final(self).same(old(self)),
            },
    {
        match fresh_handle(&self.cursors) {
            Some(h) => {
                let key = h.clone();
                self.cursors.insert(key, CursorEntry { source, columns, rows });
                Ok(h)
            },
            None => Err(DbError::HandleCollision),
        }
    }

    /// The next row of the cursor `h`. Once no row is left, the step yields
    /// `EndOfStream` and the cursor leaves the registry.
    pub fn cursor_next(&mut self, h: &str) -> (r: Result<CursorStep<R>, DbError>)
        requires
            old(self).wf(),
        ensures
            final(self).wf(),
            old(self).steps(h@, r, *final(self)),
    {
        match self.cursors.remove(h) {
            Some(kv) => {
                let (key, mut entry) = kv;
                match entry.rows.pop_front() {
                    Some(x) => {
                        self.cursors.insert(key, entry);
                        proof {
                            assert(old(self).cursors()[h@].rows@.drop_first() =~= old(
                                self,
                            ).cursors()[h@].rows@.subrange(
                                1,
                                old(self).cursors()[h@].rows@.len() as int,
                            ));
                            assert(self.cursors() =~= old(self).cursors().insert(
                                h@,
                                self.cursors()[h@],
                            ));
                        }
                        Ok(CursorStep::Row(x))
                    },
                    None => Ok(CursorStep::EndOfStream),
                }
            },
            None => Err(DbError::NotFound),
        }
    }

    /// Up to `max_rows` rows of the cursor `h`, in stream order. A batch
    /// shorter than `max_rows` means the stream has ended: the cursor then
    /// leaves the registry.
    pub fn cursor_fetch(&mut self, h: &str, max_rows: usize) -> (r: Result<Vec<R>, DbError>)
        requires
            old(self).wf(),
        ensures
            final(self).wf(),
            old(self).fetches(h@, max_rows as nat, r, *final(self)),
    {
        match self.cursors.remove(h) {
            Some(kv) => {
                let (key, mut entry) = kv;
                let ghost rows0 = entry.rows@;
                let ghost source = entry.source;
                let ghost columns = entry.columns;
                let mut out: Vec<R> = Vec::new();
                while out.len() < max_rows && entry.rows.len() > 0
                    invariant
                        entry.source == source,
                        entry.columns == columns,
                        out@.len() <= max_rows,
                        out@ + entry.rows@ == rows0,
                    decreases max_rows - out@.len(),
                {
                    let ghost before = entry.rows@;
                    match entry.rows.pop_front() {
                        Some(x) => {
                            proof {
                                assert(seq![x] + entry.rows@ =~= before);
                                assert(out@.push(x) + entry.rows@ =~= out@ + before);
                            }
                            out.push(x);
                        },
                        None => {},
                    }
                }
                proof {
                    assert(out@ =~= rows0.take(out@.len() as int));
                    assert(entry.rows@ =~= rows0.skip(out@.len() as int));
                }
                if out.len() == max_rows {
                    self.cursors.insert(key, entry);
                    proof {
                        assert(self.cursors() =~= old(self).cursors().insert(h@, self.cursors()[h@]));
                    }
                }
                Ok(out)
            },
            None => Err(DbError::NotFound),
        }
    }

    /// Drops the cursor `h` before its end.
    pub fn close_cursor(&mut self, h: &str) -> (r: Result<(), DbError>)
        requires
            old(self).wf(),
        ensures
            final(self).wf(),
            final(self).connections() == old(self).connections(),
            final(self).transactions() == old(self).transactions(),
            final(self).statements() == old(self).statements(),
            final(self).cursors() == old(self).cursors().remove(h@),
            r is Ok <==> old(self).cursors().contains_key(h@),
            r is Err ==> r == Err::<(), DbError>(DbError::NotFound),
    {
        match self.cursors.remove(h) {
            Some(_) => Ok(()),
            None => {
                proof {
                    assert(old(self).cursors().remove(h@) =~= old(self).cursors());
                }
                Err(DbError::NotFound)
            },
        }
    }

    /// The connection that a sync on `h` runs on: only a remote replica syncs.
    pub fn sync_target(&self, h: &str) -> (r: Result<&ConnectionEntry<C>, DbError>)
        requires
            self.wf(),
        ensures
            match r {
                Ok(e) => {
                    &&& self.connections().contains_key(h@)
                    &&& *e == self.connections()[h@]
                    &&& e.mode == ConnMode::RemoteReplica
                },
                Err(e) => {
                    &&& !self.connections().contains_key(h@) ==> e == DbError::NotFound
                    &&& self.connections().contains_key(h@) ==> e == DbError::InvalidState
                        && self.connections()[h@].mode != ConnMode::RemoteReplica
                },
            },
    {
        match self.connections.get(h) {
            Some(e) => {
                if e.mode == ConnMode::RemoteReplica {
                    Ok(e)
                } else {
                    Err(DbError::InvalidState)
                }
            },
            None => Err(DbError::NotFound),
        }
    }
    /// How many connections are registered.
    pub fn connection_count(&self) -> (r: usize)
        requires
            self.wf(),
        ensures
            r == self.connections().len(),
    {
        self.connections.len()
    }

    /// How many transactions are open.
    pub fn transaction_count(&self) -> (r: usize)
        requires
            self.wf(),
        ensures
            r == self.transactions().len(),
    {
        self.transactions.len()
    }

    /// How many statements are registered.
    pub fn statement_count(&self) -> (r: usize)
        requires
            self.wf(),
        ensures
            r == self.statements().len(),
    {
        self.statements.len()
    }

    /// How many cursors are registered.
    pub fn cursor_count(&self) -> (r: usize)
        requires
            self.wf(),
        ensures
            r == self.cursors().len(),
    {
        self.cursors.len()
    }

    /// Round trip of a connection handle. The handle that `open` returns is
    /// registered until `close` takes it out, so that close succeeds; after it
    /// the handle is unknown: a second close fails with NotFound, as does any
    /// lookup of it, and no statement or transaction begun on it is live.
    pub proof fn law_connection_round_trip(
        s0: Self,
        s1: Self,
        s2: Self,
        s3: Self,
        mode: ConnMode,
        sync: SyncMode,
        conn: C,
        h: String,
        r1: Result<C, DbError>,
        r2: Result<C, DbError>,
    )
        requires
            s0.opens(mode, sync, conn, Ok(h), s1),
            s1.closes(h@, r1, s2),
            s2.closes(h@, r2, s3),
        ensures
            r1 is Ok,
            r2 == Err::<C, DbError>(DbError::NotFound),
            !s2.connections().contains_key(h@),
            forall|k: Seq<char>|
                #[trigger] s2.statements().contains_key(k) && s2.statements()[k].conn_id@ == h@
                    ==> !s2.live_statement(k),
            forall|k: Seq<char>|
                #[trigger] s2.transactions().contains_key(k) && s2.transactions()[k].conn_id@
                    == h@ ==> !s2.live_transaction(k),
    {
        assert(s1.connections().contains_key(h@));
    }

    /// A transaction ends once. After a commit or a rollback on `h` that
    /// succeeded, `h` is no live transaction, and a second commit or rollback
    /// on it fails with NotFound.
    pub proof fn law_transaction_ends_once(
        s0: Self,
        s1: Self,
        s2: Self,
        h: Seq<char>,
        end1: TxState,
        end2: TxState,
        r1: Result<TransactionEntry<X>, DbError>,
        r2: Result<TransactionEntry<X>, DbError>,
    )
        requires
            s0.ends(h, end1, r1, s1),
            r1 is Ok,
            s1.ends(h, end2, r2, s2),
        ensures
            !s1.transactions().contains_key(h),
            !s1.live_transaction(h),
            r2 == Err::<TransactionEntry<X>, DbError>(DbError::NotFound),
    {
    }

    /// Cursor exhaustion. A cursor with one row left hands out that row; the
    /// next step ends the stream; from then on the handle is unknown.
    pub proof fn law_cursor_exhaustion(
        s0: Self,
        s1: Self,
        s2: Self,
        s3: Self,
        h: Seq<char>,
        r1: Result<CursorStep<R>, DbError>,
        r2: Result<CursorStep<R>, DbError>,
        r3: Result<CursorStep<R>, DbError>,
    )
        requires
            s0.cursors().contains_key(h),
            s0.cursors()[h].rows@.len() == 1,
            s0.steps(h, r1, s1),
            s1.steps(h, r2, s2),
            s2.steps(h, r3, s3),
        ensures
            r1 == Ok::<CursorStep<R>, DbError>(CursorStep::Row(s0.cursors()[h].rows@[0])),
            r2 == Ok::<CursorStep<R>, DbError>(CursorStep::EndOfStream),
            r3 == Err::<CursorStep<R>, DbError>(DbError::NotFound),
            !s2.cursors().contains_key(h),
    {
    }
}

} // verus!
