use vstd::prelude::*;
use crate::errors::OrderServiceError;
use crate::hbase_utils::{create_order_builder_from_hbase_row, row_to_builder, StoreRow};
use crate::orders::{order_build, state_name, Order, OrderState};

verus! {

/// One cell write within a row mutation batch.
#[derive(Debug, Clone, PartialEq)]
pub struct CellMutation {
    pub column_family: String,
    pub column_qualifier: String,
    pub value: String,
}

/// Mathematical model of a [`CellMutation`].
#[verifier::ext_equal]
pub struct CellMutationView {
    pub column_family: Seq<char>,
    pub column_qualifier: Seq<char>,
    pub value: Seq<char>,
}

impl View for CellMutation {
    type V = CellMutationView;

    open spec fn view(&self) -> CellMutationView {
        CellMutationView {
            column_family: self.column_family@,
            column_qualifier: self.column_qualifier@,
            value: self.value@,
        }
    }
}

/// All cell writes of one batch aimed at a single row.
#[derive(Debug, Clone, PartialEq)]
pub struct RowMutation {
    pub row: String,
    pub mutations: Vec<CellMutation>,
}

/// Mathematical model of a [`RowMutation`].
#[verifier::ext_equal]
pub struct RowMutationView {
    pub row: Seq<char>,
    pub mutations: Seq<CellMutationView>,
}

impl View for RowMutation {
    type V = RowMutationView;

    open spec fn view(&self) -> RowMutationView {
        RowMutationView {
            row: self.row@,
            mutations: Seq::new(self.mutations@.len(), |i: int| self.mutations@[i]@),
        }
    }
}

/// The view of a batch of row mutations.
pub open spec fn batch_view(batch: Seq<RowMutation>) -> Seq<RowMutationView> {
    Seq::new(batch.len(), |i: int| batch[i]@)
}

/// The model of one row write handed to a store: which table, which row
/// batch, the explicit timestamp it was stamped with, and the extended
/// attributes, if any.
#[verifier::ext_equal]
pub struct PutRecord {
    pub table: Seq<char>,
    pub batch: Seq<RowMutationView>,
    pub timestamp: Option<i64>,
    pub attributes: Option<Seq<(Seq<char>, Seq<char>)>>,
}

/// The view of optional extended put attributes.
pub open spec fn attributes_view(a: Option<Vec<(String, String)>>) -> Option<
    Seq<(Seq<char>, Seq<char>)>,
> {
    match a {
        Some(v) => Some(Seq::new(v@.len(), |i: int| (v@[i].0@, v@[i].1@))),
        None => None,
    }
}

/// The view of a list of column family names.
pub open spec fn families_view(v: Seq<String>) -> Seq<Seq<char>> {
    Seq::new(v.len(), |i: int| v[i]@)
}

/// Narrow capability over the wide-column store: row read, batch row write,
/// table creation. An error is the transport or server cause, as text.
///
/// Implementations live outside the verified core — a real connection in the
/// surrounding binary, doubles in tests — so the methods carry no contracts;
/// everything the library guarantees is proved in the [`Store`] handle that
/// wraps an implementation.
pub trait HbaseClient: Sized {
    /// Reads every row the store holds under the given key.
    fn get_row(&mut self, row_id: &str) -> Result<Vec<StoreRow>, String>;

    /// Applies one batch of row mutations, stamped with the given timestamp,
    /// with optional extended attributes.
    fn put(
        &mut self,
        table: &str,
        row_batches: Vec<RowMutation>,
        timestamp: Option<i64>,
        attributes: Option<Vec<(String, String)>>,
    ) -> Result<(), String>;

    /// Creates a table with the given column families.
    fn create_table(&mut self, name: &str, column_families: Vec<String>) -> Result<(), String>;
}

/// A verified handle on a store connection, keeping three ghost histories.
///
/// `puts()` holds the writes the store accepted through this handle and
/// `put_attempts()` every write handed to it, both oldest first: each `put`
/// call appends exactly its own record to the attempts, and to the accepted
/// writes exactly when the store answered success — so a write is attempted
/// exactly once per call, never retried. `creations()` holds the accepted
/// table-creation requests. Reads touch none of the histories, and every
/// store failure surfaces as `DBError` carrying the cause.
pub struct Store<C: HbaseClient> {
    pub inner: C,
    history: Ghost<Seq<PutRecord>>,
    attempts: Ghost<Seq<PutRecord>>,
    created: Ghost<Seq<(Seq<char>, Seq<Seq<char>>)>>,
}

impl<C: HbaseClient> Store<C> {
    /// The writes the store has accepted through this handle, oldest first.
    pub closed spec fn puts(&self) -> Seq<PutRecord> {
        self.history@
    }

    /// Every write handed to the store through this handle, oldest first,
    /// accepted or not.
    pub closed spec fn put_attempts(&self) -> Seq<PutRecord> {
        self.attempts@
    }

    /// The `(table, column families)` creation requests the store accepted
    /// through this handle, oldest first.
    pub closed spec fn creations(&self) -> Seq<(Seq<char>, Seq<Seq<char>>)> {
        self.created@
    }

    /// Wraps a connection; nothing has gone through the handle yet.
    pub fn new(inner: C) -> (r: Store<C>)
        ensures
            r.puts() == Seq::<PutRecord>::empty(),
            r.put_attempts() == Seq::<PutRecord>::empty(),
            r.creations() == Seq::<(Seq<char>, Seq<Seq<char>>)>::empty(),
    {
        Store {
            inner,
            history: Ghost(Seq::empty()),
            attempts: Ghost(Seq::empty()),
            created: Ghost(Seq::empty()),
        }
    }

    /// Reads every row stored under the given key; reading writes nothing.
    pub fn get_row(&mut self, row_id: &str) -> (r: Result<Vec<StoreRow>, OrderServiceError>)
        ensures
            final(self).puts() == old(self).puts(),
            final(self).put_attempts() == old(self).put_attempts(),
            final(self).creations() == old(self).creations(),
            r matches Err(e) ==> e matches OrderServiceError::DBError(_),
    {
        match self.inner.get_row(row_id) {
            Ok(rows) => Ok(rows),
            Err(cause) => Err(OrderServiceError::DBError(cause)),
        }
    }

    /// Applies one batch of row mutations. The call attempts exactly this
    /// write, exactly once; on success the accepted history grows by the
    /// same record, on failure it is unchanged.
    pub fn put(
        &mut self,
        table: &str,
        row_batches: Vec<RowMutation>,
        timestamp: Option<i64>,
        attributes: Option<Vec<(String, String)>>,
    ) -> (r: Result<(), OrderServiceError>)
        ensures
            final(self).put_attempts() == old(self).put_attempts().push(
                PutRecord {
                    table: table@,
                    batch: batch_view(row_batches@),
                    timestamp,
                    attributes: attributes_view(attributes),
                },
            ),
            r is Ok ==> final(self).puts() == old(self).puts().push(
                PutRecord {
                    table: table@,
                    batch: batch_view(row_batches@),
                    timestamp,
                    attributes: attributes_view(attributes),
                },
            ),
            r is Err ==> final(self).puts() == old(self).puts(),
            final(self).creations() == old(self).creations(),
            r matches Err(e) ==> e matches OrderServiceError::DBError(_),
    {
        let ghost record = PutRecord {
            table: table@,
            batch: batch_view(row_batches@),
            timestamp,
            attributes: attributes_view(attributes),
        };
        self.attempts = Ghost(self.attempts@.push(record));
        match self.inner.put(table, row_batches, timestamp, attributes) {
            Ok(_) => {
                self.history = Ghost(self.history@.push(record));
                Ok(())
            },
            Err(cause) => Err(OrderServiceError::DBError(cause)),
        }
    }

    /// Creates a table with the given column families; creation writes no
    /// rows, and on success the creations history grows by exactly this
    /// request.
    pub fn create_table(&mut self, name: &str, column_families: Vec<String>) -> (r: Result<
        (),
        OrderServiceError,
    >)
        ensures
            final(self).puts() == old(self).puts(),
            final(self).put_attempts() == old(self).put_attempts(),
            r is Ok ==> final(self).creations() == old(self).creations().push(
                (name@, families_view(column_families@)),
            ),
            r is Err ==> final(self).creations() == old(self).creations(),
            r matches Err(e) ==> e matches OrderServiceError::DBError(_),
    {
        let ghost request = (name@, families_view(column_families@));
        match self.inner.create_table(name, column_families) {
            Ok(_) => {
                self.created = Ghost(self.created@.push(request));
                Ok(())
            },
            Err(cause) => Err(OrderServiceError::DBError(cause)),
        }
    }
}

/// Turns a store response into an order: zero rows is `RowNotFound` for the
/// requested key, otherwise the first row is decoded and built, and a row
/// missing a mandatory field is `OrderBuildFailed`. Rows past the first are
/// ignored.
pub fn rows_to_order(row_id: &str, rows: &Vec<StoreRow>) -> (r: Result<Order, OrderServiceError>)
    ensures
        rows@.len() == 0 ==> (r matches Err(e) && e matches OrderServiceError::RowNotFound(id)
            && id@ == row_id@),
        rows@.len() > 0 ==> match order_build(row_to_builder(rows@[0]@)) {
            Some(o) => r matches Ok(res) && res@ == o,
            None => r == Err::<Order, OrderServiceError>(OrderServiceError::OrderBuildFailed),
        },
{
    if rows.len() == 0 {
        return Err(OrderServiceError::RowNotFound(row_id.to_owned()));
    }
    let row = &rows[0];
    match Order::build(create_order_builder_from_hbase_row(row)) {
        Some(v) => Ok(v),
        None => Err(OrderServiceError::OrderBuildFailed),
    }
}

/// Fetches the row stored under `row_id` and decodes it into an order.
///
/// What comes back from the store decides the outcome; for every response
/// the result is fixed by [`rows_to_order`]. The read never writes, and any
/// error is the store's `DBError`, `RowNotFound` for this key, or
/// `OrderBuildFailed`.
pub fn get_order_row<C: HbaseClient>(row_id: &str, client: &mut Store<C>) -> (r: Result<
    Order,
    OrderServiceError,
>)
    ensures
        final(client).puts() == old(client).puts(),
        final(client).put_attempts() == old(client).put_attempts(),
        final(client).creations() == old(client).creations(),
        r matches Err(e) ==> (e matches OrderServiceError::DBError(_) || e
            matches OrderServiceError::OrderBuildFailed || (e
            matches OrderServiceError::RowNotFound(id) && id@ == row_id@)),
{
    let rows = match client.get_row(row_id) {
        Ok(v) => v,
        Err(e) => {
            return Err(e);
        },
    };
    rows_to_order(row_id, &rows)
}

/// The record a state-transition write leaves in the store history: one cell
/// write of the state's name under `info:state`, aimed at the order's row in
/// the `orders` table, stamped with the transition time.
pub open spec fn state_put_record(row: Seq<char>, s: OrderState, unix_time: i64) -> PutRecord {
    PutRecord {
        table: "orders"@,
        batch: seq![
            RowMutationView {
                row,
                mutations: seq![
                    CellMutationView {
                        column_family: "info"@,
                        column_qualifier: "state"@,
                        value: state_name(s),
                    },
                ],
            },
        ],
        timestamp: Some(unix_time),
        attributes: None,
    }
}

/// Overwrites the stored state of the given order row, stamping the write
/// with the given time and no extended attributes. The call hands the store
/// exactly the one state-cell write, exactly once; on success the store
/// accepts it, on failure it accepts nothing and the store's error is
/// surfaced as `DBError`.
pub fn update_order_state<C: HbaseClient>(
    row_id: &str,
    new_order_state: OrderState,
    unix_time: i64,
    client: &mut Store<C>,
) -> (r: Result<(), OrderServiceError>)
    ensures
        final(client).put_attempts() == old(client).put_attempts().push(
            state_put_record(row_id@, new_order_state, unix_time),
        ),
        final(client).creations() == old(client).creations(),
        r is Ok ==> final(client).puts() == old(client).puts().push(
            state_put_record(row_id@, new_order_state, unix_time),
        ),
        r is Err ==> final(client).puts() == old(client).puts(),
        r matches Err(e) ==> e matches OrderServiceError::DBError(_),
{
    let mutation = CellMutation {
        column_family: "info".to_owned(),
        column_qualifier: "state".to_owned(),
        value: new_order_state.name(),
    };
    let mut mutations: Vec<CellMutation> = Vec::new();
    mutations.push(mutation);
    let batch = RowMutation { row: row_id.to_owned(), mutations };
    let mut batches: Vec<RowMutation> = Vec::new();
    batches.push(batch);
    proof {
        assert(batch_view(batches@) =~~= state_put_record(row_id@, new_order_state, unix_time)
            .batch);
    }
    client.put("orders", batches, Some(unix_time), None)
}

/// The fixed provisioning request: the single `orders` table with its three
/// active column families and the one reserved, unused family.
pub open spec fn order_table_request() -> (Seq<char>, Seq<Seq<char>>) {
    ("orders"@, seq!["info"@, "ids"@, "addr"@, "ol"@])
}

/// Provisions the order table: on success the store accepted exactly the
/// fixed creation request; creation writes no rows.
pub fn create_order_table<C: HbaseClient>(client: &mut Store<C>) -> (r: Result<
    (),
    OrderServiceError,
>)
    ensures
        final(client).puts() == old(client).puts(),
        final(client).put_attempts() == old(client).put_attempts(),
        r is Ok ==> final(client).creations() == old(client).creations().push(
            order_table_request(),
        ),
        r is Err ==> final(client).creations() == old(client).creations(),
        r matches Err(e) ==> e matches OrderServiceError::DBError(_),
{
    let mut families: Vec<String> = Vec::new();
    families.push("info".to_owned());
    families.push("ids".to_owned());
    families.push("addr".to_owned());
    families.push("ol".to_owned());
    proof {
        assert(families_view(families@) =~~= order_table_request().1);
    }
    client.create_table("orders", families)
}

} // verus!
