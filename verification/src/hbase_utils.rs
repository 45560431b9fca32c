use vstd::prelude::*;
use vstd::string::{StrSliceExecFns, StringExecFns};
use vstd::utf8::{decode_utf8, encode_utf8, valid_utf8};
use crate::orders::{
    opt_str_view, order_build, Order, OrderBuilder, OrderBuilderView, OrderView,
};
use crate::text::{bytes_to_string, str_eq};

verus! {

/// One stored cell: the raw `family:qualifier` column name and the raw value
/// bytes, both exactly as the store returned them.
#[derive(Debug, Clone, PartialEq)]
pub struct StoreCell {
    pub column: Vec<u8>,
    pub value: Option<Vec<u8>>,
}

/// Mathematical model of a [`StoreCell`].
pub struct StoreCellView {
    pub column: Seq<u8>,
    pub value: Option<Seq<u8>>,
}

impl View for StoreCell {
    type V = StoreCellView;

    open spec fn view(&self) -> StoreCellView {
        StoreCellView { column: self.column@, value: opt_bytes_view(self.value) }
    }
}

/// The view of optional raw bytes.
pub open spec fn opt_bytes_view(v: Option<Vec<u8>>) -> Option<Seq<u8>> {
    match v {
        Some(b) => Some(b@),
        None => None,
    }
}

/// One row as returned by the store: an optional row key and, when the row
/// carries any data, its cells in the order the store listed them.
#[derive(Debug, Clone, PartialEq)]
pub struct StoreRow {
    pub row: Option<Vec<u8>>,
    pub columns: Option<Vec<StoreCell>>,
}

/// Mathematical model of a [`StoreRow`].
pub struct StoreRowView {
    pub row: Option<Seq<u8>>,
    pub columns: Option<Seq<StoreCellView>>,
}

impl View for StoreRow {
    type V = StoreRowView;

    open spec fn view(&self) -> StoreRowView {
        StoreRowView {
            row: opt_bytes_view(self.row),
            columns: match self.columns {
                Some(cells) => Some(Seq::new(cells@.len(), |i: int| cells@[i]@)),
                None => None,
            },
        }
    }
}

/// The text that raw bytes decode to, when they are valid UTF-8.
pub open spec fn decoded_text(b: Seq<u8>) -> Option<Seq<char>> {
    if valid_utf8(b) {
        Some(decode_utf8(b))
    } else {
        None
    }
}

/// The text of an optional cell value: present exactly when the value is
/// present and valid UTF-8.
pub open spec fn value_text(v: Option<Seq<u8>>) -> Option<Seq<char>> {
    match v {
        Some(b) => decoded_text(b),
        None => None,
    }
}

/// True when position `i` holds the only colon in `cs`.
pub open spec fn is_single_colon_split(cs: Seq<char>, i: int) -> bool {
    &&& 0 <= i < cs.len()
    &&& cs[i] == ':'
    &&& forall|j: int| 0 <= j < cs.len() && j != i ==> cs[j] != ':'
}

/// Splits a column name at its colon, provided it holds exactly one.
pub open spec fn split_single_colon(cs: Seq<char>) -> Option<(Seq<char>, Seq<char>)> {
    if exists|i: int| is_single_colon_split(cs, i) {
        let i = choose|i: int| is_single_colon_split(cs, i);
        Some((cs.take(i), cs.skip(i + 1)))
    } else {
        None
    }
}

/// The `(family, qualifier)` pair a raw column name denotes: the bytes must be
/// valid UTF-8 and the text must hold exactly one colon.
pub open spec fn column_parts(col: Seq<u8>) -> Option<(Seq<char>, Seq<char>)> {
    match decoded_text(col) {
        Some(cs) => split_single_colon(cs),
        None => None,
    }
}

/// The split is fully determined by any position that satisfies
/// [`is_single_colon_split`], since such a position is unique.
pub proof fn lemma_split_single_colon(cs: Seq<char>, i: int)
    requires
        is_single_colon_split(cs, i),
    ensures
        split_single_colon(cs) == Some((cs.take(i), cs.skip(i + 1))),
{
    let w = choose|j: int| is_single_colon_split(cs, j);
    assert(cs[w] == ':');
    if w != i {
        assert(cs[w] != ':');
    }
}

/// Parses a raw column name into its `(family, qualifier)` pair.
///
/// Fails (returning `None`) when the bytes are not valid UTF-8 or when the
/// text does not hold exactly one colon.
pub fn get_column(col: &[u8]) -> (r: Option<(String, String)>)
    ensures
        opt_column_view(r) == column_parts(col@),
{
    let s = match bytes_to_string(col) {
        Some(s) => s,
        None => {
            return None;
        },
    };
    let cs = s.as_str();
    let n = cs.unicode_len();
    let ghost text = cs@;
    let mut first: Option<usize> = None;
    let mut second: Option<usize> = None;
    let mut i: usize = 0;
    while i < n
        invariant
            n == text.len(),
            cs@ == text,
            i <= n,
            first is None ==> forall|j: int| 0 <= j < i ==> text[j] != ':',
            first matches Some(k) ==> k < i && text[k as int] == ':' && (forall|j: int|
                0 <= j < i && j != k ==> second is None ==> text[j] != ':'),
            second matches Some(m) ==> (first matches Some(k) && k < m) && m < i && text[m as int]
                == ':',
        decreases n - i,
    {
        if cs.get_char(i) == ':' {
            if first.is_none() {
                first = Some(i);
            } else if second.is_none() {
                second = Some(i);
            }
        }
        i = i + 1;
    }
    match (first, second) {
        (Some(k), None) => {
            proof {
                assert(is_single_colon_split(text, k as int));
                lemma_split_single_colon(text, k as int);
            }
            let fam = cs.substring_char(0, k).to_owned();
            let qual = cs.substring_char(k + 1, n).to_owned();
            Some((fam, qual))
        },
        (Some(k), Some(m)) => {
            proof {
                if exists|j: int| is_single_colon_split(text, j) {
                    let j = choose|j: int| is_single_colon_split(text, j);
                    if j != k {
                        assert(text[k as int] != ':');
                    } else {
                        assert(text[m as int] != ':');
                    }
                }
            }
            None
        },
        (None, _) => {
            proof {
                if exists|j: int| is_single_colon_split(text, j) {
                    let j = choose|j: int| is_single_colon_split(text, j);
                    assert(text[j] == ':');
                }
            }
            None
        },
    }
}

/// The view of an optional `(family, qualifier)` pair.
pub open spec fn opt_column_view(r: Option<(String, String)>) -> Option<(Seq<char>, Seq<char>)> {
    match r {
        Some((a, b)) => Some((a@, b@)),
        None => None,
    }
}

/// Decodes an optional cell value into text, dropping values that are absent
/// or not valid UTF-8.
pub fn get_value(cell: Option<Vec<u8>>) -> (r: Option<String>)
    ensures
        opt_str_view(r) == value_text(opt_bytes_view(cell)),
{
    match cell {
        Some(v) => bytes_to_string(v.as_slice()),
        None => None,
    }
}

/// Parses a cell's column name and decodes its value in one step.
pub fn get_column_and_value(col: &Vec<u8>, cell: Option<Vec<u8>>) -> (r: Option<
    ((String, String), String),
>)
    ensures
        r is Some <==> column_parts(col@) is Some && value_text(opt_bytes_view(cell)) is Some,
        r matches Some(((f, q), v)) ==> Some((f@, q@)) == column_parts(col@) && Some(v@)
            == value_text(opt_bytes_view(cell)),
{
    let column = match get_column(col.as_slice()) {
        Some(c) => c,
        None => {
            return None;
        },
    };
    let value = match get_value(cell) {
        Some(v) => v,
        None => {
            return None;
        },
    };
    Some((column, value))
}

/// What storing text `val` under `family:qualifier` does to a partial order
/// record: a recognized pair sets its field, any other pair changes nothing.
pub open spec fn apply_field(
    b: OrderBuilderView,
    fam: Seq<char>,
    qual: Seq<char>,
    val: Seq<char>,
) -> OrderBuilderView {
    if fam == "info"@ && qual == "o_id"@ {
        OrderBuilderView { o_id: Some(val), ..b }
    } else if fam == "info"@ && qual == "state"@ {
        OrderBuilderView { state: Some(val), ..b }
    } else if fam == "ids"@ && qual == "c_id"@ {
        OrderBuilderView { c_id: Some(val), ..b }
    } else if fam == "ids"@ && qual == "r_id"@ {
        OrderBuilderView { r_id: Some(val), ..b }
    } else if fam == "addr"@ && qual == "c_addr"@ {
        OrderBuilderView { cust_addr: Some(val), ..b }
    } else if fam == "addr"@ && qual == "r_addr"@ {
        OrderBuilderView { rest_addr: Some(val), ..b }
    } else {
        b
    }
}

/// Writes one decoded cell into the builder according to the fixed
/// family/qualifier mapping; unrecognized pairs leave the builder unchanged.
pub fn set_order_field(field: (String, String), val: String, order_builder: &mut OrderBuilder)
    ensures
        final(order_builder)@ == apply_field(old(order_builder)@, field.0@, field.1@, val@),
{
    let fam = field.0.as_str();
    let qual = field.1.as_str();
    if str_eq(fam, "info") && str_eq(qual, "o_id") {
        order_builder.o_id = Some(val);
    } else if str_eq(fam, "info") && str_eq(qual, "state") {
        order_builder.state = Some(val);
    } else if str_eq(fam, "ids") && str_eq(qual, "c_id") {
        order_builder.c_id = Some(val);
    } else if str_eq(fam, "ids") && str_eq(qual, "r_id") {
        order_builder.r_id = Some(val);
    } else if str_eq(fam, "addr") && str_eq(qual, "c_addr") {
        order_builder.cust_addr = Some(val);
    } else if str_eq(fam, "addr") && str_eq(qual, "r_addr") {
        order_builder.rest_addr = Some(val);
    }
}

/// What one stored cell contributes to the builder: nothing when its column
/// name does not parse or its value does not decode, otherwise the effect of
/// the `(family, qualifier, value)` triple.
pub open spec fn apply_cell(b: OrderBuilderView, cell: StoreCellView) -> OrderBuilderView {
    match column_parts(cell.column) {
        Some(parts) => match value_text(cell.value) {
            Some(val) => apply_field(b, parts.0, parts.1, val),
            None => b,
        },
        None => b,
    }
}

/// Folds a sequence of stored cells into a builder, first cell first.
pub open spec fn builder_of_cells(b0: OrderBuilderView, cells: Seq<StoreCellView>) -> OrderBuilderView
    decreases cells.len(),
{
    if cells.len() == 0 {
        b0
    } else {
        builder_of_cells(apply_cell(b0, cells[0]), cells.drop_first())
    }
}

proof fn lemma_builder_of_cells_push(
    b0: OrderBuilderView,
    cells: Seq<StoreCellView>,
    cell: StoreCellView,
)
    ensures
        builder_of_cells(b0, cells.push(cell)) == apply_cell(builder_of_cells(b0, cells), cell),
    decreases cells.len(),
{
    reveal_with_fuel(builder_of_cells, 3);
    if cells.len() == 0 {
        assert(cells.push(cell)[0] == cell);
        assert(cells.push(cell).drop_first() =~= Seq::<StoreCellView>::empty());
        assert(builder_of_cells(b0, cells.push(cell)) == builder_of_cells(
            apply_cell(b0, cell),
            cells.push(cell).drop_first(),
        ));
    } else {
        assert(cells.push(cell)[0] == cells[0]);
        assert(cells.push(cell).drop_first() =~= cells.drop_first().push(cell));
        lemma_builder_of_cells_push(apply_cell(b0, cells[0]), cells.drop_first(), cell);
        assert(builder_of_cells(b0, cells.push(cell)) == builder_of_cells(
            apply_cell(b0, cells[0]),
            cells.drop_first().push(cell),
        ));
    }
}

/// What decoding a stored row yields: a row without a cell map decodes to the
/// empty builder; otherwise the builder starts from the row key as `o_id` and
/// folds every cell in order.
pub open spec fn row_to_builder(row: StoreRowView) -> OrderBuilderView {
    match row.columns {
        Some(cells) => {
            let b0 = OrderBuilderView {
                o_id: value_text(row.row),
                c_id: None,
                r_id: None,
                cust_addr: None,
                rest_addr: None,
                state: None,
            };
            builder_of_cells(b0, cells)
        },
        None => OrderBuilder::empty_view(),
    }
}

/// Clones raw value bytes.
fn clone_bytes(v: &Vec<u8>) -> (r: Vec<u8>)
    ensures
        r@ == v@,
{
    let r = v.clone();
    proof {
        assert(r@ =~= v@);
    }
    r
}

/// Decodes a stored row into a partial order record, skipping every cell
/// whose column name or value is unusable and every `(family, qualifier)`
/// pair outside the fixed column layout.
pub fn create_order_builder_from_hbase_row(hbase_row: &StoreRow) -> (r: OrderBuilder)
    ensures
        r@ == row_to_builder(hbase_row@),
{
    let mut order_builder = OrderBuilder::default();
    let cols = match &hbase_row.columns {
        Some(v) => v,
        None => {
            return order_builder;
        },
    };
    order_builder.o_id = match &hbase_row.row {
        Some(v) => bytes_to_string(v.as_slice()),
        None => None,
    };
    let ghost b0 = order_builder@;
    let ghost cells = hbase_row@.columns.unwrap();
    let n = cols.len();
    let mut idx: usize = 0;
    while idx < n
        invariant
            n == cols@.len(),
            cells.len() == n,
            forall|j: int| 0 <= j < n ==> cells[j] == #[trigger] cols@[j]@,
            idx <= n,
            order_builder@ == builder_of_cells(b0, cells.take(idx as int)),
        decreases n - idx,
    {
        let cell = &cols[idx];
        let value = match &cell.value {
            Some(v) => Some(clone_bytes(v)),
            None => None,
        };
        let ghost before = order_builder@;
        proof {
            assert(cell@ == cells[idx as int]);
            assert(opt_bytes_view(value) == cells[idx as int].value);
            assert(cell.column@ == cells[idx as int].column);
        }
        match get_column_and_value(&cell.column, value) {
            Some((column, val)) => {
                set_order_field(column, val, &mut order_builder);
            },
            None => {},
        }
        proof {
            assert(order_builder@ == apply_cell(before, cells[idx as int]));
            lemma_builder_of_cells_push(b0, cells.take(idx as int), cells[idx as int]);
            assert(cells.take(idx as int).push(cells[idx as int]) =~= cells.take(idx as int + 1));
        }
        idx = idx + 1;
    }
    proof {
        assert(cells.take(n as int) =~= cells);
    }
    order_builder
}

/// A cell holding UTF-8 text `value` under the UTF-8 column name `column`.
pub open spec fn text_cell(column: Seq<char>, value: Seq<char>) -> StoreCellView {
    StoreCellView { column: encode_utf8(column), value: Some(encode_utf8(value)) }
}

/// The stored form of an order: the row key carries `o_id`, and each field is
/// a UTF-8 text cell under its fixed `family:qualifier` column.
pub open spec fn row_of_order(o: OrderView) -> StoreRowView {
    StoreRowView {
        row: Some(encode_utf8(o.o_id)),
        columns: Some(
            seq![
                text_cell("info:o_id"@, o.o_id),
                text_cell("info:state"@, o.state),
                text_cell("ids:c_id"@, o.c_id),
                text_cell("ids:r_id"@, o.r_id),
                text_cell("addr:c_addr"@, o.cust_addr),
                text_cell("addr:r_addr"@, o.rest_addr),
            ],
        ),
    }
}

/// Builds one stored cell from a column name and a text value.
fn make_text_cell(column: &str, value: &str) -> (r: StoreCell)
    ensures
        r@ == text_cell(column@, value@),
{
    StoreCell { column: column.as_bytes_vec(), value: Some(value.as_bytes_vec()) }
}

/// Encodes an order into its stored row form.
pub fn order_to_row(order: &Order) -> (r: StoreRow)
    ensures
        r@ == row_of_order(order@),
{
    let mut cells: Vec<StoreCell> = Vec::new();
    cells.push(make_text_cell("info:o_id", order.o_id.as_str()));
    cells.push(make_text_cell("info:state", order.state.as_str()));
    cells.push(make_text_cell("ids:c_id", order.c_id.as_str()));
    cells.push(make_text_cell("ids:r_id", order.r_id.as_str()));
    cells.push(make_text_cell("addr:c_addr", order.cust_addr.as_str()));
    cells.push(make_text_cell("addr:r_addr", order.rest_addr.as_str()));
    let r = StoreRow { row: Some(order.o_id.as_str().as_bytes_vec()), columns: Some(cells) };
    proof {
        assert(r@.columns.unwrap() =~= row_of_order(order@).columns.unwrap());
    }
    r
}

/// A cell built from text whose column name splits as `(fam, qual)` has the
/// effect of that pair on the builder.
proof fn lemma_apply_text_cell(
    b: OrderBuilderView,
    column: Seq<char>,
    fam: Seq<char>,
    qual: Seq<char>,
    value: Seq<char>,
)
    requires
        split_single_colon(column) == Some((fam, qual)),
    ensures
        apply_cell(b, text_cell(column, value)) == apply_field(b, fam, qual, value),
{
    broadcast use vstd::utf8::encode_utf8_valid_utf8, vstd::utf8::encode_utf8_decode_utf8;

}

proof fn lemma_parts_info_o_id()
    ensures
        split_single_colon("info:o_id"@) == Some(("info"@, "o_id"@)),
{
    reveal_strlit("info:o_id");
    reveal_strlit("info");
    reveal_strlit("o_id");
    let cs = "info:o_id"@;
    assert(is_single_colon_split(cs, 4));
    lemma_split_single_colon(cs, 4);
    assert(cs.take(4) =~= "info"@);
    assert(cs.skip(5) =~= "o_id"@);
}

proof fn lemma_parts_info_state()
    ensures
        split_single_colon("info:state"@) == Some(("info"@, "state"@)),
{
    reveal_strlit("info:state");
    reveal_strlit("info");
    reveal_strlit("state");
    let cs = "info:state"@;
    assert(is_single_colon_split(cs, 4));
    lemma_split_single_colon(cs, 4);
    assert(cs.take(4) =~= "info"@);
    assert(cs.skip(5) =~= "state"@);
}

proof fn lemma_parts_ids_c_id()
    ensures
        split_single_colon("ids:c_id"@) == Some(("ids"@, "c_id"@)),
{
    reveal_strlit("ids:c_id");
    reveal_strlit("ids");
    reveal_strlit("c_id");
    let cs = "ids:c_id"@;
    assert(is_single_colon_split(cs, 3));
    lemma_split_single_colon(cs, 3);
    assert(cs.take(3) =~= "ids"@);
    assert(cs.skip(4) =~= "c_id"@);
}

proof fn lemma_parts_ids_r_id()
    ensures
        split_single_colon("ids:r_id"@) == Some(("ids"@, "r_id"@)),
{
    reveal_strlit("ids:r_id");
    reveal_strlit("ids");
    reveal_strlit("r_id");
    let cs = "ids:r_id"@;
    assert(is_single_colon_split(cs, 3));
    lemma_split_single_colon(cs, 3);
    assert(cs.take(3) =~= "ids"@);
    assert(cs.skip(4) =~= "r_id"@);
}

proof fn lemma_parts_addr_c_addr()
    ensures
        split_single_colon("addr:c_addr"@) == Some(("addr"@, "c_addr"@)),
{
    reveal_strlit("addr:c_addr");
    reveal_strlit("addr");
    reveal_strlit("c_addr");
    let cs = "addr:c_addr"@;
    assert(is_single_colon_split(cs, 4));
    lemma_split_single_colon(cs, 4);
    assert(cs.take(4) =~= "addr"@);
    assert(cs.skip(5) =~= "c_addr"@);
}

proof fn lemma_parts_addr_r_addr()
    ensures
        split_single_colon("addr:r_addr"@) == Some(("addr"@, "r_addr"@)),
{
    reveal_strlit("addr:r_addr");
    reveal_strlit("addr");
    reveal_strlit("r_addr");
    let cs = "addr:r_addr"@;
    assert(is_single_colon_split(cs, 4));
    lemma_split_single_colon(cs, 4);
    assert(cs.take(4) =~= "addr"@);
    assert(cs.skip(5) =~= "r_addr"@);
}

/// Encoding an order into its stored row and decoding that row back yields
/// the original order: the row codec loses nothing.
#[verifier::rlimit(60)]
#[verifier::spinoff_prover]
pub proof fn lemma_order_row_round_trip(o: OrderView)
    ensures
        order_build(row_to_builder(row_of_order(o))) == Some(o),
{
    broadcast use vstd::utf8::encode_utf8_valid_utf8, vstd::utf8::encode_utf8_decode_utf8;

    reveal_with_fuel(builder_of_cells, 8);
    reveal_strlit("info");
    reveal_strlit("ids");
    reveal_strlit("addr");
    reveal_strlit("o_id");
    reveal_strlit("state");
    reveal_strlit("c_id");
    reveal_strlit("r_id");
    reveal_strlit("c_addr");
    reveal_strlit("r_addr");

    let row = row_of_order(o);
    let cells = row.columns.unwrap();
    let b0 = OrderBuilderView {
        o_id: value_text(row.row),
        c_id: None,
        r_id: None,
        cust_addr: None,
        rest_addr: None,
        state: None,
    };
    assert(b0.o_id == Some(o.o_id));

    let b1 = apply_cell(b0, cells[0]);
    lemma_parts_info_o_id();
    lemma_apply_text_cell(b0, "info:o_id"@, "info"@, "o_id"@, o.o_id);
    assert(b1 == apply_field(b0, "info"@, "o_id"@, o.o_id));

    let b2 = apply_cell(b1, cells[1]);
    lemma_parts_info_state();
    lemma_apply_text_cell(b1, "info:state"@, "info"@, "state"@, o.state);
    assert("state"@.len() == 5 && "o_id"@.len() == 4);
    assert("state"@ != "o_id"@);
    assert(b2 == apply_field(b1, "info"@, "state"@, o.state));

    let b3 = apply_cell(b2, cells[2]);
    lemma_parts_ids_c_id();
    lemma_apply_text_cell(b2, "ids:c_id"@, "ids"@, "c_id"@, o.c_id);
    assert("ids"@.len() == 3 && "info"@.len() == 4);
    assert("ids"@ != "info"@);
    assert(b3 == apply_field(b2, "ids"@, "c_id"@, o.c_id));

    let b4 = apply_cell(b3, cells[3]);
    lemma_parts_ids_r_id();
    lemma_apply_text_cell(b3, "ids:r_id"@, "ids"@, "r_id"@, o.r_id);
    assert("r_id"@[0] == 'r' && "c_id"@[0] == 'c');
    assert("r_id"@ != "c_id"@);
    assert(b4 == apply_field(b3, "ids"@, "r_id"@, o.r_id));

    let b5 = apply_cell(b4, cells[4]);
    lemma_parts_addr_c_addr();
    lemma_apply_text_cell(b4, "addr:c_addr"@, "addr"@, "c_addr"@, o.cust_addr);
    assert("addr"@[0] == 'a' && "info"@[0] == 'i');
    assert("addr"@ != "info"@);
    assert("addr"@.len() == 4 && "ids"@.len() == 3);
    assert("addr"@ != "ids"@);
    assert(b5 == apply_field(b4, "addr"@, "c_addr"@, o.cust_addr));

    let b6 = apply_cell(b5, cells[5]);
    lemma_parts_addr_r_addr();
    lemma_apply_text_cell(b5, "addr:r_addr"@, "addr"@, "r_addr"@, o.rest_addr);
    assert("r_addr"@[0] == 'r' && "c_addr"@[0] == 'c');
    assert("r_addr"@ != "c_addr"@);
    assert(b6 == apply_field(b5, "addr"@, "r_addr"@, o.rest_addr));

    assert(builder_of_cells(b0, cells) == b6);
    assert(b6.o_id == Some(o.o_id));
    assert(b6.state == Some(o.state));
    assert(b6.c_id == Some(o.c_id));
    assert(b6.r_id == Some(o.r_id));
    assert(b6.cust_addr == Some(o.cust_addr));
    assert(b6.rest_addr == Some(o.rest_addr));
}

/// The `(family, qualifier)` pairs of the fixed column layout.
pub open spec fn recognized_pair(fam: Seq<char>, qual: Seq<char>) -> bool {
    ||| (fam == "info"@ && qual == "o_id"@)
    ||| (fam == "info"@ && qual == "state"@)
    ||| (fam == "ids"@ && qual == "c_id"@)
    ||| (fam == "ids"@ && qual == "r_id"@)
    ||| (fam == "addr"@ && qual == "c_addr"@)
    ||| (fam == "addr"@ && qual == "r_addr"@)
}

/// True when a stored cell contributes to decoding: its column name parses,
/// its value decodes, and the pair belongs to the fixed column layout.
pub open spec fn cell_effective(cell: StoreCellView) -> bool {
    match column_parts(cell.column) {
        Some(parts) => value_text(cell.value) is Some && recognized_pair(parts.0, parts.1),
        None => false,
    }
}

proof fn lemma_apply_cell_noop(b: OrderBuilderView, cell: StoreCellView)
    requires
        !cell_effective(cell),
    ensures
        apply_cell(b, cell) == b,
{
}

/// A cell that contributes nothing — an unrecognized `family:qualifier`
/// pair, an unparsable column name, or an unusable value — can be removed
/// from a row without changing what the row decodes to.
pub proof fn lemma_ignored_cell_dropped(
    b0: OrderBuilderView,
    cells: Seq<StoreCellView>,
    i: int,
)
    requires
        0 <= i < cells.len(),
        !cell_effective(cells[i]),
    ensures
        builder_of_cells(b0, cells.remove(i)) == builder_of_cells(b0, cells),
    decreases cells.len(),
{
    reveal_with_fuel(builder_of_cells, 2);
    if i == 0 {
        assert(cells.remove(0) =~= cells.drop_first());
        lemma_apply_cell_noop(b0, cells[0]);
    } else {
        assert(cells.remove(i)[0] == cells[0]);
        assert(cells.remove(i).drop_first() =~= cells.drop_first().remove(i - 1));
        lemma_ignored_cell_dropped(apply_cell(b0, cells[0]), cells.drop_first(), i - 1);
    }
}

/// The text of a single-column-value filter over the given family, qualifier,
/// comparison operator and value.
pub open spec fn filter_text(
    colfam: Seq<char>,
    col: Seq<char>,
    operator: Seq<char>,
    value: Seq<char>,
) -> Seq<char> {
    "SingleColumnValueFilter('"@ + colfam + "', '"@ + col + "', "@ + operator + ", 'binaryprefix:"@
        + value + "')"@
}

/// Renders a server-side single-column-value filter expression.
pub fn build_single_column_filter(colfam: &str, col: &str, operator: &str, value: &str) -> (r:
    String)
    ensures
        r@ == filter_text(colfam@, col@, operator@, value@),
{
    let r = String::from_str("SingleColumnValueFilter('");
    let r = r.concat(colfam);
    let r = r.concat("', '");
    let r = r.concat(col);
    let r = r.concat("', ");
    let r = r.concat(operator);
    let r = r.concat(", 'binaryprefix:");
    let r = r.concat(value);
    let r = r.concat("')");
    r
}

#[verifier::external_type_specification]
#[verifier::external_body]
pub struct ExTScan(hbase_thrift::hbase::TScan);

/// What the `columns` field of a scan request holds.
pub uninterp spec fn scan_columns(scan: hbase_thrift::hbase::TScan) -> Option<Seq<Seq<u8>>>;

/// What the `filter_string` field of a scan request holds.
pub uninterp spec fn scan_filter_string(scan: hbase_thrift::hbase::TScan) -> Option<Seq<u8>>;

/// The view of a list of raw column names.
pub open spec fn byte_rows_view(v: Seq<Vec<u8>>) -> Seq<Seq<u8>> {
    Seq::new(v.len(), |i: int| v[i]@)
}

/// Relies on constructing `hbase_thrift::hbase::TScan` and on `String`'s
/// conversion into its UTF-8 bytes: the request carries exactly the given
/// columns and filter text, with the fixed scan policy (no row bounds, no
/// timestamp, no caching, batch size zero, unsorted, forward, no block
/// cache) in its remaining fields.
#[verifier::external_body]
fn make_tscan(columns: Vec<Vec<u8>>, filter: String) -> (r: hbase_thrift::hbase::TScan)
    ensures
        scan_columns(r) == Some(byte_rows_view(columns@)),
        scan_filter_string(r) == Some(vstd::utf8::encode_utf8(filter@)),
{
    hbase_thrift::hbase::TScan {
        columns: Some(columns),
        filter_string: Some(filter.into()),
        start_row: None,
        stop_row: None,
        timestamp: None,
        caching: None,
        batch_size: Some(0),
        sort_columns: Some(false),
        reversed: Some(false),
        cache_blocks: Some(false),
    }
}

/// Builds the scan request that fetches the given columns of every row
/// whose `filter_colfam:filter_col` cell equals `filter_val`: it carries
/// exactly the given columns and the rendered equality filter.
pub fn create_scan(
    columns_to_fetch: Vec<Vec<u8>>,
    filter_colfam: &str,
    filter_col: &str,
    filter_val: &str,
) -> (r: hbase_thrift::hbase::TScan)
    ensures
        scan_columns(r) == Some(byte_rows_view(columns_to_fetch@)),
        scan_filter_string(r) == Some(
            vstd::utf8::encode_utf8(filter_text(filter_colfam@, filter_col@, "="@, filter_val@)),
        ),
{
    let filter = build_single_column_filter(filter_colfam, filter_col, "=", filter_val);
    make_tscan(columns_to_fetch, filter)
}

} // verus!
