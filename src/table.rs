//! Table schema and raw rows, and the schema-directed decoder that turns raw
//! rows into rows of titled, typed cells.
use vstd::prelude::*;

use crate::cell::{strings_view, CellModel, NextcloudTableCell};

verus! {

/// The kind of a selection column.
#[derive(Debug, Clone, Copy, PartialEq, Eq, Structural)]
pub enum SelectionType {
    Single,
    Multi,
    Check,
}

impl Default for SelectionType {
    fn default() -> (r: Self)
        ensures
            r == SelectionType::Single,
    {
        SelectionType::Single
    }
}

/// One option of a selection column: a numeric id and its label.
#[derive(Debug, Clone)]
pub struct SelectionOptions {
    pub id: u64,
    pub label: String,
}

/// The definition of one column of a table.
#[derive(Debug, Clone)]
pub enum ColumnScheme {
    Text { id: u64, title: String },
    Selection {
        id: u64,
        title: String,
        subtype: SelectionType,
        selection_options: Vec<SelectionOptions>,
    },
}

/// One raw cell of a row, tied to its column by id only.
#[allow(inconsistent_fields)]
#[derive(Debug, Clone)]
pub enum ColumnData {
    List { column_id: u64, value: Vec<u64> },
    Number { column_id: u64, value: i64 },
    Text { column_id: u64, value: String },
}

/// One raw row of a table.
#[derive(Debug, Clone)]
pub struct Column {
    pub data: Vec<ColumnData>,
}

/// The schema of a table: its title and its columns.
#[derive(Debug, Clone)]
pub struct TableScheme {
    pub title: String,
    pub columns: Vec<ColumnScheme>,
}

/// The envelope in which the table service hands out a schema.
#[derive(Debug, Clone)]
pub struct SchemeResponse {
    pub data: TableScheme,
}

/// A decoded row: titled cells. Looking a title up finds the last cell
/// with that title, as a map built from these pairs in order would.
#[derive(Debug, Clone)]
pub struct DecodedRow {
    pub cells: Vec<(String, NextcloudTableCell)>,
}

/// Model of one decoded cell together with the title of its column.
pub open spec fn entry_view(p: (String, NextcloudTableCell)) -> (Seq<char>, CellModel) {
    (p.0@, p.1@)
}

/// Model of a sequence of decoded cells.
pub open spec fn cells_view(s: Seq<(String, NextcloudTableCell)>) -> Seq<(Seq<char>, CellModel)> {
    s.map_values(|p: (String, NextcloudTableCell)| entry_view(p))
}

impl View for DecodedRow {
    type V = Seq<(Seq<char>, CellModel)>;

    open spec fn view(&self) -> Seq<(Seq<char>, CellModel)> {
        cells_view(self.cells@)
    }
}

impl ColumnScheme {
    pub open spec fn spec_id(&self) -> u64 {
        match self {
            ColumnScheme::Text { id, .. } => *id,
            ColumnScheme::Selection { id, .. } => *id,
        }
    }

    /// The column's id.
    pub fn id(&self) -> (r: u64)
        ensures
            r == self.spec_id(),
    {
        match self {
            ColumnScheme::Text { id, .. } => *id,
            ColumnScheme::Selection { id, .. } => *id,
        }
    }
}

impl ColumnData {
    pub open spec fn spec_column_id(&self) -> u64 {
        match self {
            ColumnData::List { column_id, .. } => *column_id,
            ColumnData::Number { column_id, .. } => *column_id,
            ColumnData::Text { column_id, .. } => *column_id,
        }
    }

    /// The id of the column this cell belongs to.
    pub fn column_id(&self) -> (r: u64)
        ensures
            r == self.spec_column_id(),
    {
        match self {
            ColumnData::List { column_id, .. } | ColumnData::Number { column_id, .. } | ColumnData::Text {
                column_id,
                ..
            } => *column_id,
        }
    }
}

/// Position of the first column at or after `i` whose id is `id`.
pub open spec fn column_position(cols: Seq<ColumnScheme>, id: u64, i: int) -> Option<int>
    decreases cols.len() - i,
{
    if i < 0 || i >= cols.len() {
        None
    } else if cols[i].spec_id() == id {
        Some(i)
    } else {
        column_position(cols, id, i + 1)
    }
}

/// Label of the first option at or after `i` whose id is `key`.
pub open spec fn option_label(opts: Seq<SelectionOptions>, key: u64, i: int) -> Option<Seq<char>>
    decreases opts.len() - i,
{
    if i < 0 || i >= opts.len() {
        None
    } else if opts[i].id == key {
        Some(opts[i].label@)
    } else {
        option_label(opts, key, i + 1)
    }
}

/// The option id that a numeric payload stands for: its two's complement
/// bit pattern read as unsigned.
pub open spec fn number_key(v: i64) -> u64 {
    if v >= 0 {
        v as u64
    } else {
        (v + 0x1_0000_0000_0000_0000) as u64
    }
}

/// Labels of the ids that resolve against the options, in input order;
/// unresolved ids are skipped.
pub open spec fn multi_labels(opts: Seq<SelectionOptions>, ids: Seq<u64>) -> Seq<Seq<char>>
    decreases ids.len(),
{
    if ids.len() == 0 {
        Seq::empty()
    } else {
        let prev = multi_labels(opts, ids.drop_last());
        match option_label(opts, ids.last(), 0) {
            Some(l) => prev.push(l),
            None => prev,
        }
    }
}

/// How a raw cell decodes against the column it refers to.
pub open spec fn decode_against(col: ColumnScheme, c: ColumnData) -> Option<(Seq<char>, CellModel)> {
    match col {
        ColumnScheme::Text { title, .. } => match c {
            ColumnData::Text { value, .. } => Some((title@, CellModel::Str(value@))),
            _ => None,
        },
        ColumnScheme::Selection { title, subtype, selection_options, .. } => match c {
            ColumnData::Text { value, .. } => {
                if subtype == SelectionType::Check && value@ == "true"@ {
                    Some((title@, CellModel::Bool(true)))
                } else if subtype == SelectionType::Check && value@ == "false"@ {
                    Some((title@, CellModel::Bool(false)))
                } else {
                    None
                }
            },
            ColumnData::Number { value, .. } => {
                if subtype == SelectionType::Single {
                    match option_label(selection_options@, number_key(value), 0) {
                        Some(l) => Some((title@, CellModel::Str(l))),
                        None => None,
                    }
                } else {
                    None
                }
            },
            ColumnData::List { value, .. } => {
                if subtype == SelectionType::Multi {
                    Some((title@, CellModel::List(multi_labels(selection_options@, value@))))
                } else {
                    None
                }
            },
        },
    }
}

/// How a raw cell decodes against a schema: against the first column with
/// its id, and to nothing when there is none.
pub open spec fn decode_cell_spec(cols: Seq<ColumnScheme>, c: ColumnData) -> Option<(Seq<char>, CellModel)> {
    match column_position(cols, c.spec_column_id(), 0) {
        Some(k) => decode_against(cols[k], c),
        None => None,
    }
}

/// The decoded cells of a raw row, in the row's order.
pub open spec fn decode_row_spec(cols: Seq<ColumnScheme>, cells: Seq<ColumnData>) -> Seq<(Seq<char>, CellModel)>
    decreases cells.len(),
{
    if cells.len() == 0 {
        Seq::empty()
    } else {
        let prev = decode_row_spec(cols, cells.drop_last());
        match decode_cell_spec(cols, cells.last()) {
            Some(p) => prev.push(p),
            None => prev,
        }
    }
}

/// The title of a column.
pub open spec fn column_title(col: ColumnScheme) -> Seq<char> {
    match col {
        ColumnScheme::Text { title, .. } => title@,
        ColumnScheme::Selection { title, .. } => title@,
    }
}

/// The pairs of column kind and payload shape that decode to a cell: text in
/// a text column; `"true"` or `"false"` in a check column; a number naming
/// an option of a single-selection column; a list in a multi-selection column.
pub open spec fn recognized(col: ColumnScheme, c: ColumnData) -> bool {
    match (col, c) {
        (ColumnScheme::Text { .. }, ColumnData::Text { .. }) => true,
        (ColumnScheme::Selection { subtype, .. }, ColumnData::Text { value, .. }) => subtype
            == SelectionType::Check && (value@ == "true"@ || value@ == "false"@),
        (ColumnScheme::Selection { subtype, selection_options, .. }, ColumnData::Number { value, .. }) => subtype
            == SelectionType::Single && option_label(selection_options@, number_key(value), 0) is Some,
        (ColumnScheme::Selection { subtype, .. }, ColumnData::List { .. }) => subtype == SelectionType::Multi,
        _ => false,
    }
}

proof fn lemma_column_position(cols: Seq<ColumnScheme>, id: u64, i: int)
    requires
        0 <= i,
    ensures
        match column_position(cols, id, i) {
            Some(k) => i <= k < cols.len() && cols[k].spec_id() == id,
            None => true,
        },
    decreases cols.len() - i,
{
    if i < cols.len() {
        lemma_column_position(cols, id, i + 1);
    }
}

/// The decoded cell `e` comes from a raw cell of `cells` whose column, the
/// first of the schema with its id, and payload form a recognized pair, and
/// it carries that column's title.
pub open spec fn decoded_from(cols: Seq<ColumnScheme>, cells: Seq<ColumnData>, e: (Seq<char>, CellModel)) -> bool {
    exists|j: int, p: int|
        0 <= j < cells.len() && 0 <= p < cols.len() && column_position(cols, cells[j].spec_column_id(), 0) == Some(p)
            && recognized(cols[p], #[trigger] cells[j]) && decode_against(#[trigger] cols[p], cells[j]) == Some(e)
            && e.0 == column_title(cols[p])
}

/// No decoded cell is fabricated: every cell of a decoded row comes from a
/// raw cell of the row whose column kind and payload shape are recognized.
pub proof fn decode_totality(cols: Seq<ColumnScheme>, cells: Seq<ColumnData>)
    ensures
        forall|k: int|
            0 <= k < decode_row_spec(cols, cells).len() ==> decoded_from(
                cols,
                cells,
                #[trigger] decode_row_spec(cols, cells)[k],
            ),
    decreases cells.len(),
{
    if cells.len() > 0 {
        let prev = cells.drop_last();
        decode_totality(cols, prev);
        let out = decode_row_spec(cols, cells);
        let c = cells.last();
        lemma_column_position(cols, c.spec_column_id(), 0);
        assert forall|k: int| 0 <= k < out.len() implies decoded_from(cols, cells, #[trigger] out[k]) by {
            if k < decode_row_spec(cols, prev).len() {
                assert(out[k] == decode_row_spec(cols, prev)[k]);
                assert(decoded_from(cols, prev, out[k]));
                let (j, p) = choose|j: int, p: int|
                    0 <= j < prev.len() && 0 <= p < cols.len() && column_position(cols, prev[j].spec_column_id(), 0)
                        == Some(p) && recognized(cols[p], #[trigger] prev[j]) && decode_against(
                        #[trigger] cols[p],
                        prev[j],
                    ) == Some(out[k]) && out[k].0 == column_title(cols[p]);
                assert(cells[j] == prev[j]);
            } else {
                let p = column_position(cols, c.spec_column_id(), 0)->Some_0;
                assert(cells[cells.len() - 1] == c);
                assert(decode_against(cols[p], c) == Some(out[k]));
                assert(recognized(cols[p], cells[cells.len() - 1]));
            }
        }
    }
}

/// Model of an optional decoded cell.
pub open spec fn entry_opt_view(r: Option<(String, NextcloudTableCell)>) -> Option<(Seq<char>, CellModel)> {
    match r {
        Some(p) => Some(entry_view(p)),
        None => None,
    }
}

/// Finds the first column with the given id.
fn find_column(cols: &Vec<ColumnScheme>, id: u64) -> (r: Option<usize>)
    ensures
        match r {
            Some(k) => k < cols.len() && column_position(cols@, id, 0) == Some(k as int),
            None => column_position(cols@, id, 0) is None,
        },
{
    let mut i: usize = 0;
    while i < cols.len()
        invariant
            i <= cols.len(),
            column_position(cols@, id, 0) == column_position(cols@, id, i as int),
        decreases cols.len() - i,
    {
        if cols[i].id() == id {
            return Some(i);
        }
        i = i + 1;
    }
    None
}

/// Finds the label of the first option with the given id.
fn find_option(opts: &Vec<SelectionOptions>, key: u64) -> (r: Option<String>)
    ensures
        match r {
            Some(l) => option_label(opts@, key, 0) == Some(l@),
            None => option_label(opts@, key, 0) is None,
        },
{
    let mut i: usize = 0;
    while i < opts.len()
        invariant
            i <= opts.len(),
            option_label(opts@, key, 0) == option_label(opts@, key, i as int),
        decreases opts.len() - i,
    {
        if opts[i].id == key {
            return Some(opts[i].label.clone());
        }
        i = i + 1;
    }
    None
}

/// The option id that a numeric payload stands for.
fn key_of_number(v: i64) -> (r: u64)
    ensures
        r == number_key(v),
{
    if v >= 0 {
        v as u64
    } else {
        let m: i64 = -(v + 1);
        u64::MAX - (m as u64)
    }
}

/// Resolves each id against the options, skipping those that do not resolve.
fn resolve_labels(opts: &Vec<SelectionOptions>, ids: &Vec<u64>) -> (r: Vec<String>)
    ensures
        strings_view(r@) == multi_labels(opts@, ids@),
{
    let mut out: Vec<String> = Vec::new();
    let mut i: usize = 0;
    while i < ids.len()
        invariant
            i <= ids.len(),
            strings_view(out@) == multi_labels(opts@, ids@.subrange(0, i as int)),
        decreases ids.len() - i,
    {
        let ghost before = out@;
        assert(ids@.subrange(0, i as int + 1).drop_last() == ids@.subrange(0, i as int));
        match find_option(opts, ids[i]) {
            Some(l) => {
                out.push(l);
                assert(strings_view(out@) == strings_view(before).push(out@.last()@));
            },
            None => {},
        }
        i = i + 1;
    }
    assert(ids@.subrange(0, ids.len() as int) == ids@);
    out
}

/// Decodes one raw cell against a schema; `None` where its column is absent
/// or its payload does not fit the column's kind.
pub fn decode_cell(cols: &Vec<ColumnScheme>, c: &ColumnData) -> (r: Option<(String, NextcloudTableCell)>)
    ensures
        entry_opt_view(r) == decode_cell_spec(cols@, *c),
{
    let k = match find_column(cols, c.column_id()) {
        Some(k) => k,
        None => return None,
    };
    match &cols[k] {
        ColumnScheme::Text { title, .. } => match c {
            ColumnData::Text { value, .. } => Some((title.clone(), NextcloudTableCell::String(value.clone()))),
            _ => None,
        },
        ColumnScheme::Selection { title, subtype, selection_options, .. } => match c {
            ColumnData::Text { value, .. } => {
                let t = "true".to_owned();
                let f = "false".to_owned();
                if *subtype == SelectionType::Check && *value == t {
                    Some((title.clone(), NextcloudTableCell::Bool(true)))
                } else if *subtype == SelectionType::Check && *value == f {
                    Some((title.clone(), NextcloudTableCell::Bool(false)))
                } else {
                    None
                }
            },
            ColumnData::Number { value, .. } => {
                if *subtype == SelectionType::Single {
                    match find_option(selection_options, key_of_number(*value)) {
                        Some(l) => Some((title.clone(), NextcloudTableCell::String(l))),
                        None => None,
                    }
                } else {
                    None
                }
            },
            ColumnData::List { value, .. } => {
                if *subtype == SelectionType::Multi {
                    let labels = resolve_labels(selection_options, value);
                    Some((title.clone(), NextcloudTableCell::List(labels)))
                } else {
                    None
                }
            },
        },
    }
}

/// Decodes one raw row against a schema, dropping the cells that do not decode.
pub fn decode_row(cols: &Vec<ColumnScheme>, row: &Column) -> (r: DecodedRow)
    ensures
        r@ == decode_row_spec(cols@, row.data@),
{
    let mut cells: Vec<(String, NextcloudTableCell)> = Vec::new();
    let mut i: usize = 0;
    while i < row.data.len()
        invariant
            i <= row.data.len(),
            cells_view(cells@) == decode_row_spec(cols@, row.data@.subrange(0, i as int)),
        decreases row.data.len() - i,
    {
        assert(row.data@.subrange(0, i as int + 1).drop_last() == row.data@.subrange(0, i as int));
        let ghost before = cells@;
        match decode_cell(cols, &row.data[i]) {
            Some(p) => {
                let ghost gp = p;
                cells.push(p);
                assert(cells_view(cells@) == cells_view(before).push(entry_view(gp)));
            },
            None => {},
        }
        i = i + 1;
    }
    assert(row.data@.subrange(0, row.data.len() as int) == row.data@);
    DecodedRow { cells }
}

/// Decodes every raw row of a table against its schema, keeping row order.
pub fn parse_nextcloud_table(columns: Vec<Column>, scheme: SchemeResponse) -> (r: Vec<DecodedRow>)
    ensures
        r.len() == columns.len(),
        forall|i: int| 0 <= i < r.len() ==> (#[trigger] r[i])@ == decode_row_spec(scheme.data.columns@, columns[i].data@),
{
    let mut out: Vec<DecodedRow> = Vec::new();
    let mut i: usize = 0;
    while i < columns.len()
        invariant
            i <= columns.len(),
            out.len() == i,
            forall|j: int| 0 <= j < i ==> (#[trigger] out[j])@ == decode_row_spec(scheme.data.columns@, columns[j].data@),
        decreases columns.len() - i,
    {
        let row = decode_row(&scheme.data.columns, &columns[i]);
        out.push(row);
        i = i + 1;
    }
    out
}

} // verus!
