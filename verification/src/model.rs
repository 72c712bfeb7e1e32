//! The in-memory model of a query result set: column descriptors, typed
//! nullable cells, and rows, together with the ghost-level models that the
//! encoding contracts are stated over.

use vstd::prelude::*;

verus! {

/// Numeric type identifier of a boolean column.
pub const TYPE_BOOL: u32 = 16;

/// Numeric type identifier of a 64-bit integer column.
pub const TYPE_INT8: u32 = 20;

/// Numeric type identifier of a 16-bit integer column.
pub const TYPE_INT2: u32 = 21;

/// Numeric type identifier of a 32-bit integer column.
pub const TYPE_INT4: u32 = 23;

/// Numeric type identifier of a 32-bit floating-point column.
pub const TYPE_FLOAT4: u32 = 700;

/// Numeric type identifier of a 64-bit floating-point column.
pub const TYPE_FLOAT8: u32 = 701;

/// One cell of a result row. A floating-point cell carries the raw
/// IEEE-754 bit pattern, so that the encoder works on plain integers; any
/// value of a type the encoder has no fixed shape for is carried as the
/// UTF-8 bytes of its textual representation.
#[derive(Clone, PartialEq, Eq, Debug)]
pub enum CellValue {
    Null,
    Bool(bool),
    Int2(i16),
    Int4(i32),
    Int8(i64),
    Float4(u32),
    Float8(u64),
    Text(Vec<u8>),
}

/// Ghost model of a cell.
pub enum CellModel {
    Null,
    Bool(bool),
    Int2(i16),
    Int4(i32),
    Int8(i64),
    Float4(u32),
    Float8(u64),
    Text(Seq<u8>),
}

impl View for CellValue {
    type V = CellModel;

    open spec fn view(&self) -> CellModel {
        match self {
            CellValue::Null => CellModel::Null,
            CellValue::Bool(b) => CellModel::Bool(*b),
            CellValue::Int2(v) => CellModel::Int2(*v),
            CellValue::Int4(v) => CellModel::Int4(*v),
            CellValue::Int8(v) => CellModel::Int8(*v),
            CellValue::Float4(v) => CellModel::Float4(*v),
            CellValue::Float8(v) => CellModel::Float8(*v),
            CellValue::Text(v) => CellModel::Text(v@),
        }
    }
}

impl DeepView for CellValue {
    type V = CellModel;

    open spec fn deep_view(&self) -> CellModel {
        self.view()
    }
}

/// Name and type identifier of one result column, in result-set order.
#[derive(Clone, PartialEq, Eq, Debug)]
pub struct ColumnDescriptor {
    /// UTF-8 bytes of the column name, not NUL-terminated.
    pub name: Vec<u8>,
    /// The driver's numeric identifier of the column type.
    pub type_id: u32,
}

/// Ghost model of a column descriptor.
pub struct ColumnModel {
    pub name: Seq<u8>,
    pub type_id: u32,
}

impl View for ColumnDescriptor {
    type V = ColumnModel;

    open spec fn view(&self) -> ColumnModel {
        ColumnModel { name: self.name@, type_id: self.type_id }
    }
}

impl DeepView for ColumnDescriptor {
    type V = ColumnModel;

    open spec fn deep_view(&self) -> ColumnModel {
        self.view()
    }
}

/// One row of a result set: its cells, in column order.
#[derive(Clone, PartialEq, Eq, Debug)]
pub struct Row {
    pub cells: Vec<CellValue>,
}

impl View for Row {
    type V = Seq<CellModel>;

    open spec fn view(&self) -> Seq<CellModel> {
        self.cells.deep_view()
    }
}

impl DeepView for Row {
    type V = Seq<CellModel>;

    open spec fn deep_view(&self) -> Seq<CellModel> {
        self.view()
    }
}

/// The payload of a name or text cell must carry its length in a 32-bit
/// prefix on the wire.
pub open spec fn wf_column(c: ColumnModel) -> bool {
    c.name.len() <= u32::MAX
}

/// A text cell's bytes must fit behind a 32-bit length prefix.
pub open spec fn wf_cell(c: CellModel) -> bool {
    match c {
        CellModel::Text(b) => b.len() <= u32::MAX,
        _ => true,
    }
}

/// Whether a cell's value has the shape its column's type identifier
/// declares. A null cell matches every column.
pub open spec fn cell_matches(type_id: u32, c: CellModel) -> bool {
    match c {
        CellModel::Null => true,
        CellModel::Bool(_) => type_id == TYPE_BOOL,
        CellModel::Int2(_) => type_id == TYPE_INT2,
        CellModel::Int4(_) => type_id == TYPE_INT4,
        CellModel::Int8(_) => type_id == TYPE_INT8,
        CellModel::Float4(_) => type_id == TYPE_FLOAT4,
        CellModel::Float8(_) => type_id == TYPE_FLOAT8,
        CellModel::Text(_) => type_id != TYPE_BOOL && type_id != TYPE_INT2 && type_id != TYPE_INT4
            && type_id != TYPE_INT8 && type_id != TYPE_FLOAT4 && type_id != TYPE_FLOAT8,
    }
}

/// Counts and lengths of the result set fit the 32-bit fields of the wire
/// format, and every row has one cell per column.
pub open spec fn wf_result_set(rows: Seq<Seq<CellModel>>, cols: Seq<ColumnModel>) -> bool {
    &&& rows.len() <= u32::MAX
    &&& cols.len() <= u32::MAX
    &&& forall|j: int| 0 <= j < cols.len() ==> wf_column(#[trigger] cols[j])
    &&& forall|i: int| 0 <= i < rows.len() ==> (#[trigger] rows[i]).len() == cols.len()
    &&& forall|i: int, j: int|
        0 <= i < rows.len() && 0 <= j < rows[i].len() ==> wf_cell(#[trigger] rows[i][j])
}

/// Every cell of the result set has the shape its column declares: the
/// encoding of such a set never truncates a cell.
pub open spec fn typed_result_set(rows: Seq<Seq<CellModel>>, cols: Seq<ColumnModel>) -> bool {
    forall|i: int, j: int|
        0 <= i < rows.len() && 0 <= j < cols.len() && j < rows[i].len() ==> cell_matches(
            cols[j].type_id,
            #[trigger] rows[i][j],
        )
}

} // verus!
