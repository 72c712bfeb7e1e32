//! The wire encoding of a result set: a `u32` row count; if any rows
//! follow, a `u32` column count, the column descriptors (length-prefixed
//! name bytes and a type identifier), and then every row's cells in column
//! order, each as a null flag optionally followed by a type-shaped
//! payload. All integers are little-endian.

use vstd::prelude::*;
use vstd::bytes::{
    spec_u16_to_le_bytes, spec_u32_to_le_bytes, spec_u64_to_le_bytes, u16_to_le_bytes,
    u32_to_le_bytes, u64_to_le_bytes,
};
use vstd::slice::slice_to_vec;
use crate::model::{
    CellModel, CellValue, ColumnDescriptor, ColumnModel, Row, TYPE_BOOL, TYPE_FLOAT4, TYPE_FLOAT8,
    TYPE_INT2, TYPE_INT4, TYPE_INT8, wf_cell, wf_column, wf_result_set,
};

verus! {

/// Whether a type identifier names one of the fixed-shape payloads; any
/// other type is carried as length-prefixed text.
pub open spec fn spec_known_type(type_id: u32) -> bool {
    type_id == TYPE_BOOL || type_id == TYPE_INT2 || type_id == TYPE_INT4 || type_id == TYPE_INT8
        || type_id == TYPE_FLOAT4 || type_id == TYPE_FLOAT8
}

/// The payload bytes of a non-null cell under the column type `type_id`.
/// A cell whose shape disagrees with its column contributes no payload at
/// all, exactly as a failed typed read leaves the output untouched.
pub open spec fn spec_cell_payload(type_id: u32, c: CellModel) -> Seq<u8> {
    match c {
        CellModel::Null => Seq::empty(),
        CellModel::Bool(b) => if type_id == TYPE_BOOL {
            seq![if b {
                    1u8
                } else {
                    0u8
                }]
        } else {
            Seq::empty()
        },
        CellModel::Int2(v) => if type_id == TYPE_INT2 {
            spec_u16_to_le_bytes(v as u16)
        } else {
            Seq::empty()
        },
        CellModel::Int4(v) => if type_id == TYPE_INT4 {
            spec_u32_to_le_bytes(v as u32)
        } else {
            Seq::empty()
        },
        CellModel::Int8(v) => if type_id == TYPE_INT8 {
            spec_u64_to_le_bytes(v as u64)
        } else {
            Seq::empty()
        },
        CellModel::Float4(bits) => if type_id == TYPE_FLOAT4 {
            spec_u32_to_le_bytes(bits)
        } else {
            Seq::empty()
        },
        CellModel::Float8(bits) => if type_id == TYPE_FLOAT8 {
            spec_u64_to_le_bytes(bits)
        } else {
            Seq::empty()
        },
        CellModel::Text(b) => if !spec_known_type(type_id) {
            spec_u32_to_le_bytes(b.len() as u32) + b
        } else {
            Seq::empty()
        },
    }
}

/// One encoded cell: the null flag, then the payload if the cell is
/// present.
pub open spec fn spec_encode_cell(type_id: u32, c: CellModel) -> Seq<u8> {
    match c {
        CellModel::Null => seq![1u8],
        _ => seq![0u8] + spec_cell_payload(type_id, c),
    }
}

/// One encoded column descriptor: name length, name bytes, type
/// identifier.
pub open spec fn spec_encode_column(c: ColumnModel) -> Seq<u8> {
    spec_u32_to_le_bytes(c.name.len() as u32) + c.name + spec_u32_to_le_bytes(c.type_id)
}

/// The encoded descriptors of the columns from index `k` on.
pub open spec fn spec_encode_columns_from(cols: Seq<ColumnModel>, k: int) -> Seq<u8>
    decreases cols.len() - k,
{
    if 0 <= k && k < cols.len() {
        spec_encode_column(cols[k]) + spec_encode_columns_from(cols, k + 1)
    } else {
        Seq::empty()
    }
}

/// The encoded descriptors of all columns.
pub open spec fn spec_encode_columns(cols: Seq<ColumnModel>) -> Seq<u8> {
    spec_encode_columns_from(cols, 0)
}

/// The encoded cells of one row from index `k` on, each under its
/// column's type.
pub open spec fn spec_encode_row_from(cells: Seq<CellModel>, cols: Seq<ColumnModel>, k: int) -> Seq<
    u8,
>
    decreases cells.len() - k,
{
    if 0 <= k && k < cells.len() && k < cols.len() {
        spec_encode_cell(cols[k].type_id, cells[k]) + spec_encode_row_from(cells, cols, k + 1)
    } else {
        Seq::empty()
    }
}

/// The encoded cells of one row.
pub open spec fn spec_encode_row(cells: Seq<CellModel>, cols: Seq<ColumnModel>) -> Seq<u8> {
    spec_encode_row_from(cells, cols, 0)
}

/// The encoded rows from index `k` on.
pub open spec fn spec_encode_rows_from(
    rows: Seq<Seq<CellModel>>,
    cols: Seq<ColumnModel>,
    k: int,
) -> Seq<u8>
    decreases rows.len() - k,
{
    if 0 <= k && k < rows.len() {
        spec_encode_row(rows[k], cols) + spec_encode_rows_from(rows, cols, k + 1)
    } else {
        Seq::empty()
    }
}

/// The encoded rows of the whole result set.
pub open spec fn spec_encode_rows(rows: Seq<Seq<CellModel>>, cols: Seq<ColumnModel>) -> Seq<u8> {
    spec_encode_rows_from(rows, cols, 0)
}

/// The complete wire image of a result set. An empty set is exactly the
/// four bytes of a zero row count; otherwise the column section and the
/// row section follow.
pub open spec fn spec_encode(rows: Seq<Seq<CellModel>>, cols: Seq<ColumnModel>) -> Seq<u8> {
    if rows.len() == 0 {
        spec_u32_to_le_bytes(0)
    } else {
        spec_u32_to_le_bytes(rows.len() as u32) + spec_u32_to_le_bytes(cols.len() as u32)
            + spec_encode_columns(cols) + spec_encode_rows(rows, cols)
    }
}

/// Encoding an empty result set yields exactly the four bytes of a zero
/// row count, whatever the columns are.
pub proof fn lemma_encode_empty(cols: Seq<ColumnModel>)
    ensures
        spec_encode(Seq::empty(), cols) == spec_u32_to_le_bytes(0),
        spec_encode(Seq::empty(), cols).len() == 4,
{
    vstd::bytes::lemma_auto_spec_u32_to_from_le_bytes();
}

fn push_u16_le(out: &mut Vec<u8>, v: u16)
    ensures
        final(out)@ == old(out)@ + spec_u16_to_le_bytes(v),
{
    let mut b = u16_to_le_bytes(v);
    out.append(&mut b);
}

fn push_u32_le(out: &mut Vec<u8>, v: u32)
    ensures
        final(out)@ == old(out)@ + spec_u32_to_le_bytes(v),
{
    let mut b = u32_to_le_bytes(v);
    out.append(&mut b);
}

fn push_u64_le(out: &mut Vec<u8>, v: u64)
    ensures
        final(out)@ == old(out)@ + spec_u64_to_le_bytes(v),
{
    let mut b = u64_to_le_bytes(v);
    out.append(&mut b);
}

fn push_bytes(out: &mut Vec<u8>, data: &[u8])
    ensures
        final(out)@ == old(out)@ + data@,
{
    let mut copy = slice_to_vec(data);
    out.append(&mut copy);
}

#[verifier::loop_isolation(false)]
fn encode_cell(out: &mut Vec<u8>, type_id: u32, cell: &CellValue)
    requires
        wf_cell(cell@),
    ensures
        final(out)@ == old(out)@ + spec_encode_cell(type_id, cell@),
{
    match cell {
        CellValue::Null => {
            out.push(1u8);
            proof {
                assert(out@ =~= old(out)@ + spec_encode_cell(type_id, cell@));
            }
        },
        CellValue::Bool(b) => {
            out.push(0u8);
            if type_id == TYPE_BOOL {
                out.push(
                    if *b {
                        1u8
                    } else {
                        0u8
                    },
                );
            }
            proof {
                assert(out@ =~= old(out)@ + spec_encode_cell(type_id, cell@));
            }
        },
        CellValue::Int2(v) => {
            out.push(0u8);
            if type_id == TYPE_INT2 {
                push_u16_le(out, *v as u16);
            }
            proof {
                assert(out@ =~= old(out)@ + spec_encode_cell(type_id, cell@));
            }
        },
        CellValue::Int4(v) => {
            out.push(0u8);
            if type_id == TYPE_INT4 {
                push_u32_le(out, *v as u32);
            }
            proof {
                assert(out@ =~= old(out)@ + spec_encode_cell(type_id, cell@));
            }
        },
        CellValue::Int8(v) => {
            out.push(0u8);
            if type_id == TYPE_INT8 {
                push_u64_le(out, *v as u64);
            }
            proof {
                assert(out@ =~= old(out)@ + spec_encode_cell(type_id, cell@));
            }
        },
        CellValue::Float4(bits) => {
            out.push(0u8);
            if type_id == TYPE_FLOAT4 {
                push_u32_le(out, *bits);
            }
            proof {
                assert(out@ =~= old(out)@ + spec_encode_cell(type_id, cell@));
            }
        },
        CellValue::Float8(bits) => {
            out.push(0u8);
            if type_id == TYPE_FLOAT8 {
                push_u64_le(out, *bits);
            }
            proof {
                assert(out@ =~= old(out)@ + spec_encode_cell(type_id, cell@));
            }
        },
        CellValue::Text(b) => {
            out.push(0u8);
            if !(type_id == TYPE_BOOL || type_id == TYPE_INT2 || type_id == TYPE_INT4 || type_id
                == TYPE_INT8 || type_id == TYPE_FLOAT4 || type_id == TYPE_FLOAT8) {
                push_u32_le(out, b.len() as u32);
                push_bytes(out, b.as_slice());
            }
            proof {
                assert(out@ =~= old(out)@ + spec_encode_cell(type_id, cell@));
            }
        },
    }
}

#[verifier::loop_isolation(false)]
fn encode_column(out: &mut Vec<u8>, col: &ColumnDescriptor)
    requires
        wf_column(col@),
    ensures
        final(out)@ == old(out)@ + spec_encode_column(col@),
{
    push_u32_le(out, col.name.len() as u32);
    push_bytes(out, col.name.as_slice());
    push_u32_le(out, col.type_id);
    proof {
        assert(out@ =~= old(out)@ + spec_encode_column(col@));
    }
}

#[verifier::loop_isolation(false)]
fn encode_row(out: &mut Vec<u8>, row: &Row, columns: &Vec<ColumnDescriptor>)
    requires
        forall|j: int| 0 <= j < row@.len() ==> wf_cell(#[trigger] row@[j]),
    ensures
        final(out)@ == old(out)@ + spec_encode_row(row@, columns.deep_view()),
{
    let ghost cells = row@;
    let ghost cols = columns.deep_view();
    let n = if row.cells.len() < columns.len() {
        row.cells.len()
    } else {
        columns.len()
    };
    let mut j: usize = 0;
    while j < n
        invariant
            j <= n,
            out@ + spec_encode_row_from(cells, cols, j as int) == old(out)@ + spec_encode_row_from(
                cells,
                cols,
                0,
            ),
        decreases n - j,
    {
        proof {
            assert(row.cells@[j as int]@ == cells[j as int]);
            assert(columns@[j as int]@ == cols[j as int]);
        }
        encode_cell(out, columns[j].type_id, &row.cells[j]);
        proof {
            assert(out@ + spec_encode_row_from(cells, cols, j + 1) =~= old(out)@
                + spec_encode_row_from(cells, cols, 0));
        }
        j = j + 1;
    }
    proof {
        assert(spec_encode_row_from(cells, cols, n as int) =~= Seq::<u8>::empty());
        assert(out@ =~= old(out)@ + spec_encode_row(cells, cols));
    }
}

/// Serialize a result set into its wire image. The caller supplies the
/// rows and the column descriptors of the set; the counts and lengths
/// must fit the 32-bit fields of the format.
#[verifier::loop_isolation(false)]
pub fn serialize_rows_to_binary(rows: &Vec<Row>, columns: &Vec<ColumnDescriptor>) -> (out: Vec<u8>)
    requires
        wf_result_set(rows.deep_view(), columns.deep_view()),
    ensures
        out@ == spec_encode(rows.deep_view(), columns.deep_view()),
{
    let ghost grows = rows.deep_view();
    let ghost gcols = columns.deep_view();
    let mut out: Vec<u8> = Vec::new();
    push_u32_le(&mut out, rows.len() as u32);
    if rows.len() == 0 {
        return out;
    }
    push_u32_le(&mut out, columns.len() as u32);
    let ghost head = out@;
    let mut j: usize = 0;
    while j < columns.len()
        invariant
            j <= columns.len(),
            out@ + spec_encode_columns_from(gcols, j as int) == head + spec_encode_columns_from(
                gcols,
                0,
            ),
        decreases columns.len() - j,
    {
        proof {
            assert(columns@[j as int]@ == gcols[j as int]);
        }
        encode_column(&mut out, &columns[j]);
        proof {
            assert(out@ + spec_encode_columns_from(gcols, j + 1) =~= head
                + spec_encode_columns_from(gcols, 0));
        }
        j = j + 1;
    }
    proof {
        assert(spec_encode_columns_from(gcols, columns.len() as int) =~= Seq::<u8>::empty());
        assert(out@ =~= head + spec_encode_columns(gcols));
    }
    let ghost mid = out@;
    let mut i: usize = 0;
    while i < rows.len()
        invariant
            i <= rows.len(),
            out@ + spec_encode_rows_from(grows, gcols, i as int) == mid + spec_encode_rows_from(
                grows,
                gcols,
                0,
            ),
        decreases rows.len() - i,
    {
        proof {
            assert(rows@[i as int]@ == grows[i as int]);
        }
        encode_row(&mut out, &rows[i], columns);
        proof {
            assert(out@ + spec_encode_rows_from(grows, gcols, i + 1) =~= mid
                + spec_encode_rows_from(grows, gcols, 0));
        }
        i = i + 1;
    }
    proof {
        assert(spec_encode_rows_from(grows, gcols, rows.len() as int) =~= Seq::<u8>::empty());
        assert(out@ =~= spec_encode(grows, gcols));
    }
    out
}

} // verus!
