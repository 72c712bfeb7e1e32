//! Decoding is the exact inverse of encoding: a well-formed, well-typed
//! result set survives the trip onto the wire and back unchanged.

use vstd::prelude::*;
use vstd::bytes::{
    lemma_auto_spec_u16_to_from_le_bytes, lemma_auto_spec_u32_to_from_le_bytes,
    lemma_auto_spec_u64_to_from_le_bytes, spec_u32_to_le_bytes,
};
use crate::model::{CellModel, ColumnModel, cell_matches, wf_cell, wf_column, wf_result_set,
    typed_result_set};
use crate::encode::{
    spec_encode, spec_encode_cell, spec_encode_column, spec_encode_columns,
    spec_encode_columns_from, spec_encode_row, spec_encode_row_from, spec_encode_rows,
    spec_encode_rows_from,
};
use crate::decode::{
    dec_cell, dec_column, dec_columns, dec_row, dec_rows, dec_u32, dec_u8, spec_decode,
};

verus! {

proof fn lemma_subrange_split(s: Seq<u8>, i: int, a: Seq<u8>, b: Seq<u8>)
    requires
        0 <= i,
        i + a.len() + b.len() <= s.len(),
        s.subrange(i, i + a.len() + b.len()) == a + b,
    ensures
        s.subrange(i, i + a.len()) == a,
        s.subrange(i + a.len(), i + a.len() + b.len()) == b,
{
    let whole = s.subrange(i, i + a.len() + b.len());
    assert forall|x: int| 0 <= x < a.len() implies s.subrange(i, i + a.len())[x] == a[x] by {
        assert(whole[x] == (a + b)[x]);
    }
    assert(s.subrange(i, i + a.len()) =~= a);
    assert forall|x: int| 0 <= x < b.len() implies s.subrange(
        i + a.len(),
        i + a.len() + b.len(),
    )[x] == b[x] by {
        assert(whole[a.len() + x] == (a + b)[a.len() + x]);
    }
    assert(s.subrange(i + a.len(), i + a.len() + b.len()) =~= b);
}

proof fn lemma_dec_cell_inv(s: Seq<u8>, i: int, type_id: u32, c: CellModel)
    requires
        wf_cell(c),
        cell_matches(type_id, c),
        0 <= i,
        i + spec_encode_cell(type_id, c).len() <= s.len(),
        s.subrange(i, i + spec_encode_cell(type_id, c).len()) == spec_encode_cell(type_id, c),
    ensures
        dec_cell(s, i, type_id) == Some((c, i + spec_encode_cell(type_id, c).len())),
{
    lemma_auto_spec_u16_to_from_le_bytes();
    lemma_auto_spec_u32_to_from_le_bytes();
    lemma_auto_spec_u64_to_from_le_bytes();
    let e = spec_encode_cell(type_id, c);
    match c {
        CellModel::Null => {
            assert(s[i] == e[0]);
            assert(dec_u8(s, i) == Some((1u8, i + 1)));
        },
        CellModel::Bool(b) => {
            assert(s[i] == e[0]);
            assert(s[i + 1] == e[1]);
            assert(dec_u8(s, i) == Some((0u8, i + 1)));
            if b {
                assert(s[i + 1] == 1u8);
            } else {
                assert(s[i + 1] == 0u8);
            }
        },
        CellModel::Int2(v) => {
            assert(s[i] == e[0]);
            lemma_subrange_split(s, i, seq![0u8], vstd::bytes::spec_u16_to_le_bytes(v as u16));
            assert((v as u16) as i16 == v) by (bit_vector);
        },
        CellModel::Int4(v) => {
            assert(s[i] == e[0]);
            lemma_subrange_split(s, i, seq![0u8], vstd::bytes::spec_u32_to_le_bytes(v as u32));
            assert((v as u32) as i32 == v) by (bit_vector);
        },
        CellModel::Int8(v) => {
            assert(s[i] == e[0]);
            lemma_subrange_split(s, i, seq![0u8], vstd::bytes::spec_u64_to_le_bytes(v as u64));
            assert((v as u64) as i64 == v) by (bit_vector);
        },
        CellModel::Float4(bits) => {
            assert(s[i] == e[0]);
            lemma_subrange_split(s, i, seq![0u8], vstd::bytes::spec_u32_to_le_bytes(bits));
        },
        CellModel::Float8(bits) => {
            assert(s[i] == e[0]);
            lemma_subrange_split(s, i, seq![0u8], vstd::bytes::spec_u64_to_le_bytes(bits));
        },
        CellModel::Text(b) => {
            assert(s[i] == e[0]);
            let lenb = spec_u32_to_le_bytes(b.len() as u32);
            lemma_subrange_split(s, i, seq![0u8], lenb + b);
            lemma_subrange_split(s, i + 1, lenb, b);
            assert(dec_u32(s, i + 1) == Some((b.len() as u32, i + 5)));
            assert((b.len() as u32) as int == b.len());
            assert(s.subrange(i + 5, i + 5 + b.len()) == b);
        },
    }
}

proof fn lemma_dec_column_inv(s: Seq<u8>, i: int, c: ColumnModel)
    requires
        wf_column(c),
        0 <= i,
        i + spec_encode_column(c).len() <= s.len(),
        s.subrange(i, i + spec_encode_column(c).len()) == spec_encode_column(c),
    ensures
        dec_column(s, i) == Some((c, i + spec_encode_column(c).len())),
{
    lemma_auto_spec_u32_to_from_le_bytes();
    let lenb = spec_u32_to_le_bytes(c.name.len() as u32);
    let tidb = spec_u32_to_le_bytes(c.type_id);
    assert(spec_encode_column(c) =~= lenb + (c.name + tidb));
    lemma_subrange_split(s, i, lenb, c.name + tidb);
    lemma_subrange_split(s, i + 4, c.name, tidb);
    assert(dec_u32(s, i) == Some((c.name.len() as u32, i + 4)));
    assert((c.name.len() as u32) as int == c.name.len());
    assert(s.subrange(i + 4, i + 4 + c.name.len()) == c.name);
    assert(dec_u32(s, i + 4 + c.name.len()) == Some((c.type_id, i + 8 + c.name.len())));
}

proof fn lemma_dec_columns_inv(s: Seq<u8>, i: int, cols: Seq<ColumnModel>, k: int)
    requires
        0 <= k <= cols.len(),
        forall|j: int| 0 <= j < cols.len() ==> wf_column(#[trigger] cols[j]),
        0 <= i,
        i + spec_encode_columns_from(cols, k).len() <= s.len(),
        s.subrange(i, i + spec_encode_columns_from(cols, k).len()) == spec_encode_columns_from(
            cols,
            k,
        ),
    ensures
        dec_columns(s, i, (cols.len() - k) as nat) == Some(
            (cols.skip(k), i + spec_encode_columns_from(cols, k).len()),
        ),
    decreases cols.len() - k,
{
    if k == cols.len() {
        assert(cols.skip(k) =~= Seq::<ColumnModel>::empty());
    } else {
        let a = spec_encode_column(cols[k]);
        let b = spec_encode_columns_from(cols, k + 1);
        lemma_subrange_split(s, i, a, b);
        lemma_dec_column_inv(s, i, cols[k]);
        lemma_dec_columns_inv(s, i + a.len(), cols, k + 1);
        assert(seq![cols[k]] + cols.skip(k + 1) =~= cols.skip(k));
    }
}

proof fn lemma_dec_row_inv(s: Seq<u8>, i: int, cells: Seq<CellModel>, cols: Seq<ColumnModel>, k: int)
    requires
        0 <= k <= cols.len(),
        cells.len() == cols.len(),
        forall|j: int| 0 <= j < cells.len() ==> wf_cell(#[trigger] cells[j]),
        forall|j: int| 0 <= j < cells.len() ==> cell_matches(cols[j].type_id, #[trigger] cells[j]),
        0 <= i,
        i + spec_encode_row_from(cells, cols, k).len() <= s.len(),
        s.subrange(i, i + spec_encode_row_from(cells, cols, k).len()) == spec_encode_row_from(
            cells,
            cols,
            k,
        ),
    ensures
        dec_row(s, i, cols, k) == Some(
            (cells.skip(k), i + spec_encode_row_from(cells, cols, k).len()),
        ),
    decreases cols.len() - k,
{
    if k == cols.len() {
        assert(cells.skip(k) =~= Seq::<CellModel>::empty());
    } else {
        let a = spec_encode_cell(cols[k].type_id, cells[k]);
        let b = spec_encode_row_from(cells, cols, k + 1);
        lemma_subrange_split(s, i, a, b);
        lemma_dec_cell_inv(s, i, cols[k].type_id, cells[k]);
        lemma_dec_row_inv(s, i + a.len(), cells, cols, k + 1);
        assert(seq![cells[k]] + cells.skip(k + 1) =~= cells.skip(k));
    }
}

proof fn lemma_dec_rows_inv(
    s: Seq<u8>,
    i: int,
    rows: Seq<Seq<CellModel>>,
    cols: Seq<ColumnModel>,
    k: int,
)
    requires
        0 <= k <= rows.len(),
        forall|x: int| 0 <= x < rows.len() ==> (#[trigger] rows[x]).len() == cols.len(),
        forall|x: int, j: int|
            0 <= x < rows.len() && 0 <= j < rows[x].len() ==> wf_cell(#[trigger] rows[x][j]),
        forall|x: int, j: int|
            0 <= x < rows.len() && 0 <= j < rows[x].len() ==> cell_matches(
                cols[j].type_id,
                #[trigger] rows[x][j],
            ),
        0 <= i,
        i + spec_encode_rows_from(rows, cols, k).len() <= s.len(),
        s.subrange(i, i + spec_encode_rows_from(rows, cols, k).len()) == spec_encode_rows_from(
            rows,
            cols,
            k,
        ),
    ensures
        dec_rows(s, i, cols, (rows.len() - k) as nat) == Some(
            (rows.skip(k), i + spec_encode_rows_from(rows, cols, k).len()),
        ),
    decreases rows.len() - k,
{
    if k == rows.len() {
        assert(rows.skip(k) =~= Seq::<Seq<CellModel>>::empty());
    } else {
        let a = spec_encode_row(rows[k], cols);
        let b = spec_encode_rows_from(rows, cols, k + 1);
        lemma_subrange_split(s, i, a, b);
        lemma_dec_row_inv(s, i, rows[k], cols, 0);
        assert(rows[k].skip(0) =~= rows[k]);
        lemma_dec_rows_inv(s, i + a.len(), rows, cols, k + 1);
        assert(seq![rows[k]] + rows.skip(k + 1) =~= rows.skip(k));
    }
}

/// Round trip: decoding the encoding of any well-formed, well-typed
/// result set gives back exactly its rows and columns. The one shape this
/// cannot cover is an empty set with columns, whose encoding carries no
/// column section at all: there the decoder returns the empty set with no
/// columns.
pub proof fn lemma_round_trip(rows: Seq<Seq<CellModel>>, cols: Seq<ColumnModel>)
    requires
        wf_result_set(rows, cols),
        typed_result_set(rows, cols),
        rows.len() > 0 || cols.len() == 0,
    ensures
        spec_decode(spec_encode(rows, cols)) == Some((rows, cols)),
{
    lemma_auto_spec_u32_to_from_le_bytes();
    let s = spec_encode(rows, cols);
    if rows.len() == 0 {
        assert(s.subrange(0, 4) =~= spec_u32_to_le_bytes(0));
        assert(dec_u32(s, 0) == Some((0u32, 4int)));
        assert(rows =~= Seq::<Seq<CellModel>>::empty());
        assert(cols =~= Seq::<ColumnModel>::empty());
    } else {
        let rcb = spec_u32_to_le_bytes(rows.len() as u32);
        let ccb = spec_u32_to_le_bytes(cols.len() as u32);
        let ecols = spec_encode_columns(cols);
        let erows = spec_encode_rows(rows, cols);
        assert(s =~= rcb + (ccb + (ecols + erows)));
        assert(s.subrange(0, s.len() as int) =~= s);
        lemma_subrange_split(s, 0, rcb, ccb + (ecols + erows));
        lemma_subrange_split(s, 4, ccb, ecols + erows);
        lemma_subrange_split(s, 8, ecols, erows);
        assert(dec_u32(s, 0) == Some((rows.len() as u32, 4int)));
        assert(dec_u32(s, 4) == Some((cols.len() as u32, 8int)));
        assert((rows.len() as u32) as nat == rows.len());
        assert((cols.len() as u32) as nat == cols.len());
        assert(rows.len() as u32 != 0);
        lemma_dec_columns_inv(s, 8, cols, 0);
        assert(cols.skip(0) =~= cols);
        lemma_dec_rows_inv(s, 8 + ecols.len() as int, rows, cols, 0);
        assert(rows.skip(0) =~= rows);
        assert(8 + ecols.len() + erows.len() == s.len());
    }
}

} // verus!
