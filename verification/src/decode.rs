//! The exact inverse of the wire encoding: parse a byte image back into
//! rows and column descriptors, rejecting truncated or malformed buffers
//! instead of reading past the declared length.

use vstd::prelude::*;
use vstd::bytes::{
    spec_u16_from_le_bytes, spec_u32_from_le_bytes, spec_u64_from_le_bytes, u16_from_le_bytes,
    u32_from_le_bytes, u64_from_le_bytes,
};
use vstd::slice::{slice_subrange, slice_to_vec};
use crate::model::{
    CellModel, CellValue, ColumnDescriptor, ColumnModel, Row, TYPE_BOOL, TYPE_FLOAT4, TYPE_FLOAT8,
    TYPE_INT2, TYPE_INT4, TYPE_INT8,
};

verus! {

/// Read one byte at offset `i`.
pub open spec fn dec_u8(s: Seq<u8>, i: int) -> Option<(u8, int)> {
    if 0 <= i && i + 1 <= s.len() {
        Some((s[i], i + 1))
    } else {
        None
    }
}

/// Read a little-endian `u16` at offset `i`.
pub open spec fn dec_u16(s: Seq<u8>, i: int) -> Option<(u16, int)> {
    if 0 <= i && i + 2 <= s.len() {
        Some((spec_u16_from_le_bytes(s.subrange(i, i + 2)), i + 2))
    } else {
        None
    }
}

/// Read a little-endian `u32` at offset `i`.
pub open spec fn dec_u32(s: Seq<u8>, i: int) -> Option<(u32, int)> {
    if 0 <= i && i + 4 <= s.len() {
        Some((spec_u32_from_le_bytes(s.subrange(i, i + 4)), i + 4))
    } else {
        None
    }
}

/// Read a little-endian `u64` at offset `i`.
pub open spec fn dec_u64(s: Seq<u8>, i: int) -> Option<(u64, int)> {
    if 0 <= i && i + 8 <= s.len() {
        Some((spec_u64_from_le_bytes(s.subrange(i, i + 8)), i + 8))
    } else {
        None
    }
}

/// Read one column descriptor: name length, name bytes, type identifier.
pub open spec fn dec_column(s: Seq<u8>, i: int) -> Option<(ColumnModel, int)> {
    match dec_u32(s, i) {
        Some((nlen, j)) => if j + nlen <= s.len() {
            match dec_u32(s, j + nlen) {
                Some((tid, k)) => Some(
                    (ColumnModel { name: s.subrange(j, j + nlen), type_id: tid }, k),
                ),
                None => None,
            }
        } else {
            None
        },
        None => None,
    }
}

/// Read `n` column descriptors in order.
pub open spec fn dec_columns(s: Seq<u8>, i: int, n: nat) -> Option<(Seq<ColumnModel>, int)>
    decreases n,
{
    if n == 0 {
        Some((Seq::empty(), i))
    } else {
        match dec_column(s, i) {
            Some((c, j)) => match dec_columns(s, j, (n - 1) as nat) {
                Some((cs, k)) => Some((seq![c] + cs, k)),
                None => None,
            },
            None => None,
        }
    }
}

/// Read one cell under the column type `type_id`: the null flag, then the
/// type-shaped payload if the flag says the cell is present.
pub open spec fn dec_cell(s: Seq<u8>, i: int, type_id: u32) -> Option<(CellModel, int)> {
    match dec_u8(s, i) {
        Some((flag, j)) => if flag == 1 {
            Some((CellModel::Null, j))
        } else if flag != 0 {
            None
        } else if type_id == TYPE_BOOL {
            match dec_u8(s, j) {
                Some((b, k)) => if b == 1 {
                    Some((CellModel::Bool(true), k))
                } else if b == 0 {
                    Some((CellModel::Bool(false), k))
                } else {
                    None
                },
                None => None,
            }
        } else if type_id == TYPE_INT2 {
            match dec_u16(s, j) {
                Some((v, k)) => Some((CellModel::Int2(v as i16), k)),
                None => None,
            }
        } else if type_id == TYPE_INT4 {
            match dec_u32(s, j) {
                Some((v, k)) => Some((CellModel::Int4(v as i32), k)),
                None => None,
            }
        } else if type_id == TYPE_INT8 {
            match dec_u64(s, j) {
                Some((v, k)) => Some((CellModel::Int8(v as i64), k)),
                None => None,
            }
        } else if type_id == TYPE_FLOAT4 {
            match dec_u32(s, j) {
                Some((v, k)) => Some((CellModel::Float4(v), k)),
                None => None,
            }
        } else if type_id == TYPE_FLOAT8 {
            match dec_u64(s, j) {
                Some((v, k)) => Some((CellModel::Float8(v), k)),
                None => None,
            }
        } else {
            match dec_u32(s, j) {
                Some((len, k)) => if k + len <= s.len() {
                    Some((CellModel::Text(s.subrange(k, k + len)), k + len))
                } else {
                    None
                },
                None => None,
            }
        },
        None => None,
    }
}

/// Read the cells of one row from column `k` on.
pub open spec fn dec_row(s: Seq<u8>, i: int, cols: Seq<ColumnModel>, k: int) -> Option<
    (Seq<CellModel>, int),
>
    decreases cols.len() - k,
{
    if k < 0 || k >= cols.len() {
        Some((Seq::empty(), i))
    } else {
        match dec_cell(s, i, cols[k].type_id) {
            Some((c, j)) => match dec_row(s, j, cols, k + 1) {
                Some((cs, m)) => Some((seq![c] + cs, m)),
                None => None,
            },
            None => None,
        }
    }
}

/// Read `n` rows in order.
pub open spec fn dec_rows(s: Seq<u8>, i: int, cols: Seq<ColumnModel>, n: nat) -> Option<
    (Seq<Seq<CellModel>>, int),
>
    decreases n,
{
    if n == 0 {
        Some((Seq::empty(), i))
    } else {
        match dec_row(s, i, cols, 0) {
            Some((r, j)) => match dec_rows(s, j, cols, (n - 1) as nat) {
                Some((rs, k)) => Some((seq![r] + rs, k)),
                None => None,
            },
            None => None,
        }
    }
}

/// What decoding yields on a byte image: the rows and columns it carries,
/// or nothing if the image is truncated, malformed, or has trailing
/// bytes. A zero row count stands alone, so it decodes to an empty set
/// with no column information.
pub open spec fn spec_decode(s: Seq<u8>) -> Option<(Seq<Seq<CellModel>>, Seq<ColumnModel>)> {
    match dec_u32(s, 0) {
        Some((rc, i)) => if rc == 0 {
            if i == s.len() {
                Some((Seq::empty(), Seq::empty()))
            } else {
                None
            }
        } else {
            match dec_u32(s, i) {
                Some((cc, j)) => match dec_columns(s, j, cc as nat) {
                    Some((cols, k)) => match dec_rows(s, k, cols, rc as nat) {
                        Some((rows, m)) => if m == s.len() {
                            Some((rows, cols))
                        } else {
                            None
                        },
                        None => None,
                    },
                    None => None,
                },
                None => None,
            }
        },
        None => None,
    }
}

fn read_u8(bytes: &[u8], pos: usize) -> (r: Option<(u8, usize)>)
    ensures
        match r {
            Some((v, np)) => dec_u8(bytes@, pos as int) == Some((v, np as int)),
            None => dec_u8(bytes@, pos as int) is None,
        },
{
    if pos < bytes.len() {
        Some((bytes[pos], pos + 1))
    } else {
        None
    }
}

fn read_u16(bytes: &[u8], pos: usize) -> (r: Option<(u16, usize)>)
    ensures
        match r {
            Some((v, np)) => dec_u16(bytes@, pos as int) == Some((v, np as int)),
            None => dec_u16(bytes@, pos as int) is None,
        },
{
    if pos <= bytes.len() && bytes.len() - pos >= 2 {
        let v = u16_from_le_bytes(slice_subrange(bytes, pos, pos + 2));
        Some((v, pos + 2))
    } else {
        None
    }
}

fn read_u32(bytes: &[u8], pos: usize) -> (r: Option<(u32, usize)>)
    ensures
        match r {
            Some((v, np)) => dec_u32(bytes@, pos as int) == Some((v, np as int)),
            None => dec_u32(bytes@, pos as int) is None,
        },
{
    if pos <= bytes.len() && bytes.len() - pos >= 4 {
        let v = u32_from_le_bytes(slice_subrange(bytes, pos, pos + 4));
        Some((v, pos + 4))
    } else {
        None
    }
}

fn read_u64(bytes: &[u8], pos: usize) -> (r: Option<(u64, usize)>)
    ensures
        match r {
            Some((v, np)) => dec_u64(bytes@, pos as int) == Some((v, np as int)),
            None => dec_u64(bytes@, pos as int) is None,
        },
{
    if pos <= bytes.len() && bytes.len() - pos >= 8 {
        let v = u64_from_le_bytes(slice_subrange(bytes, pos, pos + 8));
        Some((v, pos + 8))
    } else {
        None
    }
}

fn read_column(bytes: &[u8], pos: usize) -> (r: Option<(ColumnDescriptor, usize)>)
    ensures
        match r {
            Some((cd, np)) => dec_column(bytes@, pos as int) == Some((cd@, np as int)) && np
                <= bytes@.len(),
            None => dec_column(bytes@, pos as int) is None,
        },
{
    match read_u32(bytes, pos) {
        None => None,
        Some((nlen, j)) => {
            if nlen as usize <= bytes.len() - j {
                let name = slice_to_vec(slice_subrange(bytes, j, j + nlen as usize));
                match read_u32(bytes, j + nlen as usize) {
                    None => None,
                    Some((tid, k)) => Some((ColumnDescriptor { name, type_id: tid }, k)),
                }
            } else {
                None
            }
        },
    }
}

fn read_cell(bytes: &[u8], pos: usize, type_id: u32) -> (r: Option<(CellValue, usize)>)
    ensures
        match r {
            Some((c, np)) => dec_cell(bytes@, pos as int, type_id) == Some((c@, np as int)) && np
                <= bytes@.len(),
            None => dec_cell(bytes@, pos as int, type_id) is None,
        },
{
    match read_u8(bytes, pos) {
        None => None,
        Some((flag, j)) => {
            if flag == 1 {
                Some((CellValue::Null, j))
            } else if flag != 0 {
                None
            } else if type_id == TYPE_BOOL {
                match read_u8(bytes, j) {
                    None => None,
                    Some((b, k)) => if b == 1 {
                        Some((CellValue::Bool(true), k))
                    } else if b == 0 {
                        Some((CellValue::Bool(false), k))
                    } else {
                        None
                    },
                }
            } else if type_id == TYPE_INT2 {
                match read_u16(bytes, j) {
                    None => None,
                    Some((v, k)) => Some((CellValue::Int2(v as i16), k)),
                }
            } else if type_id == TYPE_INT4 {
                match read_u32(bytes, j) {
                    None => None,
                    Some((v, k)) => Some((CellValue::Int4(v as i32), k)),
                }
            } else if type_id == TYPE_INT8 {
                match read_u64(bytes, j) {
                    None => None,
                    Some((v, k)) => Some((CellValue::Int8(v as i64), k)),
                }
            } else if type_id == TYPE_FLOAT4 {
                match read_u32(bytes, j) {
                    None => None,
                    Some((v, k)) => Some((CellValue::Float4(v), k)),
                }
            } else if type_id == TYPE_FLOAT8 {
                match read_u64(bytes, j) {
                    None => None,
                    Some((v, k)) => Some((CellValue::Float8(v), k)),
                }
            } else {
                match read_u32(bytes, j) {
                    None => None,
                    Some((len, k)) => {
                        if len as usize <= bytes.len() - k {
                            let text = slice_to_vec(slice_subrange(bytes, k, k + len as usize));
                            Some((CellValue::Text(text), k + len as usize))
                        } else {
                            None
                        }
                    },
                }
            }
        },
    }
}

#[verifier::loop_isolation(false)]
fn read_row(bytes: &[u8], pos: usize, cols: &Vec<ColumnDescriptor>) -> (r: Option<(Row, usize)>)
    requires
        pos <= bytes@.len(),
    ensures
        match r {
            Some((row, np)) => dec_row(bytes@, pos as int, cols.deep_view(), 0) == Some(
                (row@, np as int),
            ) && np <= bytes@.len(),
            None => dec_row(bytes@, pos as int, cols.deep_view(), 0) is None,
        },
{
    let ghost gcols = cols.deep_view();
    let mut cells: Vec<CellValue> = Vec::new();
    let mut cur: usize = pos;
    let mut k: usize = 0;
    while k < cols.len()
        invariant
            k <= cols.len(),
            cur <= bytes@.len(),
            dec_row(bytes@, pos as int, gcols, 0) == (match dec_row(
                bytes@,
                cur as int,
                gcols,
                k as int,
            ) {
                Some((rest, end)) => Some((cells.deep_view() + rest, end)),
                None => None::<(Seq<CellModel>, int)>,
            }),
        decreases cols.len() - k,
    {
        proof {
            assert(gcols[k as int] == cols@[k as int]@);
        }
        match read_cell(bytes, cur, cols[k].type_id) {
            None => {
                proof {
                    assert(dec_row(bytes@, cur as int, gcols, k as int) is None);
                }
                return None;
            },
            Some((c, np)) => {
                proof {
                    let m = dec_row(bytes@, np as int, gcols, k + 1);
                    assert(dec_row(bytes@, cur as int, gcols, k as int) == (match m {
                        Some((cs, e)) => Some((seq![c@] + cs, e)),
                        None => None::<(Seq<CellModel>, int)>,
                    }));
                    if m is Some {
                        let (cs, e) = m.unwrap();
                        assert(cells.deep_view().push(c@) + cs =~= cells.deep_view() + (seq![c@]
                            + cs));
                    }
                }
                let ghost prev_cells = cells.deep_view();
                cells.push(c);
                cur = np;
                k = k + 1;
                proof {
                    assert(cells.deep_view() =~= prev_cells.push(c@));
                }
            },
        }
    }
    proof {
        assert(dec_row(bytes@, cur as int, gcols, k as int) == Some(
            (Seq::<CellModel>::empty(), cur as int),
        ));
        assert(cells.deep_view() + Seq::<CellModel>::empty() =~= cells.deep_view());
    }
    let row = Row { cells };
    Some((row, cur))
}

/// Decode a wire image back into its rows and column descriptors.
/// Returns nothing exactly when the bytes are not the image of any result
/// set: a truncated section, an undefined null flag, a boolean payload
/// other than zero or one, or bytes left over after the declared rows.
#[verifier::loop_isolation(false)]
pub fn deserialize_rows_from_binary(bytes: &[u8]) -> (r: Option<(Vec<Row>, Vec<ColumnDescriptor>)>)
    ensures
        match r {
            Some((rows, cols)) => spec_decode(bytes@) == Some(
                (rows.deep_view(), cols.deep_view()),
            ),
            None => spec_decode(bytes@) is None,
        },
{
    let (row_count, pos0) = match read_u32(bytes, 0) {
        None => {
            return None;
        },
        Some(p) => p,
    };
    if row_count == 0 {
        if pos0 == bytes.len() {
            let rows: Vec<Row> = Vec::new();
            let cols: Vec<ColumnDescriptor> = Vec::new();
            proof {
                assert(rows.deep_view() =~= Seq::<Seq<CellModel>>::empty());
                assert(cols.deep_view() =~= Seq::<ColumnModel>::empty());
            }
            return Some((rows, cols));
        } else {
            return None;
        }
    }
    let (col_count, col_start) = match read_u32(bytes, pos0) {
        None => {
            return None;
        },
        Some(p) => p,
    };
    let mut cols: Vec<ColumnDescriptor> = Vec::new();
    let mut pos: usize = col_start;
    let mut c: u32 = 0;
    while c < col_count
        invariant
            c <= col_count,
            pos <= bytes@.len(),
            dec_columns(bytes@, col_start as int, col_count as nat) == (match dec_columns(
                bytes@,
                pos as int,
                (col_count - c) as nat,
            ) {
                Some((rest, end)) => Some((cols.deep_view() + rest, end)),
                None => None::<(Seq<ColumnModel>, int)>,
            }),
        decreases col_count - c,
    {
        match read_column(bytes, pos) {
            None => {
                proof {
                    assert(dec_columns(bytes@, pos as int, (col_count - c) as nat) is None);
                }
                return None;
            },
            Some((cd, np)) => {
                proof {
                    let m = dec_columns(bytes@, np as int, (col_count - c - 1) as nat);
                    assert(dec_columns(bytes@, pos as int, (col_count - c) as nat) == (match m {
                        Some((cs, e)) => Some((seq![cd@] + cs, e)),
                        None => None::<(Seq<ColumnModel>, int)>,
                    }));
                    if m is Some {
                        let (cs, e) = m.unwrap();
                        assert(cols.deep_view().push(cd@) + cs =~= cols.deep_view() + (seq![cd@]
                            + cs));
                    }
                }
                let ghost prev_cols = cols.deep_view();
                cols.push(cd);
                pos = np;
                c = c + 1;
                proof {
                    assert(cols.deep_view() =~= prev_cols.push(cd@));
                }
            },
        }
    }
    proof {
        assert(cols.deep_view() + Seq::<ColumnModel>::empty() =~= cols.deep_view());
        assert(dec_columns(bytes@, col_start as int, col_count as nat) == Some(
            (cols.deep_view(), pos as int),
        ));
    }
    let ghost gcols = cols.deep_view();
    let ghost rows_start = pos as int;
    let mut rows: Vec<Row> = Vec::new();
    let mut i: u32 = 0;
    while i < row_count
        invariant
            i <= row_count,
            pos <= bytes@.len(),
            dec_rows(bytes@, rows_start, gcols, row_count as nat) == (match dec_rows(
                bytes@,
                pos as int,
                gcols,
                (row_count - i) as nat,
            ) {
                Some((rest, end)) => Some((rows.deep_view() + rest, end)),
                None => None::<(Seq<Seq<CellModel>>, int)>,
            }),
        decreases row_count - i,
    {
        match read_row(bytes, pos, &cols) {
            None => {
                proof {
                    assert(dec_rows(bytes@, pos as int, gcols, (row_count - i) as nat) is None);
                }
                return None;
            },
            Some((row, np)) => {
                proof {
                    let m = dec_rows(bytes@, np as int, gcols, (row_count - i - 1) as nat);
                    assert(dec_rows(bytes@, pos as int, gcols, (row_count - i) as nat) == (match m {
                        Some((rs, e)) => Some((seq![row@] + rs, e)),
                        None => None::<(Seq<Seq<CellModel>>, int)>,
                    }));
                    if m is Some {
                        let (rs, e) = m.unwrap();
                        assert(rows.deep_view().push(row@) + rs =~= rows.deep_view() + (seq![row@]
                            + rs));
                    }
                }
                let ghost prev_rows = rows.deep_view();
                rows.push(row);
                pos = np;
                i = i + 1;
                proof {
                    assert(rows.deep_view() =~= prev_rows.push(row@));
                }
            },
        }
    }
    proof {
        assert(rows.deep_view() + Seq::<Seq<CellModel>>::empty() =~= rows.deep_view());
        assert(dec_rows(bytes@, rows_start, gcols, row_count as nat) == Some(
            (rows.deep_view(), pos as int),
        ));
    }
    if pos == bytes.len() {
        Some((rows, cols))
    } else {
        None
    }
}

} // verus!
