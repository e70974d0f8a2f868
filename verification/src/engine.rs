//! The storage engine's computations: encoding a row from an INSERT,
//! decoding and binding rows during a scan, predicate filtering, the
//! rewrite that a DELETE performs, and the text table a SELECT renders.
//! The engine works over in-memory byte buffers; reading and writing the
//! blob files themselves is the caller's concern.

use vstd::prelude::*;

use crate::command::{find_item, InsertItem, InsertItemV, SelectCommandV, SelectCommand};
use crate::datatypes::{from_bytes_spec, to_bytes_spec, Datatype};
use crate::error::{res_view, ErrorV, SqlError};
use crate::expr::{
    data_value_from_string_spec, dup_logic_expression, evaluate_spec, fill_values_spec,
    DataValue, DataValueV, LogicExprV, LogicExpression, ValueExprV, ValueExpression,
};
use crate::strutil::{str_eq, trim_spec, TrimKind};
use crate::table_def::{
    col_width, lemma_row_width_prefix_le, lemma_row_width_step,
    row_width, ColumnDefV, TableDefinition,
};

verus! {

// ---------------------------------------------------------------------------
// Row encoding (INSERT)
// ---------------------------------------------------------------------------

/// The bytes stored for one field: the literal's encoding, right-padded
/// with zero bytes to the column's declared width. A longer encoding is
/// stored whole.
pub open spec fn field_bytes(col: ColumnDefV, value: Seq<char>) -> Result<Seq<u8>, ErrorV> {
    match to_bytes_spec(col.data_type, value) {
        Err(e) => Err(e),
        Ok(b) => Ok(
            if b.len() < col.length {
                b + Seq::new((col.length - b.len()) as nat, |i: int| 0u8)
            } else {
                b
            },
        ),
    }
}

/// The row an INSERT appends, over the first `k` catalog columns: each
/// column's value is looked up by name, and a column the items do not
/// name fails the insert.
pub open spec fn encode_row_rec(cols: Seq<ColumnDefV>, items: Seq<InsertItemV>, k: int) -> Result<
    Seq<u8>,
    ErrorV,
>
    decreases k,
{
    if k <= 0 {
        Ok(Seq::empty())
    } else {
        match encode_row_rec(cols, items, k - 1) {
            Err(e) => Err(e),
            Ok(row) => {
                let col = cols[k - 1];
                let idx = find_item(items, col.name);
                if idx < 0 {
                    Err(ErrorV::MissingColumnValue(col.name))
                } else {
                    match field_bytes(col, items[idx].column_value) {
                        Err(e) => Err(e),
                        Ok(b) => Ok(row + b),
                    }
                }
            },
        }
    }
}

/// The row an INSERT appends for these items, in catalog column order.
pub open spec fn encode_row_spec(cols: Seq<ColumnDefV>, items: Seq<InsertItemV>) -> Result<
    Seq<u8>,
    ErrorV,
> {
    encode_row_rec(cols, items, cols.len() as int)
}

/// A failed field fails the whole row, whatever columns follow.
proof fn lemma_encode_rec_err(cols: Seq<ColumnDefV>, items: Seq<InsertItemV>, k: int, kk: int)
    requires
        encode_row_rec(cols, items, k) is Err,
        k <= kk,
    ensures
        encode_row_rec(cols, items, kk) == encode_row_rec(cols, items, k),
    decreases kk - k,
{
    if kk > k {
        lemma_encode_rec_err(cols, items, k, kk - 1);
    }
}

/// Encodes the row an INSERT appends; see [`encode_row_spec`].
pub fn encode_row(def: &TableDefinition, items: &Vec<InsertItem>) -> (r: Result<Vec<u8>, SqlError>)
    ensures
        res_view(r) == encode_row_spec(def@.column_defs, items.deep_view()),
{
    let ghost cols = def@.column_defs;
    let ghost itemsv = items.deep_view();
    let n = def.column_defs.len();
    let mut row: Vec<u8> = Vec::new();
    proof {
        assert(row@ =~= Seq::<u8>::empty());
    }
    let mut k: usize = 0;
    while k < n
        invariant
            0 <= k <= n,
            n == def.column_defs.len(),
            cols == def@.column_defs,
            itemsv == items.deep_view(),
            encode_row_rec(cols, itemsv, k as int) == Ok::<_, ErrorV>(row@),
        decreases n - k,
    {
        let col = &def.column_defs[k];
        // Find the item this column names.
        let nitems = items.len();
        let mut idx: usize = 0;
        let mut found: bool = false;
        while idx < nitems && !found
            invariant
                0 <= idx <= nitems,
                nitems == items.len(),
                itemsv == items.deep_view(),
                found ==> idx < nitems && itemsv[idx as int].column_name == col.name@,
                forall|j: int| 0 <= j < idx ==> (#[trigger] itemsv[j]).column_name != col.name@,
            decreases nitems - idx + (if found {
                0int
            } else {
                1int
            }),
        {
            if str_eq(items[idx].column_name.as_str(), col.name.as_str()) {
                found = true;
            } else {
                idx = idx + 1;
            }
        }
        proof {
            if found {
                crate::command::lemma_find_item_at(itemsv, col.name@, idx as int);
            } else {
                crate::command::lemma_find_item_at(itemsv, col.name@, nitems as int);
            }
        }
        if !found {
            proof {
                lemma_encode_rec_err(cols, itemsv, k + 1, n as int);
            }
            return Err(SqlError::MissingColumnValue(col.name.clone()));
        }
        let mut bytes = match col.data_type.to_bytes(items[idx].column_value.clone()) {
            Ok(b) => b,
            Err(e) => {
                proof {
                    lemma_encode_rec_err(cols, itemsv, k + 1, n as int);
                }
                return Err(e);
            },
        };
        let ghost encoded = bytes@;
        if bytes.len() < col.length {
            let pad = col.length - bytes.len();
            let mut p: usize = 0;
            while p < pad
                invariant
                    0 <= p <= pad,
                    bytes@ =~= encoded + Seq::new(p as nat, |i: int| 0u8),
                decreases pad - p,
            {
                bytes.push(0u8);
                p = p + 1;
                proof {
                    assert(bytes@ =~= encoded + Seq::new(p as nat, |i: int| 0u8));
                }
            }
        }
        proof {
            assert(field_bytes(cols[k as int], itemsv[idx as int].column_value) == Ok::<
                _,
                ErrorV,
            >(bytes@));
        }
        let ghost orow = row@;
        let mut tail = bytes;
        row.append(&mut tail);
        proof {
            assert(row@ == orow + field_bytes(
                cols[k as int],
                itemsv[idx as int].column_value,
            )->Ok_0);
        }
        k = k + 1;
    }
    Ok(row)
}

// ---------------------------------------------------------------------------
// Row decoding and binding (scan)
// ---------------------------------------------------------------------------

/// The predicate bindings a decoded row provides, over the first `k`
/// columns: each column's field is decoded to text and read as a literal,
/// keyed by the column's name.
pub open spec fn row_bindings_rec(cols: Seq<ColumnDefV>, row: Seq<u8>, k: int) -> Result<
    Seq<(Seq<char>, ValueExprV)>,
    ErrorV,
>
    decreases k,
{
    if k <= 0 {
        Ok(Seq::empty())
    } else {
        match row_bindings_rec(cols, row, k - 1) {
            Err(e) => Err(e),
            Ok(bs) => {
                let col = cols[k - 1];
                let off = row_width(cols.subrange(0, k - 1));
                match from_bytes_spec(col.data_type, row.subrange(off, off + col_width(col))) {
                    Err(e) => Err(e),
                    Ok(s) => Ok(
                        bs.push(
                            (col.name, ValueExprV::DataValue(data_value_from_string_spec(s))),
                        ),
                    ),
                }
            },
        }
    }
}

/// Whether a scanned row is kept by the optional predicate: a row of a
/// predicate-free scan is always kept; otherwise the row's values are
/// bound into the predicate and it must evaluate to true.
pub open spec fn row_keep_spec(
    pred: Option<LogicExprV>,
    cols: Seq<ColumnDefV>,
    row: Seq<u8>,
) -> Result<bool, ErrorV> {
    match pred {
        None => Ok(true),
        Some(p) => match row_bindings_rec(cols, row, cols.len() as int) {
            Err(e) => Err(e),
            Ok(bs) => evaluate_spec(fill_values_spec(p, bs)),
        },
    }
}

/// Decodes a row into the bindings its columns provide.
fn row_bindings(def: &TableDefinition, row: &[u8]) -> (r: Result<
    Vec<(String, ValueExpression)>,
    SqlError,
>)
    requires
        row_width(def@.column_defs) <= row@.len(),
    ensures
        r is Ok ==> row_bindings_rec(def@.column_defs, row@, def@.column_defs.len() as int)
            == Ok::<_, ErrorV>(r->Ok_0.deep_view()),
        r is Err ==> row_bindings_rec(def@.column_defs, row@, def@.column_defs.len() as int)
            == Err::<Seq<(Seq<char>, ValueExprV)>, _>(r->Err_0@),
{
    let ghost cols = def@.column_defs;
    let total = row.len();
    let n = def.column_defs.len();
    let mut out: Vec<(String, ValueExpression)> = Vec::new();
    let mut off: usize = 0;
    proof {
        assert(out.deep_view() =~= Seq::<(Seq<char>, ValueExprV)>::empty());
        assert(cols.subrange(0, 0) =~= Seq::<ColumnDefV>::empty());
    }
    let mut k: usize = 0;
    while k < n
        invariant
            0 <= k <= n,
            n == def.column_defs.len(),
            cols == def@.column_defs,
            row_width(cols) <= row@.len(),
            row@.len() == total,
            off == row_width(cols.subrange(0, k as int)),
            row_bindings_rec(cols, row@, k as int) == Ok::<_, ErrorV>(out.deep_view()),
        decreases n - k,
    {
        let col = &def.column_defs[k];
        let len: usize = if col.length > 0 {
            col.length
        } else {
            1
        };
        proof {
            assert(cols[k as int] == def.column_defs@[k as int]@);
            assert(col_width(cols[k as int]) == len as int);
            lemma_row_width_step(cols, k as int);
            lemma_row_width_prefix_le(cols, k + 1);
        }
        let piece = vstd::slice::slice_subrange(row, off, off + len);
        let s = match col.data_type.from_bytes(piece) {
            Ok(s) => s,
            Err(e) => {
                proof {
                    lemma_bindings_rec_err(cols, row@, k + 1, n as int);
                }
                return Err(e);
            },
        };
        let dv = match DataValue::from_string(s) {
            Ok(d) => d,
            Err(e) => {
                return Err(e);
            },
        };
        let ghost oo = out.deep_view();
        out.push((col.name.clone(), ValueExpression::DataValue(dv)));
        proof {
            assert(out.deep_view() =~= oo.push(
                (col.name@, ValueExprV::DataValue(out@[oo.len() as int].1@->DataValue_0)),
            ));
        }
        off = off + len;
        k = k + 1;
    }
    Ok(out)
}

/// A failed field decode fails the whole row, whatever columns follow.
proof fn lemma_bindings_rec_err(cols: Seq<ColumnDefV>, row: Seq<u8>, k: int, kk: int)
    requires
        row_bindings_rec(cols, row, k) is Err,
        k <= kk,
    ensures
        row_bindings_rec(cols, row, kk) == row_bindings_rec(cols, row, k),
    decreases kk - k,
{
    if kk > k {
        lemma_bindings_rec_err(cols, row, k, kk - 1);
    }
}

/// Whether a scanned row is kept by the optional predicate; see
/// [`row_keep_spec`].
fn row_keep(
    pred: &Option<LogicExpression>,
    def: &TableDefinition,
    row: &[u8],
) -> (r: Result<bool, SqlError>)
    requires
        row_width(def@.column_defs) <= row@.len(),
    ensures
        res_view(r) == row_keep_spec(pred_view(pred), def@.column_defs, row@),
{
    match pred {
        None => Ok(true),
        Some(p) => {
            let bs = match row_bindings(def, row) {
                Ok(bs) => bs,
                Err(e) => {
                    return Err(e);
                },
            };
            let mut filled = dup_logic_expression(p);
            let filled_res = filled.fill_values(bs);
            match filled_res {
                Ok(()) => filled.evaluate(),
                Err(e) => Err(e),
            }
        },
    }
}

/// The view of an optional predicate.
pub open spec fn pred_view(pred: &Option<LogicExpression>) -> Option<LogicExprV> {
    match pred {
        Some(p) => Some(p@),
        None => None,
    }
}

// ---------------------------------------------------------------------------
// DELETE
// ---------------------------------------------------------------------------

/// What a DELETE's scan-and-rewrite yields over the remaining bytes: the
/// surviving bytes and the count of deleted rows. A full row is deleted
/// (and counted) when the predicate is absent or evaluates to true, and
/// survives when it evaluates to false; trailing bytes shorter than a
/// row are dropped.
pub open spec fn delete_rec(
    pred: Option<LogicExprV>,
    cols: Seq<ColumnDefV>,
    data: Seq<u8>,
) -> Result<(Seq<u8>, int), ErrorV>
    decreases data.len(),
    when row_width(cols) >= 1
{
    let w = row_width(cols);
    if data.len() < w {
        Ok((Seq::empty(), 0))
    } else {
        let row = data.subrange(0, w);
        let rest = data.subrange(w, data.len() as int);
        match row_keep_spec(pred, cols, row) {
            Err(e) => Err(e),
            Ok(deleted) => match delete_rec(pred, cols, rest) {
                Err(e) => Err(e),
                Ok((bytes, count)) => if deleted {
                    Ok((bytes, count + 1))
                } else {
                    Ok((row + bytes, count))
                },
            },
        }
    }
}

/// Performs a DELETE over a table's bytes: returns the bytes that
/// survive and the number of rows deleted; see [`delete_rec`].
pub fn run_delete(
    pred: &Option<LogicExpression>,
    def: &TableDefinition,
    data: &[u8],
) -> (r: Result<(Vec<u8>, usize), SqlError>)
    requires
        1 <= row_width(def@.column_defs) <= usize::MAX,
    ensures
        r is Ok ==> delete_rec(pred_view(pred), def@.column_defs, data@) == Ok::<_, ErrorV>(
            (r->Ok_0.0@, r->Ok_0.1 as int),
        ),
        r is Err ==> delete_rec(pred_view(pred), def@.column_defs, data@) == Err::<
            (Seq<u8>, int),
            _,
        >(r->Err_0@),
{
    let ghost cols = def@.column_defs;
    let w = def.get_byte_size();
    let n = data.len();
    let mut out: Vec<u8> = Vec::new();
    let mut count: usize = 0;
    let mut off: usize = 0;
    proof {
        assert(data@.subrange(0, n as int) =~= data@);
        assert(out@ =~= Seq::<u8>::empty());
    }
    while n - off >= w
        invariant
            0 <= off <= n,
            n == data@.len(),
            w == row_width(cols),
            1 <= w,
            cols == def@.column_defs,
            count <= off,
            (match delete_rec(pred_view(pred), cols, data@.subrange(off as int, n as int)) {
                Ok(p) => delete_rec(pred_view(pred), cols, data@) == Ok::<_, ErrorV>(
                    (out@ + p.0, count + p.1),
                ),
                Err(e) => delete_rec(pred_view(pred), cols, data@) == Err::<(Seq<u8>, int), _>(e),
            }),
        decreases n - off,
    {
        let ghost rem = data@.subrange(off as int, n as int);
        let ghost rest = data@.subrange(off + w, n as int);
        let row = vstd::slice::slice_subrange(data, off, off + w);
        proof {
            assert(row@ =~= rem.subrange(0, w as int));
            assert(rest =~= rem.subrange(w as int, rem.len() as int));
        }
        match row_keep(pred, def, row) {
            Err(e) => {
                return Err(e);
            },
            Ok(deleted) => {
                if deleted {
                    count = count + 1;
                } else {
                    let ghost oo = out@;
                    let mut chunk = vstd::slice::slice_to_vec(row);
                    out.append(&mut chunk);
                    proof {
                        let tail = delete_rec(pred_view(pred), cols, rest);
                        if tail is Ok {
                            assert((oo + row@) + tail->Ok_0.0 =~= oo + (row@ + tail->Ok_0.0));
                        }
                    }
                }
            },
        }
        off = off + w;
    }
    proof {
        assert(delete_rec(pred_view(pred), cols, data@.subrange(off as int, n as int)) == Ok::<
            (Seq<u8>, int),
            ErrorV,
        >((Seq::empty(), 0)));
        assert(out@ + Seq::<u8>::empty() =~= out@);
    }
    Ok((out, count))
}

// ---------------------------------------------------------------------------
// Laws of the codec and the delete rewrite
// ---------------------------------------------------------------------------

/// The zero padding of a field is the UTF-8 encoding of as many NUL
/// characters.
proof fn lemma_zeros_encode_nuls(k: nat)
    ensures
        vstd::utf8::encode_utf8(Seq::new(k, |i: int| '\u{0}')) =~= Seq::new(k, |i: int| 0u8),
        vstd::utf8::valid_utf8(Seq::new(k, |i: int| 0u8)),
{
    let nuls = Seq::new(k, |i: int| '\u{0}');
    assert(vstd::utf8::is_ascii_chars(nuls));
    vstd::utf8::is_ascii_chars_encode_utf8(nuls);
    vstd::utf8::encode_utf8_valid_utf8(nuls);
    assert(vstd::utf8::encode_utf8(nuls) =~= Seq::new(k, |i: int| 0u8));
}

/// Round trip of a stored varchar field: a value whose encoding fits the
/// column's width is stored padded with zero bytes, decodes to the value
/// followed by NUL characters, and trimming those NULs returns the value
/// exactly — provided the value itself neither begins nor ends with a
/// NUL character, which the trim would also remove.
pub proof fn lemma_varchar_round_trip(col: ColumnDefV, s: Seq<char>)
    requires
        col.data_type is CharacterVarying,
        vstd::utf8::encode_utf8(s).len() <= col.length,
        s.len() > 0 ==> s[0] != '\u{0}',
        s.len() > 0 ==> s.last() != '\u{0}',
    ensures
        field_bytes(col, s) is Ok,
        from_bytes_spec(col.data_type, field_bytes(col, s)->Ok_0) is Ok,
        trim_spec(TrimKind::Nul, from_bytes_spec(col.data_type, field_bytes(col, s)->Ok_0)->Ok_0)
            == s,
{
    let enc = vstd::utf8::encode_utf8(s);
    let k = (col.length - enc.len()) as nat;
    let zeros = Seq::new(k, |i: int| 0u8);
    let nuls = Seq::new(k, |i: int| '\u{0}');
    let padded = if enc.len() < col.length {
        enc + zeros
    } else {
        enc
    };
    vstd::utf8::encode_utf8_valid_utf8(s);
    vstd::utf8::encode_utf8_decode_utf8(s);
    lemma_zeros_encode_nuls(k);
    if enc.len() < col.length {
        vstd::utf8::valid_utf8_concat(enc, zeros);
    } else {
        assert(padded =~= enc);
        assert(vstd::utf8::valid_utf8(padded));
    }
    assert(field_bytes(col, s) == Ok::<Seq<u8>, ErrorV>(padded));
    // Decode splits at the value/padding boundary.
    if enc.len() < col.length {
        vstd::utf8::is_char_boundary_start_end_of_seq(padded);
        if k > 0 {
            assert(padded[enc.len() as int] == 0u8);
            vstd::utf8::is_char_boundary_iff_not_is_continuation_byte(padded, enc.len() as int);
        }
        vstd::utf8::decode_utf8_split(padded, enc.len() as int);
        assert(padded.subrange(0, enc.len() as int) =~= enc);
        assert(padded.subrange(enc.len() as int, padded.len() as int) =~= zeros);
        vstd::utf8::encode_utf8_decode_utf8(nuls);
        assert(vstd::utf8::decode_utf8(padded) =~= s + nuls);
        crate::strutil::lemma_trim_nul_padding(s, k);
        assert(trim_spec(TrimKind::Nul, vstd::utf8::decode_utf8(padded)) == s);
    } else {
        assert(vstd::utf8::decode_utf8(padded) == s);
        crate::strutil::lemma_trim_nul_padding(s, 0);
        assert(s + Seq::new(0, |i: int| '\u{0}') =~= s);
    }
}

/// The number of full rows a byte buffer holds.
pub open spec fn chunk_count(cols: Seq<ColumnDefV>, data: Seq<u8>) -> int
    decreases data.len(),
    when row_width(cols) >= 1
{
    if data.len() < row_width(cols) {
        0
    } else {
        1 + chunk_count(cols, data.subrange(row_width(cols), data.len() as int))
    }
}

/// Every full row of the buffer fails the predicate (a predicate-free
/// check never fails, so this also says the buffer holds no full row).
pub open spec fn all_rows_fail(
    pred: Option<LogicExprV>,
    cols: Seq<ColumnDefV>,
    data: Seq<u8>,
) -> bool
    decreases data.len(),
    when row_width(cols) >= 1
{
    let w = row_width(cols);
    if data.len() < w {
        true
    } else {
        row_keep_spec(pred, cols, data.subrange(0, w)) == Ok::<bool, ErrorV>(false)
            && all_rows_fail(pred, cols, data.subrange(w, data.len() as int))
    }
}

/// Delete semantics: when a DELETE's rewrite succeeds, no surviving row
/// satisfies the predicate, and the reported count is exactly the number
/// of rows removed.
pub proof fn lemma_delete_semantics(
    pred: Option<LogicExprV>,
    cols: Seq<ColumnDefV>,
    data: Seq<u8>,
)
    requires
        row_width(cols) >= 1,
        delete_rec(pred, cols, data) is Ok,
    ensures
        all_rows_fail(pred, cols, delete_rec(pred, cols, data)->Ok_0.0),
        chunk_count(cols, delete_rec(pred, cols, data)->Ok_0.0) + delete_rec(
            pred,
            cols,
            data,
        )->Ok_0.1 == chunk_count(cols, data),
    decreases data.len(),
{
    let w = row_width(cols);
    if data.len() < w {
        assert(delete_rec(pred, cols, data)->Ok_0.0 =~= Seq::<u8>::empty());
    } else {
        let row = data.subrange(0, w);
        let rest = data.subrange(w, data.len() as int);
        lemma_delete_semantics(pred, cols, rest);
        let sub = delete_rec(pred, cols, rest)->Ok_0;
        match row_keep_spec(pred, cols, row) {
            Err(_) => {},
            Ok(deleted) => {
                if !deleted {
                    let out = row + sub.0;
                    assert(out.subrange(0, w) =~= row);
                    assert(out.subrange(w, out.len() as int) =~= sub.0);
                }
            },
        }
    }
}

// ---------------------------------------------------------------------------
// SELECT: column expansion
// ---------------------------------------------------------------------------

/// The names of a table's columns, in catalog order.
pub open spec fn col_names(cols: Seq<ColumnDefV>) -> Seq<Seq<char>> {
    cols.map_values(|c: ColumnDefV| c.name)
}

/// `name` occurs among `names`.
pub open spec fn name_in(names: Seq<Seq<char>>, name: Seq<char>) -> bool {
    exists|j: int| 0 <= j < names.len() && names[j] == name
}

/// The first `k` requested column names with each `*` expanded to all of
/// the table's columns, in catalog order.
pub open spec fn expand_rec(sel: Seq<Seq<char>>, cols: Seq<ColumnDefV>, k: int) -> Seq<Seq<char>>
    decreases k,
{
    if k <= 0 {
        Seq::empty()
    } else {
        expand_rec(sel, cols, k - 1) + (if sel[k - 1] == "*"@ {
            col_names(cols)
        } else {
            seq![sel[k - 1]]
        })
    }
}

/// The requested column list with `*` expanded.
pub open spec fn expand_cols(sel: Seq<Seq<char>>, cols: Seq<ColumnDefV>) -> Seq<Seq<char>> {
    expand_rec(sel, cols, sel.len() as int)
}

/// Every requested name is `*` or names a column of the table.
pub open spec fn sel_cols_known(sel: Seq<Seq<char>>, cols: Seq<ColumnDefV>) -> bool {
    forall|j: int|
        0 <= j < sel.len() ==> (#[trigger] sel[j]) == "*"@ || name_in(col_names(cols), sel[j])
}

/// `name` occurs among `names`.
fn contains_name(names: &Vec<String>, name: &str) -> (r: bool)
    ensures
        r == name_in(names.deep_view(), name@),
{
    let n = names.len();
    let mut i: usize = 0;
    while i < n
        invariant
            0 <= i <= n,
            n == names.len(),
            forall|j: int| 0 <= j < i ==> names.deep_view()[j] != name@,
        decreases n - i,
    {
        proof {
            assert(names.deep_view()[i as int] == names@[i as int]@);
        }
        if str_eq(names[i].as_str(), name) {
            return true;
        }
        i = i + 1;
    }
    false
}

/// Whether every requested column name is `*` or names a column of the
/// table — what [`run_select`] asks of its selection.
pub fn selection_known(sel: &Vec<String>, def: &TableDefinition) -> (r: bool)
    ensures
        r == sel_cols_known(sel.deep_view(), def@.column_defs),
{
    let ghost cols = def@.column_defs;
    let n = sel.len();
    let mut i: usize = 0;
    while i < n
        invariant
            0 <= i <= n,
            n == sel.len(),
            cols == def@.column_defs,
            forall|j: int|
                0 <= j < i ==> (#[trigger] sel.deep_view()[j]) == "*"@ || name_in(
                    col_names(cols),
                    sel.deep_view()[j],
                ),
        decreases n - i,
    {
        proof {
            assert(sel.deep_view()[i as int] == sel@[i as int]@);
        }
        let name = sel[i].as_str();
        if !str_eq(name, "*") {
            let m = def.column_defs.len();
            let mut j: usize = 0;
            let mut found: bool = false;
            while j < m && !found
                invariant
                    0 <= j <= m,
                    m == def.column_defs.len(),
                    cols == def@.column_defs,
                    found ==> name_in(col_names(cols), name@),
                    !found ==> forall|k: int| 0 <= k < j ==> col_names(cols)[k] != name@,
                decreases m - j + (if found {
                    0int
                } else {
                    1int
                }),
            {
                proof {
                    assert(col_names(cols)[j as int] == def.column_defs@[j as int]@.name);
                }
                if str_eq(def.column_defs[j].name.as_str(), name) {
                    found = true;
                } else {
                    j = j + 1;
                }
            }
            if !found {
                proof {
                    assert(!name_in(col_names(cols), name@));
                }
                return false;
            }
        }
        i = i + 1;
    }
    true
}

/// Expands the requested column list; see [`expand_cols`].
fn expand_columns(sel: &Vec<String>, def: &TableDefinition) -> (r: Vec<String>)
    ensures
        r.deep_view() == expand_cols(sel.deep_view(), def@.column_defs),
{
    let ghost cols = def@.column_defs;
    let n = sel.len();
    let mut out: Vec<String> = Vec::new();
    proof {
        assert(out.deep_view() =~= Seq::<Seq<char>>::empty());
        assert(out.deep_view() =~= expand_rec(sel.deep_view(), cols, 0));
    }
    let mut k: usize = 0;
    while k < n
        invariant
            0 <= k <= n,
            n == sel.len(),
            cols == def@.column_defs,
            out.deep_view() == expand_rec(sel.deep_view(), cols, k as int),
        decreases n - k,
    {
        let ghost oo = out.deep_view();
        proof {
            assert(sel.deep_view()[k as int] == sel@[k as int]@);
        }
        if str_eq(sel[k].as_str(), "*") {
            let m = def.column_defs.len();
            let mut j: usize = 0;
            while j < m
                invariant
                    0 <= j <= m,
                    m == def.column_defs.len(),
                    cols == def@.column_defs,
                    out.deep_view() == oo + col_names(cols).subrange(0, j as int),
                decreases m - j,
            {
                let ghost od = out.deep_view();
                out.push(def.column_defs[j].name.clone());
                j = j + 1;
                proof {
                    assert(cols[j - 1] == def.column_defs@[j - 1]@);
                    assert(col_names(cols)[j - 1] == cols[j - 1].name);
                    assert(out.deep_view() =~= od.push(cols[j - 1].name));
                    assert(out.deep_view() =~= oo + col_names(cols).subrange(0, j as int));
                }
            }
            proof {
                assert(col_names(cols).subrange(0, m as int) =~= col_names(cols));
            }
        } else {
            out.push(String::from_str(sel[k].as_str()));
            proof {
                assert(out.deep_view() =~= oo + seq![sel.deep_view()[k as int]]);
            }
        }
        k = k + 1;
    }
    out
}

// ---------------------------------------------------------------------------
// SELECT: the scanned table
// ---------------------------------------------------------------------------

/// The displayed cells of one row, over the first `k` columns: each
/// column whose name was requested is decoded to text with its zero
/// padding trimmed, keyed by the column's name.
pub open spec fn row_cells_rec(
    cols: Seq<ColumnDefV>,
    expanded: Seq<Seq<char>>,
    row: Seq<u8>,
    k: int,
) -> Result<Seq<(Seq<char>, Seq<char>)>, ErrorV>
    decreases k,
{
    if k <= 0 {
        Ok(Seq::empty())
    } else {
        match row_cells_rec(cols, expanded, row, k - 1) {
            Err(e) => Err(e),
            Ok(cs) => {
                let col = cols[k - 1];
                if !name_in(expanded, col.name) {
                    Ok(cs)
                } else {
                    let off = row_width(cols.subrange(0, k - 1));
                    match from_bytes_spec(col.data_type, row.subrange(off, off + col_width(col))) {
                        Err(e) => Err(e),
                        Ok(s) => Ok(cs.push((col.name, trim_spec(TrimKind::Nul, s)))),
                    }
                }
            },
        }
    }
}

/// A failed field decode fails the whole row, whatever columns follow.
proof fn lemma_cells_rec_err(
    cols: Seq<ColumnDefV>,
    expanded: Seq<Seq<char>>,
    row: Seq<u8>,
    k: int,
    kk: int,
)
    requires
        row_cells_rec(cols, expanded, row, k) is Err,
        k <= kk,
    ensures
        row_cells_rec(cols, expanded, row, kk) == row_cells_rec(cols, expanded, row, k),
    decreases kk - k,
{
    if kk > k {
        lemma_cells_rec_err(cols, expanded, row, k, kk - 1);
    }
}

/// Decodes one row's displayed cells; see [`row_cells_rec`].
fn row_cells(def: &TableDefinition, expanded: &Vec<String>, row: &[u8]) -> (r: Result<
    Vec<(String, String)>,
    SqlError,
>)
    requires
        row_width(def@.column_defs) <= row@.len(),
    ensures
        r is Ok ==> row_cells_rec(def@.column_defs, expanded.deep_view(), row@, def@.column_defs.len() as int)
            == Ok::<_, ErrorV>(r->Ok_0.deep_view()),
        r is Err ==> row_cells_rec(def@.column_defs, expanded.deep_view(), row@, def@.column_defs.len() as int)
            == Err::<Seq<(Seq<char>, Seq<char>)>, _>(r->Err_0@),
{
    let ghost cols = def@.column_defs;
    let ghost exp = expanded.deep_view();
    let total = row.len();
    let n = def.column_defs.len();
    let mut out: Vec<(String, String)> = Vec::new();
    let mut off: usize = 0;
    proof {
        assert(out.deep_view() =~= Seq::<(Seq<char>, Seq<char>)>::empty());
        assert(cols.subrange(0, 0) =~= Seq::<ColumnDefV>::empty());
    }
    let mut k: usize = 0;
    while k < n
        invariant
            0 <= k <= n,
            n == def.column_defs.len(),
            cols == def@.column_defs,
            exp == expanded.deep_view(),
            row_width(cols) <= row@.len(),
            row@.len() == total,
            off == row_width(cols.subrange(0, k as int)),
            row_cells_rec(cols, exp, row@, k as int) == Ok::<_, ErrorV>(out.deep_view()),
        decreases n - k,
    {
        let col = &def.column_defs[k];
        let len: usize = if col.length > 0 {
            col.length
        } else {
            1
        };
        proof {
            assert(cols[k as int] == def.column_defs@[k as int]@);
            assert(col_width(cols[k as int]) == len as int);
            lemma_row_width_step(cols, k as int);
            lemma_row_width_prefix_le(cols, k + 1);
        }
        if contains_name(expanded, col.name.as_str()) {
            let piece = vstd::slice::slice_subrange(row, off, off + len);
            let s = match col.data_type.from_bytes(piece) {
                Ok(s) => s,
                Err(e) => {
                    proof {
                        lemma_cells_rec_err(cols, exp, row@, k + 1, n as int);
                    }
                    return Err(e);
                },
            };
            let trimmed = crate::strutil::trim(TrimKind::Nul, s.as_str());
            let ghost oo = out.deep_view();
            out.push((col.name.clone(), trimmed));
            proof {
                assert(out.deep_view() =~= oo.push((col.name@, out@[oo.len() as int].1@)));
            }
        }
        off = off + len;
        k = k + 1;
    }
    Ok(out)
}

/// What a SELECT's scan yields over the remaining bytes: the displayed
/// cells of every kept row, in scan order. A full row is kept when the
/// predicate is absent or evaluates to true; trailing bytes shorter than
/// a row are dropped.
pub open spec fn select_rows_rec(
    pred: Option<LogicExprV>,
    cols: Seq<ColumnDefV>,
    expanded: Seq<Seq<char>>,
    data: Seq<u8>,
) -> Result<Seq<Seq<(Seq<char>, Seq<char>)>>, ErrorV>
    decreases data.len(),
    when row_width(cols) >= 1
{
    let w = row_width(cols);
    if data.len() < w {
        Ok(Seq::empty())
    } else {
        let row = data.subrange(0, w);
        let rest = data.subrange(w, data.len() as int);
        match row_keep_spec(pred, cols, row) {
            Err(e) => Err(e),
            Ok(kept) => if !kept {
                select_rows_rec(pred, cols, expanded, rest)
            } else {
                match row_cells_rec(cols, expanded, row, cols.len() as int) {
                    Err(e) => Err(e),
                    Ok(cells) => match select_rows_rec(pred, cols, expanded, rest) {
                        Err(e) => Err(e),
                        Ok(t) => Ok(seq![cells] + t),
                    },
                }
            },
        }
    }
}

// ---------------------------------------------------------------------------
// SELECT: rendering
// ---------------------------------------------------------------------------

/// The displayed text of `name`'s cell in one row; a row holds one cell
/// for each selected column, and the first match decides.
pub open spec fn cell_lookup(cells: Seq<(Seq<char>, Seq<char>)>, name: Seq<char>) -> Seq<char>
    decreases cells.len(),
{
    if cells.len() == 0 {
        Seq::empty()
    } else if cells[0].0 == name {
        cells[0].1
    } else {
        cell_lookup(cells.subrange(1, cells.len() as int), name)
    }
}

/// `cell_lookup` takes the first matching cell, or empty when none
/// matches.
proof fn lemma_cell_lookup_at(cells: Seq<(Seq<char>, Seq<char>)>, name: Seq<char>, i: int)
    requires
        0 <= i <= cells.len(),
        forall|j: int| 0 <= j < i ==> (#[trigger] cells[j]).0 != name,
        i < cells.len() ==> cells[i].0 == name,
    ensures
        cell_lookup(cells, name) == if i < cells.len() {
            cells[i].1
        } else {
            Seq::<char>::empty()
        },
    decreases i, cells.len(),
{
    if cells.len() == 0 {
    } else if i == 0 {
        if cells[0].0 != name {
            lemma_cell_lookup_at(cells.subrange(1, cells.len() as int), name, 0);
        }
    } else {
        lemma_cell_lookup_at(cells.subrange(1, cells.len() as int), name, i - 1);
    }
}

/// The longest display length of `name`'s cell over the first `k` rows.
pub open spec fn max_cell_len(
    table: Seq<Seq<(Seq<char>, Seq<char>)>>,
    name: Seq<char>,
    k: int,
) -> int
    decreases k,
{
    if k <= 0 {
        0
    } else {
        let m = max_cell_len(table, name, k - 1);
        let l = cell_lookup(table[k - 1], name).len() as int;
        if l > m {
            l
        } else {
            m
        }
    }
}

/// The display width of a column: its header's length or its longest
/// cell, whichever is greater.
pub open spec fn width_of(
    table: Seq<Seq<(Seq<char>, Seq<char>)>>,
    name: Seq<char>,
) -> int {
    let m = max_cell_len(table, name, table.len() as int);
    if name.len() > m {
        name.len() as int
    } else {
        m
    }
}

/// The first `k` names with later duplicates dropped.
pub open spec fn dedup_rec(names: Seq<Seq<char>>, k: int) -> Seq<Seq<char>>
    decreases k,
{
    if k <= 0 {
        Seq::empty()
    } else {
        let d = dedup_rec(names, k - 1);
        if name_in(d, names[k - 1]) {
            d
        } else {
            d.push(names[k - 1])
        }
    }
}

/// `s` left-aligned in a field of `w` characters, space filled; a longer
/// text keeps its full length.
pub open spec fn pad(s: Seq<char>, w: int) -> Seq<char> {
    if s.len() < w {
        s + Seq::new((w - s.len()) as nat, |i: int| ' ')
    } else {
        s
    }
}

/// The header cells of the first `k` selected columns, each padded to
/// its column's width and closed by ` | `.
pub open spec fn header_cells(
    names: Seq<Seq<char>>,
    table: Seq<Seq<(Seq<char>, Seq<char>)>>,
    k: int,
) -> Seq<char>
    decreases k,
{
    if k <= 0 {
        Seq::empty()
    } else {
        header_cells(names, table, k - 1) + pad(names[k - 1], width_of(table, names[k - 1]))
            + " | "@
    }
}

/// The separator dashes of the first `k` distinct selected columns:
/// each contributes its width and its three delimiter characters.
pub open spec fn sep_cells(
    dnames: Seq<Seq<char>>,
    table: Seq<Seq<(Seq<char>, Seq<char>)>>,
    k: int,
) -> Seq<char>
    decreases k,
{
    if k <= 0 {
        Seq::empty()
    } else {
        sep_cells(dnames, table, k - 1) + Seq::new(
            (width_of(table, dnames[k - 1]) + 3) as nat,
            |i: int| '-',
        )
    }
}

/// The cells of one rendered row over the first `k` selected columns.
pub open spec fn row_line(
    names: Seq<Seq<char>>,
    table: Seq<Seq<(Seq<char>, Seq<char>)>>,
    cells: Seq<(Seq<char>, Seq<char>)>,
    k: int,
) -> Seq<char>
    decreases k,
{
    if k <= 0 {
        Seq::empty()
    } else {
        row_line(names, table, cells, k - 1) + pad(
            cell_lookup(cells, names[k - 1]),
            width_of(table, names[k - 1]),
        ) + " | "@
    }
}

/// The first `k` rendered rows.
pub open spec fn rows_text(
    names: Seq<Seq<char>>,
    table: Seq<Seq<(Seq<char>, Seq<char>)>>,
    k: int,
) -> Seq<char>
    decreases k,
{
    if k <= 0 {
        Seq::empty()
    } else {
        rows_text(names, table, k - 1) + "| "@ + row_line(
            names,
            table,
            table[k - 1],
            names.len() as int,
        ) + "\n"@
    }
}

/// The full rendered text table: a header of the selected column names,
/// a separator of dashes, then one line per kept row; every column is as
/// wide as its widest content.
pub open spec fn select_render(
    names: Seq<Seq<char>>,
    table: Seq<Seq<(Seq<char>, Seq<char>)>>,
) -> Seq<char> {
    let dnames = dedup_rec(names, names.len() as int);
    "| "@ + header_cells(names, table, names.len() as int) + "\n"@ + sep_cells(
        dnames,
        table,
        dnames.len() as int,
    ) + "-"@ + "\n"@ + rows_text(names, table, table.len() as int)
}

/// What a whole SELECT yields over a table's bytes.
pub open spec fn select_spec(cmd: SelectCommandV, cols: Seq<ColumnDefV>, data: Seq<u8>) -> Result<
    Seq<char>,
    ErrorV,
> {
    let expanded = expand_cols(cmd.column_names, cols);
    match select_rows_rec(cmd.logic_expression, cols, expanded, data) {
        Err(e) => Err(e),
        Ok(table) => Ok(select_render(expanded, table)),
    }
}

/// Looks a cell up by column name; see [`cell_lookup`].
fn cell_lookup_exec(cells: &Vec<(String, String)>, name: &str) -> (r: String)
    ensures
        r@ == cell_lookup(cells.deep_view(), name@),
{
    let n = cells.len();
    let mut i: usize = 0;
    while i < n
        invariant
            0 <= i <= n,
            n == cells.len(),
            forall|j: int| 0 <= j < i ==> (#[trigger] cells.deep_view()[j]).0 != name@,
        decreases n - i,
    {
        proof {
            assert(cells.deep_view()[i as int] == (cells@[i as int].0@, cells@[i as int].1@));
        }
        if str_eq(cells[i].0.as_str(), name) {
            proof {
                lemma_cell_lookup_at(cells.deep_view(), name@, i as int);
            }
            return cells[i].1.clone();
        }
        i = i + 1;
    }
    proof {
        lemma_cell_lookup_at(cells.deep_view(), name@, n as int);
    }
    String::new()
}

/// The display width of a column; see [`width_of`].
fn width_exec(table: &Vec<Vec<(String, String)>>, name: &str) -> (r: usize)
    ensures
        r == width_of(table.deep_view(), name@),
{
    let rows = table.len();
    let mut m: usize = 0;
    let mut k: usize = 0;
    while k < rows
        invariant
            0 <= k <= rows,
            rows == table.len(),
            m == max_cell_len(table.deep_view(), name@, k as int),
        decreases rows - k,
    {
        proof {
            assert(table.deep_view()[k as int] == table@[k as int].deep_view());
        }
        let cell = cell_lookup_exec(&table[k], name);
        let l = cell.as_str().unicode_len();
        if l > m {
            m = l;
        }
        k = k + 1;
    }
    let hl = name.unicode_len();
    if hl > m {
        hl
    } else {
        m
    }
}

/// Appends `s` to `out`, padded with spaces to `w` characters.
fn append_padded(out: &mut String, s: &str, w: usize)
    ensures
        final(out)@ == old(out)@ + pad(s@, w as int),
{
    out.append(s);
    let l = s.unicode_len();
    if l >= w {
        proof {
            assert(final(out)@ =~= old(out)@ + pad(s@, w as int));
        }
        return ;
    }
    let ghost base = out@;
    let mut p: usize = l;
    while p < w
        invariant
            l <= p <= w,
            out@ =~= base + Seq::new((p - l) as nat, |i: int| ' '),
        decreases w - p,
    {
        crate::strutil::push_char(out, ' ');
        p = p + 1;
        proof {
            assert(out@ =~= base + Seq::new((p - l) as nat, |i: int| ' '));
        }
    }
    proof {
        assert(out@ =~= old(out)@ + pad(s@, w as int));
    }
}

/// Appends `n + 3` separator dashes to `out`: one run for the column's
/// width and one for its three delimiter characters.
fn append_dashes(out: &mut String, n: usize)
    ensures
        final(out)@ == old(out)@ + Seq::new((n + 3) as nat, |i: int| '-'),
{
    let ghost base = out@;
    let mut p: usize = 0;
    while p < n
        invariant
            0 <= p <= n,
            out@ =~= base + Seq::new(p as nat, |i: int| '-'),
        decreases n - p,
    {
        crate::strutil::push_char(out, '-');
        p = p + 1;
        proof {
            assert(out@ =~= base + Seq::new(p as nat, |i: int| '-'));
        }
    }
    crate::strutil::push_char(out, '-');
    crate::strutil::push_char(out, '-');
    crate::strutil::push_char(out, '-');
    proof {
        assert(out@ =~= base + Seq::new((n + 3) as nat, |i: int| '-'));
    }
}

/// Performs a SELECT over a table's bytes: scans the full rows, keeps
/// those the predicate admits, and renders the requested columns as a
/// text table; see [`select_spec`].
pub fn run_select(cmd: &SelectCommand, def: &TableDefinition, data: &[u8]) -> (r: Result<
    String,
    SqlError,
>)
    requires
        1 <= row_width(def@.column_defs) <= usize::MAX,
        sel_cols_known(cmd@.column_names, def@.column_defs),
    ensures
        res_view(r) == select_spec(cmd@, def@.column_defs, data@),
{
    let ghost cols = def@.column_defs;
    let ghost predv = match cmd.logic_expression {
        Some(ref p) => Some(p@),
        None => None,
    };
    let expanded = expand_columns(&cmd.column_names, def);
    let ghost exp = expanded.deep_view();
    let w = def.get_byte_size();
    let n = data.len();

    // Scan: collect the displayed cells of every kept row.
    let mut table: Vec<Vec<(String, String)>> = Vec::new();
    let mut off: usize = 0;
    proof {
        assert(data@.subrange(0, n as int) =~= data@);
        assert(table.deep_view() =~= Seq::<Seq<(Seq<char>, Seq<char>)>>::empty());
    }
    while n - off >= w
        invariant
            0 <= off <= n,
            n == data@.len(),
            w == row_width(cols),
            1 <= w,
            cols == def@.column_defs,
            exp == expanded.deep_view(),
            exp == expand_cols(cmd@.column_names, cols),
            predv == pred_view(&cmd.logic_expression),
            predv == cmd@.logic_expression,
            (match select_rows_rec(predv, cols, exp, data@.subrange(off as int, n as int)) {
                Ok(t) => select_rows_rec(predv, cols, exp, data@) == Ok::<_, ErrorV>(
                    table.deep_view() + t,
                ),
                Err(e) => select_rows_rec(predv, cols, exp, data@) == Err::<
                    Seq<Seq<(Seq<char>, Seq<char>)>>,
                    _,
                >(e),
            }),
        decreases n - off,
    {
        let ghost rem = data@.subrange(off as int, n as int);
        let ghost rest = data@.subrange(off + w, n as int);
        let row = vstd::slice::slice_subrange(data, off, off + w);
        proof {
            assert(row@ =~= rem.subrange(0, w as int));
            assert(rest =~= rem.subrange(w as int, rem.len() as int));
        }
        match row_keep(&cmd.logic_expression, def, row) {
            Err(e) => {
                proof {
                    assert(rem.subrange(0, row_width(cols)) == row@);
                    assert(select_rows_rec(predv, cols, exp, rem) == Err::<
                        Seq<Seq<(Seq<char>, Seq<char>)>>,
                        ErrorV,
                    >(e@));
                }
                return Err(e);
            },
            Ok(kept) => {
                if kept {
                    match row_cells(def, &expanded, row) {
                        Err(e) => {
                            proof {
                                assert(rem.subrange(0, row_width(cols)) == row@);
                                assert(select_rows_rec(predv, cols, exp, rem) == Err::<
                                    Seq<Seq<(Seq<char>, Seq<char>)>>,
                                    ErrorV,
                                >(e@));
                            }
                            return Err(e);
                        },
                        Ok(cells) => {
                            let ghost ot = table.deep_view();
                            let ghost cv = cells.deep_view();
                            table.push(cells);
                            proof {
                                assert(table.deep_view() =~= ot.push(cv));
                                let tail = select_rows_rec(predv, cols, exp, rest);
                                if tail is Ok {
                                    assert(ot.push(cv) + tail->Ok_0 =~= ot + (seq![cv]
                                        + tail->Ok_0));
                                }
                            }
                        },
                    }
                }
            },
        }
        off = off + w;
    }
    proof {
        assert(select_rows_rec(predv, cols, exp, data@.subrange(off as int, n as int)) == Ok::<
            Seq<Seq<(Seq<char>, Seq<char>)>>,
            ErrorV,
        >(Seq::empty()));
        assert(table.deep_view() + Seq::<Seq<(Seq<char>, Seq<char>)>>::empty() =~= table.deep_view());
    }
    let ghost tbl = table.deep_view();

    // Header.
    let mut out = String::from_str("| ");
    let ncols = expanded.len();
    let mut k: usize = 0;
    proof {
        assert(out@ =~= "| "@ + header_cells(exp, tbl, 0));
    }
    while k < ncols
        invariant
            0 <= k <= ncols,
            ncols == expanded.len(),
            exp == expanded.deep_view(),
            tbl == table.deep_view(),
            out@ == "| "@ + header_cells(exp, tbl, k as int),
        decreases ncols - k,
    {
        proof {
            assert(exp[k as int] == expanded@[k as int]@);
        }
        let name = expanded[k].as_str();
        let wd = width_exec(&table, name);
        append_padded(&mut out, name, wd);
        out.append(" | ");
        k = k + 1;
        proof {
            assert(out@ =~= "| "@ + header_cells(exp, tbl, k as int));
        }
    }
    out.append("\n");

    // Separator.
    let dnames = dedup_exec(&expanded);
    let ghost dn = dnames.deep_view();
    let ghost after_header = out@;
    let ndn = dnames.len();
    let mut k2: usize = 0;
    proof {
        assert(out@ =~= after_header + sep_cells(dn, tbl, 0));
    }
    while k2 < ndn
        invariant
            0 <= k2 <= ndn,
            ndn == dnames.len(),
            dn == dnames.deep_view(),
            tbl == table.deep_view(),
            out@ == after_header + sep_cells(dn, tbl, k2 as int),
        decreases ndn - k2,
    {
        proof {
            assert(dn[k2 as int] == dnames@[k2 as int]@);
        }
        let name = dnames[k2].as_str();
        let wd = width_exec(&table, name);
        append_dashes(&mut out, wd);
        k2 = k2 + 1;
        proof {
            assert(out@ =~= after_header + sep_cells(dn, tbl, k2 as int));
        }
    }
    out.append("-");
    out.append("\n");

    // Rows.
    let ghost after_sep = out@;
    let nrows = table.len();
    let mut r: usize = 0;
    proof {
        assert(out@ =~= after_sep + rows_text(exp, tbl, 0));
    }
    while r < nrows
        invariant
            0 <= r <= nrows,
            nrows == table.len(),
            exp == expanded.deep_view(),
            tbl == table.deep_view(),
            ncols == expanded.len(),
            out@ == after_sep + rows_text(exp, tbl, r as int),
        decreases nrows - r,
    {
        out.append("| ");
        let ghost row_start = out@;
        let cells = &table[r];
        proof {
            assert(tbl[r as int] == table@[r as int].deep_view());
        }
        let mut c: usize = 0;
        while c < ncols
            invariant
                0 <= c <= ncols,
                0 <= r < nrows,
                nrows == table.len(),
                ncols == expanded.len(),
                exp == expanded.deep_view(),
                tbl == table.deep_view(),
                cells.deep_view() == tbl[r as int],
                out@ == row_start + row_line(exp, tbl, tbl[r as int], c as int),
            decreases ncols - c,
        {
            proof {
                assert(exp[c as int] == expanded@[c as int]@);
            }
            let name = expanded[c].as_str();
            let wd = width_exec(&table, name);
            let value = cell_lookup_exec(cells, name);
            append_padded(&mut out, value.as_str(), wd);
            out.append(" | ");
            c = c + 1;
            proof {
                assert(out@ =~= row_start + row_line(exp, tbl, tbl[r as int], c as int));
            }
        }
        out.append("\n");
        r = r + 1;
        proof {
            assert(out@ =~= after_sep + rows_text(exp, tbl, r as int));
        }
    }
    proof {
        assert(out@ =~= select_render(exp, tbl));
    }
    Ok(out)
}

/// Drops later duplicates from a name list; see [`dedup_rec`].
fn dedup_exec(names: &Vec<String>) -> (r: Vec<String>)
    ensures
        r.deep_view() == dedup_rec(names.deep_view(), names.deep_view().len() as int),
{
    let n = names.len();
    let mut out: Vec<String> = Vec::new();
    proof {
        assert(out.deep_view() =~= dedup_rec(names.deep_view(), 0));
    }
    let mut k: usize = 0;
    while k < n
        invariant
            0 <= k <= n,
            n == names.len(),
            out.deep_view() == dedup_rec(names.deep_view(), k as int),
        decreases n - k,
    {
        proof {
            assert(names.deep_view()[k as int] == names@[k as int]@);
        }
        let ghost oo = out.deep_view();
        if !contains_name(&out, names[k].as_str()) {
            out.push(names[k].clone());
            proof {
                assert(out.deep_view() =~= oo.push(names@[k as int]@));
            }
        }
        k = k + 1;
    }
    out
}

} // verus!
