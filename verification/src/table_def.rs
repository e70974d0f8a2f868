//! Column and table definitions: the catalog's in-memory form and the
//! fixed-width row layout they induce.

use vstd::prelude::*;

use crate::datatypes::Datatype;

verus! {

/// One column of a table: its name, datatype and declared width.
/// The width is meaningful only for `CharacterVarying`; fixed-width
/// datatypes leave it 0.
#[derive(Debug, PartialEq, Eq, Clone)]
pub struct ColumnDefinition {
    pub name: String,
    pub data_type: Datatype,
    pub length: usize,
}

/// Mathematical image of a [`ColumnDefinition`].
pub struct ColumnDefV {
    pub name: Seq<char>,
    pub data_type: Datatype,
    pub length: nat,
}

impl View for ColumnDefinition {
    type V = ColumnDefV;

    open spec fn view(&self) -> ColumnDefV {
        ColumnDefV { name: self.name@, data_type: self.data_type, length: self.length as nat }
    }
}

/// A table: its name and its ordered column list. Column order defines
/// the physical row layout.
#[derive(Debug, PartialEq, Eq, Clone)]
pub struct TableDefinition {
    pub name: String,
    pub column_defs: Vec<ColumnDefinition>,
}

/// Mathematical image of a [`TableDefinition`].
pub struct TableDefV {
    pub name: Seq<char>,
    pub column_defs: Seq<ColumnDefV>,
}

impl View for TableDefinition {
    type V = TableDefV;

    open spec fn view(&self) -> TableDefV {
        TableDefV { name: self.name@, column_defs: self.column_defs.deep_view() }
    }
}

impl DeepView for ColumnDefinition {
    type V = ColumnDefV;

    open spec fn deep_view(&self) -> ColumnDefV {
        self.view()
    }
}

/// Stored width in bytes of one column: the declared width, with a floor
/// of one byte so that fixed-width datatypes still occupy a slot.
pub open spec fn col_width(c: ColumnDefV) -> int {
    if c.length > 0 {
        c.length as int
    } else {
        1
    }
}

/// Total width in bytes of one stored row: the sum of the column widths.
pub open spec fn row_width(cols: Seq<ColumnDefV>) -> int
    decreases cols.len(),
{
    if cols.len() == 0 {
        0
    } else {
        row_width(cols.drop_last()) + col_width(cols.last())
    }
}

/// Extending a column prefix by one column adds that column's width.
pub proof fn lemma_row_width_step(cols: Seq<ColumnDefV>, i: int)
    requires
        0 <= i < cols.len(),
    ensures
        row_width(cols.subrange(0, i + 1)) == row_width(cols.subrange(0, i)) + col_width(cols[i]),
{
    let pre = cols.subrange(0, i + 1);
    assert(pre.drop_last() =~= cols.subrange(0, i));
    assert(pre.last() == cols[i]);
}

/// A prefix of the columns never exceeds the full row width.
pub proof fn lemma_row_width_prefix_le(cols: Seq<ColumnDefV>, i: int)
    requires
        0 <= i <= cols.len(),
    ensures
        row_width(cols.subrange(0, i)) <= row_width(cols),
    decreases cols.len() - i,
{
    if i == cols.len() {
        assert(cols.subrange(0, i) =~= cols);
    } else {
        lemma_row_width_step(cols, i);
        lemma_row_width_prefix_le(cols, i + 1);
        assert(col_width(cols[i]) >= 1);
    }
}

impl TableDefinition {
    /// Total width in bytes of one stored row of this table.
    pub fn get_byte_size(&self) -> (r: usize)
        requires
            row_width(self@.column_defs) <= usize::MAX,
        ensures
            r == row_width(self@.column_defs),
    {
        let mut sum: usize = 0;
        let n = self.column_defs.len();
        let mut i: usize = 0;
        while i < n
            invariant
                0 <= i <= n,
                n == self.column_defs.len(),
                row_width(self@.column_defs) <= usize::MAX,
                sum == row_width(self@.column_defs.subrange(0, i as int)),
            decreases n - i,
        {
            let len = self.column_defs[i].length;
            proof {
                lemma_row_width_step(self@.column_defs, i as int);
                lemma_row_width_prefix_le(self@.column_defs, i + 1);
            }
            sum = sum + (if len > 0 {
                len
            } else {
                1
            });
            i = i + 1;
        }
        proof {
            assert(self@.column_defs.subrange(0, n as int) =~= self@.column_defs);
        }
        sum
    }

    /// Total row width as above, but checked: `None` when the widths
    /// overflow a machine word, so that callers can establish
    /// [`Self::get_byte_size`]'s precondition.
    pub fn checked_byte_size(&self) -> (r: Option<usize>)
        ensures
            r is Some <==> row_width(self@.column_defs) <= usize::MAX,
            r is Some ==> r->Some_0 == row_width(self@.column_defs),
    {
        let mut sum: usize = 0;
        let n = self.column_defs.len();
        let mut i: usize = 0;
        while i < n
            invariant
                0 <= i <= n,
                n == self.column_defs.len(),
                sum == row_width(self@.column_defs.subrange(0, i as int)),
            decreases n - i,
        {
            let len = self.column_defs[i].length;
            let w: usize = if len > 0 {
                len
            } else {
                1
            };
            proof {
                lemma_row_width_step(self@.column_defs, i as int);
            }
            match sum.checked_add(w) {
                Some(next) => {
                    sum = next;
                },
                None => {
                    proof {
                        lemma_row_width_prefix_le(self@.column_defs, i + 1);
                    }
                    return None;
                },
            }
            i = i + 1;
        }
        proof {
            assert(self@.column_defs.subrange(0, n as int) =~= self@.column_defs);
        }
        Some(sum)
    }
}

} // verus!
