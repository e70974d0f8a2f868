//! The catalog text format: a table definition is persisted as one line
//! per column, `"<name> <datatype-keyword> <length> \n"`, and reloaded by
//! parsing those lines. Reading and writing the catalog file itself is
//! the caller's concern; this module only formats and parses its text.

use vstd::prelude::*;

use crate::datatypes::{datatype_name, parse_datatype_spec, Datatype};
use crate::error::{res_view, ErrorV, SqlError};
use crate::strutil::{
    all_digits, classify_wide_numeral, dec_value, numeral_digits, push_char, str_eq,
    wide_numeral_class, WideNumeralClass,
};
use crate::table_def::{ColumnDefV, ColumnDefinition, TableDefV, TableDefinition};

verus! {

// ---------------------------------------------------------------------------
// Decimal rendering of widths
// ---------------------------------------------------------------------------

/// Decimal numeral of an unbounded natural, most significant digit first.
pub open spec fn dec_str(v: nat) -> Seq<char>
    decreases v,
{
    if v < 10 {
        seq![crate::strutil::digit_char(v as int)]
    } else {
        dec_str(v / 10) + seq![crate::strutil::digit_char((v % 10) as int)]
    }
}

/// Renders a machine word as its decimal numeral.
pub fn usize_to_string(v: usize) -> (r: String)
    ensures
        r@ == dec_str(v as nat),
    decreases v,
{
    if v < 10 {
        let mut r = String::new();
        push_char(&mut r, (48 + v as u8) as char);
        proof {
            assert(r@ =~= dec_str(v as nat));
        }
        r
    } else {
        let mut r = usize_to_string(v / 10);
        push_char(&mut r, (48 + (v % 10) as u8) as char);
        proof {
            assert(r@ =~= dec_str(v as nat));
        }
        r
    }
}

// ---------------------------------------------------------------------------
// Formatting
// ---------------------------------------------------------------------------

/// The catalog line of one column (with its trailing newline).
pub open spec fn col_line(c: ColumnDefV) -> Seq<char> {
    c.name + " "@ + datatype_name(c.data_type) + " "@ + dec_str(c.length) + " \n"@
}

/// The catalog text of the first `k` columns.
pub open spec fn catalog_text_rec(cols: Seq<ColumnDefV>, k: int) -> Seq<char>
    decreases k,
{
    if k <= 0 {
        Seq::empty()
    } else {
        catalog_text_rec(cols, k - 1) + col_line(cols[k - 1])
    }
}

/// The catalog text of a table definition: one line per column, in order.
pub open spec fn catalog_text(def: TableDefV) -> Seq<char> {
    catalog_text_rec(def.column_defs, def.column_defs.len() as int)
}

/// Renders a table definition as its catalog text.
pub fn format_table_def(def: &TableDefinition) -> (r: String)
    ensures
        r@ == catalog_text(def@),
{
    let mut out = String::new();
    let n = def.column_defs.len();
    let mut k: usize = 0;
    while k < n
        invariant
            0 <= k <= n,
            n == def.column_defs.len(),
            out@ == catalog_text_rec(def@.column_defs, k as int),
        decreases n - k,
    {
        let col = &def.column_defs[k];
        out.append(col.name.as_str());
        out.append(" ");
        out.append(col.data_type.as_str());
        out.append(" ");
        let len_str = usize_to_string(col.length);
        out.append(len_str.as_str());
        out.append(" \n");
        k = k + 1;
        proof {
            assert(out@ =~= catalog_text_rec(def@.column_defs, k as int));
        }
    }
    out
}

// ---------------------------------------------------------------------------
// Splitting
// ---------------------------------------------------------------------------

/// Splits on a separator character, keeping empty segments; the result
/// always holds one more segment than there are separators.
pub open spec fn split_rec(s: Seq<char>, sep: char, cur: Seq<char>) -> Seq<Seq<char>>
    decreases s.len(),
{
    if s.len() == 0 {
        seq![cur]
    } else if s[0] == sep {
        seq![cur] + split_rec(s.subrange(1, s.len() as int), sep, Seq::empty())
    } else {
        split_rec(s.subrange(1, s.len() as int), sep, cur.push(s[0]))
    }
}

/// Splits `s` on `sep`.
pub open spec fn split_spec(s: Seq<char>, sep: char) -> Seq<Seq<char>> {
    split_rec(s, sep, Seq::empty())
}

/// A split yields at least one segment.
pub proof fn lemma_split_nonempty(s: Seq<char>, sep: char, cur: Seq<char>)
    ensures
        split_rec(s, sep, cur).len() >= 1,
    decreases s.len(),
{
    if s.len() > 0 {
        if s[0] == sep {
            lemma_split_nonempty(s.subrange(1, s.len() as int), sep, Seq::empty());
        } else {
            lemma_split_nonempty(s.subrange(1, s.len() as int), sep, cur.push(s[0]));
        }
    }
}

/// One carriage return at a line's end is dropped, as a line reader does.
pub open spec fn strip_cr(line: Seq<char>) -> Seq<char> {
    if line.len() > 0 && line.last() == '\r' {
        line.drop_last()
    } else {
        line
    }
}

/// The lines of a text: newline-separated segments, without their line
/// endings; a final newline ends the last line rather than opening an
/// empty one.
pub open spec fn lines_spec(s: Seq<char>) -> Seq<Seq<char>> {
    let parts = split_spec(s, '\n');
    let kept = if parts.last().len() == 0 {
        parts.drop_last()
    } else {
        parts
    };
    kept.map_values(|line: Seq<char>| strip_cr(line))
}

/// Splits `s` on `sep`, keeping empty segments.
pub fn split_exec(s: &str, sep: char) -> (r: Vec<String>)
    ensures
        r.deep_view() == split_spec(s@, sep),
{
    let n = s.unicode_len();
    let mut out: Vec<String> = Vec::new();
    let mut cur = String::new();
    let mut i: usize = 0;
    proof {
        assert(out.deep_view() =~= Seq::<Seq<char>>::empty());
        assert(s@.subrange(0, n as int) =~= s@);
        assert(Seq::<Seq<char>>::empty() + split_rec(s@, sep, cur@) =~= split_rec(s@, sep, cur@));
    }
    while i < n
        invariant
            0 <= i <= n,
            n == s@.len(),
            out.deep_view() + split_rec(s@.subrange(i as int, n as int), sep, cur@) == split_spec(
                s@,
                sep,
            ),
        decreases n - i,
    {
        let ghost rem = s@.subrange(i as int, n as int);
        let ghost ot = out.deep_view();
        let ghost oc = cur@;
        proof {
            assert(rem[0] == s@[i as int]);
            assert(rem.subrange(1, rem.len() as int) =~= s@.subrange(i + 1, n as int));
        }
        let c = s.get_char(i);
        if c == sep {
            out.push(cur);
            cur = String::new();
            proof {
                assert(out.deep_view() =~= ot.push(oc));
                assert(ot.push(oc) + split_rec(s@.subrange(i + 1, n as int), sep, Seq::empty())
                    =~= ot + (seq![oc] + split_rec(
                    s@.subrange(i + 1, n as int),
                    sep,
                    Seq::empty(),
                )));
            }
        } else {
            push_char(&mut cur, c);
        }
        i = i + 1;
    }
    proof {
        assert(s@.subrange(n as int, n as int) =~= Seq::<char>::empty());
    }
    let ghost ot = out.deep_view();
    let ghost oc = cur@;
    out.push(cur);
    proof {
        assert(out.deep_view() =~= ot.push(oc));
        assert(ot.push(oc) =~= ot + seq![oc]);
    }
    out
}

/// Splits a text into its lines; see [`lines_spec`].
pub fn split_lines(s: &str) -> (r: Vec<String>)
    ensures
        r.deep_view() == lines_spec(s@),
{
    let parts = split_exec(s, '\n');
    proof {
        lemma_split_nonempty(s@, '\n', Seq::empty());
        assert(parts.deep_view().len() == parts@.len());
    }
    let mut out: Vec<String> = Vec::new();
    let keep = if parts[parts.len() - 1].unicode_len() == 0 {
        parts.len() - 1
    } else {
        parts.len()
    };
    let ghost kept = if split_spec(s@, '\n').last().len() == 0 {
        split_spec(s@, '\n').drop_last()
    } else {
        split_spec(s@, '\n')
    };
    proof {
        assert(parts.deep_view().len() == split_spec(s@, '\n').len());
        assert(parts.deep_view().last() == parts.deep_view()[parts.deep_view().len() - 1]);
        assert(kept =~= parts.deep_view().subrange(0, keep as int));
    }
    let mut k: usize = 0;
    while k < keep
        invariant
            0 <= k <= keep,
            keep <= parts.len(),
            kept == parts.deep_view().subrange(0, keep as int),
            kept.len() == keep,
            out.deep_view() == kept.map_values(|line: Seq<char>| strip_cr(line)).subrange(
                0,
                k as int,
            ),
        decreases keep - k,
    {
        let ghost oo = out.deep_view();
        let line = &parts[k];
        proof {
            assert(parts.deep_view()[k as int] == parts@[k as int]@);
            assert(kept[k as int] == parts.deep_view()[k as int]);
        }
        let m = line.unicode_len();
        if m > 0 && line.as_str().get_char(m - 1) == '\r' {
            let stripped = line.as_str().substring_char(0, m - 1);
            out.push(String::from_str(stripped));
            proof {
                assert(stripped@ =~= strip_cr(line@));
                assert(out.deep_view() =~= oo.push(stripped@));
            }
        } else {
            out.push(line.clone());
            proof {
                assert(line@ =~= strip_cr(line@));
                assert(out.deep_view() =~= oo.push(line@));
            }
        }
        k = k + 1;
        proof {
            assert(out.deep_view() =~= kept.map_values(|l: Seq<char>| strip_cr(l)).subrange(
                0,
                k as int,
            ));
        }
    }
    proof {
        assert(out.deep_view() =~= kept.map_values(|l: Seq<char>| strip_cr(l)));
    }
    out
}

// ---------------------------------------------------------------------------
// Parsing
// ---------------------------------------------------------------------------

/// What one catalog line yields: the space-separated fields are the
/// column name, its datatype keyword, and its width, which must fit the
/// catalog's narrow width field; a line that does not fit this shape is
/// corrupt.
pub open spec fn parse_col_line_spec(line: Seq<char>) -> Result<ColumnDefV, ErrorV> {
    let parts = split_spec(line, ' ');
    if parts.len() < 3 {
        Err(ErrorV::CatalogCorrupt(line))
    } else {
        match parse_datatype_spec(parts[1]) {
            Err(_) => Err(ErrorV::CatalogCorrupt(line)),
            Ok(d) => match wide_numeral_class(parts[2]) {
                WideNumeralClass::Value(v) => if v <= u16::MAX {
                    Ok(ColumnDefV { name: parts[0], data_type: d, length: v as nat })
                } else {
                    Err(ErrorV::CatalogCorrupt(line))
                },
                _ => Err(ErrorV::CatalogCorrupt(line)),
            },
        }
    }
}

/// The definitions of the first `k` catalog lines, or the first corrupt
/// line's error.
pub open spec fn parse_cols_rec(lines: Seq<Seq<char>>, k: int) -> Result<Seq<ColumnDefV>, ErrorV>
    decreases k,
{
    if k <= 0 {
        Ok(Seq::empty())
    } else {
        match parse_cols_rec(lines, k - 1) {
            Err(e) => Err(e),
            Ok(defs) => match parse_col_line_spec(lines[k - 1]) {
                Err(e) => Err(e),
                Ok(c) => Ok(defs.push(c)),
            },
        }
    }
}

/// A corrupt line fails the whole reload, whatever follows it.
pub proof fn lemma_cols_rec_err(lines: Seq<Seq<char>>, k: int, kk: int)
    requires
        parse_cols_rec(lines, k) is Err,
        k <= kk,
    ensures
        parse_cols_rec(lines, kk) == parse_cols_rec(lines, k),
    decreases kk - k,
{
    if kk > k {
        lemma_cols_rec_err(lines, k, kk - 1);
    }
}

/// What reloading a table definition from its catalog text yields.
pub open spec fn parse_table_def_spec(name: Seq<char>, contents: Seq<char>) -> Result<
    TableDefV,
    ErrorV,
> {
    let lines = lines_spec(contents);
    match parse_cols_rec(lines, lines.len() as int) {
        Err(e) => Err(e),
        Ok(defs) => Ok(TableDefV { name, column_defs: defs }),
    }
}

/// Parses one catalog line into its column definition.
fn parse_col_line(line: &str) -> (r: Result<ColumnDefinition, SqlError>)
    ensures
        res_view(r) == parse_col_line_spec(line@),
{
    let parts = split_exec(line, ' ');
    if parts.len() < 3 {
        return Err(SqlError::CatalogCorrupt(String::from_str(line)));
    }
    proof {
        assert(parts.deep_view()[1] == parts@[1]@);
        assert(parts.deep_view()[0] == parts@[0]@);
        assert(parts.deep_view()[2] == parts@[2]@);
    }
    match Datatype::parse_from_str(parts[1].as_str()) {
        Err(_) => Err(SqlError::CatalogCorrupt(String::from_str(line))),
        Ok(d) => match classify_wide_numeral(parts[2].as_str()) {
            WideNumeralClass::Value(v) => {
                if v <= 65535 {
                    Ok(ColumnDefinition { name: parts[0].clone(), data_type: d, length: v })
                } else {
                    Err(SqlError::CatalogCorrupt(String::from_str(line)))
                }
            },
            _ => Err(SqlError::CatalogCorrupt(String::from_str(line))),
        },
    }
}

/// Reloads a table definition from its catalog text; fails with the
/// first corrupt line.
pub fn parse_table_def(table_name: String, contents: &str) -> (r: Result<
    TableDefinition,
    SqlError,
>)
    ensures
        res_view(r) == parse_table_def_spec(table_name@, contents@),
{
    let lines = split_lines(contents);
    let n = lines.len();
    let mut defs: Vec<ColumnDefinition> = Vec::new();
    proof {
        assert(defs.deep_view() =~= Seq::<ColumnDefV>::empty());
    }
    let mut k: usize = 0;
    while k < n
        invariant
            0 <= k <= n,
            n == lines.len(),
            lines.deep_view() == lines_spec(contents@),
            parse_cols_rec(lines.deep_view(), k as int) == Ok::<_, ErrorV>(defs.deep_view()),
        decreases n - k,
    {
        let ghost od = defs.deep_view();
        proof {
            assert(lines.deep_view()[k as int] == lines@[k as int]@);
        }
        match parse_col_line(lines[k].as_str()) {
            Err(e) => {
                proof {
                    lemma_cols_rec_err(lines.deep_view(), k + 1, n as int);
                }
                return Err(e);
            },
            Ok(c) => {
                defs.push(c);
                proof {
                    assert(defs.deep_view() =~= od.push(defs@[od.len() as int]@));
                }
            },
        }
        k = k + 1;
    }
    Ok(TableDefinition { name: table_name, column_defs: defs })
}

} // verus!
