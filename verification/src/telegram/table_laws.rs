//! Laws of tables: every cell is shown in its row and its column, and can be read back.

use vstd::prelude::*;
use crate::words::{join_seq, join_then_split};
use super::render_model::{
    cell, column_count, column_width, column_widths, padded, repeated, row_cells, row_line,
    rule_cells, rule_line, table_lines, table_text,
};
use super::rich::TableView;

verus! {

/// Whether a cell is shown: the cell itself, followed by nothing but spaces.
pub open spec fn shows_cell(shown: Seq<char>, value: Seq<char>) -> bool {
    value.is_prefix_of(shown) && forall|k: int|
        value.len() <= k < shown.len() ==> #[trigger] shown[k] == ' '
}

/// Whether the table has a rule: below its head, where it has one.
pub open spec fn has_rule(table: TableView) -> bool {
    1 <= table.header_rows <= table.rows.len()
}

/// The line of a row; those below the head come after the rule.
pub open spec fn line_of_row(table: TableView, r: int) -> int {
    if has_rule(table) && table.header_rows <= r {
        r + 1
    } else {
        r
    }
}

/// A rule is drawn of two characters alone.
pub open spec fn is_rule(line: Seq<char>) -> bool {
    forall|k: int| 0 <= k < line.len() ==> #[trigger] line[k] == '─' || line[k] == '┼'
}

/// Whether lines lay a table out as a grid: each row on its own line, its cells in their
/// columns between bars, all lines equally long, and a rule below the head. A row that is
/// shorter than others ends in empty cells.
pub open spec fn is_layout(
    table: TableView,
    columns: nat,
    lines: Seq<Seq<char>>,
    grid: Seq<Seq<Seq<char>>>,
) -> bool {
    &&& lines.len() == table.rows.len() + (if has_rule(table) {
        1int
    } else {
        0
    })
    &&& grid.len() == table.rows.len()
    &&& forall|r: int|
        0 <= r < grid.len() ==> lines[line_of_row(table, r)] == join_seq(
            #[trigger] grid[r],
            " | "@,
        )
    &&& forall|r: int| 0 <= r < grid.len() ==> (#[trigger] grid[r]).len() == columns
    &&& forall|r: int, c: int|
        0 <= r < grid.len() && 0 <= c < columns ==> shows_cell(
            #[trigger] grid[r][c],
            if c < table.rows[r].len() {
                table.rows[r][c]
            } else {
                Seq::empty()
            },
        )
    &&& forall|r: int, q: int, c: int|
        0 <= r < grid.len() && 0 <= q < grid.len() && 0 <= c < columns ==> (#[trigger] grid[r][c]).len()
            == (#[trigger] grid[q][c]).len()
    &&& forall|k: int|
        0 <= k < lines.len() ==> (#[trigger] lines[k]).len() == lines[0].len()
    &&& has_rule(table) ==> is_rule(lines[table.header_rows as int])
}

// ---------------------------------------------------------------------------
// Rows and columns
// ---------------------------------------------------------------------------
proof fn lemma_repeated(s: Seq<char>, n: nat)
    requires
        s.len() == 1,
    ensures
        repeated(s, n).len() == n,
        forall|k: int| 0 <= k < n ==> #[trigger] repeated(s, n)[k] == s[0],
    decreases n,
{
    if n > 0 {
        lemma_repeated(s, (n - 1) as nat);
    }
}

proof fn lemma_padded(value: Seq<char>, width: nat)
    ensures
        shows_cell(padded(value, width), value),
        padded(value, width).len() == (if value.len() >= width {
            value.len()
        } else {
            width
        }),
{
    reveal_strlit(" ");
    let r = padded(value, width);
    if value.len() < width {
        lemma_repeated(" "@, (width - value.len()) as nat);
    }
    assert(r.subrange(0, value.len() as int) =~= value);
}

/// No row has more cells than there are columns, and one has as many.
pub proof fn columns_are_those_of_the_longest_row(rows: Seq<Seq<Seq<char>>>)
    ensures
        forall|r: int| 0 <= r < rows.len() ==> (#[trigger] rows[r]).len() <= column_count(rows),
        rows.len() > 0 ==> exists|r: int|
            0 <= r < rows.len() && (#[trigger] rows[r]).len() == column_count(rows),
    decreases rows.len(),
{
    if rows.len() > 0 {
        let rest = rows.drop_last();
        columns_are_those_of_the_longest_row(rest);
        assert forall|r: int| 0 <= r < rows.len() implies (#[trigger] rows[r]).len()
            <= column_count(rows) by {
            if r < rest.len() {
                assert(rest[r].len() <= column_count(rest));
            }
        }
        if rows.last().len() > column_count(rest) || rest.len() == 0 {
            assert(rows[rows.len() - 1].len() == column_count(rows));
        } else {
            let r = choose|r: int|
                0 <= r < rest.len() && (#[trigger] rest[r]).len() == column_count(rest);
            assert(rows[r].len() == column_count(rows));
        }
    }
}

/// No cell is wider than its column, and one fills it.
pub proof fn column_is_as_wide_as_its_widest_cell(rows: Seq<Seq<Seq<char>>>, c: int)
    requires
        0 <= c,
    ensures
        forall|r: int|
            0 <= r < rows.len() && c < (#[trigger] rows[r]).len() ==> rows[r][c].len()
                <= column_width(rows, c),
        column_width(rows, c) > 0 ==> exists|r: int|
            0 <= r < rows.len() && c < (#[trigger] rows[r]).len() && rows[r][c].len()
                == column_width(rows, c),
    decreases rows.len(),
{
    if rows.len() > 0 {
        let rest = rows.drop_last();
        column_is_as_wide_as_its_widest_cell(rest, c);
        assert forall|r: int| 0 <= r < rows.len() && c < (#[trigger] rows[r]).len() implies rows[r][c].len()
            <= column_width(rows, c) by {
            if r < rest.len() {
                assert(c < rest[r].len());
            }
        }
        if column_width(rows, c) > 0 {
            if cell(rows.last(), c).len() > column_width(rest, c) {
                let r = rows.len() - 1;
                assert(c < rows[r].len() && rows[r][c].len() == column_width(rows, c));
            } else {
                let r = choose|r: int|
                    0 <= r < rest.len() && c < (#[trigger] rest[r]).len() && rest[r][c].len()
                        == column_width(rest, c);
                assert(c < rows[r].len());
            }
        }
    }
}

// ---------------------------------------------------------------------------
// The layout
// ---------------------------------------------------------------------------
spec fn total(lengths: Seq<nat>) -> nat
    decreases lengths.len(),
{
    if lengths.len() == 0 {
        0
    } else if lengths.len() == 1 {
        lengths[0]
    } else {
        lengths[0] + 3 + total(lengths.drop_first())
    }
}

proof fn lemma_join_len(parts: Seq<Seq<char>>, sep: Seq<char>, lengths: Seq<nat>)
    requires
        sep.len() == 3,
        parts.len() == lengths.len(),
        forall|i: int| 0 <= i < parts.len() ==> (#[trigger] parts[i]).len() == lengths[i],
    ensures
        join_seq(parts, sep).len() == total(lengths),
    decreases parts.len(),
{
    if parts.len() > 1 {
        let rest = parts.drop_first();
        assert forall|i: int| 0 <= i < rest.len() implies (#[trigger] rest[i]).len()
            == lengths.drop_first()[i] by {
            assert(rest[i] == parts[i + 1]);
        }
        lemma_join_len(rest, sep, lengths.drop_first());
    } else if parts.len() == 1 {
        assert(parts[0].len() == lengths[0]);
    }
}

proof fn lemma_join_chars(parts: Seq<Seq<char>>, sep: Seq<char>, k: int)
    requires
        0 <= k < join_seq(parts, sep).len(),
    ensures
        sep.contains(join_seq(parts, sep)[k]) || exists|i: int|
            0 <= i < parts.len() && (#[trigger] parts[i]).contains(join_seq(parts, sep)[k]),
    decreases parts.len(),
{
    let s = join_seq(parts, sep);
    if parts.len() == 1 {
        assert(parts[0].contains(s[k]));
    } else if parts.len() > 1 {
        let n = parts[0].len();
        if k < n {
            assert(parts[0][k] == s[k]);
            assert(parts[0].contains(s[k]));
        } else if k < n + sep.len() {
            assert(sep[k - n] == s[k]);
        } else {
            let rest = parts.drop_first();
            let j = k - n - sep.len();
            assert(join_seq(rest, sep)[j] == s[k]);
            lemma_join_chars(rest, sep, j);
            if !sep.contains(s[k]) {
                let i = choose|i: int|
                    0 <= i < rest.len() && (#[trigger] rest[i]).contains(join_seq(rest, sep)[j]);
                assert(parts[i + 1].contains(s[k]));
            }
        }
    }
}

proof fn lemma_row(table: TableView, r: int)
    requires
        0 <= r < table.rows.len(),
    ensures
        ({
            let widths = column_widths(table.rows);
            let shown = row_cells(table.rows[r], widths);
            &&& shown.len() == column_count(table.rows)
            &&& forall|c: int|
                0 <= c < shown.len() ==> (#[trigger] shown[c]).len() == widths[c] && shows_cell(
                    shown[c],
                    if c < table.rows[r].len() {
                        table.rows[r][c]
                    } else {
                        Seq::empty()
                    },
                )
            &&& row_line(table.rows[r], widths).len() == total(widths)
        }),
{
    let widths = column_widths(table.rows);
    let shown = row_cells(table.rows[r], widths);
    reveal_strlit(" | ");
    assert forall|c: int| 0 <= c < shown.len() implies (#[trigger] shown[c]).len() == widths[c]
        && shows_cell(
        shown[c],
        if c < table.rows[r].len() {
            table.rows[r][c]
        } else {
            Seq::empty()
        },
    ) by {
        column_is_as_wide_as_its_widest_cell(table.rows, c);
        lemma_padded(cell(table.rows[r], c), widths[c]);
    }
    lemma_join_len(shown, " | "@, widths);
}

proof fn lemma_rule(widths: Seq<nat>)
    ensures
        rule_line(widths).len() == total(widths),
        is_rule(rule_line(widths)),
{
    reveal_strlit("─");
    reveal_strlit("─┼─");
    let parts = rule_cells(widths);
    assert forall|i: int| 0 <= i < parts.len() implies (#[trigger] parts[i]).len() == widths[i] by {
        lemma_repeated("─"@, widths[i]);
    }
    lemma_join_len(parts, "─┼─"@, widths);
    assert forall|k: int| 0 <= k < rule_line(widths).len() implies #[trigger] rule_line(widths)[k]
        == '─' || rule_line(widths)[k] == '┼' by {
        lemma_join_chars(parts, "─┼─"@, k);
        let x = rule_line(widths)[k];
        if !"─┼─"@.contains(x) {
            let i = choose|i: int| 0 <= i < parts.len() && (#[trigger] parts[i]).contains(x);
            lemma_repeated("─"@, widths[i]);
        }
    }
}

proof fn lemma_lines(table: TableView, widths: Seq<nat>, n: nat)
    requires
        n <= table.rows.len(),
    ensures
        ({
            let lines = table_lines(table, widths, n);
            &&& lines.len() == n + (if 1 <= table.header_rows <= n {
                1int
            } else {
                0
            })
            &&& forall|r: int|
                0 <= r < n ==> lines[if 1 <= table.header_rows <= r {
                    r + 1
                } else {
                    r
                }] == row_line(#[trigger] table.rows[r], widths)
            &&& 1 <= table.header_rows <= n ==> lines[table.header_rows as int] == rule_line(
                widths,
            )
        }),
    decreases n,
{
    if n > 0 {
        lemma_lines(table, widths, (n - 1) as nat);
        let before = table_lines(table, widths, (n - 1) as nat);
        let lines = table_lines(table, widths, n);
        assert forall|r: int| 0 <= r < n implies lines[if 1 <= table.header_rows <= r {
            r + 1
        } else {
            r
        }] == row_line(#[trigger] table.rows[r], widths) by {
            if r < n - 1 {
                let k = if 1 <= table.header_rows <= r {
                    r + 1
                } else {
                    r
                };
                assert(before[k] == row_line(table.rows[r], widths));
            }
        }
    }
}

/// A table is shown as a grid that holds every cell in its row and its column. The lines and
/// the cells of the grid come back.
pub proof fn table_shows_every_cell(table: TableView) -> (r: (
    Seq<Seq<char>>,
    Seq<Seq<Seq<char>>>,
))
    requires
        column_count(table.rows) > 0,
    ensures
        table_text(table) == join_seq(r.0, "\n"@),
        is_layout(table, column_count(table.rows), r.0, r.1),
{
    let widths = column_widths(table.rows);
    let lines = table_lines(table, widths, table.rows.len());
    let grid = table.rows.map_values(|row: Seq<Seq<char>>| row_cells(row, widths));
    lemma_lines(table, widths, table.rows.len());
    lemma_rule(widths);
    assert forall|r: int| 0 <= r < grid.len() implies lines[line_of_row(table, r)] == join_seq(
        #[trigger] grid[r],
        " | "@,
    ) && grid[r].len() == column_count(table.rows) by {
        lemma_row(table, r);
        assert(grid[r] == row_cells(table.rows[r], widths));
        assert(lines[line_of_row(table, r)] == row_line(table.rows[r], widths));
    }
    assert forall|r: int, c: int|
        0 <= r < grid.len() && 0 <= c < column_count(table.rows) implies shows_cell(
        #[trigger] grid[r][c],
        if c < table.rows[r].len() {
            table.rows[r][c]
        } else {
            Seq::empty()
        },
    ) && grid[r][c].len() == widths[c] by {
        lemma_row(table, r);
        assert(grid[r] == row_cells(table.rows[r], widths));
        assert(row_cells(table.rows[r], widths)[c].len() == widths[c]);
    }
    assert forall|k: int| 0 <= k < lines.len() implies (#[trigger] lines[k]).len() == lines[0].len() by {
        lemma_line_len(table, k);
        lemma_line_len(table, 0);
    }
    (lines, grid)
}

proof fn lemma_line_len(table: TableView, k: int)
    requires
        0 <= k < table_lines(table, column_widths(table.rows), table.rows.len()).len(),
    ensures
        table_lines(table, column_widths(table.rows), table.rows.len())[k].len() == total(
            column_widths(table.rows),
        ),
{
    let widths = column_widths(table.rows);
    lemma_lines(table, widths, table.rows.len());
    lemma_rule(widths);
    if has_rule(table) && k == table.header_rows {
    } else {
        let r = if has_rule(table) && k > table.header_rows {
            k - 1
        } else {
            k
        };
        lemma_row(table, r);
        assert(line_of_row(table, r) == k);
        assert(table_lines(table, widths, table.rows.len())[k] == row_line(table.rows[r], widths));
    }
}

// ---------------------------------------------------------------------------
// Reading a table back
// ---------------------------------------------------------------------------
/// Whether no cell holds a bar or a line feed, with which cells and rows are set apart.
pub open spec fn is_plain_table(table: TableView) -> bool {
    forall|r: int, c: int|
        0 <= r < table.rows.len() && 0 <= c < table.rows[r].len() ==> !(
        #[trigger] table.rows[r][c]).contains('|') && !table.rows[r][c].contains('\n')
}

/// Whether two cells are the same but for spaces at the end.
pub open spec fn same_cell(a: Seq<char>, b: Seq<char>) -> bool {
    shows_cell(a, b) || shows_cell(b, a)
}

proof fn lemma_bars(a: Seq<Seq<char>>, b: Seq<Seq<char>>)
    requires
        a.len() == b.len(),
        forall|i: int| 0 <= i < a.len() ==> !(#[trigger] a[i]).contains('|'),
        forall|i: int| 0 <= i < b.len() ==> !(#[trigger] b[i]).contains('|'),
        join_seq(a, " | "@) == join_seq(b, " | "@),
    ensures
        a == b,
    decreases a.len(),
{
    reveal_strlit(" | ");
    if a.len() == 0 {
        assert(a =~= b);
    } else if a.len() == 1 {
        assert(a =~= b);
    } else {
        let s = join_seq(a, " | "@);
        let (x, y) = (a[0].len() as int, b[0].len() as int);
        assert(s[x + 1] == '|');
        assert(s == b[0] + " | "@ + join_seq(b.drop_first(), " | "@));
        assert(s[y + 1] == '|');
        if x < y {
            if x + 1 < y {
                assert(b[0][x + 1] == '|');
            } else {
                assert(s[y] == ' ');
            }
        }
        if y < x {
            if y + 1 < x {
                assert(a[0][y + 1] == '|');
            } else {
                assert(s[x] == ' ');
            }
        }
        assert(a[0] =~= s.take(x));
        assert(b[0] =~= s.take(y));
        let (ra, rb) = (a.drop_first(), b.drop_first());
        assert(join_seq(ra, " | "@) =~= s.skip(x + 3));
        assert(join_seq(rb, " | "@) =~= s.skip(y + 3));
        assert forall|i: int| 0 <= i < ra.len() implies !(#[trigger] ra[i]).contains('|') by {
            assert(ra[i] == a[i + 1]);
        }
        assert forall|i: int| 0 <= i < rb.len() implies !(#[trigger] rb[i]).contains('|') by {
            assert(rb[i] == b[i + 1]);
        }
        lemma_bars(ra, rb);
        assert(a =~= seq![a[0]] + ra);
        assert(b =~= seq![b[0]] + rb);
    }
}

proof fn lemma_plain_grid(table: TableView, lines: Seq<Seq<char>>, grid: Seq<Seq<Seq<char>>>)
    requires
        is_plain_table(table),
        is_layout(table, column_count(table.rows), lines, grid),
    ensures
        forall|r: int, c: int|
            0 <= r < grid.len() && 0 <= c < column_count(table.rows) ==> !(
            #[trigger] grid[r][c]).contains('|') && !grid[r][c].contains('\n'),
        forall|k: int| 0 <= k < lines.len() ==> !(#[trigger] lines[k]).contains('\n'),
{
    reveal_strlit(" | ");
    assert forall|r: int, c: int|
        0 <= r < grid.len() && 0 <= c < column_count(table.rows) implies !(
    #[trigger] grid[r][c]).contains('|') && !grid[r][c].contains('\n') by {
        let value = if c < table.rows[r].len() {
            table.rows[r][c]
        } else {
            Seq::empty()
        };
        let shown = grid[r][c];
        assert(shows_cell(shown, value));
        assert(!value.contains('|') && !value.contains('\n'));
        assert forall|k: int| 0 <= k < shown.len() implies #[trigger] shown[k] != '|' && shown[k]
            != '\n' by {
            if k < value.len() {
                assert(value[k] == shown[k]);
            }
        }
    }
    assert forall|k: int| 0 <= k < lines.len() implies !(#[trigger] lines[k]).contains('\n') by {
        let line = lines[k];
        if has_rule(table) && k == table.header_rows {
            assert(is_rule(line));
        } else {
            let r = if has_rule(table) && k > table.header_rows {
                k - 1
            } else {
                k
            };
            assert(line_of_row(table, r) == k);
            assert(line == join_seq(grid[r], " | "@));
            if line.contains('\n') {
                let j = choose|j: int| 0 <= j < line.len() && line[j] == '\n';
                lemma_join_chars(grid[r], " | "@, j);
                let i = choose|i: int| 0 <= i < grid[r].len() && (#[trigger] grid[r][i]).contains(
                    line[j],
                );
                assert(!grid[r][i].contains('\n'));
            }
        }
    }
}

/// A table whose cells hold neither bars nor line feeds can be read back from its text: two
/// tables of one shape that are shown alike have the same cells, but for spaces at their
/// ends.
pub proof fn tables_shown_alike_are_alike(a: TableView, b: TableView, r: int, c: int)
    requires
        is_plain_table(a),
        is_plain_table(b),
        a.rows.len() == b.rows.len(),
        a.header_rows == b.header_rows,
        column_count(a.rows) == column_count(b.rows),
        0 <= r < a.rows.len(),
        0 <= c < a.rows[r].len(),
        c < b.rows[r].len(),
        table_text(a) == table_text(b),
    ensures
        same_cell(a.rows[r][c], b.rows[r][c]),
{
    columns_are_those_of_the_longest_row(a.rows);
    assert(a.rows[r].len() <= column_count(a.rows));
    let (la, ga) = table_shows_every_cell(a);
    let (lb, gb) = table_shows_every_cell(b);
    lemma_plain_grid(a, la, ga);
    lemma_plain_grid(b, lb, gb);
    reveal_strlit("\n");
    assert("\n"@ =~= seq!['\n']);
    join_then_split(la, '\n');
    join_then_split(lb, '\n');
    assert(la == lb);
    let (x, y) = (ga[r], gb[r]);
    assert(la[line_of_row(a, r)] == join_seq(ga[r], " | "@));
    assert(lb[line_of_row(b, r)] == join_seq(gb[r], " | "@));
    assert forall|i: int| 0 <= i < x.len() implies !(#[trigger] x[i]).contains('|') by {
        assert(!ga[r][i].contains('|'));
    }
    assert forall|i: int| 0 <= i < y.len() implies !(#[trigger] y[i]).contains('|') by {
        assert(!gb[r][i].contains('|'));
    }
    lemma_bars(x, y);
    let shown = ga[r][c];
    let (u, v) = (a.rows[r][c], b.rows[r][c]);
    assert(shows_cell(ga[r][c], u));
    assert(shows_cell(gb[r][c], v));
    if u.len() <= v.len() {
        assert(v.subrange(0, u.len() as int) =~= u) by {
            assert forall|k: int| 0 <= k < u.len() implies u[k] == v[k] by {
                assert(shown[k] == u[k] && shown[k] == v[k]);
            }
        }
        assert forall|k: int| u.len() <= k < v.len() implies #[trigger] v[k] == ' ' by {
            assert(shown[k] == v[k]);
        }
    } else {
        assert(u.subrange(0, v.len() as int) =~= v) by {
            assert forall|k: int| 0 <= k < v.len() implies u[k] == v[k] by {
                assert(shown[k] == u[k] && shown[k] == v[k]);
            }
        }
        assert forall|k: int| v.len() <= k < u.len() implies #[trigger] u[k] == ' ' by {
            assert(shown[k] == u[k]);
        }
    }
}

} // verus!
