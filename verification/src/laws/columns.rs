//! Columns of a matrix.

use crate::config::AppConfig;
use crate::input::columns;
use crate::laws::csv;
use crate::laws::numbers;
use crate::numeral;
use crate::outcome;
use crate::text;
use vstd::prelude::*;

verus! {

/// The numbers of a filtered range are those of the range that the filter lets
/// through.
proof fn lemma_filtered_range(n_cols: usize, keep: spec_fn(usize) -> bool, k: nat)
    requires
        k <= n_cols,
    ensures
        forall|column: usize|
            #[trigger] columns::index_range(0, n_cols).take(k as int).filter(keep).contains(column)
                <==> column < k && keep(column),
    decreases k,
{
    let range = columns::index_range(0, n_cols);
    reveal(Seq::filter);
    if k > 0 {
        lemma_filtered_range(n_cols, keep, (k - 1) as nat);
        let before = range.take(k - 1);
        assert(range.take(k as int) =~= before.push((k - 1) as usize));
        text::lemma_filter_push(before, (k - 1) as usize, keep);
        let kept = before.filter(keep);
        assert forall|column: usize|
            #[trigger] range.take(k as int).filter(keep).contains(column) <==> column < k && keep(
                column,
            ) by {
            assert(kept.contains(column) <==> column < k - 1 && keep(column));
            let last = (k - 1) as usize;
            if keep(last) {
                let all = kept.push(last);
                if all.contains(column) {
                    let i = choose|i: int| 0 <= i < all.len() && all[i] == column;
                    if i < kept.len() {
                        assert(kept[i] == column);
                        assert(kept.contains(column));
                    }
                }
                if kept.contains(column) {
                    let i = choose|i: int| 0 <= i < kept.len() && kept[i] == column;
                    assert(all[i] == column);
                }
                assert(all[kept.len() as int] == last);
            }
        }
    } else {
        assert(range.take(0).filter(keep) =~= Seq::empty());
    }
}

/// A blank selector names all columns.
pub proof fn law_blank_selector_names_all(selector: Seq<char>, n_cols: usize)
    requires
        text::trim(selector).len() == 0,
    ensures
        columns::selected(selector, n_cols) == Ok::<Seq<usize>, Seq<char>>(
            columns::index_range(0, n_cols),
        ),
{
}

/// A range names columns that exist, each once and in their order, whatever its ends
/// are.
pub proof fn law_range_names_existing_columns(selector: Seq<char>, n_cols: usize)
    requires
        text::position(text::trim(selector), ':') < text::trim(selector).len(),
    ensures
        columns::selected(selector, n_cols) matches Ok(named) ==> {
            &&& forall|i: int| 0 <= i < named.len() ==> #[trigger] named[i] < n_cols
            &&& forall|i: int, j: int|
                0 <= i < j < named.len() ==> #[trigger] named[i] < #[trigger] named[j]
        },
{
}

/// Where no selector is set, the matrix stays as it is.
pub proof fn law_no_selector_keeps_all<T>(matrix: Seq<Seq<T>>)
    ensures
        columns::selection(matrix, Seq::empty(), Seq::empty()) == Ok::<Seq<Seq<T>>, Seq<char>>(
            matrix,
        ),
        columns::selection_fits(matrix, Seq::empty(), Seq::empty()),
{
}

/// The choice among columns leaves every row in its place, and gives all rows the
/// same number of columns.
pub proof fn law_selection_keeps_rows<T>(
    matrix: Seq<Seq<T>>,
    feature_columns: Seq<char>,
    id_columns: Seq<char>,
)
    requires
        feature_columns.len() > 0 || id_columns.len() > 0,
    ensures
        columns::selection(matrix, feature_columns, id_columns) matches Ok(rows) ==> {
            &&& rows.len() == matrix.len()
            &&& forall|i: int, j: int|
                0 <= i < rows.len() && 0 <= j < rows.len() ==> (#[trigger] rows[i]).len() == (
                #[trigger] rows[j]).len()
        },
{
}

/// Where only the columns to be kept back are set, the columns that go to the model
/// are just the others, and a matrix whose rows all have the length of the first
/// has all of them.
pub proof fn law_kept_back_columns_are_left_out(
    matrix: Seq<Seq<Seq<char>>>,
    id_columns: Seq<char>,
    ids: Seq<usize>,
)
    requires
        id_columns.len() > 0,
        columns::selected(id_columns, columns::column_count(matrix)) == Ok::<
            Seq<usize>,
            Seq<char>,
        >(ids),
    ensures
        columns::chosen_columns(
            Seq::empty(),
            id_columns,
            columns::column_count(matrix),
        ) matches Some(Ok(chosen)) && forall|column: usize|
            #[trigger] chosen.contains(column) <==> column < columns::column_count(matrix)
                && !ids.contains(column),
        (forall|i: int| 0 <= i < matrix.len() ==> (#[trigger] matrix[i]).len()
            == columns::column_count(matrix)) ==> columns::selection_fits(
            matrix,
            Seq::empty(),
            id_columns,
        ),
{
    let n_cols = columns::column_count(matrix);
    let keep = |column: usize| !ids.contains(column);
    let range = columns::index_range(0, n_cols);
    lemma_filtered_range(n_cols, keep, n_cols as nat);
    assert(range.take(n_cols as int) =~= range);
    let chosen = range.filter(keep);
    assert(columns::chosen_columns(Seq::empty(), id_columns, n_cols) == Some(
        Ok::<Seq<usize>, Seq<char>>(chosen),
    ));
    assert forall|column: usize| #[trigger] chosen.contains(column) <==> column < n_cols
        && !ids.contains(column) by {
        assert(range.take(n_cols as int).filter(keep).contains(column) <==> column < n_cols && keep(
            column,
        ));
    }
    if forall|i: int| 0 <= i < matrix.len() ==> (#[trigger] matrix[i]).len() == n_cols {
        assert forall|i: int, k: int|
            0 <= i < matrix.len() && 0 <= k < chosen.len() implies #[trigger] chosen[k]
            < (#[trigger] matrix[i]).len() by {
            assert(chosen.contains(chosen[k]));
        }
    }
}


/// The columns are in ascending order.
pub open spec fn ascending(columns: Seq<usize>) -> bool {
    forall|i: int, j: int|
        0 <= i < j < columns.len() ==> #[trigger] columns[i] < #[trigger] columns[j]
}

/// The numbers of a filtered range are in ascending order.
proof fn lemma_filtered_range_ascends(n_cols: usize, keep: spec_fn(usize) -> bool, k: nat)
    requires
        k <= n_cols,
    ensures
        ascending(columns::index_range(0, n_cols).take(k as int).filter(keep)),
    decreases k,
{
    let range = columns::index_range(0, n_cols);
    reveal(Seq::filter);
    if k > 0 {
        lemma_filtered_range_ascends(n_cols, keep, (k - 1) as nat);
        lemma_filtered_range(n_cols, keep, (k - 1) as nat);
        let before = range.take(k - 1);
        let kept = before.filter(keep);
        let last = (k - 1) as usize;
        assert(range.take(k as int) =~= before.push(last));
        text::lemma_filter_push(before, last, keep);
        let all = range.take(k as int).filter(keep);
        assert forall|i: int, j: int| 0 <= i < j < all.len() implies #[trigger] all[i]
            < #[trigger] all[j] by {
            assert(all[i] == kept[i]);
            assert(kept.contains(kept[i]));
            if j < kept.len() {
                assert(all[j] == kept[j]);
            }
        }
    } else {
        assert(range.take(0).filter(keep) =~= Seq::empty());
    }
}

/// A selector that is blank names all columns from the first to the last.
pub proof fn law_blank_selectors(selector: &str, n_cols: usize, r: Result<Vec<usize>, String>)
    requires
        call_ensures(columns::parse_col_selector, (selector, n_cols), r),
        text::trim(selector@).len() == 0,
    ensures
        r matches Ok(named) && named@.len() == n_cols && forall|i: int|
            0 <= i < n_cols ==> #[trigger] named@[i] == i,
{
}

/// The end of a range: what it stands for where it is left out, and else its number.
pub open spec fn bound(end: Seq<char>, left_out: usize) -> Option<usize> {
    if end.len() == 0 {
        Some(left_out)
    } else {
        numeral::parse_usize(end)
    }
}

/// A range with a colon names the existing columns from its start up to its end, each
/// once and in ascending order. A start that is left out is the first column, an end that
/// is left out the number of columns; a range with an end that is no number is refused.
pub proof fn law_ranges(
    selector: &str,
    n_cols: usize,
    start: Seq<char>,
    end: Seq<char>,
    r: Result<Vec<usize>, String>,
)
    requires
        call_ensures(columns::parse_col_selector, (selector, n_cols), r),
        text::trim(selector@) == start + seq![':'] + end,
        !start.contains(':'),
    ensures
        match (bound(start, 0), bound(end, n_cols)) {
            (Some(from), Some(to)) => r matches Ok(named) && ascending(named@) && forall|column: usize|
                #[trigger] named@.contains(column) <==> from <= column < to && column < n_cols,
            _ => r matches Err(message) && message@ == "Invalid column selector"@,
        },
{
    let trimmed = text::trim(selector@);
    let p = start.len() as int;
    assert forall|k: int| 0 <= k < p implies trimmed[k] != ':' by {
        assert(trimmed[k] == start[k]);
        assert(start.contains(start[k]));
    }
    assert(trimmed[p] == ':');
    text::lemma_position(trimmed, ':', p);
    assert(trimmed.take(p) =~= start);
    assert(trimmed.skip(p + 1) =~= end);
    if let (Some(from), Some(to)) = (bound(start, 0), bound(end, n_cols)) {
        let last = columns::smaller(to, n_cols);
        let first = columns::smaller(from, last);
        let named = columns::index_range(first, last);
        assert(outcome::viewed(r) == Ok::<Seq<usize>, Seq<char>>(named));
        assert forall|column: usize| #[trigger] named.contains(column) <==> from <= column < to
            && column < n_cols by {
            if from <= column < to && column < n_cols {
                assert(named[column - first] == column);
            }
        }
    }
}

/// A list names one column for each of its parts that is not blank, in the order of the
/// list and as often as the list does; a list with another part that is no number is
/// refused.
pub proof fn law_lists(
    selector: &str,
    n_cols: usize,
    parts: Seq<Seq<char>>,
    r: Result<Vec<usize>, String>,
)
    requires
        call_ensures(columns::parse_col_selector, (selector, n_cols), r),
        parts.len() > 0,
        text::trim(selector@) == text::join(parts, seq![',']),
        text::trim(selector@).len() > 0,
        !text::trim(selector@).contains(':'),
        forall|k: int| 0 <= k < parts.len() ==> !(#[trigger] parts[k]).contains(','),
    ensures
        ({
            let filled = parts.map_values(|part: Seq<char>| text::trim(part)).filter(
                |part: Seq<char>| part.len() > 0,
            );
            &&& r is Ok <==> forall|k: int|
                0 <= k < filled.len() ==> numeral::parse_usize(#[trigger] filled[k]) is Some
            &&& r matches Ok(named) ==> named@.len() == filled.len() && forall|k: int|
                0 <= k < filled.len() ==> numeral::parse_usize(#[trigger] filled[k]) == Some(
                    named@[k],
                )
            &&& r matches Err(message) ==> message@ == "Invalid column selector"@
        }),
{
    reveal_strlit(",");
    assert(","@ =~= seq![',']);
    let trimmed = text::trim(selector@);
    assert forall|k: int| 0 <= k < trimmed.len() implies trimmed[k] != ':' by {
        assert(trimmed.contains(trimmed[k]));
    }
    text::lemma_position(trimmed, ':', trimmed.len() as int);
    csv::lemma_split_join(parts, ',');
    let filled = parts.map_values(|part: Seq<char>| text::trim(part)).filter(
        |part: Seq<char>| part.len() > 0,
    );
    let outcomes = filled.map_values(|part: Seq<char>| columns::listed_column(part));
    outcome::lemma_collected(outcomes);
    outcome::lemma_collect_is_ok(outcomes);
    lemma_list_error(outcomes);
    assert(outcome::viewed(r) == outcome::collect(outcomes));
    assert forall|k: int| 0 <= k < filled.len() implies (#[trigger] outcomes[k] is Ok
        <==> numeral::parse_usize(filled[k]) is Some) by {}
    if r is Ok {
        assert forall|k: int| 0 <= k < filled.len() implies numeral::parse_usize(
            #[trigger] filled[k],
        ) == Some(r->Ok_0@[k]) by {
            assert(outcomes[k] == Ok::<usize, Seq<char>>(r->Ok_0@[k]));
        }
    }
    if forall|k: int| 0 <= k < filled.len() ==> numeral::parse_usize(#[trigger] filled[k]) is Some {
        assert forall|k: int| 0 <= k < outcomes.len() implies #[trigger] outcomes[k] is Ok by {
            assert(numeral::parse_usize(filled[k]) is Some);
        }
    }
}

/// The error of a list is the one that its parts have.
proof fn lemma_list_error(outcomes: Seq<Result<usize, Seq<char>>>)
    requires
        forall|k: int|
            0 <= k < outcomes.len() ==> (#[trigger] outcomes[k] matches Err(message) ==> message
                == "Invalid column selector"@),
    ensures
        outcome::collect(outcomes) matches Err(message) ==> message == "Invalid column selector"@,
    decreases outcomes.len(),
{
    if outcomes.len() > 0 {
        let rest = outcomes.drop_last();
        assert forall|k: int| 0 <= k < rest.len() implies (#[trigger] rest[k] matches Err(message)
            ==> message == "Invalid column selector"@) by {
            assert(rest[k] == outcomes[k]);
        }
        lemma_list_error(rest);
        assert(outcomes[outcomes.len() - 1] == outcomes.last());
    }
}

/// The numbers of the columns in decimal, with commas between them.
pub open spec fn column_list(columns: Seq<usize>) -> Seq<char> {
    text::join(columns.map_values(|column: usize| numeral::decimal(column as nat)), seq![','])
}

/// A list of decimal numbers names these numbers.
proof fn lemma_column_list(columns: Seq<usize>, n_cols: usize)
    requires
        columns.len() > 0,
    ensures
        column_list(columns).len() > 0,
        columns::selected(column_list(columns), n_cols) == Ok::<Seq<usize>, Seq<char>>(columns),
{
    reveal_strlit(",");
    assert(","@ =~= seq![',']);
    let parts = columns.map_values(|column: usize| numeral::decimal(column as nat));
    let list = column_list(columns);
    let inside = |c: char| numeral::is_digit(c) || c == ',';
    assert forall|k: int| 0 <= k < parts.len() implies {
        &&& (#[trigger] parts[k]).len() > 0
        &&& numeral::digits(parts[k])
        &&& !parts[k].contains(',')
        &&& text::trim(parts[k]) == parts[k]
        &&& numeral::parse_usize(parts[k]) == Some(columns[k])
    } by {
        numeral::lemma_decimal(columns[k] as nat);
        numbers::law_decimal_reads_back(columns[k]);
        let part = parts[k];
        assert(numeral::is_digit(part[0]));
        assert(numeral::is_digit(part[part.len() - 1]));
        assert forall|i: int| 0 <= i < part.len() implies part[i] != ',' by {
            assert(numeral::is_digit(part[i]));
        }
    }
    assert forall|i: int, k: int| 0 <= i < parts.len() && 0 <= k < parts[i].len() implies inside(
        #[trigger] parts[i][k],
    ) by {
        assert(numeral::digits(parts[i]));
    }
    csv::lemma_join_chars(parts, seq![','], inside);
    csv::lemma_join_ends(parts, seq![',']);
    assert(numeral::digits(parts[0]));
    assert(numeral::is_digit(parts[0][0]));
    let last = parts[parts.len() - 1];
    assert(numeral::digits(last));
    assert(numeral::is_digit(last[last.len() - 1]));
    assert(text::trim(list) == list);
    assert forall|k: int| 0 <= k < list.len() implies list[k] != ':' by {
        assert(inside(list[k]));
    }
    text::lemma_position(list, ':', list.len() as int);
    csv::lemma_split_join(parts, ',');
    let trimmed = parts.map_values(|part: Seq<char>| text::trim(part));
    assert(trimmed =~= parts);
    csv::lemma_filter_all(parts);
    let outcomes = parts.map_values(|part: Seq<char>| columns::listed_column(part));
    assert forall|k: int| 0 <= k < outcomes.len() implies #[trigger] outcomes[k] == Ok::<
        usize,
        Seq<char>,
    >(columns[k]) by {
        assert(numeral::parse_usize(parts[k]) == Some(columns[k]));
    }
    outcome::lemma_collect_values(outcomes, columns);
}

/// Where a list of feature columns is set and every row has them, every row that goes to
/// the model has one cell for each listed column: its `k`-th cell is the one that the row
/// of the payload has in the `k`-th listed column, whatever the order of the list is and
/// however often it names a column.
pub proof fn law_listed_columns_come_in_the_order_of_the_list<T>(
    matrix: Seq<Seq<T>>,
    columns: Seq<usize>,
    id_columns: Seq<char>,
)
    requires
        columns.len() > 0,
        forall|i: int, k: int|
            0 <= i < matrix.len() && 0 <= k < columns.len() ==> #[trigger] columns[k]
                < (#[trigger] matrix[i]).len(),
    ensures
        columns::selection_fits(matrix, column_list(columns), id_columns),
        columns::selection(matrix, column_list(columns), id_columns) matches Ok(rows) && {
            &&& rows.len() == matrix.len()
            &&& forall|i: int| 0 <= i < rows.len() ==> (#[trigger] rows[i]).len() == columns.len()
            &&& forall|i: int, k: int|
                0 <= i < rows.len() && 0 <= k < columns.len() ==> #[trigger] rows[i][k]
                    == matrix[i][columns[k] as int]
        },
{
    lemma_column_list(columns, columns::column_count(matrix));
}

/// The same of the rows that are handed on.
pub proof fn law_rows_have_the_listed_columns(
    matrix: Vec<Vec<String>>,
    cfg: &AppConfig,
    columns: Seq<usize>,
    r: Result<Vec<Vec<String>>, String>,
)
    requires
        call_ensures(columns::apply_feature_selection, (matrix, cfg), r),
        cfg.tabular_feature_columns@ == column_list(columns),
        columns.len() > 0,
        forall|i: int, k: int|
            0 <= i < matrix@.len() && 0 <= k < columns.len() ==> #[trigger] columns[k] < (
            #[trigger] matrix@[i])@.len(),
    ensures
        r matches Ok(rows) && {
            &&& rows@.len() == matrix@.len()
            &&& forall|i: int|
                0 <= i < rows@.len() ==> (#[trigger] rows@[i])@.len() == columns.len()
            &&& forall|i: int, k: int|
                0 <= i < rows@.len() && 0 <= k < columns.len() ==> (#[trigger] rows@[i]@[k])@
                    == matrix@[i]@[columns[k] as int]@
        },
{
    let views = matrix.deep_view();
    assert forall|i: int, k: int|
        0 <= i < views.len() && 0 <= k < columns.len() implies #[trigger] columns[k] < (
    #[trigger] views[i]).len() by {
        assert(columns[k] < matrix@[i]@.len());
    }
    law_listed_columns_come_in_the_order_of_the_list(views, columns, cfg.tabular_id_columns@);
    let chosen = columns::selection(
        views,
        cfg.tabular_feature_columns@,
        cfg.tabular_id_columns@,
    )->Ok_0;
    let rows = r->Ok_0;
    assert(rows.deep_view() == chosen);
    assert forall|i: int| 0 <= i < rows@.len() implies (#[trigger] rows@[i])@.len()
        == columns.len() by {
        assert(chosen[i] == rows@[i].deep_view());
    }
    assert forall|i: int, k: int|
        0 <= i < rows@.len() && 0 <= k < columns.len() implies (#[trigger] rows@[i]@[k])@
        == matrix@[i]@[columns[k] as int]@ by {
        assert(chosen[i] == rows@[i].deep_view());
        assert(chosen[i][k] == rows@[i]@[k]@);
        assert(views[i] == matrix@[i].deep_view());
        assert(columns[k] < matrix@[i]@.len());
    }
}

/// The number of columns of a matrix is that of its first row.
pub open spec fn is_width(matrix: Seq<Vec<String>>, n_cols: usize) -> bool {
    n_cols == if matrix.len() == 0 {
        0
    } else {
        matrix[0]@.len()
    }
}

/// The rows have the cells of the rows of the matrix in the columns, in the order of the columns.
pub open spec fn has_columns(
    rows: Seq<Vec<String>>,
    matrix: Seq<Vec<String>>,
    columns: Seq<usize>,
) -> bool {
    &&& rows.len() == matrix.len()
    &&& forall|i: int| 0 <= i < rows.len() ==> (#[trigger] rows[i])@.len() == columns.len()
    &&& forall|i: int, k: int|
        0 <= i < rows.len() && 0 <= k < columns.len() ==> (#[trigger] rows[i]@[k])@
            == matrix[i]@[columns[k] as int]@
}

/// Cells in columns that every row has are the cells of the rows.
proof fn lemma_has_columns(rows: Vec<Vec<String>>, matrix: Vec<Vec<String>>, columns: Seq<usize>)
    requires
        rows.deep_view() == columns::cells_in(matrix.deep_view(), columns),
        columns::columns_exist(matrix.deep_view(), columns),
    ensures
        has_columns(rows@, matrix@, columns),
{
    let views = rows.deep_view();
    let cells = columns::cells_in(matrix.deep_view(), columns);
    assert(views.len() == rows@.len());
    assert forall|i: int| 0 <= i < rows@.len() implies (#[trigger] rows@[i])@.len()
        == columns.len() by {
        assert(cells[i] == rows@[i].deep_view());
    }
    assert forall|i: int, k: int|
        0 <= i < rows@.len() && 0 <= k < columns.len() implies (#[trigger] rows@[i]@[k])@
        == matrix@[i]@[columns[k] as int]@ by {
        assert(cells[i] == rows@[i].deep_view());
        assert(cells[i][k] == rows@[i]@[k]@);
        assert(matrix.deep_view()[i] == matrix@[i].deep_view());
        assert(columns[k] < matrix.deep_view()[i].len());
    }
}

/// The width of a matrix is the number of columns of what it stands for.
proof fn lemma_width(matrix: Vec<Vec<String>>, n_cols: usize)
    requires
        is_width(matrix@, n_cols),
    ensures
        columns::column_count(matrix.deep_view()) == n_cols,
{
    assert(matrix.deep_view().len() == matrix@.len());
    if matrix@.len() > 0 {
        assert(matrix.deep_view()[0] == matrix@[0].deep_view());
    }
}

/// Whatever the feature columns are set to, the rows have the cells of the columns that the
/// selector names among those of the first row, in the order in which it names them; columns to
/// be kept back make no difference, and the error of the selector is the error of all.
pub proof fn law_feature_columns_decide(
    matrix: Vec<Vec<String>>,
    cfg: &AppConfig,
    selector: &str,
    n_cols: usize,
    named: Result<Vec<usize>, String>,
    r: Result<Vec<Vec<String>>, String>,
)
    requires
        call_ensures(columns::apply_feature_selection, (matrix, cfg), r),
        call_ensures(columns::parse_col_selector, (selector, n_cols), named),
        is_width(matrix@, n_cols),
        cfg.tabular_feature_columns@ == selector@,
        selector@.len() > 0,
        named matches Ok(columns) ==> forall|i: int, k: int|
            0 <= i < matrix@.len() && 0 <= k < columns@.len() ==> #[trigger] columns@[k] < (
            #[trigger] matrix@[i])@.len(),
    ensures
        match named {
            Ok(columns) => r matches Ok(rows) && has_columns(rows@, matrix@, columns@),
            Err(reason) => r matches Err(message) && message@ == reason@,
        },
{
    lemma_width(matrix, n_cols);
    if let Ok(columns) = named {
        let views = matrix.deep_view();
        assert forall|i: int, k: int|
            0 <= i < views.len() && 0 <= k < columns@.len() implies #[trigger] columns@[k] < (
        #[trigger] views[i]).len() by {
            assert(columns@[k] < matrix@[i]@.len());
        }
        lemma_has_columns(r->Ok_0, matrix, columns@);
    }
}

/// Where only the columns to be kept back are set, the rows have the cells of all other columns
/// of the first row, in the order of the payload; the error of the selector is the error of all.
pub proof fn law_other_columns_keep_their_order(
    matrix: Vec<Vec<String>>,
    cfg: &AppConfig,
    selector: &str,
    n_cols: usize,
    named: Result<Vec<usize>, String>,
    r: Result<Vec<Vec<String>>, String>,
)
    requires
        call_ensures(columns::apply_feature_selection, (matrix, cfg), r),
        call_ensures(columns::parse_col_selector, (selector, n_cols), named),
        is_width(matrix@, n_cols),
        cfg.tabular_feature_columns@.len() == 0,
        cfg.tabular_id_columns@ == selector@,
        selector@.len() > 0,
        forall|i: int| 0 <= i < matrix@.len() ==> (#[trigger] matrix@[i])@.len() >= n_cols,
    ensures
        match named {
            Ok(ids) => exists|chosen: Seq<usize>|
                {
                    &&& #[trigger] ascending(chosen)
                    &&& forall|column: usize|
                        #[trigger] chosen.contains(column) <==> column < n_cols && !ids@.contains(
                            column,
                        )
                    &&& r matches Ok(rows) && has_columns(rows@, matrix@, chosen)
                },
            Err(reason) => r matches Err(message) && message@ == reason@,
        },
{
    lemma_width(matrix, n_cols);
    if let Ok(ids) = named {
        let keep = |column: usize| !ids@.contains(column);
        let range = columns::index_range(0, n_cols);
        lemma_filtered_range(n_cols, keep, n_cols as nat);
        lemma_filtered_range_ascends(n_cols, keep, n_cols as nat);
        assert(range.take(n_cols as int) =~= range);
        let chosen = range.filter(keep);
        assert(ascending(chosen));
        assert forall|column: usize| #[trigger] chosen.contains(column) <==> column < n_cols
            && !ids@.contains(column) by {
            assert(range.take(n_cols as int).filter(keep).contains(column) <==> column < n_cols
                && keep(column));
        }
        let views = matrix.deep_view();
        assert forall|i: int, k: int|
            0 <= i < views.len() && 0 <= k < chosen.len() implies #[trigger] chosen[k] < (
        #[trigger] views[i]).len() by {
            assert(chosen.contains(chosen[k]));
            assert(matrix@[i]@.len() >= n_cols);
        }
        lemma_has_columns(r->Ok_0, matrix, chosen);
    }
}

/// Where no columns are set, the rows are those of the payload.
pub proof fn law_no_columns_are_chosen(
    matrix: Vec<Vec<String>>,
    cfg: &AppConfig,
    r: Result<Vec<Vec<String>>, String>,
)
    requires
        call_ensures(columns::apply_feature_selection, (matrix, cfg), r),
        cfg.tabular_feature_columns@.len() == 0,
        cfg.tabular_id_columns@.len() == 0,
    ensures
        r matches Ok(rows) && rows.deep_view() == matrix.deep_view(),
{
}

/// A matrix is accepted if and only if it has a row, and its first row has the expected
/// number of columns where one is set; each reason to refuse it has its own text.
pub proof fn law_shape_of_a_matrix(
    matrix: &[Vec<String>],
    cfg: &AppConfig,
    r: Result<(), String>,
)
    requires
        call_ensures(columns::validate_tabular_matrix_shape::<String>, (matrix, cfg), r),
    ensures
        matrix@.len() == 0 ==> (r matches Err(message) && message@ == "Parsed payload is empty"@),
        matrix@.len() > 0 ==> (r is Ok <==> cfg.tabular_num_features == 0 || matrix@[0]@.len()
            == cfg.tabular_num_features),
        matrix@.len() > 0 ==> (r matches Err(message) ==> message@ == "Feature count mismatch: got "@
            + numeral::decimal(matrix@[0]@.len()) + " expected TABULAR_NUM_FEATURES="@
            + numeral::decimal(cfg.tabular_num_features as nat)),
{
}

/// Rows without a column that the settings choose are told, and only those.
pub proof fn law_missing_columns_are_told(
    matrix: &Vec<Vec<String>>,
    cfg: &AppConfig,
    selector: &str,
    n_cols: usize,
    named: Result<Vec<usize>, String>,
    r: bool,
)
    requires
        call_ensures(columns::columns_fit, (matrix, cfg), r),
        call_ensures(
            columns::parse_col_selector,
            (selector, n_cols),
            named,
        ),
        matrix@.len() > 0,
        n_cols == matrix@[0]@.len(),
        cfg.tabular_feature_columns@ == selector@,
        selector@.len() > 0,
    ensures
        r <==> (named matches Ok(columns) ==> forall|i: int, k: int|
            0 <= i < matrix@.len() && 0 <= k < columns@.len() ==> #[trigger] columns@[k] < (
            #[trigger] matrix@[i])@.len()),
{
    let views = matrix.deep_view();
    assert(views[0] == matrix@[0].deep_view());
    if let Ok(columns) = named {
        if r {
            assert forall|i: int, k: int|
                0 <= i < matrix@.len() && 0 <= k < columns@.len() implies #[trigger] columns@[k] < (
            #[trigger] matrix@[i])@.len() by {
                assert(columns@[k] < views[i].len());
            }
        }
        if forall|i: int, k: int|
            0 <= i < matrix@.len() && 0 <= k < columns@.len() ==> #[trigger] columns@[k] < (
            #[trigger] matrix@[i])@.len() {
            assert forall|i: int, k: int|
                0 <= i < views.len() && 0 <= k < columns@.len() implies #[trigger] columns@[k] < (
            #[trigger] views[i]).len() by {
                assert(columns@[k] < matrix@[i]@.len());
            }
        }
    }
}

/// Where only columns to be kept back are set, rows without another column that the first
/// row has are told, and only those; where nothing is set, there are none.
pub proof fn law_missing_other_columns_are_told(
    matrix: &Vec<Vec<String>>,
    cfg: &AppConfig,
    selector: &str,
    n_cols: usize,
    named: Result<Vec<usize>, String>,
    r: bool,
)
    requires
        call_ensures(columns::columns_fit, (matrix, cfg), r),
        call_ensures(columns::parse_col_selector, (selector, n_cols), named),
        matrix@.len() > 0,
        n_cols == matrix@[0]@.len(),
        cfg.tabular_feature_columns@.len() == 0,
        cfg.tabular_id_columns@ == selector@,
    ensures
        selector@.len() == 0 ==> r,
        selector@.len() > 0 ==> (r <==> (named matches Ok(ids) ==> forall|i: int, column: usize|
            0 <= i < matrix@.len() && column < n_cols && !#[trigger] ids@.contains(column)
                ==> column < (#[trigger] matrix@[i])@.len())),
{
    let views = matrix.deep_view();
    assert(views[0] == matrix@[0].deep_view());
    if let Ok(ids) = named {
        let keep = |column: usize| !ids@.contains(column);
        let range = columns::index_range(0, n_cols);
        lemma_filtered_range(n_cols, keep, n_cols as nat);
        assert(range.take(n_cols as int) =~= range);
        let chosen = range.filter(keep);
        assert forall|column: usize| #[trigger] chosen.contains(column) <==> column < n_cols
            && !ids@.contains(column) by {
            assert(range.take(n_cols as int).filter(keep).contains(column) <==> column < n_cols
                && keep(column));
        }
        if selector@.len() > 0 {
            assert(r == columns::columns_exist(views, chosen));
            if r {
                assert forall|i: int, column: usize|
                    0 <= i < matrix@.len() && column < n_cols && !#[trigger] ids@.contains(
                        column,
                    ) implies column < (#[trigger] matrix@[i])@.len() by {
                    assert(chosen.contains(column));
                    let k = choose|k: int| 0 <= k < chosen.len() && chosen[k] == column;
                    assert(chosen[k] < views[i].len());
                }
            }
            if forall|i: int, column: usize|
                0 <= i < matrix@.len() && column < n_cols && !#[trigger] ids@.contains(column)
                    ==> column < (#[trigger] matrix@[i])@.len() {
                assert forall|i: int, k: int|
                    0 <= i < views.len() && 0 <= k < chosen.len() implies #[trigger] chosen[k] < (
                #[trigger] views[i]).len() by {
                    assert(chosen.contains(chosen[k]));
                    assert(!ids@.contains(chosen[k]));
                    assert(chosen[k] < matrix@[i]@.len());
                }
            }
        }
    }
}

} // verus!
