//! The columns of a tabular payload: their number, and the choice among them.

use crate::config::AppConfig;
use crate::numeral;
use crate::outcome;
use crate::text;
use vstd::prelude::*;
use vstd::slice::slice_subrange;

verus! {

/// The numbers from `from` up to but without `to`.
pub open spec fn index_range(from: usize, to: usize) -> Seq<usize> {
    Seq::new(
        if from <= to {
            (to - from) as nat
        } else {
            0
        },
        |i: int| (from + i) as usize,
    )
}

/// The smaller of two numbers.
pub open spec fn smaller(a: usize, b: usize) -> usize {
    if a <= b {
        a
    } else {
        b
    }
}

/// The error for a column selector that cannot be read.
pub open spec fn selector_error() -> Seq<char> {
    "Invalid column selector"@
}

/// The end of a range of columns: a number, or the default where it is left out.
pub open spec fn range_end(raw: Seq<char>, default: usize) -> Option<usize> {
    if raw.len() == 0 {
        Some(default)
    } else {
        numeral::parse_usize(raw)
    }
}

/// The column that a part of a list names.
pub open spec fn listed_column(part: Seq<char>) -> Result<usize, Seq<char>> {
    match numeral::parse_usize(part) {
        Some(column) => Ok(column),
        None => Err(selector_error()),
    }
}

/// The columns that a list names, each by its number; blank parts name none.
pub open spec fn listed_columns(selector: Seq<char>) -> Result<Seq<usize>, Seq<char>> {
    outcome::collect(
        text::split(selector, ","@).map_values(|part: Seq<char>| text::trim(part)).filter(
            |part: Seq<char>| part.len() > 0,
        ).map_values(|part: Seq<char>| listed_column(part)),
    )
}

/// The columns that a selector names among `n_cols`: all where it is blank, those
/// of a range `from:to` as far as they exist, or those of a list.
pub open spec fn selected(selector: Seq<char>, n_cols: usize) -> Result<Seq<usize>, Seq<char>> {
    let trimmed = text::trim(selector);
    let colon = text::position(trimmed, ':');
    if trimmed.len() == 0 {
        Ok(index_range(0, n_cols))
    } else if colon < trimmed.len() {
        match (
            range_end(trimmed.take(colon), 0),
            range_end(trimmed.skip(colon + 1), n_cols),
        ) {
            (Some(start), Some(end)) => {
                let bounded = smaller(end, n_cols);
                Ok(index_range(smaller(start, bounded), bounded))
            },
            _ => Err(selector_error()),
        }
    } else {
        listed_columns(trimmed)
    }
}

/// The numbers from `from` up to but without `to`.
fn indices(from: usize, to: usize) -> (r: Vec<usize>)
    ensures
        r@ == index_range(from, to),
{
    let mut r: Vec<usize> = Vec::new();
    let mut i: usize = from;
    while i < to
        invariant
            from <= i,
            i <= to || i == from,
            r@ == index_range(from, i),
        decreases to - i,
    {
        r.push(i);
        i += 1;
        assert(r@ =~= index_range(from, i));
    }
    assert(r@ =~= index_range(from, to));
    r
}

/// The end of a range of columns.
fn read_range_end(raw: &[char], default: usize) -> (r: Option<usize>)
    ensures
        r == range_end(raw@, default),
{
    if raw.len() == 0 {
        Some(default)
    } else {
        numeral::read_usize(raw)
    }
}

/// The columns that a selector names among `n_cols`.
pub fn parse_col_selector(selector: &str, n_cols: usize) -> (r: Result<Vec<usize>, String>)
    ensures
        outcome::viewed(r) == selected(selector@, n_cols),
{
    let chars = text::chars_of(selector);
    let trimmed = text::trim_slice(chars.as_slice());
    if trimmed.len() == 0 {
        return Ok(indices(0, n_cols));
    }
    let colon = text::position_in(trimmed, ':');
    if colon < trimmed.len() {
        let start = read_range_end(slice_subrange(trimmed, 0, colon), 0);
        let end = read_range_end(slice_subrange(trimmed, colon + 1, trimmed.len()), n_cols);
        assert(trimmed@.subrange(0, colon as int) =~= trimmed@.take(colon as int));
        assert(trimmed@.subrange(colon + 1, trimmed@.len() as int) =~= trimmed@.skip(colon + 1));
        match (start, end) {
            (Some(start), Some(end)) => {
                let bounded = if end <= n_cols {
                    end
                } else {
                    n_cols
                };
                let first = if start <= bounded {
                    start
                } else {
                    bounded
                };
                Ok(indices(first, bounded))
            },
            _ => Err("Invalid column selector".to_owned()),
        }
    } else {
        read_column_list(trimmed)
    }
}

/// The columns that a list names.
fn read_column_list(selector: &[char]) -> (r: Result<Vec<usize>, String>)
    ensures
        outcome::viewed(r) == listed_columns(selector@),
{
    let comma = text::chars_of(",");
    let parts = text::split_slice(selector, comma.as_slice());
    let mut trimmed: Vec<&[char]> = Vec::new();
    let ghost trimmer = |part: Seq<char>| text::trim(part);
    let ghost whole = text::split(selector@, ","@).map_values(trimmer);
    for i in 0..parts.len()
        invariant
            text::slice_views(parts@) == text::split(selector@, ","@),
            trimmer == (|part: Seq<char>| text::trim(part)),
            whole == text::split(selector@, ","@).map_values(trimmer),
            text::slice_views(trimmed@) == whole.take(i as int),
    {
        let ghost done = text::slice_views(trimmed@);
        let part = text::trim_slice(parts[i]);
        assert(text::slice_views(parts@)[i as int] == parts@[i as int]@);
        trimmed.push(part);
        assert(text::slice_views(trimmed@) =~= done.push(part@));
        assert(whole.take(i + 1) =~= whole.take(i as int).push(part@));
    }
    assert(whole.take(parts@.len() as int) =~= whole);
    let filled = text::filled_slices(&trimmed);
    let ghost reader = |part: Seq<char>| listed_column(part);
    let ghost outcomes = text::slice_views(filled@).map_values(reader);
    let mut columns: Vec<usize> = Vec::new();
    assert(outcomes.take(0) =~= Seq::empty());
    for i in 0..filled.len()
        invariant
            reader == (|part: Seq<char>| listed_column(part)),
            outcomes == text::slice_views(filled@).map_values(reader),
            listed_columns(selector@) == outcome::collect(outcomes),
            outcome::collect(outcomes.take(i as int)) == Ok::<Seq<usize>, Seq<char>>(columns@),
    {
        proof {
            outcome::lemma_collect_step(outcomes, i as int);
            assert(outcomes[i as int] == listed_column(filled@[i as int]@));
        }
        match numeral::read_usize(filled[i]) {
            Some(column) => {
                columns.push(column);
            },
            None => {
                proof {
                    outcome::lemma_collect_error(outcomes, i + 1, selector_error());
                }
                return Err("Invalid column selector".to_owned());
            },
        }
    }
    assert(outcomes.take(filled@.len() as int) =~= outcomes);
    Ok(columns)
}

/// The number of columns of a matrix: that of its first row.
pub open spec fn column_count<T>(matrix: Seq<Seq<T>>) -> usize {
    if matrix.len() == 0 {
        0
    } else {
        matrix[0].len() as usize
    }
}

/// The error for a wrong number of columns.
pub open spec fn feature_count_error(got: usize, expected: usize) -> Seq<char> {
    "Feature count mismatch: got "@ + numeral::decimal(got as nat)
        + " expected TABULAR_NUM_FEATURES="@ + numeral::decimal(expected as nat)
}

/// The verdict on the shape of a matrix with `n_rows` rows, whose first row has
/// `n_cols` columns.
pub open spec fn shape_verdict(n_rows: nat, n_cols: usize, expected: usize) -> Result<
    (),
    Seq<char>,
> {
    if n_rows == 0 {
        Err("Parsed payload is empty"@)
    } else if expected > 0 && n_cols != expected {
        Err(feature_count_error(n_cols, expected))
    } else {
        Ok(())
    }
}

/// Accepts a matrix with rows, and with the expected number of columns where one
/// is set.
pub fn validate_tabular_matrix_shape<T>(matrix: &[Vec<T>], cfg: &AppConfig) -> (r: Result<
    (),
    String,
>)
    ensures
        outcome::viewed(r) == shape_verdict(
            matrix@.len(),
            if matrix@.len() == 0 {
                0
            } else {
                matrix@[0].len()
            },
            cfg.tabular_num_features,
        ),
{
    if matrix.len() == 0 {
        return Err("Parsed payload is empty".to_owned());
    }
    if cfg.tabular_num_features > 0 {
        let got = matrix[0].len();
        if got != cfg.tabular_num_features {
            let head = text::concat(
                "Feature count mismatch: got ",
                numeral::decimal_string(got as u64).as_str(),
            );
            let middle = text::concat(head.as_str(), " expected TABULAR_NUM_FEATURES=");
            return Err(
                text::concat(
                    middle.as_str(),
                    numeral::decimal_string(cfg.tabular_num_features as u64).as_str(),
                ),
            );
        }
    }
    Ok(())
}

/// The columns among `n_cols` that go to the model: those that the settings
/// choose, or all but those that they keep back. `None` where they do neither.
pub open spec fn chosen_columns(
    feature_columns: Seq<char>,
    id_columns: Seq<char>,
    n_cols: usize,
) -> Option<Result<Seq<usize>, Seq<char>>> {
    if feature_columns.len() == 0 && id_columns.len() == 0 {
        None
    } else if feature_columns.len() > 0 {
        Some(selected(feature_columns, n_cols))
    } else {
        Some(
            match selected(id_columns, n_cols) {
                Ok(ids) => Ok(index_range(0, n_cols).filter(|column: usize| !ids.contains(column))),
                Err(message) => Err(message),
            },
        )
    }
}

/// The cells of the rows in the columns.
pub open spec fn cells_in<T>(matrix: Seq<Seq<T>>, columns: Seq<usize>) -> Seq<Seq<T>> {
    matrix.map_values(|row: Seq<T>| columns.map_values(|column: usize| row[column as int]))
}

/// Every row has every one of the columns.
pub open spec fn columns_exist<T>(matrix: Seq<Seq<T>>, columns: Seq<usize>) -> bool {
    forall|i: int, k: int|
        0 <= i < matrix.len() && 0 <= k < columns.len() ==> #[trigger] columns[k]
            < (#[trigger] matrix[i]).len()
}

/// The matrix in the columns that the settings choose.
pub open spec fn selection<T>(
    matrix: Seq<Seq<T>>,
    feature_columns: Seq<char>,
    id_columns: Seq<char>,
) -> Result<Seq<Seq<T>>, Seq<char>> {
    match chosen_columns(feature_columns, id_columns, column_count(matrix)) {
        None => Ok(matrix),
        Some(Ok(columns)) => Ok(cells_in(matrix, columns)),
        Some(Err(message)) => Err(message),
    }
}

/// Every row has the columns that the settings choose.
pub open spec fn selection_fits<T>(
    matrix: Seq<Seq<T>>,
    feature_columns: Seq<char>,
    id_columns: Seq<char>,
) -> bool {
    chosen_columns(feature_columns, id_columns, column_count(matrix)) matches Some(Ok(columns))
        ==> columns_exist(matrix, columns)
}

/// Whether the list holds the column.
fn holds_column(columns: &Vec<usize>, column: usize) -> (r: bool)
    ensures
        r == columns@.contains(column),
{
    for i in 0..columns.len()
        invariant
            forall|k: int| 0 <= k < i ==> columns@[k] != column,
    {
        if columns[i] == column {
            assert(columns@[i as int] == column);
            return true;
        }
    }
    false
}

/// The columns among `n_cols` that are not listed.
fn other_columns(ids: &Vec<usize>, n_cols: usize) -> (r: Vec<usize>)
    ensures
        r@ == index_range(0, n_cols).filter(|column: usize| !ids@.contains(column)),
{
    let ghost other = |column: usize| !ids@.contains(column);
    let ghost all = index_range(0, n_cols);
    let mut r: Vec<usize> = Vec::new();
    proof {
        reveal(Seq::filter);
        assert(all.take(0).filter(other) =~= Seq::empty());
    }
    for column in 0..n_cols
        invariant
            other == (|column: usize| !ids@.contains(column)),
            all == index_range(0, n_cols),
            r@ == all.take(column as int).filter(other),
    {
        proof {
            assert(all.take(column + 1) =~= all.take(column as int).push(column));
            text::lemma_filter_push(all.take(column as int), column, other);
        }
        if !holds_column(ids, column) {
            r.push(column);
        }
    }
    assert(all.take(n_cols as int) =~= all);
    r
}

/// The columns that go to the model.
fn read_chosen_columns(cfg: &AppConfig, n_cols: usize) -> (r: Option<Result<Vec<usize>, String>>)
    ensures
        (match r {
            None => None,
            Some(columns) => Some(outcome::viewed(columns)),
        }) == chosen_columns(cfg.tabular_feature_columns@, cfg.tabular_id_columns@, n_cols),
{
    if cfg.tabular_feature_columns.as_str().is_empty() && cfg.tabular_id_columns.as_str().is_empty() {
        return None;
    }
    if !cfg.tabular_feature_columns.as_str().is_empty() {
        return Some(parse_col_selector(cfg.tabular_feature_columns.as_str(), n_cols));
    }
    match parse_col_selector(cfg.tabular_id_columns.as_str(), n_cols) {
        Ok(ids) => Some(Ok(other_columns(&ids, n_cols))),
        Err(message) => Some(Err(message)),
    }
}

/// The cells of the row in the columns.
fn row_cells(row: &Vec<String>, columns: &Vec<usize>) -> (r: Vec<String>)
    requires
        forall|k: int| 0 <= k < columns@.len() ==> #[trigger] columns@[k] < row@.len(),
    ensures
        r.deep_view() == columns@.map_values(|column: usize| row.deep_view()[column as int]),
{
    let ghost whole = columns@.map_values(|column: usize| row.deep_view()[column as int]);
    let mut r: Vec<String> = Vec::new();
    for k in 0..columns.len()
        invariant
            forall|k: int| 0 <= k < columns@.len() ==> #[trigger] columns@[k] < row@.len(),
            whole == columns@.map_values(|column: usize| row.deep_view()[column as int]),
            r@.len() == k,
            forall|j: int| 0 <= j < k ==> (#[trigger] r@[j])@ == whole[j],
    {
        let column = columns[k];
        let cell = row[column].clone();
        assert(whole[k as int] == row.deep_view()[column as int]);
        r.push(cell);
    }
    assert(r.deep_view() =~= whole);
    r
}

/// The matrix in the columns that the settings choose, with its rows unchanged
/// where they choose none.
pub fn apply_feature_selection(matrix: Vec<Vec<String>>, cfg: &AppConfig) -> (r: Result<
    Vec<Vec<String>>,
    String,
>)
    requires
        selection_fits(
            matrix.deep_view(),
            cfg.tabular_feature_columns@,
            cfg.tabular_id_columns@,
        ),
    ensures
        outcome::deep_viewed(r) == selection(
            matrix.deep_view(),
            cfg.tabular_feature_columns@,
            cfg.tabular_id_columns@,
        ),
{
    let n_cols = if matrix.len() == 0 {
        0
    } else {
        matrix[0].len()
    };
    assert(n_cols == column_count(matrix.deep_view()));
    match read_chosen_columns(cfg, n_cols) {
        None => Ok(matrix),
        Some(Err(message)) => Err(message),
        Some(Ok(columns)) => {
            let ghost whole = cells_in(matrix.deep_view(), columns@);
            let mut rows: Vec<Vec<String>> = Vec::new();
            for i in 0..matrix.len()
                invariant
                    columns_exist(matrix.deep_view(), columns@),
                    whole == cells_in(matrix.deep_view(), columns@),
                    rows@.len() == i,
                    forall|j: int| 0 <= j < i ==> (#[trigger] rows@[j]).deep_view() == whole[j],
            {
                assert(matrix.deep_view()[i as int] == matrix@[i as int].deep_view());
                assert forall|k: int| 0 <= k < columns@.len() implies #[trigger] columns@[k]
                    < matrix@[i as int]@.len() by {
                    assert(columns@[k] < matrix.deep_view()[i as int].len());
                }
                let row = row_cells(&matrix[i], &columns);
                rows.push(row);
            }
            assert(rows.deep_view() =~= whole);
            Ok(rows)
        },
    }
}

/// Every cell reads as a number.
pub open spec fn all_numeric(rows: Seq<Seq<Seq<char>>>) -> bool {
    forall|i: int, j: int|
        0 <= i < rows.len() && 0 <= j < rows[i].len() ==> numeral::is_numeric(
            #[trigger] rows[i][j],
        )
}

/// The cells of a matrix of numbers in columns that every row has are numbers.
pub proof fn lemma_selection_of_numbers(
    matrix: Seq<Seq<Seq<char>>>,
    feature_columns: Seq<char>,
    id_columns: Seq<char>,
)
    requires
        all_numeric(matrix),
        selection_fits(matrix, feature_columns, id_columns),
    ensures
        selection(matrix, feature_columns, id_columns) matches Ok(rows) ==> all_numeric(rows),
{
    if let Some(Ok(columns)) = chosen_columns(
        feature_columns,
        id_columns,
        column_count(matrix),
    ) {
        let rows = cells_in(matrix, columns);
        assert forall|i: int, j: int|
            0 <= i < rows.len() && 0 <= j < rows[i].len() implies numeral::is_numeric(
            #[trigger] rows[i][j],
        ) by {
            assert(columns[j] < matrix[i].len());
            assert(rows[i][j] == matrix[i][columns[j] as int]);
        }
    }
}

/// Whether every row has the columns that the settings choose.
pub fn columns_fit(matrix: &Vec<Vec<String>>, cfg: &AppConfig) -> (r: bool)
    ensures
        r == selection_fits(
            matrix.deep_view(),
            cfg.tabular_feature_columns@,
            cfg.tabular_id_columns@,
        ),
{
    let n_cols = if matrix.len() == 0 {
        0
    } else {
        matrix[0].len()
    };
    assert(n_cols == column_count(matrix.deep_view()));
    let columns = match read_chosen_columns(cfg, n_cols) {
        Some(Ok(columns)) => columns,
        _ => {
            return true;
        },
    };
    let ghost views = matrix.deep_view();
    for i in 0..matrix.len()
        invariant
            views == matrix.deep_view(),
            chosen_columns(
                cfg.tabular_feature_columns@,
                cfg.tabular_id_columns@,
                column_count(views),
            ) == Some(Ok::<Seq<usize>, Seq<char>>(columns@)),
            columns_exist(views.take(i as int), columns@),
    {
        let n = matrix[i].len();
        assert(views[i as int].len() == n);
        for k in 0..columns.len()
            invariant
                0 <= i < views.len(),
                views[i as int].len() == n,
                chosen_columns(
                    cfg.tabular_feature_columns@,
                    cfg.tabular_id_columns@,
                    column_count(views),
                ) == Some(Ok::<Seq<usize>, Seq<char>>(columns@)),
                views == matrix.deep_view(),
                forall|j: int| 0 <= j < k ==> #[trigger] columns@[j] < n,
        {
            if columns[k] >= n {
                assert(!(columns@[k as int] < views[i as int].len()));
                return false;
            }
        }
        assert forall|a: int, b: int|
            0 <= a < i + 1 && 0 <= b < columns@.len() implies #[trigger] columns@[b] < (
        #[trigger] views.take(i + 1)[a]).len() by {
            if a < i {
                assert(columns@[b] < views.take(i as int)[a].len());
            }
        }
    }
    assert(views.take(views.len() as int) =~= views);
    true
}

} // verus!
