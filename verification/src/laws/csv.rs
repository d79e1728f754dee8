//! CSV as it is written and read.

use crate::config::AppConfig;
use crate::input::columns;
use crate::input::csv;
use crate::input::media;
use crate::input::output;
use crate::json;
use crate::json::{JsonView, NumberView};
use crate::numeral;
use crate::outcome;
use crate::state;
use crate::text;
use vstd::prelude::*;
use vstd::utf8::{decode_utf8, valid_utf8};

verus! {

/// The text of a cell that needs no quoting: it is not empty, and holds no white
/// space and no delimiter.
pub open spec fn is_plain(cell: Seq<char>, delimiter: char) -> bool {
    &&& cell.len() > 0
    &&& forall|i: int|
        0 <= i < cell.len() ==> !text::is_white(#[trigger] cell[i]) && cell[i] != delimiter
}

/// Rows with cells, all of them plain.
pub open spec fn are_plain(rows: Seq<Seq<Seq<char>>>, delimiter: char) -> bool {
    &&& rows.len() > 0
    &&& forall|i: int| 0 <= i < rows.len() ==> (#[trigger] rows[i]).len() > 0
    &&& forall|i: int, j: int|
        0 <= i < rows.len() && 0 <= j < rows[i].len() ==> is_plain(#[trigger] rows[i][j], delimiter)
}

/// The rows in lines, with the delimiter between the cells.
pub open spec fn written(rows: Seq<Seq<Seq<char>>>, delimiter: char) -> Seq<char> {
    text::join(
        rows.map_values(|row: Seq<Seq<char>>| text::join(row, seq![delimiter])),
        "\n"@,
    )
}

/// Joined parts, taken apart at the front.
pub proof fn lemma_join_front(parts: Seq<Seq<char>>, separator: Seq<char>)
    requires
        parts.len() >= 2,
    ensures
        text::join(parts, separator) == parts[0] + separator + text::join(
            parts.drop_first(),
            separator,
        ),
    decreases parts.len(),
{
    let rest = parts.drop_first();
    let whole = text::join(parts, separator);
    if parts.len() == 2 {
        assert(text::join(rest, separator) == parts[1]);
        assert(text::join(parts.drop_last(), separator) == parts[0]);
        assert(whole =~= parts[0] + separator + parts[1]);
    } else {
        lemma_join_front(parts.drop_last(), separator);
        assert(parts.drop_last().drop_first() =~= rest.drop_last());
        assert(parts.drop_last()[0] == parts[0]);
        assert(rest.last() == parts.last());
        assert(whole =~= parts[0] + separator + (text::join(rest.drop_last(), separator) + separator
            + parts.last()));
    }
}

/// Every character of joined parts comes from a part or from the separator.
pub proof fn lemma_join_chars(
    parts: Seq<Seq<char>>,
    separator: Seq<char>,
    holds: spec_fn(char) -> bool,
)
    requires
        forall|i: int, k: int|
            0 <= i < parts.len() && 0 <= k < parts[i].len() ==> holds(#[trigger] parts[i][k]),
        forall|k: int| 0 <= k < separator.len() ==> holds(#[trigger] separator[k]),
    ensures
        forall|k: int|
            0 <= k < text::join(parts, separator).len() ==> holds(
                #[trigger] text::join(parts, separator)[k],
            ),
    decreases parts.len(),
{
    let whole = text::join(parts, separator);
    if parts.len() == 1 {
        assert forall|k: int| 0 <= k < whole.len() implies holds(#[trigger] whole[k]) by {
            assert(whole[k] == parts[0][k]);
        }
    } else if parts.len() > 1 {
        let front = parts.drop_last();
        assert forall|i: int, k: int| 0 <= i < front.len() && 0 <= k < front[i].len() implies holds(
            #[trigger] front[i][k],
        ) by {
            assert(front[i][k] == parts[i][k]);
        }
        lemma_join_chars(front, separator, holds);
        let head = text::join(front, separator);
        assert forall|k: int| 0 <= k < whole.len() implies holds(#[trigger] whole[k]) by {
            if k < head.len() {
                assert(whole[k] == head[k]);
            } else if k < head.len() + separator.len() {
                assert(whole[k] == separator[k - head.len()]);
            } else {
                assert(whole[k] == parts[parts.len() - 1][k - head.len() - separator.len()]);
            }
        }
    }
}

/// Joined parts that are not empty begin with the first part and end with the last.
pub proof fn lemma_join_ends(parts: Seq<Seq<char>>, separator: Seq<char>)
    requires
        parts.len() > 0,
        forall|i: int| 0 <= i < parts.len() ==> (#[trigger] parts[i]).len() > 0,
    ensures
        text::join(parts, separator).len() > 0,
        text::join(parts, separator).first() == parts[0].first(),
        text::join(parts, separator).last() == parts.last().last(),
    decreases parts.len(),
{
    assert(parts[0].len() > 0);
    assert(parts[parts.len() - 1].len() > 0);
    if parts.len() > 1 {
        let front = parts.drop_last();
        assert forall|i: int| 0 <= i < front.len() implies (#[trigger] front[i]).len() > 0 by {
            assert(front[i] == parts[i]);
        }
        lemma_join_ends(front, separator);
        assert(front[0] == parts[0]);
    }
}

/// Parts that do not hold the delimiter are found again between the delimiters.
pub proof fn lemma_split_join(parts: Seq<Seq<char>>, c: char)
    requires
        parts.len() > 0,
        forall|i: int| 0 <= i < parts.len() ==> !(#[trigger] parts[i]).contains(c),
    ensures
        text::split(text::join(parts, seq![c]), seq![c]) == parts,
    decreases parts.len(),
{
    let d = seq![c];
    let whole = text::join(parts, d);
    let first = parts[0];
    assert(!parts[0].contains(c));
    if parts.len() == 1 {
        assert forall|j: int| !text::occurs(whole, d, j) by {
            if text::occurs(whole, d, j) {
                assert(whole.subrange(j, j + 1)[0] == c);
                assert(whole[j] == c);
                assert(first.contains(whole[j]));
            }
        }
        text::lemma_find_none(whole, d);
        assert(text::split(whole, d) =~= parts);
    } else {
        let rest = parts.drop_first();
        lemma_join_front(parts, d);
        let k = first.len() as int;
        assert(whole.subrange(k, k + 1) =~= d);
        assert forall|j: int| 0 <= j < k implies !text::occurs(whole, d, j) by {
            if text::occurs(whole, d, j) {
                assert(whole.subrange(j, j + 1)[0] == c);
                assert(whole[j] == first[j]);
                assert(first.contains(first[j]));
            }
        }
        text::lemma_find(whole, d, k);
        assert forall|i: int| 0 <= i < rest.len() implies !(#[trigger] rest[i]).contains(c) by {
            assert(rest[i] == parts[i + 1]);
        }
        lemma_split_join(rest, c);
        assert(whole.take(k) =~= first);
        assert(whole.skip(k + 1) =~= text::join(rest, d));
        assert(seq![first] + rest =~= parts);
    }
}

/// Lines that are not empty, hold no newline and do not end in a carriage return are
/// found again between the newlines.
proof fn lemma_lines_join(parts: Seq<Seq<char>>)
    requires
        parts.len() > 0,
        forall|i: int|
            0 <= i < parts.len() ==> (#[trigger] parts[i]).len() > 0 && !parts[i].contains('\n')
                && parts[i].last() != '\r',
    ensures
        text::lines(text::join(parts, "\n"@)) == parts,
    decreases parts.len(),
{
    reveal_strlit("\n");
    let newline = "\n"@;
    let whole = text::join(parts, newline);
    let first = parts[0];
    assert(first.len() > 0 && !first.contains('\n') && first.last() != '\r');
    assert forall|k: int| 0 <= k < first.len() implies first[k] != '\n' by {
        assert(first.contains(first[k]));
    }
    if parts.len() == 1 {
        text::lemma_position(whole, '\n', whole.len() as int);
        assert(text::lines(whole) =~= parts);
    } else {
        let rest = parts.drop_first();
        lemma_join_front(parts, newline);
        let k = first.len() as int;
        assert(whole[k] == '\n');
        assert forall|j: int| 0 <= j < k implies whole[j] != '\n' by {
            assert(whole[j] == first[j]);
        }
        text::lemma_position(whole, '\n', k);
        assert forall|i: int| 0 <= i < rest.len() implies (#[trigger] rest[i]).len() > 0
            && !rest[i].contains('\n') && rest[i].last() != '\r' by {
            assert(rest[i] == parts[i + 1]);
        }
        lemma_lines_join(rest);
        assert(whole.take(k) =~= first);
        assert(whole.skip(k + 1) =~= text::join(rest, newline));
        assert(seq![first] + rest =~= parts);
    }
}

/// A filter that lets everything through changes nothing.
pub proof fn lemma_filter_all(parts: Seq<Seq<char>>)
    requires
        forall|i: int| 0 <= i < parts.len() ==> (#[trigger] parts[i]).len() > 0,
    ensures
        parts.filter(|part: Seq<char>| part.len() > 0) == parts,
    decreases parts.len(),
{
    let filled = |part: Seq<char>| part.len() > 0;
    reveal(Seq::filter);
    if parts.len() > 0 {
        let front = parts.drop_last();
        assert forall|i: int| 0 <= i < front.len() implies (#[trigger] front[i]).len() > 0 by {
            assert(front[i] == parts[i]);
        }
        lemma_filter_all(front);
        text::lemma_filter_push(front, parts.last(), filled);
        assert(front.push(parts.last()) =~= parts);
        assert(parts[parts.len() - 1].len() > 0);
    } else {
        assert(parts.filter(filled) =~= parts);
    }
}

/// A line of plain cells: it can be told from its neighbours and cannot be trimmed,
/// and its cells are found in it.
proof fn lemma_written_line(row: Seq<Seq<char>>, delimiter: char)
    requires
        delimiter != '\n',
        row.len() > 0,
        forall|j: int| 0 <= j < row.len() ==> is_plain(#[trigger] row[j], delimiter),
    ensures
        ({
            let line = text::join(row, seq![delimiter]);
            &&& line.len() > 0
            &&& !line.contains('\n')
            &&& line.last() != '\r'
            &&& text::trim(line) == line
            &&& csv::csv_cells(line, seq![delimiter]) == row
        }),
{
    let d = seq![delimiter];
    let line = text::join(row, d);
    let inside = |c: char| c != '\n';
    assert forall|i: int, k: int| 0 <= i < row.len() && 0 <= k < row[i].len() implies inside(
        #[trigger] row[i][k],
    ) by {
        assert(is_plain(row[i], delimiter));
        assert(!text::is_white(row[i][k]));
    }
    lemma_join_chars(row, d, inside);
    assert forall|k: int| 0 <= k < line.len() implies line[k] != '\n' by {
        assert(inside(line[k]));
    }
    assert forall|i: int| 0 <= i < row.len() implies (#[trigger] row[i]).len() > 0 by {
        assert(is_plain(row[i], delimiter));
    }
    lemma_join_ends(row, d);
    let last = row[row.len() - 1];
    assert(is_plain(row[0], delimiter) && is_plain(last, delimiter));
    assert(!text::is_white(row[0][0]));
    assert(!text::is_white(last[last.len() - 1]));
    assert forall|i: int| 0 <= i < row.len() implies !(#[trigger] row[i]).contains(delimiter) by {
        assert(is_plain(row[i], delimiter));
    }
    lemma_split_join(row, delimiter);
    let cells = csv::csv_cells(line, d);
    assert forall|i: int| 0 <= i < row.len() implies cells[i] == row[i] by {
        let cell = row[i];
        assert(is_plain(cell, delimiter));
        assert(!text::is_white(cell[0]));
        assert(!text::is_white(cell[cell.len() - 1]));
    }
    assert(cells =~= row);
}

/// Rows of plain numbers that are written as CSV are read back as they were, whether
/// or not a header is looked for and blank lines are passed over.
pub proof fn law_csv_reads_back_what_it_wrote(
    rows: Seq<Seq<Seq<char>>>,
    delimiter: char,
    look_for_header: bool,
    skip_blank: bool,
)
    requires
        delimiter != '\n',
        are_plain(rows, delimiter),
        columns::all_numeric(rows),
    ensures
        csv::csv_matrix(
            written(rows, delimiter),
            if look_for_header {
                "auto"@
            } else {
                "false"@
            },
            seq![delimiter],
            skip_blank,
        ) == Ok::<Seq<Seq<Seq<char>>>, Seq<char>>(rows),
{
    let d = seq![delimiter];
    let source = written(rows, delimiter);
    let whole = rows.map_values(|row: Seq<Seq<char>>| text::join(row, d));
    assert forall|i: int| 0 <= i < rows.len() implies {
        &&& (#[trigger] whole[i]).len() > 0
        &&& !whole[i].contains('\n')
        &&& whole[i].last() != '\r'
        &&& text::trim(whole[i]) == whole[i]
        &&& csv::csv_cells(whole[i], d) == rows[i]
        &&& csv::is_numeric_row(whole[i], d)
    } by {
        assert(rows[i].len() > 0);
        assert forall|j: int| 0 <= j < rows[i].len() implies is_plain(
            #[trigger] rows[i][j],
            delimiter,
        ) by {}
        lemma_written_line(rows[i], delimiter);
        assert forall|j: int| 0 <= j < rows[i].len() implies numeral::is_numeric(
            #[trigger] rows[i][j],
        ) by {}
    }
    lemma_lines_join(whole);
    assert(text::trimmed_lines(source) =~= whole);
    lemma_filter_all(whole);
    let lines = csv::csv_lines(source, skip_blank);
    assert(lines == whole);
    assert(csv::is_numeric_row(whole[0], d));
    reveal_strlit("true");
    reveal_strlit("auto");
    reveal_strlit("false");
    assert("true"@[0] != "auto"@[0]);
    assert("true"@.len() != "false"@.len());
    let read = whole.map_values(|line: Seq<char>| csv::csv_cells(line, d));
    assert(read =~= rows);
}

/// The text of the number can stand in a cell: an integer's always can, that of a
/// floating-point number where it is plain and reads as a number.
pub open spec fn fits_cell(number: NumberView, delimiter: char) -> bool {
    number matches NumberView::Float(s) ==> is_plain(s, delimiter) && numeral::is_numeric(s)
}

/// The text of a number that can stand in a cell is plain and reads as a number.
proof fn lemma_number_cell(number: NumberView, delimiter: char)
    requires
        !numeral::is_digit(delimiter),
        delimiter != '-',
        fits_cell(number, delimiter),
    ensures
        is_plain(json::number_text(number), delimiter),
        numeral::is_numeric(json::number_text(number)),
{
    reveal_strlit("-");
    let cell = json::number_text(number);
    match number {
        NumberView::Unsigned(u) => {
            numeral::lemma_decimal(u as nat);
            json::lemma_number(number);
        },
        NumberView::Signed(i) => {
            let size = if i < 0 {
                (-i) as nat
            } else {
                i as nat
            };
            numeral::lemma_decimal(size);
            json::lemma_number(number);
            let digits = numeral::decimal(size);
            assert forall|k: int| 0 <= k < cell.len() implies cell[k] == '-' || numeral::is_digit(
                #[trigger] cell[k],
            ) by {
                if i < 0 {
                    if k > 0 {
                        assert(cell[k] == digits[k - 1]);
                    }
                } else {
                    assert(cell[k] == digits[k]);
                }
            }
        },
        NumberView::Float(_) => {},
    }
    if !(number is Float) {
        assert forall|k: int| 0 <= k < cell.len() implies !text::is_white(#[trigger] cell[k])
            && cell[k] != delimiter by {
            assert(cell[k] == '-' || numeral::is_digit(cell[k]));
        }
    }
}

/// Rows of numbers as predictions.
pub open spec fn number_rows(rows: Seq<Seq<NumberView>>) -> JsonView {
    JsonView::Array(
        rows.map_values(
            |row: Seq<NumberView>|
                JsonView::Array(row.map_values(|n: NumberView| JsonView::Number(n))),
        ),
    )
}

/// The texts of rows of numbers.
pub open spec fn number_texts(rows: Seq<Seq<NumberView>>) -> Seq<Seq<Seq<char>>> {
    rows.map_values(
        |row: Seq<NumberView>| row.map_values(|n: NumberView| json::number_text(n)),
    )
}

/// Predictions that are rows of numbers can be sent back as a CSV payload, under the
/// settings that they were written with: the body of the reply is read as the texts
/// of the numbers, each in its place. So it is for all integers, and for
/// floating-point numbers by their texts.
pub proof fn law_predictions_read_back(
    cfg: AppConfig,
    rows: Seq<Seq<NumberView>>,
    delimiter: char,
    accept: Seq<char>,
)
    requires
        cfg.csv_delimiter@ == seq![delimiter],
        cfg.csv_has_header@ == "auto"@ || cfg.csv_has_header@ == "false"@,
        delimiter != '\n',
        delimiter != '-',
        !numeral::is_digit(delimiter),
        rows.len() > 0,
        forall|i: int| 0 <= i < rows.len() ==> (#[trigger] rows[i]).len() > 0,
        forall|i: int, j: int|
            0 <= i < rows.len() && 0 <= j < rows[i].len() ==> fits_cell(
                #[trigger] rows[i][j],
                delimiter,
            ),
        media::is_csv(media::accepted_type(accept)),
    ensures
        output::csv_text(number_rows(rows), cfg.csv_delimiter@) == Ok::<Seq<char>, Seq<char>>(
            written(number_texts(rows), delimiter),
        ),
        state::reply_body(cfg, number_rows(rows), accept) matches Ok((body, content_type))
            && content_type == "text/csv"@ && csv::csv_payload(body, cfg) == Ok::<
            Seq<Seq<Seq<char>>>,
            Seq<char>,
        >(number_texts(rows)),
{
    let d = seq![delimiter];
    let items = number_rows(rows)->Array_0;
    let texts = number_texts(rows);
    assert forall|i: int, j: int| 0 <= i < texts.len() && 0 <= j < texts[i].len() implies is_plain(
        #[trigger] texts[i][j],
        delimiter,
    ) && numeral::is_numeric(texts[i][j]) by {
        assert(fits_cell(rows[i][j], delimiter));
        lemma_number_cell(rows[i][j], delimiter);
    }
    assert forall|i: int| 0 <= i < texts.len() implies (#[trigger] texts[i]).len() > 0 by {
        assert(rows[i].len() > 0);
    }
    let outcomes = items.map_values(|row: JsonView| output::csv_row_text(row, d));
    let whole = texts.map_values(|row: Seq<Seq<char>>| text::join(row, d));
    assert(items[0] is Array);
    assert forall|i: int| 0 <= i < outcomes.len() implies #[trigger] outcomes[i] == Ok::<
        Seq<char>,
        Seq<char>,
    >(whole[i]) by {
        let cells = items[i]->Array_0;
        assert(cells.map_values(|cell: JsonView| output::cell_text(cell)) =~= texts[i]);
    }
    outcome::lemma_collect_values(outcomes, whole);
    let source = written(texts, delimiter);
    law_csv_reads_back_what_it_wrote(
        texts,
        delimiter,
        cfg.csv_has_header@ == "auto"@,
        cfg.csv_skip_blank_lines,
    );
    vstd::utf8::encode_utf8_valid_utf8(source);
    vstd::utf8::encode_utf8_decode_utf8(source);
}

/// The line is a row of numbers: what stands between its delimiters reads as numbers, once
/// it is trimmed.
pub open spec fn reads_as_row(line: Seq<char>, delimiter: Seq<char>) -> bool {
    forall|j: int|
        0 <= j < text::split(line, delimiter).len() ==> numeral::is_numeric(
            text::trim(#[trigger] text::split(line, delimiter)[j]),
        )
}

/// A line is a row of numbers if and only if its cells are numbers.
proof fn lemma_reads_as_row(line: Seq<char>, delimiter: Seq<char>)
    ensures
        csv::is_numeric_row(line, delimiter) == reads_as_row(line, delimiter),
{
    let parts = text::split(line, delimiter);
    let cells = csv::csv_cells(line, delimiter);
    if csv::is_numeric_row(line, delimiter) {
        assert forall|j: int| 0 <= j < parts.len() implies numeral::is_numeric(
            text::trim(#[trigger] parts[j]),
        ) by {
            assert(cells[j] == text::trim(parts[j]));
        }
    }
    if reads_as_row(line, delimiter) {
        assert forall|j: int| 0 <= j < cells.len() implies numeral::is_numeric(
            #[trigger] cells[j],
        ) by {
            assert(cells[j] == text::trim(parts[j]));
        }
    }
}

/// A first line is taken for a header if and only if it is no row of numbers.
pub proof fn law_header_lines(line: &str, delimiter: &str, r: bool)
    requires
        call_ensures(csv::csv_first_row_is_header, (line, delimiter), r),
    ensures
        r <==> !reads_as_row(line@, delimiter@),
{
    lemma_reads_as_row(line@, delimiter@);
}

/// The number of lines before the rows: one where there is a header, because the setting
/// says so, or because the setting is to look for one and the first line is no row.
pub open spec fn header_lines(lines: Seq<Seq<char>>, setting: Seq<char>, delimiter: Seq<char>) -> int {
    if setting == "true"@ {
        1
    } else if setting == "auto"@ && lines.len() > 0 && !reads_as_row(lines[0], delimiter) {
        1
    } else {
        0
    }
}

/// Behind its header, a CSV payload has rows if and only if there is a further line and
/// every one of them is a row of numbers. There is one row for each line, in the order of
/// the lines, and in it one trimmed cell for each part of the line. No line is passed over,
/// and each reason to refuse a payload has its own text.
pub proof fn law_every_line_is_a_row(
    payload: &[u8],
    cfg: &AppConfig,
    lines: Seq<Seq<char>>,
    r: Result<Vec<Vec<String>>, String>,
)
    requires
        call_ensures(csv::parse_csv_rows, (payload, cfg), r),
        valid_utf8(payload@),
        cfg.csv_skip_blank_lines ==> lines == text::filled_lines(decode_utf8(payload@)),
        !cfg.csv_skip_blank_lines ==> lines == text::trimmed_lines(decode_utf8(payload@)),
    ensures
        ({
            let d = cfg.csv_delimiter@;
            let setting = cfg.csv_has_header@;
            let known = setting == "true"@ || setting == "auto"@ || setting == "false"@;
            let first = header_lines(lines, setting, d);
            &&& r is Ok <==> known && lines.len() > first && forall|i: int|
                first <= i < lines.len() ==> reads_as_row(#[trigger] lines[i], d)
            &&& r matches Ok(rows) ==> {
                &&& rows@.len() == lines.len() - first
                &&& forall|i: int|
                    first <= i < lines.len() ==> (#[trigger] rows@[i - first])@.len()
                        == text::split(lines[i], d).len()
                &&& forall|i: int, j: int|
                    first <= i < lines.len() && 0 <= j < text::split(lines[i], d).len() ==> (
                    #[trigger] rows@[i - first]@[j])@ == text::trim(text::split(lines[i], d)[j])
            }
            &&& r matches Err(message) ==> message@ == if lines.len() == 0 {
                "Empty CSV payload"@
            } else if !known {
                "CSV_HAS_HEADER must be auto|true|false"@
            } else if lines.len() == first {
                "CSV payload contains only header row"@
            } else {
                "Expected numeric value in CSV payload"@
            }
        }),
{
    reveal_strlit("true");
    reveal_strlit("auto");
    reveal_strlit("false");
    assert("true"@[0] != "auto"@[0]);
    assert("false"@[0] != "auto"@[0]);
    assert("true"@.len() != "false"@.len());
    let d = cfg.csv_delimiter@;
    let setting = cfg.csv_has_header@;
    let first = header_lines(lines, setting, d);
    assert forall|line: Seq<char>| csv::is_numeric_row(line, d) == reads_as_row(line, d) by {
        lemma_reads_as_row(line, d);
    }
    let body = csv::csv_body(lines, setting, d);
    if lines.len() > 0 {
        assert(body =~= lines.skip(first));
        if forall|i: int| first <= i < lines.len() ==> reads_as_row(#[trigger] lines[i], d) {
            assert forall|i: int| 0 <= i < body.len() implies csv::is_numeric_row(
                #[trigger] body[i],
                d,
            ) by {
                assert(reads_as_row(lines[i + first], d));
            }
        }
        if forall|i: int| 0 <= i < body.len() ==> csv::is_numeric_row(#[trigger] body[i], d) {
            assert forall|i: int| first <= i < lines.len() implies reads_as_row(
                #[trigger] lines[i],
                d,
            ) by {
                assert(csv::is_numeric_row(body[i - first], d));
            }
        }
    }
    if let Ok(rows) = r {
        let whole = body.map_values(|line: Seq<char>| csv::csv_cells(line, d));
        assert(rows.deep_view() == whole);
        assert forall|i: int| first <= i < lines.len() implies (#[trigger] rows@[i - first])@.len()
            == text::split(lines[i], d).len() by {
            assert(whole[i - first] == rows@[i - first].deep_view());
        }
        assert forall|i: int, j: int|
            first <= i < lines.len() && 0 <= j < text::split(lines[i], d).len() implies (
        #[trigger] rows@[i - first]@[j])@ == text::trim(text::split(lines[i], d)[j]) by {
            assert(whole[i - first] == rows@[i - first].deep_view());
            assert(whole[i - first][j] == rows@[i - first]@[j]@);
        }
    }
}

/// A payload that is no text is refused.
pub proof fn law_csv_is_text(payload: &[u8], cfg: &AppConfig, r: Result<Vec<Vec<String>>, String>)
    requires
        call_ensures(csv::parse_csv_rows, (payload, cfg), r),
        !valid_utf8(payload@),
    ensures
        r matches Err(message) && message@ == "invalid utf-8 csv payload: "@ + text::utf8_error(
            payload@,
        ),
{
}

/// What stands behind a header is read as it is read alone with no header to be taken: the
/// header makes no difference to any row.
pub proof fn law_header_makes_no_difference(
    cfg: &AppConfig,
    without: &AppConfig,
    header: Seq<char>,
    body: Seq<char>,
    whole: &[u8],
    rest: &[u8],
    r: Result<Vec<Vec<String>>, String>,
    q: Result<Vec<Vec<String>>, String>,
)
    requires
        call_ensures(csv::parse_csv_rows, (whole, cfg), r),
        call_ensures(csv::parse_csv_rows, (rest, without), q),
        cfg.csv_skip_blank_lines,
        without.csv_skip_blank_lines,
        cfg.csv_delimiter@ == without.csv_delimiter@,
        without.csv_has_header@ == "false"@,
        whole@ == vstd::utf8::encode_utf8(header + seq!['\n'] + body),
        rest@ == vstd::utf8::encode_utf8(body),
        !header.contains('\n'),
        text::trim(header).len() > 0,
        cfg.csv_has_header@ == "true"@ || cfg.csv_has_header@ == "auto"@ && !reads_as_row(
            text::trim(header),
            cfg.csv_delimiter@,
        ),
        text::filled_lines(body).len() > 0,
    ensures
        outcome::deep_viewed(r) == outcome::deep_viewed(q),
{
    broadcast use {vstd::utf8::encode_utf8_valid_utf8, vstd::utf8::encode_utf8_decode_utf8};

    reveal_strlit("true");
    reveal_strlit("auto");
    reveal_strlit("false");
    assert("true"@[0] != "auto"@[0]);
    assert("false"@[0] != "auto"@[0]);
    assert("true"@.len() != "false"@.len());
    let d = cfg.csv_delimiter@;
    crate::laws::texts::law_filled_lines(header, header, body);
    let lines = text::filled_lines(header + seq!['\n'] + body);
    assert(lines == seq![text::trim(header)] + text::filled_lines(body));
    lemma_reads_as_row(text::trim(header), d);
    assert(lines[0] == text::trim(header));
    assert(csv::csv_body(lines, cfg.csv_has_header@, d) =~= text::filled_lines(body));
}

} // verus!
