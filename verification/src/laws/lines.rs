//! JSON lines.

use crate::config::AppConfig;
use crate::input::records;
use crate::input::tabular;
use crate::outcome;
use crate::text;
use vstd::prelude::*;
use vstd::utf8::encode_utf8;

verus! {

/// The values of two outcomes one after another, or the first error among them.
pub open spec fn both<T>(
    first: Result<Seq<T>, Seq<char>>,
    second: Result<Seq<T>, Seq<char>>,
) -> Result<Seq<T>, Seq<char>> {
    match (first, second) {
        (Err(message), _) => Err(message),
        (Ok(_), Err(message)) => Err(message),
        (Ok(a), Ok(b)) => Ok(a + b),
    }
}

/// White space at the end of a text makes no difference to what is left of it.
proof fn lemma_trim_end(s: Seq<char>)
    requires
        s.len() > 0,
        text::is_white(s.last()),
    ensures
        text::trim(s.drop_last()) == text::trim(s),
    decreases s.len(),
{
    if text::is_white(s.first()) {
        let rest = s.drop_first();
        if s.len() > 1 {
            assert(rest.last() == s.last());
            lemma_trim_end(rest);
            assert(s.drop_last().first() == s.first());
            assert(s.drop_last().drop_first() =~= rest.drop_last());
        } else {
            assert(rest =~= s.drop_last());
        }
    }
}

/// The filled lines of one line and more.
pub proof fn lemma_filled_cons(line: Seq<char>, rest: Seq<Seq<char>>)
    ensures
        ({
            let filled = |line: Seq<char>| line.len() > 0;
            (seq![text::trim(line)] + rest).filter(filled) == if text::trim(line).len() > 0 {
                seq![text::trim(line)] + rest.filter(filled)
            } else {
                rest.filter(filled)
            }
        }),
{
    let filled = |line: Seq<char>| line.len() > 0;
    let one = seq![text::trim(line)];
    Seq::filter_distributes_over_add(one, rest, filled);
    reveal(Seq::filter);
    assert(one.drop_last() =~= Seq::empty());
    assert(one.drop_last().filter(filled) =~= Seq::empty());
    assert(one.filter(filled) =~= if text::trim(line).len() > 0 {
        one
    } else {
        Seq::empty()
    });
    assert(Seq::<Seq<char>>::empty() + rest.filter(filled) =~= rest.filter(filled));
}

/// The filled lines of two texts with a newline between them are those of the first and
/// then those of the second.
pub proof fn lemma_filled_lines_join(a: Seq<char>, b: Seq<char>)
    ensures
        text::filled_lines(a + seq!['\n'] + b) == text::filled_lines(a) + text::filled_lines(b),
    decreases a.len(),
{
    let whole = a + seq!['\n'] + b;
    let p = text::position(a, '\n');
    text::lemma_position_bounds(a, '\n');
    assert forall|k: int| 0 <= k < p implies whole[k] != '\n' by {
        assert(whole[k] == a[k]);
    }
    assert(whole[p] == '\n');
    text::lemma_position(whole, '\n', p);
    assert(whole.take(p) =~= a.take(p));
    let line = text::strip_cr(a.take(p));
    let rest = whole.skip(p + 1);
    assert(text::lines(whole) == seq![line] + text::lines(rest));
    assert(text::trimmed_lines(whole) =~= seq![text::trim(line)] + text::trimmed_lines(rest));
    lemma_filled_cons(line, text::trimmed_lines(rest));
    if p < a.len() {
        let tail = a.skip(p + 1);
        assert(rest =~= tail + seq!['\n'] + b);
        lemma_filled_lines_join(tail, b);
        assert(text::trimmed_lines(a) =~= seq![text::trim(line)] + text::trimmed_lines(tail));
        lemma_filled_cons(line, text::trimmed_lines(tail));
        assert(text::filled_lines(whole) =~= text::filled_lines(a) + text::filled_lines(b));
    } else {
        assert(a.take(p) =~= a);
        assert(rest =~= b);
        if a.len() > 0 && a.last() == '\r' {
            lemma_trim_end(a);
        }
        assert(text::trim(line) == text::trim(a));
        if a.len() > 0 {
            let none = Seq::<Seq<char>>::empty();
            assert(text::trimmed_lines(a) =~= seq![text::trim(a)] + none);
            lemma_filled_cons(a, none);
            reveal(Seq::filter);
            assert(none.filter(|line: Seq<char>| line.len() > 0) =~= none);
            assert(text::filled_lines(whole) =~= text::filled_lines(a) + text::filled_lines(b));
        } else {
            assert(text::trim(a) =~= Seq::empty());
            assert(text::trimmed_lines(a) =~= Seq::empty());
            reveal(Seq::filter);
            assert(text::filled_lines(a) =~= Seq::empty());
            assert(text::filled_lines(whole) =~= text::filled_lines(a) + text::filled_lines(b));
        }
    }
}

/// Outcomes one after another are collected one after another.
proof fn lemma_collect_both<T>(a: Seq<Result<T, Seq<char>>>, b: Seq<Result<T, Seq<char>>>)
    ensures
        outcome::collect(a + b) == both(outcome::collect(a), outcome::collect(b)),
    decreases b.len(),
{
    if b.len() > 0 {
        lemma_collect_both(a, b.drop_last());
        assert((a + b).drop_last() =~= a + b.drop_last());
        assert((a + b).last() == b.last());
        if let (Ok(first), Ok(second)) = (outcome::collect(a), outcome::collect(b.drop_last())) {
            if let Ok(value) = b.last() {
                assert((first + second).push(value) =~= first + second.push(value));
            }
        }
    } else {
        assert(a + b =~= a);
        if let Ok(first) = outcome::collect(a) {
            assert(first + Seq::empty() =~= first);
        }
    }
}

/// Parts one after another are flattened one after another.
proof fn lemma_flatten_both<A>(a: Seq<Seq<A>>, b: Seq<Seq<A>>)
    ensures
        (a + b).flatten() == a.flatten() + b.flatten(),
    decreases b.len(),
{
    if b.len() > 0 {
        lemma_flatten_both(a, b.drop_last());
        tabular::lemma_flatten_push(a + b.drop_last(), b.last());
        tabular::lemma_flatten_push(b.drop_last(), b.last());
        assert((a + b.drop_last()).push(b.last()) =~= a + b);
        assert(b.drop_last().push(b.last()) =~= b);
        assert((a.flatten() + b.drop_last().flatten()) + b.last() =~= a.flatten() + (
        b.drop_last().flatten() + b.last()));
    } else {
        assert(a + b =~= a);
        assert(b.flatten() =~= Seq::empty());
        assert(a.flatten() + b.flatten() =~= a.flatten());
    }
}

/// The rows of two texts with a newline between them are those of the first and then those
/// of the second.
pub proof fn lemma_rows_join(first: Seq<char>, second: Seq<char>, key: Seq<char>)
    ensures
        tabular::rows_of_lines(text::filled_lines(first + seq!['\n'] + second), key) == both(
            tabular::rows_of_lines(text::filled_lines(first), key),
            tabular::rows_of_lines(text::filled_lines(second), key),
        ),
{
    let a = text::filled_lines(first);
    let b = text::filled_lines(second);
    lemma_filled_lines_join(first, second);
    let rower = |line: Seq<char>| tabular::line_rows(line, key);
    assert((a + b).map_values(rower) =~= a.map_values(rower) + b.map_values(rower));
    lemma_collect_both(a.map_values(rower), b.map_values(rower));
    if let (Ok(x), Ok(y)) = (
        outcome::collect(a.map_values(rower)),
        outcome::collect(b.map_values(rower)),
    ) {
        lemma_flatten_both(x, y);
    }
}

/// The records of two texts with a newline between them are those of the first and then
/// those of the second.
pub proof fn lemma_records_join(first: Seq<char>, second: Seq<char>)
    ensures
        ({
            let reader = |line: Seq<char>| records::line_record(line);
            outcome::collect(
                text::filled_lines(first + seq!['\n'] + second).map_values(reader),
            ) == both(
                outcome::collect(text::filled_lines(first).map_values(reader)),
                outcome::collect(text::filled_lines(second).map_values(reader)),
            )
        }),
{
    let a = text::filled_lines(first);
    let b = text::filled_lines(second);
    lemma_filled_lines_join(first, second);
    let reader = |line: Seq<char>| records::line_record(line);
    assert((a + b).map_values(reader) =~= a.map_values(reader) + b.map_values(reader));
    lemma_collect_both(a.map_values(reader), b.map_values(reader));
}

/// Two payloads of JSON lines with a newline between them hold the records, and the
/// rows, of the first and then those of the second; an error in the first comes before
/// one in the second.
pub proof fn law_json_lines_can_be_joined(cfg: AppConfig, first: Seq<char>, second: Seq<char>)
    ensures
        records::json_lines_payload_records(encode_utf8(first + seq!['\n'] + second)) == both(
            records::json_lines_payload_records(encode_utf8(first)),
            records::json_lines_payload_records(encode_utf8(second)),
        ),
        tabular::json_lines_payload_rows(encode_utf8(first + seq!['\n'] + second), cfg) == both(
            tabular::json_lines_payload_rows(encode_utf8(first), cfg),
            tabular::json_lines_payload_rows(encode_utf8(second), cfg),
        ),
{
    broadcast use {vstd::utf8::encode_utf8_valid_utf8, vstd::utf8::encode_utf8_decode_utf8};

    lemma_records_join(first, second);
    lemma_rows_join(first, second, cfg.jsonl_features_key@);
}

} // verus!
