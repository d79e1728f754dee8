//! Texts: what trimming, lower case, splitting, lines and joining come to.

use crate::laws::csv;
use crate::laws::lines;
use crate::text;
use vstd::prelude::*;

verus! {

/// All characters are white space.
pub open spec fn blank(s: Seq<char>) -> bool {
    forall|i: int| 0 <= i < s.len() ==> text::is_white(#[trigger] s[i])
}

/// White space is what Unicode calls so: the controls from the tab to the carriage
/// return, the space, and eleven other characters and a range of them.
pub proof fn law_white_space(c: char)
    ensures
        text::is_white(c) <==> {
            let code = c as u32;
            ||| 9 <= code <= 13
            ||| code == 32
            ||| code == 133
            ||| code == 160
            ||| code == 5760
            ||| 8192 <= code <= 8202
            ||| code == 8232
            ||| code == 8233
            ||| code == 8239
            ||| code == 8287
            ||| code == 12288
        },
{
}

/// What is left of a text that is trimmed is a part of it: behind and before it there is
/// white space only, and it neither begins nor ends with any.
pub proof fn law_trim(s: Seq<char>)
    ensures
        exists|from: int, to: int|
            0 <= from <= to <= s.len() && #[trigger] s.subrange(from, to) == text::trim(s) && blank(
                s.take(from),
            ) && blank(s.skip(to)),
        text::trim(s).len() > 0 ==> !text::is_white(text::trim(s).first()) && !text::is_white(
            text::trim(s).last(),
        ),
    decreases s.len(),
{
    if s.len() > 0 && text::is_white(s.first()) {
        let rest = s.drop_first();
        law_trim(rest);
        let (from, to) = choose|from: int, to: int|
            0 <= from <= to <= rest.len() && #[trigger] rest.subrange(from, to) == text::trim(rest)
                && blank(rest.take(from)) && blank(rest.skip(to));
        assert(s.subrange(from + 1, to + 1) =~= rest.subrange(from, to));
        assert forall|i: int| 0 <= i < s.take(from + 1).len() implies text::is_white(
            #[trigger] s.take(from + 1)[i],
        ) by {
            if i > 0 {
                assert(s.take(from + 1)[i] == rest.take(from)[i - 1]);
            }
        }
        assert(s.skip(to + 1) =~= rest.skip(to));
    } else if s.len() > 0 && text::is_white(s.last()) {
        let rest = s.drop_last();
        law_trim(rest);
        let (from, to) = choose|from: int, to: int|
            0 <= from <= to <= rest.len() && #[trigger] rest.subrange(from, to) == text::trim(rest)
                && blank(rest.take(from)) && blank(rest.skip(to));
        assert(s.subrange(from, to) =~= rest.subrange(from, to));
        assert(s.take(from) =~= rest.take(from));
        assert forall|i: int| 0 <= i < s.skip(to).len() implies text::is_white(
            #[trigger] s.skip(to)[i],
        ) by {
            if i < rest.skip(to).len() {
                assert(s.skip(to)[i] == rest.skip(to)[i]);
            }
        }
    } else {
        assert(s.subrange(0, s.len() as int) =~= s);
    }
}

/// A text that neither begins nor ends with white space is what is left where white
/// space is put round it; where there is nothing but white space, nothing is left.
pub proof fn law_trim_takes_off_what_was_put_round(a: Seq<char>, s: Seq<char>, b: Seq<char>)
    requires
        blank(a),
        blank(b),
        s.len() > 0 ==> !text::is_white(s.first()) && !text::is_white(s.last()),
    ensures
        text::trim(a + s + b) == s,
    decreases a.len() + b.len(),
{
    let whole = a + s + b;
    if a.len() > 0 {
        assert(text::is_white(a[0]));
        assert(whole.first() == a[0]);
        assert(whole.drop_first() =~= a.drop_first() + s + b);
        assert forall|i: int| 0 <= i < a.drop_first().len() implies text::is_white(
            #[trigger] a.drop_first()[i],
        ) by {
            assert(a.drop_first()[i] == a[i + 1]);
        }
        law_trim_takes_off_what_was_put_round(a.drop_first(), s, b);
    } else if b.len() > 0 {
        assert(text::is_white(b[b.len() - 1]));
        assert(whole.last() == b[b.len() - 1]);
        assert(whole.drop_last() =~= a + s + b.drop_last());
        law_trim_takes_off_what_was_put_round(a, s, b.drop_last());
        if s.len() == 0 {
            assert(whole =~= b);
            if text::is_white(whole.first()) {
                assert(blank(b.drop_first())) by {
                    assert forall|i: int| 0 <= i < b.drop_first().len() implies text::is_white(
                        #[trigger] b.drop_first()[i],
                    ) by {
                        assert(b.drop_first()[i] == b[i + 1]);
                    }
                }
                law_trim_takes_off_what_was_put_round(a, s, b.drop_first());
                assert(whole.drop_first() =~= a + s + b.drop_first());
            }
        } else {
            assert(whole.first() == s.first());
        }
    } else {
        assert(whole =~= s);
    }
}

/// Lower case turns the letters from A to Z into those from a to z, and nothing else.
pub proof fn law_lower(s: Seq<char>)
    ensures
        text::lower(s).len() == s.len(),
        forall|i: int|
            0 <= i < s.len() ==> #[trigger] text::lower(s)[i] as u32 == if 65 <= s[i] as u32 <= 90 {
                (s[i] as u32 + 32) as u32
            } else {
                s[i] as u32
            },
{
}

/// What stands before a character is the longest beginning of the text without it.
pub proof fn law_before(s: Seq<char>, c: char)
    ensures
        !text::before(s, c).contains(c),
        text::before(s, c) == s || exists|rest: Seq<char>|
            s == #[trigger] (text::before(s, c) + seq![c] + rest),
{
    text::lemma_position_bounds(s, c);
    let p = text::position(s, c);
    let head = text::before(s, c);
    assert forall|i: int| 0 <= i < head.len() implies head[i] != c by {
        assert(head[i] == s[i]);
    }
    if p < s.len() {
        assert(s =~= head + seq![c] + s.skip(p + 1));
    } else {
        assert(head =~= s);
    }
}

/// A delimiter stands at an index where it lies between what is before and what is
/// behind.
pub proof fn law_occurs(s: Seq<char>, d: Seq<char>, i: int)
    ensures
        text::occurs(s, d, i) <==> exists|a: Seq<char>, b: Seq<char>|
            a.len() == i && s == #[trigger] (a + d + b),
{
    if text::occurs(s, d, i) {
        assert(s =~= s.take(i) + d + s.skip(i + d.len())) by {
            assert forall|k: int| 0 <= k < d.len() implies s[i + k] == d[k] by {
                assert(s.subrange(i, i + d.len())[k] == s[i + k]);
            }
        }
    }
    if exists|a: Seq<char>, b: Seq<char>| a.len() == i && s == #[trigger] (a + d + b) {
        let (a, b) = choose|a: Seq<char>, b: Seq<char>| a.len() == i && s == #[trigger] (a + d + b);
        assert(s.subrange(i, i + d.len()) =~= d);
    }
}

/// The parts of a text between delimiters, joined by the delimiter, are the text again;
/// no part holds a delimiter, and none begins in a part before it is due.
pub proof fn law_split(s: Seq<char>, d: Seq<char>)
    requires
        d.len() > 0,
    ensures
        text::split(s, d).len() > 0,
        text::join(text::split(s, d), d) == s,
        forall|k: int, i: int|
            0 <= k < text::split(s, d).len() ==> !#[trigger] text::occurs(
                text::split(s, d)[k],
                d,
                i,
            ),
        forall|k: int, i: int|
            0 <= k < text::split(s, d).len() - 1 && 0 <= i < text::split(s, d)[k].len()
                ==> !#[trigger] text::occurs(text::split(s, d)[k] + d, d, i),
    decreases s.len(),
{
    lemma_find(s, d);
    let parts = text::split(s, d);
    match text::find(s, d) {
        Some(k) => {
            let head = s.take(k);
            let tail = s.skip(k + d.len());
            law_split(tail, d);
            let rest = text::split(tail, d);
            assert(parts == seq![head] + rest);
            assert(parts.drop_first() =~= rest);
            csv::lemma_join_front(parts, d);
            assert(s =~= head + d + tail) by {
                assert forall|j: int| 0 <= j < d.len() implies s[k + j] == d[j] by {
                    assert(s.subrange(k, k + d.len())[j] == s[k + j]);
                }
            }
            assert forall|n: int, i: int| 0 <= n < parts.len() implies !#[trigger] text::occurs(
                parts[n],
                d,
                i,
            ) by {
                if n == 0 {
                    if text::occurs(head, d, i) {
                        assert(s.subrange(i, i + d.len()) =~= head.subrange(i, i + d.len()));
                        assert(text::occurs(s, d, i));
                    }
                } else {
                    assert(parts[n] == rest[n - 1]);
                }
            }
            assert forall|n: int, i: int|
                0 <= n < parts.len() - 1 && 0 <= i < parts[n].len() implies !#[trigger] text::occurs(
                parts[n] + d,
                d,
                i,
            ) by {
                if n == 0 {
                    if text::occurs(head + d, d, i) {
                        assert(s.subrange(i, i + d.len()) =~= (head + d).subrange(i, i + d.len()));
                        assert(text::occurs(s, d, i));
                    }
                } else {
                    assert(parts[n] == rest[n - 1]);
                }
            }
        },
        None => {
            assert(parts =~= seq![s]);
        },
    }
}

/// The first place of a delimiter: it stands there and nowhere before.
proof fn lemma_find(s: Seq<char>, d: Seq<char>)
    ensures
        match text::find(s, d) {
            Some(k) => text::occurs(s, d, k) && forall|j: int|
                0 <= j < k ==> !#[trigger] text::occurs(s, d, j),
            None => forall|j: int| !#[trigger] text::occurs(s, d, j),
        },
    decreases s.len(),
{
    if !text::occurs(s, d, 0) && s.len() > 0 {
        let rest = s.drop_first();
        lemma_find(rest, d);
        assert forall|j: int| #[trigger] text::occurs(s, d, j) implies text::occurs(
            rest,
            d,
            j - 1,
        ) by {
            assert(rest.subrange(j - 1, j - 1 + d.len()) =~= s.subrange(j, j + d.len()));
        }
        if let Some(k) = text::find(rest, d) {
            assert(rest.subrange(k, k + d.len()) =~= s.subrange(k + 1, k + 1 + d.len()));
            assert forall|j: int| 0 <= j < k + 1 implies !#[trigger] text::occurs(s, d, j) by {
                if text::occurs(s, d, j) {
                    assert(text::occurs(rest, d, j - 1));
                }
            }
        } else {
            assert forall|j: int| !#[trigger] text::occurs(s, d, j) by {
                if text::occurs(s, d, j) {
                    assert(text::occurs(rest, d, j - 1));
                }
            }
        }
    } else if !text::occurs(s, d, 0) {
        assert forall|j: int| !#[trigger] text::occurs(s, d, j) by {}
    }
}

/// An empty delimiter parts a text into its characters, with an empty part at each end.
pub proof fn law_split_into_characters(s: Seq<char>)
    ensures
        ({
            let parts = text::split(s, Seq::empty());
            &&& parts.len() == s.len() + 2
            &&& parts.first().len() == 0
            &&& parts.last().len() == 0
            &&& forall|i: int| 0 <= i < s.len() ==> #[trigger] parts[i + 1] == seq![s[i]]
        }),
{
}

/// A text without the delimiter is its own one part; behind a first part that the
/// delimiter ends, the parts of the rest follow.
pub proof fn law_split_at_a_character(a: Seq<char>, c: char, b: Seq<char>)
    requires
        !a.contains(c),
    ensures
        text::split(a, seq![c]) == seq![a],
        text::split(a + seq![c] + b, seq![c]) == seq![a] + text::split(b, seq![c]),
{
    let d = seq![c];
    let whole = a + d + b;
    assert forall|j: int| !text::occurs(a, d, j) by {
        if text::occurs(a, d, j) {
            assert(a.subrange(j, j + 1)[0] == c);
            assert(a.contains(a[j]));
        }
    }
    text::lemma_find_none(a, d);
    let k = a.len() as int;
    assert(whole.subrange(k, k + 1) =~= d);
    assert forall|j: int| 0 <= j < k implies !text::occurs(whole, d, j) by {
        if text::occurs(whole, d, j) {
            assert(whole.subrange(j, j + 1)[0] == c);
            assert(a.contains(a[j]));
        }
    }
    text::lemma_find(whole, d, k);
    assert(whole.take(k) =~= a);
    assert(whole.skip(k + 1) =~= b);
}

/// Joined parts: nothing for none, one alone as it is, and otherwise the first, the
/// separator and the others joined.
pub proof fn law_join(part: Seq<char>, rest: Seq<Seq<char>>, separator: Seq<char>)
    ensures
        text::join(Seq::empty(), separator).len() == 0,
        text::join(seq![part], separator) == part,
        rest.len() > 0 ==> text::join(seq![part] + rest, separator) == part + separator
            + text::join(rest, separator),
{
    if rest.len() > 0 {
        let parts = seq![part] + rest;
        csv::lemma_join_front(parts, separator);
        assert(parts.drop_first() =~= rest);
    }
}

/// The lines of a text: none where it is empty, itself where it has no newline, and
/// otherwise what stands before the first newline, without a carriage return at its end,
/// and the lines of what stands behind.
pub proof fn law_lines(a: Seq<char>, b: Seq<char>)
    requires
        !a.contains('\n'),
    ensures
        text::lines(Seq::empty()).len() == 0,
        a.len() > 0 ==> text::lines(a) == seq![a],
        a.len() > 0 && a.last() == '\r' ==> text::lines(a + seq!['\n'] + b) == seq![a.drop_last()]
            + text::lines(b),
        a.len() == 0 || a.last() != '\r' ==> text::lines(a + seq!['\n'] + b) == seq![a]
            + text::lines(b),
{
    let whole = a + seq!['\n'] + b;
    let p = a.len() as int;
    assert forall|k: int| 0 <= k < p implies a[k] != '\n' && whole[k] != '\n' by {
        assert(a.contains(a[k]));
        assert(whole[k] == a[k]);
    }
    text::lemma_position(a, '\n', p);
    assert(whole[p] == '\n');
    text::lemma_position(whole, '\n', p);
    assert(whole.take(p) =~= a);
    assert(whole.skip(p + 1) =~= b);
}

/// The lines that hold anything: a text without a newline is one, trimmed, unless it is
/// blank; those of two texts with a newline between them are those of the first and then
/// those of the second.
pub proof fn law_filled_lines(line: Seq<char>, a: Seq<char>, b: Seq<char>)
    requires
        !line.contains('\n'),
    ensures
        text::filled_lines(line) == if text::trim(line).len() > 0 {
            seq![text::trim(line)]
        } else {
            Seq::empty()
        },
        text::filled_lines(a + seq!['\n'] + b) == text::filled_lines(a) + text::filled_lines(b),
{
    lines::lemma_filled_lines_join(a, b);
    law_lines(line, b);
    let none = Seq::<Seq<char>>::empty();
    reveal(Seq::filter);
    if line.len() > 0 {
        assert(text::trimmed_lines(line) =~= seq![text::trim(line)] + none);
        lines::lemma_filled_cons(line, none);
        assert(none.filter(|line: Seq<char>| line.len() > 0) =~= none);
        assert(text::filled_lines(line) =~= if text::trim(line).len() > 0 {
            seq![text::trim(line)]
        } else {
            none
        });
    } else {
        assert(text::trimmed_lines(line) =~= none);
        assert(text::filled_lines(line) =~= none);
    }
}

/// Trimmed lines are the lines, each trimmed; none is left out.
pub proof fn law_trimmed_lines(s: Seq<char>)
    ensures
        text::trimmed_lines(s).len() == text::lines(s).len(),
        forall|i: int|
            0 <= i < text::lines(s).len() ==> #[trigger] text::trimmed_lines(s)[i] == text::trim(
                text::lines(s)[i],
            ),
{
}

} // verus!
