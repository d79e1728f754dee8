//! Text as sequences of characters: trimming, splitting, lines, joining.

use vstd::prelude::*;
use vstd::slice::slice_subrange;
use vstd::utf8::{decode_utf8, valid_utf8};

verus! {

/// `String::push`: appends the character to the end of the string.
pub assume_specification[ String::push ](s: &mut String, c: char)
    ensures
        final(s)@ == old(s)@.push(c),
;

/// The text of the error that `std::str::from_utf8` gives for the bytes.
pub uninterp spec fn utf8_error(bytes: Seq<u8>) -> Seq<char>;

/// `std::str::from_utf8`: the text that the bytes encode where they are valid
/// UTF-8; for other bytes an error, whose text depends on the bytes alone.
#[verifier::external_body]
pub(crate) fn read_utf8(bytes: &[u8]) -> (r: Result<&str, String>)
    ensures
        match r {
            Ok(source) => valid_utf8(bytes@) && source@ == decode_utf8(bytes@),
            Err(message) => !valid_utf8(bytes@) && message@ == utf8_error(bytes@),
        },
{
    std::str::from_utf8(bytes).map_err(|err| err.to_string())
}

/// The characters with the Unicode property `White_Space`.
pub open spec fn is_white(c: char) -> bool {
    ||| '\u{9}' <= c <= '\u{d}'
    ||| c == '\u{20}'
    ||| c == '\u{85}'
    ||| c == '\u{a0}'
    ||| c == '\u{1680}'
    ||| '\u{2000}' <= c <= '\u{200a}'
    ||| c == '\u{2028}'
    ||| c == '\u{2029}'
    ||| c == '\u{202f}'
    ||| c == '\u{205f}'
    ||| c == '\u{3000}'
}

/// The text without the white space at its two ends.
pub open spec fn trim(s: Seq<char>) -> Seq<char>
    decreases s.len(),
{
    if s.len() > 0 && is_white(s.first()) {
        trim(s.drop_first())
    } else if s.len() > 0 && is_white(s.last()) {
        trim(s.drop_last())
    } else {
        s
    }
}

/// The lower-case form of an ASCII letter; any other character as it is.
pub open spec fn lower_char(c: char) -> char {
    if 'A' <= c <= 'Z' {
        (c as u8 + 32) as char
    } else {
        c
    }
}

/// The text with its ASCII letters in lower case.
pub open spec fn lower(s: Seq<char>) -> Seq<char> {
    s.map_values(|c: char| lower_char(c))
}

/// The index of the first `c` in the text, or its length where there is none.
pub open spec fn position(s: Seq<char>, c: char) -> int
    decreases s.len(),
{
    if s.len() == 0 || s.first() == c {
        0
    } else {
        1 + position(s.drop_first(), c)
    }
}

/// The text before the first `c`; all of it where there is none.
pub open spec fn before(s: Seq<char>, c: char) -> Seq<char> {
    s.take(position(s, c))
}

/// `d` stands in `s` at index `i`.
pub open spec fn occurs(s: Seq<char>, d: Seq<char>, i: int) -> bool {
    &&& 0 <= i
    &&& i + d.len() <= s.len()
    &&& s.subrange(i, i + d.len()) == d
}

/// The first index at which `d` stands in `s`.
pub open spec fn find(s: Seq<char>, d: Seq<char>) -> Option<int>
    decreases s.len(),
{
    if occurs(s, d, 0) {
        Some(0int)
    } else if s.len() == 0 {
        None
    } else {
        match find(s.drop_first(), d) {
            Some(k) => Some(k + 1),
            None => None,
        }
    }
}

/// The parts of the text between the occurrences of the delimiter, taken from
/// the left and without overlap. An empty delimiter stands before, between and
/// after all characters.
pub open spec fn split(s: Seq<char>, d: Seq<char>) -> Seq<Seq<char>>
    decreases s.len(),
{
    if d.len() == 0 {
        seq![Seq::<char>::empty()] + Seq::new(s.len(), |i: int| seq![s[i]])
            + seq![Seq::<char>::empty()]
    } else {
        match find(s, d) {
            Some(k) => if 0 <= k && k + d.len() <= s.len() {
                seq![s.take(k)] + split(s.skip(k + d.len()), d)
            } else {
                seq![s]
            },
            None => seq![s],
        }
    }
}

/// The text without one carriage return at its end.
pub open spec fn strip_cr(s: Seq<char>) -> Seq<char> {
    if s.len() > 0 && s.last() == '\r' {
        s.drop_last()
    } else {
        s
    }
}

/// The lines of the text: each ends at a newline, or at a carriage return and a
/// newline, neither of which belongs to the line. The last line needs no end.
pub open spec fn lines(s: Seq<char>) -> Seq<Seq<char>>
    decreases s.len(),
{
    if s.len() == 0 {
        Seq::empty()
    } else {
        let p = position(s, '\n');
        if 0 <= p < s.len() {
            seq![strip_cr(s.take(p))] + lines(s.skip(p + 1))
        } else {
            seq![s]
        }
    }
}

/// The lines of the text, each trimmed.
pub open spec fn trimmed_lines(s: Seq<char>) -> Seq<Seq<char>> {
    lines(s).map_values(|line: Seq<char>| trim(line))
}

/// The trimmed lines of the text that hold anything.
pub open spec fn filled_lines(s: Seq<char>) -> Seq<Seq<char>> {
    trimmed_lines(s).filter(|line: Seq<char>| line.len() > 0)
}

/// What a text stands for, where there is one.
pub open spec fn optional(s: Option<String>) -> Option<Seq<char>> {
    match s {
        Some(s) => Some(s@),
        None => None,
    }
}

/// The parts in their order, with the separator between each two.
pub open spec fn join(parts: Seq<Seq<char>>, separator: Seq<char>) -> Seq<char>
    decreases parts.len(),
{
    if parts.len() == 0 {
        Seq::empty()
    } else if parts.len() == 1 {
        parts[0]
    } else {
        join(parts.drop_last(), separator) + separator + parts.last()
    }
}

/// An index that stands behind `i` characters other than `c`, and at a `c` or at
/// the end, is the position of `c`.
pub proof fn lemma_position(s: Seq<char>, c: char, i: int)
    requires
        0 <= i <= s.len(),
        forall|k: int| 0 <= k < i ==> s[k] != c,
        i < s.len() ==> s[i] == c,
    ensures
        position(s, c) == i,
    decreases i,
{
    if i > 0 {
        assert(s.first() == s[0]);
        assert forall|k: int| 0 <= k < i - 1 implies s.drop_first()[k] != c by {
            assert(s.drop_first()[k] == s[k + 1]);
        }
        lemma_position(s.drop_first(), c, i - 1);
    }
}

/// The position of a character lies within the text, or at its end.
pub proof fn lemma_position_bounds(s: Seq<char>, c: char)
    ensures
        0 <= position(s, c) <= s.len(),
        position(s, c) < s.len() ==> s[position(s, c)] == c,
        forall|k: int| 0 <= k < position(s, c) ==> s[k] != c,
    decreases s.len(),
{
    if s.len() > 0 && s.first() != c {
        lemma_position_bounds(s.drop_first(), c);
        assert forall|k: int| 0 <= k < position(s, c) implies s[k] != c by {
            if k > 0 {
                assert(s[k] == s.drop_first()[k - 1]);
            }
        }
    }
}

/// The characters of the text.
pub fn chars_of(s: &str) -> (r: Vec<char>)
    ensures
        r@ == s@,
{
    let mut r: Vec<char> = Vec::new();
    for c in it: s.chars()
        invariant
            r@.len() == it.index(),
            it.seq() == s@,
            forall|i: int| 0 <= i < r@.len() ==> r@[i] == it.seq()[i],
    {
        r.push(c);
    }
    assert(r@ =~= s@);
    r
}

/// The text that the characters make up.
pub fn string_of(s: &[char]) -> (r: String)
    ensures
        r@ == s@,
{
    let mut r = String::new();
    for i in 0..s.len()
        invariant
            r@ == s@.take(i as int),
    {
        r.push(s[i]);
        assert(s@.take(i + 1) =~= s@.take(i as int).push(s@[i as int]));
    }
    assert(s@.take(s@.len() as int) =~= s@);
    r
}

/// Whether the two texts are the same.
pub fn same(a: &str, b: &str) -> (r: bool)
    ensures
        r == (a@ == b@),
{
    a.to_owned() == b.to_owned()
}

fn char_is_white(c: char) -> (r: bool)
    ensures
        r == is_white(c),
{
    ('\u{9}' <= c && c <= '\u{d}') || c == '\u{20}' || c == '\u{85}' || c == '\u{a0}' || c
        == '\u{1680}' || ('\u{2000}' <= c && c <= '\u{200a}') || c == '\u{2028}' || c
        == '\u{2029}' || c == '\u{202f}' || c == '\u{205f}' || c == '\u{3000}'
}

/// The slice without the white space at its two ends.
pub fn trim_slice(s: &[char]) -> (r: &[char])
    ensures
        r@ == trim(s@),
{
    let n = s.len();
    let mut i: usize = 0;
    assert(s@.subrange(0, n as int) =~= s@);
    while i < n && char_is_white(s[i])
        invariant
            i <= n,
            n == s@.len(),
            trim(s@.subrange(i as int, n as int)) == trim(s@),
        decreases n - i,
    {
        assert(s@.subrange(i as int, n as int).drop_first() =~= s@.subrange(i + 1, n as int));
        i += 1;
    }
    let mut j: usize = n;
    while i < j && char_is_white(s[j - 1])
        invariant
            i <= j <= n,
            n == s@.len(),
            i < n ==> !is_white(s@[i as int]),
            trim(s@.subrange(i as int, j as int)) == trim(s@),
        decreases j,
    {
        assert(s@.subrange(i as int, j as int).drop_last() =~= s@.subrange(i as int, j - 1));
        j -= 1;
    }
    slice_subrange(s, i, j)
}

/// The text with its ASCII letters in lower case.
pub fn lower_string(s: &[char]) -> (r: String)
    ensures
        r@ == lower(s@),
{
    let mut r = String::new();
    for i in 0..s.len()
        invariant
            r@ == lower(s@.take(i as int)),
    {
        let c = s[i];
        if 'A' <= c && c <= 'Z' {
            r.push((c as u8 + 32) as char);
        } else {
            r.push(c);
        }
        assert(lower(s@.take(i + 1)) =~= lower(s@.take(i as int)).push(lower_char(c)));
    }
    assert(s@.take(s@.len() as int) =~= s@);
    r
}

/// The index of the first `c`, or the length where there is none.
pub fn position_in(s: &[char], c: char) -> (r: usize)
    ensures
        r == position(s@, c),
        r <= s@.len(),
{
    let mut i: usize = 0;
    while i < s.len() && s[i] != c
        invariant
            i <= s@.len(),
            forall|k: int| 0 <= k < i ==> s@[k] != c,
        decreases s@.len() - i,
    {
        i += 1;
    }
    proof {
        lemma_position(s@, c, i as int);
    }
    i
}

/// The part of the slice before the first `c`.
pub fn before_slice(s: &[char], c: char) -> (r: &[char])
    ensures
        r@ == before(s@, c),
{
    let p = position_in(s, c);
    slice_subrange(s, 0, p)
}

/// The first index at which the delimiter stands is the one that `find` gives.
pub proof fn lemma_find(s: Seq<char>, d: Seq<char>, k: int)
    requires
        occurs(s, d, k),
        forall|j: int| 0 <= j < k ==> !occurs(s, d, j),
    ensures
        find(s, d) == Some(k),
    decreases k,
{
    if k > 0 {
        let rest = s.drop_first();
        assert(!occurs(s, d, 0));
        assert(rest.subrange(k - 1, k - 1 + d.len()) =~= s.subrange(k, k + d.len()));
        assert forall|j: int| 0 <= j < k - 1 implies !occurs(rest, d, j) by {
            assert(!occurs(s, d, j + 1));
            if occurs(rest, d, j) {
                assert(rest.subrange(j, j + d.len()) =~= s.subrange(j + 1, j + 1 + d.len()));
            }
        }
        lemma_find(rest, d, k - 1);
    }
}

/// `find` gives nothing where the delimiter stands nowhere.
pub proof fn lemma_find_none(s: Seq<char>, d: Seq<char>)
    requires
        forall|j: int| !occurs(s, d, j),
    ensures
        find(s, d) is None,
    decreases s.len(),
{
    assert(!occurs(s, d, 0));
    if s.len() > 0 {
        let rest = s.drop_first();
        assert forall|j: int| !occurs(rest, d, j) by {
            assert(!occurs(s, d, j + 1));
            if occurs(rest, d, j) {
                assert(rest.subrange(j, j + d.len()) =~= s.subrange(j + 1, j + 1 + d.len()));
            }
        }
        lemma_find_none(rest, d);
    }
}

/// Whether the delimiter stands at the index.
fn occurs_at(s: &[char], d: &[char], i: usize) -> (r: bool)
    ensures
        r == occurs(s@, d@, i as int),
{
    let n = s.len();
    if d.len() > n || i > n - d.len() {
        return false;
    }
    let mut k: usize = 0;
    while k < d.len()
        invariant
            k <= d@.len(),
            n == s@.len(),
            i + d@.len() <= n,
            forall|j: int| 0 <= j < k ==> s@[i + j] == d@[j],
        decreases d@.len() - k,
    {
        if s[i + k] != d[k] {
            assert(s@.subrange(i as int, i + d@.len())[k as int] != d@[k as int]);
            return false;
        }
        k += 1;
    }
    assert(s@.subrange(i as int, i + d@.len()) =~= d@);
    true
}

/// The views of the slices.
pub open spec fn slice_views(parts: Seq<&[char]>) -> Seq<Seq<char>> {
    parts.map_values(|part: &[char]| part@)
}

/// The parts of the slice between the occurrences of the delimiter.
pub fn split_slice<'a>(s: &'a [char], d: &[char]) -> (r: Vec<&'a [char]>)
    ensures
        slice_views(r@) == split(s@, d@),
{
    let mut r: Vec<&'a [char]> = Vec::new();
    let n = s.len();
    if d.len() == 0 {
        r.push(slice_subrange(s, 0, 0));
        for i in 0..n
            invariant
                n == s@.len(),
                r@.len() == i + 1,
                r@[0]@ == Seq::<char>::empty(),
                forall|k: int| 1 <= k <= i ==> (#[trigger] r@[k])@ == seq![s@[k - 1]],
        {
            let part = slice_subrange(s, i, i + 1);
            assert(part@ =~= seq![s@[i as int]]);
            r.push(part);
        }
        r.push(slice_subrange(s, n, n));
        proof {
            let parts = Seq::new(s@.len(), |i: int| seq![s@[i]]);
            assert forall|k: int| 0 <= k < n + 2 implies #[trigger] slice_views(r@)[k] == split(
                s@,
                d@,
            )[k] by {
                if 1 <= k <= n {
                    assert(r@[k]@ == seq![s@[k - 1]]);
                    assert(parts[k - 1] == seq![s@[k - 1]]);
                }
            }
            assert(slice_views(r@) =~= split(s@, d@));
        }
        return r;
    }
    let mut start: usize = 0;
    let mut i: usize = 0;
    assert(s@.skip(0) =~= s@);
    while i < n
        invariant
            n == s@.len(),
            d@.len() > 0,
            start <= i <= n,
            slice_views(r@) + split(s@.skip(start as int), d@) == split(s@, d@),
            forall|j: int| start <= j < i ==> !occurs(s@, d@, j),
        decreases n - i,
    {
        let ghost rest = s@.skip(start as int);
        if occurs_at(s, d, i) {
            proof {
                let k = i - start;
                assert(rest.subrange(k, k + d@.len()) =~= s@.subrange(i as int, i + d@.len()));
                assert forall|j: int| 0 <= j < k implies !occurs(rest, d@, j) by {
                    assert(!occurs(s@, d@, start + j));
                    if occurs(rest, d@, j) {
                        assert(rest.subrange(j, j + d@.len()) =~= s@.subrange(
                            start + j,
                            start + j + d@.len(),
                        ));
                    }
                }
                lemma_find(rest, d@, k);
                assert(rest.take(k) =~= s@.subrange(start as int, i as int));
                assert(rest.skip(k + d@.len()) =~= s@.skip(i + d@.len()));
            }
            let ghost done = slice_views(r@);
            let part = slice_subrange(s, start, i);
            r.push(part);
            assert(slice_views(r@) =~= done.push(part@));
            i += d.len();
            start = i;
            assert(slice_views(r@) + split(s@.skip(start as int), d@) =~= done + split(rest, d@));
        } else {
            i += 1;
        }
    }
    let ghost rest = s@.skip(start as int);
    proof {
        assert forall|j: int| !occurs(rest, d@, j) by {
            if occurs(rest, d@, j) {
                assert(rest.subrange(j, j + d@.len()) =~= s@.subrange(
                    start + j,
                    start + j + d@.len(),
                ));
                assert(occurs(s@, d@, start + j));
            }
        }
        lemma_find_none(rest, d@);
    }
    let ghost done = slice_views(r@);
    let part = slice_subrange(s, start, n);
    assert(part@ =~= rest);
    r.push(part);
    assert(slice_views(r@) =~= done.push(rest));
    assert(done + seq![rest] =~= done.push(rest));
    r
}

/// The lines of the slice, each trimmed.
pub fn trimmed_line_slices<'a>(s: &'a [char]) -> (r: Vec<&'a [char]>)
    ensures
        slice_views(r@) == trimmed_lines(s@),
{
    let mut r: Vec<&'a [char]> = Vec::new();
    let n = s.len();
    let mut start: usize = 0;
    let ghost trimmer = |line: Seq<char>| trim(line);
    assert(s@.skip(0) =~= s@);
    while start < n
        invariant
            n == s@.len(),
            start <= n,
            trimmer == (|line: Seq<char>| trim(line)),
            slice_views(r@) + lines(s@.skip(start as int)).map_values(trimmer) == lines(
                s@,
            ).map_values(trimmer),
        decreases n - start,
    {
        let ghost rest = s@.skip(start as int);
        let ghost done = slice_views(r@);
        let tail = slice_subrange(s, start, n);
        assert(tail@ =~= rest);
        let p = position_in(tail, '\n');
        if p < tail.len() {
            let mut end: usize = p;
            if end > 0 && tail[end - 1] == '\r' {
                end -= 1;
            }
            let line = slice_subrange(tail, 0, end);
            assert(line@ =~= strip_cr(rest.take(p as int)));
            let part = trim_slice(line);
            r.push(part);
            assert(slice_views(r@) =~= done.push(part@));
            assert(rest.skip(p + 1) =~= s@.skip(start + p + 1));
            assert(lines(rest).map_values(trimmer) =~= seq![part@] + lines(
                rest.skip(p + 1),
            ).map_values(trimmer));
            start = start + p + 1;
            assert(slice_views(r@) + lines(s@.skip(start as int)).map_values(trimmer) =~= done
                + lines(rest).map_values(trimmer));
        } else {
            let part = trim_slice(tail);
            r.push(part);
            assert(slice_views(r@) =~= done.push(part@));
            assert(lines(rest).map_values(trimmer) =~= seq![part@]);
            start = n;
            assert(lines(s@.skip(start as int)).map_values(trimmer) =~= Seq::empty());
            assert(slice_views(r@) + lines(s@.skip(start as int)).map_values(trimmer) =~= done
                + lines(rest).map_values(trimmer));
        }
    }
    assert(lines(s@.skip(start as int)).map_values(trimmer) =~= Seq::empty());
    assert(slice_views(r@) =~= trimmed_lines(s@));
    r
}

/// Filtering a sequence with one more element.
pub proof fn lemma_filter_push<A>(s: Seq<A>, e: A, pred: spec_fn(A) -> bool)
    ensures
        s.push(e).filter(pred) == if pred(e) {
            s.filter(pred).push(e)
        } else {
            s.filter(pred)
        },
{
    reveal(Seq::filter);
    assert(s.push(e).drop_last() =~= s);
}

/// Those of the slices that hold anything.
pub fn filled_slices<'a>(parts: &Vec<&'a [char]>) -> (r: Vec<&'a [char]>)
    ensures
        slice_views(r@) == slice_views(parts@).filter(|part: Seq<char>| part.len() > 0),
{
    let mut r: Vec<&'a [char]> = Vec::new();
    let ghost views = slice_views(parts@);
    let ghost filled = |part: Seq<char>| part.len() > 0;
    proof {
        reveal(Seq::filter);
        assert(views.take(0).filter(filled) =~= slice_views(r@));
    }
    for i in 0..parts.len()
        invariant
            views == slice_views(parts@),
            filled == (|part: Seq<char>| part.len() > 0),
            slice_views(r@) == views.take(i as int).filter(filled),
    {
        let part = parts[i];
        let ghost done = slice_views(r@);
        proof {
            assert(views.take(i + 1) =~= views.take(i as int).push(part@));
            lemma_filter_push(views.take(i as int), part@, filled);
        }
        if part.len() > 0 {
            r.push(part);
            assert(slice_views(r@) =~= done.push(part@));
        }
    }
    assert(views.take(parts@.len() as int) =~= views);
    r
}

/// The trimmed lines of the slice that hold anything.
pub fn filled_line_slices<'a>(s: &'a [char]) -> (r: Vec<&'a [char]>)
    ensures
        slice_views(r@) == filled_lines(s@),
{
    let parts = trimmed_line_slices(s);
    filled_slices(&parts)
}

/// The texts in their order, with the separator between each two.
pub fn join_strings(parts: &Vec<String>, separator: &str) -> (r: String)
    ensures
        r@ == join(parts.deep_view(), separator@),
{
    let mut r = String::new();
    let ghost views = parts.deep_view();
    assert(views.take(0) =~= Seq::empty());
    for i in 0..parts.len()
        invariant
            views == parts.deep_view(),
            r@ == join(views.take(i as int), separator@),
    {
        assert(views.take(i + 1).drop_last() =~= views.take(i as int));
        assert(views[i as int] == parts@[i as int]@);
        if i > 0 {
            r.append(separator);
        }
        r.append(parts[i].as_str());
        assert(r@ =~= join(views.take(i + 1), separator@));
    }
    assert(views.take(parts@.len() as int) =~= views);
    r
}

/// The first text and behind it the second.
pub fn concat(a: &str, b: &str) -> (r: String)
    ensures
        r@ == a@ + b@,
{
    let mut r = a.to_owned();
    r.append(b);
    r
}

} // verus!
