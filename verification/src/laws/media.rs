//! Media types.

use crate::config::AppConfig;
use crate::input::media;
use crate::laws::texts;
use crate::string_map::StringMap;
use crate::text;
use vstd::prelude::*;

verus! {

/// Lower case leaves every character other than an upper-case letter, and turns
/// nothing into such a letter, white space or punctuation.
proof fn lemma_lower_char(c: char)
    ensures
        text::lower_char(text::lower_char(c)) == text::lower_char(c),
        text::is_white(text::lower_char(c)) == text::is_white(c),
        (text::lower_char(c) == ';') == (c == ';'),
        (text::lower_char(c) == ',') == (c == ','),
{
    if 'A' <= c <= 'Z' {
        let lowered = text::lower_char(c);
        assert('a' <= lowered <= 'z');
    }
}

/// A text in lower case, character by character.
proof fn lemma_lower(s: Seq<char>)
    ensures
        text::lower(s).len() == s.len(),
        forall|i: int| 0 <= i < s.len() ==> #[trigger] text::lower(s)[i] == text::lower_char(s[i]),
        text::lower(text::lower(s)) == text::lower(s),
{
    assert forall|i: int| 0 <= i < s.len() implies text::lower(text::lower(s))[i] == text::lower(
        s,
    )[i] by {
        lemma_lower_char(s[i]);
    }
    assert(text::lower(text::lower(s)) =~= text::lower(s));
}

/// Trimming and lower case can change places.
proof fn lemma_trim_lower(s: Seq<char>)
    ensures
        text::trim(text::lower(s)) == text::lower(text::trim(s)),
    decreases s.len(),
{
    lemma_lower(s);
    if s.len() > 0 {
        lemma_lower_char(s.first());
        lemma_lower_char(s.last());
        assert(text::lower(s).first() == text::lower_char(s.first()));
        assert(text::lower(s).last() == text::lower_char(s.last()));
        if text::is_white(s.first()) {
            assert(text::lower(s).drop_first() =~= text::lower(s.drop_first()));
            lemma_trim_lower(s.drop_first());
        } else if text::is_white(s.last()) {
            assert(text::lower(s).drop_last() =~= text::lower(s.drop_last()));
            lemma_trim_lower(s.drop_last());
        }
    }
}

/// What is trimmed holds no character that was not there before, and cannot be
/// trimmed further.
proof fn lemma_trim(s: Seq<char>, c: char)
    requires
        !s.contains(c),
    ensures
        !text::trim(s).contains(c),
        text::trim(text::trim(s)) == text::trim(s),
    decreases s.len(),
{
    if s.len() > 0 && text::is_white(s.first()) {
        assert forall|i: int| 0 <= i < s.drop_first().len() implies s.drop_first()[i] != c by {
            assert(s.drop_first()[i] == s[i + 1]);
        }
        lemma_trim(s.drop_first(), c);
    } else if s.len() > 0 && text::is_white(s.last()) {
        assert forall|i: int| 0 <= i < s.drop_last().len() implies s.drop_last()[i] != c by {
            assert(s.drop_last()[i] == s[i]);
        }
        lemma_trim(s.drop_last(), c);
    }
}

/// What stands before the first occurrence of a character holds none of it.
proof fn lemma_before(s: Seq<char>, c: char)
    ensures
        !text::before(s, c).contains(c),
        !s.contains(c) ==> text::before(s, c) == s,
{
    text::lemma_position_bounds(s, c);
    assert forall|i: int| 0 <= i < text::before(s, c).len() implies text::before(s, c)[i] != c by {
        assert(text::before(s, c)[i] == s[i]);
    }
    if !s.contains(c) {
        text::lemma_position(s, c, s.len() as int);
        assert(text::before(s, c) =~= s);
    }
}

/// The case of letters makes no difference to a character's first place.
proof fn lemma_before_lower(s: Seq<char>, c: char)
    requires
        c == ';' || c == ',',
    ensures
        text::before(text::lower(s), c) == text::lower(text::before(s, c)),
{
    lemma_lower(s);
    text::lemma_position_bounds(s, c);
    let p = text::position(s, c);
    assert forall|k: int| 0 <= k < p implies text::lower(s)[k] != c by {
        lemma_lower_char(s[k]);
    }
    if p < s.len() {
        lemma_lower_char(s[p]);
    }
    text::lemma_position(text::lower(s), c, p);
    assert(text::lower(s).take(p) =~= text::lower(s.take(p)));
}

/// What follows a semicolon makes no difference to the media type.
pub proof fn law_parameters_make_no_difference(content_type: Seq<char>, parameters: Seq<char>)
    ensures
        media::media_type(content_type + seq![';'] + parameters) == media::media_type(content_type),
{
    let whole = content_type + seq![';'] + parameters;
    text::lemma_position_bounds(content_type, ';');
    let p = text::position(content_type, ';');
    assert forall|k: int| 0 <= k < p implies whole[k] != ';' by {
        assert(whole[k] == content_type[k]);
    }
    assert(whole[p] == ';');
    text::lemma_position(whole, ';', p);
    assert(whole.take(p) =~= content_type.take(p));
}

/// The case of letters makes no difference to the media type, nor to the type of
/// the reply.
pub proof fn law_case_makes_no_difference(stated: Seq<char>)
    ensures
        media::media_type(text::lower(stated)) == media::media_type(stated),
        media::accepted_type(text::lower(stated)) == media::accepted_type(stated),
{
    lemma_before_lower(stated, ';');
    lemma_trim_lower(text::before(stated, ';'));
    lemma_lower(text::trim(text::before(stated, ';')));
    lemma_before_lower(stated, ',');
    lemma_trim_lower(text::before(stated, ','));
    lemma_lower(text::trim(text::before(stated, ',')));
}

/// A media type stays as it is where its media type is taken again.
pub proof fn law_media_type_is_settled(stated: Seq<char>)
    ensures
        media::media_type(media::media_type(stated)) == media::media_type(stated),
{
    let bare = text::before(stated, ';');
    let trimmed = text::trim(bare);
    lemma_before(stated, ';');
    lemma_trim(bare, ';');
    lemma_lower(trimmed);
    assert forall|i: int| 0 <= i < trimmed.len() implies text::lower(trimmed)[i] != ';' by {
        lemma_lower_char(trimmed[i]);
        assert(trimmed.contains(trimmed[i]));
    }
    lemma_before(text::lower(trimmed), ';');
    lemma_trim_lower(trimmed);
}

/// A media type is of one kind at most: CSV, JSON or JSON lines.
pub proof fn law_kinds_exclude_each_other(content_type: Seq<char>)
    ensures
        !(media::is_csv(content_type) && media::is_json(content_type)),
        !(media::is_csv(content_type) && media::is_json_lines(content_type)),
        !(media::is_json(content_type) && media::is_json_lines(content_type)),
{
    reveal_strlit("text/csv");
    reveal_strlit("application/csv");
    reveal_strlit("application/json");
    reveal_strlit("application/*+json");
    reveal_strlit("application/jsonlines");
    reveal_strlit("application/x-jsonlines");
    reveal_strlit("application/jsonl");
    reveal_strlit("application/x-ndjson");
    assert("text/csv"@.len() == 8);
    assert("application/csv"@.len() == 15);
    assert("application/json"@.len() == 16);
    assert("application/*+json"@.len() == 18);
    assert("application/jsonlines"@.len() == 21);
    assert("application/x-jsonlines"@.len() == 23);
    assert("application/jsonl"@.len() == 17);
    assert("application/x-ndjson"@.len() == 20);
}

/// A stated type between white space, before a separator or alone, comes out as it is, in
/// lower case.
proof fn lemma_stated_type(
    stated: Seq<char>,
    before: Seq<char>,
    kind: Seq<char>,
    behind: Seq<char>,
    separator: char,
    rest: Seq<char>,
)
    requires
        texts::blank(before),
        texts::blank(behind),
        kind.len() > 0 ==> !text::is_white(kind.first()) && !text::is_white(kind.last()),
        !text::is_white(separator),
        !kind.contains(separator),
        stated == before + kind + behind || stated == before + kind + behind + seq![separator]
            + rest,
    ensures
        text::trim(text::before(stated, separator)) == kind,
{
    let head = before + kind + behind;
    let p = head.len() as int;
    assert forall|k: int| 0 <= k < p implies stated[k] != separator by {
        assert(stated[k] == head[k]);
        if k < before.len() {
            assert(head[k] == before[k]);
            assert(text::is_white(before[k]));
        } else if k < before.len() + kind.len() {
            assert(head[k] == kind[k - before.len()]);
            assert(kind.contains(kind[k - before.len()]));
        } else {
            assert(head[k] == behind[k - before.len() - kind.len()]);
            assert(text::is_white(behind[k - before.len() - kind.len()]));
        }
    }
    text::lemma_position(stated, separator, p);
    assert(text::before(stated, separator) =~= head);
    texts::law_trim_takes_off_what_was_put_round(before, kind, behind);
}

/// The media type of a payload is what is stated before any semicolon, without the white
/// space round it and in lower case.
pub proof fn law_media_types(
    stated: &str,
    before: Seq<char>,
    kind: Seq<char>,
    behind: Seq<char>,
    parameters: Seq<char>,
    r: String,
    q: String,
)
    requires
        call_ensures(media::strip_content_type_params, (stated,), r),
        call_ensures(media::resolve_content_type, (stated,), q),
        texts::blank(before),
        texts::blank(behind),
        kind.len() > 0 ==> !text::is_white(kind.first()) && !text::is_white(kind.last()),
        !kind.contains(';'),
        stated@ == before + kind + behind || stated@ == before + kind + behind + seq![';']
            + parameters,
    ensures
        r@ == text::lower(kind),
        q@ == text::lower(kind),
{
    lemma_stated_type(stated@, before, kind, behind, ';', parameters);
}

/// The type of the reply is the one that is stated before any comma, without the white space
/// round it and in lower case; the default makes no difference.
pub proof fn law_accepted_types(
    stated: &str,
    default: &str,
    before: Seq<char>,
    kind: Seq<char>,
    behind: Seq<char>,
    others: Seq<char>,
    r: String,
)
    requires
        call_ensures(media::normalized_accept, (stated, default), r),
        texts::blank(before),
        texts::blank(behind),
        kind.len() > 0 ==> !text::is_white(kind.first()) && !text::is_white(kind.last()),
        !kind.contains(','),
        stated@ == before + kind + behind || stated@ == before + kind + behind + seq![','] + others,
    ensures
        r@ == text::lower(kind),
{
    lemma_stated_type(stated@, before, kind, behind, ',', others);
}

/// The media types that are known, and the kind of each.
pub proof fn law_known_media_types(
    content_type: &str,
    document: bool,
    lines: bool,
    either: bool,
    csv: bool,
)
    requires
        call_ensures(media::is_json_document_type, (content_type,), document),
        call_ensures(media::is_json_lines_type, (content_type,), lines),
        call_ensures(media::is_json_content_type, (content_type,), either),
        call_ensures(media::is_csv_type, (content_type,), csv),
    ensures
        document <==> content_type@ == "application/json"@ || content_type@
            == "application/*+json"@,
        lines <==> content_type@ == "application/jsonlines"@ || content_type@
            == "application/x-jsonlines"@ || content_type@ == "application/jsonl"@ || content_type@
            == "application/x-ndjson"@,
        either <==> document || lines,
        csv <==> content_type@ == "text/csv"@ || content_type@ == "application/csv"@,
{
}

/// Records are looked for where there are named model inputs and the payload is of one of
/// the media types of JSON or JSON lines, and nowhere else.
pub proof fn law_records_are_looked_for(
    input_map: &StringMap<String>,
    content_type: &str,
    either: bool,
    r: bool,
)
    requires
        call_ensures(media::should_use_onnx_multi_input, (input_map, content_type), r),
        call_ensures(media::is_json_content_type, (content_type,), either),
    ensures
        r <==> input_map.entries@.len() > 0 && either,
{
}

/// The one input mode is `tabular`; any other is refused by its name.
pub proof fn law_input_modes(cfg: &AppConfig, r: Result<(), String>)
    requires
        call_ensures(media::validate_input_mode, (cfg,), r),
    ensures
        match r {
            Ok(()) => cfg.input_mode@ == "tabular"@,
            Err(message) => cfg.input_mode@ != "tabular"@ && message@ == "INPUT_MODE="@
                + cfg.input_mode@ + " not implemented (tabular only for now)"@,
        },
{
}

} // verus!
