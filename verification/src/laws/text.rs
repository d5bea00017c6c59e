//! What escaping and substitution guarantee for every text.

use crate::text::{
    escaped, escaped_char, is_literal_body, literal_value, occurs_at, substituted,
    without_line_breaks,
};
use vstd::prelude::*;

verus! {

/// An escaped text can stand between two double quotes: it neither ends the
/// literal early nor leaves it open.
pub proof fn law_escaped_is_literal_body(text: Seq<char>)
    ensures
        is_literal_body(escaped(text)),
    decreases text.len(),
{
    if text.len() > 0 {
        let rest = escaped(text.drop_first());
        law_escaped_is_literal_body(text.drop_first());
        let head = escaped_char(text[0]);
        let body = head + rest;
        if head.len() == 2 {
            assert(body.skip(2) =~= rest);
        } else if head.len() == 1 {
            assert(body.drop_first() =~= rest);
        } else {
            assert(body =~= rest);
        }
    }
}

/// JavaScript reads an escaped text back as the text itself, line breaks
/// left out.
pub proof fn law_escaped_reads_back(text: Seq<char>)
    ensures
        literal_value(escaped(text)) == without_line_breaks(text),
    decreases text.len(),
{
    if text.len() > 0 {
        let rest = escaped(text.drop_first());
        law_escaped_reads_back(text.drop_first());
        let head = escaped_char(text[0]);
        let body = head + rest;
        if head.len() == 2 {
            assert(body.skip(2) =~= rest);
        } else if head.len() == 1 {
            assert(body.drop_first() =~= rest);
        } else {
            assert(body =~= rest);
        }
    }
}

/// Escaping leaves a text alone that holds no backslash, no double quote and
/// no line break.
pub proof fn law_escaped_keeps_plain_text(text: Seq<char>)
    requires
        forall|i: int|
            0 <= i < text.len() ==> #[trigger] text[i] != '\\' && text[i] != '"' && text[i] != '\n'
                && text[i] != '\r',
    ensures
        escaped(text) == text,
    decreases text.len(),
{
    if text.len() > 0 {
        let rest = text.drop_first();
        assert forall|i: int| 0 <= i < rest.len() implies #[trigger] rest[i] != '\\' && rest[i]
            != '"' && rest[i] != '\n' && rest[i] != '\r' by {
            assert(rest[i] == text[i + 1]);
        }
        law_escaped_keeps_plain_text(rest);
        assert(seq![text[0]] + rest =~= text);
    }
}

/// Substitution leaves a text alone in which neither placeholder occurs.
pub proof fn law_substituted_keeps_text_without_placeholders(
    text: Seq<char>,
    first: Seq<char>,
    first_value: Seq<char>,
    second: Seq<char>,
    second_value: Seq<char>,
)
    requires
        first.len() > 0,
        second.len() > 0,
        forall|at: int| !occurs_at(text, first, at),
        forall|at: int| !occurs_at(text, second, at),
    ensures
        substituted(text, first, first_value, second, second_value) == text,
    decreases text.len(),
{
    if text.len() > 0 {
        let rest = text.drop_first();
        assert(rest =~= text.skip(1));
        assert forall|at: int| !occurs_at(rest, first, at) by {
            if occurs_at(rest, first, at) {
                lemma_occurs_behind(text, first, 1, at);
            }
        }
        assert forall|at: int| !occurs_at(rest, second, at) by {
            if occurs_at(rest, second, at) {
                lemma_occurs_behind(text, second, 1, at);
            }
        }
        law_substituted_keeps_text_without_placeholders(
            rest,
            first,
            first_value,
            second,
            second_value,
        );
        assert(seq![text[0]] + rest =~= text);
    }
}

/// Substitution passes over a stretch of text that never holds the character
/// that both placeholders start with.
pub proof fn lemma_substituted_passes_over(
    stretch: Seq<char>,
    rest: Seq<char>,
    first: Seq<char>,
    first_value: Seq<char>,
    second: Seq<char>,
    second_value: Seq<char>,
)
    requires
        first.len() > 0,
        second.len() > 0,
        forall|i: int|
            0 <= i < stretch.len() ==> #[trigger] stretch[i] != first[0] && stretch[i]
                != second[0],
    ensures
        substituted(stretch + rest, first, first_value, second, second_value) == stretch
            + substituted(rest, first, first_value, second, second_value),
    decreases stretch.len(),
{
    let done = substituted(rest, first, first_value, second, second_value);
    if stretch.len() == 0 {
        assert(stretch + rest =~= rest);
        assert(stretch + done =~= done);
    } else {
        let text = stretch + rest;
        let shorter = stretch.drop_first();
        assert(text[0] == stretch[0]);
        if occurs_at(text, first, 0) {
            assert(text.subrange(0, first.len() as int)[0] == first[0]);
        }
        if occurs_at(text, second, 0) {
            assert(text.subrange(0, second.len() as int)[0] == second[0]);
        }
        assert(text.drop_first() =~= shorter + rest);
        assert forall|i: int| 0 <= i < shorter.len() implies #[trigger] shorter[i] != first[0]
            && shorter[i] != second[0] by {
            assert(shorter[i] == stretch[i + 1]);
        }
        lemma_substituted_passes_over(shorter, rest, first, first_value, second, second_value);
        assert(seq![stretch[0]] + (shorter + done) =~= stretch + done);
    }
}

/// A placeholder at the front is filled in.
pub proof fn lemma_substituted_at_front(
    rest: Seq<char>,
    first: Seq<char>,
    first_value: Seq<char>,
    second: Seq<char>,
    second_value: Seq<char>,
)
    requires
        first.len() > 0,
        second.len() > 0,
    ensures
        substituted(first + rest, first, first_value, second, second_value) == first_value
            + substituted(rest, first, first_value, second, second_value),
        !occurs_at(second + rest, first, 0) ==> substituted(
            second + rest,
            first,
            first_value,
            second,
            second_value,
        ) == second_value + substituted(rest, first, first_value, second, second_value),
{
    assert((first + rest).subrange(0, first.len() as int) =~= first);
    assert((first + rest).skip(first.len() as int) =~= rest);
    assert((second + rest).subrange(0, second.len() as int) =~= second);
    assert((second + rest).skip(second.len() as int) =~= rest);
}

/// `text` with each occurrence of `pattern` replaced by `value`. Occurrences
/// are taken from the left and do not overlap.
pub open spec fn replaced(text: Seq<char>, pattern: Seq<char>, value: Seq<char>) -> Seq<char>
    recommends
        pattern.len() > 0,
    decreases text.len(),
{
    if text.len() == 0 || pattern.len() == 0 {
        text
    } else if occurs_at(text, pattern, 0) {
        value + replaced(text.skip(pattern.len() as int), pattern, value)
    } else {
        seq![text[0]] + replaced(text.drop_first(), pattern, value)
    }
}

/// Replacement passes over a stretch of text that never holds the pattern's
/// first character.
proof fn lemma_replaced_passes_over(
    stretch: Seq<char>,
    rest: Seq<char>,
    pattern: Seq<char>,
    value: Seq<char>,
)
    requires
        pattern.len() > 0,
        forall|i: int| 0 <= i < stretch.len() ==> #[trigger] stretch[i] != pattern[0],
    ensures
        replaced(stretch + rest, pattern, value) == stretch + replaced(rest, pattern, value),
    decreases stretch.len(),
{
    if stretch.len() == 0 {
        assert(stretch + rest =~= rest);
        assert(stretch + replaced(rest, pattern, value) =~= replaced(rest, pattern, value));
    } else {
        let text = stretch + rest;
        let shorter = stretch.drop_first();
        assert(text[0] == stretch[0]);
        if occurs_at(text, pattern, 0) {
            assert(text.subrange(0, pattern.len() as int)[0] == pattern[0]);
        }
        assert(text.drop_first() =~= shorter + rest);
        assert forall|i: int| 0 <= i < shorter.len() implies #[trigger] shorter[i] != pattern[0] by {
            assert(shorter[i] == stretch[i + 1]);
        }
        lemma_replaced_passes_over(shorter, rest, pattern, value);
        assert(seq![stretch[0]] + (shorter + replaced(rest, pattern, value)) =~= stretch
            + replaced(rest, pattern, value));
    }
}

/// What replacement starts with, it took over from the text, unless the
/// pattern comes first.
proof fn lemma_replaced_start(
    text: Seq<char>,
    pattern: Seq<char>,
    value: Seq<char>,
    start: Seq<char>,
) -> (kept: int)
    requires
        pattern.len() > 0,
        occurs_at(replaced(text, pattern, value), start, 0),
    ensures
        0 <= kept <= start.len(),
        occurs_at(text, start.take(kept), 0),
        kept < start.len() ==> occurs_at(text, pattern, kept),
    decreases start.len(),
{
    let whole = replaced(text, pattern, value);
    assert(whole.subrange(0, start.len() as int) == start);
    if start.len() == 0 || occurs_at(text, pattern, 0) {
        assert(text.subrange(0, 0) =~= start.take(0));
        0
    } else {
        let rest = text.drop_first();
        let after = replaced(rest, pattern, value);
        assert(text.len() > 0);
        assert(whole == seq![text[0]] + after);
        assert(start[0] == whole.subrange(0, start.len() as int)[0]);
        assert(start[0] == text[0]);
        let end = start.drop_first();
        assert(after.subrange(0, end.len() as int) =~= end) by {
            assert forall|i: int| 0 <= i < end.len() implies after[i] == #[trigger] end[i] by {
                assert(whole.subrange(0, start.len() as int)[i + 1] == start[i + 1]);
            }
        }
        let kept = lemma_replaced_start(rest, pattern, value, end) + 1;
        assert(rest.subrange(0, kept - 1) == end.take(kept - 1));
        assert(text.subrange(0, kept) =~= start.take(kept)) by {
            assert forall|i: int| 0 < i < kept implies #[trigger] text[i] == start[i] by {
                assert(rest.subrange(0, kept - 1)[i - 1] == end.take(kept - 1)[i - 1]);
            }
        }
        assert(rest =~= text.skip(1));
        if kept < start.len() {
            lemma_occurs_behind(text, pattern, 1, kept - 1);
        }
        kept
    }
}

/// Whether a `first` stands in the text right behind a beginning of `second`,
/// so that replacing it could make up a `second` that was not there.
pub open spec fn may_join(text: Seq<char>, first: Seq<char>, second: Seq<char>) -> bool {
    exists|at: int, begun: int|
        0 < begun < second.len() && begun <= at && #[trigger] occurs_at(text, first, at)
            && #[trigger] occurs_at(text, second.take(begun), at - begun)
}

/// To fill in two placeholders in one go is to replace the first and then the
/// second, if the first value does not hold the character that the second
/// placeholder starts with, and no second placeholder can be made up of what
/// stands round a first.
pub proof fn law_substituted_in_one_go_or_two(
    text: Seq<char>,
    first: Seq<char>,
    first_value: Seq<char>,
    second: Seq<char>,
    second_value: Seq<char>,
)
    requires
        first.len() > 0,
        second.len() > 0,
        first[0] == second[0],
        forall|i: int| 0 < i < second.len() ==> #[trigger] second[i] != second[0],
        forall|i: int| 0 <= i < first_value.len() ==> #[trigger] first_value[i] != second[0],
        !may_join(text, first, second),
    ensures
        substituted(text, first, first_value, second, second_value) == replaced(
            replaced(text, first, first_value),
            second,
            second_value,
        ),
    decreases text.len(),
{
    if text.len() > 0 {
        if occurs_at(text, first, 0) {
            let rest = text.skip(first.len() as int);
            lemma_may_join_in_rest(text, first, second, first.len() as int);
            law_substituted_in_one_go_or_two(rest, first, first_value, second, second_value);
            lemma_replaced_passes_over(
                first_value,
                replaced(rest, first, first_value),
                second,
                second_value,
            );
        } else if occurs_at(text, second, 0) {
            let n = second.len() as int;
            let rest = text.skip(n);
            lemma_may_join_in_rest(text, first, second, n);
            law_substituted_in_one_go_or_two(rest, first, first_value, second, second_value);
            let tail = second.drop_first();
            assert(text.subrange(0, n) == second);
            assert(text[0] == text.subrange(0, n)[0]);
            assert(text.drop_first() =~= tail + rest) by {
                assert(text =~= text.subrange(0, n) + rest);
            }
            assert forall|i: int| 0 <= i < tail.len() implies #[trigger] tail[i] != first[0] by {
                assert(tail[i] == second[i + 1]);
            }
            lemma_replaced_passes_over(tail, rest, first, first_value);
            let once = replaced(rest, first, first_value);
            assert(seq![second[0]] + (tail + once) =~= second + once);
            assert((second + once).subrange(0, n) =~= second);
            assert((second + once).skip(n) =~= once);
        } else {
            let rest = text.drop_first();
            assert(text.skip(1) =~= rest);
            lemma_may_join_in_rest(text, first, second, 1);
            law_substituted_in_one_go_or_two(rest, first, first_value, second, second_value);
            let once = replaced(text, first, first_value);
            if occurs_at(once, second, 0) {
                let kept = lemma_replaced_start(text, first, first_value, second);
                assert(second.take(second.len() as int) =~= second);
                assert(occurs_at(text, first, kept) && occurs_at(
                    text,
                    second.take(kept),
                    kept - kept,
                ));
            }
            assert(once.drop_first() =~= replaced(rest, first, first_value));
        }
    }
}

/// What stands behind a position holds no such place if the text does not.
proof fn lemma_may_join_in_rest(text: Seq<char>, first: Seq<char>, second: Seq<char>, from: int)
    requires
        0 <= from <= text.len(),
        !may_join(text, first, second),
    ensures
        !may_join(text.skip(from), first, second),
{
    let rest = text.skip(from);
    if may_join(rest, first, second) {
        let (at, begun): (int, int) = choose|at: int, begun: int|
            0 < begun < second.len() && begun <= at && #[trigger] occurs_at(rest, first, at)
                && #[trigger] occurs_at(rest, second.take(begun), at - begun);
        lemma_occurs_behind(text, first, from, at);
        lemma_occurs_behind(text, second.take(begun), from, at - begun);
        assert(occurs_at(text, first, from + at) && occurs_at(
            text,
            second.take(begun),
            (from + at) - begun,
        ));
    }
}

/// What occurs behind a position occurs in the text.
proof fn lemma_occurs_behind(text: Seq<char>, pattern: Seq<char>, from: int, at: int)
    requires
        0 <= from <= text.len(),
        occurs_at(text.skip(from), pattern, at),
    ensures
        occurs_at(text, pattern, from + at),
{
    assert(text.subrange(from + at, from + at + pattern.len()) =~= text.skip(from).subrange(
        at,
        at + pattern.len(),
    ));
}

} // verus!
