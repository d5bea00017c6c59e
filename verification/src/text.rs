//! Text that ends up inside a JavaScript string literal: escaping, and
//! placeholder substitution.

use vstd::prelude::*;
use vstd::string::StringExecFns;

verus! {

/// What one character of a value becomes inside a double-quoted JavaScript
/// literal: a backslash and a double quote gain a backslash, a line break
/// vanishes, every other character stands for itself.
pub open spec fn escaped_char(c: char) -> Seq<char> {
    if c == '\\' {
        seq!['\\', '\\']
    } else if c == '"' {
        seq!['\\', '"']
    } else if c == '\n' || c == '\r' {
        seq![]
    } else {
        seq![c]
    }
}

/// `text`, escaped character by character.
pub open spec fn escaped(text: Seq<char>) -> Seq<char>
    decreases text.len(),
{
    if text.len() == 0 {
        seq![]
    } else {
        escaped_char(text[0]) + escaped(text.drop_first())
    }
}

/// `text` without its line feeds and carriage returns.
pub open spec fn without_line_breaks(text: Seq<char>) -> Seq<char>
    decreases text.len(),
{
    if text.len() == 0 {
        seq![]
    } else if text[0] == '\n' || text[0] == '\r' {
        without_line_breaks(text.drop_first())
    } else {
        seq![text[0]] + without_line_breaks(text.drop_first())
    }
}

/// Whether `body` may stand between two double quotes as one JavaScript
/// string literal: it holds no line break and no bare double quote, and each
/// backslash starts an escape of a backslash or of a double quote.
pub open spec fn is_literal_body(body: Seq<char>) -> bool
    decreases body.len(),
{
    if body.len() == 0 {
        true
    } else if body[0] == '\\' {
        body.len() >= 2 && (body[1] == '\\' || body[1] == '"') && is_literal_body(body.skip(2))
    } else {
        body[0] != '"' && body[0] != '\n' && body[0] != '\r' && is_literal_body(body.drop_first())
    }
}

/// The text that JavaScript reads out of a literal with this body.
pub open spec fn literal_value(body: Seq<char>) -> Seq<char>
    decreases body.len(),
{
    if body.len() == 0 {
        seq![]
    } else if body[0] == '\\' && body.len() >= 2 {
        seq![body[1]] + literal_value(body.skip(2))
    } else {
        seq![body[0]] + literal_value(body.drop_first())
    }
}

/// Whether `pattern` occurs in `text` at position `at`.
pub open spec fn occurs_at(text: Seq<char>, pattern: Seq<char>, at: int) -> bool {
    &&& 0 <= at
    &&& at + pattern.len() <= text.len()
    &&& text.subrange(at, at + pattern.len()) == pattern
}

/// `text` with `first_value` in place of each `first` and `second_value` in
/// place of each `second`. The text is gone through once, from the left; what
/// was put in is not searched again.
pub open spec fn substituted(
    text: Seq<char>,
    first: Seq<char>,
    first_value: Seq<char>,
    second: Seq<char>,
    second_value: Seq<char>,
) -> Seq<char>
    recommends
        first.len() > 0,
        second.len() > 0,
    decreases text.len(),
{
    if text.len() == 0 || first.len() == 0 || second.len() == 0 {
        text
    } else if occurs_at(text, first, 0) {
        first_value + substituted(
            text.skip(first.len() as int),
            first,
            first_value,
            second,
            second_value,
        )
    } else if occurs_at(text, second, 0) {
        second_value + substituted(
            text.skip(second.len() as int),
            first,
            first_value,
            second,
            second_value,
        )
    } else {
        seq![text[0]] + substituted(text.drop_first(), first, first_value, second, second_value)
    }
}

/// `String::push` appends the given character to the end of the string.
pub assume_specification[ String::push ](text: &mut String, c: char)
    ensures
        final(text)@ == old(text)@.push(c),
;

/// The characters of `text`, in order.
fn characters(text: &str) -> (characters: Vec<char>)
    ensures
        characters@ == text@,
{
    let mut characters: Vec<char> = Vec::new();
    for c in iter: text.chars()
        invariant
            characters@ == text@.take(iter.index()),
            iter.seq() == text@,
    {
        characters.push(c);
        proof {
            assert(text@.take(iter.index() + 1) =~= text@.take(iter.index()).push(text@[iter.index()]));
        }
    }
    assert(text@.take(text@.len() as int) =~= text@);
    characters
}

/// Escape characters that would break a JavaScript string literal: a
/// backslash is put before `\` and `"`, and line breaks are dropped.
pub fn js_escape(s: &str) -> (out: String)
    ensures
        out@ == escaped(s@),
{
    let source = characters(s);
    let mut out = String::new();
    let mut i: usize = 0;
    assert(source@.skip(0) =~= s@);
    while i < source.len()
        invariant
            i <= source.len(),
            source@ == s@,
            out@ + escaped(source@.skip(i as int)) == escaped(s@),
        decreases source.len() - i,
    {
        let c = source[i];
        let ghost before = out@;
        match c {
            '\\' => {
                out.push('\\');
                out.push('\\');
            },
            '"' => {
                out.push('\\');
                out.push('"');
            },
            '\n' | '\r' => {},
            other => {
                out.push(other);
            },
        }
        proof {
            let rest = source@.skip(i as int);
            assert(rest.drop_first() =~= source@.skip(i + 1));
            assert(out@ =~= before + escaped_char(c));
            assert(escaped(rest) == escaped_char(c) + escaped(rest.drop_first()));
            assert(before + (escaped_char(c) + escaped(rest.drop_first())) =~= out@ + escaped(
                rest.drop_first(),
            ));
        }
        i = i + 1;
    }
    assert(source@.skip(i as int) =~= seq![]);
    assert(out@ + escaped(seq![]) =~= out@);
    out
}

/// Whether `pattern` occurs in `text` at position `at`.
fn matches_at(text: &Vec<char>, pattern: &Vec<char>, at: usize) -> (found: bool)
    requires
        at <= text.len(),
    ensures
        found == occurs_at(text@, pattern@, at as int),
{
    if pattern.len() > text.len() - at {
        return false;
    }
    let mut k: usize = 0;
    while k < pattern.len()
        invariant
            k <= pattern.len(),
            at + pattern.len() <= text.len(),
            forall|j: int| 0 <= j < k ==> text@[at + j] == #[trigger] pattern@[j],
        decreases pattern.len() - k,
    {
        if text[at + k] != pattern[k] {
            assert(text@.subrange(at as int, at + pattern@.len())[k as int] != pattern@[k as int]);
            return false;
        }
        k = k + 1;
    }
    assert(text@.subrange(at as int, at + pattern@.len()) =~= pattern@);
    true
}

/// `text` with both placeholders filled in, in one go.
pub fn substitute(
    text: &str,
    first: &str,
    first_value: &str,
    second: &str,
    second_value: &str,
) -> (out: String)
    requires
        first@.len() > 0,
        second@.len() > 0,
    ensures
        out@ == substituted(text@, first@, first_value@, second@, second_value@),
{
    let source = characters(text);
    let first_sought = characters(first);
    let second_sought = characters(second);
    let mut out = String::new();
    let mut i: usize = 0;
    assert(source@.skip(0) =~= text@);
    while i < source.len()
        invariant
            i <= source.len(),
            source@ == text@,
            first_sought@ == first@,
            second_sought@ == second@,
            first@.len() > 0,
            second@.len() > 0,
            out@ + substituted(
                source@.skip(i as int),
                first@,
                first_value@,
                second@,
                second_value@,
            ) == substituted(text@, first@, first_value@, second@, second_value@),
        decreases source.len() - i,
    {
        let ghost before = out@;
        let ghost rest = source@.skip(i as int);
        proof {
            lemma_occurs_in_rest(source@, first@, i as int);
            lemma_occurs_in_rest(source@, second@, i as int);
        }
        if matches_at(&source, &first_sought, i) {
            proof {
                let n = first@.len() as int;
                let done = substituted(
                    rest.skip(n),
                    first@,
                    first_value@,
                    second@,
                    second_value@,
                );
                assert(rest.skip(n) =~= source@.skip(i + n));
                assert(before + (first_value@ + done) =~= (before + first_value@) + done);
            }
            out.append(first_value);
            i = i + first_sought.len();
        } else if matches_at(&source, &second_sought, i) {
            proof {
                let n = second@.len() as int;
                let done = substituted(
                    rest.skip(n),
                    first@,
                    first_value@,
                    second@,
                    second_value@,
                );
                assert(rest.skip(n) =~= source@.skip(i + n));
                assert(before + (second_value@ + done) =~= (before + second_value@) + done);
            }
            out.append(second_value);
            i = i + second_sought.len();
        } else {
            proof {
                let done = substituted(
                    rest.drop_first(),
                    first@,
                    first_value@,
                    second@,
                    second_value@,
                );
                assert(rest.drop_first() =~= source@.skip(i + 1));
                assert(before + (seq![rest[0]] + done) =~= before.push(rest[0]) + done);
            }
            out.push(source[i]);
            i = i + 1;
        }
    }
    assert(source@.skip(i as int) =~= seq![]);
    assert(out@ + seq![] =~= out@);
    out
}

/// To occur at a position is to occur at the front of what follows it.
proof fn lemma_occurs_in_rest(text: Seq<char>, pattern: Seq<char>, at: int)
    requires
        0 <= at <= text.len(),
    ensures
        occurs_at(text, pattern, at) == occurs_at(text.skip(at), pattern, 0),
{
    if at + pattern.len() <= text.len() {
        assert(text.skip(at).subrange(0, pattern.len() as int) =~= text.subrange(
            at,
            at + pattern.len(),
        ));
    }
}

} // verus!
