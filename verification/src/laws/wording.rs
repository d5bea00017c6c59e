//! What the script, its URL and its string literals say, character by
//! character: stated of the calls themselves.

use crate::freshness::{
    check_script, check_url, freshness_script, SCRIPT_HEAD, SCRIPT_MIDDLE, SCRIPT_TAIL,
};
use crate::laws::text::{
    law_escaped_is_literal_body, law_escaped_reads_back, lemma_substituted_at_front,
};
use crate::settings::FreshnessCheck;
use crate::text::{
    escaped, escaped_char, is_literal_body, js_escape, literal_value, occurs_at, substitute,
    substituted, without_line_breaks,
};
use vstd::prelude::*;

verus! {

/// A pattern occurs at the front exactly where the text starts with it.
proof fn lemma_occurs_at_front(text: Seq<char>, pattern: Seq<char>)
    ensures
        occurs_at(text, pattern, 0) <==> pattern.is_prefix_of(text),
{
    if pattern.len() <= text.len() {
        assert(text.subrange(0, pattern.len() as int) == pattern <==> pattern
            =~= text.subrange(0, pattern.len() as int));
    }
}

/// Escaping goes character by character: the escaped form of two texts, one
/// after the other, is the escaped forms one after the other.
pub proof fn law_escape_calls_join(
    whole: &str,
    one: &str,
    other: &str,
    whole_out: String,
    one_out: String,
    other_out: String,
)
    requires
        call_ensures(js_escape, (whole,), whole_out),
        call_ensures(js_escape, (one,), one_out),
        call_ensures(js_escape, (other,), other_out),
        whole@ == one@ + other@,
    ensures
        whole_out@ == one_out@ + other_out@,
{
    lemma_escaped_joins(one@, other@);
}

pub proof fn lemma_escaped_joins(one: Seq<char>, other: Seq<char>)
    ensures
        escaped(one + other) == escaped(one) + escaped(other),
    decreases one.len(),
{
    if one.len() == 0 {
        assert(one + other =~= other);
        assert(escaped(one) + escaped(other) =~= escaped(other));
    } else {
        lemma_escaped_joins(one.drop_first(), other);
        assert((one + other).drop_first() =~= one.drop_first() + other);
        assert(escaped_char(one[0]) + (escaped(one.drop_first()) + escaped(other)) =~= (
        escaped_char(one[0]) + escaped(one.drop_first())) + escaped(other));
    }
}

/// What becomes of a text of one character, and of none: a backslash and a
/// double quote gain a backslash before them, a line feed and a carriage
/// return vanish, and every other character stands for itself.
pub proof fn law_escape_call_on_one_character(text: &str, out: String)
    requires
        call_ensures(js_escape, (text,), out),
        text@.len() <= 1,
    ensures
        text@.len() == 0 ==> out@.len() == 0,
        text@.len() == 1 && (text@[0] == '\n' || text@[0] == '\r') ==> out@.len() == 0,
        text@.len() == 1 && (text@[0] == '\\' || text@[0] == '"') ==> out@ == seq!['\\', text@[0]],
        text@.len() == 1 && text@[0] != '\n' && text@[0] != '\r' && text@[0] != '\\' && text@[0]
            != '"' ==> out@ == text@,
{
    if text@.len() == 1 {
        assert(text@.drop_first().len() == 0);
        assert(escaped(text@.drop_first()) =~= seq![]);
        assert(escaped(text@) =~= escaped_char(text@[0]));
        assert(text@ =~= seq![text@[0]]);
    }
}

/// What JavaScript reads out of the escaped form, between double quotes, is
/// the text itself without its line feeds and carriage returns.
pub proof fn law_escape_call_reads_back(text: &str, out: String)
    requires
        call_ensures(js_escape, (text,), out),
    ensures
        is_literal_body(out@),
        literal_value(out@) == text@.filter(|c: char| c != '\n' && c != '\r'),
{
    law_escaped_is_literal_body(text@);
    law_escaped_reads_back(text@);
    lemma_line_breaks_are_filtered(text@);
}

proof fn lemma_line_breaks_are_filtered(text: Seq<char>)
    ensures
        without_line_breaks(text) == text.filter(|c: char| c != '\n' && c != '\r'),
    decreases text.len(),
{
    let keep = |c: char| c != '\n' && c != '\r';
    reveal(Seq::filter);
    if text.len() > 0 {
        let first = seq![text[0]];
        let rest = text.drop_first();
        lemma_line_breaks_are_filtered(rest);
        assert(text =~= first + rest);
        Seq::filter_distributes_over_add(first, rest, keep);
        assert(first.drop_last() =~= seq![]);
        assert(seq![].filter(keep) =~= Seq::<char>::empty());
        assert(first.filter(keep) =~= if keep(text[0]) {
            first
        } else {
            seq![]
        });
        assert(seq![] + without_line_breaks(rest) =~= without_line_breaks(rest));
    }
}

/// Substitution in a text that starts with a placeholder: its value comes in
/// its place, and the rest is substituted as on its own.
pub proof fn law_substitute_calls_at_a_placeholder(
    text: &str,
    rest: &str,
    first: &str,
    first_value: &str,
    second: &str,
    second_value: &str,
    out: String,
    rest_out: String,
)
    requires
        first@.len() > 0,
        second@.len() > 0,
        call_ensures(substitute, (text, first, first_value, second, second_value), out),
        call_ensures(substitute, (rest, first, first_value, second, second_value), rest_out),
    ensures
        text@ == first@ + rest@ ==> out@ == first_value@ + rest_out@,
        text@ == second@ + rest@ && !first@.is_prefix_of(text@) ==> out@ == second_value@
            + rest_out@,
{
    lemma_occurs_at_front(text@, first@);
    lemma_substituted_at_front(rest@, first@, first_value@, second@, second_value@);
}

/// Substitution in a text that starts with no placeholder: its first
/// character stays, and the rest is substituted as on its own. An empty text
/// stays empty.
pub proof fn law_substitute_calls_elsewhere(
    text: &str,
    rest: &str,
    first: &str,
    first_value: &str,
    second: &str,
    second_value: &str,
    out: String,
    rest_out: String,
)
    requires
        first@.len() > 0,
        second@.len() > 0,
        call_ensures(substitute, (text, first, first_value, second, second_value), out),
        call_ensures(substitute, (rest, first, first_value, second, second_value), rest_out),
    ensures
        text@.len() == 0 ==> out@.len() == 0,
        text@.len() > 0 && rest@ == text@.drop_first() && !first@.is_prefix_of(text@)
            && !second@.is_prefix_of(text@) ==> out@ == seq![text@[0]] + rest_out@,
{
    lemma_occurs_at_front(text@, first@);
    lemma_occurs_at_front(text@, second@);
}

/// The URL of a check, from the front of its template on: at `{doc_id}` comes
/// the identifier, at `{doc_version}` the version, each as it is, and every
/// other character stays. `rest` is a check with the same identifier and
/// version and the rest of the template.
pub proof fn law_url_from_the_front(check: FreshnessCheck, rest: FreshnessCheck)
    requires
        rest.doc_id@ == check.doc_id@,
        rest.doc_version@ == check.doc_version@,
    ensures
        check.url_template@.len() == 0 ==> check_url(check).len() == 0,
        check.url_template@ == "{doc_id}"@ + rest.url_template@ ==> check_url(check)
            == check.doc_id@ + check_url(rest),
        check.url_template@ == "{doc_version}"@ + rest.url_template@ ==> check_url(check)
            == check.doc_version@ + check_url(rest),
        check.url_template@.len() > 0 && rest.url_template@ == check.url_template@.drop_first()
            && !"{doc_id}"@.is_prefix_of(check.url_template@) && !"{doc_version}"@.is_prefix_of(
            check.url_template@,
        ) ==> check_url(check) == seq![check.url_template@[0]] + check_url(rest),
{
    reveal_strlit("{doc_id}");
    reveal_strlit("{doc_version}");
    let id = "{doc_id}"@;
    let version = "{doc_version}"@;
    let template = check.url_template@;
    lemma_occurs_at_front(template, id);
    lemma_occurs_at_front(template, version);
    lemma_substituted_at_front(
        rest.url_template@,
        id,
        check.doc_id@,
        version,
        check.doc_version@,
    );
    if template == version + rest.url_template@ {
        if id.is_prefix_of(template) {
            assert(template.subrange(0, 8)[5] == id[5]);
            assert(template[5] == version[5]);
        }
    }
}

/// Two literal bodies that are each followed by a double quote in one text
/// are the same: where a literal ends can be told.
proof fn lemma_literal_ends_once(
    one: Seq<char>,
    other: Seq<char>,
    behind_one: Seq<char>,
    behind_other: Seq<char>,
)
    requires
        is_literal_body(one),
        is_literal_body(other),
        one + (seq!['"'] + behind_one) == other + (seq!['"'] + behind_other),
    ensures
        one == other,
        behind_one == behind_other,
    decreases one.len(),
{
    let whole = one + (seq!['"'] + behind_one);
    let same = other + (seq!['"'] + behind_other);
    if one.len() == 0 {
        assert(whole[0] == '"');
        if other.len() > 0 {
            assert(same[0] == other[0]);
        }
        assert(behind_one =~= whole.skip(1));
        assert(behind_other =~= same.skip(1));
    } else {
        assert(whole[0] == one[0]);
        if other.len() == 0 {
            assert(same[0] == '"');
        } else {
            assert(same[0] == other[0]);
            let n: int = if one[0] == '\\' {
                2
            } else {
                1
            };
            if n == 2 {
                assert(whole[1] == one[1] && same[1] == other[1]);
            } else {
                assert(one.skip(1) =~= one.drop_first());
                assert(other.skip(1) =~= other.drop_first());
            }
            assert(whole.skip(n) =~= one.skip(n) + (seq!['"'] + behind_one));
            assert(same.skip(n) =~= other.skip(n) + (seq!['"'] + behind_other));
            lemma_literal_ends_once(one.skip(n), other.skip(n), behind_one, behind_other);
            assert(one =~= one.take(n) + one.skip(n));
            assert(other =~= other.take(n) + other.skip(n));
            assert(one.take(n) =~= whole.take(n));
            assert(other.take(n) =~= same.take(n));
        }
    }
}

/// The script is fixed text with two string literals in it: the first, which
/// `url` is set to, is read as the check's URL, and the second, which `msg` is
/// set to, as the check's message, line breaks left out of both. `url` is what
/// is requested, and `msg` what the alert shows.
pub proof fn law_script_call_asks_the_url_and_shows_the_message(
    check: FreshnessCheck,
    script: String,
)
    requires
        call_ensures(freshness_script, (&check,), script),
    ensures
        script@ == check_script(check),
        exists|url: Seq<char>, message: Seq<char>|
            {
                &&& #[trigger] is_literal_body(url)
                &&& #[trigger] is_literal_body(message)
                &&& literal_value(url) == check_url(check).filter(
                    |c: char| c != '\n' && c != '\r',
                )
                &&& literal_value(message) == check.outdated_message@.filter(
                    |c: char| c != '\n' && c != '\r',
                )
                &&& script@ == "try {\n  var url = \""@ + (url + ("\";\n  var msg = \""@ + (message
                    + r#"";
  if (typeof Net !== 'undefined' && Net.HTTP && Net.HTTP.request) {
    Net.HTTP.request({
      cVerb: "GET",
      cURL: url,
      oRequest: {},
      oHandler: {
        response: function(msgObj, uri, oRequest) {
          try {
            var body = msgObj.response;
            if (body && /"outdated"\s*:\s*true/.test(body)) {
              app.alert({ cMsg: msg, cTitle: "Outdated document", nIcon: 1 });
            }
          } catch (e) {}
        }
      }
    });
  }
} catch (e) {}"#@)))
            },
{
    let url = escaped(check_url(check));
    let message = escaped(check.outdated_message@);
    law_escaped_is_literal_body(check_url(check));
    law_escaped_is_literal_body(check.outdated_message@);
    law_escaped_reads_back(check_url(check));
    law_escaped_reads_back(check.outdated_message@);
    lemma_line_breaks_are_filtered(check_url(check));
    lemma_line_breaks_are_filtered(check.outdated_message@);
    lemma_head_and_middle();
    assert(is_literal_body(url) && is_literal_body(message));
    assert(script@ == SCRIPT_HEAD@ + (url + (SCRIPT_MIDDLE@ + (message + SCRIPT_TAIL@))));
}

proof fn lemma_head_and_middle()
    ensures
        SCRIPT_HEAD@ == "try {\n  var url = \""@,
        SCRIPT_MIDDLE@ == "\";\n  var msg = \""@,
        SCRIPT_MIDDLE@ == seq!['"'] + ";\n  var msg = \""@,
        SCRIPT_TAIL@.len() > 0 && SCRIPT_TAIL@[0] == '"',
{
    reveal_strlit(
        r#"try {
  var url = ""#,
    );
    reveal_strlit(
        r#"";
  var msg = ""#,
    );
    reveal_strlit("try {\n  var url = \"");
    reveal_strlit("\";\n  var msg = \"");
    reveal_strlit(";\n  var msg = \"");
    reveal_strlit(
        r#"";
  if (typeof Net !== 'undefined' && Net.HTTP && Net.HTTP.request) {
    Net.HTTP.request({
      cVerb: "GET",
      cURL: url,
      oRequest: {},
      oHandler: {
        response: function(msgObj, uri, oRequest) {
          try {
            var body = msgObj.response;
            if (body && /"outdated"\s*:\s*true/.test(body)) {
              app.alert({ cMsg: msg, cTitle: "Outdated document", nIcon: 1 });
            }
          } catch (e) {}
        }
      }
    });
  }
} catch (e) {}"#,
    );
    assert(SCRIPT_HEAD@ =~= "try {\n  var url = \""@);
    assert(SCRIPT_MIDDLE@ =~= "\";\n  var msg = \""@);
    assert(SCRIPT_MIDDLE@ =~= seq!['"'] + ";\n  var msg = \""@);
}

/// However the script's two literals are read, as bodies that end at the
/// first double quote without a backslash, the first gives the check's URL
/// and the second the check's message.
pub proof fn law_script_call_is_read_in_one_way(
    check: FreshnessCheck,
    script: String,
    url: Seq<char>,
    message: Seq<char>,
    end: Seq<char>,
)
    requires
        call_ensures(freshness_script, (&check,), script),
        is_literal_body(url),
        is_literal_body(message),
        script@ == "try {\n  var url = \""@ + (url + ("\";\n  var msg = \""@ + (message + (
        seq!['"'] + end)))),
    ensures
        literal_value(url) == check_url(check).filter(|c: char| c != '\n' && c != '\r'),
        literal_value(message) == check.outdated_message@.filter(
            |c: char| c != '\n' && c != '\r',
        ),
{
    let true_url = escaped(check_url(check));
    let true_message = escaped(check.outdated_message@);
    law_escaped_is_literal_body(check_url(check));
    law_escaped_is_literal_body(check.outdated_message@);
    law_escaped_reads_back(check_url(check));
    law_escaped_reads_back(check.outdated_message@);
    lemma_line_breaks_are_filtered(check_url(check));
    lemma_line_breaks_are_filtered(check.outdated_message@);
    lemma_head_and_middle();
    let head = SCRIPT_HEAD@;
    let gap = ";\n  var msg = \""@;
    let quote = seq!['"'];
    let true_end = SCRIPT_TAIL@.drop_first();
    assert(SCRIPT_TAIL@ =~= quote + true_end);
    let behind = gap + (message + (quote + end));
    let true_behind = gap + (true_message + (quote + true_end));
    assert(SCRIPT_MIDDLE@ + (message + (quote + end)) =~= quote + behind);
    assert(SCRIPT_MIDDLE@ + (true_message + SCRIPT_TAIL@) =~= quote + true_behind);
    assert(script@.skip(head.len() as int) =~= url + (quote + behind));
    assert(check_script(check).skip(head.len() as int) =~= true_url + (quote + true_behind));
    lemma_literal_ends_once(url, true_url, behind, true_behind);
    assert(behind.skip(gap.len() as int) =~= message + (quote + end));
    assert(true_behind.skip(gap.len() as int) =~= true_message + (quote + true_end));
    lemma_literal_ends_once(message, true_message, end, true_end);
}

} // verus!
