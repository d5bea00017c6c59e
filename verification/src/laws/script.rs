//! What holds of the freshness check's script, whatever goes into it.

use crate::freshness::{check_script, check_url, SCRIPT_HEAD, SCRIPT_MIDDLE, SCRIPT_TAIL};
use crate::laws::text::{
    law_escaped_is_literal_body, law_escaped_reads_back, law_substituted_in_one_go_or_two,
    law_substituted_keeps_text_without_placeholders, lemma_substituted_at_front,
    lemma_substituted_passes_over, may_join, replaced,
};
use crate::settings::FreshnessCheck;
use crate::text::{escaped, is_literal_body, literal_value, occurs_at, without_line_breaks};
use vstd::prelude::*;

verus! {

/// How the script's fixed parts begin and end.
proof fn lemma_script_parts()
    ensures
        SCRIPT_HEAD@.len() == 19 && SCRIPT_MIDDLE@.len() == 16 && SCRIPT_TAIL@.len() == 501,
        SCRIPT_HEAD@.subrange(0, 5) == "try {"@,
        SCRIPT_HEAD@.last() == '"' && SCRIPT_MIDDLE@.first() == '"',
        SCRIPT_MIDDLE@.last() == '"' && SCRIPT_TAIL@.first() == '"',
        SCRIPT_TAIL@.subrange(487, 501) == "} catch (e) {}"@,
{
    reveal_strlit(
        r#"try {
  var url = ""#,
    );
    reveal_strlit(
        r#"";
  var msg = ""#,
    );
    reveal_strlit(
        r#"";
  if (typeof Net !== 'undefined' && Net.HTTP && Net.HTTP.request) {
    Net.HTTP.request({
      cVerb: "GET",
      cURL: url,
      oRequest: {},
      oHandler: {
        response: function(msgObj, uri, oRequest) {
          try {
            var body = msgObj.response;
            if (body && /"outdated"\s*:\s*true/.test(body)) {
              app.alert({ cMsg: msg, cTitle: "Outdated document", nIcon: 1 });
            }
          } catch (e) {}
        }
      }
    });
  }
} catch (e) {}"#,
    );
    reveal_strlit("try {");
    reveal_strlit("} catch (e) {}");
    assert(SCRIPT_HEAD@.subrange(0, 5) =~= "try {"@);
    assert(SCRIPT_TAIL@.subrange(487, 501) =~= "} catch (e) {}"@);
}

/// The whole script is one `try` block with an empty `catch`, so that no
/// failure in it reaches the reader.
pub proof fn law_script_is_guarded(check: FreshnessCheck)
    ensures
        ({
            let script = check_script(check);
            let n = script.len() as int;
            &&& n >= 19
            &&& script.subrange(0, 5) == "try {"@
            &&& script.subrange(n - 14, n) == "} catch (e) {}"@
        }),
{
    lemma_script_parts();
    let script = check_script(check);
    let n = script.len() as int;
    assert(script.subrange(0, 5) =~= SCRIPT_HEAD@.subrange(0, 5));
    assert(script.subrange(n - 14, n) =~= SCRIPT_TAIL@.subrange(487, 501));
}

/// The URL and the message each stand between double quotes that they cannot
/// leave: both are bodies of string literals.
pub proof fn law_script_literals_are_closed(check: FreshnessCheck)
    ensures
        is_literal_body(escaped(check_url(check))),
        is_literal_body(escaped(check.outdated_message@)),
        SCRIPT_HEAD@.last() == '"' && SCRIPT_MIDDLE@.first() == '"',
        SCRIPT_MIDDLE@.last() == '"' && SCRIPT_TAIL@.first() == '"',
{
    lemma_script_parts();
    law_escaped_is_literal_body(check_url(check));
    law_escaped_is_literal_body(check.outdated_message@);
}

/// What the script reads out of its two literals is the check's URL and the
/// check's message, line breaks left out.
pub proof fn law_script_literals_read_back(check: FreshnessCheck)
    ensures
        literal_value(escaped(check_url(check))) == without_line_breaks(check_url(check)),
        literal_value(escaped(check.outdated_message@)) == without_line_breaks(
            check.outdated_message@,
        ),
{
    law_escaped_reads_back(check_url(check));
    law_escaped_reads_back(check.outdated_message@);
}

proof fn lemma_placeholders()
    ensures
        "{doc_id}"@.len() == 8 && "{doc_version}"@.len() == 13,
        "{doc_id}"@[0] == '{' && "{doc_version}"@[0] == '{',
        "{doc_id}"@[5] != "{doc_version}"@[5],
        forall|i: int| 0 < i < 13 ==> #[trigger] "{doc_version}"@[i] != '{',
{
    reveal_strlit("{doc_id}");
    reveal_strlit("{doc_version}");
    reveal_with_fuel(lacks, 13);
    lemma_lacks("{doc_version}"@, '{', 1, 13);
}

/// Whether `c` does not occur in `text` from position `from` up to `to`.
spec fn lacks(text: Seq<char>, c: char, from: int, to: int) -> bool
    decreases to - from,
{
    from >= to || (text[from] != c && lacks(text, c, from + 1, to))
}

proof fn lemma_lacks(text: Seq<char>, c: char, from: int, to: int)
    requires
        lacks(text, c, from, to),
    ensures
        forall|i: int| from <= i < to ==> #[trigger] text[i] != c,
    decreases to - from,
{
    if from < to {
        lemma_lacks(text, c, from + 1, to);
    }
}

/// A template without placeholders is the URL.
pub proof fn law_url_without_placeholders(check: FreshnessCheck)
    requires
        forall|at: int| !occurs_at(check.url_template@, "{doc_id}"@, at),
        forall|at: int| !occurs_at(check.url_template@, "{doc_version}"@, at),
    ensures
        check_url(check) == check.url_template@,
{
    lemma_placeholders();
    law_substituted_keeps_text_without_placeholders(
        check.url_template@,
        "{doc_id}"@,
        check.doc_id@,
        "{doc_version}"@,
        check.doc_version@,
    );
}

/// A template with one place for the identifier and, behind it, one for the
/// version gives the URL with both in their places, whatever they hold, if
/// the template opens no other brace.
pub proof fn law_url_takes_identifier_and_version(
    check: FreshnessCheck,
    before: Seq<char>,
    between: Seq<char>,
    after: Seq<char>,
)
    requires
        check.url_template@ == before + ("{doc_id}"@ + (between + ("{doc_version}"@ + after))),
        forall|i: int| 0 <= i < before.len() ==> #[trigger] before[i] != '{',
        forall|i: int| 0 <= i < between.len() ==> #[trigger] between[i] != '{',
        forall|i: int| 0 <= i < after.len() ==> #[trigger] after[i] != '{',
    ensures
        check_url(check) == before + (check.doc_id@ + (between + (check.doc_version@ + after))),
{
    let id = "{doc_id}"@;
    let version = "{doc_version}"@;
    let given_id = check.doc_id@;
    let given_version = check.doc_version@;
    lemma_placeholders();
    let end = version + after;
    let rest = between + end;
    lemma_substituted_passes_over(before, id + rest, id, given_id, version, given_version);
    lemma_substituted_at_front(rest, id, given_id, version, given_version);
    lemma_substituted_passes_over(between, end, id, given_id, version, given_version);
    assert(!occurs_at(end, id, 0)) by {
        if occurs_at(end, id, 0) {
            assert(end.subrange(0, 8)[5] == id[5]);
        }
    }
    lemma_substituted_at_front(after, id, given_id, version, given_version);
    lemma_substituted_passes_over(after, seq![], id, given_id, version, given_version);
    assert(after + seq![] =~= after);
}

/// The URL is the template with `{doc_id}` and then `{doc_version}` replaced,
/// if the identifier opens no brace and no `{doc_id}` stands in the template
/// right behind a beginning of `{doc_version}`.
pub proof fn law_url_by_successive_replacement(check: FreshnessCheck)
    requires
        forall|i: int| 0 <= i < check.doc_id@.len() ==> #[trigger] check.doc_id@[i] != '{',
        !may_join(check.url_template@, "{doc_id}"@, "{doc_version}"@),
    ensures
        check_url(check) == replaced(
            replaced(check.url_template@, "{doc_id}"@, check.doc_id@),
            "{doc_version}"@,
            check.doc_version@,
        ),
{
    lemma_placeholders();
    law_substituted_in_one_go_or_two(
        check.url_template@,
        "{doc_id}"@,
        check.doc_id@,
        "{doc_version}"@,
        check.doc_version@,
    );
}

} // verus!
