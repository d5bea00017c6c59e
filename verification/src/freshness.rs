//! The freshness check: a script that asks, when the document is opened,
//! whether a newer version exists.

use crate::document::{
    add_dictionary, dictionary_mut, name_object, new_dictionary, pdf_of, put, reference_object,
    text_object,
};
use crate::metadata::trailer_reference;
use crate::model::{name_value, set_entry, text_value, Entries, Pdf, Value};
use crate::settings::{Error, FreshnessCheck};
use crate::text::{escaped, js_escape, substitute, substituted};
use vstd::prelude::*;
use vstd::string::StringExecFns;

verus! {

/// The freshness check's script up to its URL. The whole script is wrapped
/// in a `try`/`catch` so any failure (network, bad response, no JavaScript
/// support, viewer sandbox) is passed over in silence and the document stays
/// usable.
pub const SCRIPT_HEAD: &'static str = r#"try {
  var url = ""#;

/// The script between its URL and its message.
pub const SCRIPT_MIDDLE: &'static str = r#"";
  var msg = ""#;

/// The script behind its message: the request, and the alert where the answer
/// is JSON that contains `"outdated": true`, with or without white space
/// round the colon.
pub const SCRIPT_TAIL: &'static str = r#"";
  if (typeof Net !== 'undefined' && Net.HTTP && Net.HTTP.request) {
    Net.HTTP.request({
      cVerb: "GET",
      cURL: url,
      oRequest: {},
      oHandler: {
        response: function(msgObj, uri, oRequest) {
          try {
            var body = msgObj.response;
            if (body && /"outdated"\s*:\s*true/.test(body)) {
              app.alert({ cMsg: msg, cTitle: "Outdated document", nIcon: 1 });
            }
          } catch (e) {}
        }
      }
    });
  }
} catch (e) {}"#;

/// The error where the trailer does not refer to a catalog.
pub const ROOT_MISSING: &'static str = "trailer /Root missing";

/// The error where `/Root` leads to something else than a dictionary.
pub const ROOT_NOT_A_DICTIONARY: &'static str = "/Root is not a dictionary";

/// The URL of the check: the template with the document's identifier and
/// version in place of `{doc_id}` and `{doc_version}`.
pub open spec fn check_url(check: FreshnessCheck) -> Seq<char> {
    substituted(
        check.url_template@,
        "{doc_id}"@,
        check.doc_id@,
        "{doc_version}"@,
        check.doc_version@,
    )
}

/// The script of the check, with the URL and the alert message, both escaped,
/// in its two string literals.
pub open spec fn check_script(check: FreshnessCheck) -> Seq<char> {
    SCRIPT_HEAD@ + (escaped(check_url(check)) + (SCRIPT_MIDDLE@ + (escaped(
        check.outdated_message@,
    ) + SCRIPT_TAIL@)))
}

/// The entries of the action that runs the script.
pub open spec fn action_entries(check: FreshnessCheck) -> Entries {
    set_entry(
        set_entry(
            set_entry(Seq::empty(), "Type"@, name_value("Action"@)),
            "S"@,
            name_value("JavaScript"@),
        ),
        "JS"@,
        text_value(check_script(check)),
    )
}

/// The document with the script's action as a new object.
pub open spec fn with_action(pdf: Pdf, check: FreshnessCheck) -> Pdf {
    pdf.with_new_object(Value::Dictionary(action_entries(check)))
}

/// The document once its catalog runs the script on opening, or the reason
/// why it has no catalog.
pub open spec fn freshness_applied(pdf: Pdf, check: FreshnessCheck) -> Result<Pdf, Seq<char>> {
    let acting = with_action(pdf, check);
    match acting.trailer_reference("Root"@) {
        Some(root) => match acting.dictionary(root) {
            Some(catalog) => Ok(
                acting.with_object(
                    root,
                    Value::Dictionary(
                        set_entry(catalog, "OpenAction"@, Value::Reference(pdf.next_id())),
                    ),
                ),
            ),
            None => Err(ROOT_NOT_A_DICTIONARY@),
        },
        None => Err(ROOT_MISSING@),
    }
}

/// The script of the check.
pub fn freshness_script(check: &FreshnessCheck) -> (script: String)
    ensures
        script@ == check_script(*check),
{
    proof {
        reveal_strlit("{doc_id}");
        reveal_strlit("{doc_version}");
    }
    let url = substitute(
        check.url_template.as_str(),
        "{doc_id}",
        check.doc_id.as_str(),
        "{doc_version}",
        check.doc_version.as_str(),
    );
    let url_literal = js_escape(url.as_str());
    let message_literal = js_escape(check.outdated_message.as_str());
    let mut script = SCRIPT_HEAD.to_string();
    script.append(url_literal.as_str());
    script.append(SCRIPT_MIDDLE);
    script.append(message_literal.as_str());
    script.append(SCRIPT_TAIL);
    assert(script@ =~= check_script(*check));
    script
}

/// Add the check's script to the document and make it the catalog's
/// `/OpenAction`.
pub fn apply_freshness_check(
    document: &mut lopdf::Document,
    check: &FreshnessCheck,
) -> (outcome: Result<(), Error>)
    requires
        pdf_of(*old(document)).max_id < u32::MAX,
    ensures
        match freshness_applied(pdf_of(*old(document)), *check) {
            Ok(applied) => outcome is Ok && pdf_of(*final(document)) == applied,
            Err(reason) => {
                &&& outcome matches Err(Error::Structure(message)) && message@ == reason
                &&& pdf_of(*final(document)) == with_action(pdf_of(*old(document)), *check)
            },
        },
{
    let script = freshness_script(check);
    let mut action = new_dictionary();
    put(&mut action, "Type", name_object("Action"));
    put(&mut action, "S", name_object("JavaScript"));
    put(&mut action, "JS", text_object(script.as_str()));
    let action_id = add_dictionary(document, action);
    let root = match trailer_reference(document, "Root") {
        Some(root) => root,
        None => {
            return Err(Error::Structure(ROOT_MISSING));
        },
    };
    match dictionary_mut(document, root) {
        Some(catalog) => {
            put(catalog, "OpenAction", reference_object(action_id));
            Ok(())
        },
        None => Err(Error::Structure(ROOT_NOT_A_DICTIONARY)),
    }
}

} // verus!
