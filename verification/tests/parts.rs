use lopdf::{Dictionary, Document, Object};
use pdf_stamp::clock::{current_pdf_date, date_or_epoch};
use pdf_stamp::freshness::{apply_freshness_check, freshness_script};
use pdf_stamp::metadata::{apply_invisible_metadata, StampDates};
use pdf_stamp::request::{requested_check, requested_options};
use pdf_stamp::text::{js_escape, substitute};
use pdf_stamp::{
    Error, FreshnessCheck, InvisibleMetadata, Options, Recipient, VisibleWatermark,
};

fn everything() -> InvisibleMetadata {
    InvisibleMetadata {
        recipient_id: true,
        recipient_email: true,
        stamped_at: true,
    }
}

fn bob() -> Recipient {
    Recipient {
        name: "Bob".to_string(),
        identifier: "bob-123".to_string(),
        email: Some("bob@example.com".to_string()),
    }
}

fn dates() -> StampDates {
    StampDates {
        stamped_at: "stamped".to_string(),
        created_at: "created".to_string(),
    }
}

/// A document whose trailer refers to a catalog.
fn with_catalog() -> Document {
    let mut doc = Document::new();
    let mut catalog = Dictionary::new();
    catalog.set("Type", "Catalog");
    let root = doc.add_object(catalog);
    doc.trailer.set("Root", root);
    doc
}

fn structure(outcome: Result<(), Error>) -> &'static str {
    match outcome {
        Err(Error::Structure(message)) => message,
        _ => panic!("a structural error was due"),
    }
}

#[test]
fn escape_guards_quotes_backslashes_and_line_breaks() {
    assert_eq!(js_escape(""), "");
    assert_eq!(js_escape("plain text"), "plain text");
    assert_eq!(js_escape("a\"b"), "a\\\"b");
    assert_eq!(js_escape("a\\b"), "a\\\\b");
    assert_eq!(js_escape("one\r\ntwo\n"), "onetwo");
    assert_eq!(js_escape("\\\"\n"), "\\\\\\\"");
    assert_eq!(js_escape("naïve — ✓"), "naïve — ✓");
}

#[test]
fn substitution_fills_both_placeholders_in_one_go() {
    assert_eq!(substitute("", "x", "1", "y", "2"), "");
    assert_eq!(substitute("abc", "x", "1", "y", "2"), "abc");
    assert_eq!(substitute("y-x-y", "x", "1", "y", "2"), "2-1-2");
    assert_eq!(substitute("aaaaa", "aa", "b", "a", "c"), "bbc");
    assert_eq!(substitute("é{a}é{b}", "{a}", "", "{b}", "ß"), "ééß");
    // What was put in is not searched again.
    assert_eq!(substitute("xy", "x", "yx", "y", "xy"), "yxxy");
}

#[test]
fn substitution_agrees_with_successive_replacement() {
    for template in [
        "https://h/{doc_id}/{doc_version}",
        "{doc_version}{doc_id}{doc_id}",
        "no placeholders",
        "doc_id} {doc_version}",
    ] {
        assert_eq!(
            substitute(template, "{doc_id}", "id}", "{doc_version}", "{doc_id}"),
            template
                .replace("{doc_id}", "id}")
                .replace("{doc_version}", "{doc_id}")
        );
    }
}

#[test]
fn script_takes_url_and_message() {
    let check = FreshnessCheck::new("https://h/?id={doc_id}&v={doc_version}", "doc-uuid", "v42");
    let script = freshness_script(&check);
    let expected = r#"try {
  var url = "https://h/?id=doc-uuid&v=v42";
  var msg = "This document is out of date. Please download the latest version from your portal.";
  if (typeof Net !== 'undefined' && Net.HTTP && Net.HTTP.request) {
    Net.HTTP.request({
      cVerb: "GET",
      cURL: url,
      oRequest: {},
      oHandler: {
        response: function(msgObj, uri, oRequest) {
          try {
            var body = msgObj.response;
            if (body && /"outdated"\s*:\s*true/.test(body)) {
              app.alert({ cMsg: msg, cTitle: "Outdated document", nIcon: 1 });
            }
          } catch (e) {}
        }
      }
    });
  }
} catch (e) {}"#;
    assert_eq!(script, expected);
}

#[test]
fn identifier_is_escaped_once() {
    let check = FreshnessCheck::new("https://h/{doc_id}", "a\"b", "v");
    let script = freshness_script(&check);
    assert_eq!(
        script.lines().nth(1).unwrap(),
        "  var url = \"https://h/a\\\"b\";"
    );
}

#[test]
fn script_is_not_left_by_its_values() {
    let mut check = FreshnessCheck::new("u\"{doc_id}", "\"; app.alert(1); //\r\n", "v");
    check.outdated_message = "old\n\"doc\"\\".to_string();
    let script = freshness_script(&check);
    assert!(script.starts_with(
        "try {\n  var url = \"u\\\"\\\"; app.alert(1); //\";\n  var msg = \"old\\\"doc\\\"\\\\\";\n"
    ));
    assert!(script.ends_with("} catch (e) {}"));
}

#[test]
fn url_does_not_take_the_message() {
    let mut check = FreshnessCheck::new("a__MSG__b__URL__", "d", "v");
    check.outdated_message = "M__URL__".to_string();
    assert!(freshness_script(&check)
        .starts_with("try {\n  var url = \"a__MSG__b__URL__\";\n  var msg = \"M__URL__\";\n"));
}

#[test]
fn placeholders_in_the_values_are_kept() {
    let check = FreshnessCheck::new("{doc_id}/{doc_version}", "x{doc_version}", "{doc_id}7");
    assert!(freshness_script(&check)
        .starts_with("try {\n  var url = \"x{doc_version}/{doc_id}7\";\n"));
}

#[test]
fn template_without_placeholders_is_kept() {
    let check = FreshnessCheck::new("https://h/doc_id", "d", "v");
    assert!(freshness_script(&check).starts_with("try {\n  var url = \"https://h/doc_id\";\n"));
}

#[test]
fn check_becomes_the_open_action() {
    let mut doc = with_catalog();
    let check = FreshnessCheck::new("u", "d", "v");
    apply_freshness_check(&mut doc, &check).unwrap();
    let catalog = doc.objects.get(&(1, 0)).unwrap().as_dict().unwrap();
    assert_eq!(catalog.get(b"Type").unwrap(), &Object::from("Catalog"));
    assert_eq!(catalog.get(b"OpenAction").unwrap(), &Object::Reference((2, 0)));
    let action = doc.objects.get(&(2, 0)).unwrap().as_dict().unwrap();
    let entries: Vec<(&[u8], &Object)> = action.iter().map(|(k, v)| (k.as_slice(), v)).collect();
    let script = Object::string_literal(freshness_script(&check));
    assert_eq!(
        entries,
        vec![
            (b"Type".as_slice(), &Object::from("Action")),
            (b"S".as_slice(), &Object::from("JavaScript")),
            (b"JS".as_slice(), &script),
        ]
    );
    assert_eq!(doc.max_id, 2);
}

#[test]
fn check_needs_a_catalog() {
    let check = FreshnessCheck::new("u", "d", "v");
    let mut doc = Document::new();
    assert_eq!(
        structure(apply_freshness_check(&mut doc, &check)),
        "trailer /Root missing"
    );
    let mut doc = Document::new();
    doc.trailer.set("Root", Dictionary::new());
    assert_eq!(
        structure(apply_freshness_check(&mut doc, &check)),
        "trailer /Root missing"
    );
    let mut doc = Document::new();
    doc.trailer.set("Root", Object::Reference((9, 0)));
    assert_eq!(
        structure(apply_freshness_check(&mut doc, &check)),
        "/Root is not a dictionary"
    );
    let mut doc = Document::new();
    let id = doc.add_object(Object::Boolean(true));
    doc.trailer.set("Root", id);
    assert_eq!(
        structure(apply_freshness_check(&mut doc, &check)),
        "/Root is not a dictionary"
    );
    // The action was added before the catalog was looked for.
    assert_eq!(doc.max_id, 2);
}

#[test]
fn metadata_makes_its_own_info_dictionary() {
    let mut doc = with_catalog();
    apply_invisible_metadata(&mut doc, &bob(), &everything(), true, &dates()).unwrap();
    assert_eq!(doc.trailer.get(b"Info").unwrap(), &Object::Reference((2, 0)));
    let info = doc.objects.get(&(2, 0)).unwrap().as_dict().unwrap();
    let entries: Vec<(&[u8], &[u8])> = info
        .iter()
        .map(|(k, v)| (k.as_slice(), v.as_str().unwrap()))
        .collect();
    assert_eq!(
        entries,
        vec![
            (b"Stamp.RecipientID".as_slice(), b"bob-123".as_slice()),
            (b"Stamp.RecipientEmail".as_slice(), b"bob@example.com".as_slice()),
            (b"Stamp.StampedAt".as_slice(), b"stamped".as_slice()),
            (b"CreationDate".as_slice(), b"created".as_slice()),
        ]
    );
}

#[test]
fn metadata_keeps_what_it_does_not_write() {
    let mut doc = with_catalog();
    let mut info = Dictionary::new();
    info.set("Title", Object::string_literal("T"));
    info.set("Stamp.RecipientID", Object::string_literal("earlier"));
    info.set("Stamp.RecipientEmail", Object::string_literal("e@earlier"));
    info.set("CreationDate", Object::string_literal("then"));
    let id = doc.add_object(info);
    doc.trailer.set("Info", id);
    let mut nobody = bob();
    nobody.email = None;
    let mut flags = everything();
    flags.stamped_at = false;
    apply_invisible_metadata(&mut doc, &nobody, &flags, false, &dates()).unwrap();
    assert_eq!(doc.max_id, 2);
    let info = doc.objects.get(&id).unwrap().as_dict().unwrap();
    let entries: Vec<(&[u8], &[u8])> = info
        .iter()
        .map(|(k, v)| (k.as_slice(), v.as_str().unwrap()))
        .collect();
    assert_eq!(
        entries,
        vec![
            (b"Title".as_slice(), b"T".as_slice()),
            (b"Stamp.RecipientID".as_slice(), b"bob-123".as_slice()),
            (b"Stamp.RecipientEmail".as_slice(), b"e@earlier".as_slice()),
            (b"CreationDate".as_slice(), b"then".as_slice()),
        ]
    );
}

#[test]
fn stamp_again_changes_nothing() {
    let mut once = with_catalog();
    apply_invisible_metadata(&mut once, &bob(), &everything(), true, &dates()).unwrap();
    let mut twice = once.clone();
    apply_invisible_metadata(&mut twice, &bob(), &everything(), true, &dates()).unwrap();
    assert_eq!(once.objects, twice.objects);
    assert_eq!(once.trailer, twice.trailer);
    assert_eq!(once.max_id, twice.max_id);
}

#[test]
fn empty_stamp_changes_nothing() {
    let mut doc = with_catalog();
    doc.trailer.set("Info", Object::Reference((1, 0)));
    let before = doc.clone();
    apply_invisible_metadata(&mut doc, &bob(), &InvisibleMetadata::default(), false, &dates())
        .unwrap();
    assert_eq!(before.objects, doc.objects);
    assert_eq!(before.trailer, doc.trailer);
}

#[test]
fn metadata_needs_a_dictionary() {
    let mut doc = with_catalog();
    doc.trailer.set("Info", Object::Reference((77, 0)));
    assert_eq!(
        structure(apply_invisible_metadata(
            &mut doc,
            &bob(),
            &everything(),
            false,
            &dates()
        )),
        "/Info reference does not point at a dictionary"
    );
    assert_eq!(doc.max_id, 1);
}

#[test]
fn direct_info_dictionary_becomes_an_object() {
    let mut doc = with_catalog();
    let mut direct = Dictionary::new();
    direct.set("Title", Object::string_literal("T"));
    direct.set("CreationDate", Object::string_literal("D:20200101"));
    doc.trailer.set("Info", direct);
    let mut flags = everything();
    flags.recipient_email = false;
    apply_invisible_metadata(&mut doc, &bob(), &flags, false, &dates()).unwrap();
    assert_eq!(doc.trailer.get(b"Info").unwrap(), &Object::Reference((2, 0)));
    let info = doc.objects.get(&(2, 0)).unwrap().as_dict().unwrap();
    let entries: Vec<(&[u8], &[u8])> = info
        .iter()
        .map(|(k, v)| (k.as_slice(), v.as_str().unwrap()))
        .collect();
    assert_eq!(
        entries,
        vec![
            (b"Title".as_slice(), b"T".as_slice()),
            (b"CreationDate".as_slice(), b"D:20200101".as_slice()),
            (b"Stamp.RecipientID".as_slice(), b"bob-123".as_slice()),
            (b"Stamp.StampedAt".as_slice(), b"stamped".as_slice()),
        ]
    );
}

#[test]
fn info_of_another_kind_gives_way_to_a_new_object() {
    let mut doc = with_catalog();
    doc.trailer.set("Info", Object::Integer(7));
    apply_invisible_metadata(&mut doc, &bob(), &InvisibleMetadata::default(), false, &dates())
        .unwrap();
    assert_eq!(doc.trailer.get(b"Info").unwrap(), &Object::Reference((2, 0)));
    let info = doc.objects.get(&(2, 0)).unwrap().as_dict().unwrap();
    assert!(info.is_empty());
}

#[test]
fn date_is_an_iso_timestamp() {
    let date = current_pdf_date();
    let bytes = date.as_bytes();
    assert_eq!(bytes.len(), 30);
    for (i, byte) in bytes.iter().enumerate() {
        match i {
            4 | 7 => assert_eq!(*byte, b'-'),
            10 => assert_eq!(*byte, b'T'),
            13 | 16 => assert_eq!(*byte, b':'),
            19 => assert_eq!(*byte, b'.'),
            29 => assert_eq!(*byte, b'Z'),
            _ => assert!(byte.is_ascii_digit()),
        }
    }
    assert!(date.as_str() > "2020");
    let number = |from: usize, to: usize| date[from..to].parse::<u32>().unwrap();
    let (year, month, day) = (number(0, 4), number(5, 7), number(8, 10));
    let leap = year % 4 == 0 && (year % 100 != 0 || year % 400 == 0);
    let days = match month {
        2 if leap => 29,
        2 => 28,
        4 | 6 | 9 | 11 => 30,
        _ => 31,
    };
    assert!((1..=12).contains(&month));
    assert!((1..=days).contains(&day));
    assert!(number(11, 13) <= 23);
    assert!(number(14, 16) <= 59);
    assert!(number(17, 19) <= 59);
}

#[test]
fn epoch_stands_in_for_a_missing_date() {
    assert_eq!(date_or_epoch(None), "1970-01-01T00:00:00Z");
    assert_eq!(date_or_epoch(Some("now".to_string())), "now");
}

#[test]
fn defaults_are_the_documented_ones() {
    let watermark = VisibleWatermark::default();
    assert_eq!(watermark.template, "Confidential — {name}");
    assert_eq!(f32::from_bits(watermark.font_size.bits), 36.0);
    assert_eq!(f32::from_bits(watermark.opacity.bits), 0.18);
    assert_eq!(f32::from_bits(watermark.rotation_deg.bits), -30.0);
    assert_eq!(watermark.color, (180, 180, 180));
    let options = Options::default();
    assert_eq!(options.visible.unwrap().template, "Confidential — {name}");
    assert!(!options.invisible.recipient_id);
    assert!(!options.invisible.recipient_email);
    assert!(!options.invisible.stamped_at);
    assert!(options.freshness.is_none());
    assert!(!options.stamp_creation_date);
}

#[test]
fn check_has_the_standard_message() {
    let check = FreshnessCheck::new("url", "id".to_string(), "version");
    assert_eq!(check.url_template, "url");
    assert_eq!(check.doc_id, "id");
    assert_eq!(check.doc_version, "version");
    assert_eq!(
        check.outdated_message,
        "This document is out of date. Please download the latest version from your portal."
    );
}

#[test]
fn clones_are_equal() {
    let mut options = Options::default();
    options.freshness = Some(FreshnessCheck::new("u", "d", "v"));
    assert_eq!(format!("{:?}", options.clone()), format!("{:?}", options));
    assert_eq!(format!("{:?}", bob().clone()), format!("{:?}", bob()));
}

#[test]
fn request_needs_all_three_parts_of_a_check() {
    let some = |text: &str| Some(text.to_string());
    let check = requested_check(some("u"), some("d"), some("v")).unwrap();
    assert_eq!(check.url_template, "u");
    assert_eq!(check.doc_id, "d");
    assert_eq!(check.doc_version, "v");
    assert!(requested_check(None, some("d"), some("v")).is_none());
    assert!(requested_check(some("u"), None, some("v")).is_none());
    assert!(requested_check(some("u"), some("d"), None).is_none());
    assert!(requested_check(None, None, None).is_none());
}

#[test]
fn request_sets_the_options() {
    let options = requested_options(false, true, None);
    assert!(options.visible.is_some());
    assert!(options.invisible.recipient_id);
    assert!(options.invisible.recipient_email);
    assert!(options.invisible.stamped_at);
    assert!(options.freshness.is_none());
    assert!(!options.stamp_creation_date);
    let options = requested_options(true, false, Some(FreshnessCheck::new("u", "d", "v")));
    assert!(options.visible.is_none());
    assert!(!options.invisible.recipient_email);
    assert_eq!(options.freshness.unwrap().url_template, "u");
}
