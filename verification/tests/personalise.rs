use lopdf::xref::XrefType;
use lopdf::{Dictionary, Document, Object};
use pdf_stamp::clock::current_pdf_date;
use pdf_stamp::metadata::StampDates;
use pdf_stamp::stamp::{
    document_has_room, personalise_document, personalise_loaded, written_copy,
};
use pdf_stamp::{personalise, Error, FreshnessCheck, InvisibleMetadata, Options, Recipient};

fn dict(entries: Vec<(&str, Object)>) -> Dictionary {
    let mut dictionary = Dictionary::new();
    for (key, value) in entries {
        dictionary.set(key, value);
    }
    dictionary
}

/// A document with a single empty page.
fn minimal_document() -> Document {
    let mut doc = Document::with_version("1.7");
    let pages_id = doc.new_object_id();
    let page_id = doc.add_object(dict(vec![
        ("Type", "Page".into()),
        ("Parent", pages_id.into()),
        (
            "MediaBox",
            vec![0.into(), 0.into(), 612.into(), 792.into()].into(),
        ),
    ]));
    let pages = dict(vec![
        ("Type", "Pages".into()),
        ("Kids", vec![page_id.into()].into()),
        ("Count", 1.into()),
    ]);
    doc.objects.insert(pages_id, Object::Dictionary(pages));
    let catalog_id = doc.add_object(dict(vec![
        ("Type", "Catalog".into()),
        ("Pages", pages_id.into()),
    ]));
    doc.trailer.set("Root", catalog_id);
    doc
}

fn bytes_of(mut doc: Document) -> Vec<u8> {
    let mut bytes = Vec::new();
    doc.save_to(&mut bytes).unwrap();
    bytes
}

fn minimal_pdf() -> Vec<u8> {
    bytes_of(minimal_document())
}

fn holds(bytes: &[u8], piece: &[u8]) -> bool {
    bytes.windows(piece.len()).any(|w| w == piece)
}

fn recipient(identifier: &str, email: Option<&str>) -> Recipient {
    Recipient {
        name: "Alice".into(),
        identifier: identifier.into(),
        email: email.map(|e| e.to_string()),
    }
}

fn no_stamp() -> Options {
    Options {
        visible: None,
        invisible: InvisibleMetadata::default(),
        freshness: None,
        stamp_creation_date: false,
    }
}

fn dates() -> StampDates {
    StampDates {
        stamped_at: "2024-02-03T04:05:06.000000007Z".to_string(),
        created_at: "2024-02-03T04:05:06.000000008Z".to_string(),
    }
}

fn info(doc: &Document) -> &Dictionary {
    let id = doc.trailer.get(b"Info").unwrap().as_reference().unwrap();
    doc.objects.get(&id).unwrap().as_dict().unwrap()
}

fn text<'a>(dictionary: &'a Dictionary, key: &str) -> &'a [u8] {
    dictionary.get(key.as_bytes()).unwrap().as_str().unwrap()
}

#[test]
fn freshness_check_lands_in_open_action() {
    let input = minimal_pdf();
    let recipient = Recipient {
        name: "Bob".into(),
        identifier: "bob-123".into(),
        email: None,
    };
    let options = Options {
        visible: None,
        invisible: InvisibleMetadata::default(),
        freshness: Some(FreshnessCheck::new(
            "https://adeptus.example.com/api/freshness?id={doc_id}&v={doc_version}",
            "doc-uuid",
            "v42",
        )),
        stamp_creation_date: false,
    };
    let out = personalise(&input, &recipient, &options).unwrap();

    // The script stands in the file as it is: look for the URL's bytes.
    assert!(out
        .windows(b"adeptus.example.com".len())
        .any(|w| w == b"adeptus.example.com"));
    assert!(out
        .windows(b"id=doc-uuid".len())
        .any(|w| w == b"id=doc-uuid"));
    assert!(out.windows(b"OpenAction".len()).any(|w| w == b"OpenAction"));
    assert!(out
        .windows(b"/JavaScript".len())
        .any(|w| w == b"/JavaScript"));
}

#[test]
fn personalise_round_trips_metadata() {
    let input = minimal_pdf();
    let recipient = Recipient {
        name: "Alice".into(),
        identifier: "uuid-abc-123".into(),
        email: Some("alice@example.com".into()),
    };
    let options = Options {
        visible: None,
        invisible: InvisibleMetadata {
            recipient_id: true,
            recipient_email: true,
            stamped_at: true,
        },
        freshness: None,
        stamp_creation_date: false,
    };
    let out = personalise(&input, &recipient, &options).unwrap();
    // Load the copy and check that the keys are there.
    let doc = Document::load_mem(&out).unwrap();
    let info_id = match doc.trailer.get(b"Info").unwrap() {
        Object::Reference(id) => *id,
        _ => panic!("Info should be an indirect reference"),
    };
    let info = doc.objects.get(&info_id).unwrap().as_dict().unwrap();
    assert!(info
        .get(b"Stamp.RecipientID")
        .unwrap()
        .as_str()
        .unwrap()
        .ends_with(b"uuid-abc-123"));
    assert!(info
        .get(b"Stamp.RecipientEmail")
        .unwrap()
        .as_str()
        .unwrap()
        .ends_with(b"alice@example.com"));
    assert!(info.get(b"Stamp.StampedAt").is_ok());
}

#[test]
fn copy_carries_identifier_email_and_date_in_plain_sight() {
    let mut options = no_stamp();
    options.invisible = InvisibleMetadata {
        recipient_id: true,
        recipient_email: true,
        stamped_at: true,
    };
    options.stamp_creation_date = true;
    let alice = recipient("uuid-abc-123", Some("alice@example.com"));
    let out = personalise_document(minimal_document(), &alice, &options, &dates()).unwrap();
    assert!(holds(&out, b"/Stamp.RecipientID(uuid-abc-123)"));
    assert!(holds(&out, b"/Stamp.RecipientEmail(alice@example.com)"));
    assert!(holds(&out, b"/Stamp.StampedAt(2024-02-03T04:05:06.000000007Z)"));
    assert!(holds(&out, b"/CreationDate(2024-02-03T04:05:06.000000008Z)"));
}

#[test]
fn personalised_copy_can_be_searched_for_its_date() {
    let mut options = no_stamp();
    options.invisible.stamped_at = true;
    options.stamp_creation_date = true;
    let out = personalise(&minimal_pdf(), &recipient("id", None), &options).unwrap();
    let back = Document::load_mem(&out).unwrap();
    for key in ["Stamp.StampedAt", "CreationDate"] {
        let date = text(info(&back), key);
        assert_eq!(date.len(), 30);
        let entry = [b"/", key.as_bytes(), b"(", date, b")"].concat();
        assert!(holds(&out, &entry));
    }
}

#[test]
fn each_date_that_is_asked_for_comes_from_the_clock() {
    let input = minimal_pdf();
    let mut only_stamped = no_stamp();
    only_stamped.invisible.stamped_at = true;
    let mut only_created = no_stamp();
    only_created.stamp_creation_date = true;
    for (options, asked, other) in [
        (only_stamped, "Stamp.StampedAt", "CreationDate"),
        (only_created, "CreationDate", "Stamp.StampedAt"),
    ] {
        let before = current_pdf_date();
        let out = personalise(&input, &recipient("id", None), &options).unwrap();
        let after = current_pdf_date();
        let back = Document::load_mem(&out).unwrap();
        let date = text(info(&back), asked);
        assert!(before.as_bytes() <= date && date <= after.as_bytes());
        assert!(info(&back).get(other.as_bytes()).is_err());
    }
}

#[test]
fn personalise_again_gives_the_same_file() {
    let input = minimal_pdf();
    let mut options = no_stamp();
    options.invisible.recipient_id = true;
    options.invisible.recipient_email = true;
    options.freshness = Some(FreshnessCheck::new("u/{doc_id}", "d", "v"));
    let alice = recipient("id", Some("alice@example.com"));
    let mut renamed = alice.clone();
    renamed.name = "Mallory".to_string();
    let mut remarked = options.clone();
    remarked.visible = Options::default().visible;
    let one = personalise(&input, &alice, &options).unwrap();
    let other = personalise(&input, &renamed, &remarked).unwrap();
    assert_eq!(one, other);
}

#[test]
fn identifier_with_escapes_shows_its_plain_stretches() {
    let mut options = no_stamp();
    options.invisible.recipient_id = true;
    let out = personalise_document(
        minimal_document(),
        &recipient("ab)cd\\ef", None),
        &options,
        &dates(),
    )
    .unwrap();
    assert!(holds(&out, b"/Stamp.RecipientID(ab\\)cd\\\\ef)"));
    assert!(!holds(&out, b"ab)cd"));
    let back = Document::load_mem(&out).unwrap();
    assert_eq!(text(info(&back), "Stamp.RecipientID"), b"ab)cd\\ef");
}

#[test]
fn copies_for_two_recipients_differ() {
    let mut options = no_stamp();
    options.invisible.recipient_id = true;
    let input = minimal_pdf();
    let one = personalise(&input, &recipient("one", None), &options).unwrap();
    let other = personalise(&input, &recipient("other", None), &options).unwrap();
    assert_ne!(one, other);
    assert_eq!(
        text(info(&Document::load_mem(&one).unwrap()), "Stamp.RecipientID"),
        b"one"
    );
    assert_eq!(
        text(info(&Document::load_mem(&other).unwrap()), "Stamp.RecipientID"),
        b"other"
    );
}

#[test]
fn copies_differ_whatever_the_identifier_holds() {
    let mut options = no_stamp();
    options.invisible.recipient_id = true;
    let identifiers = ["", "a", "a)", "a\\)", "a(", "(a)", "((a)", "a\r", "a\\r", "a\n"];
    let copies: Vec<Vec<u8>> = identifiers
        .iter()
        .map(|id| {
            personalise_document(minimal_document(), &recipient(id, None), &options, &dates())
                .unwrap()
        })
        .collect();
    for (i, one) in copies.iter().enumerate() {
        let back = Document::load_mem(one).unwrap();
        assert_eq!(
            text(info(&back), "Stamp.RecipientID"),
            identifiers[i].as_bytes()
        );
        for other in &copies[i + 1..] {
            assert_ne!(one, other);
        }
    }
}

#[test]
fn copies_differ_where_only_one_has_an_email() {
    let mut options = no_stamp();
    options.invisible.recipient_id = true;
    options.invisible.recipient_email = true;
    let mut doc = minimal_document();
    let id = doc.add_object(dict(vec![
        ("Stamp.RecipientEmail", 7.into()),
        ("Stamp.RecipientID", Object::string_literal("before")),
    ]));
    doc.trailer.set("Info", id);
    let one = personalise_document(
        doc.clone(),
        &recipient("one", Some("7")),
        &options,
        &dates(),
    )
    .unwrap();
    let other =
        personalise_document(doc, &recipient("other", None), &options, &dates()).unwrap();
    assert!(holds(&one, b"/Stamp.RecipientEmail(7)/Stamp.RecipientID(one)"));
    assert!(holds(&other, b"/Stamp.RecipientEmail 7/Stamp.RecipientID(other)"));
    assert_ne!(one, other);
}

#[test]
fn info_that_is_left_out_does_not_name_the_recipient() {
    let mut options = no_stamp();
    options.invisible.recipient_id = true;
    let mut doc = minimal_document();
    let id = doc.add_object(dict(vec![("Type", "XRef".into())]));
    doc.trailer.set("Info", id);
    let out = personalise_document(doc, &recipient("one", None), &options, &dates()).unwrap();
    assert!(!holds(&out, b"Stamp.RecipientID"));
}

#[test]
fn watermark_and_name_do_not_show() {
    let input = minimal_pdf();
    let mut named = recipient("id", None);
    named.name = "Mallory".to_string();
    let plain = personalise(&input, &recipient("id", None), &no_stamp()).unwrap();
    let marked = personalise(&input, &named, &Options::default()).unwrap();
    assert_eq!(plain, marked);
    assert!(!holds(&marked, b"Mallory"));
}

#[test]
fn dates_show_only_on_request() {
    let alice = recipient("id", None);
    let later = StampDates {
        stamped_at: "2030-01-01T00:00:00.000000000Z".to_string(),
        created_at: "2030-01-01T00:00:00.000000000Z".to_string(),
    };
    let one = personalise_document(minimal_document(), &alice, &no_stamp(), &dates()).unwrap();
    let other = personalise_document(minimal_document(), &alice, &no_stamp(), &later).unwrap();
    assert_eq!(one, other);
}

#[test]
fn pass_leaves_the_pages_alone() {
    let input = minimal_pdf();
    let mut options = no_stamp();
    options.invisible.recipient_id = true;
    options.freshness = Some(FreshnessCheck::new("u", "d", "v"));
    let out = personalise(&input, &recipient("id", None), &options).unwrap();
    let before = Document::load_mem(&input).unwrap();
    let after = Document::load_mem(&out).unwrap();
    let root = before
        .trailer
        .get(b"Root")
        .unwrap()
        .as_reference()
        .unwrap();
    for (id, object) in &before.objects {
        if *id != root && object.as_stream().is_err() {
            assert_eq!(after.objects.get(id), Some(object));
        }
    }
    let catalog = after.objects.get(&root).unwrap().as_dict().unwrap();
    assert_eq!(catalog.get(b"Type").unwrap(), &Object::from("Catalog"));
    assert!(catalog.get(b"Pages").is_ok());
    assert!(catalog.get(b"OpenAction").is_ok());
}

#[test]
fn creation_date_is_kept_by_default() {
    let mut doc = minimal_document();
    let id = doc.add_object(dict(vec![(
        "CreationDate",
        Object::string_literal("D:20200101"),
    )]));
    doc.trailer.set("Info", id);
    let input = bytes_of(doc);
    let mut options = no_stamp();
    options.invisible.stamped_at = true;
    let kept = personalise(&input, &recipient("id", None), &options).unwrap();
    let kept = Document::load_mem(&kept).unwrap();
    assert_eq!(text(info(&kept), "CreationDate"), b"D:20200101");
    options.stamp_creation_date = true;
    let stamped = personalise(&input, &recipient("id", None), &options).unwrap();
    let stamped = Document::load_mem(&stamped).unwrap();
    assert_ne!(text(info(&stamped), "CreationDate"), b"D:20200101");
}

#[test]
fn direct_info_dictionary_is_kept() {
    let mut doc = minimal_document();
    doc.trailer.set(
        "Info",
        dict(vec![(
            "CreationDate",
            Object::string_literal("D:20200101"),
        )]),
    );
    let mut options = no_stamp();
    options.invisible.recipient_id = true;
    let out = personalise(&bytes_of(doc), &recipient("id", None), &options).unwrap();
    let back = Document::load_mem(&out).unwrap();
    assert_eq!(text(info(&back), "CreationDate"), b"D:20200101");
    assert_eq!(text(info(&back), "Stamp.RecipientID"), b"id");
}

#[test]
fn bytes_that_are_no_pdf_are_refused() {
    let outcome = personalise(b"not a document", &recipient("id", None), &no_stamp());
    assert!(matches!(outcome, Err(Error::InvalidInput(_))));
    let outcome = personalise(b"", &recipient("id", None), &Options::default());
    assert!(matches!(outcome, Err(Error::InvalidInput(_))));
}

#[test]
fn input_error_is_that_of_the_reader() {
    for input in [b"".as_slice(), b"%PDF-1.7\nnothing more".as_slice()] {
        let due = Document::load_mem(input).unwrap_err();
        match personalise(input, &recipient("id", None), &no_stamp()) {
            Err(Error::InvalidInput(error)) => {
                assert_eq!(format!("{:?}", error), format!("{:?}", due))
            }
            _ => panic!("an input error was due"),
        }
    }
    let outcome = personalise_loaded(
        Err(lopdf::Error::InvalidOffset(5)),
        &recipient("id", None),
        &no_stamp(),
        &dates(),
    );
    assert!(matches!(
        outcome,
        Err(Error::InvalidInput(lopdf::Error::InvalidOffset(5)))
    ));
}

#[test]
fn output_error_is_that_of_the_writer() {
    let due = std::io::Error::new(std::io::ErrorKind::InvalidData, "mark");
    match written_copy(Err(due)) {
        Err(Error::Output(error)) => assert_eq!(error.to_string(), "mark"),
        _ => panic!("an output error was due"),
    }
    assert_eq!(written_copy(Ok(vec![1, 2])).unwrap(), vec![1, 2]);
}

#[test]
fn info_that_is_no_dictionary_is_an_error() {
    let mut doc = minimal_document();
    let id = doc.add_object(Object::Integer(7));
    doc.trailer.set("Info", id);
    let outcome = personalise(&bytes_of(doc), &recipient("id", None), &no_stamp());
    match outcome {
        Err(Error::Structure(message)) => {
            assert_eq!(message, "/Info reference does not point at a dictionary")
        }
        _ => panic!("a structural error was due"),
    }
}

#[test]
fn document_without_a_binary_mark_cannot_be_written() {
    let mut doc = minimal_document();
    doc.binary_mark = vec![0x41];
    let outcome = personalise_document(doc, &recipient("id", None), &no_stamp(), &dates());
    assert!(matches!(outcome, Err(Error::Output(_))));
}

#[test]
fn cross_reference_stream_needs_an_object_number() {
    let mut doc = minimal_document();
    doc.max_id = u32::MAX - 1;
    let outcome = personalise_document(doc, &recipient("id", None), &no_stamp(), &dates());
    assert!(matches!(outcome, Err(Error::Output(_))));
    let mut doc = minimal_document();
    doc.reference_table.cross_reference_type = XrefType::CrossReferenceTable;
    doc.max_id = u32::MAX - 1;
    let outcome = personalise_document(doc, &recipient("id", None), &no_stamp(), &dates());
    assert!(outcome.is_ok());
}

#[test]
fn room_is_counted_by_what_the_pass_adds() {
    let mut checked = no_stamp();
    checked.freshness = Some(FreshnessCheck::new("u", "d", "v"));
    let mut doc = minimal_document();
    doc.max_id = u32::MAX - 2;
    assert!(document_has_room(&doc, &checked));
    doc.max_id = u32::MAX - 1;
    assert!(document_has_room(&doc, &no_stamp()));
    assert!(!document_has_room(&doc, &checked));
    doc.objects
        .insert((9, 0), Object::Dictionary(Dictionary::new()));
    doc.trailer.set("Info", Object::Reference((9, 0)));
    assert!(document_has_room(&doc, &checked));
    doc.max_id = u32::MAX;
    assert!(document_has_room(&doc, &no_stamp()));
    assert!(!document_has_room(&doc, &checked));
    // A pass that stops at the metadata adds nothing.
    doc.objects.insert((9, 0), Object::Null);
    assert!(document_has_room(&doc, &checked));
}

#[test]
fn used_up_object_numbers_are_told() {
    let mut doc = minimal_document();
    doc.reference_table.cross_reference_type = XrefType::CrossReferenceTable;
    doc.objects.insert((u32::MAX - 1, 0), Object::Null);
    doc.max_id = u32::MAX - 1;
    let input = bytes_of(doc);
    assert_eq!(Document::load_mem(&input).unwrap().max_id, u32::MAX - 1);
    let alice = recipient("id", None);
    assert!(personalise(&input, &alice, &no_stamp()).is_ok());
    let mut checked = no_stamp();
    checked.freshness = Some(FreshnessCheck::new("u", "d", "v"));
    match personalise(&input, &alice, &checked) {
        Err(Error::Structure(message)) => assert_eq!(message, "object numbers are used up"),
        _ => panic!("a structural error was due"),
    }
}

#[test]
fn pass_in_memory_agrees_with_personalise() {
    let input = minimal_pdf();
    let mut options = no_stamp();
    options.invisible.recipient_id = true;
    let alice = recipient("uuid", None);
    let one = personalise(&input, &alice, &options).unwrap();
    let loaded = Document::load_mem(&input);
    let other = personalise_loaded(loaded, &alice, &options, &dates()).unwrap();
    assert_eq!(one, other);
}
