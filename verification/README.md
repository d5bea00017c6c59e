# pdf-stamp

Per-recipient personalisation of cached PDF documents, in verified Rust.

A canonical PDF is rendered once and cached. For each person who requests a
copy, this library stamps onto the cached bytes

1. **invisible metadata**: the recipient's identifier, an optional email and
   the time, as `Stamp.*` entries of the document's `/Info` dictionary, so
   leaks are traceable; and
2. **a freshness check**, if asked for: a script that runs when the document
   is opened, sends a `GET` to a configurable URL with the document's
   identifier and version, and shows a message if the answer says that a newer
   version exists. It is wrapped in `try`/`catch`, so a server that cannot be
   reached, or a viewer without PDF JavaScript, never keeps anybody from
   reading.

A **visible watermark** is part of the options; it is not drawn yet.

## Layout

| Path               | Content                                                    |
|--------------------|------------------------------------------------------------|
| `src/model.rs`     | what a PDF document is, mathematically                     |
| `src/document.rs`  | the calls into `lopdf`, with what is trusted of each       |
| `src/clock.rs`     | the date of a stamp; the call into `time`                  |
| `src/settings.rs`  | recipients, options, errors                                |
| `src/text.rs`      | escaping and substitution                                  |
| `src/metadata.rs`  | the metadata stamp                                         |
| `src/freshness.rs` | the freshness check                                        |
| `src/stamp.rs`     | the whole pass: `personalise`                              |
| `src/request.rs`   | what a command line asks for                               |
| `src/laws/`        | what holds of every copy, proved                           |
| `app/`             | the command-line program                                   |
| `tests/`           | examples, run against the real crates                      |

## What is proved

`personalise` returns exactly the bytes that `lopdf` writes for a document that
differs from the one read in the stamp alone; otherwise it says which part of
the document is missing, that its object numbers are used up, or that the input
cannot be read or the copy cannot be written. From this follow, among others:

- the copy's `/Info` dictionary names the recipient, and what it held before,
  as an object or in the trailer itself, stays unless it is overwritten;
- no page changes, and no other object but the catalog, which gets the open
  action where a freshness check is asked for;
- copies of one document for recipients with different identifiers are
  different bytes, unless its `/Info` dictionary is marked as a part of the
  old file's layout, which `lopdf` leaves out;
- with the same exception, the date can be found in the bytes of the copy behind
  its key, and so can identifier and email, as far as they need no escapes in a
  PDF string;
- two copies of one document without dates are the same bytes if identifier,
  email and check are the same, whatever the recipient's name and the watermark;
- the script reads back the URL and the message that went into it, line breaks
  left out;
- nothing in a URL or a message can break out of its string literal in the
  script, and the script is guarded by `try`/`catch` whatever goes into it.

What reading the copy back with `lopdf` gives is tested, not proved.

## Command line

```
pdf-stamp \
    --input cached.pdf \
    --output personalised.pdf \
    --name "Alice Cooper" \
    --identifier 4a18-ba93 \
    --email alice@example.com \
    --freshness-url "https://docs.example.com/freshness?id={doc_id}&v={doc_version}" \
    --doc-id doc-uuid \
    --doc-version v42
```

`--output -` streams to stdout, `--no-visible` declines the watermark, and
without `--freshness-url` there is no check.
