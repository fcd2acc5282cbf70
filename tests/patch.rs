use patch_lint::patch::find_header_block;
use patch_lint::patch::Header;
use patch_lint::patch::ParseError;
use patch_lint::patch::Patch;

const HEAD: &str = "From 1a2b3c4d Mon Sep 17 00:00:00 2001\nFrom: Jane Doe <jane@kernel.org>\nDate: Mon, 1 Jan 2024 10:00:00 +0000\nSubject: [PATCH] Add a file\n\n";

#[test]
fn parses_all_fields() {
    let text = format!(
        "{}Adds a greeting.\n\nSigned-off-by: Jane Doe <jane@kernel.org>\n---\n a.txt | 1 +\n",
        HEAD
    );
    let patch = Patch::from_bytes(text.as_bytes()).unwrap();
    let h = &patch.header;
    assert_eq!(h.from, "From 1a2b3c4d Mon Sep 17 00:00:00 2001");
    assert_eq!(h.author, "From: Jane Doe <jane@kernel.org>");
    assert_eq!(h.date, "Date: Mon, 1 Jan 2024 10:00:00 +0000");
    assert_eq!(h.subject, "Subject: [PATCH] Add a file");
    assert_eq!(h.summary, "Adds a greeting.\n\n");
    assert_eq!(h.signatures, vec!["Signed-off-by: Jane Doe <jane@kernel.org>".to_string()]);
    assert_eq!(patch.diff, b" a.txt | 1 +\n".to_vec());
}

#[test]
fn summary_absent_is_empty() {
    let text = format!("{}Signed-off-by: J <j@x.org>\n---\n", HEAD);
    let patch = Patch::from_bytes(text.as_bytes()).unwrap();
    assert_eq!(patch.header.summary, "");
    assert_eq!(patch.header.signatures, vec!["Signed-off-by: J <j@x.org>".to_string()]);
}

#[test]
fn summary_is_the_last_paragraph() {
    let text = format!(
        "{}First.\n\nSecond.\n\nSigned-off-by: J <j@x.org>\n---\n",
        HEAD
    );
    let patch = Patch::from_bytes(text.as_bytes()).unwrap();
    assert_eq!(patch.header.summary, "Second.\n\n");
}

#[test]
fn multi_line_paragraph_does_not_parse() {
    let text = format!(
        "{}First line\nsecond line\n\nSigned-off-by: J <j@x.org>\n---\n",
        HEAD
    );
    assert!(matches!(
        Patch::from_bytes(text.as_bytes()),
        Err(ParseError::MalformedHeader)
    ));
}

#[test]
fn missing_signature_parses_with_no_signature() {
    let text = "From abc Mon Sep 17 00:00:00 2001\nFrom: A <a@x.org>\nDate: Mon, 1 Jan 2024\nSubject: [PATCH] fix\n\nFix it.\n\n---\n";
    let h = Header::from_bytes(text.as_bytes()).unwrap();
    assert_eq!(h.from, "From abc Mon Sep 17 00:00:00 2001");
    assert_eq!(h.author, "From: A <a@x.org>");
    assert_eq!(h.date, "Date: Mon, 1 Jan 2024");
    assert_eq!(h.subject, "Subject: [PATCH] fix");
    assert_eq!(h.summary, "Fix it.\n\n");
    assert!(h.signatures.is_empty());
    let patch = Patch::from_bytes(format!("{}Body.\n\n---\n a.txt | 1 +\n", HEAD).as_bytes()).unwrap();
    assert!(patch.header.signatures.is_empty());
    assert_eq!(patch.header.summary, "Body.\n\n");
}

#[test]
fn removing_the_signature_keeps_the_other_fields() {
    let with = format!("{}One.\n\nTwo.\n\nSigned-off-by: S <s@x.org>\n---\n", HEAD);
    let without = format!("{}One.\n\nTwo.\n\n---\n", HEAD);
    let h1 = Header::from_bytes(with.as_bytes()).unwrap();
    let h2 = Header::from_bytes(without.as_bytes()).unwrap();
    assert_eq!(h1.signatures, vec!["Signed-off-by: S <s@x.org>".to_string()]);
    assert!(h2.signatures.is_empty());
    assert_eq!(h1.from, h2.from);
    assert_eq!(h1.author, h2.author);
    assert_eq!(h1.date, h2.date);
    assert_eq!(h1.subject, h2.subject);
    assert_eq!(h1.summary, "Two.\n\n");
    assert_eq!(h1.summary, h2.summary);
}

#[test]
fn no_signature_and_no_closing_line_does_not_parse() {
    let text = format!("{}Body.\n\nmore text\n", HEAD);
    assert!(matches!(
        Header::from_bytes(text.as_bytes()),
        Err(ParseError::MalformedHeader)
    ));
}

#[test]
fn no_header_block() {
    assert!(matches!(Patch::from_bytes(b""), Err(ParseError::NoHeaderBlock)));
    assert!(matches!(
        Patch::from_bytes(b"no header here\n---\n"),
        Err(ParseError::NoHeaderBlock)
    ));
    let text = format!("{}Signed-off-by: J <j@x.org>\n", HEAD);
    assert!(matches!(
        Patch::from_bytes(text.as_bytes()),
        Err(ParseError::NoHeaderBlock)
    ));
}

#[test]
fn header_block_runs_to_the_last_delimiter() {
    let text = b"junk\nFrom x\n---\nmore\n---\ntail";
    assert_eq!(find_header_block(text), Some((5, 25)));
    assert_eq!(find_header_block(b"---\nFrom x"), None);
}

#[test]
fn header_after_leading_text() {
    let text = format!(
        "preamble\n{}Signed-off-by: J <j@x.org>\n---\nrest\n",
        HEAD
    );
    let patch = Patch::from_bytes(text.as_bytes()).unwrap();
    assert_eq!(patch.header.from, "From 1a2b3c4d Mon Sep 17 00:00:00 2001");
    assert_eq!(patch.diff, b"rest\n".to_vec());
}

#[test]
fn non_utf8_payload_and_fields() {
    let mut text = Vec::new();
    text.extend_from_slice(b"From 1a2b3c4d Mon Sep 17 00:00:00 2001\nFrom: J\xff <j@x.org>\n");
    text.extend_from_slice("Date: now\nSubject: Caf\u{e9}\n\nSigned-off-by: J <j@x.org>\n---\n".as_bytes());
    text.extend_from_slice(b"\xfe\xff binary\n");
    let patch = Patch::from_bytes(&text).unwrap();
    assert_eq!(patch.header.author, "");
    assert_eq!(patch.header.subject, "Subject: Caf\u{e9}");
    assert_eq!(patch.diff, b"\xfe\xff binary\n".to_vec());
}

#[test]
fn empty_field_value_does_not_parse() {
    let text = "From 1a2b\nFrom: \nDate: now\nSubject: s\n\nSigned-off-by: J\n---\n";
    assert!(matches!(
        Patch::from_bytes(text.as_bytes()),
        Err(ParseError::MalformedHeader)
    ));
}
