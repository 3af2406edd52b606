use pdf2image_alt::{extract_pdf_info, PDF2ImageError, PdfInfo};

#[test]
fn report_with_both_facts() {
    let report = b"Title: ropes\nPages: 12\nEncrypted: no\n";
    assert_eq!(extract_pdf_info(report), Ok((12, false)));
    let info = PdfInfo::read(report).unwrap();
    assert_eq!(info.page_count(), 12);
    assert!(!info.is_encrypted());
}

#[test]
fn report_as_the_tool_aligns_it() {
    let report = b"Producer:       pdfTeX-1.40.21\nEncrypted:      yes (print:yes copy:no)\nPages:          3\n";
    assert_eq!(
        extract_pdf_info(report),
        Err(PDF2ImageError::UnableToExtractEncryptionStatus)
    );
    let report = b"Encrypted:      yes\nPages:          3\nPage size:      612 x 792 pts\n";
    assert_eq!(extract_pdf_info(report), Ok((3, true)));
}

#[test]
fn labels_in_either_order() {
    assert_eq!(extract_pdf_info(b"Encrypted: yes\nPages: 4"), Ok((4, true)));
    assert_eq!(extract_pdf_info(b"Pages: 4\nEncrypted: yes"), Ok((4, true)));
}

#[test]
fn only_the_first_line_of_a_label_counts() {
    assert_eq!(extract_pdf_info(b"Pages: 2\nPages: 9\nEncrypted: no\nEncrypted: yes\n"), Ok((2, false)));
    assert_eq!(
        extract_pdf_info(b"Pages: x\nPages: 9\nEncrypted: no\n"),
        Err(PDF2ImageError::UnableToExtractPageCount)
    );
}

#[test]
fn missing_pages_line() {
    assert_eq!(
        extract_pdf_info(b"Encrypted: no\n"),
        Err(PDF2ImageError::UnableToExtractPageCount)
    );
    assert_eq!(extract_pdf_info(b""), Err(PDF2ImageError::UnableToExtractPageCount));
    assert_eq!(
        PdfInfo::read(b"Encrypted: no\n"),
        Err(PDF2ImageError::UnableToExtractPageCount)
    );
}

#[test]
fn label_must_begin_the_line() {
    assert_eq!(
        extract_pdf_info(b" Pages: 3\nEncrypted: no\n"),
        Err(PDF2ImageError::UnableToExtractPageCount)
    );
    assert_eq!(
        extract_pdf_info(b"Total Pages: 3\nEncrypted: no\n"),
        Err(PDF2ImageError::UnableToExtractPageCount)
    );
}

#[test]
fn unparsable_page_count() {
    for report in [
        &b"Pages:\nEncrypted: no\n"[..],
        &b"Pages: many\nEncrypted: no\n"[..],
        &b"Pages: -3\nEncrypted: no\n"[..],
        &b"Pages: 3.0\nEncrypted: no\n"[..],
        &b"Pages: 4294967296\nEncrypted: no\n"[..],
        &b"Pages:12\nEncrypted: no\n"[..],
    ] {
        assert_eq!(extract_pdf_info(report), Err(PDF2ImageError::UnableToExtractPageCount));
    }
}

#[test]
fn page_count_at_the_limits() {
    assert_eq!(extract_pdf_info(b"Pages: 0\nEncrypted: no\n"), Ok((0, false)));
    assert_eq!(extract_pdf_info(b"Pages: 4294967295\nEncrypted: no\n"), Ok((u32::MAX, false)));
    assert_eq!(extract_pdf_info(b"Pages: +7\nEncrypted: no\n"), Ok((7, false)));
    assert_eq!(extract_pdf_info(b"Pages: 0012\nEncrypted: no\n"), Ok((12, false)));
}

#[test]
fn last_token_of_the_line_is_the_value() {
    assert_eq!(extract_pdf_info(b"Pages: about 12\t \r\nEncrypted: surely no \n"), Ok((12, false)));
    assert_eq!(extract_pdf_info("Pages:\u{a0}12\nEncrypted:\u{3000}no\n".as_bytes()), Ok((12, false)));
}

#[test]
fn missing_encryption_line() {
    assert_eq!(
        extract_pdf_info(b"Pages: 12\n"),
        Err(PDF2ImageError::UnableToExtractEncryptionStatus)
    );
}

#[test]
fn unparsable_encryption_flag() {
    for report in [
        &b"Pages: 1\nEncrypted:\n"[..],
        &b"Pages: 1\nEncrypted: maybe\n"[..],
        &b"Pages: 1\nEncrypted: Yes\n"[..],
        &b"Pages: 1\nEncrypted: nope\n"[..],
        &b"Pages: 1\nEncrypted: ye\n"[..],
    ] {
        assert_eq!(
            extract_pdf_info(report),
            Err(PDF2ImageError::UnableToExtractEncryptionStatus)
        );
    }
}

#[test]
fn page_count_is_asked_first() {
    assert_eq!(extract_pdf_info(b"nothing here"), Err(PDF2ImageError::UnableToExtractPageCount));
}

#[test]
fn line_that_is_not_utf8() {
    assert_eq!(
        extract_pdf_info(b"Pages: \xff 12\nEncrypted: no\n"),
        Err(PDF2ImageError::UnableToExtractPageCount)
    );
    assert_eq!(
        extract_pdf_info(b"Pages: 12\nEncrypted: \xc3 no\n"),
        Err(PDF2ImageError::UnableToExtractEncryptionStatus)
    );
    assert_eq!(extract_pdf_info(b"Title: \xff\nPages: 12\nEncrypted: no\n"), Ok((12, false)));
}

#[test]
fn known_facts() {
    let info = PdfInfo::new(7, true);
    assert_eq!(info.page_count(), 7);
    assert!(info.is_encrypted());
}
