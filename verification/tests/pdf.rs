use lopdf::{Dictionary, Object};
use kabu::pdf::{
    decimal_text, decrypt_pdf_if_needed, encode_pdf_base64, normalize_pdf_payload, trim_ascii_bytes,
    AttachmentScan, UploadError,
};

#[test]
fn normalize_pdf_payload_accepts_raw_pdf() {
    let bytes = b"%PDF-1.7\nbody";

    assert_eq!(normalize_pdf_payload(bytes), Some(bytes.to_vec()));
}

#[test]
fn normalize_pdf_payload_accepts_base64_pdf() {
    let bytes = b"JVBERi0xLjcKYm9keQ==";

    assert_eq!(
        normalize_pdf_payload(bytes),
        Some(b"%PDF-1.7\nbody".to_vec())
    );
}

#[test]
fn normalize_pdf_payload_accepts_wrapped_base64_pdf() {
    let bytes = b"\nJVBERi0xLjcK\nYm9keQ==\n";

    assert_eq!(
        normalize_pdf_payload(bytes),
        Some(b"%PDF-1.7\nbody".to_vec())
    );
}

#[test]
fn normalize_pdf_payload_rejects_non_pdf() {
    assert_eq!(normalize_pdf_payload(b"not a pdf"), None);
}

#[test]
fn normalize_pdf_payload_strips_bom_and_whitespace() {
    assert_eq!(
        normalize_pdf_payload(b"\xef\xbb\xbf \t%PDF-1.4 x \r\n"),
        Some(b"%PDF-1.4 x".to_vec())
    );
}

#[test]
fn normalize_pdf_payload_rejects_base64_of_non_pdf() {
    // "JVBER!!!" does not decode, and "JVBERWFh" decodes to "%PDEaa", which is not a PDF.
    assert_eq!(normalize_pdf_payload(b"JVBER!!!"), None);
    assert_eq!(normalize_pdf_payload(b"JVBERWFh"), None);
    assert_eq!(normalize_pdf_payload(b"JVBERg=="), Some(b"%PDF".to_vec()));
    assert_eq!(normalize_pdf_payload(b""), None);
}

#[test]
fn normalized_payload_is_stable() {
    let once = normalize_pdf_payload(b"\nJVBERi0xLjcK\nYm9keQ==\n").unwrap();
    assert_eq!(normalize_pdf_payload(&once), Some(once.clone()));
}

#[test]
fn trim_ascii_keeps_inner_bytes() {
    assert_eq!(trim_ascii_bytes(b"  a b\x0c"), b"a b");
    assert_eq!(trim_ascii_bytes(b" \t\n"), b"");
    assert_eq!(trim_ascii_bytes(b"\x0bx"), b"\x0bx");
}

#[test]
fn attachment_scan_stops_at_first_pdf() {
    let mut scan = AttachmentScan::new();
    assert_eq!(scan.no_pdf_error(), UploadError::NoFile);
    assert_eq!(scan.observe(b"hello"), None);
    assert_eq!(scan.observe(b"%PDF-1.7"), Some(b"%PDF-1.7".to_vec()));
    assert_eq!(scan.file_count(), 2);
}

#[test]
fn attachment_scan_counts_skipped_files() {
    let mut scan = AttachmentScan::new();
    assert_eq!(scan.observe(b"a"), None);
    assert_eq!(scan.observe(b"b"), None);
    assert_eq!(scan.no_pdf_error(), UploadError::NoPdf { file_count: 2, skipped: 2 });
}

fn sample_pdf() -> Vec<u8> {
    let mut doc = lopdf::Document::with_version("1.5");
    let pages_id = doc.new_object_id();
    let mut page = Dictionary::new();
    page.set("Type", Object::Name(b"Page".to_vec()));
    page.set("Parent", Object::Reference(pages_id));
    page.set(
        "MediaBox",
        Object::Array(vec![
            Object::Integer(0),
            Object::Integer(0),
            Object::Integer(595),
            Object::Integer(842),
        ]),
    );
    let page_id = doc.add_object(page);
    let mut pages = Dictionary::new();
    pages.set("Type", Object::Name(b"Pages".to_vec()));
    pages.set("Kids", Object::Array(vec![Object::Reference(page_id)]));
    pages.set("Count", Object::Integer(1));
    doc.objects.insert(pages_id, Object::Dictionary(pages));
    let mut catalog = Dictionary::new();
    catalog.set("Type", Object::Name(b"Catalog".to_vec()));
    catalog.set("Pages", Object::Reference(pages_id));
    let catalog_id = doc.add_object(catalog);
    doc.trailer.set("Root", Object::Reference(catalog_id));
    let mut out = Vec::new();
    doc.save_to(&mut out).unwrap();
    out
}

#[test]
fn decrypt_keeps_unencrypted_pdf() {
    let pdf = sample_pdf();
    assert_eq!(decrypt_pdf_if_needed(&pdf, None), Ok(pdf.clone()));
    assert_eq!(decrypt_pdf_if_needed(&pdf, Some("secret")), Ok(pdf.clone()));
}

#[test]
fn decrypt_reports_unreadable_pdf() {
    let err = decrypt_pdf_if_needed(b"not a pdf", None).unwrap_err();
    assert!(err.starts_with("Failed to parse PDF: "), "{}", err);
}

fn encrypted_sample_pdf() -> Vec<u8> {
    let mut doc = lopdf::Document::load_mem(&sample_pdf()).unwrap();
    let id = Object::String(b"0123456789abcdef".to_vec(), lopdf::StringFormat::Hexadecimal);
    doc.trailer.set("ID", Object::Array(vec![id.clone(), id]));
    let version = lopdf::EncryptionVersion::V2 {
        document: &doc,
        owner_password: "owner",
        user_password: "user",
        key_length: 128,
        permissions: lopdf::Permissions::PRINTABLE,
    };
    let state = lopdf::EncryptionState::try_from(version).unwrap();
    doc.encrypt(&state).unwrap();
    let mut out = Vec::new();
    doc.save_to(&mut out).unwrap();
    out
}

#[test]
fn decrypt_opens_encrypted_pdf_with_password() {
    let pdf = encrypted_sample_pdf();
    let out = decrypt_pdf_if_needed(&pdf, Some("user")).unwrap();
    assert!(out.starts_with(b"%PDF"));
    assert_ne!(out, pdf);
    let reloaded = lopdf::Document::load_mem(&out).unwrap();
    assert!(!reloaded.is_encrypted());
}

#[test]
fn decrypt_needs_a_password() {
    let pdf = encrypted_sample_pdf();
    let r = decrypt_pdf_if_needed(&pdf, None);
    assert_eq!(r, Err("PDF is encrypted but no password configured".to_string()));
}

#[test]
fn decrypt_refuses_wrong_password() {
    let pdf = encrypted_sample_pdf();
    let r = decrypt_pdf_if_needed(&pdf, Some("wrong"));
    let err = r.unwrap_err();
    assert!(err.starts_with("Failed to decrypt PDF: "), "{}", err);
}

#[test]
fn base64_encoding_follows_rfc_4648() {
    assert_eq!(encode_pdf_base64(b""), "");
    assert_eq!(encode_pdf_base64(b"f"), "Zg==");
    assert_eq!(encode_pdf_base64(b"fo"), "Zm8=");
    assert_eq!(encode_pdf_base64(b"foo"), "Zm9v");
    assert_eq!(encode_pdf_base64(b"foobar"), "Zm9vYmFy");
    assert_eq!(encode_pdf_base64(&[0xfb, 0xff, 0xfe]), "+//+");
    assert_eq!(encode_pdf_base64(b"%PDF-1.7\nbody"), "JVBERi0xLjcKYm9keQ==");
}

#[test]
fn encoded_pdf_is_recognised_again() {
    let pdf = b"%PDF-1.4 x".to_vec();
    let text = encode_pdf_base64(&pdf);
    assert_eq!(normalize_pdf_payload(text.as_bytes()), Some(pdf));
}

#[test]
fn upload_error_messages() {
    assert_eq!(UploadError::NoFile.message(), "No file uploaded");
    assert_eq!(
        UploadError::NoPdf { file_count: 2, skipped: 2 }.message(),
        "No PDF attachment found in 2 file(s); skipped 2"
    );
    assert_eq!(
        UploadError::NoPdf { file_count: 120, skipped: 107 }.message(),
        "No PDF attachment found in 120 file(s); skipped 107"
    );
}

#[test]
fn decimal_texts() {
    assert_eq!(decimal_text(0), "0");
    assert_eq!(decimal_text(9), "9");
    assert_eq!(decimal_text(10), "10");
    assert_eq!(decimal_text(usize::MAX), usize::MAX.to_string());
}
