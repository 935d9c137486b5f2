use fetch_mcp::pdf::{decode_pdf_hex, decode_pdf_string, extract_pdf_text, extract_text_from_operator, PdfError};

#[test]
fn test_decode_pdf_string() {
    let input = "Hello\\nWorld\\(test\\)";
    let output = decode_pdf_string(input);
    assert_eq!(output, "Hello\nWorld(test)");
}

#[test]
fn test_decode_pdf_hex() {
    let hex = "48656C6C6F";
    let output = decode_pdf_hex(hex);
    assert_eq!(output, Some("Hello".to_string()));
}

#[test]
fn pdf_escapes_are_replaced_in_order() {
    assert_eq!(decode_pdf_string("a\\tb\\rc\\\\d"), "a\tb\rc\\d");
    assert_eq!(decode_pdf_string("plain"), "plain");
}

#[test]
fn pdf_hex_with_spaces_and_errors() {
    assert_eq!(decode_pdf_hex("48 69"), Some("Hi".to_string()));
    assert_eq!(decode_pdf_hex("4"), None);
    assert_eq!(decode_pdf_hex("zz"), None);
    assert_eq!(decode_pdf_hex(""), Some(String::new()));
    assert_eq!(decode_pdf_hex("+A"), Some("\n".to_string()));
}

#[test]
fn text_of_pdf_operators() {
    assert_eq!(extract_text_from_operator("  (Hello\\(x\\)) Tj "), Some("Hello(x\\".to_string()));
    assert_eq!(extract_text_from_operator("<48656C6C6F> Tj"), Some("Hello".to_string()));
    assert_eq!(extract_text_from_operator("BT /F1 12 Tf"), None);
    assert_eq!(extract_text_from_operator(") Tj ("), None);
}

#[test]
fn non_pdf_bytes_do_not_load() {
    assert!(matches!(extract_pdf_text(b"plain text", None), Err(PdfError::Load)));
}

fn small_pdf(pages: &[&str]) -> Vec<u8> {
    let n = pages.len();
    let mut objects: Vec<String> = Vec::new();
    objects.push("<< /Type /Catalog /Pages 2 0 R >>".to_string());
    let kids: Vec<String> = (0..n).map(|i| format!("{} 0 R", 3 + 2 * i)).collect();
    objects.push(format!("<< /Type /Pages /Kids [{}] /Count {} >>", kids.join(" "), n));
    for (i, text) in pages.iter().enumerate() {
        objects.push(format!(
            "<< /Type /Page /Parent 2 0 R /MediaBox [0 0 200 200] /Contents {} 0 R >>",
            4 + 2 * i
        ));
        let stream = format!("BT\n/F1 12 Tf\n({}) Tj\nET", text);
        objects.push(format!("<< /Length {} >>\nstream\n{}\nendstream", stream.len(), stream));
    }
    objects.push("<< /Title (Small) /Author (Tester) >>".to_string());
    let info = objects.len();
    let mut out = String::from("%PDF-1.4\n");
    let mut offsets = Vec::new();
    for (i, body) in objects.iter().enumerate() {
        offsets.push(out.len());
        out.push_str(&format!("{} 0 obj\n{}\nendobj\n", i + 1, body));
    }
    let xref = out.len();
    out.push_str(&format!("xref\n0 {}\n0000000000 65535 f \n", objects.len() + 1));
    for o in offsets {
        out.push_str(&format!("{:010} 00000 n \n", o));
    }
    out.push_str(&format!(
        "trailer\n<< /Size {} /Root 1 0 R /Info {} 0 R >>\nstartxref\n{}\n%%EOF\n",
        objects.len() + 1,
        info,
        xref
    ));
    out.into_bytes()
}

#[test]
fn pdf_text_and_metadata() {
    let bytes = small_pdf(&["Hello", "World"]);
    let info = extract_pdf_text(&bytes, None).unwrap();
    assert_eq!(info.num_pages, 2);
    assert_eq!(info.text, "Hello\n\nWorld");
    assert_eq!(info.metadata.title.as_deref(), Some("Small"));
    assert_eq!(info.metadata.author.as_deref(), Some("Tester"));
    assert!(info.metadata.subject.is_none());
    let first = extract_pdf_text(&bytes, Some(1)).unwrap();
    assert_eq!(first.text, "Hello");
    assert_eq!(first.num_pages, 2);
}
