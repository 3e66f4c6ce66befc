use scholarpress::docx::{estimated_page_count, extract_docx, DocxError};
use std::io::Write;

fn docx(parts: &[(&str, &str)]) -> Vec<u8> {
    let mut writer = zip::ZipWriter::new(std::io::Cursor::new(Vec::new()));
    for (name, text) in parts {
        writer.start_file(*name, zip::write::SimpleFileOptions::default()).unwrap();
        writer.write_all(text.as_bytes()).unwrap();
    }
    writer.finish().unwrap().into_inner()
}

const W: &str = "xmlns:w=\"http://schemas.openxmlformats.org/wordprocessingml/2006/main\"";

fn document(body: &str) -> String {
    format!("<w:document {W}><w:body>{body}</w:body></w:document>")
}

#[test]
fn test_extract_docx_invalid() {
    let result = extract_docx(b"not a zip file");
    assert!(result.is_err());
}

#[test]
fn archive_without_document_part() {
    let bytes = docx(&[("word/other.xml", "<a/>")]);
    assert!(matches!(extract_docx(&bytes), Err(DocxError::NoDocumentPart)));
}

#[test]
fn malformed_document_xml() {
    let bytes = docx(&[("word/document.xml", "<w:document")]);
    assert!(matches!(extract_docx(&bytes), Err(DocxError::BadXml)));
}

#[test]
fn blank_document_has_no_text() {
    let doc = document("<w:p><w:r><w:t>   </w:t></w:r></w:p>");
    let bytes = docx(&[("word/document.xml", &doc)]);
    assert!(matches!(extract_docx(&bytes), Err(DocxError::NoText)));
}

#[test]
fn elements_outside_the_word_namespace_are_not_read() {
    let bytes = docx(&[("word/document.xml", "<document><body><p><r><t>Hi</t></r></p></body></document>")]);
    assert!(matches!(extract_docx(&bytes), Err(DocxError::NoText)));
}

#[test]
fn paragraphs_text_and_formatting() {
    let styles = format!(
        "<w:styles {W}><w:style w:styleId=\"Heading1\"><w:rPr><w:rFonts w:ascii=\"Arial\"/><w:b/><w:sz w:val=\"32\"/></w:rPr></w:style></w:styles>"
    );
    let doc = document("<w:p><w:pPr><w:pStyle w:val=\"Heading1\"/></w:pPr><w:r><w:t>CHAPTER 1</w:t></w:r></w:p>\
        <w:p><w:r><w:rPr><w:i/><w:sz w:val=\"24\"/><w:rFonts w:ascii=\"Times\"/></w:rPr><w:t> Body </w:t></w:r>\
        <w:r><w:t>text here.</w:t></w:r></w:p>\
        <w:p><w:r><w:t>  </w:t></w:r></w:p>");
    let bytes = docx(&[("word/document.xml", &doc), ("word/styles.xml", &styles)]);
    let facts = extract_docx(&bytes).unwrap();
    assert_eq!(facts.paragraphs.len(), 2);
    let h = &facts.paragraphs[0];
    assert_eq!(h.text, "CHAPTER 1");
    assert!(h.format.bold && !h.format.italic && h.all_caps);
    assert_eq!(h.format.size_half_points.as_deref(), Some("32"));
    assert_eq!(h.format.font_name.as_deref(), Some("Arial"));
    let b = &facts.paragraphs[1];
    assert_eq!(b.text, "Body text here.");
    assert!(b.format.italic && !b.format.bold && !b.all_caps);
    assert_eq!(b.format.size_half_points.as_deref(), Some("24"));
    assert_eq!(b.format.font_name.as_deref(), Some("Times"));
    assert_eq!(facts.raw_text, "CHAPTER 1\n\nBody text here.");
    assert_eq!(facts.page_count, 1);
    assert_eq!(facts.fonts, vec!["Arial".to_string(), "Times".to_string()]);
}

#[test]
fn run_overrides_carry_to_later_runs() {
    let doc = document("<w:p><w:r><w:rPr><w:b/></w:rPr><w:t>A</w:t></w:r><w:r><w:t>b</w:t></w:r></w:p>\
        <w:p><w:r><w:rPr><w:sz w:val=\"x\"/></w:rPr><w:t>c</w:t></w:r></w:p>");
    let bytes = docx(&[("word/document.xml", &doc)]);
    let facts = extract_docx(&bytes).unwrap();
    assert_eq!(facts.paragraphs[0].text, "Ab");
    assert!(facts.paragraphs[0].format.bold);
    assert!(!facts.paragraphs[0].all_caps);
    assert_eq!(facts.paragraphs[1].format.size_half_points, None);
    assert!(facts.fonts.is_empty());
}

#[test]
fn later_style_with_same_id_wins() {
    let styles = format!(
        "<w:styles {W}><w:style w:styleId=\"S\"><w:rPr><w:b/></w:rPr></w:style><w:style w:styleId=\"S\"><w:rPr><w:u/></w:rPr></w:style></w:styles>"
    );
    let doc = document("<w:p><w:pPr><w:pStyle w:val=\"S\"/></w:pPr><w:r><w:t>x</w:t></w:r></w:p>");
    let bytes = docx(&[("word/document.xml", &doc), ("word/styles.xml", &styles)]);
    let facts = extract_docx(&bytes).unwrap();
    assert!(facts.paragraphs[0].format.underline && !facts.paragraphs[0].format.bold);
}

#[test]
fn page_estimate() {
    assert_eq!(estimated_page_count(0), 1);
    assert_eq!(estimated_page_count(1), 1);
    assert_eq!(estimated_page_count(250), 1);
    assert_eq!(estimated_page_count(251), 2);
    assert_eq!(estimated_page_count(750), 3);
}

fn size_of(val: &str) -> Option<String> {
    let doc = document(&format!("<w:p><w:r><w:rPr><w:sz w:val=\"{val}\"/></w:rPr><w:t>x</w:t></w:r></w:p>"));
    let bytes = docx(&[("word/document.xml", &doc)]);
    extract_docx(&bytes).unwrap().paragraphs[0].format.size_half_points.clone()
}

#[test]
fn sizes_read_as_numbers() {
    assert_eq!(size_of("23.5").as_deref(), Some("23.5"));
    assert_eq!(size_of("-4").as_deref(), Some("-4"));
    assert_eq!(size_of("1e2").as_deref(), Some("1e2"));
    assert_eq!(size_of("1E+2").as_deref(), Some("1E+2"));
    assert_eq!(size_of(".5").as_deref(), Some(".5"));
    assert_eq!(size_of("INF").as_deref(), Some("INF"));
    assert_eq!(size_of("12pt"), None);
    assert_eq!(size_of(" 24"), None);
    assert_eq!(size_of("1.2.3"), None);
    assert_eq!(size_of("e5"), None);
    assert_eq!(size_of("1e"), None);
    for v in ["23.5", "-4", "1e2", "1E+2", ".5", "INF"] {
        assert!(v.parse::<f32>().is_ok());
    }
    for v in ["12pt", " 24", "1.2.3", "e5", "1e"] {
        assert!(v.parse::<f32>().is_err());
    }
}

#[test]
fn size_without_value_reads_as_zero() {
    assert_eq!(size_of_missing_val().as_deref(), Some("0"));
}

fn size_of_missing_val() -> Option<String> {
    let doc = document("<w:p><w:r><w:rPr><w:sz/></w:rPr><w:t>x</w:t></w:r></w:p>");
    let bytes = docx(&[("word/document.xml", &doc)]);
    extract_docx(&bytes).unwrap().paragraphs[0].format.size_half_points.clone()
}
