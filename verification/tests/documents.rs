use floatdea::data::ai::extract::{extract_pdf_text, extract_text_from_file};
use floatdea::data::ai::lengths::{check_lengths, close_lengths};
use floatdea::data::ai::nesting::check_nesting;
use floatdea::data::ai::outline::{
    check_page, check_pages, find_form, find_part, PdfPage, PdfPart, MAX_ANCESTORS,
    MAX_FORMS_DRAWN, MAX_FORM_DEPTH,
};
use floatdea::data::ai::pdf::MAX_BRACKETS;

/// A file of these objects, the first of which is the catalog.
fn file(objects: &[String]) -> Vec<u8> {
    let mut out = String::from("%PDF-1.4\n");
    let mut offsets = Vec::new();
    for (i, object) in objects.iter().enumerate() {
        offsets.push(out.len());
        out += &format!("{} 0 obj\n{object}\nendobj\n", i + 1);
    }
    let table = out.len();
    let size = objects.len() + 1;
    out += &format!("xref\n0 {size}\n0000000000 65535 f \n");
    for offset in offsets {
        out += &format!("{offset:010} 00000 n \n");
    }
    out += &format!("trailer\n<< /Size {size} /Root 1 0 R >>\nstartxref\n{table}\n%%EOF\n");
    out.into_bytes()
}

fn stream(entries: &str, content: &str) -> String {
    format!("<< {entries} /Length {} >>\nstream\n{content}\nendstream", content.len())
}

/// A document of one page with this content. The page names its forms, which begin
/// with the seventh object, `/X7` and so on.
fn document(content: &str, font: &str, forms: &[String]) -> Vec<u8> {
    let names: String =
        (0..forms.len()).map(|i| format!("/X{} {} 0 R ", i + 7, i + 7)).collect();
    let mut objects = vec![
        "<< /Type /Catalog /Pages 2 0 R >>".to_owned(),
        "<< /Type /Pages /Kids [3 0 R] /Count 1 /MediaBox [0 0 200 200] >>".to_owned(),
        "<< /Type /Page /Parent 2 0 R /Contents 4 0 R /Resources 6 0 R >>".to_owned(),
        stream("", content),
        format!(
            "<< /Type /Font /Subtype /Type1 /BaseFont /Helvetica /Encoding /WinAnsiEncoding \
             {font} >>"
        ),
        format!("<< /Font << /F1 5 0 R >> /XObject << {names} >> >>"),
    ];
    objects.extend_from_slice(forms);
    file(&objects)
}

fn text(word: &str) -> String {
    format!("BT /F1 12 Tf 20 100 Td ({word}) Tj ET")
}

#[test]
fn text_is_found_in_documents() {
    let bytes = document(&text("Hello"), "", &[]);
    let found = extract_text_from_file("doc.pdf", Some(bytes)).unwrap();
    assert!(found.contains("Hello"), "{found}");
}

#[test]
fn damaged_documents_hold_no_text() {
    // The operator takes six numbers.
    let bytes = document("1 0 0 cm", "", &[]);
    assert!(extract_text_from_file("doc.pdf", Some(bytes)).is_none());
    assert!(extract_text_from_file("doc.pdf", Some(b"no document".to_vec())).is_none());
}

#[test]
fn forms_within_forms_are_read() {
    let own = "/Subtype /Form /Resources << /Font << /F1 5 0 R >> /XObject << /Y 8 0 R >> >>";
    let forms = [stream(own, "/Y Do"), stream("/Subtype /Form", &text("Inner"))];
    let bytes = document(&format!("{} /X7 Do", text("Outer")), "", &forms);
    let found = extract_pdf_text(&bytes).unwrap();
    assert!(found.contains("Outer") && found.contains("Inner"), "{found}");
    let missing = document("/X9 Do", "", &forms);
    assert!(extract_pdf_text(&missing).is_none());
}

#[test]
fn a_form_within_itself_is_not_read() {
    let own = "/Subtype /Form /Resources << /XObject << /Y 7 0 R >> >>";
    assert!(extract_pdf_text(&document("/X7 Do", "", &[stream(own, "/Y Do")])).is_none());
    // Without resources of its own, the form has those of the page.
    let plain = stream("/Subtype /Form", "/X7 Do");
    assert!(extract_pdf_text(&document("/X7 Do", "", &[plain])).is_none());
    let pair = [stream("/Subtype /Form", "/X8 Do"), stream("/Subtype /Form", "/X7 Do")];
    assert!(extract_pdf_text(&document("/X7 Do", "", &pair)).is_none());
    // A form that is not drawn does no harm.
    let bytes = document(&text("Hello"), "", &pair);
    assert!(extract_pdf_text(&bytes).unwrap().contains("Hello"));
}

#[test]
fn a_page_within_itself_is_not_read() {
    let pages = |parent: &str| {
        file(&[
            "<< /Type /Catalog /Pages 2 0 R >>".to_owned(),
            format!("<< /Type /Pages /Kids [3 0 R] /Count 1 {parent} >>"),
            "<< /Type /Page /Parent 2 0 R /Contents 4 0 R >>".to_owned(),
            stream("", "q Q"),
        ])
    };
    assert!(extract_pdf_text(&pages("/MediaBox [0 0 9 9]")).is_some());
    assert!(extract_pdf_text(&pages("/Parent 2 0 R")).is_none());
    assert!(extract_pdf_text(&pages("/Parent 3 0 R")).is_none());
}

#[test]
fn forms_are_read_to_the_limit() {
    let chain = |length: usize| {
        let mut forms: Vec<String> = (0..length - 1)
            .map(|i| stream("/Subtype /Form", &format!("/X{} Do", i + 8)))
            .collect();
        forms.push(stream("/Subtype /Form", &text("Deep")));
        document("/X7 Do", "", &forms)
    };
    assert!(extract_pdf_text(&chain(MAX_FORM_DEPTH)).unwrap().contains("Deep"));
    assert!(extract_pdf_text(&chain(MAX_FORM_DEPTH + 1)).is_none());
}

#[test]
fn font_tables_are_read_to_the_limit() {
    let with = |depth: usize| {
        let table = format!("{}{} 1", "[".repeat(depth), "]".repeat(depth));
        document(&text("Hello"), "/ToUnicode 7 0 R", &[stream("", &table)])
    };
    assert!(extract_pdf_text(&with(3)).unwrap().contains("Hello"));
    assert!(extract_pdf_text(&with(MAX_BRACKETS)).unwrap().contains("Hello"));
    assert!(extract_pdf_text(&with(MAX_BRACKETS + 1)).is_none());
    let program = format!("{}{} 1", "{".repeat(MAX_BRACKETS + 1), "}".repeat(MAX_BRACKETS + 1));
    let descriptor = "/FontDescriptor << /FontFile 7 0 R >>";
    assert!(extract_pdf_text(&document(&text("Hello"), descriptor, &[stream("", &program)]))
        .is_none());
}

#[test]
fn ancestors_are_read_to_the_limit() {
    let chain = |length: usize| {
        let mut objects = vec![
            "<< /Type /Catalog /Pages 2 0 R >>".to_owned(),
            "<< /Type /Pages /Kids [3 0 R] /Count 1 >>".to_owned(),
            "<< /Type /Page /Parent 5 0 R /Contents 4 0 R >>".to_owned(),
            stream("", "q Q"),
        ];
        objects.extend((0..length - 1).map(|i| format!("<< /Parent {} 0 R >>", i + 6)));
        objects.push("<< /MediaBox [0 0 9 9] >>".to_owned());
        file(&objects)
    };
    assert!(extract_pdf_text(&chain(MAX_ANCESTORS)).is_some());
    assert!(extract_pdf_text(&chain(MAX_ANCESTORS + 1)).is_none());
}

#[test]
fn lengths_that_are_references_are_replaced() {
    let file = b"<</Length 12 0 R>>stream\nabc\nendstream";
    let read = b"<</Length 3     >>stream\nabc\nendstream";
    assert!(!check_lengths(file));
    assert!(check_lengths(read));
    assert_eq!(close_lengths(file), read);
    assert_eq!(close_lengths(read), read);
    // The end of a line before the word belongs to the word.
    for (text, size) in [
        ("\nabcdefghijkl\r\nendstream", "12"),
        ("\r\nabc\n\nendstream", "4 "),
        ("\rabcendstream", "3 "),
        ("\n\nendstream", "0 "),
        ("\nendstream", "0 "),
        ("x stream\nab\rendstream", "2 "),
    ] {
        let file = format!("<</Length 7 0 R /A 1>>stream{text}");
        let read = format!("<</Length {size}    /A 1>>stream{text}");
        assert_eq!(close_lengths(file.as_bytes()), read.as_bytes(), "{text:?}");
    }
    // No stream, no end, no reference, no room.
    let long = format!("<</Length 7 0 R>>stream\n{}endstream", "a".repeat(100_000));
    for text in [
        "<</Length 7 0 R>>",
        "<</Length 7 0 R>>stream\nabc",
        "<</Length 7 0 R>>stream abc endstream",
        "<</Length 7 0>>stream\nabc\nendstream",
        "<</Length /A>>stream\nabc\nendstream",
        "<</Length%\n7 0 R>>stream\nabc\nendstream",
        &long,
    ] {
        let hidden = close_lengths(text.as_bytes());
        assert_eq!(hidden, text.replacen("/L", "/X", 1).as_bytes(), "{text}");
        assert!(check_lengths(&hidden));
    }
    let escaped = b"<</#4ce#6Egth 7 0 R>>stream\nabc\nendstream";
    let plain = b"<</Length 3        >>stream\nabc\nendstream";
    assert_eq!(close_lengths(escaped), plain);
    assert!(check_lengths(b"<</Length1 7 0 R>>"));
    assert!(check_lengths(b"<< /Length 5 /Filter /A >>"));
    assert!(!check_lengths(b"<< /Length 5 0 R /Filter /A >>"));
    assert!(!check_lengths(b"<< /Length 5 "));
}

#[test]
fn documents_with_lengths_by_reference_are_read() {
    let content = text("Hello");
    let mut objects = vec![
        "<< /Type /Catalog /Pages 2 0 R >>".to_owned(),
        "<< /Type /Pages /Kids [3 0 R] /Count 1 >>".to_owned(),
        "<< /Type /Page /Parent 2 0 R /MediaBox [0 0 200 200] /Contents 4 0 R \
         /Resources << /Font << /F1 5 0 R >> >> >>"
            .to_owned(),
        format!("<< /Length 6 0 R >>\nstream\n{content}\nendstream"),
        "<< /Type /Font /Subtype /Type1 /BaseFont /Helvetica /Encoding /WinAnsiEncoding >>"
            .to_owned(),
        content.len().to_string(),
    ];
    assert!(extract_pdf_text(&file(&objects)).unwrap().contains("Hello"));
    // Streams whose lengths lead from one to the next.
    objects.extend(
        (0..3_000).map(|i| format!("<< /Length {} 0 R >>\nstream\nq Q\nendstream", i + 8)),
    );
    assert!(extract_pdf_text(&file(&objects)).unwrap().contains("Hello"));
}

#[test]
fn a_length_within_its_own_stream_is_not_looked_up() {
    let mut out = b"%PDF-1.5\n".to_vec();
    let mut offsets = Vec::new();
    for (i, object) in [
        "<< /Type /Catalog /Pages 2 0 R >>".to_owned(),
        "<< /Type /Pages /Kids [3 0 R] /Count 1 >>".to_owned(),
        "<< /Type /Page /Parent 2 0 R /MediaBox [0 0 9 9] /Contents 4 0 R >>".to_owned(),
        stream("", "q Q"),
        "<< /Type /ObjStm /N 1 /First 4 /Length 6 0 R >>\nstream\n6 0 6\nendstream".to_owned(),
    ]
    .iter()
    .enumerate()
    {
        offsets.push(out.len());
        out.extend(format!("{} 0 obj\n{object}\nendobj\n", i + 1).into_bytes());
    }
    // The sixth object stands in the fifth.
    let mut table = vec![0, 0, 0, 0];
    for offset in &offsets {
        table.extend([1, (offset / 256) as u8, (offset % 256) as u8, 0]);
    }
    table.extend([2, 0, 5, 0]);
    let start = out.len();
    let head = format!(
        "7 0 obj\n<< /Type /XRef /Size 7 /W [1 2 1] /Root 1 0 R /Length {} >>\nstream\n",
        table.len()
    );
    out.extend(head.into_bytes());
    out.extend(table);
    out.extend(format!("\nendstream\nendobj\nstartxref\n{start}\n%%EOF\n").into_bytes());
    assert!(extract_pdf_text(&out).is_some());
}

#[test]
fn brackets_are_counted_where_they_count() {
    assert!(check_nesting(b"", 0));
    assert!(check_nesting(b"[<41> {1}]", 2));
    assert!(!check_nesting(b"[<41> {1}]", 1));
    assert!(check_nesting(b"<< /A 1 >>", 2));
    assert!(!check_nesting(b"<< /A 1 >>", 1));
    // Within a string only round brackets count.
    assert!(check_nesting(b"([[[[)", 1));
    assert!(!check_nesting(b"((a) b)", 1));
    assert!(check_nesting(b"(\\(\\(\\()", 1));
    assert!(!check_nesting(b"(\\\\((", 2));
    // A bracket in a string closes none outside of it.
    assert!(!check_nesting(b"[(])[(])", 2));
    // Nor does one in a comment, and a comment ends with the line.
    assert!(!check_nesting(b"[%]\n[", 1));
    assert!(check_nesting(b"%[[[\r[", 1));
    assert!(check_nesting(b"]]][", 1));
}

fn part(id: u32, parent: Option<u32>, forms: &[(&str, u32)], draws: &[&str]) -> PdfPart {
    let table: Vec<(Vec<u8>, Option<(u32, u16)>)> =
        forms.iter().map(|(name, id)| (name.as_bytes().to_vec(), Some((*id, 0)))).collect();
    PdfPart {
        id: (id, 0),
        parent: parent.map(|id| (id, 0)),
        forms: if table.is_empty() { None } else { Some(table) },
        draws: names(draws),
    }
}

fn names(draws: &[&str]) -> Option<Vec<Option<Vec<u8>>>> {
    Some(draws.iter().map(|name| Some(name.as_bytes().to_vec())).collect())
}

fn page(id: u32, draws: &[&str]) -> PdfPage {
    PdfPage { id: (id, 0), draws: names(draws) }
}

#[test]
fn parts_are_found() {
    let parts = vec![part(4, None, &[("A", 5), ("B", 6), ("A", 7)], &[]), part(5, None, &[], &[])];
    assert_eq!(find_part(&parts, (5, 0)), Some(1));
    assert_eq!(find_part(&parts, (5, 1)), None);
    let forms = parts[0].forms.as_ref().unwrap();
    assert_eq!(find_form(forms, &b"A".to_vec()), Some((5, 0)));
    assert_eq!(find_form(forms, &b"B".to_vec()), Some((6, 0)));
    assert_eq!(find_form(forms, &b"C".to_vec()), None);
}

#[test]
fn pages_end_where_nothing_comes_back() {
    // The page has its resources from its parent, and the second form from the first.
    let parts = vec![
        part(1, Some(2), &[], &[]),
        part(2, None, &[("A", 3)], &[]),
        part(3, None, &[("B", 4)], &["B", "B"]),
        part(4, None, &[], &[]),
    ];
    assert!(check_page(&parts, &page(1, &["A", "A"])));
    assert!(!check_page(&parts, &page(1, &["B"])));
    assert!(!check_page(&parts, &page(9, &[])));
    assert!(!check_page(&parts, &PdfPage { id: (1, 0), draws: None }));
    assert!(!check_page(&parts, &PdfPage { id: (1, 0), draws: Some(vec![None]) }));
    assert!(check_pages(&parts, &vec![page(1, &["A"]), page(2, &[])]));
    assert!(!check_pages(&parts, &vec![page(1, &["A"]), page(2, &["C"])]));
    assert!(check_pages(&parts, &vec![]));
}

#[test]
fn pages_do_not_end_in_a_circle() {
    let drawn = vec![
        part(1, None, &[("A", 2)], &[]),
        part(2, None, &[("B", 3)], &["B"]),
        part(3, None, &[("A", 2)], &["A"]),
    ];
    assert!(check_page(&drawn, &page(1, &[])));
    assert!(!check_page(&drawn, &page(1, &["A"])));
    let inherited = vec![part(1, Some(2), &[], &[]), part(2, Some(1), &[], &[])];
    assert!(!check_page(&inherited, &page(1, &[])));
}

#[test]
fn forms_drawn_too_often_are_refused() {
    // Each form draws the next one twice.
    let tree = |levels: u32| {
        let mut parts = vec![part(0, None, &[("N", 1)], &[])];
        for i in 1..levels {
            parts.push(part(i, None, &[("N", i + 1)], &["N", "N"]));
        }
        parts.push(part(levels, None, &[("N", 0)], &[]));
        parts
    };
    assert!(check_page(&tree(16), &page(0, &["N"])));
    assert!((1 << 17) - 1 > MAX_FORMS_DRAWN);
    assert!(!check_page(&tree(17), &page(0, &["N"])));
}
