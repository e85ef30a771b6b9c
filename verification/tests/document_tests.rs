use savecodex::document::{document_layout, DocBlock, PackItem};

fn item(name: &str, content: &str) -> PackItem {
    PackItem { filename: name.to_string(), content: content.to_string(), img_bytes: vec![1, 2], img_width: 10, img_height: 5 }
}

fn describe(b: &DocBlock) -> String {
    match b {
        DocBlock::Title(t) => format!("title:{}", t),
        DocBlock::Lines(ls) => format!("lines:{}", ls.join("|")),
        DocBlock::Blank => "blank".to_string(),
        DocBlock::PageBreak => "page".to_string(),
        DocBlock::Heading(h) => format!("heading:{}", h),
        DocBlock::Image(i) => format!("image:{}", i),
    }
}

#[test]
fn layout_with_description_and_blank_separators() {
    let items = vec![item("q1.py", "a\nb"), item("src/q2.py", "c")];
    let stems = vec!["q1".to_string(), "q2".to_string()];
    let blocks = document_layout("Lab", Some("line1\\nline2"), &items, &stems, false);
    let got: Vec<String> = blocks.iter().map(describe).collect();
    assert_eq!(got, vec![
        "title:Lab", "lines:line1|line2", "blank",
        "heading:1. q1", "lines:a|b", "image:0",
        "blank",
        "heading:2. q2", "lines:c", "image:1",
    ]);
}

#[test]
fn layout_with_page_breaks() {
    let items: Vec<PackItem> = (0..11).map(|i| item(&format!("f{}.c", i), "x")).collect();
    let stems: Vec<String> = (0..11).map(|i| format!("f{}", i)).collect();
    let blocks = document_layout("T", None, &items, &stems, true);
    let got: Vec<String> = blocks.iter().map(describe).collect();
    assert_eq!(got[0], "title:T");
    assert_eq!(got[1], "heading:1. f0");
    assert_eq!(got[4], "page");
    assert_eq!(got[got.len() - 3], "heading:11. f10");
    assert_eq!(got.len(), 1 + 11 * 3 + 10);
}

fn png_bytes(w: u32, h: u32) -> Vec<u8> {
    let img = image::RgbaImage::from_pixel(w, h, image::Rgba([10, 20, 30, 255]));
    let mut out = std::io::Cursor::new(Vec::new());
    img.write_to(&mut out, image::ImageOutputFormat::Png).unwrap();
    out.into_inner()
}

fn paragraph_pieces(bytes: &[u8]) -> Vec<String> {
    let docx = docx_rs::read_docx(bytes).unwrap();
    let mut out = Vec::new();
    for child in &docx.document.children {
        if let docx_rs::DocumentChild::Paragraph(p) = child {
            let mut pieces: Vec<String> = Vec::new();
            if p.property.alignment.is_some() {
                pieces.push("center".to_string());
            }
            for pc in &p.children {
                if let docx_rs::ParagraphChild::Run(r) = pc {
                    if r.run_property.bold.is_some() {
                        pieces.push("bold".to_string());
                    }
                    for rc in &r.children {
                        match rc {
                            docx_rs::RunChild::Text(t) => pieces.push(format!("text:{}", t.text)),
                            docx_rs::RunChild::Break(_) => pieces.push("break".to_string()),
                            docx_rs::RunChild::Drawing(_) => pieces.push("image".to_string()),
                            _ => pieces.push("other".to_string()),
                        }
                    }
                }
            }
            out.push(pieces.join(" "));
        }
    }
    out
}

#[test]
fn archive_reads_back_as_the_layout() {
    let items = vec![
        PackItem { filename: "q1.py".to_string(), content: "a\nb".to_string(), img_bytes: png_bytes(4, 2), img_width: 4, img_height: 2 },
        PackItem { filename: "q2.py".to_string(), content: "c".to_string(), img_bytes: png_bytes(2, 2), img_width: 2, img_height: 2 },
    ];
    let stems = vec!["q1".to_string(), "q2".to_string()];
    let heights = vec![2857500, 5715000];
    let bytes = savecodex::word::document_archive("Lab", Some("x\\ny"), &items, &stems, true, &heights).unwrap();
    assert_eq!(&bytes[0..2], b"PK");
    assert_eq!(paragraph_pieces(&bytes), vec![
        "center text:Lab",
        "text:x break text:y",
        "",
        "bold text:1. q1",
        "text:a break text:b",
        "break image",
        "break",
        "bold text:2. q2",
        "text:c",
        "break image",
    ]);
}

#[test]
fn archive_title_drops_line_feeds() {
    let bytes = savecodex::word::document_archive("A\nB", None, &[], &[], false, &[]).unwrap();
    assert_eq!(paragraph_pieces(&bytes), vec!["center text:AB"]);
}
