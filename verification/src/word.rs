//! The packed document as a Word file, built with `docx_rs` from the layout
//! that [`crate::document::document_layout`] computes.
//!
//! What `docx_rs` keeps inside its builders is modelled by plain values: a
//! document is a list of paragraphs, a paragraph is an alignment and a list
//! of runs, a run is a list of pieces with a font size and a weight.
use vstd::prelude::*;
use crate::document::{block_view, blocks_view, document_layout, item_blocks, items_blocks, layout_spec, BlockView, DocBlock, PackItem};
use crate::text::replace_all;

verus! {

#[verifier::external_type_specification]
#[verifier::external_body]
pub struct ExDocx(docx_rs::Docx);

#[verifier::external_type_specification]
#[verifier::external_body]
pub struct ExParagraph(docx_rs::Paragraph);

#[verifier::external_type_specification]
#[verifier::external_body]
pub struct ExRun(docx_rs::Run);

#[verifier::external_type_specification]
#[verifier::external_body]
pub struct ExPic(docx_rs::Pic);

/// One piece of a run.
pub enum RunPiece {
    /// Text as it is shown.
    Text(Seq<char>),
    /// A line break inside the paragraph.
    LineBreak,
    /// A page break.
    PageBreak,
    /// A picture: PNG bytes and the size on the page in EMU.
    Image { png: Seq<u8>, width_emu: u32, height_emu: u32 },
}

/// The model of a run: its pieces in order, its font size in half-points
/// (when set) and whether it is bold.
pub struct RunModel {
    pub pieces: Seq<RunPiece>,
    pub size: Option<nat>,
    pub bold: bool,
}

/// The model of a paragraph: whether it is centred, and its runs in order.
pub struct ParagraphModel {
    pub centered: bool,
    pub runs: Seq<RunModel>,
}

/// The two kinds of break that the document uses.
pub enum BreakKind {
    Line,
    Page,
}

/// What a `docx_rs::Run` holds.
pub uninterp spec fn run_model(r: docx_rs::Run) -> RunModel;

/// What a `docx_rs::Paragraph` holds.
pub uninterp spec fn paragraph_model(p: docx_rs::Paragraph) -> ParagraphModel;

/// The paragraphs of a `docx_rs::Docx`, in order.
pub uninterp spec fn docx_paragraphs(d: docx_rs::Docx) -> Seq<ParagraphModel>;

/// The picture that a `docx_rs::Pic` holds, as a run piece.
pub uninterp spec fn pic_piece(p: docx_rs::Pic) -> RunPiece;

/// The text that `Run::add_text` shows for `t`: it drops every line feed.
pub open spec fn shown_text(t: Seq<char>) -> Seq<char> {
    replace_all(t, seq!['\n'], Seq::empty())
}

/// `Run::new`: a run with no pieces, no font size and normal weight.
#[verifier::external_body]
fn new_run() -> (r: docx_rs::Run)
    ensures
        run_model(r) == (RunModel { pieces: Seq::empty(), size: None, bold: false }),
{
    docx_rs::Run::new()
}

/// `Run::add_text`: appends a text piece of `text` with its line feeds
/// removed; the formatting stays.
#[verifier::external_body]
fn run_add_text(r: docx_rs::Run, text: &str) -> (out: docx_rs::Run)
    ensures
        run_model(out) == (RunModel {
            pieces: run_model(r).pieces.push(RunPiece::Text(shown_text(text@))),
            size: run_model(r).size,
            bold: run_model(r).bold,
        }),
{
    r.add_text(text)
}

/// `Run::add_break`: appends a break (`TextWrapping` for a line break,
/// `Page` for a page break); the formatting stays.
#[verifier::external_body]
fn run_add_break(r: docx_rs::Run, kind: BreakKind) -> (out: docx_rs::Run)
    ensures
        run_model(out) == (RunModel {
            pieces: run_model(r).pieces.push(
                match kind {
                    BreakKind::Line => RunPiece::LineBreak,
                    BreakKind::Page => RunPiece::PageBreak,
                },
            ),
            size: run_model(r).size,
            bold: run_model(r).bold,
        }),
{
    match kind {
        BreakKind::Line => r.add_break(docx_rs::BreakType::TextWrapping),
        BreakKind::Page => r.add_break(docx_rs::BreakType::Page),
    }
}

/// `Run::add_image`: appends the picture; the formatting stays.
#[verifier::external_body]
fn run_add_image(r: docx_rs::Run, pic: docx_rs::Pic) -> (out: docx_rs::Run)
    ensures
        run_model(out) == (RunModel {
            pieces: run_model(r).pieces.push(pic_piece(pic)),
            size: run_model(r).size,
            bold: run_model(r).bold,
        }),
{
    r.add_image(pic)
}

/// `Run::size`: sets the font size; the pieces and the weight stay.
#[verifier::external_body]
fn run_size(r: docx_rs::Run, size: usize) -> (out: docx_rs::Run)
    ensures
        run_model(out) == (RunModel {
            pieces: run_model(r).pieces,
            size: Some(size as nat),
            bold: run_model(r).bold,
        }),
{
    r.size(size)
}

/// `Run::bold`: makes the run bold; the pieces and the size stay.
#[verifier::external_body]
fn run_bold(r: docx_rs::Run) -> (out: docx_rs::Run)
    ensures
        run_model(out) == (RunModel {
            pieces: run_model(r).pieces,
            size: run_model(r).size,
            bold: true,
        }),
{
    r.bold()
}

/// The largest picture side, in pixels, whose size in EMU (9525 per pixel)
/// fits in a `u32`.
pub open spec fn max_picture_px() -> int {
    450913
}

/// Every item's screenshot is small enough for `docx_rs` to measure in EMU.
pub open spec fn pictures_fit(items: Seq<PackItem>) -> bool {
    forall|k: int|
        0 <= k < items.len() ==> (#[trigger] items[k]).img_width <= max_picture_px()
            && items[k].img_height <= max_picture_px()
}

/// `Pic::new_with_dimensions`: a picture holding the PNG bytes `png`. The
/// crate turns both sides into EMU by multiplying by 9525 in `u32`, so they
/// must be at most 450913 pixels.
#[verifier::external_body]
fn new_pic(png: Vec<u8>, width_px: u32, height_px: u32) -> (p: docx_rs::Pic)
    requires
        width_px <= max_picture_px(),
        height_px <= max_picture_px(),
    ensures
        pic_piece(p) is Image,
        pic_piece(p)->png == png@,
{
    docx_rs::Pic::new_with_dimensions(png, width_px, height_px)
}

/// `Pic::size`: sets the size on the page in EMU; the bytes stay.
#[verifier::external_body]
fn pic_size(p: docx_rs::Pic, width_emu: u32, height_emu: u32) -> (out: docx_rs::Pic)
    requires
        pic_piece(p) is Image,
    ensures
        pic_piece(out) == (RunPiece::Image {
            png: pic_piece(p)->png,
            width_emu,
            height_emu,
        }),
{
    p.size(width_emu, height_emu)
}

/// `Paragraph::new`: an empty paragraph without alignment.
#[verifier::external_body]
fn new_paragraph() -> (p: docx_rs::Paragraph)
    ensures
        paragraph_model(p) == (ParagraphModel { centered: false, runs: Seq::empty() }),
{
    docx_rs::Paragraph::new()
}

/// `Paragraph::align` with `AlignmentType::Center`: centres the paragraph;
/// its runs stay.
#[verifier::external_body]
fn paragraph_center(p: docx_rs::Paragraph) -> (out: docx_rs::Paragraph)
    ensures
        paragraph_model(out) == (ParagraphModel { centered: true, runs: paragraph_model(p).runs }),
{
    p.align(docx_rs::AlignmentType::Center)
}

/// `Paragraph::add_run`: appends the run; the alignment stays.
#[verifier::external_body]
fn paragraph_add_run(p: docx_rs::Paragraph, r: docx_rs::Run) -> (out: docx_rs::Paragraph)
    ensures
        paragraph_model(out) == (ParagraphModel {
            centered: paragraph_model(p).centered,
            runs: paragraph_model(p).runs.push(run_model(r)),
        }),
{
    p.add_run(r)
}

/// `Docx::new`: a document without paragraphs.
#[verifier::external_body]
fn new_docx() -> (d: docx_rs::Docx)
    ensures
        docx_paragraphs(d) == Seq::<ParagraphModel>::empty(),
{
    docx_rs::Docx::new()
}

/// `Docx::add_paragraph`: appends the paragraph to the body.
#[verifier::external_body]
fn docx_add_paragraph(d: docx_rs::Docx, p: docx_rs::Paragraph) -> (out: docx_rs::Docx)
    ensures
        docx_paragraphs(out) == docx_paragraphs(d).push(paragraph_model(p)),
{
    d.add_paragraph(p)
}

/// `Docx::build` followed by `XMLDocx::pack` into memory: the bytes of the
/// DOCX archive, or `None` where packing fails. The archive's bytes are not
/// described here (they also hold identifiers that `docx_rs` numbers per
/// process).
#[verifier::external_body]
fn docx_archive(d: docx_rs::Docx) -> (bytes: Option<Vec<u8>>) {
    let mut cursor = std::io::Cursor::new(Vec::new());
    match d.build().pack(&mut cursor) {
        Ok(()) => Some(cursor.into_inner()),
        Err(_) => None,
    }
}

/// The width of every screenshot on the page: 600 pixels of 9525 EMU.
pub const PICTURE_WIDTH_EMU: u32 = 5715000;

/// The font size of the title, in half-points.
pub const TITLE_SIZE: usize = 48;

/// The font size of a file's heading, in half-points.
pub const HEADING_SIZE: usize = 36;

/// The pieces of a paragraph of lines: the lines' texts with a line break
/// between each two.
pub open spec fn lines_pieces(lines: Seq<Seq<char>>) -> Seq<RunPiece>
    decreases lines.len(),
{
    if lines.len() == 0 {
        Seq::empty()
    } else {
        let before = lines_pieces(lines.drop_last());
        let sep = if lines.len() > 1 {
            seq![RunPiece::LineBreak]
        } else {
            Seq::empty()
        };
        before + sep + seq![RunPiece::Text(shown_text(lines.last()))]
    }
}

/// A run that shows `t` in the given size and weight.
pub open spec fn text_run(t: Seq<char>, size: nat, bold: bool) -> RunModel {
    RunModel { pieces: seq![RunPiece::Text(shown_text(t))], size: Some(size), bold }
}

/// A run of the given pieces, in the default size and weight.
pub open spec fn plain_run(pieces: Seq<RunPiece>) -> RunModel {
    RunModel { pieces, size: None, bold: false }
}

/// A paragraph that is not centred.
pub open spec fn plain_paragraph(runs: Seq<RunModel>) -> ParagraphModel {
    ParagraphModel { centered: false, runs }
}

/// The paragraph that shows one block of the layout; `pngs` and `heights`
/// are the screenshots and their heights on the page (EMU), by item.
pub open spec fn block_paragraph(b: BlockView, pngs: Seq<Seq<u8>>, heights: Seq<u32>) -> ParagraphModel {
    match b {
        BlockView::Title(t) => ParagraphModel {
            centered: true,
            runs: seq![text_run(t, TITLE_SIZE as nat, false)],
        },
        BlockView::Lines(ls) => plain_paragraph(seq![plain_run(lines_pieces(ls))]),
        BlockView::Blank => plain_paragraph(Seq::empty()),
        BlockView::PageBreak => plain_paragraph(seq![plain_run(seq![RunPiece::PageBreak])]),
        BlockView::Heading(h) => plain_paragraph(seq![text_run(h, HEADING_SIZE as nat, true)]),
        BlockView::Image(i) => plain_paragraph(
            seq![
                plain_run(
                    seq![
                        RunPiece::LineBreak,
                        RunPiece::Image {
                            png: pngs[i as int],
                            width_emu: PICTURE_WIDTH_EMU,
                            height_emu: heights[i as int],
                        },
                    ],
                ),
            ],
        ),
    }
}

/// The screenshots of the items.
pub open spec fn item_pngs(items: Seq<PackItem>) -> Seq<Seq<u8>> {
    items.map_values(|it: PackItem| it.img_bytes@)
}

/// Every picture block of the files' part names an item that exists.
proof fn lemma_items_images(stems: Seq<Seq<char>>, contents: Seq<Seq<char>>, page_break: bool)
    ensures
        forall|k: int|
            0 <= k < items_blocks(stems, contents, page_break).len() && (#[trigger] items_blocks(
                stems,
                contents,
                page_break,
            )[k]) is Image ==> items_blocks(stems, contents, page_break)[k]->Image_0 < stems.len(),
    decreases stems.len(),
{
    if stems.len() > 0 {
        let n = (stems.len() - 1) as nat;
        lemma_items_images(stems.drop_last(), contents, page_break);
        let prev = items_blocks(stems.drop_last(), contents, page_break);
        let last = item_blocks(n, stems.last(), contents[n as int], page_break);
        let all = items_blocks(stems, contents, page_break);
        assert(all == prev + last);
        assert forall|k: int| 0 <= k < all.len() && (#[trigger] all[k]) is Image implies all[k]->Image_0
            < stems.len() by {
            if k < prev.len() {
                assert(all[k] == prev[k]);
            } else {
                assert(all[k] == last[k - prev.len()]);
            }
        }
    }
}

/// The run of a paragraph of lines.
fn lines_run(lines: &Vec<String>) -> (r: docx_rs::Run)
    ensures
        run_model(r) == plain_run(lines_pieces(lines@.map_values(|l: String| l@))),
{
    let ghost lv = lines@.map_values(|l: String| l@);
    let mut r = new_run();
    let mut i: usize = 0;
    while i < lines.len()
        invariant
            i <= lines@.len(),
            lv == lines@.map_values(|l: String| l@),
            run_model(r) == plain_run(lines_pieces(lv.take(i as int))),
        decreases lines@.len() - i,
    {
        proof {
            assert(lv.take(i + 1).drop_last() =~= lv.take(i as int));
            assert(lv.take(i + 1).last() == lines@[i as int]@);
        }
        if i > 0 {
            r = run_add_break(r, BreakKind::Line);
        }
        r = run_add_text(r, lines[i].as_str());
        proof {
            let tk = lv.take(i + 1);
            let before = lines_pieces(lv.take(i as int));
            if i > 0 {
                assert(lines_pieces(tk) =~= before.push(RunPiece::LineBreak).push(
                    RunPiece::Text(shown_text(lines@[i as int]@)),
                ));
            } else {
                assert(lines_pieces(tk) =~= before.push(RunPiece::Text(shown_text(lines@[i as int]@))));
            }
        }
        i += 1;
    }
    proof {
        assert(lv.take(i as int) =~= lv);
    }
    r
}

/// The paragraph that shows block `b`.
fn block_docx_paragraph(b: &DocBlock, items: &[PackItem], heights: &[u32]) -> (p: docx_rs::Paragraph)
    requires
        heights@.len() == items@.len(),
        pictures_fit(items@),
        block_view(*b) is Image ==> block_view(*b)->Image_0 < items@.len(),
    ensures
        paragraph_model(p) == block_paragraph(block_view(*b), item_pngs(items@), heights@),
{
    match b {
        DocBlock::Title(t) => {
            let r = run_size(run_add_text(new_run(), t.as_str()), TITLE_SIZE);
            let p = paragraph_add_run(paragraph_center(new_paragraph()), r);
            proof {
                assert(paragraph_model(p).runs =~= seq![text_run(t@, TITLE_SIZE as nat, false)]);
            }
            p
        },
        DocBlock::Lines(ls) => {
            let p = paragraph_add_run(new_paragraph(), lines_run(ls));
            proof {
                assert(paragraph_model(p).runs =~= seq![
                    plain_run(lines_pieces(ls@.map_values(|l: String| l@))),
                ]);
            }
            p
        },
        DocBlock::Blank => new_paragraph(),
        DocBlock::PageBreak => {
            let r = run_add_break(new_run(), BreakKind::Page);
            proof {
                assert(run_model(r).pieces =~= seq![RunPiece::PageBreak]);
            }
            let p = paragraph_add_run(new_paragraph(), r);
            proof {
                assert(paragraph_model(p).runs =~= seq![plain_run(seq![RunPiece::PageBreak])]);
            }
            p
        },
        DocBlock::Heading(h) => {
            let r = run_bold(run_size(run_add_text(new_run(), h.as_str()), HEADING_SIZE));
            let p = paragraph_add_run(new_paragraph(), r);
            proof {
                assert(paragraph_model(p).runs =~= seq![text_run(h@, HEADING_SIZE as nat, true)]);
            }
            p
        },
        DocBlock::Image(i) => {
            let item = &items[*i];
            let png = item.img_bytes.clone();
            proof {
                assert(png@ =~= item.img_bytes@);
                assert(items@[*i as int] == *item);
            }
            let pic = pic_size(new_pic(png, item.img_width, item.img_height), PICTURE_WIDTH_EMU, heights[*i]);
            let r = run_add_image(run_add_break(new_run(), BreakKind::Line), pic);
            let p = paragraph_add_run(new_paragraph(), r);
            proof {
                assert(item_pngs(items@)[*i as int] == items@[*i as int].img_bytes@);
                assert(run_model(r).pieces =~= seq![
                    RunPiece::LineBreak,
                    RunPiece::Image {
                        png: item.img_bytes@,
                        width_emu: PICTURE_WIDTH_EMU,
                        height_emu: heights@[*i as int],
                    },
                ]);
                assert(paragraph_model(p).runs =~= seq![run_model(r)]);
            }
            p
        },
    }
}

/// The layout of the packed document, as the paragraphs of a Word document.
pub open spec fn document_paragraphs(
    doc_title: Seq<char>,
    doc_text: Option<Seq<char>>,
    items: Seq<PackItem>,
    stems: Seq<Seq<char>>,
    page_break: bool,
    heights: Seq<u32>,
) -> Seq<ParagraphModel> {
    layout_spec(doc_title, doc_text, stems, items.map_values(|it: PackItem| it.content@), page_break).map_values(
        |b: BlockView| block_paragraph(b, item_pngs(items), heights),
    )
}

/// The Word document for `items`, whose names without extension are
/// `stems` and whose screenshots are `heights[i]` EMU high on the page.
pub fn document_docx(
    doc_title: &str,
    doc_text: Option<&str>,
    items: &[PackItem],
    stems: &[String],
    page_break: bool,
    heights: &[u32],
) -> (d: docx_rs::Docx)
    requires
        stems@.len() == items@.len(),
        heights@.len() == items@.len(),
        pictures_fit(items@),
    ensures
        docx_paragraphs(d) == document_paragraphs(
            doc_title@,
            match doc_text {
                Some(t) => Some(t@),
                None => None,
            },
            items@,
            stems@.map_values(|s: String| s@),
            page_break,
            heights@,
        ),
{
    let blocks = document_layout(doc_title, doc_text, items, stems, page_break);
    let ghost tv = match doc_text {
        Some(t) => Some(t@),
        None => None,
    };
    let ghost sv = stems@.map_values(|s: String| s@);
    let ghost cv = items@.map_values(|it: PackItem| it.content@);
    let ghost bv = blocks_view(blocks@);
    let ghost want = document_paragraphs(doc_title@, tv, items@, sv, page_break, heights@);
    proof {
        lemma_items_images(sv, cv, page_break);
        let ib = items_blocks(sv, cv, page_break);
        let pre = layout_spec(doc_title@, tv, Seq::empty(), cv, page_break);
        assert(items_blocks(Seq::empty(), cv, page_break) =~= Seq::<BlockView>::empty());
        assert(bv =~= pre + ib);
        assert forall|k: int| 0 <= k < bv.len() && (#[trigger] bv[k]) is Image implies bv[k]->Image_0
            < items@.len() by {
            if k >= pre.len() {
                assert(bv[k] == ib[k - pre.len()]);
            } else {
                assert(bv[k] == pre[k]);
            }
        }
    }
    let mut d = new_docx();
    let mut k: usize = 0;
    while k < blocks.len()
        invariant
            k <= blocks@.len(),
            heights@.len() == items@.len(),
            pictures_fit(items@),
            bv == blocks_view(blocks@),
            want == bv.map_values(|b: BlockView| block_paragraph(b, item_pngs(items@), heights@)),
            forall|j: int| 0 <= j < bv.len() && (#[trigger] bv[j]) is Image ==> bv[j]->Image_0 < items@.len(),
            docx_paragraphs(d) == want.take(k as int),
        decreases blocks@.len() - k,
    {
        proof {
            assert(bv[k as int] == block_view(blocks@[k as int]));
        }
        let p = block_docx_paragraph(&blocks[k], items, heights);
        d = docx_add_paragraph(d, p);
        proof {
            assert(want.take(k + 1) =~= want.take(k as int).push(want[k as int]));
        }
        k += 1;
    }
    proof {
        assert(want.take(k as int) =~= want);
    }
    d
}

/// The DOCX archive of the packed document (see [`document_docx`]), or
/// `None` where `docx_rs` fails to pack it.
pub fn document_archive(
    doc_title: &str,
    doc_text: Option<&str>,
    items: &[PackItem],
    stems: &[String],
    page_break: bool,
    heights: &[u32],
) -> (bytes: Option<Vec<u8>>)
    requires
        stems@.len() == items@.len(),
        heights@.len() == items@.len(),
        pictures_fit(items@),
{
    docx_archive(document_docx(doc_title, doc_text, items, stems, page_break, heights))
}

} // verus!
