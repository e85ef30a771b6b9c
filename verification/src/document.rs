//! The layout of the packed document: its title and description, then for
//! each file a numbered heading, the code, and the screenshot.
use vstd::prelude::*;
use crate::text::{decimal, push_decimal, owned, replace_all, replace_str, split_char, split_str};

verus! {

/// One packed file: its name relative to the folder, its text, and its
/// screenshot as PNG bytes with the picture's size in pixels.
pub struct PackItem {
    pub filename: String,
    pub content: String,
    pub img_bytes: Vec<u8>,
    pub img_width: u32,
    pub img_height: u32,
}

/// A paragraph of the document.
pub enum DocBlock {
    /// The centred title, in large type.
    Title(String),
    /// Lines of text in one paragraph, separated by line breaks.
    Lines(Vec<String>),
    /// An empty paragraph.
    Blank,
    /// A page break.
    PageBreak,
    /// A file's heading, in bold.
    Heading(String),
    /// The screenshot of the item at this position, after a line break.
    Image(usize),
}

/// The mathematical value of a [`DocBlock`].
pub enum BlockView {
    Title(Seq<char>),
    Lines(Seq<Seq<char>>),
    Blank,
    PageBreak,
    Heading(Seq<char>),
    Image(nat),
}

pub open spec fn block_view(b: DocBlock) -> BlockView {
    match b {
        DocBlock::Title(t) => BlockView::Title(t@),
        DocBlock::Lines(ls) => BlockView::Lines(ls@.map_values(|l: String| l@)),
        DocBlock::Blank => BlockView::Blank,
        DocBlock::PageBreak => BlockView::PageBreak,
        DocBlock::Heading(h) => BlockView::Heading(h@),
        DocBlock::Image(i) => BlockView::Image(i as nat),
    }
}

pub open spec fn blocks_view(bs: Seq<DocBlock>) -> Seq<BlockView> {
    bs.map_values(|b: DocBlock| block_view(b))
}

/// The heading of the `i`-th file (counting from zero): its number from one,
/// a dot, and its name without extension.
pub open spec fn heading_text(i: nat, stem: Seq<char>) -> Seq<char> {
    decimal(i + 1) + ". "@ + stem
}

/// The blocks of the `i`-th file: a separator before every file but the
/// first (a page break or an empty paragraph), the heading, the code, and the
/// screenshot.
pub open spec fn item_blocks(i: nat, stem: Seq<char>, content: Seq<char>, page_break: bool) -> Seq<
    BlockView,
> {
    let sep = if i == 0 {
        Seq::empty()
    } else if page_break {
        seq![BlockView::PageBreak]
    } else {
        seq![BlockView::Blank]
    };
    sep + seq![
        BlockView::Heading(heading_text(i, stem)),
        BlockView::Lines(split_char(content, '\n')),
        BlockView::Image(i),
    ]
}

pub open spec fn items_blocks(stems: Seq<Seq<char>>, contents: Seq<Seq<char>>, page_break: bool) -> Seq<
    BlockView,
>
    decreases stems.len(),
{
    if stems.len() == 0 {
        Seq::empty()
    } else {
        items_blocks(stems.drop_last(), contents, page_break) + item_blocks(
            (stems.len() - 1) as nat,
            stems.last(),
            contents[stems.len() - 1],
            page_break,
        )
    }
}

/// The description's lines: the escape `\n` counts as a line break too.
pub open spec fn description_lines(text: Seq<char>) -> Seq<Seq<char>> {
    split_char(replace_all(text, "\\n"@, "\n"@), '\n')
}

/// The whole document: title, description with an empty paragraph after it
/// (when there is one), then the files.
pub open spec fn layout_spec(
    title: Seq<char>,
    text: Option<Seq<char>>,
    stems: Seq<Seq<char>>,
    contents: Seq<Seq<char>>,
    page_break: bool,
) -> Seq<BlockView> {
    let head = seq![BlockView::Title(title)];
    let desc = match text {
        Some(t) => seq![BlockView::Lines(description_lines(t)), BlockView::Blank],
        None => Seq::empty(),
    };
    head + desc + items_blocks(stems, contents, page_break)
}

/// The paragraphs of the document for `items`, whose names without extension
/// are `stems`.
pub fn document_layout(
    doc_title: &str,
    doc_text: Option<&str>,
    items: &[PackItem],
    stems: &[String],
    page_break: bool,
) -> (blocks: Vec<DocBlock>)
    requires
        stems@.len() == items@.len(),
    ensures
        blocks_view(blocks@) == layout_spec(
            doc_title@,
            match doc_text {
                Some(t) => Some(t@),
                None => None,
            },
            stems@.map_values(|s: String| s@),
            items@.map_values(|it: PackItem| it.content@),
            page_break,
        ),
{
    let ghost sv = stems@.map_values(|s: String| s@);
    let ghost cv = items@.map_values(|it: PackItem| it.content@);
    let mut blocks: Vec<DocBlock> = Vec::new();
    blocks.push(DocBlock::Title(owned(doc_title)));
    match doc_text {
        Some(t) => {
            proof {
                reveal_strlit("\\n");
            }
            let text = replace_str(t, "\\n", "\n");
            let lines = split_str(text.as_str(), '\n');
            let ghost lv = lines@;
            blocks.push(DocBlock::Lines(lines));
            blocks.push(DocBlock::Blank);
            proof {
                assert(lv.map_values(|l: String| l@) =~= description_lines(t@));
            }
        },
        None => {},
    }
    let ghost head = blocks_view(blocks@);
    proof {
        assert(head =~= layout_spec(
            doc_title@,
            match doc_text {
                Some(t) => Some(t@),
                None => None,
            },
            Seq::empty(),
            cv,
            page_break,
        ));
    }
    let mut i: usize = 0;
    while i < items.len()
        invariant
            i <= items@.len(),
            stems@.len() == items@.len(),
            sv == stems@.map_values(|s: String| s@),
            cv == items@.map_values(|it: PackItem| it.content@),
            blocks_view(blocks@) == head + items_blocks(sv.take(i as int), cv, page_break),
        decreases items@.len() - i,
    {
        let ghost before = blocks@;
        if i > 0 {
            if page_break {
                blocks.push(DocBlock::PageBreak);
            } else {
                blocks.push(DocBlock::Blank);
            }
        }
        let ghost mid0 = blocks@;
        let mut heading = String::new();
        push_decimal(&mut heading, i + 1);
        heading.append(". ");
        heading.append(stems[i].as_str());
        blocks.push(DocBlock::Heading(heading));
        let lines = split_str(items[i].content.as_str(), '\n');
        proof {
            assert(lines@.map_values(|l: String| l@) =~= split_char(items@[i as int].content@, '\n'));
            assert(heading@ == heading_text(i as nat, stems@[i as int]@));
        }
        blocks.push(DocBlock::Lines(lines));
        blocks.push(DocBlock::Image(i));
        proof {
            let st = sv.take(i + 1);
            assert(st.drop_last() =~= sv.take(i as int));
            assert(st.last() == stems@[i as int]@);
            assert(cv[i as int] == items@[i as int].content@);
            if i > 0 {
                assert(blocks_view(mid0) =~= blocks_view(before).push(
                    if page_break {
                        BlockView::PageBreak
                    } else {
                        BlockView::Blank
                    },
                ));
            }
            assert(blocks_view(blocks@) =~= blocks_view(before) + item_blocks(
                i as nat,
                stems@[i as int]@,
                cv[i as int],
                page_break,
            ));
        }
        i += 1;
    }
    proof {
        assert(sv.take(i as int) =~= sv);
        assert(sv.len() == items@.len());
    }
    blocks
}

} // verus!
