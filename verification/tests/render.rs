use notion_api::block::{Block, BlockElement, Status};
use notion_api::run::FragmentText;
use notion_api::text::{AnnoColor, Annotation, BlockType};

fn run(text: &str, annotations: Vec<Annotation>) -> FragmentText {
    FragmentText { text: text.to_string(), link: None, annotations }
}

fn block(kind: BlockType, text: &str) -> BlockElement {
    BlockElement::from_text(kind, text.to_string())
}

#[test]
fn bold_and_italic_use_distinct_delimiters() {
    let r = run("hi", vec![Annotation::Bold, Annotation::Italic]);
    assert_eq!(r.render(), "**_hi_**");
    let r = run("hi", vec![Annotation::Italic, Annotation::Bold]);
    assert_eq!(r.render(), "**_hi_**");
}

#[test]
fn single_styles_use_their_first_form() {
    assert_eq!(run("hi", vec![Annotation::Bold]).render(), "**hi**");
    assert_eq!(run("hi", vec![Annotation::Italic]).render(), "*hi*");
    assert_eq!(run("hi", vec![Annotation::Strikethrough]).render(), "<del>hi</del>");
    assert_eq!(run("hi", vec![Annotation::Underline]).render(), "<u>hi</u>");
    assert_eq!(run("hi", vec![Annotation::Code]).render(), "`hi`");
    assert_eq!(run("hi", vec![]).render(), "hi");
}

#[test]
fn colour_wraps_innermost_and_default_is_no_op() {
    let r = run("hi", vec![Annotation::Color(AnnoColor::Red), Annotation::Bold]);
    assert_eq!(r.render(), "**<font color=red>hi</font>**");
    let r = run("hi", vec![Annotation::Color(AnnoColor::BlueBackground)]);
    assert_eq!(r.render(), "<font style=background:blue>hi</font>");
    let r = run("hi", vec![Annotation::Color(AnnoColor::Default), Annotation::Code]);
    assert_eq!(r.render(), "`hi`");
}

#[test]
fn all_styles_nest_in_canonical_order() {
    let r = run(
        "t",
        vec![
            Annotation::Color(AnnoColor::Green),
            Annotation::Underline,
            Annotation::Strikethrough,
            Annotation::Italic,
            Annotation::Bold,
            Annotation::Code,
        ],
    );
    assert_eq!(r.render(), "`**_<del><u><font color=green>t</font></u></del>_**`");
}

#[test]
fn divider_renders_its_template_whatever_its_runs() {
    let mut d = BlockElement::from_type(BlockType::Divider);
    assert_eq!(d.render(), "---");
    d.runs.push(run("ignored", vec![Annotation::Bold]));
    assert_eq!(d.render(), "---");
}

#[test]
fn divider_leaves_its_children_out() {
    let mut d = BlockElement::from_type(BlockType::Divider);
    d.children.push(block(BlockType::BulletedListItem, "x"));
    assert_eq!(d.render(), "---");
    d.runs.push(run("ignored", vec![]));
    d.status = Status::Text("s".to_string());
    assert_eq!(d.render(), "---");
    d.color = AnnoColor::Red;
    assert_eq!(d.render(), "<font color=red>---</font>");
}

#[test]
fn block_without_text_renders_as_line_break() {
    let p = BlockElement::from_type(BlockType::Paragraph);
    assert_eq!(p.render(), "<br/>");
    let mut q = BlockElement::from_type(BlockType::Quote);
    q.color = AnnoColor::Red;
    q.children.push(block(BlockType::Paragraph, "x"));
    assert_eq!(q.render(), "<br/>");
}

#[test]
fn adjacent_list_items_are_parted_by_one_line_break() {
    let d = Block {
        inner: vec![block(BlockType::BulletedListItem, "a"), block(BlockType::BulletedListItem, "b")],
    };
    assert_eq!(d.render(), "* a\n* b");
}

#[test]
fn list_item_and_paragraph_are_parted_by_a_blank_line() {
    let d = Block {
        inner: vec![block(BlockType::BulletedListItem, "a"), block(BlockType::Paragraph, "b")],
    };
    assert_eq!(d.render(), "* a\n\nb");
}

#[test]
fn toggle_takes_its_child_in_place() {
    let mut t = block(BlockType::Toggle, "Q");
    t.children.push(block(BlockType::Paragraph, "A"));
    assert_eq!(t.render(), "<details><summary>Q</summary>A</details>");
}

#[test]
fn templates_of_the_kinds() {
    assert_eq!(block(BlockType::Paragraph, "t").render(), "t");
    assert_eq!(block(BlockType::Heading1, "t").render(), "# t");
    assert_eq!(block(BlockType::Heading2, "t").render(), "## t");
    assert_eq!(block(BlockType::Heading3, "t").render(), "### t");
    assert_eq!(block(BlockType::BulletedListItem, "t").render(), "* t");
    assert_eq!(block(BlockType::NumberedListItem, "t").render(), "1. t");
    assert_eq!(block(BlockType::Quote, "t").render(), "> t");
    assert_eq!(block(BlockType::Equation, "t").render(), "$$t$$");
    assert_eq!(block(BlockType::Toggle, "t").render(), "<details><summary>t</summary>{child}</details>");
    assert_eq!(block(BlockType::Image, "t").render(), "![t]({file})");
    assert_eq!(block(BlockType::Bookmark, "t").render(), "t");
}

#[test]
fn status_goes_into_the_template() {
    let mut t = block(BlockType::ToDo, "task");
    t.status = Status::Flag(true);
    assert_eq!(t.render(), "- [x] task");
    t.status = Status::Flag(false);
    assert_eq!(t.render(), "- [ ] task");
    let mut c = block(BlockType::Code, "let x = 1;");
    c.status = Status::Text("rust".to_string());
    assert_eq!(c.render(), "```rust\nlet x = 1;\n```");
    let mut a = block(BlockType::Callout, "note");
    a.status = Status::Text("!".to_string());
    assert_eq!(a.render(), "<aside>!note</aside>");
    a.status = Status::Empty;
    assert_eq!(a.render(), "<aside>note</aside>");
}

#[test]
fn quote_and_callout_turn_line_breaks_into_markers() {
    assert_eq!(block(BlockType::Quote, "a\nb").render(), "> a<br/>b");
    assert_eq!(block(BlockType::Callout, "a\nb").render(), "<aside>a<br/>b</aside>");
    assert_eq!(block(BlockType::Paragraph, "a\nb").render(), "a\nb");
}

#[test]
fn children_are_indented_as_the_kind_asks() {
    let mut b = block(BlockType::BulletedListItem, "a");
    b.children.push(block(BlockType::BulletedListItem, "b"));
    b.children.push(block(BlockType::BulletedListItem, "c"));
    assert_eq!(b.render(), "* a\n\t* b\n\t* c");

    let mut p = block(BlockType::Paragraph, "a");
    p.children.push(block(BlockType::Paragraph, "b"));
    p.children.push(block(BlockType::Paragraph, "c"));
    assert_eq!(p.render(), "a\n\n\tb\n\t\n\tc");

    let mut q = block(BlockType::Quote, "a");
    q.children.push(block(BlockType::BulletedListItem, "b"));
    q.children.push(block(BlockType::BulletedListItem, "c"));
    assert_eq!(q.render(), "> a\n>* b\n>* c");

    let mut h = block(BlockType::Heading2, "a");
    h.children.push(block(BlockType::Paragraph, "b"));
    h.children.push(block(BlockType::BulletedListItem, "c"));
    assert_eq!(h.render(), "## a\n\nb\n\n* c");
}

#[test]
fn colour_wraps_the_whole_block() {
    let mut p = block(BlockType::Paragraph, "a");
    p.color = AnnoColor::Red;
    assert_eq!(p.render(), "<font color=red>a</font>");
    p.color = AnnoColor::YellowBackground;
    p.children.push(block(BlockType::Paragraph, "b"));
    assert_eq!(p.render(), "<font style=background:yellow>a\n\n\tb</font>");
}

#[test]
fn document_is_trimmed_at_both_ends() {
    let d = Block {
        inner: vec![block(BlockType::Paragraph, "  a"), block(BlockType::Paragraph, "b \n")],
    };
    assert_eq!(d.render(), "a\n\nb");
    assert_eq!(Block::default().render(), "");
}

#[test]
fn rendering_twice_gives_the_same_text() {
    let mut t = block(BlockType::Toggle, "Q");
    t.children.push(block(BlockType::Paragraph, "A"));
    let d = Block { inner: vec![t, block(BlockType::Code, "c")] };
    assert_eq!(d.render(), d.render());
}
