use notion_api::block::{Block, BlockElement, Status};
use notion_api::error::{CommErr, PopulateErr};
use notion_api::json::Json;
use notion_api::run::{in_order, FragmentText};
use notion_api::text::{AnnoColor, Annotation, BlockType};

fn to_json(v: &serde_json::Value) -> Json {
    match v {
        serde_json::Value::Null => Json::Null,
        serde_json::Value::Bool(b) => Json::Bool(*b),
        serde_json::Value::Number(n) => Json::Number(n.to_string(), n.to_string()),
        serde_json::Value::String(s) => Json::Text(s.clone()),
        serde_json::Value::Array(a) => Json::Array(a.iter().map(to_json).collect()),
        serde_json::Value::Object(o) => {
            Json::Object(o.iter().map(|(k, v)| (k.clone(), to_json(v))).collect())
        }
    }
}

fn raw(text: &str) -> Json {
    to_json(&serde_json::from_str::<serde_json::Value>(text).unwrap())
}

fn missing(name: &str) -> CommErr {
    CommErr::MissingField(name.to_string())
}

fn wrong(name: &str) -> CommErr {
    CommErr::WrongFieldType(name.to_string())
}

const PLAIN_RUN: &str = r#"{"plain_text": "hello", "href": null, "annotations": {"bold": false, "italic": false, "strikethrough": false, "underline": false, "code": false, "color": "default"}}"#;

#[test]
fn kinds_are_read_from_their_tags() {
    assert_eq!(BlockType::from_str("paragraph"), Ok(BlockType::Paragraph));
    assert_eq!(BlockType::from_str("heading_1"), Ok(BlockType::Heading1));
    assert_eq!(BlockType::from_str("heading_3"), Ok(BlockType::Heading3));
    assert_eq!(BlockType::from_str("to_do"), Ok(BlockType::ToDo));
    assert_eq!(BlockType::from_str("table_of_contents"), Ok(BlockType::TableOfContents));
    assert_eq!(BlockType::from_str("unsupported"), Ok(BlockType::Unsupported));
    assert_eq!(
        BlockType::from_str("heading1"),
        Err(CommErr::UnsupportedKind("heading1".to_string()))
    );
    assert_eq!(
        BlockType::from_str("Paragraph"),
        Err(CommErr::UnsupportedKind("Paragraph".to_string()))
    );
    assert_eq!(BlockType::from_str(""), Err(CommErr::UnsupportedKind(String::new())));
    assert_eq!(BlockType::BulletedListItem.to_str(), "bulleted_list_item");
    assert_eq!(BlockType::from_str(BlockType::LinkToPage.to_str()), Ok(BlockType::LinkToPage));
    assert!(BlockType::Divider.be_empty());
    assert!(!BlockType::Paragraph.be_empty());
    assert!(BlockType::ToDo.tight());
    assert!(!BlockType::Quote.tight());
}

#[test]
fn colours_and_annotations_are_read_from_their_names() {
    assert_eq!(AnnoColor::from_str("default"), Ok(AnnoColor::Default));
    assert_eq!(AnnoColor::from_str("blue_background"), Ok(AnnoColor::BlueBackground));
    assert_eq!(AnnoColor::from_str("yellow"), Ok(AnnoColor::Yellow));
    assert_eq!(AnnoColor::from_str("teal"), Err(CommErr::UnsupportedKind("teal".to_string())));
    assert_eq!(AnnoColor::Gray.md(), "color=gray");
    assert_eq!(AnnoColor::PinkBackground.md(), "style=background:pink");
    assert_eq!(AnnoColor::Default.md(), "");
    assert_eq!(AnnoColor::default(), AnnoColor::Default);
    assert_eq!(Annotation::from_str("bold"), Ok(Annotation::Bold));
    assert_eq!(Annotation::from_str("code"), Ok(Annotation::Code));
    assert_eq!(Annotation::from_str("color"), Ok(Annotation::Color(AnnoColor::Default)));
    assert_eq!(Annotation::from_str("blink"), Err(CommErr::UnsupportedKind("blink".to_string())));
    assert_eq!(
        Annotation::Color(AnnoColor::Default).reset_val("red"),
        Annotation::Color(AnnoColor::Red)
    );
    assert_eq!(
        Annotation::Color(AnnoColor::Red).reset_val("no colour"),
        Annotation::Color(AnnoColor::Default)
    );
    assert_eq!(Annotation::Bold.reset_val("red"), Annotation::Bold);
}

#[test]
fn sort_puts_annotations_in_canonical_order() {
    let mut list = vec![
        Annotation::Color(AnnoColor::Red),
        Annotation::Underline,
        Annotation::Italic,
        Annotation::Code,
        Annotation::Color(AnnoColor::Blue),
        Annotation::Strikethrough,
        Annotation::Bold,
    ];
    Annotation::sort(&mut list);
    assert_eq!(
        list,
        vec![
            Annotation::Code,
            Annotation::Bold,
            Annotation::Italic,
            Annotation::Strikethrough,
            Annotation::Underline,
            Annotation::Color(AnnoColor::Red),
            Annotation::Color(AnnoColor::Blue),
        ]
    );
    assert_eq!(Annotation::Code.get_serial_num(), 0);
    assert_eq!(Annotation::Color(AnnoColor::Pink).get_serial_num(), 5);
    assert_eq!(in_order(&vec![Annotation::Italic, Annotation::Bold]), vec![
        Annotation::Bold,
        Annotation::Italic
    ]);
    let mut empty: Vec<Annotation> = vec![];
    Annotation::sort(&mut empty);
    assert!(empty.is_empty());
}

#[test]
fn order_of_discovery_does_not_change_the_markup() {
    let a = FragmentText {
        text: "t".to_string(),
        link: None,
        annotations: vec![Annotation::Underline, Annotation::Bold, Annotation::Code],
    };
    let b = FragmentText {
        text: "t".to_string(),
        link: None,
        annotations: vec![Annotation::Code, Annotation::Underline, Annotation::Bold],
    };
    assert_eq!(a.render(), b.render());
    assert_eq!(a.render(), "`**<u>t</u>**`");
}

#[test]
fn run_is_read_with_its_annotations_in_order() {
    let r = FragmentText::new(&raw(
        r#"{"plain_text": "hi", "href": "https://x", "annotations": {"underline": true, "bold": true, "italic": false, "color": "red", "code": true, "blink": true, "strikethrough": "yes"}}"#,
    ))
    .unwrap();
    assert_eq!(r.text, "hi");
    assert_eq!(r.link, Some("https://x".to_string()));
    assert_eq!(
        r.annotations,
        vec![
            Annotation::Code,
            Annotation::Bold,
            Annotation::Underline,
            Annotation::Color(AnnoColor::Red)
        ]
    );
    assert_eq!(r.render(), "`**<u><font color=red>hi</font></u>**`");
}

#[test]
fn run_needs_annotations_and_plain_text() {
    assert_eq!(
        FragmentText::new(&raw(r#"{"plain_text": "hi"}"#)),
        Err(missing("annotations"))
    );
    assert_eq!(
        FragmentText::new(&raw(r#"{"annotations": {}}"#)),
        Err(missing("plain_text"))
    );
    assert_eq!(FragmentText::new(&raw(r#"{}"#)), Err(missing("annotations")));
    assert_eq!(
        FragmentText::new(&raw(r#"{"plain_text": 5, "annotations": {}}"#)),
        Err(wrong("plain_text"))
    );
    let lenient = FragmentText::new(&raw(
        r#"{"plain_text": "", "href": 7, "annotations": ["bold"]}"#,
    ))
    .unwrap();
    assert_eq!(lenient.text, "");
    assert_eq!(lenient.link, None);
    assert!(lenient.annotations.is_empty());
    let odd_colour =
        FragmentText::new(&raw(r#"{"plain_text": "x", "annotations": {"color": "teal"}}"#))
            .unwrap();
    assert!(odd_colour.annotations.is_empty());
    let default_colour =
        FragmentText::new(&raw(r#"{"plain_text": "x", "annotations": {"color": "default"}}"#))
            .unwrap();
    assert_eq!(default_colour.annotations, vec![Annotation::Color(AnnoColor::Default)]);
    assert_eq!(default_colour.render(), "x");
}

#[test]
fn annotation_named_twice_counts_once() {
    let text = |t: &str| Json::Text(t.to_string());
    let entry = Json::Object(vec![
        ("plain_text".to_string(), text("hi")),
        (
            "annotations".to_string(),
            Json::Object(vec![
                ("bold".to_string(), Json::Bool(true)),
                ("color".to_string(), text("red")),
                ("bold".to_string(), Json::Bool(true)),
                ("italic".to_string(), Json::Bool(false)),
                ("color".to_string(), text("blue")),
                ("italic".to_string(), Json::Bool(true)),
            ]),
        ),
    ]);
    let r = FragmentText::new(&entry).unwrap();
    assert_eq!(r.annotations, vec![Annotation::Bold, Annotation::Color(AnnoColor::Red)]);
    assert_eq!(r.render(), "**<font color=red>hi</font>**");
}

#[test]
fn paragraph_is_read_from_its_raw_node() {
    let text = format!(
        r#"{{"id": "b1", "type": "paragraph", "has_children": false, "paragraph": {{"rich_text": [{}], "color": "blue"}}}}"#,
        PLAIN_RUN
    );
    let b = BlockElement::new(&raw(&text)).unwrap();
    assert_eq!(b.id, "b1");
    assert_eq!(b.kind, BlockType::Paragraph);
    assert_eq!(b.runs.len(), 1);
    assert_eq!(b.runs[0].text, "hello");
    assert_eq!(b.color, AnnoColor::Blue);
    assert_eq!(b.status, Status::Empty);
    assert!(b.children.is_empty());
    assert!(b.children_loaded);
    assert_eq!(b.render(), "<font color=blue>hello</font>");
}

#[test]
fn paragraph_without_rich_text_is_refused() {
    let b = BlockElement::new(&raw(
        r#"{"id": "b1", "type": "paragraph", "has_children": false, "paragraph": {"color": "default"}}"#,
    ));
    assert_eq!(b, Err(CommErr::UnsupportedFormat));
    let empty = BlockElement::new(&raw(
        r#"{"id": "b1", "type": "paragraph", "has_children": false, "paragraph": {"rich_text": []}}"#,
    ))
    .unwrap();
    assert!(empty.runs.is_empty());
    assert_eq!(empty.render(), "<br/>");
}

#[test]
fn block_errors_name_what_is_wrong() {
    assert_eq!(BlockElement::new(&raw(r#"{"id": "b"}"#)), Err(missing("type")));
    assert_eq!(
        BlockElement::new(&raw(r#"{"type": "hologram", "hologram": {}}"#)),
        Err(CommErr::UnsupportedKind("hologram".to_string()))
    );
    assert_eq!(BlockElement::new(&raw(r#"{"type": 5}"#)), Err(wrong("type")));
    assert_eq!(
        BlockElement::new(&raw(r#"{"type": ""}"#)),
        Err(CommErr::UnsupportedKind(String::new()))
    );
    assert_eq!(
        BlockElement::new(&raw(
            r#"{"id": 5, "type": "quote", "has_children": true, "quote": {"rich_text": []}}"#
        )),
        Err(wrong("id"))
    );
    assert_eq!(
        BlockElement::new(&raw(r#"{"type": "equation", "equation": {"expression": 5}}"#)),
        Err(wrong("expression"))
    );
    assert_eq!(BlockElement::new(&raw(r#"{"type": "quote"}"#)), Err(missing("quote")));
    assert_eq!(
        BlockElement::new(&raw(r#"{"type": "quote", "quote": {"rich_text": {}}}"#)),
        Err(wrong("rich_text"))
    );
    assert_eq!(
        BlockElement::new(&raw(r#"{"type": "quote", "quote": {"rich_text": [{}]}}"#)),
        Err(missing("annotations"))
    );
    assert_eq!(
        BlockElement::new(&raw(r#"{"type": "quote", "quote": {"rich_text": []}}"#)),
        Err(missing("has_children"))
    );
    assert_eq!(
        BlockElement::new(&raw(
            r#"{"type": "quote", "has_children": "no", "quote": {"rich_text": []}}"#
        )),
        Err(wrong("has_children"))
    );
    assert_eq!(
        BlockElement::new(&raw(
            r#"{"type": "quote", "has_children": true, "quote": {"rich_text": []}}"#
        )),
        Err(missing("id"))
    );
    assert_eq!(
        BlockElement::new(&raw(
            r#"{"type": "to_do", "has_children": false, "to_do": {"rich_text": []}}"#
        )),
        Err(missing("checked"))
    );
    assert_eq!(
        BlockElement::new(&raw(
            r#"{"type": "code", "has_children": false, "code": {"rich_text": [], "language": 5}}"#
        )),
        Err(wrong("language"))
    );
    assert_eq!(
        BlockElement::new(&raw(
            r#"{"type": "heading_2", "has_children": false, "heading_2": {"rich_text": []}}"#
        )),
        Err(missing("is_toggleable"))
    );
    assert_eq!(
        BlockElement::new(&raw(r#"{"type": "equation", "equation": {}}"#)),
        Err(missing("expression"))
    );
    assert_eq!(
        BlockElement::new(&raw(r#"{"type": "image", "has_children": false, "image": {}}"#)),
        Err(CommErr::UnsupportedFormat)
    );
}

#[test]
fn divider_and_equation_are_read_at_once() {
    let d = BlockElement::new(&raw(r#"{"id": "d", "type": "divider"}"#)).unwrap();
    assert_eq!(d.kind, BlockType::Divider);
    assert_eq!(d.id, "d");
    assert!(d.runs.is_empty() && d.children.is_empty() && d.children_loaded);
    assert_eq!(d.render(), "---");
    let e = BlockElement::new(&raw(
        r#"{"type": "equation", "has_children": true, "equation": {"expression": "e=mc^2"}}"#,
    ))
    .unwrap();
    assert_eq!(e.kind, BlockType::Equation);
    assert_eq!(e.id, "");
    assert_eq!(e.runs.len(), 1);
    assert!(e.runs[0].annotations.is_empty());
    assert!(e.children_loaded);
    assert_eq!(e.render(), "$$e=mc^2$$");
}

#[test]
fn status_is_read_per_kind() {
    let todo = BlockElement::new(&raw(&format!(
        r#"{{"type": "to_do", "has_children": false, "to_do": {{"rich_text": [{}], "checked": true}}}}"#,
        PLAIN_RUN
    )))
    .unwrap();
    assert_eq!(todo.status, Status::Flag(true));
    assert_eq!(todo.render(), "- [x] hello");
    let code = BlockElement::new(&raw(&format!(
        r#"{{"type": "code", "has_children": false, "code": {{"rich_text": [{}], "language": "rust"}}}}"#,
        PLAIN_RUN
    )))
    .unwrap();
    assert_eq!(code.status, Status::Text("rust".to_string()));
    assert_eq!(code.render(), "```rust\nhello\n```");
    let callout = BlockElement::new(&raw(&format!(
        r#"{{"type": "callout", "has_children": false, "callout": {{"rich_text": [{}], "icon": {{"type": "emoji", "emoji": "!"}}}}}}"#,
        PLAIN_RUN
    )))
    .unwrap();
    assert_eq!(callout.status, Status::Text("!".to_string()));
    assert_eq!(callout.render(), "<aside>!hello</aside>");
    let no_icon = BlockElement::new(&raw(&format!(
        r#"{{"type": "callout", "has_children": false, "callout": {{"rich_text": [{}], "icon": null}}}}"#,
        PLAIN_RUN
    )))
    .unwrap();
    assert_eq!(no_icon.status, Status::Empty);
    let heading = BlockElement::new(&raw(&format!(
        r#"{{"type": "heading_1", "has_children": false, "heading_1": {{"rich_text": [{}], "is_toggleable": false}}}}"#,
        PLAIN_RUN
    )))
    .unwrap();
    assert_eq!(heading.status, Status::Flag(false));
    assert_eq!(heading.render(), "# hello");
    let quote = BlockElement::new(&raw(&format!(
        r#"{{"type": "quote", "has_children": false, "quote": {{"rich_text": [{}], "checked": true}}}}"#,
        PLAIN_RUN
    )))
    .unwrap();
    assert_eq!(quote.status, Status::Empty);
}

#[test]
fn node_with_children_waits_for_them() {
    let b = BlockElement::new(&raw(&format!(
        r#"{{"id": "parent", "type": "toggle", "has_children": true, "toggle": {{"rich_text": [{}], "color": "no colour"}}}}"#,
        PLAIN_RUN
    )))
    .unwrap();
    assert!(!b.children_loaded);
    assert!(b.children.is_empty());
    assert_eq!(b.color, AnnoColor::Default);
    assert_eq!(b.id, "parent");
}

#[test]
fn document_is_read_from_a_list() {
    let d = Block::new(&raw(&format!(
        r#"[{{"type": "bulleted_list_item", "has_children": false, "bulleted_list_item": {{"rich_text": [{}]}}}}, {{"type": "divider"}}]"#,
        PLAIN_RUN
    )))
    .unwrap();
    assert_eq!(d.inner.len(), 2);
    assert_eq!(d.render(), "* hello\n\n---");
    assert_eq!(
        Block::new(&raw("{}")),
        Err(PopulateErr { node: String::new(), cause: wrong("results") })
    );
    assert_eq!(
        Block::new(&raw(r#"[{"type": "divider"}, {"id": "n2", "type": "x"}, {}]"#)),
        Err(PopulateErr {
            node: "n2".to_string(),
            cause: CommErr::UnsupportedKind("x".to_string())
        })
    );
    assert_eq!(
        Block::new(&raw(r#"[{"id": 7}]"#)),
        Err(PopulateErr { node: String::new(), cause: missing("type") })
    );
    assert_eq!(Block::new(&raw("[]")).unwrap().render(), "");
}

#[test]
fn parts_of_rendering() {
    let tight = BlockElement::from_text(BlockType::ToDo, "a".to_string());
    let loose = BlockElement::from_text(BlockType::Paragraph, "b".to_string());
    assert_eq!(tight.break_line(Some(&tight)), "\n");
    assert_eq!(tight.break_line(Some(&loose)), "\n\n");
    assert_eq!(tight.break_line(None), "");
    assert_eq!(loose.break_line(Some(&tight)), "\n\n");
    assert_eq!(loose.break_line(None), "\n\n");
    let quote = BlockElement::from_text(BlockType::Quote, "q".to_string());
    assert_eq!(quote.special_break_line("a\nb".to_string()), "a<br/>b");
    assert_eq!(loose.special_break_line("a\nb".to_string()), "a\nb");
    assert_eq!(loose.get_status_str(), "");
    assert_eq!(quote.child_indent("> q".to_string(), "a\nb".to_string()), "> q\n>a\n>b");
    assert_eq!(tight.child_indent("p".to_string(), "a\nb".to_string()), "p\n\ta\n\tb");
    let heading = BlockElement::from_type(BlockType::Heading3);
    assert_eq!(heading.child_indent("p".to_string(), "a\nb".to_string()), "p\n\na\nb");
    let toggle = BlockElement::from_type(BlockType::Toggle);
    assert_eq!(toggle.child_indent("<{child}|{child}>".to_string(), "k".to_string()), "<k|k>");
}

#[test]
fn placeholders_in_the_text_are_filled_too() {
    let mut t = BlockElement::from_text(BlockType::ToDo, "see {status}".to_string());
    t.status = Status::Flag(true);
    assert_eq!(t.render(), "- [x] see x");
    let mut p = BlockElement::from_text(BlockType::Paragraph, "a {color} b".to_string());
    p.color = AnnoColor::Red;
    assert_eq!(p.render(), "<font color=red>a color=red b</font>");
}
