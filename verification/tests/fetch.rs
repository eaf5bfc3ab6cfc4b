use notion_api::block::{Block, BlockElement};
use notion_api::error::{CommErr, PopulateErr};
use notion_api::fetch::{children_page, every_loaded, first_wanted};
use notion_api::json::Json;

fn field(name: &str, value: Json) -> (String, Json) {
    (name.to_string(), value)
}

fn text(t: &str) -> Json {
    Json::Text(t.to_string())
}

fn node(id: &str, body: &str, has_children: bool) -> Json {
    let run = Json::Object(vec![
        field("plain_text", text(body)),
        field("annotations", Json::Object(vec![])),
    ]);
    Json::Object(vec![
        field("id", text(id)),
        field("type", text("bulleted_list_item")),
        field("has_children", Json::Bool(has_children)),
        field(
            "bulleted_list_item",
            Json::Object(vec![field("rich_text", Json::Array(vec![run]))]),
        ),
    ])
}

#[test]
fn tree_is_filled_depth_first() {
    let mut root = BlockElement::new(&node("root", "r", true)).unwrap();
    assert_eq!(root.next_fetch(), Some("root".to_string()));
    root = root
        .supply(Ok(vec![node("a", "a", true), node("b", "b", false), node("c", "c", true)]))
        .unwrap();
    assert!(!root.children_loaded);
    assert_eq!(root.children.len(), 3);
    assert_eq!(root.next_fetch(), Some("a".to_string()));
    root = root.supply(Ok(vec![node("a1", "a1", true)])).unwrap();
    assert_eq!(root.next_fetch(), Some("a1".to_string()));
    root = root.supply(Ok(vec![])).unwrap();
    assert!(root.children[0].children_loaded);
    assert!(root.children[0].children[0].children_loaded);
    assert_eq!(root.next_fetch(), Some("c".to_string()));
    assert!(!root.children_loaded);
    root = root.supply(Ok(vec![node("c1", "c1", false)])).unwrap();
    assert!(root.children_loaded);
    assert_eq!(root.next_fetch(), None);
    assert_eq!(root.render(), "* r\n\t* a\n\t\t* a1\n\t* b\n\t* c\n\t\t* c1");
}

#[test]
fn filling_twice_gives_what_filling_once_gave() {
    let mut root = BlockElement::new(&node("root", "r", true)).unwrap();
    root = root.supply(Ok(vec![node("a", "a", false), node("b", "b", false)])).unwrap();
    assert!(root.children_loaded);
    let once = root.render();
    let children = root.children.len();
    root = root.supply(Ok(vec![node("x", "x", false)])).unwrap();
    assert_eq!(root.children.len(), children);
    assert_eq!(root.children[0].id, "a");
    assert_eq!(root.children[1].id, "b");
    assert_eq!(root.render(), once);
    root = root.supply(Err(CommErr::FetchErr(500, "late".to_string()))).unwrap();
    assert_eq!(root.render(), once);
    assert_eq!(root.next_fetch(), None);
}

#[test]
fn node_without_children_asks_for_nothing() {
    let leaf = BlockElement::new(&node("leaf", "l", false)).unwrap();
    assert!(leaf.children_loaded);
    assert_eq!(leaf.next_fetch(), None);
    let same = leaf.supply(Ok(vec![node("x", "x", false)])).unwrap();
    assert!(same.children.is_empty());
}

#[test]
fn failures_carry_the_node() {
    let root = BlockElement::new(&node("root", "r", true)).unwrap();
    let failed = root.supply(Err(CommErr::FetchErr(404, "gone".to_string())));
    assert_eq!(
        failed,
        Err(PopulateErr { node: "root".to_string(), cause: CommErr::FetchErr(404, "gone".to_string()) })
    );
    let mut root = BlockElement::new(&node("root", "r", true)).unwrap();
    root = root.supply(Ok(vec![node("a", "a", true)])).unwrap();
    let broken = Json::Object(vec![
        field("id", text("bad")),
        field("type", text("paragraph")),
        field("paragraph", Json::Object(vec![])),
    ]);
    let failed = root.supply(Ok(vec![node("ok", "ok", false), broken]));
    assert_eq!(
        failed,
        Err(PopulateErr { node: "bad".to_string(), cause: CommErr::UnsupportedFormat })
    );
}

#[test]
fn document_is_filled_block_by_block() {
    let mut doc = Block::new(&Json::Array(vec![
        node("one", "1", false),
        node("two", "2", true),
        node("three", "3", true),
    ]))
    .unwrap();
    assert_eq!(first_wanted(&doc.inner), Some((1, "two".to_string())));
    assert!(!every_loaded(&doc.inner));
    assert_eq!(doc.next_fetch(), Some("two".to_string()));
    doc = doc.supply(Ok(vec![node("two-a", "2a", false)])).unwrap();
    assert_eq!(doc.next_fetch(), Some("three".to_string()));
    doc = doc.supply(Ok(vec![])).unwrap();
    assert_eq!(doc.next_fetch(), None);
    assert!(every_loaded(&doc.inner));
    assert_eq!(doc.render(), "* 1\n* 2\n\t* 2a\n* 3");
    let before = doc.render();
    doc = doc.supply(Ok(vec![node("x", "x", false)])).unwrap();
    assert_eq!(doc.render(), before);
    let failing = Block::new(&Json::Array(vec![node("one", "1", true)])).unwrap();
    assert_eq!(
        failing.supply(Err(CommErr::FetchErr(0, "timeout".to_string()))),
        Err(PopulateErr { node: "one".to_string(), cause: CommErr::FetchErr(0, "timeout".to_string()) })
    );
}

#[test]
fn answer_brings_children_and_cursor() {
    let more = Json::Object(vec![
        field("results", Json::Array(vec![Json::Null, Json::Bool(true)])),
        field("has_more", Json::Bool(true)),
        field("next_cursor", text("c2")),
    ]);
    assert_eq!(
        children_page(&more),
        Ok((vec![Json::Null, Json::Bool(true)], Some("c2".to_string())))
    );
    let last = Json::Object(vec![
        field("results", Json::Array(vec![])),
        field("has_more", Json::Bool(false)),
        field("next_cursor", text("c2")),
    ]);
    assert_eq!(children_page(&last), Ok((vec![], None)));
    let no_cursor = Json::Object(vec![
        field("results", Json::Array(vec![])),
        field("has_more", Json::Bool(true)),
        field("next_cursor", Json::Null),
    ]);
    assert_eq!(children_page(&no_cursor), Ok((vec![], None)));
    assert_eq!(
        children_page(&Json::Object(vec![])),
        Err(CommErr::MissingField("results".to_string()))
    );
    assert_eq!(
        children_page(&Json::Object(vec![field("results", Json::Null)])),
        Err(CommErr::WrongFieldType("results".to_string()))
    );
}
