use notion_api::article::{
    decreased, draft, holds_text, increased, listed, meta_with_slug, new_meta, plan_update, shown,
    stamp, timestamp, Meta, TagPlan,
};
use notion_api::block::{Block, BlockElement};
use notion_api::database::Database;
use notion_api::error::CommErr;
use notion_api::image::{download_img, image_data_with, img_to_base64, needs_fetch, saved_path_with};
use notion_api::json::Json;
use notion_api::page::Page;
use notion_api::property::{Author, Property, PropertyType};
use notion_api::text::BlockType;

fn to_json(v: &serde_json::Value) -> Json {
    match v {
        serde_json::Value::Null => Json::Null,
        serde_json::Value::Bool(b) => Json::Bool(*b),
        serde_json::Value::Number(n) => Json::Number(n.to_string(), n.to_string()),
        serde_json::Value::String(s) => Json::Text(s.clone()),
        serde_json::Value::Array(a) => Json::Array(a.iter().map(to_json).collect()),
        serde_json::Value::Object(o) => {
            Json::Object(o.iter().map(|(k, v)| (k.clone(), to_json(v))).collect())
        }
    }
}

fn raw(text: &str) -> Json {
    to_json(&serde_json::from_str::<serde_json::Value>(text).unwrap())
}

fn missing(name: &str) -> CommErr {
    CommErr::MissingField(name.to_string())
}

const AUTHOR: &str = r#""Author": {"type": "created_by", "created_by": {"id": "u1", "name": "Ann", "avatar_url": "http://a", "type": "person", "person": {"email": "ann@x.org"}}}"#;
const NAME: &str = r#""Name": {"type": "title", "title": [{"plain_text": "My Title"}]}"#;

fn page_text(extra_props: &str, publish: &str) -> String {
    format!(
        r#"{{"id": "p1", "created_time": "2023-01-02T03:04:05.000Z", "last_edited_time": "2023-02-03T04:05:06.000Z", "last_edited_by": {{"id": "u2"}}, "cover": null, "icon": "i", "archived": false, "url": "http://page", "properties": {{{}, {}, "Publish Time": {}{}}}}}"#,
        AUTHOR, NAME, publish, extra_props
    )
}

const NO_PUBLISH: &str = r#"{"type": "date", "date": null}"#;
const TAGS: &str = r#", "Tag": {"type": "multi_select", "multi_select": [{"name": "rust"}, {"name": "verus"}]}, "Category": {"type": "select", "select": {"name": "tech"}}, "Slug": {"type": "rich_text", "rich_text": [{"plain_text": "my-slug"}]}"#;

#[test]
fn author_is_read_from_the_properties() {
    let a = Author::new(&raw(&format!("{{{}}}", AUTHOR))).unwrap();
    assert_eq!(a.id, "u1");
    assert_eq!(a.name, "Ann");
    assert_eq!(a.avatar_url, "http://a");
    assert_eq!(a.email, "ann@x.org");
    assert_eq!(a.user_type, "person");
    assert_eq!(Author::new(&raw("{}")), Err(missing("Author")));
    assert_eq!(
        Author::new(&raw(r#"{"Author": {"type": "x", "x": {"id": "u", "name": "n", "avatar_url": "a", "type": "t"}}}"#)),
        Err(missing("email"))
    );
    assert_eq!(
        Author::new(&raw(r#"{"Author": {"type": "x", "x": {"id": "u"}}}"#)),
        Err(missing("name"))
    );
}

#[test]
fn property_is_read_with_its_values() {
    let tags = Property::new(
        &"Tag".to_string(),
        &raw(r#"{"type": "multi_select", "multi_select": [{"name": "a"}, null, {"name": "b"}, {}]}"#),
    )
    .unwrap();
    assert_eq!(tags.property, PropertyType::MultiSelect("Tag".to_string()));
    assert_eq!(tags.data.len(), 2);
    assert_eq!(tags.to_array(), Ok(vec!["a".to_string(), "b".to_string()]));
    assert_eq!(tags.to_text(), Err(CommErr::WrongFieldType("Tag".to_string())));
    assert!(!tags.is_empty());
    assert_eq!(tags.data_key(), "name");

    let number = Property::new(&"N".to_string(), &raw(r#"{"type": "number", "number": 42}"#)).unwrap();
    assert_eq!(number.data, vec![vec![("number".to_string(), Json::Number("42".to_string(), "42".to_string()))]]);
    assert_eq!(number.to_text(), Ok("42".to_string()));
    assert_eq!(number.to_array(), Ok(vec!["42".to_string()]));

    let check = Property::new(&"C".to_string(), &raw(r#"{"type": "checkbox", "checkbox": true}"#)).unwrap();
    assert_eq!(check.to_text(), Ok("true".to_string()));

    let empty = Property::new(&"D".to_string(), &raw(r#"{"type": "date", "date": null}"#)).unwrap();
    assert!(empty.is_empty());
    assert_eq!(empty.to_text(), Ok(String::new()));
    assert_eq!(empty.to_array(), Err(missing("D")));

    let date = Property::new(&"D".to_string(), &raw(r#"{"type": "date", "date": {"start": "2024-01-01", "end": null}}"#)).unwrap();
    assert_eq!(date.to_text(), Ok("2024-01-01".to_string()));
    assert_eq!(date.data_key(), "start");

    let select = Property::new(&"S".to_string(), &raw(r#"{"type": "select", "select": {"id": "1"}}"#)).unwrap();
    assert_eq!(select.to_text(), Err(missing("name")));
    assert_eq!(select.to_array(), Err(missing("name")));

    assert_eq!(
        Property::new(&"U".to_string(), &raw(r#"{"type": "url", "url": "http://x"}"#)),
        Err(CommErr::UnsupportedKind("url".to_string()))
    );
    assert_eq!(Property::new(&"U".to_string(), &raw(r#"{"url": "x"}"#)), Err(missing("type")));
}

#[test]
fn values_are_shown_by_kind() {
    let n = PropertyType::Number("N".to_string());
    assert_eq!(
        Property::data_to_string(&n, &Json::Number("1.0".to_string(), "1".to_string())),
        "1"
    );
    assert_eq!(Property::data_to_string(&n, &Json::Text("x".to_string())), "\"x\"");
    assert_eq!(Property::data_to_string(&n, &Json::Null), "null");
    assert_eq!(Property::data_to_string(&n, &Json::Bool(false)), "false");
    assert_eq!(Property::data_to_string(&n, &raw(r#"{"a": [true]}"#)), r#"{"a":[true]}"#);
    assert_eq!(
        Property::data_to_string(
            &n,
            &Json::Array(vec![Json::Number("1.0".to_string(), "1".to_string()), Json::Null])
        ),
        "[1.0,null]"
    );
    assert_eq!(
        Property::data_to_string(&n, &Json::Text("a\"b\\c\n\u{1}é".to_string())),
        "\"a\\\"b\\\\c\\n\\u0001é\""
    );
    let cases = ["[]", "{}", "\"\"", "[1,2,[3,[]]]", "{\"a\":1,\"b\":{\"c\":[true,null,\"x\"]}}"];
    for text in cases {
        let v: serde_json::Value = serde_json::from_str(text).unwrap();
        assert_eq!(Property::data_to_string(&n, &to_json(&v)), serde_json::to_string(&v).unwrap());
    }
    let c = PropertyType::Checkbox("C".to_string());
    assert_eq!(Property::data_to_string(&c, &Json::Bool(true)), "true");
    assert_eq!(Property::data_to_string(&c, &Json::Bool(false)), "false");
    assert_eq!(Property::data_to_string(&c, &Json::Text("true".to_string())), "false");
    let s = PropertyType::Select("S".to_string());
    assert_eq!(Property::data_to_string(&s, &Json::Text("v".to_string())), "v");
    assert_eq!(Property::data_to_string(&s, &Json::Number("5".to_string(), "5".to_string())), "");
}

#[test]
fn page_is_read_from_its_raw_value() {
    let p = Page::new(&raw(&page_text(TAGS, NO_PUBLISH))).unwrap();
    assert_eq!(p.id, "p1");
    assert_eq!(p.created_time, "2023-01-02T03:04:05.000Z");
    assert_eq!(p.edited_time, "2023-02-03T04:05:06.000Z");
    assert_eq!(p.author.name, "Ann");
    assert_eq!(p.editor_id, "u2");
    assert_eq!(p.cover, "");
    assert_eq!(p.icon, "i");
    assert_eq!(p.title, "My Title");
    assert!(!p.archived);
    assert_eq!(p.url, "http://page");
    assert_eq!(p.properties.len(), 4);
    assert_eq!(p.content, Block::default());
    assert_eq!(p.search_property("Tag").unwrap().to_array(), Ok(vec!["rust".to_string(), "verus".to_string()]));
    assert_eq!(p.search_property("Slug").unwrap().to_text(), Ok("my-slug".to_string()));
    assert!(p.search_property("Name").is_none());
    assert!(p.search_property("Author").is_none());
    assert!(Page::search_property_static(&p.properties, "Category").is_some());
    assert!(Page::search_property_static(&p.properties, "category").is_none());
}

#[test]
fn publish_time_overrides_the_time_of_the_last_edit() {
    let p = Page::new(&raw(&page_text(
        TAGS,
        r#"{"type": "date", "date": {"start": "2024-05-06T07:08:09+08:00"}}"#,
    )))
    .unwrap();
    assert_eq!(p.edited_time, "2024-05-06T07:08:09+08:00");
}

#[test]
fn page_errors_name_what_is_missing() {
    assert_eq!(Page::new(&raw("{}")), Err(missing("properties")));
    assert_eq!(Page::new(&raw(r#"{"properties": {}}"#)), Err(missing("Author")));
    assert_eq!(
        Page::new(&raw(&format!(r#"{{"properties": {{{}}}}}"#, AUTHOR))),
        Err(missing("Publish Time"))
    );
    assert_eq!(
        Page::new(&raw(&format!(
            r#"{{"properties": {{{}, "Publish Time": {}}}}}"#,
            AUTHOR, NO_PUBLISH
        ))),
        Err(missing("id"))
    );
    assert_eq!(
        Page::new(&raw(&format!(
            r#"{{"id": "p", "created_time": "c", "last_edited_time": "e", "properties": {{{}, "Publish Time": {}}}}}"#,
            AUTHOR, NO_PUBLISH
        ))),
        Err(missing("Name"))
    );
    assert_eq!(
        Page::new(&raw(&format!(
            r#"{{"id": "p", "created_time": "c", "last_edited_time": "e", "properties": {{{}, "Name": {{"type": "title", "title": []}}, "Publish Time": {}}}}}"#,
            AUTHOR, NO_PUBLISH
        ))),
        Err(missing("properties"))
    );
    assert_eq!(
        Page::new(&raw(&format!(
            r#"{{"id": "p", "created_time": "c", "last_edited_time": "e", "properties": {{{}, {}, "Publish Time": {}}}}}"#,
            AUTHOR, NAME, NO_PUBLISH
        ))),
        Err(missing("archived"))
    );
    assert_eq!(
        Page::new(&raw(&format!(
            r#"{{"id": "p", "properties": {{{}, "Odd": {{"type": "url", "url": "u"}}, "Publish Time": {}}}}}"#,
            AUTHOR, NO_PUBLISH
        ))),
        Err(CommErr::UnsupportedKind("url".to_string()))
    );
}

#[test]
fn content_is_kept_and_rendered() {
    let mut p = Page::new(&raw(&page_text(TAGS, NO_PUBLISH))).unwrap();
    let doc = Block {
        inner: vec![
            BlockElement::from_text(BlockType::Heading1, "H".to_string()),
            BlockElement::from_text(BlockType::Paragraph, "body".to_string()),
        ],
    };
    assert_eq!(p.content(doc), "# H\n\nbody");
    assert_eq!(p.content.inner.len(), 2);
    assert_eq!(p.title, "My Title");
}

#[test]
fn database_is_read_and_grows() {
    let list = format!(
        r#"{{"results": [{}, {}], "next_cursor": "c2", "has_more": true}}"#,
        page_text(TAGS, NO_PUBLISH),
        page_text("", NO_PUBLISH)
    );
    let mut db = Database::new(&raw(&list), "db1".to_string()).unwrap();
    assert_eq!(db.id, "db1");
    assert_eq!(db.page_list.len(), 2);
    assert_eq!(db.next_cursor, "c2");
    assert!(db.has_more);
    let next = db.next().unwrap();
    assert_eq!(next.path(), "databases/db1/query");
    assert_eq!(next.build_str(), r#"{"start_cursor": "c2","page_size": 100}"#);
    let more = format!(
        r#"{{"results": [{}], "next_cursor": null, "has_more": false}}"#,
        page_text("", NO_PUBLISH)
    );
    let mut other = Database::new(&raw(&more), "db1".to_string()).unwrap();
    db.append(&mut other);
    assert_eq!(db.page_list.len(), 3);
    assert!(other.page_list.is_empty());
    assert_eq!(db.next_cursor, "");
    assert!(!db.has_more);
    assert!(db.next().is_none());
    assert_eq!(Database::new(&raw("{}"), "d".to_string()), Err(missing("results")));
    assert_eq!(
        Database::new(&raw(r#"{"results": {}}"#), "d".to_string()),
        Err(CommErr::WrongFieldType("results".to_string()))
    );
    assert_eq!(Database::new(&raw(r#"{"results": []}"#), "d".to_string()), Err(missing("next_cursor")));
    assert_eq!(
        Database::new(&raw(r#"{"results": [], "next_cursor": "c"}"#), "d".to_string()),
        Err(missing("has_more"))
    );
    assert_eq!(
        Database::new(&raw(r#"{"results": [{}], "next_cursor": "c", "has_more": true}"#), "d".to_string()),
        Err(missing("properties"))
    );
}

#[test]
fn times_are_read_as_seconds() {
    assert_eq!(timestamp("1970-01-01T00:00:10Z"), Ok(10));
    assert_eq!(timestamp("2023-01-02T03:04:05.000Z"), Ok(1672628645));
    assert_eq!(timestamp("2024-05-06T07:08:09+08:00"), Ok(1714950489));
    assert_eq!(timestamp("1969-12-31T23:59:59Z"), Ok(u32::MAX));
    assert_eq!(timestamp("2106-02-07T06:28:16Z"), Ok(0));
    assert_eq!(timestamp("yesterday"), Err(CommErr::TimeTransErr("yesterday".to_string())));
    assert_eq!(stamp("t", Some(4294967296 + 5)), Ok(5));
    assert_eq!(stamp("t", Some(-1)), Ok(4294967295));
    assert_eq!(stamp("t", Some(-4294967296)), Ok(0));
    assert_eq!(stamp("t", Some(i64::MIN)), Ok(i64::MIN as u32));
    assert_eq!(stamp("t", Some(i64::MAX)), Ok(i64::MAX as u32));
    assert_eq!(stamp("t", None), Err(CommErr::TimeTransErr("t".to_string())));
}

#[test]
fn article_is_drafted_from_a_page() {
    let mut p = Page::new(&raw(&page_text(TAGS, NO_PUBLISH))).unwrap();
    p.content(Block { inner: vec![BlockElement::from_text(BlockType::Paragraph, "body".to_string())] });
    let a = draft(&p).unwrap();
    assert_eq!(a.title, "My Title");
    assert_eq!(a.slug, "my-slug");
    assert_eq!(a.created, 1672628645);
    assert_eq!(a.modified, 1675397106);
    assert_eq!(a.text, "<!--markdown-->body");
    assert_eq!(shown(&p, "Category"), Ok("tech".to_string()));
    assert_eq!(shown(&p, "Nothing"), Err(missing("Nothing")));
    assert_eq!(listed(&p, "Tag"), Ok(vec!["rust".to_string(), "verus".to_string()]));
    assert_eq!(listed(&p, "Nothing"), Err(missing("Nothing")));
    let bare = Page::new(&raw(&page_text("", NO_PUBLISH))).unwrap();
    assert_eq!(draft(&bare), Err(missing("Slug")));
    let mut odd = Page::new(&raw(&page_text(TAGS, NO_PUBLISH))).unwrap();
    odd.created_time = "then".to_string();
    assert_eq!(draft(&odd), Err(CommErr::TimeTransErr("then".to_string())));
}

#[test]
fn tags_are_recorded_under_the_digest_of_their_name() {
    let m = new_meta("hello world".to_string(), "tag".to_string());
    assert_eq!(
        m,
        Meta {
            name: "hello world".to_string(),
            slug: "5eb63bbbe01eeed093cb22bb8f5acdc3".to_string(),
            mtype: "tag".to_string(),
            count: 1,
            order: 0,
            parent: 0,
        }
    );
    assert_eq!(new_meta(String::new(), "category".to_string()).slug, "d41d8cd98f00b204e9800998ecf8427e");
    assert_eq!(meta_with_slug("n".to_string(), "tag".to_string(), "s".to_string()).slug, "s");
    assert_eq!(increased(0), Some(1));
    assert_eq!(increased(u32::MAX - 1), Some(u32::MAX));
    assert_eq!(increased(u32::MAX), None);
    assert_eq!(decreased(5), 4);
    assert_eq!(decreased(1), 0);
    assert_eq!(decreased(0), 0);
}

#[test]
fn changes_of_tags_are_planned() {
    let texts = |list: &[&str]| list.iter().map(|t| t.to_string()).collect::<Vec<String>>();
    let plan = plan_update(&texts(&["a", "b", "c"]), "cat", &texts(&["b", "old", "cat", "gone"]));
    assert_eq!(
        plan,
        TagPlan { decrease: vec![1, 2, 3], add_category: false, add_tags: texts(&["a", "c"]) }
    );
    let plan = plan_update(&texts(&["a", "a"]), "cat", &texts(&[]));
    assert_eq!(plan, TagPlan { decrease: vec![], add_category: true, add_tags: texts(&["a", "a"]) });
    let plan = plan_update(&texts(&[]), "cat", &texts(&["x", "x"]));
    assert_eq!(plan, TagPlan { decrease: vec![0, 1], add_category: true, add_tags: vec![] });
    assert!(holds_text(&texts(&["a", "b"]), "b"));
    assert!(!holds_text(&texts(&["a", "b"]), "B"));
}

#[test]
fn images_become_data_or_are_saved() {
    assert!(!needs_fetch("https://s3.secure.notion-static.com/x/y.png"));
    assert!(needs_fetch("https://example.org/y.png"));
    let bytes = vec![104u8, 101, 108, 108, 111];
    assert_eq!(
        img_to_base64("https://example.org/a/pic.png?width=5", 200, &bytes),
        Ok("data:image/png;base64,aGVsbG8=".to_string())
    );
    assert_eq!(
        image_data_with(Some("gif".to_string()), 200, &vec![]),
        Ok("data:image/gif;base64,".to_string())
    );
    assert_eq!(
        image_data_with(Some("gif".to_string()), 200, &vec![0, 0, 0]),
        Ok("data:image/gif;base64,AAAA".to_string())
    );
    assert_eq!(
        img_to_base64("https://example.org/a/pic.png", 404, &bytes),
        Err(CommErr::FetchErr(404, "Request image in Notion Error".to_string()))
    );
    assert_eq!(img_to_base64("https://example.org/a/pic", 200, &bytes), Err(missing("extension")));
    assert_eq!(image_data_with(None, 200, &bytes), Err(missing("extension")));
    assert_eq!(
        download_img("https://example.org/a/pic.png?x=1", "static//", 200),
        Ok("static/pic.png".to_string())
    );
    assert_eq!(
        download_img("https://example.org/a/pic.png", "static", 500),
        Err(CommErr::FetchErr(500, "Request image in Notion Error".to_string()))
    );
    assert_eq!(saved_path_with("dir/", None, 200), Err(missing("file name")));
    assert_eq!(saved_path_with("dir/", Some("f".to_string()), 200), Ok("dir/f".to_string()));
}
