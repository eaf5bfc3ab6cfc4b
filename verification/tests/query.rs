use notion_api::error::CommErr;
use notion_api::filter::Filter;
use notion_api::json::Json;
use notion_api::notion::{checked_json, FnMethod, Notion, NotionBuilder, DEFAULT_PAGE_SIZE};
use notion_api::property::{PropertyKind, PropertyType};
use notion_api::request::{answer, record_name, RequestMethod};
use notion_api::sort::{Direction, Sort};
use notion_api::term::ReqBody;

fn status() -> PropertyType {
    PropertyType::Status("Status".to_string())
}

fn tag() -> PropertyType {
    PropertyType::MultiSelect("Tag".to_string())
}

#[test]
fn property_type_names_and_kinds() {
    assert_eq!(status().get_val(), "Status");
    assert_eq!(status().name(), "Status");
    assert_eq!(status().kind(), PropertyKind::Status);
    assert_eq!(status().to_str(), "status");
    assert_eq!(PropertyType::Text("T".to_string()).to_str(), "rich_text");
    assert_eq!(tag().to_str(), "multi_select");
    assert_eq!(status().reset_val("Other".to_string()), PropertyType::Status("Other".to_string()));
    assert_eq!(PropertyType::from_str("rich_text"), Ok(PropertyType::Text(String::new())));
    assert_eq!(PropertyType::from_str("formula"), Ok(PropertyType::Formula(String::new())));
    assert_eq!(
        PropertyType::from_str("text"),
        Err(CommErr::UnsupportedKind("text".to_string()))
    );
    assert_eq!(
        PropertyType::of_kind(PropertyKind::Date, "D".to_string()),
        PropertyType::Date("D".to_string())
    );
    assert!(status().same(&status()));
    assert!(!status().same(&PropertyType::Select("Status".to_string())));
    assert!(!status().same(&PropertyType::Status("status".to_string())));
    assert_eq!(status().clone(), status());
    assert_eq!(
        PropertyType::Number("N".to_string()).update_json(),
        Some("\"{name}\": {\"number\": {value}}")
    );
    assert_eq!(PropertyType::People("P".to_string()).update_json(), None);
}

#[test]
fn single_conditions() {
    assert_eq!(
        status().equals("publish").build_str(),
        r#"{"property":"Status","status":{"equals":"publish"}}"#
    );
    assert_eq!(
        status().does_not_equal("x").build_str(),
        r#"{"property":"Status","status":{"does_not_equal":"x"}}"#
    );
    assert_eq!(
        tag().contains("test").build_str(),
        r#"{"property":"Tag","multi_select":{"contains":"test"}}"#
    );
    assert_eq!(
        PropertyType::Text("Body".to_string()).does_not_contain("y").build_str(),
        r#"{"property":"Body","rich_text":{"does_not_contain":"y"}}"#
    );
    assert_eq!(Filter::default().build_str(), "");
    assert_eq!(
        Filter::new(PropertyType::Text(String::new()), ("equals".to_string(), "x".to_string()))
            .build_str(),
        ""
    );
}

#[test]
fn conditions_joined_by_and_and_or() {
    let both = status().equals("publish").and(tag().contains("test"));
    assert_eq!(
        both.build_str(),
        r#"{"and":[{"property":"Status","status":{"equals":"publish"}},{"property":"Tag","multi_select":{"contains":"test"}}]}"#
    );
    assert!(!both.has_child());
    let either = status().equals("a").or(status().equals("b")).or(status().equals("c"));
    assert_eq!(
        either.build_str(),
        r#"{"or":[{"property":"Status","status":{"equals":"a"}},{"property":"Status","status":{"equals":"b"}},{"property":"Status","status":{"equals":"c"}}]}"#
    );
    let mixed = status().equals("a").and(status().equals("b")).or(status().equals("c"));
    assert_eq!(mixed.logic_map.len(), 1);
    assert_eq!(mixed.logic_operate, "and");
    let mixed = status().equals("a").or(status().equals("b")).and(status().equals("c"));
    assert_eq!(mixed.logic_map.len(), 1);
    assert_eq!(mixed.logic_operate, "or");
    let nested = status().equals("a").and(both);
    assert_eq!(
        nested.build_str(),
        r#"{"and":[{"property":"Status","status":{"equals":"a"}},{"and":[{"property":"Status","status":{"equals":"publish"}},{"property":"Tag","multi_select":{"contains":"test"}}]}]}"#
    );
    assert!(nested.has_child());
    let too_deep = status().equals("z").and(nested);
    assert!(too_deep.logic_map.is_empty());
    assert_eq!(too_deep.build_str(), r#"{"property":"Status","status":{"equals":"z"}}"#);
}

#[test]
fn order_keeps_each_property_once() {
    let mut s = Sort::new(vec![
        (PropertyType::Date("Edited".to_string()), Direction::Descending),
        (status(), Direction::Ascending),
        (PropertyType::Date("Edited".to_string()), Direction::Ascending),
    ]);
    assert_eq!(s.map.len(), 2);
    assert_eq!(
        s.build_str(),
        r#"[{"property":"Edited","direction":"ascending"},{"property":"Status","direction":"ascending"}]"#
    );
    s.add(vec![(status(), Direction::Descending), (tag(), Direction::Descending)]);
    assert_eq!(
        s.build_str(),
        r#"[{"property":"Edited","direction":"ascending"},{"property":"Status","direction":"descending"},{"property":"Tag","direction":"descending"}]"#
    );
    s.insert(PropertyType::Select("Status".to_string()), Direction::Ascending);
    assert_eq!(s.map.len(), 4);
    assert_eq!(Sort::default().build_str(), "");
    assert_eq!(Direction::Descending.to_str(), "descending");
    assert_eq!(Direction::Ascending.to_str(), "ascending");
}

#[test]
fn body_of_filter_and_order() {
    let body = ReqBody::new(
        status().equals("publish"),
        Sort::new(vec![(tag(), Direction::Descending)]),
    );
    assert_eq!(
        body.build_str(),
        r#"{"filter": {"property":"Status","status":{"equals":"publish"}},"sorts": [{"property":"Tag","direction":"descending"}]}"#
    );
    assert_eq!(
        ReqBody::new(Filter::default(), Sort::default()).build_str(),
        r#"{"filter": ,"sorts": }"#
    );
}

#[test]
fn paths_of_requests() {
    assert_eq!(Notion::Databases("d1".to_string()).get_val(), "d1");
    assert_eq!(Notion::Users("u1".to_string()).get_val(), "u1");
    assert_eq!(NotionBuilder::new(Notion::Databases("d1".to_string())).path(), "databases/d1/query");
    assert_eq!(NotionBuilder::new(Notion::Pages("p1".to_string())).path(), "pages/p1");
    assert_eq!(NotionBuilder::new(Notion::Users("u1".to_string())).path(), "users/u1");
    assert_eq!(
        NotionBuilder::new(Notion::Blocks("b1".to_string())).path(),
        "blocks/b1/children?page_size=100"
    );
    assert_eq!(
        Notion::Blocks("b1".to_string()).start_from("cur".to_string()).limit(5).path(),
        "blocks/b1/children?start_cursor=cur&page_size=5"
    );
    assert_eq!(
        Notion::Databases("d1".to_string()).start_from("cur".to_string()).path(),
        "databases/d1/query"
    );
    assert_eq!(DEFAULT_PAGE_SIZE, 100);
}

#[test]
fn methods_of_requests() {
    let db = NotionBuilder::new(Notion::Databases("d".to_string()));
    assert_eq!(db.method(FnMethod::Search), RequestMethod::POST);
    assert_eq!(db.method(FnMethod::Update), RequestMethod::PATCH);
    assert_eq!(db.method(FnMethod::Create), RequestMethod::POST);
    assert_eq!(db.method(FnMethod::Delete), RequestMethod::POST);
    let page = NotionBuilder::new(Notion::Pages("p".to_string()));
    assert_eq!(page.method(FnMethod::Search), RequestMethod::GET);
    assert_eq!(page.method(FnMethod::Update), RequestMethod::PATCH);
    assert_eq!(page.method(FnMethod::Create), RequestMethod::POST);
    assert_eq!(page.method(FnMethod::Delete), RequestMethod::GET);
    let block = NotionBuilder::new(Notion::Blocks("b".to_string()));
    assert_eq!(block.method(FnMethod::Search), RequestMethod::GET);
    assert_eq!(block.method(FnMethod::Update), RequestMethod::PATCH);
    assert_eq!(block.method(FnMethod::Create), RequestMethod::POST);
    assert_eq!(block.method(FnMethod::Delete), RequestMethod::DELETE);
    let user = NotionBuilder::new(Notion::Users("u".to_string()));
    assert_eq!(user.method(FnMethod::Delete), RequestMethod::GET);
    assert!(RequestMethod::POST.sends_body() && RequestMethod::PATCH.sends_body());
    assert!(!RequestMethod::GET.sends_body() && !RequestMethod::DELETE.sends_body());
    assert!(RequestMethod::POST.names_content_type());
    assert!(!RequestMethod::PATCH.names_content_type());
}

#[test]
fn body_of_a_query() {
    let plain = NotionBuilder::new(Notion::Databases("d".to_string()));
    assert_eq!(plain.build_str(), r#"{"page_size": 100}"#);
    assert_eq!(plain.format_body(), Ok(r#"{"page_size": 100}"#.to_string()));
    let full = Notion::Databases("d".to_string())
        .filter(status().equals("publish"))
        .filter(tag().contains("test"))
        .sort(PropertyType::Date("Edited time".to_string()), Direction::Descending)
        .start_from("abc".to_string())
        .limit(-3);
    assert_eq!(
        full.build_str(),
        r#"{"start_cursor": "abc","filter": {"and":[{"property":"Status","status":{"equals":"publish"}},{"property":"Tag","multi_select":{"contains":"test"}}]},"sorts": [{"property":"Edited time","direction":"descending"}],"page_size": -3}"#
    );
    assert_eq!(full.format_body(), Ok(full.build_str()));
    let sorted = Notion::Pages("p".to_string()).sort(status(), Direction::Ascending);
    assert_eq!(
        sorted.build_str(),
        r#"{"sorts": [{"property":"Status","direction":"ascending"}],"page_size": 100}"#
    );
}

#[test]
fn body_that_is_no_json_is_refused() {
    let broken = Notion::Databases("d".to_string()).start_from("a\"b".to_string());
    assert_eq!(broken.build_str(), r#"{"start_cursor": "a"b","page_size": 100}"#);
    match broken.format_body() {
        Err(CommErr::JsonErr(message)) => assert!(!message.is_empty()),
        other => panic!("{:?}", other),
    }
    assert_eq!(checked_json("{}".to_string(), None), Ok("{}".to_string()));
    assert_eq!(
        checked_json("{".to_string(), Some("EOF".to_string())),
        Err(CommErr::JsonErr("EOF".to_string()))
    );
}

#[test]
fn body_that_sets_properties() {
    assert_eq!(
        NotionBuilder::build_update_body(vec![(status(), "archive")]),
        Ok(r#"{"properties": {"Status": {"status": {"name": "archive"}}}}"#.to_string())
    );
    assert_eq!(
        NotionBuilder::build_update_body(vec![
            (PropertyType::Number("N".to_string()), "5"),
            (PropertyType::Checkbox("C".to_string()), "true"),
            (PropertyType::Text("T".to_string()), "t"),
            (PropertyType::Select("S".to_string()), "s"),
            (tag(), "m"),
            (PropertyType::Date("D".to_string()), "2024-01-01"),
        ]),
        Ok(concat_all(&[
            r#"{"properties": {"N": {"number": 5},"#,
            r#""C": {"checkbox": true},"#,
            r#""T": {"rich_text": [ {"text": {"content": "t"} } ] },"#,
            r#""S": {"select": {"name": "s"}},"#,
            r#""Tag": {"multi_select": [ {"name": "m"} ] },"#,
            r#""D": {"date": {"start": "2024-01-01"}}}}"#,
        ]))
    );
    assert_eq!(NotionBuilder::build_update_body(vec![]), Ok(r#"{"properties": {}}"#.to_string()));
    assert_eq!(
        NotionBuilder::build_update_body(vec![(status(), "a"), (PropertyType::Files("F".to_string()), "x")]),
        Err(CommErr::UnsupportedFormat)
    );
    match NotionBuilder::build_update_body(vec![(PropertyType::Number("N".to_string()), "five")]) {
        Err(CommErr::JsonErr(message)) => assert!(!message.is_empty()),
        other => panic!("{:?}", other),
    }
    assert_eq!(
        NotionBuilder::build_update_body(vec![(PropertyType::Select("{value}".to_string()), "v")]),
        Ok(r#"{"properties": {"v": {"select": {"name": "v"}}}}"#.to_string())
    );
}

fn concat_all(parts: &[&str]) -> String {
    let mut out = String::new();
    for p in parts {
        out.push_str(p);
    }
    out
}

#[test]
fn answers_are_judged_by_their_status() {
    let body = Json::Object(vec![("message".to_string(), Json::Text("no".to_string()))]);
    assert_eq!(answer(200, body.clone()), Ok(body.clone()));
    assert_eq!(answer(299, body.clone()), Ok(body.clone()));
    assert_eq!(answer(300, body.clone()), Err(CommErr::FetchErr(300, "no".to_string())));
    assert_eq!(answer(199, body.clone()), Err(CommErr::FetchErr(199, "no".to_string())));
    assert_eq!(answer(404, body), Err(CommErr::FetchErr(404, "no".to_string())));
    assert_eq!(answer(500, Json::Null), Err(CommErr::MissingField("message".to_string())));
    assert_eq!(record_name("blocks/b1/children?page_size=100"), "blocks");
    assert_eq!(record_name("users"), "users");
}
