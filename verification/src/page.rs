//! A page of a database: its own fields, its properties and its content.

use vstd::prelude::*;
use vstd::string::StringExecFns;
use crate::block::{document_text, Block, BlockView};
use crate::error::{CommErr, CommErrView};
use crate::json::{
    fields_view, get_property_value, get_value_object, get_value_str, Json, JsonView,
};
use crate::property::{Author, AuthorView, Property, PropertyView};
use crate::strings::same_text;

verus! {

/// A page.
#[derive(Debug, PartialEq, Eq)]
pub struct Page {
    pub id: String,
    pub created_time: String,
    pub edited_time: String,
    pub author: Author,
    pub editor_id: String,
    pub cover: String,
    pub icon: String,
    pub title: String,
    pub archived: bool,
    pub url: String,
    pub properties: Vec<Property>,
    pub content: Block,
}

/// A page as a mathematical value.
pub struct PageView {
    pub id: Seq<char>,
    pub created_time: Seq<char>,
    pub edited_time: Seq<char>,
    pub author: AuthorView,
    pub editor_id: Seq<char>,
    pub cover: Seq<char>,
    pub icon: Seq<char>,
    pub title: Seq<char>,
    pub archived: bool,
    pub url: Seq<char>,
    pub properties: Seq<PropertyView>,
    pub content: Seq<BlockView>,
}

/// The mathematical values of a list of properties.
pub open spec fn props_view(props: Seq<Property>) -> Seq<PropertyView> {
    Seq::new(props.len(), |i: int| props[i]@)
}

impl View for Page {
    type V = PageView;

    open spec fn view(&self) -> PageView {
        PageView {
            id: self.id@,
            created_time: self.created_time@,
            edited_time: self.edited_time@,
            author: self.author@,
            editor_id: self.editor_id@,
            cover: self.cover@,
            icon: self.icon@,
            title: self.title@,
            archived: self.archived,
            url: self.url@,
            properties: props_view(self.properties@),
            content: self.content@,
        }
    }
}

/// Whether a property of this name belongs to the page itself and is not
/// kept among its properties.
pub open spec fn is_own_field(key: Seq<char>) -> bool {
    key == "Author"@ || key == "Created time"@ || key == "Edited time"@ || key == "Name"@
}

/// The properties that the fields of a `properties` object describe, but
/// for the page's own; the error of the first field that describes none.
pub open spec fn props_of(fields: Seq<(Seq<char>, JsonView)>) -> Result<
    Seq<PropertyView>,
    CommErrView,
>
    decreases fields.len(),
{
    if fields.len() == 0 {
        Ok(Seq::empty())
    } else {
        match props_of(fields.drop_last()) {
            Err(e) => Err(e),
            Ok(props) => if is_own_field(fields.last().0) {
                Ok(props)
            } else {
                match PropertyView::of_json(fields.last().0, fields.last().1) {
                    Err(e) => Err(e),
                    Ok(p) => Ok(props.push(p)),
                }
            },
        }
    }
}

/// The index of the first of the first `n` properties that is named `key`.
pub open spec fn find_index(props: Seq<PropertyView>, key: Seq<char>, n: int) -> Option<int>
    decreases n,
{
    if n <= 0 || n > props.len() {
        None
    } else {
        match find_index(props, key, n - 1) {
            Some(i) => Some(i),
            None => if props[n - 1].property.name == key {
                Some(n - 1)
            } else {
                None
            },
        }
    }
}

/// The first property named `key`.
pub open spec fn find_property(props: Seq<PropertyView>, key: Seq<char>) -> Option<PropertyView> {
    match find_index(props, key, props.len() as int) {
        Some(i) => Some(props[i]),
        None => None,
    }
}

/// The field `key` of `v` as a text, the empty text where `v` has no such
/// field or the field is no string.
pub open spec fn text_or_none(v: JsonView, key: Seq<char>) -> Seq<char> {
    match v.str_field(key) {
        Ok(t) => t,
        Err(_) => Seq::empty(),
    }
}

/// The identifier of who edited the page last, the empty text where the
/// page does not say.
pub open spec fn editor_of(page: JsonView) -> Seq<char> {
    match page.field("last_edited_by"@) {
        Some(v) => text_or_none(v, "id"@),
        None => Seq::empty(),
    }
}

/// The title of the page: the text of the first entry of the property
/// `Name`.
pub open spec fn title_of(properties: JsonView) -> Result<Seq<char>, CommErrView> {
    match properties.property_value(Some("Name"@)) {
        Err(e) => Err(e),
        Ok(JsonView::Array(items)) => if items.len() > 0 {
            items[0].str_field("plain_text"@)
        } else {
            Err(CommErrView::MissingField("properties"@))
        },
        Ok(_) => Err(CommErrView::MissingField("properties"@)),
    }
}

/// The time of the last edit: the time that the property `Publish Time`
/// shows where it has a value, else the page's `last_edited_time`.
pub open spec fn edited_time_of(page: JsonView, publish_time: PropertyView) -> Result<
    Seq<char>,
    CommErrView,
> {
    if publish_time.data.len() != 0 {
        publish_time.shown()
    } else {
        page.str_field("last_edited_time"@)
    }
}

/// The page that a raw value describes, without its content.
pub open spec fn page_of(page: JsonView) -> Result<PageView, CommErrView> {
    match page.field("properties"@) {
        None => Err(CommErrView::MissingField("properties"@)),
        Some(plist) => match AuthorView::of_json(plist) {
            Err(e) => Err(e),
            Ok(author) => match page.object_field("properties"@) {
                Ok(fields) => match props_of(fields) {
                    Err(e) => Err(e),
                    Ok(properties) => match find_property(properties, "Publish Time"@) {
                        None => Err(CommErrView::MissingField("Publish Time"@)),
                        Some(publish_time) => match page.str_field("id"@) {
                            Err(e) => Err(e),
                            Ok(id) => match page.str_field("created_time"@) {
                                Err(e) => Err(e),
                                Ok(created_time) => match edited_time_of(page, publish_time) {
                                    Err(e) => Err(e),
                                    Ok(edited_time) => match title_of(plist) {
                                        Err(e) => Err(e),
                                        Ok(title) => match page.field("archived"@) {
                                            None => Err(CommErrView::MissingField("archived"@)),
                                            Some(a) => Ok(
                                                PageView {
                                                    id,
                                                    created_time,
                                                    edited_time,
                                                    author,
                                                    editor_id: editor_of(page),
                                                    cover: text_or_none(page, "cover"@),
                                                    icon: text_or_none(page, "icon"@),
                                                    title,
                                                    archived: a == JsonView::Bool(true),
                                                    url: text_or_none(page, "url"@),
                                                    properties,
                                                    content: Seq::empty(),
                                                },
                                            ),
                                        },
                                    },
                                },
                            },
                        },
                    },
                },
                Err(e) => Err(e),
            },
        },
    }
}

/// Once the first `n` fields hold one that describes no property, the
/// whole fails with the same error.
proof fn lemma_props_fail(fields: Seq<(Seq<char>, JsonView)>, n: int)
    requires
        0 <= n <= fields.len(),
        props_of(fields.take(n)) is Err,
    ensures
        props_of(fields) == props_of(fields.take(n)),
    decreases fields.len() - n,
{
    if n < fields.len() {
        assert(fields.take(n + 1).drop_last() =~= fields.take(n));
        lemma_props_fail(fields, n + 1);
    } else {
        assert(fields.take(n) =~= fields);
    }
}

/// Whether a property of this name belongs to the page itself.
fn own_field(key: &str) -> (r: bool)
    ensures
        r == is_own_field(key@),
{
    same_text(key, "Author") || same_text(key, "Created time") || same_text(key, "Edited time")
        || same_text(key, "Name")
}

/// Reads the field `key` of `v` as a text, the empty text where `v` has no
/// such field or the field is no string.
fn read_or_none(v: &Json, key: &str) -> (r: String)
    ensures
        r@ == text_or_none(v@, key@),
{
    match get_value_str(v, key) {
        Ok(t) => t,
        Err(_) => String::new(),
    }
}

/// Reads the properties of a page from the fields of its `properties`
/// object.
fn read_props(fields: &Vec<(String, Json)>) -> (r: Result<Vec<Property>, CommErr>)
    ensures
        match r {
            Ok(props) => props_of(fields_view(fields@)) == Ok::<Seq<PropertyView>, CommErrView>(
                props_view(props@),
            ),
            Err(e) => props_of(fields_view(fields@)) == Err::<Seq<PropertyView>, CommErrView>(e@),
        },
{
    let ghost all = fields_view(fields@);
    let mut props: Vec<Property> = Vec::new();
    let mut i: usize = 0;
    assert(all.take(0) =~= Seq::empty());
    assert(props_view(props@) =~= Seq::empty());
    while i < fields.len()
        invariant
            i <= fields.len(),
            all == fields_view(fields@),
            props_of(all.take(i as int)) == Ok::<Seq<PropertyView>, CommErrView>(
                props_view(props@),
            ),
        decreases fields.len() - i,
    {
        assert(all.take(i + 1).drop_last() =~= all.take(i as int));
        assert(all.take(i + 1).last() == all[i as int]);
        if !own_field(fields[i].0.as_str()) {
            let ghost before = props_view(props@);
            match Property::new(&fields[i].0, &fields[i].1) {
                Ok(p) => {
                    props.push(p);
                    assert(props_view(props@) =~= before.push(p@));
                },
                Err(e) => {
                    proof {
                        lemma_props_fail(all, i + 1);
                    }
                    return Err(e);
                },
            }
        }
        i = i + 1;
    }
    assert(all.take(fields.len() as int) =~= all);
    Ok(props)
}

impl Page {
    /// Reads a page from its raw value, without its content.
    pub fn new(page: &Json) -> (r: Result<Page, CommErr>)
        ensures
            match r {
                Ok(p) => page_of(page@) == Ok::<PageView, CommErrView>(p@),
                Err(e) => page_of(page@) == Err::<PageView, CommErrView>(e@),
            },
    {
        let property_list = match page.get("properties") {
            Some(p) => p,
            None => {
                return Err(CommErr::MissingField(String::from_str("properties")));
            },
        };
        let author = match Author::new(property_list) {
            Ok(a) => a,
            Err(e) => {
                return Err(e);
            },
        };
        let fields = match get_value_object(page, "properties") {
            Ok(f) => f,
            Err(e) => {
                return Err(e);
            },
        };
        let properties = match read_props(fields) {
            Ok(p) => p,
            Err(e) => {
                return Err(e);
            },
        };
        let publish_time = match Page::search_property_static(&properties, "Publish Time") {
            Some(p) => p,
            None => {
                return Err(CommErr::MissingField(String::from_str("Publish Time")));
            },
        };
        let id = match get_value_str(page, "id") {
            Ok(t) => t,
            Err(e) => {
                return Err(e);
            },
        };
        let created_time = match get_value_str(page, "created_time") {
            Ok(t) => t,
            Err(e) => {
                return Err(e);
            },
        };
        let edited = if !publish_time.is_empty() {
            publish_time.to_text()
        } else {
            get_value_str(page, "last_edited_time")
        };
        let edited_time = match edited {
            Ok(t) => t,
            Err(e) => {
                return Err(e);
            },
        };
        let editor_id = match page.get("last_edited_by") {
            Some(v) => read_or_none(v, "id"),
            None => String::new(),
        };
        let cover = read_or_none(page, "cover");
        let icon = read_or_none(page, "icon");
        let name = match get_property_value(property_list, Some("Name")) {
            Ok(n) => n,
            Err(e) => {
                return Err(e);
            },
        };
        let first = match name.as_array() {
            Some(items) => if items.len() > 0 {
                &items[0]
            } else {
                return Err(CommErr::MissingField(String::from_str("properties")));
            },
            None => {
                return Err(CommErr::MissingField(String::from_str("properties")));
            },
        };
        let title = match get_value_str(first, "plain_text") {
            Ok(t) => t,
            Err(e) => {
                return Err(e);
            },
        };
        let archived = match page.get("archived") {
            Some(a) => match a.as_bool() {
                Some(b) => b,
                None => false,
            },
            None => {
                return Err(CommErr::MissingField(String::from_str("archived")));
            },
        };
        let url = read_or_none(page, "url");
        Ok(
            Page {
                id,
                created_time,
                edited_time,
                author,
                editor_id,
                cover,
                icon,
                title,
                archived,
                url,
                properties,
                content: Block::default(),
            },
        )
    }

    /// Takes the blocks of the page as its content and renders them.
    pub fn content(&mut self, block: Block) -> (r: String)
        ensures
            final(self)@ == (PageView { content: block@, ..old(self)@ }),
            r@ == document_text(block@),
    {
        self.content = block;
        self.content.render()
    }

    /// The first property of the page that is named `key`.
    pub fn search_property(&self, key: &str) -> (r: Option<&Property>)
        ensures
            match r {
                Some(p) => find_property(self@.properties, key@) == Some(p@),
                None => find_property(self@.properties, key@) is None,
            },
    {
        Page::search_property_static(&self.properties, key)
    }

    /// The first of `properties` that is named `key`.
    pub fn search_property_static<'a>(properties: &'a Vec<Property>, key: &str) -> (r: Option<
        &'a Property,
    >)
        ensures
            match r {
                Some(p) => find_property(props_view(properties@), key@) == Some(p@),
                None => find_property(props_view(properties@), key@) is None,
            },
    {
        let ghost props = props_view(properties@);
        let mut i: usize = 0;
        while i < properties.len()
            invariant
                i <= properties.len(),
                props == props_view(properties@),
                find_index(props, key@, i as int) is None,
            decreases properties.len() - i,
        {
            if same_text(properties[i].property.name(), key) {
                proof {
                    lemma_found_stays(props, key@, i as int, properties.len() as int);
                }
                return Some(&properties[i]);
            }
            i = i + 1;
        }
        None
    }
}

/// The first property with the name, once found among the first `n + 1`,
/// is the one found among any more.
proof fn lemma_found_stays(props: Seq<PropertyView>, key: Seq<char>, n: int, m: int)
    requires
        0 <= n < m <= props.len(),
        find_index(props, key, n) is None,
        props[n].property.name == key,
    ensures
        find_index(props, key, m) == Some(n),
    decreases m - n,
{
    if m > n + 1 {
        lemma_found_stays(props, key, n, m - 1);
    }
}

} // verus!
