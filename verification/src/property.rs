//! The typed properties of a page: the kinds of property, the author, and
//! the values of a property as texts.

use vstd::prelude::*;
use vstd::string::StringExecFns;
use crate::error::{CommErr, CommErrView};
use crate::filter::{Filter, FilterView};
use crate::json::{
    fields_view, get_property_value, get_value_opt_str, get_value_str, items_view, json_text, json_text_of, lookup,
    position,
    Json, JsonView,
};
use crate::strings::same_text;

verus! {

/// The kind of a property.
#[derive(Clone, Copy, Debug, PartialEq, Eq, Structural)]
pub enum PropertyKind {
    Text,
    Number,
    Checkbox,
    Select,
    MultiSelect,
    Status,
    Date,
    People,
    Files,
    Relation,
    Rollup,
    Formula,
}

impl PropertyKind {
    /// The tag that names the kind.
    pub open spec fn tag(self) -> Seq<char> {
        match self {
            PropertyKind::Text => "rich_text"@,
            PropertyKind::Number => "number"@,
            PropertyKind::Checkbox => "checkbox"@,
            PropertyKind::Select => "select"@,
            PropertyKind::MultiSelect => "multi_select"@,
            PropertyKind::Status => "status"@,
            PropertyKind::Date => "date"@,
            PropertyKind::People => "people"@,
            PropertyKind::Files => "files"@,
            PropertyKind::Relation => "relation"@,
            PropertyKind::Rollup => "rollup"@,
            PropertyKind::Formula => "formula"@,
        }
    }

    /// The kind that a tag names.
    pub open spec fn of_tag(tag: Seq<char>) -> Option<PropertyKind> {
        if tag == "rich_text"@ {
            Some(PropertyKind::Text)
        } else if tag == "number"@ {
            Some(PropertyKind::Number)
        } else if tag == "checkbox"@ {
            Some(PropertyKind::Checkbox)
        } else if tag == "select"@ {
            Some(PropertyKind::Select)
        } else if tag == "multi_select"@ {
            Some(PropertyKind::MultiSelect)
        } else if tag == "status"@ {
            Some(PropertyKind::Status)
        } else if tag == "date"@ {
            Some(PropertyKind::Date)
        } else if tag == "people"@ {
            Some(PropertyKind::People)
        } else if tag == "files"@ {
            Some(PropertyKind::Files)
        } else if tag == "relation"@ {
            Some(PropertyKind::Relation)
        } else if tag == "rollup"@ {
            Some(PropertyKind::Rollup)
        } else if tag == "formula"@ {
            Some(PropertyKind::Formula)
        } else {
            None
        }
    }

    /// The template of the JSON text that sets a property of this kind,
    /// with the placeholders `{name}` and `{value}`. Only some kinds can be
    /// set.
    pub open spec fn update_template(self) -> Option<Seq<char>> {
        match self {
            PropertyKind::Text => Some("\"{name}\": {\"rich_text\": [ {\"text\": {\"content\": \"{value}\"} } ] }"@),
            PropertyKind::Number => Some("\"{name}\": {\"number\": {value}}"@),
            PropertyKind::Checkbox => Some("\"{name}\": {\"checkbox\": {value}}"@),
            PropertyKind::Select => Some("\"{name}\": {\"select\": {\"name\": \"{value}\"}}"@),
            PropertyKind::MultiSelect => Some("\"{name}\": {\"multi_select\": [ {\"name\": \"{value}\"} ] }"@),
            PropertyKind::Status => Some("\"{name}\": {\"status\": {\"name\": \"{value}\"}}"@),
            PropertyKind::Date => Some("\"{name}\": {\"date\": {\"start\": \"{value}\"}}"@),
            _ => None,
        }
    }

    /// The field of an entry that holds the value of a property of this
    /// kind.
    pub open spec fn data_key(self) -> Seq<char> {
        match self {
            PropertyKind::Date => "start"@,
            PropertyKind::Text => "plain_text"@,
            PropertyKind::Checkbox => "checkbox"@,
            PropertyKind::Number => "number"@,
            _ => "name"@,
        }
    }
}

/// A property by its kind and its name.
#[derive(Debug, PartialEq, Eq)]
pub enum PropertyType {
    Text(String),
    Number(String),
    Checkbox(String),
    Select(String),
    MultiSelect(String),
    Status(String),
    Date(String),
    People(String),
    Files(String),
    Relation(String),
    Rollup(String),
    Formula(String),
}

/// A property as a mathematical value.
pub struct PropertyTypeView {
    pub kind: PropertyKind,
    pub name: Seq<char>,
}

impl View for PropertyType {
    type V = PropertyTypeView;

    open spec fn view(&self) -> PropertyTypeView {
        match self {
            PropertyType::Text(s) => PropertyTypeView { kind: PropertyKind::Text, name: s@ },
            PropertyType::Number(s) => PropertyTypeView { kind: PropertyKind::Number, name: s@ },
            PropertyType::Checkbox(s) => PropertyTypeView { kind: PropertyKind::Checkbox, name: s@ },
            PropertyType::Select(s) => PropertyTypeView { kind: PropertyKind::Select, name: s@ },
            PropertyType::MultiSelect(s) => PropertyTypeView { kind: PropertyKind::MultiSelect, name: s@ },
            PropertyType::Status(s) => PropertyTypeView { kind: PropertyKind::Status, name: s@ },
            PropertyType::Date(s) => PropertyTypeView { kind: PropertyKind::Date, name: s@ },
            PropertyType::People(s) => PropertyTypeView { kind: PropertyKind::People, name: s@ },
            PropertyType::Files(s) => PropertyTypeView { kind: PropertyKind::Files, name: s@ },
            PropertyType::Relation(s) => PropertyTypeView { kind: PropertyKind::Relation, name: s@ },
            PropertyType::Rollup(s) => PropertyTypeView { kind: PropertyKind::Rollup, name: s@ },
            PropertyType::Formula(s) => PropertyTypeView { kind: PropertyKind::Formula, name: s@ },
        }
    }
}

impl Clone for PropertyType {
    fn clone(&self) -> (r: Self)
        ensures
            r@ == self@,
    {
        match self {
            PropertyType::Text(s) => PropertyType::Text(s.clone()),
            PropertyType::Number(s) => PropertyType::Number(s.clone()),
            PropertyType::Checkbox(s) => PropertyType::Checkbox(s.clone()),
            PropertyType::Select(s) => PropertyType::Select(s.clone()),
            PropertyType::MultiSelect(s) => PropertyType::MultiSelect(s.clone()),
            PropertyType::Status(s) => PropertyType::Status(s.clone()),
            PropertyType::Date(s) => PropertyType::Date(s.clone()),
            PropertyType::People(s) => PropertyType::People(s.clone()),
            PropertyType::Files(s) => PropertyType::Files(s.clone()),
            PropertyType::Relation(s) => PropertyType::Relation(s.clone()),
            PropertyType::Rollup(s) => PropertyType::Rollup(s.clone()),
            PropertyType::Formula(s) => PropertyType::Formula(s.clone()),
        }
    }
}

impl PropertyType {
    /// The kind of the property.
    pub fn kind(&self) -> (r: PropertyKind)
        ensures
            r == self@.kind,
    {
        match self {
            PropertyType::Text(_) => PropertyKind::Text,
            PropertyType::Number(_) => PropertyKind::Number,
            PropertyType::Checkbox(_) => PropertyKind::Checkbox,
            PropertyType::Select(_) => PropertyKind::Select,
            PropertyType::MultiSelect(_) => PropertyKind::MultiSelect,
            PropertyType::Status(_) => PropertyKind::Status,
            PropertyType::Date(_) => PropertyKind::Date,
            PropertyType::People(_) => PropertyKind::People,
            PropertyType::Files(_) => PropertyKind::Files,
            PropertyType::Relation(_) => PropertyKind::Relation,
            PropertyType::Rollup(_) => PropertyKind::Rollup,
            PropertyType::Formula(_) => PropertyKind::Formula,
        }
    }

    /// A property of the given kind and name.
    pub fn of_kind(kind: PropertyKind, name: String) -> (r: PropertyType)
        ensures
            r@ == (PropertyTypeView { kind, name: name@ }),
    {
        match kind {
            PropertyKind::Text => PropertyType::Text(name),
            PropertyKind::Number => PropertyType::Number(name),
            PropertyKind::Checkbox => PropertyType::Checkbox(name),
            PropertyKind::Select => PropertyType::Select(name),
            PropertyKind::MultiSelect => PropertyType::MultiSelect(name),
            PropertyKind::Status => PropertyType::Status(name),
            PropertyKind::Date => PropertyType::Date(name),
            PropertyKind::People => PropertyType::People(name),
            PropertyKind::Files => PropertyType::Files(name),
            PropertyKind::Relation => PropertyType::Relation(name),
            PropertyKind::Rollup => PropertyType::Rollup(name),
            PropertyKind::Formula => PropertyType::Formula(name),
        }
    }

    /// Reads a property without a name from the tag of its kind.
    pub fn from_str(tag: &str) -> (r: Result<PropertyType, CommErr>)
        ensures
            match r {
                Ok(p) => PropertyKind::of_tag(tag@) == Some(p@.kind) && p@.name
                    == Seq::<char>::empty(),
                Err(e) => PropertyKind::of_tag(tag@) is None && e@
                    == CommErrView::UnsupportedKind(tag@),
            },
    {
        if same_text(tag, "rich_text") {
            Ok(PropertyType::Text(String::new()))
        } else if same_text(tag, "number") {
            Ok(PropertyType::Number(String::new()))
        } else if same_text(tag, "checkbox") {
            Ok(PropertyType::Checkbox(String::new()))
        } else if same_text(tag, "select") {
            Ok(PropertyType::Select(String::new()))
        } else if same_text(tag, "multi_select") {
            Ok(PropertyType::MultiSelect(String::new()))
        } else if same_text(tag, "status") {
            Ok(PropertyType::Status(String::new()))
        } else if same_text(tag, "date") {
            Ok(PropertyType::Date(String::new()))
        } else if same_text(tag, "people") {
            Ok(PropertyType::People(String::new()))
        } else if same_text(tag, "files") {
            Ok(PropertyType::Files(String::new()))
        } else if same_text(tag, "relation") {
            Ok(PropertyType::Relation(String::new()))
        } else if same_text(tag, "rollup") {
            Ok(PropertyType::Rollup(String::new()))
        } else if same_text(tag, "formula") {
            Ok(PropertyType::Formula(String::new()))
        } else {
            Err(CommErr::UnsupportedKind(String::from_str(tag)))
        }
    }

    /// The tag that names the kind of the property.
    pub fn to_str(&self) -> (r: &'static str)
        ensures
            r@ == self@.kind.tag(),
    {
        match self {
            PropertyType::Text(_) => "rich_text",
            PropertyType::Number(_) => "number",
            PropertyType::Checkbox(_) => "checkbox",
            PropertyType::Select(_) => "select",
            PropertyType::MultiSelect(_) => "multi_select",
            PropertyType::Status(_) => "status",
            PropertyType::Date(_) => "date",
            PropertyType::People(_) => "people",
            PropertyType::Files(_) => "files",
            PropertyType::Relation(_) => "relation",
            PropertyType::Rollup(_) => "rollup",
            PropertyType::Formula(_) => "formula",
        }
    }

    /// The template of the JSON text that sets the property, if it can be
    /// set.
    pub fn update_json(&self) -> (r: Option<&'static str>)
        ensures
            match r {
                Some(t) => self@.kind.update_template() == Some(t@),
                None => self@.kind.update_template() is None,
            },
    {
        match self {
            PropertyType::Text(_) => Some("\"{name}\": {\"rich_text\": [ {\"text\": {\"content\": \"{value}\"} } ] }"),
            PropertyType::Number(_) => Some("\"{name}\": {\"number\": {value}}"),
            PropertyType::Checkbox(_) => Some("\"{name}\": {\"checkbox\": {value}}"),
            PropertyType::Select(_) => Some("\"{name}\": {\"select\": {\"name\": \"{value}\"}}"),
            PropertyType::MultiSelect(_) => Some("\"{name}\": {\"multi_select\": [ {\"name\": \"{value}\"} ] }"),
            PropertyType::Status(_) => Some("\"{name}\": {\"status\": {\"name\": \"{value}\"}}"),
            PropertyType::Date(_) => Some("\"{name}\": {\"date\": {\"start\": \"{value}\"}}"),
            _ => None,
        }
    }

    /// The name of the property.
    pub fn get_val(&self) -> (r: String)
        ensures
            r@ == self@.name,
    {
        match self {
            PropertyType::Text(s) => s.clone(),
            PropertyType::Number(s) => s.clone(),
            PropertyType::Checkbox(s) => s.clone(),
            PropertyType::Select(s) => s.clone(),
            PropertyType::MultiSelect(s) => s.clone(),
            PropertyType::Status(s) => s.clone(),
            PropertyType::Date(s) => s.clone(),
            PropertyType::People(s) => s.clone(),
            PropertyType::Files(s) => s.clone(),
            PropertyType::Relation(s) => s.clone(),
            PropertyType::Rollup(s) => s.clone(),
            PropertyType::Formula(s) => s.clone(),
        }
    }

    /// The property of the same kind under the name `val`.
    pub fn reset_val(&self, val: String) -> (r: PropertyType)
        ensures
            r@ == (PropertyTypeView { kind: self@.kind, name: val@ }),
    {
        PropertyType::of_kind(self.kind(), val)
    }

    /// Whether the two are of one kind and name.
    pub fn same(&self, other: &PropertyType) -> (r: bool)
        ensures
            r == (self@ == other@),
    {
        self.kind() == other.kind() && same_text(self.name(), other.name())
    }

    /// The name of the property.
    pub fn name(&self) -> (r: &str)
        ensures
            r@ == self@.name,
    {
        match self {
            PropertyType::Text(s) => s.as_str(),
            PropertyType::Number(s) => s.as_str(),
            PropertyType::Checkbox(s) => s.as_str(),
            PropertyType::Select(s) => s.as_str(),
            PropertyType::MultiSelect(s) => s.as_str(),
            PropertyType::Status(s) => s.as_str(),
            PropertyType::Date(s) => s.as_str(),
            PropertyType::People(s) => s.as_str(),
            PropertyType::Files(s) => s.as_str(),
            PropertyType::Relation(s) => s.as_str(),
            PropertyType::Rollup(s) => s.as_str(),
            PropertyType::Formula(s) => s.as_str(),
        }
    }

    /// The filter that holds where the property equals `val`.
    pub fn equals(self, val: &str) -> (r: Filter)
        ensures
            r@ == FilterView::leaf(self@, "equals"@, val@),
    {
        Filter::new(self, (String::from_str("equals"), String::from_str(val)))
    }

    /// The filter that holds where the property does not equal `val`.
    pub fn does_not_equal(self, val: &str) -> (r: Filter)
        ensures
            r@ == FilterView::leaf(self@, "does_not_equal"@, val@),
    {
        Filter::new(self, (String::from_str("does_not_equal"), String::from_str(val)))
    }

    /// The filter that holds where the property contains `val`.
    pub fn contains(self, val: &str) -> (r: Filter)
        ensures
            r@ == FilterView::leaf(self@, "contains"@, val@),
    {
        Filter::new(self, (String::from_str("contains"), String::from_str(val)))
    }

    /// The filter that holds where the property does not contain `val`.
    pub fn does_not_contain(self, val: &str) -> (r: Filter)
        ensures
            r@ == FilterView::leaf(self@, "does_not_contain"@, val@),
    {
        Filter::new(self, (String::from_str("does_not_contain"), String::from_str(val)))
    }
}

/// Who wrote a page.
#[derive(Debug, PartialEq, Eq)]
pub struct Author {
    pub id: String,
    pub name: String,
    pub avatar_url: String,
    pub email: String,
    pub user_type: String,
}

/// An author as a mathematical value.
pub struct AuthorView {
    pub id: Seq<char>,
    pub name: Seq<char>,
    pub avatar_url: Seq<char>,
    pub email: Seq<char>,
    pub user_type: Seq<char>,
}

impl View for Author {
    type V = AuthorView;

    open spec fn view(&self) -> AuthorView {
        AuthorView {
            id: self.id@,
            name: self.name@,
            avatar_url: self.avatar_url@,
            email: self.email@,
            user_type: self.user_type@,
        }
    }
}

impl AuthorView {
    /// The e-mail address of a user: the field `email` of the user's field
    /// `person`.
    pub open spec fn email_of(author: JsonView) -> Result<Seq<char>, CommErrView> {
        match author.field("person"@) {
            Some(person) => person.str_field("email"@),
            None => Err(CommErrView::MissingField("email"@)),
        }
    }

    /// The author that the property `Author` of a list of properties
    /// describes: the payload of that property, with its fields `id`,
    /// `name`, `avatar_url`, the e-mail address and `type`, all of which
    /// must be there; the name and the address of the picture may be
    /// `null`.
    pub open spec fn of_json(properties: JsonView) -> Result<AuthorView, CommErrView> {
        match properties.property_value(Some("Author"@)) {
            Err(e) => Err(e),
            Ok(author) => match author.str_field("id"@) {
                Err(e) => Err(e),
                Ok(id) => match author.opt_str_field("name"@) {
                    Err(e) => Err(e),
                    Ok(name) => match author.opt_str_field("avatar_url"@) {
                        Err(e) => Err(e),
                        Ok(avatar_url) => match AuthorView::email_of(author) {
                            Err(e) => Err(e),
                            Ok(email) => match author.str_field("type"@) {
                                Err(e) => Err(e),
                                Ok(user_type) => Ok(
                                    AuthorView { id, name, avatar_url, email, user_type },
                                ),
                            },
                        },
                    },
                },
            },
        }
    }
}

impl Author {
    /// Reads the author from the properties of a page.
    pub fn new(property_list: &Json) -> (r: Result<Author, CommErr>)
        ensures
            match r {
                Ok(a) => AuthorView::of_json(property_list@) == Ok::<AuthorView, CommErrView>(a@),
                Err(e) => AuthorView::of_json(property_list@) == Err::<AuthorView, CommErrView>(
                    e@,
                ),
            },
    {
        let author = match get_property_value(property_list, Some("Author")) {
            Ok(a) => a,
            Err(e) => {
                return Err(e);
            },
        };
        let id = match get_value_str(author, "id") {
            Ok(t) => t,
            Err(e) => {
                return Err(e);
            },
        };
        let name = match get_value_opt_str(author, "name") {
            Ok(t) => t,
            Err(e) => {
                return Err(e);
            },
        };
        let avatar_url = match get_value_opt_str(author, "avatar_url") {
            Ok(t) => t,
            Err(e) => {
                return Err(e);
            },
        };
        let email = match author.get("person") {
            Some(person) => match get_value_str(person, "email") {
                Ok(t) => t,
                Err(e) => {
                    return Err(e);
                },
            },
            None => {
                return Err(CommErr::MissingField(String::from_str("email")));
            },
        };
        let user_type = match get_value_str(author, "type") {
            Ok(t) => t,
            Err(e) => {
                return Err(e);
            },
        };
        Ok(Author { id, name, avatar_url, email, user_type })
    }
}

/// A property of a page with its values: one entry, a list of named
/// fields, for each value.
#[derive(Debug, PartialEq, Eq)]
pub struct Property {
    pub property: PropertyType,
    pub data: Vec<Vec<(String, Json)>>,
}

/// A property with its values as a mathematical value.
pub struct PropertyView {
    pub property: PropertyTypeView,
    pub data: Seq<Seq<(Seq<char>, JsonView)>>,
}

/// The mathematical values of the entries of a property.
pub open spec fn entries_view(data: Seq<Vec<(String, Json)>>) -> Seq<Seq<(Seq<char>, JsonView)>> {
    Seq::new(data.len(), |i: int| fields_view(data[i]@))
}

/// The mathematical values of a list of texts.
pub open spec fn texts_view(texts: Seq<String>) -> Seq<Seq<char>> {
    Seq::new(texts.len(), |i: int| texts[i]@)
}

impl View for Property {
    type V = PropertyView;

    open spec fn view(&self) -> PropertyView {
        PropertyView { property: self.property@, data: entries_view(self.data@) }
    }
}

/// The entry that one value of a property makes: none for `null`, the
/// fields of an object, and for any other value one field, named by the
/// type, that holds it.
pub open spec fn entry_of(v: JsonView, type_tag: Seq<char>) -> Seq<(Seq<char>, JsonView)> {
    match v {
        JsonView::Null => Seq::empty(),
        JsonView::Object(fields) => fields,
        _ => seq![(type_tag, v)],
    }
}

/// The entries that the values of a property make, without the empty
/// ones.
pub open spec fn entries_of(list: Seq<JsonView>, type_tag: Seq<char>) -> Seq<
    Seq<(Seq<char>, JsonView)>,
>
    decreases list.len(),
{
    if list.len() == 0 {
        Seq::empty()
    } else {
        let rest = entries_of(list.drop_last(), type_tag);
        let entry = entry_of(list.last(), type_tag);
        if entry.len() == 0 {
            rest
        } else {
            rest.push(entry)
        }
    }
}

/// The text of one value of a property of the given kind: a number as it
/// is shown, and what is no number as its JSON text; a checkbox as
/// `true` or `false`; any other kind as the text of a string, and as
/// nothing where the value is no string.
pub open spec fn value_text(kind: PropertyKind, v: JsonView) -> Seq<char> {
    match kind {
        PropertyKind::Number => match v {
            JsonView::Number(_, shown) => shown,
            _ => json_text_of(v),
        },
        PropertyKind::Checkbox => if v == JsonView::Bool(true) {
            "true"@
        } else {
            "false"@
        },
        _ => v.text_or_empty(),
    }
}

/// The texts of the values in the entries, read from the field `key` of
/// each; the first entry without that field fails the whole.
pub open spec fn texts_of(
    kind: PropertyKind,
    data: Seq<Seq<(Seq<char>, JsonView)>>,
    key: Seq<char>,
) -> Result<Seq<Seq<char>>, CommErrView>
    decreases data.len(),
{
    if data.len() == 0 {
        Ok(Seq::empty())
    } else {
        match texts_of(kind, data.drop_last(), key) {
            Err(e) => Err(e),
            Ok(texts) => match lookup(data.last(), key) {
                None => Err(CommErrView::MissingField(key)),
                Some(v) => Ok(texts.push(value_text(kind, v))),
            },
        }
    }
}

impl PropertyView {
    /// The property named `key` that a raw value describes. The value is
    /// typed; its payload is one value or an array of values.
    pub open spec fn of_json(key: Seq<char>, value: JsonView) -> Result<PropertyView, CommErrView> {
        match value.typed_payload() {
            Err(e) => Err(e),
            Ok(data) => {
                let type_tag = value.str_field("type"@)->Ok_0;
                let list = match data {
                    JsonView::Array(items) => items,
                    _ => seq![data],
                };
                match PropertyKind::of_tag(type_tag) {
                    None => Err(CommErrView::UnsupportedKind(type_tag)),
                    Some(kind) => Ok(
                        PropertyView {
                            property: PropertyTypeView { kind, name: key },
                            data: entries_of(list, type_tag),
                        },
                    ),
                }
            },
        }
    }

    /// The values of the property as texts. A property without values has
    /// none to give, which is an error.
    pub open spec fn values(self) -> Result<Seq<Seq<char>>, CommErrView> {
        if self.data.len() < 1 {
            Err(CommErrView::MissingField(self.property.name))
        } else {
            texts_of(self.property.kind, self.data, self.property.kind.data_key())
        }
    }

    /// The one value of the property as a text: nothing where it has no
    /// value. More than one value, and a value without the field that holds
    /// it, are errors.
    pub open spec fn shown(self) -> Result<Seq<char>, CommErrView> {
        if self.data.len() == 0 {
            Ok(Seq::empty())
        } else if self.data.len() > 1 {
            Err(CommErrView::WrongFieldType(self.property.name))
        } else {
            match lookup(self.data[0], self.property.kind.data_key()) {
                None => Err(CommErrView::MissingField(self.property.kind.data_key())),
                Some(v) => Ok(value_text(self.property.kind, v)),
            }
        }
    }
}

/// Once the first `n` entries hold one without the field, the whole fails
/// with the same error.
proof fn lemma_texts_fail(
    kind: PropertyKind,
    data: Seq<Seq<(Seq<char>, JsonView)>>,
    key: Seq<char>,
    n: int,
)
    requires
        0 <= n <= data.len(),
        texts_of(kind, data.take(n), key) is Err,
    ensures
        texts_of(kind, data, key) == texts_of(kind, data.take(n), key),
    decreases data.len() - n,
{
    if n < data.len() {
        assert(data.take(n + 1).drop_last() =~= data.take(n));
        lemma_texts_fail(kind, data, key, n + 1);
    } else {
        assert(data.take(n) =~= data);
    }
}

/// A copy of the fields of an object.
fn copy_fields(fields: &Vec<(String, Json)>) -> (r: Vec<(String, Json)>)
    ensures
        fields_view(r@) == fields_view(fields@),
{
    let mut out: Vec<(String, Json)> = Vec::new();
    let mut i: usize = 0;
    while i < fields.len()
        invariant
            i <= fields.len(),
            out.len() == i,
            forall|j: int|
                0 <= j < i ==> out@[j].0@ == fields@[j].0@ && out@[j].1@ == fields@[j].1@,
        decreases fields.len() - i,
    {
        out.push((fields[i].0.clone(), fields[i].1.clone()));
        i = i + 1;
    }
    assert(fields_view(out@) =~= fields_view(fields@));
    out
}

/// The entry that one value of a property makes.
fn read_entry(v: &Json, type_tag: &str) -> (r: Vec<(String, Json)>)
    ensures
        fields_view(r@) == entry_of(v@, type_tag@),
{
    match v {
        Json::Null => {
            let out: Vec<(String, Json)> = Vec::new();
            assert(fields_view(out@) =~= Seq::empty());
            out
        },
        Json::Object(fields) => copy_fields(fields),
        _ => {
            let mut out: Vec<(String, Json)> = Vec::new();
            out.push((String::from_str(type_tag), v.clone()));
            assert(fields_view(out@) =~= seq![(type_tag@, v@)]);
            out
        },
    }
}

impl Property {
    /// Reads the property named `key` from its raw value.
    pub fn new(key: &String, value: &Json) -> (r: Result<Property, CommErr>)
        ensures
            match r {
                Ok(p) => PropertyView::of_json(key@, value@) == Ok::<PropertyView, CommErrView>(
                    p@,
                ),
                Err(e) => PropertyView::of_json(key@, value@) == Err::<PropertyView, CommErrView>(
                    e@,
                ),
            },
    {
        let payload = match get_property_value(value, None) {
            Ok(d) => d,
            Err(e) => {
                return Err(e);
            },
        };
        let type_tag = match get_value_str(value, "type") {
            Ok(t) => t,
            Err(e) => {
                return Err(e);
            },
        };
        let mut data: Vec<Vec<(String, Json)>> = Vec::new();
        match payload.as_array() {
            Some(items) => {
                let ghost list = items_view(items@);
                let mut i: usize = 0;
                assert(list.take(0) =~= Seq::<JsonView>::empty());
                assert(entries_view(data@) =~= Seq::empty());
                while i < items.len()
                    invariant
                        i <= items.len(),
                        list == items_view(items@),
                        entries_view(data@) == entries_of(list.take(i as int), type_tag@),
                    decreases items.len() - i,
                {
                    assert(list.take(i + 1).drop_last() =~= list.take(i as int));
                    assert(list.take(i + 1).last() == items@[i as int]@);
                    let entry = read_entry(&items[i], type_tag.as_str());
                    let ghost before = entries_view(data@);
                    if entry.len() != 0 {
                        data.push(entry);
                        assert(entries_view(data@) =~= before.push(fields_view(entry@)));
                    }
                    i = i + 1;
                }
                assert(list.take(items.len() as int) =~= list);
                assert(entries_view(data@) == entries_of(list, type_tag@));
            },
            None => {
                let ghost list = seq![payload@];
                assert(list.drop_last() =~= Seq::<JsonView>::empty());
                assert(list.last() == payload@);
                assert(entries_of(list.drop_last(), type_tag@) =~= Seq::empty());
                let entry = read_entry(payload, type_tag.as_str());
                if entry.len() != 0 {
                    data.push(entry);
                    assert(entries_view(data@) =~= Seq::empty().push(fields_view(entry@)));
                } else {
                    assert(entries_view(data@) =~= Seq::empty());
                }
                assert(entries_view(data@) == entries_of(list, type_tag@));
            },
        }
        let property = match PropertyType::from_str(type_tag.as_str()) {
            Ok(p) => p.reset_val(key.clone()),
            Err(e) => {
                return Err(e);
            },
        };
        Ok(Property { property, data })
    }

    /// The field of an entry that holds the value.
    pub fn data_key(&self) -> (r: String)
        ensures
            r@ == self@.property.kind.data_key(),
    {
        match self.property {
            PropertyType::Date(_) => String::from_str("start"),
            PropertyType::Text(_) => String::from_str("plain_text"),
            PropertyType::Checkbox(_) => String::from_str("checkbox"),
            PropertyType::Number(_) => String::from_str("number"),
            _ => String::from_str("name"),
        }
    }

    /// The values of the property as texts.
    pub fn to_array(&self) -> (r: Result<Vec<String>, CommErr>)
        ensures
            match r {
                Ok(texts) => self@.values() == Ok::<Seq<Seq<char>>, CommErrView>(
                    texts_view(texts@),
                ),
                Err(e) => self@.values() == Err::<Seq<Seq<char>>, CommErrView>(e@),
            },
    {
        if self.data.len() < 1 {
            return Err(CommErr::MissingField(self.property.get_val()));
        }
        let key = self.data_key();
        let ghost kind = self@.property.kind;
        let ghost all = entries_view(self.data@);
        let mut res: Vec<String> = Vec::new();
        let mut i: usize = 0;
        assert(all.take(0) =~= Seq::empty());
        assert(texts_view(res@) =~= Seq::empty());
        while i < self.data.len()
            invariant
                i <= self.data.len(),
                all == entries_view(self.data@),
                kind == self@.property.kind,
                key@ == kind.data_key(),
                texts_of(kind, all.take(i as int), key@) == Ok::<Seq<Seq<char>>, CommErrView>(
                    texts_view(res@),
                ),
            decreases self.data.len() - i,
        {
            assert(all.take(i + 1).drop_last() =~= all.take(i as int));
            assert(all.take(i + 1).last() == fields_view(self.data@[i as int]@));
            let ghost before = texts_view(res@);
            match position(&self.data[i], key.as_str()) {
                Some(k) => {
                    let t = Property::data_to_string(&self.property, &self.data[i][k].1);
                    res.push(t);
                    assert(texts_view(res@) =~= before.push(t@));
                },
                None => {
                    proof {
                        lemma_texts_fail(kind, all, key@, i + 1);
                    }
                    return Err(CommErr::MissingField(key));
                },
            }
            i = i + 1;
        }
        assert(all.take(self.data.len() as int) =~= all);
        Ok(res)
    }

    /// Whether the property has no value.
    pub fn is_empty(&self) -> (r: bool)
        ensures
            r == (self@.data.len() == 0),
    {
        self.data.len() == 0
    }

    /// The text of one value of a property.
    pub fn data_to_string(ptype: &PropertyType, data: &Json) -> (r: String)
        ensures
            r@ == value_text(ptype@.kind, data@),
    {
        match ptype {
            PropertyType::Number(_) => match data {
                Json::Number(_, shown) => shown.clone(),
                _ => json_text(data),
            },
            PropertyType::Checkbox(_) => match data.as_bool() {
                Some(true) => String::from_str("true"),
                _ => String::from_str("false"),
            },
            _ => match data.as_str() {
                Some(t) => String::from_str(t),
                None => String::new(),
            },
        }
    }

    /// The one value of the property as a text.
    pub fn to_text(&self) -> (r: Result<String, CommErr>)
        ensures
            match r {
                Ok(t) => self@.shown() == Ok::<Seq<char>, CommErrView>(t@),
                Err(e) => self@.shown() == Err::<Seq<char>, CommErrView>(e@),
            },
    {
        if self.data.len() == 0 {
            return Ok(String::new());
        }
        if self.data.len() > 1 {
            return Err(CommErr::WrongFieldType(self.property.get_val()));
        }
        let key = self.data_key();
        match position(&self.data[0], key.as_str()) {
            Some(k) => Ok(Property::data_to_string(&self.property, &self.data[0][k].1)),
            None => Err(CommErr::MissingField(key)),
        }
    }
}

} // verus!
