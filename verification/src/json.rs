//! A semi-structured value, as the remote service sends it, and the typed
//! accessors that read fields out of it.

use vstd::prelude::*;
use vstd::string::StringExecFns;
use crate::error::{CommErr, CommErrView};
use crate::strings::same_text;

verus! {

/// A JSON value. A number is kept as two texts: as JSON writes it, and as
/// it is shown to a reader. An object keeps its fields in the order in
/// which they were given.
#[derive(Debug, PartialEq, Eq)]
pub enum Json {
    Null,
    Bool(bool),
    Number(String, String),
    Text(String),
    Array(Vec<Json>),
    Object(Vec<(String, Json)>),
}

/// The values of `serde_json`, which the library hands on and does not
/// look into.
#[verifier::external_type_specification]
#[verifier::external_body]
pub struct ExValue(serde_json::Value);

/// A JSON value as a mathematical value.
pub enum JsonView {
    Null,
    Bool(bool),
    Number(Seq<char>, Seq<char>),
    Text(Seq<char>),
    Array(Seq<JsonView>),
    Object(Seq<(Seq<char>, JsonView)>),
}

/// The mathematical value that `j` stands for.
pub open spec fn json_view(j: Json) -> JsonView
    decreases j, 0nat,
{
    match j {
        Json::Null => JsonView::Null,
        Json::Bool(b) => JsonView::Bool(b),
        Json::Number(t, shown) => JsonView::Number(t@, shown@),
        Json::Text(t) => JsonView::Text(t@),
        Json::Array(items) => JsonView::Array(items_view(items@)),
        Json::Object(fields) => JsonView::Object(fields_view(fields@)),
    }
}

impl View for Json {
    type V = JsonView;

    open spec fn view(&self) -> JsonView {
        json_view(*self)
    }
}

/// The index of the first field named `key`, if there is one.
pub open spec fn index_of(fields: Seq<(Seq<char>, JsonView)>, key: Seq<char>) -> Option<int>
    decreases fields.len(),
{
    if fields.len() == 0 {
        None
    } else if fields[0].0 == key {
        Some(0)
    } else {
        match index_of(fields.drop_first(), key) {
            Some(k) => Some(k + 1),
            None => None,
        }
    }
}

/// The value of the first field named `key`, if there is one.
pub open spec fn lookup(fields: Seq<(Seq<char>, JsonView)>, key: Seq<char>) -> Option<JsonView> {
    match index_of(fields, key) {
        Some(k) => Some(fields[k].1),
        None => None,
    }
}

/// The index of the payload of a typed object: of the first field that is
/// named as the field `type`, a string, says.
pub open spec fn payload_index(fields: Seq<(Seq<char>, JsonView)>) -> Option<int> {
    match index_of(fields, "type"@) {
        Some(t) => match fields[t].1 {
            JsonView::Text(tag) => index_of(fields, tag),
            _ => None,
        },
        None => None,
    }
}

/// The first field named `key` is the one at the index that `index_of`
/// gives: no field before it has that name.
pub proof fn lemma_index_of(fields: Seq<(Seq<char>, JsonView)>, key: Seq<char>)
    ensures
        match index_of(fields, key) {
            Some(k) => 0 <= k < fields.len() && fields[k].0 == key && forall|j: int|
                0 <= j < k ==> fields[j].0 != key,
            None => forall|j: int| 0 <= j < fields.len() ==> fields[j].0 != key,
        },
    decreases fields.len(),
{
    if fields.len() == 0 {
    } else if fields[0].0 == key {
    } else {
        let rest = fields.drop_first();
        lemma_index_of(rest, key);
        match index_of(rest, key) {
            Some(k) => {
                assert forall|j: int| 0 <= j < k + 1 implies fields[j].0 != key by {
                    if j > 0 {
                        assert(rest[j - 1] == fields[j]);
                    }
                }
                assert(rest[k] == fields[k + 1]);
            },
            None => {
                assert forall|j: int| 0 <= j < fields.len() implies fields[j].0 != key by {
                    if j > 0 {
                        assert(rest[j - 1] == fields[j]);
                    }
                }
            },
        }
    }
}

/// An index at which a field named `key` stands, with none before it, is
/// the index that `index_of` gives.
pub proof fn lemma_index_of_found(fields: Seq<(Seq<char>, JsonView)>, key: Seq<char>, k: int)
    requires
        0 <= k < fields.len(),
        fields[k].0 == key,
        forall|j: int| 0 <= j < k ==> fields[j].0 != key,
    ensures
        index_of(fields, key) == Some(k),
{
    lemma_index_of(fields, key);
}

/// Where no field is named `key`, `index_of` gives nothing.
pub proof fn lemma_index_of_absent(fields: Seq<(Seq<char>, JsonView)>, key: Seq<char>)
    requires
        forall|j: int| 0 <= j < fields.len() ==> fields[j].0 != key,
    ensures
        index_of(fields, key) is None,
{
    lemma_index_of(fields, key);
}

impl JsonView {
    /// The field `key` of an object; nothing for a value that is no object
    /// or has no such field.
    pub open spec fn field(self, key: Seq<char>) -> Option<JsonView> {
        match self {
            JsonView::Object(fields) => lookup(fields, key),
            _ => None,
        }
    }

    /// The text of a string value.
    pub open spec fn text(self) -> Option<Seq<char>> {
        match self {
            JsonView::Text(t) => Some(t),
            _ => None,
        }
    }

    /// The text of a string value; the empty text for any other value.
    pub open spec fn text_or_empty(self) -> Seq<char> {
        match self {
            JsonView::Text(t) => t,
            _ => Seq::empty(),
        }
    }

    /// The field `key` read as a text: an error where the field is absent,
    /// and where its value is no string.
    pub open spec fn str_field(self, key: Seq<char>) -> Result<Seq<char>, CommErrView> {
        match self.field(key) {
            Some(JsonView::Text(t)) => Ok(t),
            Some(_) => Err(CommErrView::WrongFieldType(key)),
            None => Err(CommErrView::MissingField(key)),
        }
    }

    /// The field `key` read as a text that may be left open: `null` reads
    /// as the empty text. An error where the field is absent, and where
    /// its value is neither a string nor `null`.
    pub open spec fn opt_str_field(self, key: Seq<char>) -> Result<Seq<char>, CommErrView> {
        match self.field(key) {
            Some(JsonView::Text(t)) => Ok(t),
            Some(JsonView::Null) => Ok(Seq::empty()),
            Some(_) => Err(CommErrView::WrongFieldType(key)),
            None => Err(CommErrView::MissingField(key)),
        }
    }

    /// The field `key` read as a truth value: an error where the field is
    /// absent, and where its value is no boolean.
    pub open spec fn bool_field(self, key: Seq<char>) -> Result<bool, CommErrView> {
        match self.field(key) {
            Some(JsonView::Bool(b)) => Ok(b),
            Some(_) => Err(CommErrView::WrongFieldType(key)),
            None => Err(CommErrView::MissingField(key)),
        }
    }

    /// The field `key` read as an array: an error where the field is
    /// absent, and where its value is no array.
    pub open spec fn array_field(self, key: Seq<char>) -> Result<Seq<JsonView>, CommErrView> {
        match self.field(key) {
            Some(JsonView::Array(items)) => Ok(items),
            Some(_) => Err(CommErrView::WrongFieldType(key)),
            None => Err(CommErrView::MissingField(key)),
        }
    }

    /// The field `key` read as an object: an error where the field is
    /// absent, and where its value is no object.
    pub open spec fn object_field(self, key: Seq<char>) -> Result<
        Seq<(Seq<char>, JsonView)>,
        CommErrView,
    > {
        match self.field(key) {
            Some(JsonView::Object(fields)) => Ok(fields),
            Some(_) => Err(CommErrView::WrongFieldType(key)),
            None => Err(CommErrView::MissingField(key)),
        }
    }

    /// The payload of a typed value: the field that the value's `type` field
    /// names.
    pub open spec fn typed_payload(self) -> Result<JsonView, CommErrView> {
        match self.str_field("type"@) {
            Err(e) => Err(e),
            Ok(tag) => match self.field(tag) {
                Some(v) => Ok(v),
                None => Err(CommErrView::MissingField("type"@)),
            },
        }
    }

    /// The payload of the typed value itself (no `index`), or of its field
    /// `index`.
    pub open spec fn property_value(self, index: Option<Seq<char>>) -> Result<
        JsonView,
        CommErrView,
    > {
        match index {
            None => self.typed_payload(),
            Some(i) => match self.field(i) {
                Some(v) => v.typed_payload(),
                None => Err(CommErrView::MissingField(i)),
            },
        }
    }
}

/// The text that a value shows as: a string shows as its text, a typed
/// object as what its payload shows as, anything else as nothing.
pub open spec fn display_text(j: JsonView) -> Seq<char>
    decreases j,
{
    match j {
        JsonView::Text(t) => t,
        JsonView::Object(fields) => match payload_index(fields) {
            Some(k) => if 0 <= k < fields.len() {
                display_text(fields[k].1)
            } else {
                Seq::empty()
            },
            None => Seq::empty(),
        },
        _ => Seq::empty(),
    }
}

impl Clone for Json {
    #[verifier::loop_isolation(false)]
    fn clone(&self) -> (r: Self)
        ensures
            r@ == self@,
        decreases self,
    {
        match self {
            Json::Null => Json::Null,
            Json::Bool(b) => Json::Bool(*b),
            Json::Number(t, shown) => Json::Number(t.clone(), shown.clone()),
            Json::Text(t) => Json::Text(t.clone()),
            Json::Array(items) => {
                let mut out: Vec<Json> = Vec::new();
                let mut i: usize = 0;
                while i < items.len()
                    invariant
                        i <= items.len(),
                        out.len() == i,
                        forall|j: int| 0 <= j < i ==> out@[j]@ == items@[j]@,
                    decreases items.len() - i,
                {
                    out.push(items[i].clone());
                    i = i + 1;
                }
                let r = Json::Array(out);
                assert(items_view(out@) =~= items_view(items@));
                r
            },
            Json::Object(fields) => {
                let mut out: Vec<(String, Json)> = Vec::new();
                let mut i: usize = 0;
                while i < fields.len()
                    invariant
                        i <= fields.len(),
                        out.len() == i,
                        forall|j: int|
                            0 <= j < i ==> out@[j].0@ == fields@[j].0@ && out@[j].1@
                                == fields@[j].1@,
                    decreases fields.len() - i,
                {
                    out.push((fields[i].0.clone(), fields[i].1.clone()));
                    i = i + 1;
                }
                let r = Json::Object(out);
                assert(fields_view(out@) =~= fields_view(fields@));
                r
            },
        }
    }
}

/// The mathematical values of the items of an array.
pub open spec fn items_view(items: Seq<Json>) -> Seq<JsonView>
    decreases items, 1nat,
{
    Seq::new(
        items.len(),
        |i: int|
            if 0 <= i < items.len() {
                json_view(items[i])
            } else {
                JsonView::Null
            },
    )
}

/// The mathematical values of the fields of an object.
pub open spec fn fields_view(fields: Seq<(String, Json)>) -> Seq<(Seq<char>, JsonView)>
    decreases fields, 1nat,
{
    Seq::new(
        fields.len(),
        |i: int|
            if 0 <= i < fields.len() {
                (fields[i].0@, json_view(fields[i].1))
            } else {
                (Seq::empty(), JsonView::Null)
            },
    )
}

/// The index of the first field named `key`.
pub fn position(fields: &Vec<(String, Json)>, key: &str) -> (r: Option<usize>)
    ensures
        match r {
            Some(k) => k < fields.len() && index_of(fields_view(fields@), key@) == Some(k as int),
            None => index_of(fields_view(fields@), key@) is None,
        },
{
    let ghost all = fields_view(fields@);
    let mut i: usize = 0;
    while i < fields.len()
        invariant
            i <= fields.len(),
            all == fields_view(fields@),
            forall|j: int| 0 <= j < i ==> all[j].0 != key@,
        decreases fields.len() - i,
    {
        if same_text(fields[i].0.as_str(), key) {
            proof {
                lemma_index_of_found(all, key@, i as int);
            }
            return Some(i);
        }
        i = i + 1;
    }
    proof {
        lemma_index_of_absent(all, key@);
    }
    None
}

impl Json {
    /// The field `key` of an object.
    pub fn get(&self, key: &str) -> (r: Option<&Json>)
        ensures
            match r {
                Some(v) => self@.field(key@) == Some(v@),
                None => self@.field(key@) is None,
            },
    {
        match self {
            Json::Object(fields) => match position(fields, key) {
                Some(k) => Some(&fields[k].1),
                None => None,
            },
            _ => None,
        }
    }

    /// The text of a string value.
    pub fn as_str(&self) -> (r: Option<&str>)
        ensures
            match r {
                Some(t) => self@.text() == Some(t@),
                None => self@.text() is None,
            },
    {
        match self {
            Json::Text(t) => Some(t.as_str()),
            _ => None,
        }
    }

    /// The truth value of a boolean.
    pub fn as_bool(&self) -> (r: Option<bool>)
        ensures
            match r {
                Some(b) => self@ == JsonView::Bool(b),
                None => !(self@ is Bool),
            },
    {
        match self {
            Json::Bool(b) => Some(*b),
            _ => None,
        }
    }

    /// The items of an array.
    pub fn as_array(&self) -> (r: Option<&Vec<Json>>)
        ensures
            match r {
                Some(items) => self@ == JsonView::Array(items_view(items@)),
                None => !(self@ is Array),
            },
    {
        match self {
            Json::Array(items) => Some(items),
            _ => None,
        }
    }

    /// The fields of an object.
    pub fn as_object(&self) -> (r: Option<&Vec<(String, Json)>>)
        ensures
            match r {
                Some(fields) => self@ == JsonView::Object(fields_view(fields@)),
                None => !(self@ is Object),
            },
    {
        match self {
            Json::Object(fields) => Some(fields),
            _ => None,
        }
    }

    /// Whether the value is `null`.
    pub fn is_null(&self) -> (r: bool)
        ensures
            r == (self@ is Null),
    {
        match self {
            Json::Null => true,
            _ => false,
        }
    }
}

/// Reads the field `index` of `value` as a text.
pub fn get_value_str(value: &Json, index: &str) -> (r: Result<String, CommErr>)
    ensures
        match r {
            Ok(t) => value@.str_field(index@) == Ok::<Seq<char>, CommErrView>(t@),
            Err(e) => value@.str_field(index@) == Err::<Seq<char>, CommErrView>(e@),
        },
{
    match value.get(index) {
        None => Err(CommErr::MissingField(String::from_str(index))),
        Some(v) => match v.as_str() {
            Some(t) => Ok(String::from_str(t)),
            None => Err(CommErr::WrongFieldType(String::from_str(index))),
        },
    }
}

/// Reads the field `index` of `value` as a text that may be left open:
/// `null` reads as the empty text.
pub fn get_value_opt_str(value: &Json, index: &str) -> (r: Result<String, CommErr>)
    ensures
        match r {
            Ok(t) => value@.opt_str_field(index@) == Ok::<Seq<char>, CommErrView>(t@),
            Err(e) => value@.opt_str_field(index@) == Err::<Seq<char>, CommErrView>(e@),
        },
{
    match value.get(index) {
        None => Err(CommErr::MissingField(String::from_str(index))),
        Some(v) => match v {
            Json::Text(t) => Ok(t.clone()),
            Json::Null => Ok(String::new()),
            _ => Err(CommErr::WrongFieldType(String::from_str(index))),
        },
    }
}

/// Reads the field `index` of `value` as a truth value.
pub fn get_value_bool(value: &Json, index: &str) -> (r: Result<bool, CommErr>)
    ensures
        match r {
            Ok(b) => value@.bool_field(index@) == Ok::<bool, CommErrView>(b),
            Err(e) => value@.bool_field(index@) == Err::<bool, CommErrView>(e@),
        },
{
    match value.get(index) {
        None => Err(CommErr::MissingField(String::from_str(index))),
        Some(v) => match v.as_bool() {
            Some(b) => Ok(b),
            None => Err(CommErr::WrongFieldType(String::from_str(index))),
        },
    }
}

/// Reads the field `index` of `value` as an array.
pub fn get_value_array<'a>(value: &'a Json, index: &str) -> (r: Result<&'a Vec<Json>, CommErr>)
    ensures
        match r {
            Ok(items) => value@.array_field(index@) == Ok::<Seq<JsonView>, CommErrView>(
                items_view(items@),
            ),
            Err(e) => value@.array_field(index@) == Err::<Seq<JsonView>, CommErrView>(e@),
        },
{
    match value.get(index) {
        None => Err(CommErr::MissingField(String::from_str(index))),
        Some(v) => match v.as_array() {
            Some(items) => Ok(items),
            None => Err(CommErr::WrongFieldType(String::from_str(index))),
        },
    }
}

/// Reads the field `index` of `value` as an object.
pub fn get_value_object<'a>(value: &'a Json, index: &str) -> (r: Result<
    &'a Vec<(String, Json)>,
    CommErr,
>)
    ensures
        match r {
            Ok(fields) => value@.object_field(index@) == Ok::<
                Seq<(Seq<char>, JsonView)>,
                CommErrView,
            >(fields_view(fields@)),
            Err(e) => value@.object_field(index@) == Err::<
                Seq<(Seq<char>, JsonView)>,
                CommErrView,
            >(e@),
        },
{
    match value.get(index) {
        None => Err(CommErr::MissingField(String::from_str(index))),
        Some(v) => match v.as_object() {
            Some(fields) => Ok(fields),
            None => Err(CommErr::WrongFieldType(String::from_str(index))),
        },
    }
}

/// Reads the payload of a typed value: of `property` itself where `index` is
/// `None`, else of its field `index`.
pub fn get_property_value<'a>(property: &'a Json, index: Option<&str>) -> (r: Result<
    &'a Json,
    CommErr,
>)
    ensures
        match r {
            Ok(v) => property@.property_value(
                match index {
                    Some(i) => Some(i@),
                    None => None,
                },
            ) == Ok::<JsonView, CommErrView>(v@),
            Err(e) => property@.property_value(
                match index {
                    Some(i) => Some(i@),
                    None => None,
                },
            ) == Err::<JsonView, CommErrView>(e@),
        },
{
    let typed: &Json = match index {
        None => property,
        Some(i) => match property.get(i) {
            Some(v) => v,
            None => {
                return Err(CommErr::MissingField(String::from_str(i)));
            },
        },
    };
    let tag = match get_value_str(typed, "type") {
        Ok(t) => t,
        Err(e) => {
            return Err(e);
        },
    };
    match typed.get(tag.as_str()) {
        Some(v) => Ok(v),
        None => Err(CommErr::MissingField(String::from_str("type"))),
    }
}

/// The text that a value shows as.
pub fn display(j: &Json) -> (r: String)
    ensures
        r@ == display_text(j@),
    decreases j,
{
    match j {
        Json::Text(t) => t.clone(),
        Json::Object(fields) => match position(fields, "type") {
            None => String::new(),
            Some(t) => match fields[t].1.as_str() {
                Some(tag) => match position(fields, tag) {
                    Some(k) => display(&fields[k].1),
                    None => String::new(),
                },
                None => String::new(),
            },
        },
        _ => String::new(),
    }
}

/// The compact JSON text of a value: what `serde_json` writes for the
/// value that has these items and fields, and for each number the number
/// that its JSON text names.
pub uninterp spec fn json_text_of(j: JsonView) -> Seq<char>;

/// A value as a value of `serde_json`, for `json_text` to write.
///
/// Wraps the constructors of `serde_json::Value`, one for each kind of
/// value, and for a number `serde_json::from_str` on its JSON text (`null`
/// where that text is refused). It stands apart from `json_text` because
/// it calls itself on the items and fields. Nothing is said of the result,
/// which the library does not look into.
#[verifier::external_body]
fn to_value(j: &Json) -> serde_json::Value {
    match j {
        Json::Null => serde_json::Value::Null,
        Json::Bool(b) => serde_json::Value::Bool(*b),
        Json::Number(n, _) => serde_json::from_str(n).unwrap_or(serde_json::Value::Null),
        Json::Text(t) => serde_json::Value::String(t.clone()),
        Json::Array(a) => serde_json::Value::Array(a.iter().map(to_value).collect()),
        Json::Object(o) => serde_json::Value::Object(
            o.iter().map(|(k, v)| (k.clone(), to_value(v))).collect(),
        ),
    }
}

/// Writes a value as compact JSON text.
///
/// Wraps `to_string` on a `serde_json::Value`, its `Display`: the result
/// is the JSON text of the value, which depends on the value alone.
#[verifier::external_body]
pub(crate) fn json_text(j: &Json) -> (r: String)
    ensures
        r@ == json_text_of(j@),
{
    to_value(j).to_string()
}

} // verus!
