//! Queries to the remote service: what is asked for, the path and the method
//! of the request, and the text of its body.

use vstd::prelude::*;
use vstd::string::StringExecFns;
use crate::error::{CommErr, CommErrView};
use crate::filter::{filter_text, Filter, FilterView};
use crate::property::{PropertyType, PropertyTypeView};
use crate::request::RequestMethod;
use crate::sort::{put_all, sort_text, Direction, Sort};
use crate::strings::{decimal_text, int_to_text, replace, replace_all};

verus! {

/// What is done with the thing asked for.
#[derive(Clone, Copy, Debug, PartialEq, Eq, Structural)]
pub enum FnMethod {
    Search,
    Update,
    Create,
    Delete,
}

/// What a query asks for, with its identifier.
#[derive(Debug, PartialEq, Eq)]
pub enum Notion {
    Databases(String),
    Pages(String),
    Blocks(String),
    Users(String),
}

/// The kind of thing that a query asks for.
#[derive(Clone, Copy, Debug, PartialEq, Eq, Structural)]
pub enum NotionKind {
    Databases,
    Pages,
    Blocks,
    Users,
}

/// What a query asks for as a mathematical value.
pub struct NotionView {
    pub kind: NotionKind,
    pub id: Seq<char>,
}

impl View for Notion {
    type V = NotionView;

    open spec fn view(&self) -> NotionView {
        match self {
            Notion::Databases(s) => NotionView { kind: NotionKind::Databases, id: s@ },
            Notion::Pages(s) => NotionView { kind: NotionKind::Pages, id: s@ },
            Notion::Blocks(s) => NotionView { kind: NotionKind::Blocks, id: s@ },
            Notion::Users(s) => NotionView { kind: NotionKind::Users, id: s@ },
        }
    }
}

/// The number of pages that a query asks for at a time where nothing else
/// is said.
pub const DEFAULT_PAGE_SIZE: i32 = 100;

/// A query in the making.
#[derive(Debug, PartialEq, Eq)]
pub struct NotionBuilder {
    pub module: Notion,
    pub filter: Filter,
    pub sort: Sort,
    pub start_cursor: String,
    pub page_size: i32,
}

/// A query as a mathematical value.
pub struct BuilderView {
    pub module: NotionView,
    pub filter: FilterView,
    pub sort: Seq<(PropertyTypeView, Direction)>,
    pub start_cursor: Seq<char>,
    pub page_size: int,
}

impl View for NotionBuilder {
    type V = BuilderView;

    open spec fn view(&self) -> BuilderView {
        BuilderView {
            module: self.module@,
            filter: self.filter@,
            sort: self.sort@,
            start_cursor: self.start_cursor@,
            page_size: self.page_size as int,
        }
    }
}

/// The method of the request that does `act` with a thing of the given
/// kind.
pub open spec fn method_of(kind: NotionKind, act: FnMethod) -> RequestMethod {
    match kind {
        NotionKind::Databases => match act {
            FnMethod::Update => RequestMethod::PATCH,
            _ => RequestMethod::POST,
        },
        NotionKind::Pages => match act {
            FnMethod::Update => RequestMethod::PATCH,
            FnMethod::Create => RequestMethod::POST,
            _ => RequestMethod::GET,
        },
        NotionKind::Blocks => match act {
            FnMethod::Search => RequestMethod::GET,
            FnMethod::Update => RequestMethod::PATCH,
            FnMethod::Create => RequestMethod::POST,
            FnMethod::Delete => RequestMethod::DELETE,
        },
        NotionKind::Users => RequestMethod::GET,
    }
}

impl BuilderView {
    /// A query for `module` with nothing else said.
    pub open spec fn fresh(module: NotionView) -> BuilderView {
        BuilderView {
            module,
            filter: FilterView::blank(),
            sort: Seq::empty(),
            start_cursor: Seq::empty(),
            page_size: DEFAULT_PAGE_SIZE as int,
        }
    }

    /// The parameters behind the path: the cursor, where there is one, and
    /// the size of a page.
    pub open spec fn params(self) -> Seq<char> {
        if self.start_cursor.len() == 0 {
            "?page_size="@ + decimal_text(self.page_size)
        } else {
            "?start_cursor="@ + self.start_cursor + "&page_size="@ + decimal_text(self.page_size)
        }
    }

    /// The path of the request. Only the children of a block are asked for
    /// with parameters.
    pub open spec fn path(self) -> Seq<char> {
        match self.module.kind {
            NotionKind::Databases => "databases/"@ + self.module.id + "/query"@,
            NotionKind::Pages => "pages/"@ + self.module.id,
            NotionKind::Blocks => "blocks/"@ + self.module.id + "/children"@ + self.params(),
            NotionKind::Users => "users/"@ + self.module.id,
        }
    }

    /// The query with one more filter: the filter itself where the query
    /// had none, else joined to the query's filter by `and`.
    pub open spec fn filtered(self, filter: FilterView) -> BuilderView {
        BuilderView {
            module: self.module,
            filter: if self.filter.property.name.len() == 0 {
                filter
            } else {
                self.filter.joined(filter, "and"@, "or"@)
            },
            sort: self.sort,
            start_cursor: self.start_cursor,
            page_size: self.page_size,
        }
    }

    /// The text of the part of the body that names the cursor.
    pub open spec fn cursor_part(self) -> Seq<char> {
        if self.start_cursor.len() == 0 {
            Seq::empty()
        } else {
            "\"start_cursor\": \""@ + self.start_cursor + "\","@
        }
    }

    /// The text of the part of the body that holds the filter.
    pub open spec fn filter_part(self) -> Seq<char> {
        if filter_text(self.filter).len() == 0 {
            Seq::empty()
        } else {
            "\"filter\": "@ + filter_text(self.filter) + ","@
        }
    }

    /// The text of the part of the body that holds the order.
    pub open spec fn sort_part(self) -> Seq<char> {
        if sort_text(self.sort).len() == 0 {
            Seq::empty()
        } else {
            "\"sorts\": "@ + sort_text(self.sort) + ","@
        }
    }

    /// The text of the body: an object with the cursor, the filter and the
    /// order, each only where there is one, and the size of a page.
    pub open spec fn body(self) -> Seq<char> {
        "{"@ + self.cursor_part() + self.filter_part() + self.sort_part() + "\"page_size\": "@
            + decimal_text(self.page_size) + "}"@
    }
}

/// What the JSON parser finds wrong with a text: nothing where the text is
/// JSON, else the parser's message.
pub uninterp spec fn json_fault_of(text: Seq<char>) -> Option<Seq<char>>;

/// Asks the JSON parser whether `text` is JSON.
///
/// Wraps `serde_json::from_str`, called for a `serde_json::Value`: the
/// result is `None` where the parser accepts the text, else the message of
/// the parser's error. Both depend on the text alone.
#[verifier::external_body]
fn json_fault(text: &str) -> (r: Option<String>)
    ensures
        match r {
            Some(m) => json_fault_of(text@) == Some(m@),
            None => json_fault_of(text@) is None,
        },
{
    match serde_json::from_str::<serde_json::Value>(text) {
        Ok(_) => None,
        Err(e) => Some(e.to_string()),
    }
}

/// The text where the parser found nothing wrong with it, else the
/// parser's message as an error.
pub open spec fn checked(text: Seq<char>, fault: Option<Seq<char>>) -> Result<
    Seq<char>,
    CommErrView,
> {
    match fault {
        None => Ok(text),
        Some(m) => Err(CommErrView::JsonErr(m)),
    }
}

/// Gives `text` back where `fault`, the parser's finding, is nothing, else
/// the finding as an error.
pub fn checked_json(text: String, fault: Option<String>) -> (r: Result<String, CommErr>)
    ensures
        match r {
            Ok(t) => checked(text@, fault_view(fault)) == Ok::<Seq<char>, CommErrView>(t@),
            Err(e) => checked(text@, fault_view(fault)) == Err::<Seq<char>, CommErrView>(e@),
        },
{
    match fault {
        None => Ok(text),
        Some(m) => Err(CommErr::JsonErr(m)),
    }
}

/// The parser's finding as a mathematical value.
pub open spec fn fault_view(fault: Option<String>) -> Option<Seq<char>> {
    match fault {
        Some(m) => Some(m@),
        None => None,
    }
}

/// The mathematical values of the properties to set, each with its new
/// value.
pub open spec fn updates_view(data: Seq<(PropertyType, &str)>) -> Seq<(PropertyTypeView, Seq<char>)> {
    Seq::new(data.len(), |i: int| (data[i].0@, data[i].1@))
}

/// The JSON text that sets one property: the template of the property's
/// kind with the name put for `{name}` and then, in what that gives, the
/// value put for `{value}`. A kind without a template cannot be set.
pub open spec fn update_text(p: PropertyTypeView, value: Seq<char>) -> Option<Seq<char>> {
    match p.kind.update_template() {
        Some(t) => Some(replace_all(replace_all(t, "{name}"@, p.name), "{value}"@, value)),
        None => None,
    }
}

/// The JSON texts that set the first `n` properties, with commas between
/// them; nothing where one of them cannot be set.
pub open spec fn updates_text(data: Seq<(PropertyTypeView, Seq<char>)>, n: int) -> Option<
    Seq<char>,
>
    decreases n,
{
    if n <= 0 || n > data.len() {
        Some(Seq::empty())
    } else {
        match updates_text(data, n - 1) {
            None => None,
            Some(before) => match update_text(data[n - 1].0, data[n - 1].1) {
                None => None,
                Some(t) => Some(
                    if n == 1 {
                        t
                    } else {
                        before + ","@ + t
                    },
                ),
            },
        }
    }
}

/// The text of the body that sets the properties, before it is checked.
pub open spec fn update_body(data: Seq<(PropertyTypeView, Seq<char>)>) -> Option<Seq<char>> {
    match updates_text(data, data.len() as int) {
        Some(t) => Some("{\"properties\": {"@ + t + "}}"@),
        None => None,
    }
}

/// The body that sets the properties: an error where one of them cannot be
/// set, else the text as far as the parser accepts it.
pub open spec fn checked_update_body(data: Seq<(PropertyTypeView, Seq<char>)>) -> Result<
    Seq<char>,
    CommErrView,
> {
    match update_body(data) {
        None => Err(CommErrView::UnsupportedFormat),
        Some(t) => checked(t, json_fault_of(t)),
    }
}

/// Once one of the first `n` properties cannot be set, none of the longer
/// lists can.
proof fn lemma_updates_fail(data: Seq<(PropertyTypeView, Seq<char>)>, n: int, m: int)
    requires
        0 <= n <= m <= data.len(),
        updates_text(data, n) is None,
    ensures
        updates_text(data, m) is None,
    decreases m - n,
{
    if n < m {
        lemma_updates_fail(data, n, m - 1);
    }
}

impl Notion {
    /// The identifier of the thing asked for.
    pub fn get_val(&self) -> (r: String)
        ensures
            r@ == self@.id,
    {
        match self {
            Notion::Databases(s) => s.clone(),
            Notion::Pages(s) => s.clone(),
            Notion::Blocks(s) => s.clone(),
            Notion::Users(s) => s.clone(),
        }
    }

    /// A query for this thing with the given filter.
    pub fn filter(self, filter: Filter) -> (r: NotionBuilder)
        ensures
            r@ == BuilderView::fresh(self@).filtered(filter@),
    {
        NotionBuilder::new(self).filter(filter)
    }

    /// A query for this thing, sorted by `field`.
    pub fn sort(self, field: PropertyType, order: Direction) -> (r: NotionBuilder)
        ensures
            r@ == (BuilderView { sort: seq![(field@, order)], ..BuilderView::fresh(self@) }),
    {
        let r = NotionBuilder::new(self).sort(field, order);
        proof {
            lemma_put_first(field@, order);
        }
        r
    }

    /// A query for this thing, `page_num` pages at a time.
    pub fn limit(self, page_num: i32) -> (r: NotionBuilder)
        ensures
            r@ == (BuilderView { page_size: page_num as int, ..BuilderView::fresh(self@) }),
    {
        NotionBuilder::new(self).limit(page_num)
    }

    /// A query for this thing that starts at `cursor`.
    pub fn start_from(self, cursor: String) -> (r: NotionBuilder)
        ensures
            r@ == (BuilderView { start_cursor: cursor@, ..BuilderView::fresh(self@) }),
    {
        NotionBuilder::new(self).start_from(cursor)
    }
}

/// Putting one property into the empty order gives the order of that
/// property alone.
proof fn lemma_put_first(key: PropertyTypeView, d: Direction)
    ensures
        put_all(Seq::empty(), seq![(key, d)]) == seq![(key, d)],
{
    let items = seq![(key, d)];
    assert(items.drop_last() =~= Seq::empty());
    assert(put_all(Seq::empty(), items.drop_last()) =~= Seq::<
        (PropertyTypeView, Direction),
    >::empty());
    assert(Seq::<(PropertyTypeView, Direction)>::empty().push((key, d)) =~= items);
}

impl NotionBuilder {
    /// A query for `module` with nothing else said.
    pub fn new(module: Notion) -> (r: NotionBuilder)
        ensures
            r@ == BuilderView::fresh(module@),
    {
        NotionBuilder {
            module,
            filter: Filter::default(),
            sort: Sort::default(),
            start_cursor: String::new(),
            page_size: DEFAULT_PAGE_SIZE,
        }
    }

    /// The path of the request.
    pub fn path(&self) -> (r: String)
        ensures
            r@ == self@.path(),
    {
        match &self.module {
            Notion::Databases(id) => {
                let mut out = String::from_str("databases/");
                out.append(id.as_str());
                out.append("/query");
                out
            },
            Notion::Pages(id) => {
                let mut out = String::from_str("pages/");
                out.append(id.as_str());
                out
            },
            Notion::Blocks(id) => {
                let mut param = if self.start_cursor.as_str().is_empty() {
                    String::from_str("?page_size=")
                } else {
                    let mut p = String::from_str("?start_cursor=");
                    p.append(self.start_cursor.as_str());
                    p.append("&page_size=");
                    p
                };
                let size = int_to_text(self.page_size);
                param.append(size.as_str());
                let mut out = String::from_str("blocks/");
                out.append(id.as_str());
                out.append("/children");
                out.append(param.as_str());
                out
            },
            Notion::Users(id) => {
                let mut out = String::from_str("users/");
                out.append(id.as_str());
                out
            },
        }
    }

    /// The method of the request that does `act`.
    pub fn method(&self, act: FnMethod) -> (r: RequestMethod)
        ensures
            r == method_of(self@.module.kind, act),
    {
        match self.module {
            Notion::Databases(_) => match act {
                FnMethod::Search => RequestMethod::POST,
                FnMethod::Update => RequestMethod::PATCH,
                _ => RequestMethod::POST,
            },
            Notion::Pages(_) => match act {
                FnMethod::Search => RequestMethod::GET,
                FnMethod::Update => RequestMethod::PATCH,
                FnMethod::Create => RequestMethod::POST,
                _ => RequestMethod::GET,
            },
            Notion::Blocks(_) => match act {
                FnMethod::Search => RequestMethod::GET,
                FnMethod::Update => RequestMethod::PATCH,
                FnMethod::Create => RequestMethod::POST,
                FnMethod::Delete => RequestMethod::DELETE,
            },
            Notion::Users(_) => RequestMethod::GET,
        }
    }

    /// The query with one more filter.
    pub fn filter(self, filter: Filter) -> (r: NotionBuilder)
        ensures
            r@ == self@.filtered(filter@),
    {
        let NotionBuilder { module, filter: own, sort, start_cursor, page_size } = self;
        let joined = if own.property.name().is_empty() {
            filter
        } else {
            own.and(filter)
        };
        NotionBuilder { module, filter: joined, sort, start_cursor, page_size }
    }

    /// The query, sorted by `field` as well.
    pub fn sort(self, field: PropertyType, order: Direction) -> (r: NotionBuilder)
        ensures
            r@ == (BuilderView { sort: put_all(self@.sort, seq![(field@, order)]), ..self@ }),
    {
        let mut this = self;
        let mut one: Vec<(PropertyType, Direction)> = Vec::new();
        one.push((field, order));
        assert(crate::sort::pairs_view(one@) =~= seq![(field@, order)]);
        this.sort.add(one);
        this
    }

    /// The query, `size` pages at a time.
    pub fn limit(self, size: i32) -> (r: NotionBuilder)
        ensures
            r@ == (BuilderView { page_size: size as int, ..self@ }),
    {
        let mut this = self;
        this.page_size = size;
        this
    }

    /// The query, starting at `cursor`.
    pub fn start_from(self, cursor: String) -> (r: NotionBuilder)
        ensures
            r@ == (BuilderView { start_cursor: cursor@, ..self@ }),
    {
        let mut this = self;
        this.start_cursor = cursor;
        this
    }

    /// The text of the body of the query.
    pub fn build_str(&self) -> (r: String)
        ensures
            r@ == self@.body(),
    {
        let mut out = String::from_str("{");
        if !self.start_cursor.as_str().is_empty() {
            let ghost before = out@;
            out.append("\"start_cursor\": \"");
            out.append(self.start_cursor.as_str());
            out.append("\",");
            assert(out@ =~= before + self@.cursor_part());
        }
        let filter = self.filter.build_str();
        if !filter.as_str().is_empty() {
            let ghost before = out@;
            out.append("\"filter\": ");
            out.append(filter.as_str());
            out.append(",");
            assert(out@ =~= before + self@.filter_part());
        }
        let sort = self.sort.build_str();
        if !sort.as_str().is_empty() {
            let ghost before = out@;
            out.append("\"sorts\": ");
            out.append(sort.as_str());
            out.append(",");
            assert(out@ =~= before + self@.sort_part());
        }
        assert(out@ =~= "{"@ + self@.cursor_part() + self@.filter_part() + self@.sort_part());
        out.append("\"page_size\": ");
        let size = int_to_text(self.page_size);
        out.append(size.as_str());
        out.append("}");
        out
    }

    /// The body of the query, as far as the parser accepts it.
    pub fn format_body(&self) -> (r: Result<String, CommErr>)
        ensures
            match r {
                Ok(t) => checked(self@.body(), json_fault_of(self@.body())) == Ok::<
                    Seq<char>,
                    CommErrView,
                >(t@),
                Err(e) => checked(self@.body(), json_fault_of(self@.body())) == Err::<
                    Seq<char>,
                    CommErrView,
                >(e@),
            },
    {
        let text = self.build_str();
        let fault = json_fault(text.as_str());
        checked_json(text, fault)
    }

    /// The body of the request that sets the given properties to the given
    /// values.
    pub fn build_update_body(data: Vec<(PropertyType, &str)>) -> (r: Result<String, CommErr>)
        ensures
            match r {
                Ok(t) => checked_update_body(updates_view(data@)) == Ok::<Seq<char>, CommErrView>(
                    t@,
                ),
                Err(e) => checked_update_body(updates_view(data@)) == Err::<
                    Seq<char>,
                    CommErrView,
                >(e@),
            },
    {
        let ghost all = updates_view(data@);
        let mut body = String::new();
        let mut i: usize = 0;
        while i < data.len()
            invariant
                i <= data.len(),
                all == updates_view(data@),
                updates_text(all, i as int) == Some(body@),
            decreases data.len() - i,
        {
            let template = match data[i].0.update_json() {
                Some(t) => t,
                None => {
                    proof {
                        lemma_updates_fail(all, i + 1, data.len() as int);
                    }
                    return Err(CommErr::UnsupportedFormat);
                },
            };
            let named = replace(template, "{name}", data[i].0.name());
            let one = replace(named.as_str(), "{value}", data[i].1);
            if i > 0 {
                body.append(",");
                body.append(one.as_str());
            } else {
                body = one;
            }
            i = i + 1;
        }
        let mut text = String::from_str("{\"properties\": {");
        text.append(body.as_str());
        text.append("}}");
        let fault = json_fault(text.as_str());
        checked_json(text, fault)
    }
}

} // verus!
