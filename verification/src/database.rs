//! The pages that a database query has brought, and where the next ones
//! are to be asked for.

use vstd::prelude::*;
use vstd::string::StringExecFns;
use crate::error::{CommErr, CommErrView};
use crate::json::{get_value_array, get_value_opt_str, items_view, Json, JsonView};
use crate::notion::{BuilderView, Notion, NotionBuilder, NotionKind, NotionView};
use crate::page::{page_of, Page, PageView};

verus! {

/// The pages of a database, as far as they have been brought.
#[derive(Debug, PartialEq, Eq)]
pub struct Database {
    pub id: String,
    pub page_list: Vec<Page>,
    /// Where the next pages start.
    pub next_cursor: String,
    /// Whether there are pages that have not been brought.
    pub has_more: bool,
}

/// A database as a mathematical value.
pub struct DatabaseView {
    pub id: Seq<char>,
    pub page_list: Seq<PageView>,
    pub next_cursor: Seq<char>,
    pub has_more: bool,
}

/// The mathematical values of a list of pages.
pub open spec fn pages_view(pages: Seq<Page>) -> Seq<PageView> {
    Seq::new(pages.len(), |i: int| pages[i]@)
}

impl View for Database {
    type V = DatabaseView;

    open spec fn view(&self) -> DatabaseView {
        DatabaseView {
            id: self.id@,
            page_list: pages_view(self.page_list@),
            next_cursor: self.next_cursor@,
            has_more: self.has_more,
        }
    }
}

/// The pages that the raw values describe; the error of the first value
/// that describes none.
pub open spec fn pages_of(items: Seq<JsonView>) -> Result<Seq<PageView>, CommErrView>
    decreases items.len(),
{
    if items.len() == 0 {
        Ok(Seq::empty())
    } else {
        match pages_of(items.drop_last()) {
            Err(e) => Err(e),
            Ok(pages) => match page_of(items.last()) {
                Err(e) => Err(e),
                Ok(p) => Ok(pages.push(p)),
            },
        }
    }
}

/// The database under the identifier `id` that an answer to a query
/// describes: the pages in its `results`, its `next_cursor`, which is
/// `null` behind the last pages, and whether it `has_more`.
pub open spec fn database_of(list: JsonView, id: Seq<char>) -> Result<DatabaseView, CommErrView> {
    match list.array_field("results"@) {
        Err(e) => Err(e),
        Ok(items) => match pages_of(items) {
            Err(e) => Err(e),
            Ok(page_list) => match list.opt_str_field("next_cursor"@) {
                Err(e) => Err(e),
                Ok(next_cursor) => match list.field("has_more"@) {
                    None => Err(CommErrView::MissingField("has_more"@)),
                    Some(h) => Ok(
                        DatabaseView { id, page_list, next_cursor, has_more: h == JsonView::Bool(true) },
                    ),
                },
            },
        },
    }
}

/// Once the first `n` values hold one that describes no page, the whole
/// fails with the same error.
proof fn lemma_pages_fail(items: Seq<JsonView>, n: int)
    requires
        0 <= n <= items.len(),
        pages_of(items.take(n)) is Err,
    ensures
        pages_of(items) == pages_of(items.take(n)),
    decreases items.len() - n,
{
    if n < items.len() {
        assert(items.take(n + 1).drop_last() =~= items.take(n));
        lemma_pages_fail(items, n + 1);
    } else {
        assert(items.take(n) =~= items);
    }
}

impl Database {
    /// Reads a database from the answer to a query.
    pub fn new(list: &Json, id: String) -> (r: Result<Database, CommErr>)
        ensures
            match r {
                Ok(d) => database_of(list@, id@) == Ok::<DatabaseView, CommErrView>(d@),
                Err(e) => database_of(list@, id@) == Err::<DatabaseView, CommErrView>(e@),
            },
    {
        let items = match get_value_array(list, "results") {
            Ok(items) => items,
            Err(e) => {
                return Err(e);
            },
        };
        let ghost all = items_view(items@);
        let mut page_list: Vec<Page> = Vec::new();
        let mut i: usize = 0;
        assert(all.take(0) =~= Seq::<JsonView>::empty());
        assert(pages_view(page_list@) =~= Seq::empty());
        while i < items.len()
            invariant
                i <= items.len(),
                all == items_view(items@),
                list@.array_field("results"@) == Ok::<Seq<JsonView>, CommErrView>(all),
                pages_of(all.take(i as int)) == Ok::<Seq<PageView>, CommErrView>(
                    pages_view(page_list@),
                ),
            decreases items.len() - i,
        {
            assert(all.take(i + 1).drop_last() =~= all.take(i as int));
            assert(all.take(i + 1).last() == items@[i as int]@);
            let ghost before = pages_view(page_list@);
            match Page::new(&items[i]) {
                Ok(p) => {
                    page_list.push(p);
                    assert(pages_view(page_list@) =~= before.push(p@));
                },
                Err(e) => {
                    proof {
                        lemma_pages_fail(all, i + 1);
                    }
                    return Err(e);
                },
            }
            i = i + 1;
        }
        assert(all.take(items.len() as int) =~= all);
        let next_cursor = match get_value_opt_str(list, "next_cursor") {
            Ok(t) => t,
            Err(e) => {
                return Err(e);
            },
        };
        let has_more = match list.get("has_more") {
            Some(h) => match h.as_bool() {
                Some(b) => b,
                None => false,
            },
            None => {
                return Err(CommErr::MissingField(String::from_str("has_more")));
            },
        };
        Ok(Database { id, page_list, next_cursor, has_more })
    }

    /// The query that brings the next pages, if there are any.
    pub fn next(&self) -> (r: Option<NotionBuilder>)
        ensures
            match r {
                Some(b) => self.has_more && b@ == (BuilderView {
                    start_cursor: self.next_cursor@,
                    ..BuilderView::fresh(NotionView { kind: NotionKind::Databases, id: self.id@ })
                }),
                None => !self.has_more,
            },
    {
        if self.has_more {
            Some(Notion::Databases(self.id.clone()).start_from(self.next_cursor.clone()))
        } else {
            None
        }
    }

    /// Takes over the pages of `other`, which is left without pages, and
    /// with them where the next pages start and whether there are more.
    pub fn append(&mut self, other: &mut Database)
        ensures
            final(self)@ == (DatabaseView {
                id: old(self)@.id,
                page_list: old(self)@.page_list + old(other)@.page_list,
                next_cursor: old(other)@.next_cursor,
                has_more: old(other)@.has_more,
            }),
            final(other)@ == (DatabaseView { page_list: Seq::empty(), ..old(other)@ }),
    {
        let ghost mine = pages_view(self.page_list@);
        let ghost theirs = pages_view(other.page_list@);
        self.page_list.append(&mut other.page_list);
        self.next_cursor = other.next_cursor.clone();
        self.has_more = other.has_more;
        assert(pages_view(self.page_list@) =~= mine + theirs);
        assert(pages_view(other.page_list@) =~= Seq::empty());
    }
}

} // verus!
