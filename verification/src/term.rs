//! The body of a database query: a filter and an order.

use vstd::prelude::*;
use vstd::string::StringExecFns;
use crate::filter::{filter_text, Filter, FilterView};
use crate::property::PropertyTypeView;
use crate::sort::{sort_text, Direction, Sort};

verus! {

/// A filter and an order.
#[derive(Debug, PartialEq, Eq)]
pub struct ReqBody {
    pub filter: Filter,
    pub sorts: Sort,
}

/// A query body as a mathematical value.
pub struct ReqBodyView {
    pub filter: FilterView,
    pub sorts: Seq<(PropertyTypeView, Direction)>,
}

impl View for ReqBody {
    type V = ReqBodyView;

    open spec fn view(&self) -> ReqBodyView {
        ReqBodyView { filter: self.filter@, sorts: self.sorts@ }
    }
}

impl ReqBodyView {
    /// The text of the body: the texts of the filter and of the order in
    /// one object.
    pub open spec fn text(self) -> Seq<char> {
        "{\"filter\": "@ + filter_text(self.filter) + ",\"sorts\": "@ + sort_text(self.sorts) + "}"@
    }
}

impl ReqBody {
    /// The body made of a filter and an order.
    pub fn new(filter: Filter, sorts: Sort) -> (r: ReqBody)
        ensures
            r@ == (ReqBodyView { filter: filter@, sorts: sorts@ }),
    {
        ReqBody { filter, sorts }
    }

    /// The text of the body.
    pub fn build_str(&self) -> (r: String)
        ensures
            r@ == self@.text(),
    {
        let mut out = String::from_str("{\"filter\": ");
        let f = self.filter.build_str();
        out.append(f.as_str());
        out.append(",\"sorts\": ");
        let s = self.sorts.build_str();
        out.append(s.as_str());
        out.append("}");
        out
    }
}

} // verus!
