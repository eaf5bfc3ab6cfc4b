//! Filters of a database query: a condition on one property, alone or
//! joined with others by `and` or by `or`.

use vstd::prelude::*;
use vstd::string::StringExecFns;
use crate::property::{PropertyKind, PropertyType, PropertyTypeView};
use crate::strings::same_text;

verus! {

/// A condition on a property, with the filters joined to it.
#[derive(Debug, PartialEq, Eq)]
pub struct Filter {
    pub property: PropertyType,
    /// The operator and the value it compares with.
    pub condition: (String, String),
    /// `and` or `or` once filters are joined, empty before.
    pub logic_operate: String,
    pub logic_map: Vec<Filter>,
}

/// A filter as a mathematical value.
pub struct FilterView {
    pub property: PropertyTypeView,
    pub condition: (Seq<char>, Seq<char>),
    pub logic_operate: Seq<char>,
    pub logic_map: Seq<FilterView>,
}

/// The mathematical value that `f` stands for.
pub open spec fn filter_view(f: Filter) -> FilterView
    decreases f, 0nat,
{
    FilterView {
        property: f.property@,
        condition: (f.condition.0@, f.condition.1@),
        logic_operate: f.logic_operate@,
        logic_map: filter_views(f.logic_map@),
    }
}

/// The mathematical values that the filters of `fs` stand for.
pub open spec fn filter_views(fs: Seq<Filter>) -> Seq<FilterView>
    decreases fs, 1nat,
{
    Seq::new(
        fs.len(),
        |i: int|
            if 0 <= i < fs.len() {
                filter_view(fs[i])
            } else {
                FilterView::blank()
            },
    )
}

impl View for Filter {
    type V = FilterView;

    open spec fn view(&self) -> FilterView {
        filter_view(*self)
    }
}

impl FilterView {
    /// The filter on no property.
    pub open spec fn blank() -> FilterView {
        FilterView::leaf(
            PropertyTypeView { kind: PropertyKind::Text, name: Seq::empty() },
            Seq::empty(),
            Seq::empty(),
        )
    }

    /// A single condition: `property` stands in the relation `operator` to
    /// `value`.
    pub open spec fn leaf(
        property: PropertyTypeView,
        operator: Seq<char>,
        value: Seq<char>,
    ) -> FilterView {
        FilterView {
            property,
            condition: (operator, value),
            logic_operate: Seq::empty(),
            logic_map: Seq::empty(),
        }
    }

    /// Whether one of the joined filters has filters joined to it in turn.
    pub open spec fn has_child(self) -> bool {
        exists|i: int| 0 <= i < self.logic_map.len() && (#[trigger] self.logic_map[i]).logic_map.len() != 0
    }

    /// The filter with `val` joined to it by `operator`. It stays as it is
    /// where `val` has filters that have filters joined in turn, or where
    /// it is already joined by the other operator, `other`.
    pub open spec fn joined(self, val: FilterView, operator: Seq<char>, other: Seq<char>) -> FilterView {
        if val.has_child() || self.logic_operate == other {
            self
        } else {
            FilterView {
                property: self.property,
                condition: self.condition,
                logic_operate: operator,
                logic_map: self.logic_map.push(val),
            }
        }
    }

    /// The text of the single condition.
    pub open spec fn own_text(self) -> Seq<char> {
        "{\"property\":\""@ + self.property.name + "\",\""@ + self.property.kind.tag() + "\":{\""@
            + self.condition.0 + "\":\""@ + self.condition.1 + "\"}}"@
    }
}

/// The JSON text of a filter. A filter on a property without a name has
/// none. A filter with others joined to it is an object of one field, named
/// by the operator, that lists the filter's own condition and the joined
/// filters.
pub open spec fn filter_text(f: FilterView) -> Seq<char>
    decreases f, 0nat,
{
    if f.property.name.len() == 0 {
        Seq::empty()
    } else if f.logic_map.len() != 0 {
        "{\""@ + f.logic_operate + "\":["@ + (f.own_text() + joined_text(
            f.logic_map,
            f.logic_map.len() as int,
        )) + "]}"@
    } else {
        f.own_text()
    }
}

/// The texts of the first `n` filters of `fs`, each behind a comma.
pub open spec fn joined_text(fs: Seq<FilterView>, n: int) -> Seq<char>
    decreases fs, n,
{
    if n <= 0 || n > fs.len() {
        Seq::empty()
    } else {
        joined_text(fs, n - 1) + ","@ + filter_text(fs[n - 1])
    }
}

/// A filter has as many joined filters as its value says.
pub proof fn lemma_joined_count(f: Filter)
    ensures
        f@.logic_map.len() == f.logic_map@.len(),
{
    assert(f@.logic_map == filter_views(f.logic_map@));
    assert(filter_views(f.logic_map@).len() == f.logic_map@.len());
}

impl Default for Filter {
    fn default() -> (r: Filter)
        ensures
            r@ == FilterView::blank(),
    {
        let r = Filter {
            property: PropertyType::Text(String::new()),
            condition: (String::new(), String::new()),
            logic_operate: String::new(),
            logic_map: Vec::new(),
        };
        assert(r@.logic_map =~= Seq::<FilterView>::empty());
        r
    }
}

impl Filter {
    /// A single condition on `property`: the operator and the value it
    /// compares with.
    pub fn new(property: PropertyType, condition: (String, String)) -> (r: Filter)
        ensures
            r@ == FilterView::leaf(property@, condition.0@, condition.1@),
    {
        let r = Filter { property, condition, logic_operate: String::new(), logic_map: Vec::new() };
        assert(r@.logic_map =~= Seq::<FilterView>::empty());
        r
    }

    /// Whether one of the joined filters has filters joined to it in turn.
    pub fn has_child(&self) -> (r: bool)
        ensures
            r == self@.has_child(),
    {
        let ghost views = filter_views(self.logic_map@);
        let mut i: usize = 0;
        while i < self.logic_map.len()
            invariant
                i <= self.logic_map.len(),
                views == filter_views(self.logic_map@),
                forall|j: int| 0 <= j < i ==> (#[trigger] views[j]).logic_map.len() == 0,
            decreases self.logic_map.len() - i,
        {
            proof {
                lemma_joined_count(self.logic_map@[i as int]);
                assert(views[i as int] == self.logic_map@[i as int]@);
            }
            if self.logic_map[i].logic_map.len() != 0 {
                return true;
            }
            i = i + 1;
        }
        false
    }

    /// Joins `val` to the filter by `and`, unless the filter is joined by
    /// `or` already or `val` is too deep.
    pub fn and(self, val: Filter) -> (r: Filter)
        ensures
            r@ == self@.joined(val@, "and"@, "or"@),
    {
        let mut this = self;
        if val.has_child() || same_text(this.logic_operate.as_str(), "or") {
            return this;
        }
        let ghost before = filter_views(this.logic_map@);
        this.logic_operate = String::from_str("and");
        this.logic_map.push(val);
        assert(filter_views(this.logic_map@) =~= before.push(val@));
        this
    }

    /// Joins `val` to the filter by `or`, unless the filter is joined by
    /// `and` already or `val` is too deep.
    pub fn or(self, val: Filter) -> (r: Filter)
        ensures
            r@ == self@.joined(val@, "or"@, "and"@),
    {
        let mut this = self;
        if val.has_child() || same_text(this.logic_operate.as_str(), "and") {
            return this;
        }
        let ghost before = filter_views(this.logic_map@);
        this.logic_operate = String::from_str("or");
        this.logic_map.push(val);
        assert(filter_views(this.logic_map@) =~= before.push(val@));
        this
    }

    /// The JSON text of the filter.
    #[verifier::loop_isolation(false)]
    pub fn build_str(&self) -> (r: String)
        ensures
            r@ == filter_text(self@),
        decreases self,
    {
        if self.property.name().is_empty() {
            return String::new();
        }
        let mut own = String::from_str("{\"property\":\"");
        own.append(self.property.name());
        own.append("\",\"");
        own.append(self.property.to_str());
        own.append("\":{\"");
        own.append(self.condition.0.as_str());
        own.append("\":\"");
        own.append(self.condition.1.as_str());
        own.append("\"}}");
        if self.logic_map.len() != 0 {
            let ghost views = filter_views(self.logic_map@);
            let ghost head = own@;
            let mut i: usize = 0;
            assert(own@ =~= head + joined_text(views, 0));
            while i < self.logic_map.len()
                invariant
                    i <= self.logic_map.len(),
                    own@ == head + joined_text(views, i as int),
                decreases self.logic_map.len() - i,
            {
                let t = self.logic_map[i].build_str();
                own.append(",");
                own.append(t.as_str());
                i = i + 1;
                assert(own@ =~= head + joined_text(views, i as int));
            }
            let mut out = String::from_str("{\"");
            out.append(self.logic_operate.as_str());
            out.append("\":[");
            out.append(own.as_str());
            out.append("]}");
            return out;
        }
        own
    }
}

} // verus!
