//! The order in which a database query sorts its pages.

use vstd::prelude::*;
use vstd::string::StringExecFns;
use crate::property::{PropertyType, PropertyTypeView};

verus! {

/// Whether the pages come with the largest value first or last.
#[derive(Clone, Copy, Debug, PartialEq, Eq, Structural)]
pub enum Direction {
    Descending,
    Ascending,
}

impl Direction {
    /// The word that names the direction in a query.
    pub open spec fn word(self) -> Seq<char> {
        match self {
            Direction::Descending => "descending"@,
            Direction::Ascending => "ascending"@,
        }
    }

    /// The word that names the direction in a query.
    pub fn to_str(&self) -> (r: &'static str)
        ensures
            r@ == self.word(),
    {
        match self {
            Direction::Descending => "descending",
            Direction::Ascending => "ascending",
        }
    }
}

/// The properties by which a query sorts, each with its direction. No
/// property stands in it twice: a property that is put in again takes the
/// new direction and keeps its place.
#[derive(Debug, PartialEq, Eq)]
pub struct Sort {
    pub map: Vec<(PropertyType, Direction)>,
}

/// The mathematical values of a list of properties with directions.
pub open spec fn pairs_view(pairs: Seq<(PropertyType, Direction)>) -> Seq<
    (PropertyTypeView, Direction),
> {
    Seq::new(pairs.len(), |i: int| (pairs[i].0@, pairs[i].1))
}

impl View for Sort {
    type V = Seq<(PropertyTypeView, Direction)>;

    open spec fn view(&self) -> Seq<(PropertyTypeView, Direction)> {
        pairs_view(self.map@)
    }
}

/// Whether the property `key` stands among the first `n` of `m`.
pub open spec fn holds(m: Seq<(PropertyTypeView, Direction)>, n: int, key: PropertyTypeView) -> bool {
    exists|i: int| 0 <= i < n && i < m.len() && (#[trigger] m[i]).0 == key
}

/// Whether no property stands in `m` twice.
pub open spec fn distinct(m: Seq<(PropertyTypeView, Direction)>) -> bool {
    forall|i: int, j: int| 0 <= i < j < m.len() ==> (#[trigger] m[i]).0 != (#[trigger] m[j]).0
}

/// `m` with the direction `d` for the property `key`: in the place of each
/// entry that `m` has for the property, at the end where it has none.
pub open spec fn put(
    m: Seq<(PropertyTypeView, Direction)>,
    key: PropertyTypeView,
    d: Direction,
) -> Seq<(PropertyTypeView, Direction)> {
    if holds(m, m.len() as int, key) {
        Seq::new(
            m.len(),
            |i: int|
                if m[i].0 == key {
                    (key, d)
                } else {
                    m[i]
                },
        )
    } else {
        m.push((key, d))
    }
}

/// `m` with all of `items` put in, one after the other.
pub open spec fn put_all(
    m: Seq<(PropertyTypeView, Direction)>,
    items: Seq<(PropertyTypeView, Direction)>,
) -> Seq<(PropertyTypeView, Direction)>
    decreases items.len(),
{
    if items.len() == 0 {
        m
    } else {
        put(put_all(m, items.drop_last()), items.last().0, items.last().1)
    }
}

/// The JSON text of one entry.
pub open spec fn entry_text(e: (PropertyTypeView, Direction)) -> Seq<char> {
    "{\"property\":\""@ + e.0.name + "\",\"direction\":\""@ + e.1.word() + "\"}"@
}

/// The JSON texts of the first `n` entries, with commas between them.
pub open spec fn entries_text(m: Seq<(PropertyTypeView, Direction)>, n: int) -> Seq<char>
    decreases n,
{
    if n <= 0 || n > m.len() {
        Seq::empty()
    } else if n == 1 {
        entry_text(m[0])
    } else {
        entries_text(m, n - 1) + ","@ + entry_text(m[n - 1])
    }
}

/// The JSON text of the order: an array of the entries, and nothing at all
/// where there is no entry.
pub open spec fn sort_text(m: Seq<(PropertyTypeView, Direction)>) -> Seq<char> {
    if m.len() == 0 {
        Seq::empty()
    } else {
        "["@ + entries_text(m, m.len() as int) + "]"@
    }
}

/// Putting a property into an order in which none stands twice gives an
/// order in which none stands twice.
pub proof fn lemma_put_keeps_distinct(
    m: Seq<(PropertyTypeView, Direction)>,
    key: PropertyTypeView,
    d: Direction,
)
    requires
        distinct(m),
    ensures
        distinct(put(m, key, d)),
{
    let r = put(m, key, d);
    if holds(m, m.len() as int, key) {
        assert forall|i: int, j: int| 0 <= i < j < r.len() implies (#[trigger] r[i]).0 != (
        #[trigger] r[j]).0 by {
            assert(m[i].0 != m[j].0);
        }
    } else {
        assert forall|i: int, j: int| 0 <= i < j < r.len() implies (#[trigger] r[i]).0 != (
        #[trigger] r[j]).0 by {
            if j < m.len() {
                assert(m[i].0 != m[j].0);
            } else {
                assert(m[i].0 != key);
            }
        }
    }
}

/// Putting properties into an order in which none stands twice gives an
/// order in which none stands twice.
pub proof fn lemma_put_all_keeps_distinct(
    m: Seq<(PropertyTypeView, Direction)>,
    items: Seq<(PropertyTypeView, Direction)>,
)
    requires
        distinct(m),
    ensures
        distinct(put_all(m, items)),
    decreases items.len(),
{
    if items.len() > 0 {
        lemma_put_all_keeps_distinct(m, items.drop_last());
        lemma_put_keeps_distinct(put_all(m, items.drop_last()), items.last().0, items.last().1);
    }
}

impl Default for Sort {
    fn default() -> (r: Sort)
        ensures
            r@ == Seq::<(PropertyTypeView, Direction)>::empty(),
    {
        let r = Sort { map: Vec::new() };
        assert(r@ =~= Seq::<(PropertyTypeView, Direction)>::empty());
        r
    }
}

impl Sort {
    /// The order made of `map`, put in one after the other.
    pub fn new(map: Vec<(PropertyType, Direction)>) -> (r: Sort)
        ensures
            r@ == put_all(Seq::empty(), pairs_view(map@)),
            distinct(r@),
    {
        let mut r = Sort::default();
        r.add(map);
        proof {
            lemma_put_all_keeps_distinct(Seq::empty(), pairs_view(map@));
        }
        r
    }

    /// Puts the direction `d` for the property `key` into the order.
    pub fn insert(&mut self, key: PropertyType, d: Direction)
        ensures
            final(self)@ == put(old(self)@, key@, d),
    {
        let ghost m = self@;
        let mut found = false;
        let mut i: usize = 0;
        while i < self.map.len()
            invariant
                i <= self.map.len(),
                self.map.len() == m.len(),
                found == holds(m, i as int, key@),
                forall|j: int|
                    0 <= j < i ==> (#[trigger] self@[j]) == if m[j].0 == key@ {
                        (key@, d)
                    } else {
                        m[j]
                    },
                forall|j: int| i <= j < m.len() ==> (#[trigger] self@[j]) == m[j],
            decreases self.map.len() - i,
        {
            let ghost before = self@;
            assert(before[i as int] == m[i as int]);
            assert(before[i as int].0 == self.map@[i as int].0@);
            if self.map[i].0.same(&key) {
                assert(m[i as int].0 == key@);
                self.map[i].1 = d;
                found = true;
                assert(forall|j: int| 0 <= j < m.len() && j != i ==> (#[trigger] self@[j]) == before[j]);
            } else {
                assert(m[i as int].0 != key@);
            }
            i = i + 1;
        }
        if !found {
            let ghost before = self@;
            assert forall|j: int| 0 <= j < m.len() implies before[j] == m[j] by {
                assert(m[j].0 != key@);
            }
            self.map.push((key, d));
            assert(self@ =~= before.push((key@, d)));
            assert(before =~= m);
        } else {
            assert(self@ =~= put(m, key@, d));
        }
    }

    /// Puts all of `map` into the order, one after the other.
    pub fn add(&mut self, map: Vec<(PropertyType, Direction)>)
        ensures
            final(self)@ == put_all(old(self)@, pairs_view(map@)),
    {
        let ghost start = self@;
        let ghost items = pairs_view(map@);
        let mut i: usize = 0;
        assert(items.take(0) =~= Seq::empty());
        while i < map.len()
            invariant
                i <= map.len(),
                items == pairs_view(map@),
                self@ == put_all(start, items.take(i as int)),
            decreases map.len() - i,
        {
            assert(items.take(i + 1).drop_last() =~= items.take(i as int));
            assert(items.take(i + 1).last() == items[i as int]);
            self.insert(map[i].0.clone(), map[i].1);
            i = i + 1;
        }
        assert(items.take(map.len() as int) =~= items);
    }

    /// The JSON text of the order.
    pub fn build_str(&self) -> (r: String)
        ensures
            r@ == sort_text(self@),
    {
        if self.map.len() == 0 {
            return String::new();
        }
        let ghost m = self@;
        let mut out = String::from_str("[");
        let mut i: usize = 0;
        assert(out@ =~= "["@ + entries_text(m, 0));
        while i < self.map.len()
            invariant
                i <= self.map.len(),
                m == self@,
                out@ == "["@ + entries_text(m, i as int),
            decreases self.map.len() - i,
        {
            let ghost before = out@;
            if i > 0 {
                out.append(",");
            }
            let ghost mid = out@;
            out.append("{\"property\":\"");
            out.append(self.map[i].0.name());
            out.append("\",\"direction\":\"");
            out.append(self.map[i].1.to_str());
            out.append("\"}");
            assert(out@ =~= mid + entry_text(m[i as int]));
            i = i + 1;
            assert(out@ =~= "["@ + entries_text(m, i as int));
        }
        out.append("]");
        out
    }
}

} // verus!
