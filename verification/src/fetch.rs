//! Filling a tree with its children, one fetch at a time.
//!
//! The tree says which node's children are wanted next; the caller fetches
//! them from the remote service and hands the answer back. Nodes are asked
//! for depth first: all below a node is complete before the node that
//! follows it is asked for.

use vstd::prelude::*;
use vstd::string::StringExecFns;
use crate::block::{
    block_of, block_views, blocks_of, lemma_blocks_of_each, read_blocks, Block, BlockElement,
    BlockView,
};
use crate::error::{CommErr, CommErrView, PopulateErr, PopulateErrView};
use crate::json::{get_value_array, items_view, Json, JsonView};

verus! {

/// Whether every block of `cs` is complete.
pub open spec fn all_loaded(cs: Seq<BlockView>) -> bool {
    forall|i: int| 0 <= i < cs.len() ==> (#[trigger] cs[i]).children_loaded
}

/// The identifier of the node whose children are wanted next: of the first
/// node, depth first, that is not complete and has no children yet.
pub open spec fn next_fetch(b: BlockView) -> Option<Seq<char>>
    decreases b, 0nat,
{
    if b.children_loaded {
        None
    } else if b.children.len() == 0 {
        Some(b.id)
    } else {
        match first_open(b.children, 0) {
            Some(k) => if 0 <= k < b.children.len() {
                next_fetch(b.children[k])
            } else {
                None
            },
            None => None,
        }
    }
}

/// The index of the first block, at `from` or behind it, below which
/// children are wanted.
pub open spec fn first_open(cs: Seq<BlockView>, from: int) -> Option<int>
    decreases cs, cs.len() - from,
{
    if from < 0 || from >= cs.len() {
        None
    } else if next_fetch(cs[from]) is Some {
        Some(from)
    } else {
        first_open(cs, from + 1)
    }
}

/// The identifier of the node of a document whose children are wanted
/// next.
pub open spec fn next_fetch_among(cs: Seq<BlockView>) -> Option<Seq<char>> {
    match first_open(cs, 0) {
        Some(k) => next_fetch(cs[k]),
        None => None,
    }
}

/// The node with new children, complete if all of them are.
pub open spec fn with_kids(b: BlockView, cs: Seq<BlockView>) -> BlockView {
    BlockView {
        id: b.id,
        kind: b.kind,
        runs: b.runs,
        color: b.color,
        status: b.status,
        children: cs,
        children_loaded: all_loaded(cs),
    }
}

/// The tree after the answer to its next fetch has come.
///
/// A complete tree stays as it is. Else the answer goes to the node that
/// `next_fetch` names: a list of raw nodes becomes its children, each read
/// without children of its own, and every node on the way up is complete
/// once all its children are. A failed fetch fails the whole with the
/// identifier of the node whose children were asked for; a raw node that
/// cannot be read fails it with that node's own identifier.
pub open spec fn supplied(b: BlockView, outcome: Result<Seq<JsonView>, CommErrView>) -> Result<
    BlockView,
    PopulateErrView,
>
    decreases b,
{
    if b.children_loaded {
        Ok(b)
    } else if b.children.len() == 0 {
        match outcome {
            Err(e) => Err(PopulateErrView { node: b.id, cause: e }),
            Ok(raws) => match blocks_of(raws) {
                Err(e) => Err(e),
                Ok(cs) => Ok(with_kids(b, cs)),
            },
        }
    } else {
        match first_open(b.children, 0) {
            Some(k) => if 0 <= k < b.children.len() {
                match supplied(b.children[k], outcome) {
                    Err(e) => Err(e),
                    Ok(c) => Ok(with_kids(b, b.children.update(k, c))),
                }
            } else {
                Ok(with_kids(b, b.children))
            },
            None => Ok(with_kids(b, b.children)),
        }
    }
}

/// The document after the answer to its next fetch has come.
pub open spec fn supplied_among(cs: Seq<BlockView>, outcome: Result<Seq<JsonView>, CommErrView>) -> Result<
    Seq<BlockView>,
    PopulateErrView,
> {
    match first_open(cs, 0) {
        Some(k) => match supplied(cs[k], outcome) {
            Err(e) => Err(e),
            Ok(c) => Ok(cs.update(k, c)),
        },
        None => Ok(cs),
    }
}

/// The answer to a fetch as a mathematical value.
pub open spec fn outcome_view(outcome: Result<Vec<Json>, CommErr>) -> Result<
    Seq<JsonView>,
    CommErrView,
> {
    match outcome {
        Ok(raws) => Ok(items_view(raws@)),
        Err(e) => Err(e@),
    }
}

/// The index that `first_open` gives lies in the list, the block there
/// wants children, and none before it, from `from` on, does.
pub proof fn lemma_first_open(cs: Seq<BlockView>, from: int)
    requires
        0 <= from,
    ensures
        match first_open(cs, from) {
            Some(k) => from <= k < cs.len() && next_fetch(cs[k]) is Some && forall|j: int|
                from <= j < k ==> next_fetch(cs[j]) is None,
            None => forall|j: int| from <= j < cs.len() ==> next_fetch(cs[j]) is None,
        },
    decreases cs.len() - from,
{
    if from < cs.len() && !(next_fetch(cs[from]) is Some) {
        lemma_first_open(cs, from + 1);
    }
}

/// The first block that wants children, found by its properties.
pub proof fn lemma_first_open_is(cs: Seq<BlockView>, k: int)
    requires
        0 <= k < cs.len(),
        next_fetch(cs[k]) is Some,
        forall|j: int| 0 <= j < k ==> next_fetch(cs[j]) is None,
    ensures
        first_open(cs, 0) == Some(k),
{
    lemma_first_open(cs, 0);
}

/// Where no block wants children, `first_open` gives nothing.
pub proof fn lemma_first_open_none(cs: Seq<BlockView>)
    requires
        forall|j: int| 0 <= j < cs.len() ==> next_fetch(cs[j]) is None,
    ensures
        first_open(cs, 0) is None,
{
    lemma_first_open(cs, 0);
}

/// Whether every block of `blocks` is complete.
pub fn every_loaded(blocks: &Vec<BlockElement>) -> (r: bool)
    ensures
        r == all_loaded(block_views(blocks@)),
{
    let ghost views = block_views(blocks@);
    let mut i: usize = 0;
    while i < blocks.len()
        invariant
            i <= blocks.len(),
            views == block_views(blocks@),
            forall|j: int| 0 <= j < i ==> (#[trigger] views[j]).children_loaded,
        decreases blocks.len() - i,
    {
        if !blocks[i].children_loaded {
            assert(!views[i as int].children_loaded);
            return false;
        }
        i = i + 1;
    }
    true
}

/// The first block of `blocks` below which children are wanted, with the
/// identifier of the node that wants them.
#[verifier::loop_isolation(false)]
pub fn first_wanted(blocks: &Vec<BlockElement>) -> (r: Option<(usize, String)>)
    ensures
        match r {
            Some((k, id)) => k < blocks.len() && first_open(block_views(blocks@), 0) == Some(
                k as int,
            ) && next_fetch(block_views(blocks@)[k as int]) == Some(id@),
            None => first_open(block_views(blocks@), 0) is None,
        },
    decreases blocks, 1nat,
{
    let ghost views = block_views(blocks@);
    let mut i: usize = 0;
    while i < blocks.len()
        invariant
            i <= blocks.len(),
            forall|j: int| 0 <= j < i ==> next_fetch(views[j]) is None,
        decreases blocks.len() - i,
    {
        match blocks[i].next_fetch() {
            Some(id) => {
                proof {
                    lemma_first_open_is(views, i as int);
                }
                return Some((i, id));
            },
            None => {},
        }
        i = i + 1;
    }
    proof {
        lemma_first_open_none(views);
    }
    None
}

impl BlockElement {
    /// The identifier of the node whose children are wanted next, if the
    /// tree is not complete.
    pub fn next_fetch(&self) -> (r: Option<String>)
        ensures
            match r {
                Some(id) => next_fetch(self@) == Some(id@),
                None => next_fetch(self@) is None,
            },
        decreases self, 0nat,
    {
        if self.children_loaded {
            None
        } else if self.children.len() == 0 {
            Some(self.id.clone())
        } else {
            proof {
                lemma_first_open(self@.children, 0);
            }
            match first_wanted(&self.children) {
                Some((_, id)) => Some(id),
                None => None,
            }
        }
    }

    /// Takes the answer to the fetch that `next_fetch` asked for and gives
    /// the tree that results.
    pub fn supply(self, outcome: Result<Vec<Json>, CommErr>) -> (r: Result<
        BlockElement,
        PopulateErr,
    >)
        ensures
            match r {
                Ok(b) => supplied(self@, outcome_view(outcome)) == Ok::<BlockView, PopulateErrView>(
                    b@,
                ),
                Err(e) => supplied(self@, outcome_view(outcome)) == Err::<
                    BlockView,
                    PopulateErrView,
                >(e@),
            },
        decreases self,
    {
        let mut this = self;
        if this.children_loaded {
            return Ok(this);
        }
        if this.children.len() == 0 {
            let raws = match outcome {
                Ok(raws) => raws,
                Err(e) => {
                    return Err(PopulateErr { node: this.id, cause: e });
                },
            };
            match read_blocks(&raws) {
                Err(e) => Err(e),
                Ok(cs) => {
                    this.children_loaded = every_loaded(&cs);
                    this.children = cs;
                    Ok(this)
                },
            }
        } else {
            proof {
                lemma_first_open(self@.children, 0);
            }
            match first_wanted(&this.children) {
                None => {
                    this.children_loaded = every_loaded(&this.children);
                    Ok(this)
                },
                Some((k, _)) => {
                    let ghost before = block_views(this.children@);
                    let c = this.children.remove(k);
                    match c.supply(outcome) {
                        Err(e) => Err(e),
                        Ok(c) => {
                            this.children.insert(k, c);
                            assert(block_views(this.children@) =~= before.update(k as int, c@));
                            this.children_loaded = every_loaded(&this.children);
                            Ok(this)
                        },
                    }
                },
            }
        }
    }
}

impl Block {
    /// The identifier of the node whose children are wanted next, if the
    /// document is not complete.
    pub fn next_fetch(&self) -> (r: Option<String>)
        ensures
            match r {
                Some(id) => next_fetch_among(self@) == Some(id@),
                None => next_fetch_among(self@) is None,
            },
    {
        proof {
            lemma_first_open(self@, 0);
        }
        match first_wanted(&self.inner) {
            Some((_, id)) => Some(id),
            None => None,
        }
    }

    /// Takes the answer to the fetch that `next_fetch` asked for and gives
    /// the document that results.
    pub fn supply(self, outcome: Result<Vec<Json>, CommErr>) -> (r: Result<Block, PopulateErr>)
        ensures
            match r {
                Ok(d) => supplied_among(self@, outcome_view(outcome)) == Ok::<
                    Seq<BlockView>,
                    PopulateErrView,
                >(d@),
                Err(e) => supplied_among(self@, outcome_view(outcome)) == Err::<
                    Seq<BlockView>,
                    PopulateErrView,
                >(e@),
            },
    {
        let mut this = self;
        proof {
            lemma_first_open(self@, 0);
        }
        match first_wanted(&this.inner) {
            None => Ok(this),
            Some((k, _)) => {
                let ghost before = block_views(this.inner@);
                let c = this.inner.remove(k);
                match c.supply(outcome) {
                    Err(e) => Err(e),
                    Ok(c) => {
                        this.inner.insert(k, c);
                        assert(block_views(this.inner@) =~= before.update(k as int, c@));
                        Ok(this)
                    },
                }
            },
        }
    }
}

/// Where the answer to a fetch says that more children follow: the cursor
/// at which they start, if the answer `has_more` and names one.
pub open spec fn next_cursor_of(res: JsonView) -> Option<Seq<char>> {
    if res.field("has_more"@) == Some(JsonView::Bool(true)) {
        match res.field("next_cursor"@) {
            Some(JsonView::Text(c)) => Some(c),
            _ => None,
        }
    } else {
        None
    }
}

/// The children that one answer of the remote service brings, its
/// `results`, and the cursor at which more of them start.
pub open spec fn children_of(res: JsonView) -> Result<
    (Seq<JsonView>, Option<Seq<char>>),
    CommErrView,
> {
    match res.array_field("results"@) {
        Err(e) => Err(e),
        Ok(items) => Ok((items, next_cursor_of(res))),
    }
}

/// Reads from one answer of the remote service the children that it
/// brings and the cursor at which more of them start.
pub fn children_page(res: &Json) -> (r: Result<(Vec<Json>, Option<String>), CommErr>)
    ensures
        match r {
            Ok((items, cursor)) => children_of(res@) == Ok::<
                (Seq<JsonView>, Option<Seq<char>>),
                CommErrView,
            >(
                (
                    items_view(items@),
                    match cursor {
                        Some(c) => Some(c@),
                        None => None,
                    },
                ),
            ),
            Err(e) => children_of(res@) == Err::<(Seq<JsonView>, Option<Seq<char>>), CommErrView>(
                e@,
            ),
        },
{
    let items = match get_value_array(res, "results") {
        Ok(items) => items,
        Err(e) => {
            return Err(e);
        },
    };
    let mut copy: Vec<Json> = Vec::new();
    let mut i: usize = 0;
    while i < items.len()
        invariant
            i <= items.len(),
            copy.len() == i,
            forall|j: int| 0 <= j < i ==> copy@[j]@ == items@[j]@,
        decreases items.len() - i,
    {
        copy.push(items[i].clone());
        i = i + 1;
    }
    assert(items_view(copy@) =~= items_view(items@));
    let more = match res.get("has_more") {
        Some(h) => match h.as_bool() {
            Some(b) => b,
            None => false,
        },
        None => false,
    };
    let cursor = if more {
        match res.get("next_cursor") {
            Some(c) => match c.as_str() {
                Some(t) => Some(String::from_str(t)),
                None => None,
            },
            None => None,
        }
    } else {
        None
    };
    Ok((copy, cursor))
}

/// Whether the marks of the tree are in order: a node is complete exactly
/// when all its children are, but that a node without children may still
/// wait for them; and the same holds of all below it.
pub open spec fn settled(b: BlockView) -> bool
    decreases b,
{
    &&& forall|i: int| 0 <= i < b.children.len() ==> settled(#[trigger] b.children[i])
    &&& if b.children_loaded {
        all_loaded(b.children)
    } else {
        b.children.len() == 0 || !all_loaded(b.children)
    }
}

/// A complete tree asks for nothing, and an answer leaves it as it is: to
/// fill a tree twice gives what filling it once gave.
pub proof fn lemma_complete_stays(b: BlockView, outcome: Result<Seq<JsonView>, CommErrView>)
    requires
        b.children_loaded,
    ensures
        next_fetch(b) is None,
        supplied(b, outcome) == Ok::<BlockView, PopulateErrView>(b),
{
}

/// A document in which nothing is asked for stays as it is.
pub proof fn lemma_complete_document_stays(
    cs: Seq<BlockView>,
    outcome: Result<Seq<JsonView>, CommErrView>,
)
    requires
        next_fetch_among(cs) is None,
    ensures
        supplied_among(cs, outcome) == Ok::<Seq<BlockView>, PopulateErrView>(cs),
{
    lemma_first_open(cs, 0);
}

/// A tree whose marks are in order asks for children as long as it is not
/// complete.
pub proof fn lemma_settled_asks(b: BlockView)
    requires
        settled(b),
    ensures
        next_fetch(b) is None <==> b.children_loaded,
    decreases b,
{
    if !b.children_loaded && b.children.len() != 0 {
        let k = choose|k: int| 0 <= k < b.children.len() && !(#[trigger] b.children[k]).children_loaded;
        lemma_settled_asks(b.children[k]);
        lemma_first_open(b.children, 0);
        match first_open(b.children, 0) {
            Some(j) => {},
            None => {
                assert(next_fetch(b.children[k]) is None);
            },
        }
    }
}

/// A block that was read from a raw node has its marks in order.
pub proof fn lemma_new_block_settled(v: JsonView)
    requires
        block_of(v) is Ok,
    ensures
        settled(block_of(v)->Ok_0),
{
}

/// An answer leaves the marks of a tree in order.
pub proof fn lemma_supply_keeps_settled(b: BlockView, outcome: Result<Seq<JsonView>, CommErrView>)
    requires
        settled(b),
        supplied(b, outcome) is Ok,
    ensures
        settled(supplied(b, outcome)->Ok_0),
    decreases b,
{
    let after = supplied(b, outcome)->Ok_0;
    if b.children_loaded {
    } else if b.children.len() == 0 {
        let raws = outcome->Ok_0;
        let cs = blocks_of(raws)->Ok_0;
        lemma_blocks_of_each(raws);
        assert forall|i: int| 0 <= i < cs.len() implies settled(#[trigger] cs[i]) by {
            assert(block_of(raws[i]) == Ok::<BlockView, CommErrView>(blocks_of(raws)->Ok_0[i]));
            lemma_new_block_settled(raws[i]);
        }
        assert(after == with_kids(b, cs));
    } else {
        lemma_first_open(b.children, 0);
        match first_open(b.children, 0) {
            Some(k) => {
                lemma_supply_keeps_settled(b.children[k], outcome);
                let c = supplied(b.children[k], outcome)->Ok_0;
                let cs = b.children.update(k, c);
                assert(after == with_kids(b, cs));
                assert forall|i: int| 0 <= i < cs.len() implies settled(#[trigger] cs[i]) by {
                    if i != k {
                        assert(cs[i] == b.children[i]);
                    }
                }
            },
            None => {
                assert(after == with_kids(b, b.children));
            },
        }
    }
}

} // verus!
