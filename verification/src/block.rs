//! The tree of blocks: how a block is read from a raw node and how the tree
//! is rendered to text.

use vstd::prelude::*;
use vstd::string::StringExecFns;
use crate::error::{CommErr, CommErrView, PopulateErr, PopulateErrView};
use crate::json::{
    display, display_text, get_value_bool, get_value_str, items_view, Json, JsonView,
};
use crate::run::{FragmentText, FragmentView};
use crate::strings::{
    lemma_absent_without_first, lemma_replace_absent, replace, replace_all, trim, trim_end,
    trim_end_of, trim_of,
};
use crate::text::{AnnoColor, BlockType};

verus! {

/// What a block carries beside its text: nothing, a truth value (whether a
/// to-do is checked, whether a heading folds) or a text (the icon of a
/// callout, the language of a code block).
#[derive(Debug, PartialEq, Eq)]
pub enum Status {
    Empty,
    Flag(bool),
    Text(String),
}

/// A status as a mathematical value.
pub enum StatusView {
    Empty,
    Flag(bool),
    Text(Seq<char>),
}

impl View for Status {
    type V = StatusView;

    open spec fn view(&self) -> StatusView {
        match self {
            Status::Empty => StatusView::Empty,
            Status::Flag(b) => StatusView::Flag(*b),
            Status::Text(t) => StatusView::Text(t@),
        }
    }
}

impl StatusView {
    /// The text that stands for the status in a template: nothing, `x` for
    /// true and a blank for false, or the text itself.
    pub open spec fn text(self) -> Seq<char> {
        match self {
            StatusView::Empty => Seq::empty(),
            StatusView::Flag(b) => if b {
                "x"@
            } else {
                " "@
            },
            StatusView::Text(t) => t,
        }
    }
}

/// One node of the tree.
#[derive(Debug, PartialEq, Eq)]
pub struct BlockElement {
    /// The identifier under which the remote service holds the node.
    pub id: String,
    pub kind: BlockType,
    pub runs: Vec<FragmentText>,
    pub color: AnnoColor,
    pub status: Status,
    pub children: Vec<BlockElement>,
    /// Whether the children are complete: false while the node's children,
    /// or those of a node below it, are still to be fetched.
    pub children_loaded: bool,
}

/// A node of the tree as a mathematical value.
pub struct BlockView {
    pub id: Seq<char>,
    pub kind: BlockType,
    pub runs: Seq<FragmentView>,
    pub color: AnnoColor,
    pub status: StatusView,
    pub children: Seq<BlockView>,
    pub children_loaded: bool,
}

impl BlockView {
    /// A node of the given kind with nothing in it and nothing to fetch.
    pub open spec fn bare(kind: BlockType, id: Seq<char>) -> BlockView {
        BlockView {
            id,
            kind,
            runs: Seq::empty(),
            color: AnnoColor::Default,
            status: StatusView::Empty,
            children: Seq::empty(),
            children_loaded: true,
        }
    }

    /// A node of the given kind whose text is one run without annotations.
    pub open spec fn plain(kind: BlockType, id: Seq<char>, text: Seq<char>) -> BlockView {
        BlockView {
            id,
            kind,
            runs: seq![FragmentView { text, link: None, annotations: Seq::empty() }],
            color: AnnoColor::Default,
            status: StatusView::Empty,
            children: Seq::empty(),
            children_loaded: true,
        }
    }
}

/// The mathematical values that the runs of `runs` stand for.
pub open spec fn run_views(runs: Seq<FragmentText>) -> Seq<FragmentView> {
    runs.map_values(|r: FragmentText| r@)
}

/// The mathematical value that `b` stands for.
pub open spec fn block_view(b: BlockElement) -> BlockView
    decreases b, 0nat,
{
    BlockView {
        id: b.id@,
        kind: b.kind,
        runs: run_views(b.runs@),
        color: b.color,
        status: b.status@,
        children: block_views(b.children@),
        children_loaded: b.children_loaded,
    }
}

/// The mathematical values that the blocks of `bs` stand for.
pub open spec fn block_views(bs: Seq<BlockElement>) -> Seq<BlockView>
    decreases bs, 1nat,
{
    Seq::new(
        bs.len(),
        |i: int|
            if 0 <= i < bs.len() {
                block_view(bs[i])
            } else {
                BlockView::bare(BlockType::Paragraph, Seq::empty())
            },
    )
}

impl View for BlockElement {
    type V = BlockView;

    open spec fn view(&self) -> BlockView {
        block_view(*self)
    }
}

/// The markup of the runs, one after the other.
pub open spec fn body_text(runs: Seq<FragmentView>) -> Seq<char>
    decreases runs.len(),
{
    if runs.len() == 0 {
        Seq::empty()
    } else {
        body_text(runs.drop_last()) + runs.last().rendered()
    }
}

/// The template of the kind with the body put for `{}` and then, in what
/// that gives, the status put for `{status}`.
pub open spec fn templated(kind: BlockType, body: Seq<char>, status: Seq<char>) -> Seq<char> {
    replace_all(replace_all(kind.template(), "{}"@, body), "{status}"@, status)
}

/// The text of a callout or a quote with `<br/>` for each line break; the
/// text of any other kind as it is.
pub open spec fn line_broken(kind: BlockType, text: Seq<char>) -> Seq<char> {
    if kind is Callout || kind is Quote {
        replace_all(text, "\n"@, "<br/>"@)
    } else {
        text
    }
}

/// What parts a block of kind `kind` from the block that follows it: a
/// single line break between two blocks that stand close together, a blank
/// line otherwise. Behind the last block a close-standing kind puts nothing.
pub open spec fn separator(kind: BlockType, next: Option<BlockType>) -> Seq<char> {
    if kind.is_tight() {
        match next {
            Some(n) => if n.is_tight() {
                "\n"@
            } else {
                "\n\n"@
            },
            None => Seq::empty(),
        }
    } else {
        "\n\n"@
    }
}

/// The text of a block joined with the text of its children, as its kind
/// asks: a toggle takes them in place of `{child}`; a quote puts them
/// below, each line behind a quote marker; a heading puts them below as
/// they are; any other kind puts them below, each line behind a tab (a
/// paragraph after a blank line).
pub open spec fn with_children(kind: BlockType, text: Seq<char>, kids: Seq<char>) -> Seq<char> {
    if kind is Toggle {
        replace_all(text, "{child}"@, kids)
    } else if kind is Quote {
        text + "\n>"@ + replace_all(kids, "\n"@, "\n>"@)
    } else if kind.is_heading() {
        text + "\n\n"@ + kids
    } else if kind is Paragraph {
        text + "\n\n\t"@ + replace_all(kids, "\n"@, "\n\t"@)
    } else {
        text + "\n\t"@ + replace_all(kids, "\n"@, "\n\t"@)
    }
}

/// `text` inside the colour template: the template `<font {color}>{}</font>`
/// with `text` put for `{}` and then, in what that gives, the colour's
/// attribute put for `{color}`. The default colour leaves `text` as it is.
pub open spec fn colored(color: AnnoColor, text: Seq<char>) -> Seq<char> {
    if color is Default {
        text
    } else {
        replace_all(replace_all("<font {color}>{}</font>"@, "{}"@, text), "{color}"@, color.token())
    }
}

/// The text that the block renders to.
///
/// A block without runs that is no divider renders as `<br/>`, and as
/// nothing more. Else the body goes into the template with the status; in
/// a callout and a quote the line breaks become `<br/>`; where there are
/// children, they are joined, trimmed at the end and put to the text as
/// the kind asks, and the result is trimmed at the end; last, a colour
/// other than the default wraps the whole. A divider renders from its
/// template alone: its children are left out.
pub open spec fn rendered(b: BlockView) -> Seq<char>
    decreases b, 0nat,
{
    if !(b.kind is Divider) && b.runs.len() == 0 {
        "<br/>"@
    } else {
        let text = line_broken(b.kind, templated(b.kind, body_text(b.runs), b.status.text()));
        let whole = if b.children.len() > 0 && !(b.kind is Divider) {
            trim_end_of(
                with_children(b.kind, text, trim_end_of(joined(b.children, b.children.len() as int))),
            )
        } else {
            text
        };
        colored(b.color, whole)
    }
}

/// The text of the first `n` blocks of `blocks`, each followed by what
/// parts it from the next.
pub open spec fn joined(blocks: Seq<BlockView>, n: int) -> Seq<char>
    decreases blocks, n,
{
    if n <= 0 || n > blocks.len() {
        Seq::empty()
    } else {
        joined(blocks, n - 1) + rendered(blocks[n - 1]) + separator(
            blocks[n - 1].kind,
            if n < blocks.len() {
                Some(blocks[n].kind)
            } else {
                None
            },
        )
    }
}

/// The field that holds the status of a block of the given kind: whether a
/// heading folds, whether a to-do is checked, the icon of a callout, the
/// language of a code block. Any other kind has none.
pub open spec fn status_field(kind: BlockType) -> Option<Seq<char>> {
    if kind.is_heading() {
        Some("is_toggleable"@)
    } else if kind is ToDo {
        Some("checked"@)
    } else if kind is Callout {
        Some("icon"@)
    } else if kind is Code {
        Some("language"@)
    } else {
        None
    }
}

/// The status that the value of the field `name` stands for: none for
/// `null`, a truth value, a text, or what a typed object shows as. A number
/// or an array stands for none, and is an error.
pub open spec fn status_of_value(j: JsonView, name: Seq<char>) -> Result<StatusView, CommErrView> {
    match j {
        JsonView::Null => Ok(StatusView::Empty),
        JsonView::Bool(b) => Ok(StatusView::Flag(b)),
        JsonView::Text(t) => Ok(StatusView::Text(t)),
        JsonView::Object(_) => Ok(StatusView::Text(display_text(j))),
        _ => Err(CommErrView::WrongFieldType(name)),
    }
}

/// The status of a block of the given kind, read from the kind's own
/// object `block`.
pub open spec fn status_of(kind: BlockType, block: JsonView) -> Result<StatusView, CommErrView> {
    match status_field(kind) {
        None => Ok(StatusView::Empty),
        Some(name) => match block.field(name) {
            None => Err(CommErrView::MissingField(name)),
            Some(j) => status_of_value(j, name),
        },
    }
}

/// The runs that the entries of a `rich_text` array describe; the error of
/// the first entry that describes none.
pub open spec fn runs_of(items: Seq<JsonView>) -> Result<Seq<FragmentView>, CommErrView>
    decreases items.len(),
{
    if items.len() == 0 {
        Ok(Seq::empty())
    } else {
        match runs_of(items.drop_last()) {
            Err(e) => Err(e),
            Ok(runs) => match FragmentView::of_json(items.last()) {
                Err(e) => Err(e),
                Ok(run) => Ok(runs.push(run)),
            },
        }
    }
}

/// The identifier of a raw node, the empty text where it has none that is
/// a string.
pub open spec fn id_or_empty(v: JsonView) -> Seq<char> {
    match v.str_field("id"@) {
        Ok(id) => id,
        Err(_) => Seq::empty(),
    }
}

/// The colour that the kind's own object names, the default colour where
/// it names none.
pub open spec fn color_of(block: JsonView) -> AnnoColor {
    match block.str_field("color"@) {
        Ok(name) => AnnoColor::of_name_or_default(name),
        Err(_) => AnnoColor::Default,
    }
}

/// The rest of a block that bears text, once its kind, the kind's own
/// object and its runs are known.
pub open spec fn text_block_of(
    v: JsonView,
    kind: BlockType,
    block: JsonView,
    runs: Seq<FragmentView>,
) -> Result<BlockView, CommErrView> {
    match v.bool_field("has_children"@) {
        Err(e) => Err(e),
        Ok(has_children) => {
            let id = if has_children {
                v.str_field("id"@)
            } else {
                Ok(id_or_empty(v))
            };
            match id {
                Err(e) => Err(e),
                Ok(id) => match status_of(kind, block) {
                    Err(e) => Err(e),
                    Ok(status) => Ok(
                        BlockView {
                            id,
                            kind,
                            runs,
                            color: color_of(block),
                            status,
                            children: Seq::empty(),
                            children_loaded: !has_children,
                        },
                    ),
                },
            }
        },
    }
}

/// The block that a raw node describes, without its children.
///
/// The field `type`, a string, names the kind. A divider is complete with
/// that. Every other kind has an object of its own under the name of its
/// type: an equation has its `expression`, a string, there, any other kind
/// its `rich_text`, an array of runs, and its colour and status.
/// `has_children` says whether children are to be fetched; where they are,
/// the node must have an `id` that is a string.
pub open spec fn block_of(v: JsonView) -> Result<BlockView, CommErrView> {
    match v.str_field("type"@) {
        Err(e) => Err(e),
        Ok(tag) => match BlockType::of_tag(tag) {
            None => Err(CommErrView::UnsupportedKind(tag)),
            Some(kind) => if kind is Divider {
                Ok(BlockView::bare(kind, id_or_empty(v)))
            } else {
                match v.field(tag) {
                    None => Err(CommErrView::MissingField(tag)),
                    Some(block) => if kind is Equation {
                        match block.str_field("expression"@) {
                            Err(e) => Err(e),
                            Ok(text) => Ok(BlockView::plain(kind, id_or_empty(v), text)),
                        }
                    } else {
                        match block.field("rich_text"@) {
                            None => Err(CommErrView::UnsupportedFormat),
                            Some(JsonView::Array(items)) => match runs_of(items) {
                                Err(e) => Err(e),
                                Ok(runs) => text_block_of(v, kind, block, runs),
                            },
                            Some(_) => Err(CommErrView::WrongFieldType("rich_text"@)),
                        }
                    },
                }
            },
        },
    }
}

/// The blocks that the raw nodes describe; the error of the first node that
/// describes none, with that node's identifier.
pub open spec fn blocks_of(items: Seq<JsonView>) -> Result<Seq<BlockView>, PopulateErrView>
    decreases items.len(),
{
    if items.len() == 0 {
        Ok(Seq::empty())
    } else {
        match blocks_of(items.drop_last()) {
            Err(e) => Err(e),
            Ok(blocks) => match block_of(items.last()) {
                Err(e) => Err(PopulateErrView { node: id_or_empty(items.last()), cause: e }),
                Ok(b) => Ok(blocks.push(b)),
            },
        }
    }
}

/// The document that a list of raw nodes describes. What is no list names
/// no node that failed.
pub open spec fn document_of(v: JsonView) -> Result<Seq<BlockView>, PopulateErrView> {
    match v {
        JsonView::Array(items) => blocks_of(items),
        _ => Err(
            PopulateErrView { node: Seq::empty(), cause: CommErrView::WrongFieldType("results"@) },
        ),
    }
}

/// Reads the identifier of a raw node, the empty text where it has none
/// that is a string.
fn read_id(value: &Json) -> (r: String)
    ensures
        r@ == id_or_empty(value@),
{
    match get_value_str(value, "id") {
        Ok(id) => id,
        Err(_) => String::new(),
    }
}

/// Reads the colour that the kind's own object names.
fn read_color(block: &Json) -> (r: AnnoColor)
    ensures
        r == color_of(block@),
{
    match get_value_str(block, "color") {
        Ok(name) => match AnnoColor::from_str(name.as_str()) {
            Ok(c) => c,
            Err(_) => AnnoColor::Default,
        },
        Err(_) => AnnoColor::Default,
    }
}

/// Reads the status of a block of the given kind from the kind's own
/// object.
fn read_status(kind: BlockType, block: &Json) -> (r: Result<Status, CommErr>)
    ensures
        match r {
            Ok(s) => status_of(kind, block@) == Ok::<StatusView, CommErrView>(s@),
            Err(e) => status_of(kind, block@) == Err::<StatusView, CommErrView>(e@),
        },
{
    let name: &str = match kind {
        BlockType::Heading1 | BlockType::Heading2 | BlockType::Heading3 => "is_toggleable",
        BlockType::ToDo => "checked",
        BlockType::Callout => "icon",
        BlockType::Code => "language",
        _ => {
            return Ok(Status::Empty);
        },
    };
    match block.get(name) {
        None => Err(CommErr::MissingField(String::from_str(name))),
        Some(j) => match j {
            Json::Null => Ok(Status::Empty),
            Json::Bool(b) => Ok(Status::Flag(*b)),
            Json::Text(t) => Ok(Status::Text(t.clone())),
            Json::Object(_) => Ok(Status::Text(display(j))),
            _ => Err(CommErr::WrongFieldType(String::from_str(name))),
        },
    }
}

/// Reads the runs of a `rich_text` array.
fn read_runs(items: &Vec<Json>) -> (r: Result<Vec<FragmentText>, CommErr>)
    ensures
        match r {
            Ok(runs) => runs_of(items_view(items@)) == Ok::<Seq<FragmentView>, CommErrView>(
                run_views(runs@),
            ),
            Err(e) => runs_of(items_view(items@)) == Err::<Seq<FragmentView>, CommErrView>(e@),
        },
{
    let ghost all = items_view(items@);
    let mut runs: Vec<FragmentText> = Vec::new();
    let mut i: usize = 0;
    assert(all.take(0) =~= Seq::<JsonView>::empty());
    assert(run_views(runs@) =~= Seq::<FragmentView>::empty());
    while i < items.len()
        invariant
            i <= items.len(),
            all == items_view(items@),
            runs_of(all.take(i as int)) == Ok::<Seq<FragmentView>, CommErrView>(run_views(runs@)),
        decreases items.len() - i,
    {
        assert(all.take(i + 1).drop_last() =~= all.take(i as int));
        assert(all.take(i + 1).last() == items@[i as int]@);
        let ghost before = run_views(runs@);
        match FragmentText::new(&items[i]) {
            Ok(run) => {
                runs.push(run);
                assert(run_views(runs@) =~= before.push(run@));
            },
            Err(e) => {
                proof {
                    lemma_runs_fail(all, i + 1);
                }
                return Err(e);
            },
        }
        i = i + 1;
    }
    assert(all.take(items.len() as int) =~= all);
    Ok(runs)
}

/// Once the first `n` entries hold one that describes no run, the whole
/// array fails with the same error.
proof fn lemma_runs_fail(items: Seq<JsonView>, n: int)
    requires
        0 <= n <= items.len(),
        runs_of(items.take(n)) is Err,
    ensures
        runs_of(items) == runs_of(items.take(n)),
    decreases items.len() - n,
{
    if n < items.len() {
        assert(items.take(n + 1).drop_last() =~= items.take(n));
        lemma_runs_fail(items, n + 1);
    } else {
        assert(items.take(n) =~= items);
    }
}

/// Once the first `n` nodes hold one that describes no block, the whole
/// list fails with the same error.
proof fn lemma_blocks_fail(items: Seq<JsonView>, n: int)
    requires
        0 <= n <= items.len(),
        blocks_of(items.take(n)) is Err,
    ensures
        blocks_of(items) == blocks_of(items.take(n)),
    decreases items.len() - n,
{
    if n < items.len() {
        assert(items.take(n + 1).drop_last() =~= items.take(n));
        lemma_blocks_fail(items, n + 1);
    } else {
        assert(items.take(n) =~= items);
    }
}

impl BlockElement {
    /// A block of the given kind with nothing in it and nothing to fetch.
    pub fn from_type(kind: BlockType) -> (r: BlockElement)
        ensures
            r@ == BlockView::bare(kind, Seq::empty()),
    {
        let r = BlockElement {
            id: String::new(),
            kind,
            runs: Vec::new(),
            color: AnnoColor::Default,
            status: Status::Empty,
            children: Vec::new(),
            children_loaded: true,
        };
        assert(r@.runs =~= Seq::empty());
        assert(r@.children =~= Seq::empty());
        r
    }

    /// A block of the given kind whose text is one run without annotations.
    pub fn from_text(kind: BlockType, text: String) -> (r: BlockElement)
        ensures
            r@ == BlockView::plain(kind, Seq::empty(), text@),
    {
        let mut runs: Vec<FragmentText> = Vec::new();
        runs.push(FragmentText { text, link: None, annotations: Vec::new() });
        let r = BlockElement {
            id: String::new(),
            kind,
            runs,
            color: AnnoColor::Default,
            status: Status::Empty,
            children: Vec::new(),
            children_loaded: true,
        };
        assert(r@.runs =~= BlockView::plain(kind, Seq::empty(), text@).runs);
        assert(r@.children =~= Seq::empty());
        r
    }

    /// Reads a block from a raw node, without its children: where the node
    /// says that it has children, the block is marked as not yet loaded.
    pub fn new(value: &Json) -> (r: Result<BlockElement, CommErr>)
        ensures
            match r {
                Ok(b) => block_of(value@) == Ok::<BlockView, CommErrView>(b@),
                Err(e) => block_of(value@) == Err::<BlockView, CommErrView>(e@),
            },
    {
        let tag = match get_value_str(value, "type") {
            Ok(t) => t,
            Err(e) => {
                return Err(e);
            },
        };
        let kind = match BlockType::from_str(tag.as_str()) {
            Ok(k) => k,
            Err(e) => {
                return Err(e);
            },
        };
        match kind {
            BlockType::Divider => {
                let mut b = BlockElement::from_type(kind);
                b.id = read_id(value);
                assert(b@.runs =~= Seq::<FragmentView>::empty());
                assert(b@.children =~= Seq::<BlockView>::empty());
                return Ok(b);
            },
            _ => {},
        }
        let block = match value.get(tag.as_str()) {
            Some(b) => b,
            None => {
                return Err(CommErr::MissingField(tag));
            },
        };
        match kind {
            BlockType::Equation => {
                let text = match get_value_str(block, "expression") {
                    Ok(t) => t,
                    Err(e) => {
                        return Err(e);
                    },
                };
                let mut b = BlockElement::from_text(kind, text);
                b.id = read_id(value);
                assert(b@.runs =~= BlockView::plain(kind, Seq::empty(), text@).runs);
                assert(b@.children =~= Seq::<BlockView>::empty());
                return Ok(b);
            },
            _ => {},
        }
        let rich_text = match block.get("rich_text") {
            Some(v) => v,
            None => {
                return Err(CommErr::UnsupportedFormat);
            },
        };
        let items = match rich_text.as_array() {
            Some(items) => items,
            None => {
                return Err(CommErr::WrongFieldType(String::from_str("rich_text")));
            },
        };
        let runs = match read_runs(items) {
            Ok(runs) => runs,
            Err(e) => {
                return Err(e);
            },
        };
        let color = read_color(block);
        let has_children = match get_value_bool(value, "has_children") {
            Ok(h) => h,
            Err(e) => {
                return Err(e);
            },
        };
        let id = if has_children {
            match get_value_str(value, "id") {
                Ok(id) => id,
                Err(e) => {
                    return Err(e);
                },
            }
        } else {
            read_id(value)
        };
        let status = match read_status(kind, block) {
            Ok(s) => s,
            Err(e) => {
                return Err(e);
            },
        };
        let b = BlockElement {
            id,
            kind,
            runs,
            color,
            status,
            children: Vec::new(),
            children_loaded: !has_children,
        };
        assert(b@.children =~= Seq::<BlockView>::empty());
        Ok(b)
    }

    /// What parts this block from the block that follows it, `next`.
    pub fn break_line(&self, next: Option<&BlockElement>) -> (r: String)
        ensures
            r@ == separator(
                self.kind,
                match next {
                    Some(b) => Some(b.kind),
                    None => None,
                },
            ),
    {
        if self.kind.tight() {
            match next {
                Some(b) => if b.kind.tight() {
                    String::from_str("\n")
                } else {
                    String::from_str("\n\n")
                },
                None => String::new(),
            }
        } else {
            String::from_str("\n\n")
        }
    }

    /// The text of a callout or a quote with `<br/>` for each line break.
    pub fn special_break_line(&self, content: String) -> (r: String)
        ensures
            r@ == line_broken(self.kind, content@),
    {
        match self.kind {
            BlockType::Callout | BlockType::Quote => replace(content.as_str(), "\n", "<br/>"),
            _ => content,
        }
    }

    /// The text that stands for the status in a template.
    pub fn get_status_str(&self) -> (r: String)
        ensures
            r@ == self.status@.text(),
    {
        match &self.status {
            Status::Empty => String::new(),
            Status::Flag(b) => if *b {
                String::from_str("x")
            } else {
                String::from_str(" ")
            },
            Status::Text(t) => t.clone(),
        }
    }

    /// The text of the block joined with the text of its children.
    pub fn child_indent(&self, paragraph: String, child_paragraph: String) -> (r: String)
        ensures
            r@ == with_children(self.kind, paragraph@, child_paragraph@),
    {
        let mut out = paragraph;
        match self.kind {
            BlockType::Toggle => replace(out.as_str(), "{child}", child_paragraph.as_str()),
            BlockType::Quote => {
                out.append("\n>");
                let kids = replace(child_paragraph.as_str(), "\n", "\n>");
                out.append(kids.as_str());
                out
            },
            BlockType::Heading1 | BlockType::Heading2 | BlockType::Heading3 => {
                out.append("\n\n");
                out.append(child_paragraph.as_str());
                out
            },
            BlockType::Paragraph => {
                out.append("\n\n\t");
                let kids = replace(child_paragraph.as_str(), "\n", "\n\t");
                out.append(kids.as_str());
                out
            },
            _ => {
                out.append("\n\t");
                let kids = replace(child_paragraph.as_str(), "\n", "\n\t");
                out.append(kids.as_str());
                out
            },
        }
    }

    /// Renders the block and all below it.
    ///
    /// A block without text that is no divider renders as `<br/>` and
    /// nothing else. Otherwise the runs are rendered one after the other and
    /// put into the template of the kind, with the status; in a callout or a
    /// quote each line break becomes `<br/>`; the children, if any, are
    /// rendered, joined and put in as the kind asks; and a colour other than
    /// the default wraps the whole. The children of a divider are left out.
    #[verifier::loop_isolation(false)]
    pub fn render(&self) -> (r: String)
        ensures
            r@ == rendered(self@),
        decreases self, 0nat,
    {
        if !self.kind.be_empty() && self.runs.len() == 0 {
            return String::from_str("<br/>");
        }
        let mut body = String::new();
        let mut i: usize = 0;
        assert(self@.runs.take(0) =~= Seq::<FragmentView>::empty());
        while i < self.runs.len()
            invariant
                i <= self.runs.len(),
                body@ == body_text(self@.runs.take(i as int)),
            decreases self.runs.len() - i,
        {
            assert(self@.runs.take(i + 1).drop_last() =~= self@.runs.take(i as int));
            let t = self.runs[i].render();
            body.append(t.as_str());
            i = i + 1;
        }
        assert(self@.runs.take(self.runs.len() as int) =~= self@.runs);
        let status = self.get_status_str();
        let filled = replace(self.kind.md(), "{}", body.as_str());
        let mut paragraph = replace(filled.as_str(), "{status}", status.as_str());
        paragraph = self.special_break_line(paragraph);
        if self.children.len() > 0 && !self.kind.be_empty() {
            let kids = join_blocks(&self.children);
            let kids = trim_end(kids.as_str());
            paragraph = self.child_indent(paragraph, kids);
            paragraph = trim_end(paragraph.as_str());
        }
        match self.color {
            AnnoColor::Default => paragraph,
            _ => {
                let framed = replace("<font {color}>{}</font>", "{}", paragraph.as_str());
                replace(framed.as_str(), "{color}", self.color.md())
            },
        }
    }
}

/// Renders the blocks one after the other, each followed by what parts it
/// from the next.
#[verifier::loop_isolation(false)]
pub fn join_blocks(blocks: &Vec<BlockElement>) -> (r: String)
    ensures
        r@ == joined(block_views(blocks@), blocks.len() as int),
    decreases blocks, 1nat,
{
    let ghost views = block_views(blocks@);
    let mut out = String::new();
    let mut i: usize = 0;
    while i < blocks.len()
        invariant
            i <= blocks.len(),
            out@ == joined(views, i as int),
        decreases blocks.len() - i,
    {
        let t = blocks[i].render();
        out.append(t.as_str());
        let gap = if i + 1 < blocks.len() {
            blocks[i].break_line(Some(&blocks[i + 1]))
        } else {
            blocks[i].break_line(None)
        };
        out.append(gap.as_str());
        i = i + 1;
    }
    out
}

/// Reads the blocks of a list of raw nodes, each without its children. A
/// node that cannot be read fails the whole, with its identifier.
pub fn read_blocks(items: &Vec<Json>) -> (r: Result<Vec<BlockElement>, PopulateErr>)
    ensures
        match r {
            Ok(blocks) => blocks_of(items_view(items@)) == Ok::<Seq<BlockView>, PopulateErrView>(
                block_views(blocks@),
            ),
            Err(e) => blocks_of(items_view(items@)) == Err::<Seq<BlockView>, PopulateErrView>(e@),
        },
{
    let ghost all = items_view(items@);
    let mut blocks: Vec<BlockElement> = Vec::new();
    let mut i: usize = 0;
    assert(all.take(0) =~= Seq::<JsonView>::empty());
    assert(block_views(blocks@) =~= Seq::<BlockView>::empty());
    while i < items.len()
        invariant
            i <= items.len(),
            all == items_view(items@),
            blocks_of(all.take(i as int)) == Ok::<Seq<BlockView>, PopulateErrView>(
                block_views(blocks@),
            ),
        decreases items.len() - i,
    {
        assert(all.take(i + 1).drop_last() =~= all.take(i as int));
        assert(all.take(i + 1).last() == items@[i as int]@);
        let ghost before = block_views(blocks@);
        match BlockElement::new(&items[i]) {
            Ok(b) => {
                blocks.push(b);
                assert(block_views(blocks@) =~= before.push(b@));
            },
            Err(e) => {
                proof {
                    lemma_blocks_fail(all, i + 1);
                }
                return Err(PopulateErr { node: read_id(&items[i]), cause: e });
            },
        }
        i = i + 1;
    }
    assert(all.take(items.len() as int) =~= all);
    Ok(blocks)
}

/// A document: the blocks of its top level, in order.
#[derive(Debug, PartialEq, Eq)]
pub struct Block {
    pub inner: Vec<BlockElement>,
}

impl View for Block {
    type V = Seq<BlockView>;

    open spec fn view(&self) -> Seq<BlockView> {
        block_views(self.inner@)
    }
}

/// The text that a document renders to: its blocks, each parted from the
/// next, without the white space at either end.
pub open spec fn document_text(blocks: Seq<BlockView>) -> Seq<char> {
    trim_of(joined(blocks, blocks.len() as int))
}

impl Default for Block {
    fn default() -> (r: Block)
        ensures
            r@ == Seq::<BlockView>::empty(),
    {
        let r = Block { inner: Vec::new() };
        assert(r@ =~= Seq::<BlockView>::empty());
        r
    }
}

impl Block {
    /// Reads a document from the list of its raw nodes, each without its
    /// children. A node that cannot be read fails the whole, with its
    /// identifier.
    pub fn new(val: &Json) -> (r: Result<Block, PopulateErr>)
        ensures
            match r {
                Ok(d) => document_of(val@) == Ok::<Seq<BlockView>, PopulateErrView>(d@),
                Err(e) => document_of(val@) == Err::<Seq<BlockView>, PopulateErrView>(e@),
            },
    {
        let items = match val.as_array() {
            Some(items) => items,
            None => {
                return Err(
                    PopulateErr {
                        node: String::new(),
                        cause: CommErr::WrongFieldType(String::from_str("results")),
                    },
                );
            },
        };
        match read_blocks(items) {
            Ok(inner) => Ok(Block { inner }),
            Err(e) => Err(e),
        }
    }

    /// Renders the document.
    pub fn render(&self) -> (r: String)
        ensures
            r@ == document_text(self@),
    {
        let all = join_blocks(&self.inner);
        trim(all.as_str())
    }
}

/// A divider renders as its template, whatever its runs, its status and
/// its children are; only a colour wraps it.
pub proof fn lemma_divider_is_its_template(b: BlockView)
    requires
        b.kind is Divider,
    ensures
        rendered(b) == colored(b.color, "---"@),
        b.color is Default ==> rendered(b) == "---"@,
{
    reveal_strlit("---");
    reveal_strlit("{}");
    reveal_strlit("{status}");
    let body = body_text(b.runs);
    let status = b.status.text();
    lemma_absent_without_first("---"@, "{}"@);
    lemma_replace_absent("---"@, "{}"@, body);
    lemma_absent_without_first("---"@, "{status}"@);
    lemma_replace_absent("---"@, "{status}"@, status);
}

/// What a tree renders to depends on its value alone: two trees that
/// stand for the same value render to the same text.
pub proof fn lemma_same_value_same_text(a: BlockElement, b: BlockElement)
    requires
        a@ == b@,
    ensures
        rendered(a@) == rendered(b@),
{
}

/// What a document renders to depends on its value alone.
pub proof fn lemma_same_document_same_text(a: Block, b: Block)
    requires
        a@ == b@,
    ensures
        document_text(a@) == document_text(b@),
{
}

/// A raw paragraph whose own object has no `rich_text` describes no block:
/// the error is `UnsupportedFormat`, and no paragraph without text comes
/// of it.
pub proof fn lemma_paragraph_needs_rich_text(v: JsonView, block: JsonView)
    requires
        v.str_field("type"@) == Ok::<Seq<char>, CommErrView>("paragraph"@),
        v.field("paragraph"@) == Some(block),
        block.field("rich_text"@) is None,
    ensures
        block_of(v) == Err::<BlockView, CommErrView>(CommErrView::UnsupportedFormat),
{
}

/// Any raw node of a kind that bears text, but for an equation, whose own
/// object has no `rich_text` describes no block: the error is
/// `UnsupportedFormat`.
pub proof fn lemma_text_needs_rich_text(v: JsonView, tag: Seq<char>, block: JsonView)
    requires
        v.str_field("type"@) == Ok::<Seq<char>, CommErrView>(tag),
        BlockType::of_tag(tag) matches Some(kind) && !(kind is Divider) && !(kind is Equation),
        v.field(tag) == Some(block),
        block.field("rich_text"@) is None,
    ensures
        block_of(v) == Err::<BlockView, CommErrView>(CommErrView::UnsupportedFormat),
{
}

/// Every block of a list that was read from raw nodes was read from the
/// node at its place.
pub proof fn lemma_blocks_of_each(items: Seq<JsonView>)
    requires
        blocks_of(items) is Ok,
    ensures
        blocks_of(items)->Ok_0.len() == items.len(),
        forall|i: int|
            0 <= i < items.len() ==> block_of(items[i]) == Ok::<BlockView, CommErrView>(
                #[trigger] blocks_of(items)->Ok_0[i],
            ),
    decreases items.len(),
{
    if items.len() > 0 {
        lemma_blocks_of_each(items.drop_last());
        let before = blocks_of(items.drop_last())->Ok_0;
        let all = blocks_of(items)->Ok_0;
        assert forall|i: int| 0 <= i < items.len() implies block_of(items[i]) == Ok::<
            BlockView,
            CommErrView,
        >(#[trigger] all[i]) by {
            if i < items.len() - 1 {
                assert(items.drop_last()[i] == items[i]);
                assert(all[i] == before[i]);
            }
        }
    }
}

/// A block that was read from a raw node carries a status only where its
/// kind has one: a heading, a to-do, a callout or a code block.
pub proof fn lemma_status_only_where_defined(v: JsonView)
    requires
        block_of(v) is Ok,
        status_field(block_of(v)->Ok_0.kind) is None,
    ensures
        block_of(v)->Ok_0.status is Empty,
{
}

/// A divider and an equation that were read from a raw node have no
/// children and wait for none, whatever the node says.
pub proof fn lemma_divider_and_equation_are_leaves(v: JsonView)
    requires
        block_of(v) is Ok,
        block_of(v)->Ok_0.kind is Divider || block_of(v)->Ok_0.kind is Equation,
    ensures
        block_of(v)->Ok_0.children.len() == 0,
        block_of(v)->Ok_0.children_loaded,
{
}

} // verus!
