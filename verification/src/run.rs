//! A run of text: one span with its link and its annotations, and the markup
//! it renders to.

use vstd::prelude::*;
use vstd::string::StringExecFns;
use crate::error::{CommErr, CommErrView};
use crate::json::{fields_view, get_value_str, index_of, position, Json, JsonView};
use crate::strings::same_text;
use crate::text::{
    canonical, lemma_canonical_keeps_one_of_each, lemma_of_rank_members, of_rank, one_of_each,
    ranks_below, AnnoColor, Annotation,
};

verus! {

/// One span of text with its link and its annotations.
#[derive(Debug, PartialEq, Eq)]
pub struct FragmentText {
    pub text: String,
    pub link: Option<String>,
    pub annotations: Vec<Annotation>,
}

/// A run as a mathematical value.
pub struct FragmentView {
    pub text: Seq<char>,
    pub link: Option<Seq<char>>,
    pub annotations: Seq<Annotation>,
}

impl View for FragmentText {
    type V = FragmentView;

    open spec fn view(&self) -> FragmentView {
        FragmentView {
            text: self.text@,
            link: match self.link {
                Some(l) => Some(l@),
                None => None,
            },
            annotations: self.annotations@,
        }
    }
}

/// `text` inside the markup of `annos`, the first of them outermost.
/// `alternate` says whether the next bold or italic takes its second form:
/// each bold or italic turns it over.
pub open spec fn markup(annos: Seq<Annotation>, alternate: bool, text: Seq<char>) -> Seq<char>
    decreases annos.len(),
{
    if annos.len() == 0 {
        text
    } else {
        let a = annos.first();
        let next = if a.is_emphasis() {
            !alternate
        } else {
            alternate
        };
        a.opening(alternate) + markup(annos.drop_first(), next, text) + a.closing(alternate)
    }
}

/// The annotation that one raw entry stands for, if any. The key `color`
/// takes the name of a colour; any other key counts where its value is
/// `true` and it names an annotation.
pub open spec fn annotation_of(key: Seq<char>, value: JsonView) -> Option<Annotation> {
    if key == "color"@ {
        match value {
            JsonView::Text(t) => match AnnoColor::of_name(t) {
                Some(c) => Some(Annotation::Color(c)),
                None => None,
            },
            _ => None,
        }
    } else if value == JsonView::Bool(true) {
        Annotation::of_name(key)
    } else {
        None
    }
}

/// The annotations that the first `n` raw entries stand for, in the
/// entries' order. Of the entries of one name only the first counts, so
/// that no style stands twice.
pub open spec fn collected(fields: Seq<(Seq<char>, JsonView)>, n: int) -> Seq<Annotation>
    decreases n,
{
    if n <= 0 || n > fields.len() {
        Seq::empty()
    } else {
        let rest = collected(fields, n - 1);
        if index_of(fields, fields[n - 1].0) == Some(n - 1) {
            match annotation_of(fields[n - 1].0, fields[n - 1].1) {
                Some(a) => rest.push(a),
                None => rest,
            }
        } else {
            rest
        }
    }
}

impl FragmentView {
    /// The markup of the run: its text inside its annotations, taken in
    /// canonical order.
    pub open spec fn rendered(self) -> Seq<char> {
        markup(canonical(self.annotations), false, self.text)
    }

    /// The run that a raw entry of a `rich_text` array describes.
    pub open spec fn of_json(v: JsonView) -> Result<FragmentView, CommErrView> {
        match v.field("annotations"@) {
            None => Err(CommErrView::MissingField("annotations"@)),
            Some(a) => match v.str_field("plain_text"@) {
                Err(e) => Err(e),
                Ok(text) => Ok(
                    FragmentView {
                        text,
                        link: match v.field("href"@) {
                            Some(h) => h.text(),
                            None => None,
                        },
                        annotations: canonical(
                            match a {
                                JsonView::Object(fields) => collected(
                                    fields,
                                    fields.len() as int,
                                ),
                                _ => Seq::empty(),
                            },
                        ),
                    },
                ),
            },
        }
    }
}

/// The annotation that one raw entry stands for, if any.
fn read_annotation(key: &str, value: &Json) -> (r: Option<Annotation>)
    ensures
        r == annotation_of(key@, value@),
{
    if same_text(key, "color") {
        match value.as_str() {
            Some(t) => match AnnoColor::from_str(t) {
                Ok(c) => Some(Annotation::Color(c)),
                Err(_) => None,
            },
            None => None,
        }
    } else {
        match value.as_bool() {
            Some(true) => match Annotation::from_str(key) {
                Ok(a) => Some(a),
                Err(_) => None,
            },
            _ => None,
        }
    }
}

/// The annotations of `list` in canonical order.
pub fn in_order(list: &Vec<Annotation>) -> (r: Vec<Annotation>)
    ensures
        r@ == canonical(list@),
{
    let mut out: Vec<Annotation> = Vec::new();
    let mut i: usize = 0;
    while i < list.len()
        invariant
            i <= list.len(),
            out@ == list@.take(i as int),
        decreases list.len() - i,
    {
        out.push(list[i]);
        i = i + 1;
    }
    assert(list@.take(list.len() as int) =~= list@);
    Annotation::sort(&mut out);
    out
}

impl FragmentText {
    /// Reads a run from a raw entry of a `rich_text` array.
    ///
    /// The entry must have the fields `annotations` and `plain_text`, a
    /// string. Of the annotations only the known ones count, each once; they
    /// are kept in canonical order. A `href` that is a string becomes the
    /// link.
    pub fn new(val: &Json) -> (r: Result<FragmentText, CommErr>)
        ensures
            match r {
                Ok(run) => FragmentView::of_json(val@) == Ok::<FragmentView, CommErrView>(run@),
                Err(e) => FragmentView::of_json(val@) == Err::<FragmentView, CommErrView>(e@),
            },
    {
        let anno = match val.get("annotations") {
            Some(a) => a,
            None => {
                return Err(CommErr::MissingField(String::from_str("annotations")));
            },
        };
        let mut found: Vec<Annotation> = Vec::new();
        match anno.as_object() {
            Some(fields) => {
                let ghost all = fields_view(fields@);
                let mut i: usize = 0;
                while i < fields.len()
                    invariant
                        i <= fields.len(),
                        all == fields_view(fields@),
                        found@ == collected(all, i as int),
                    decreases fields.len() - i,
                {
                    let first = position(fields, fields[i].0.as_str());
                    if first == Some(i) {
                        match read_annotation(fields[i].0.as_str(), &fields[i].1) {
                            Some(a) => {
                                found.push(a);
                            },
                            None => {},
                        }
                    }
                    i = i + 1;
                }
            },
            None => {},
        }
        let text = match get_value_str(val, "plain_text") {
            Ok(t) => t,
            Err(e) => {
                return Err(e);
            },
        };
        let link = match val.get("href") {
            Some(h) => match h.as_str() {
                Some(t) => Some(String::from_str(t)),
                None => None,
            },
            None => None,
        };
        Annotation::sort(&mut found);
        Ok(FragmentText { text, link, annotations: found })
    }

    /// The markup of the run: its text inside its annotations, taken in
    /// canonical order, the first of them outermost. Of bold and italic the
    /// one that comes second takes its second form, so that their delimiters
    /// do not run together.
    pub fn render(&self) -> (r: String)
        ensures
            r@ == self@.rendered(),
    {
        let annos = in_order(&self.annotations);
        let ghost text = self.text@;
        let mut prefix = String::new();
        let mut suffix = String::new();
        let mut alternate = false;
        let mut i: usize = 0;
        assert(annos@.skip(0) =~= annos@);
        assert(prefix@ + markup(annos@, false, text) + suffix@ =~= markup(annos@, false, text));
        while i < annos.len()
            invariant
                i <= annos.len(),
                markup(annos@, false, text) == prefix@ + markup(
                    annos@.skip(i as int),
                    alternate,
                    text,
                ) + suffix@,
            decreases annos.len() - i,
        {
            let a = annos[i];
            let ghost rest = annos@.skip(i as int);
            assert(rest.first() == a);
            assert(rest.drop_first() =~= annos@.skip(i + 1));
            let ghost next = if a.is_emphasis() {
                !alternate
            } else {
                alternate
            };
            let ghost inner = markup(annos@.skip(i + 1), next, text);
            assert(markup(rest, alternate, text) == a.opening(alternate) + inner + a.closing(
                alternate,
            ));
            let ghost old_prefix = prefix@;
            let ghost old_suffix = suffix@;
            let opening = a.open_text(alternate);
            prefix.append(opening.as_str());
            let mut closing = String::from_str(a.close_text(alternate));
            closing.append(suffix.as_str());
            suffix = closing;
            assert(prefix@ + inner + suffix@ =~= old_prefix + (a.opening(alternate) + inner
                + a.closing(alternate)) + old_suffix);
            match a {
                Annotation::Bold | Annotation::Italic => {
                    alternate = !alternate;
                },
                _ => {},
            }
            i = i + 1;
        }
        assert(annos@.skip(annos.len() as int) =~= Seq::<Annotation>::empty());
        prefix.append(self.text.as_str());
        prefix.append(suffix.as_str());
        prefix
    }
}

/// Whether the next bold or italic takes its second form once the
/// annotations of `annos` have been applied.
pub open spec fn turned(annos: Seq<Annotation>, alternate: bool) -> bool
    decreases annos.len(),
{
    if annos.len() == 0 {
        alternate
    } else {
        turned(
            annos.drop_first(),
            if annos.first().is_emphasis() {
                !alternate
            } else {
                alternate
            },
        )
    }
}

/// The markup of two lists of annotations, one behind the other, is the
/// markup of the first around the markup of the second.
pub proof fn lemma_markup_of_two(
    outer: Seq<Annotation>,
    inner: Seq<Annotation>,
    alternate: bool,
    text: Seq<char>,
)
    ensures
        markup(outer + inner, alternate, text) == markup(
            outer,
            alternate,
            markup(inner, turned(outer, alternate), text),
        ),
    decreases outer.len(),
{
    if outer.len() == 0 {
        assert(outer + inner =~= inner);
    } else {
        let next = if outer.first().is_emphasis() {
            !alternate
        } else {
            alternate
        };
        assert((outer + inner).drop_first() =~= outer.drop_first() + inner);
        assert((outer + inner).first() == outer.first());
        lemma_markup_of_two(outer.drop_first(), inner, next, text);
    }
}

/// Annotations that are neither bold nor italic leave the choice of form
/// as it is.
pub proof fn lemma_turned_without_emphasis(annos: Seq<Annotation>, alternate: bool)
    requires
        forall|i: int| 0 <= i < annos.len() ==> !(#[trigger] annos[i]).is_emphasis(),
    ensures
        turned(annos, alternate) == alternate,
    decreases annos.len(),
{
    if annos.len() > 0 {
        assert(!annos[0].is_emphasis());
        assert forall|i: int| 0 <= i < annos.drop_first().len() implies !(
        #[trigger] annos.drop_first()[i]).is_emphasis() by {
            assert(annos.drop_first()[i] == annos[i + 1]);
        }
        lemma_turned_without_emphasis(annos.drop_first(), alternate);
    }
}

/// Bold and italic on one run never share a delimiter: the bold takes
/// `**` and the italic, directly inside it, takes `_`. Inline code, if
/// any, stands around the two; strikethrough, underline and colour stand
/// inside them.
pub proof fn lemma_bold_and_italic_differ(run: FragmentView)
    requires
        of_rank(run.annotations, 1).len() == 1,
        of_rank(run.annotations, 2).len() == 1,
    ensures
        run.rendered() == markup(
            of_rank(run.annotations, 0),
            false,
            "**"@ + ("_"@ + markup(
                of_rank(run.annotations, 3) + of_rank(run.annotations, 4) + of_rank(
                    run.annotations,
                    5,
                ),
                false,
                run.text,
            ) + "_"@) + "**"@,
        ),
{
    let a = run.annotations;
    let code = of_rank(a, 0);
    let rest = of_rank(a, 3) + of_rank(a, 4) + of_rank(a, 5);
    lemma_of_rank_members(a, 0);
    lemma_of_rank_members(a, 1);
    lemma_of_rank_members(a, 2);
    assert(of_rank(a, 1)[0].rank() == 1);
    assert(of_rank(a, 2)[0].rank() == 2);
    assert(of_rank(a, 1) =~= seq![Annotation::Bold]);
    assert(of_rank(a, 2) =~= seq![Annotation::Italic]);
    let pair = seq![Annotation::Bold, Annotation::Italic];
    assert(canonical(a) =~= code + (pair + rest)) by {
        reveal_with_fuel(ranks_below, 7);
    }
    assert forall|i: int| 0 <= i < code.len() implies !(#[trigger] code[i]).is_emphasis() by {
        assert(code[i].rank() == 0);
    }
    lemma_turned_without_emphasis(code, false);
    lemma_markup_of_two(code, pair + rest, false, run.text);
    let tail = seq![Annotation::Italic] + rest;
    assert((pair + rest).drop_first() =~= tail);
    assert((pair + rest).first() == Annotation::Bold);
    assert(tail.drop_first() =~= rest);
    assert(tail.first() == Annotation::Italic);
    assert(markup(tail, true, run.text) == "_"@ + markup(rest, false, run.text) + "_"@);
    assert(markup(pair + rest, false, run.text) == "**"@ + markup(tail, true, run.text) + "**"@);
}

/// The key that names the annotation at the place `r` of the canonical
/// order.
pub open spec fn key_of_rank(r: int) -> Seq<char> {
    if r == 0 {
        "code"@
    } else if r == 1 {
        "bold"@
    } else if r == 2 {
        "italic"@
    } else if r == 3 {
        "strikethrough"@
    } else if r == 4 {
        "underline"@
    } else {
        "color"@
    }
}

/// Whether the entry at `j` is the first of its name, and stands for the
/// annotation `a`.
pub open spec fn stands_for(fields: Seq<(Seq<char>, JsonView)>, j: int, a: Annotation) -> bool {
    0 <= j < fields.len() && index_of(fields, fields[j].0) == Some(j) && annotation_of(
        fields[j].0,
        fields[j].1,
    ) == Some(a)
}

/// Whether one of the first `n` entries, the first of its name, stands
/// for the annotation `a`.
pub open spec fn comes_from(fields: Seq<(Seq<char>, JsonView)>, n: int, a: Annotation) -> bool {
    exists|j: int| 0 <= j < n && #[trigger] stands_for(fields, j, a)
}

/// An entry that stands for an annotation has the key of the annotation's
/// place.
proof fn lemma_annotation_key(key: Seq<char>, value: JsonView)
    requires
        annotation_of(key, value) is Some,
    ensures
        key == key_of_rank(annotation_of(key, value)->Some_0.rank()),
{
}

/// Every annotation that was collected from the first `n` entries stands
/// for one of them, the first of its name.
proof fn lemma_collected_sources(fields: Seq<(Seq<char>, JsonView)>, n: int)
    requires
        0 <= n <= fields.len(),
    ensures
        forall|p: int|
            0 <= p < collected(fields, n).len() ==> comes_from(
                fields,
                n,
                #[trigger] collected(fields, n)[p],
            ),
    decreases n,
{
    if n > 0 {
        lemma_collected_sources(fields, n - 1);
        let rest = collected(fields, n - 1);
        let all = collected(fields, n);
        assert forall|p: int| 0 <= p < all.len() implies comes_from(fields, n, #[trigger] all[p]) by {
            if p < rest.len() {
                assert(all[p] == rest[p]);
                assert(comes_from(fields, n - 1, rest[p]));
                let j = choose|j: int| 0 <= j < n - 1 && #[trigger] stands_for(fields, j, rest[p]);
                assert(stands_for(fields, j, all[p]));
            } else {
                assert(stands_for(fields, n - 1, all[p]));
            }
        }
    }
}

/// The annotations that are collected from raw entries hold each style at
/// most once, whatever the entries are.
pub proof fn lemma_collected_once(fields: Seq<(Seq<char>, JsonView)>, n: int)
    requires
        0 <= n <= fields.len(),
    ensures
        one_of_each(collected(fields, n)),
    decreases n,
{
    if n > 0 {
        lemma_collected_once(fields, n - 1);
        lemma_collected_sources(fields, n - 1);
        let rest = collected(fields, n - 1);
        let all = collected(fields, n);
        if all.len() > rest.len() {
            let a = all[rest.len() as int];
            assert(stands_for(fields, n - 1, a));
            lemma_annotation_key(fields[n - 1].0, fields[n - 1].1);
            assert forall|i: int, j: int| 0 <= i < j < all.len() implies (#[trigger] all[i]).rank()
                != (#[trigger] all[j]).rank() by {
                if j < rest.len() {
                    assert(all[i] == rest[i] && all[j] == rest[j]);
                } else {
                    assert(all[i] == rest[i]);
                    assert(comes_from(fields, n - 1, rest[i]));
                    let k = choose|k: int|
                        0 <= k < n - 1 && #[trigger] stands_for(fields, k, rest[i]);
                    lemma_annotation_key(fields[k].0, fields[k].1);
                    if rest[i].rank() == a.rank() {
                        assert(fields[k].0 == fields[n - 1].0);
                    }
                }
            }
        }
    }
}

/// A run that was read from a raw entry holds each style at most once.
pub proof fn lemma_run_holds_each_style_once(v: JsonView)
    requires
        FragmentView::of_json(v) is Ok,
    ensures
        one_of_each(FragmentView::of_json(v)->Ok_0.annotations),
{
    match v.field("annotations"@) {
        Some(JsonView::Object(fields)) => {
            lemma_collected_once(fields, fields.len() as int);
            lemma_canonical_keeps_one_of_each(collected(fields, fields.len() as int));
        },
        _ => {
            lemma_canonical_keeps_one_of_each(Seq::empty());
        },
    }
}

} // verus!
