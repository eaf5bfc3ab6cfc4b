//! What the templates of the kinds come to where the text of a block holds
//! no brace: the body stands in its place, framed by what the kind puts
//! before and behind it.

use vstd::prelude::*;
use crate::block::{body_text, colored, joined, rendered, separator, templated, BlockView};
use crate::strings::{
    free_of, lemma_absent_without_first, lemma_absent_without_pair, lemma_replace_absent,
    lemma_replace_one, lemma_replace_one_behind, replace_all, trim_end_of,
};
use crate::text::{AnnoColor, BlockType};

verus! {

/// What a block of the given kind and status puts before its body.
pub open spec fn before_body(kind: BlockType, status: Seq<char>) -> Seq<char> {
    match kind {
        BlockType::Heading1 => "# "@,
        BlockType::Heading2 => "## "@,
        BlockType::Heading3 => "### "@,
        BlockType::BulletedListItem => "* "@,
        BlockType::NumberedListItem => "1. "@,
        BlockType::ToDo => "- ["@ + status + "] "@,
        BlockType::Toggle => "<details><summary>"@,
        BlockType::Callout => "<aside>"@ + status,
        BlockType::Quote => "> "@,
        BlockType::Code => "```"@ + status + "\n"@,
        BlockType::Equation => "$$"@,
        BlockType::Image => "!["@,
        _ => Seq::empty(),
    }
}

/// What a block of the given kind puts behind its body.
pub open spec fn behind_body(kind: BlockType) -> Seq<char> {
    match kind {
        BlockType::Toggle => "</summary>{child}</details>"@,
        BlockType::Callout => "</aside>"@,
        BlockType::Code => "\n```"@,
        BlockType::Equation => "$$"@,
        BlockType::Image => "]({file})"@,
        _ => Seq::empty(),
    }
}

/// Whether an opening brace in `s` is never followed by `c`.
pub open spec fn no_brace_before(s: Seq<char>, c: char) -> bool {
    forall|i: int| 0 <= i && i + 1 < s.len() ==> !(#[trigger] s[i] == '{' && s[i + 1] == c)
}

/// A template that holds the body's placeholder once and no placeholder
/// of the status comes to the body in its frame.
proof fn lemma_frame_without_status(
    t: Seq<char>,
    pre: Seq<char>,
    post: Seq<char>,
    body: Seq<char>,
    status: Seq<char>,
)
    requires
        t == pre + "{}"@ + post,
        free_of(pre, '{'),
        no_brace_before(post, '}'),
        no_brace_before(post, 's'),
        post.len() == 0 || post[0] != 's',
        free_of(body, '{'),
    ensures
        replace_all(replace_all(t, "{}"@, body), "{status}"@, status) == pre + body + post,
{
    reveal_strlit("{}");
    reveal_strlit("{status}");
    lemma_absent_without_pair(post, "{}"@);
    lemma_replace_one(pre, "{}"@, post, body);
    let filled = pre + body + post;
    assert forall|i: int| 0 <= i && i + 1 < filled.len() implies !(#[trigger] filled[i] == '{'
        && filled[i + 1] == 's') by {
        if i < pre.len() {
            assert(filled[i] == pre[i]);
        } else if i < pre.len() + body.len() {
            assert(filled[i] == body[i - pre.len()]);
        } else {
            let j = i - pre.len() - body.len();
            assert(filled[i] == post[j]);
            assert(filled[i + 1] == post[j + 1]);
        }
    }
    lemma_absent_without_pair(filled, "{status}"@);
    lemma_replace_absent(filled, "{status}"@, status);
}

/// A template that holds the placeholder of the status and, behind it,
/// that of the body comes to the status and the body in their places.
proof fn lemma_frame_with_status(
    t: Seq<char>,
    a: Seq<char>,
    b: Seq<char>,
    post: Seq<char>,
    body: Seq<char>,
    status: Seq<char>,
)
    requires
        t == a + "{status}"@ + b + "{}"@ + post,
        free_of(a, '{'),
        free_of(b, '{'),
        free_of(post, '{'),
        free_of(body, '{'),
    ensures
        replace_all(replace_all(t, "{}"@, body), "{status}"@, status) == a + status + b + body
            + post,
{
    reveal_strlit("{}");
    reveal_strlit("{status}");
    reveal_strlit("status}");
    let word = "status}"@;
    assert("{status}"@ =~= seq!['{'] + word);
    let mid = word + b;
    assert(free_of(mid, '{')) by {
        assert forall|i: int| 0 <= i < mid.len() implies mid[i] != '{' by {
            if i >= word.len() {
                assert(mid[i] == b[i - word.len()]);
            }
        }
    }
    assert(mid[0] == 's');
    lemma_absent_without_first(post, "{}"@);
    assert(t =~= a + seq!['{'] + mid + "{}"@ + post);
    lemma_replace_one_behind(a, mid, "{}"@, post, body);
    let filled = a + seq!['{'] + mid + body + post;
    let rest = b + body + post;
    assert(filled =~= a + "{status}"@ + rest);
    assert(free_of(rest, '{')) by {
        assert forall|i: int| 0 <= i < rest.len() implies rest[i] != '{' by {
            if i < b.len() {
                assert(rest[i] == b[i]);
            } else if i < b.len() + body.len() {
                assert(rest[i] == body[i - b.len()]);
            } else {
                assert(rest[i] == post[i - b.len() - body.len()]);
            }
        }
    }
    lemma_absent_without_first(rest, "{status}"@);
    lemma_replace_one(a, "{status}"@, rest, status);
    assert(a + status + rest =~= a + status + b + body + post);
}

/// The frame of the kinds whose template is the body alone.
proof fn lemma_frame_plain(kind: BlockType, body: Seq<char>, status: Seq<char>)
    requires
        kind.template() == "{}"@,
        free_of(body, '{'),
    ensures
        templated(kind, body, status) == body,
{
    let none = Seq::<char>::empty();
    assert("{}"@ =~= none + "{}"@ + none);
    lemma_frame_without_status("{}"@, none, none, body, status);
    assert(none + body + none =~= body);
}

/// The frame of the kinds that put a mark before the body and nothing
/// behind it.
proof fn lemma_frame_marked(kind: BlockType, body: Seq<char>, status: Seq<char>)
    requires
        kind.is_heading() || kind is BulletedListItem || kind is NumberedListItem || kind is Quote,
        free_of(body, '{'),
    ensures
        templated(kind, body, status) == before_body(kind, status) + body,
{
    reveal_strlit("{}");
    reveal_strlit("# {}");
    reveal_strlit("## {}");
    reveal_strlit("### {}");
    reveal_strlit("* {}");
    reveal_strlit("1. {}");
    reveal_strlit("> {}");
    reveal_strlit("# ");
    reveal_strlit("## ");
    reveal_strlit("### ");
    reveal_strlit("* ");
    reveal_strlit("1. ");
    reveal_strlit("> ");
    let none = Seq::<char>::empty();
    let pre = before_body(kind, status);
    assert(kind.template() =~= pre + "{}"@ + none);
    lemma_frame_without_status(kind.template(), pre, none, body, status);
    assert(pre + body + none =~= pre + body);
}

/// The frame of an equation, an image and a toggle.
proof fn lemma_frame_closed(kind: BlockType, body: Seq<char>, status: Seq<char>)
    requires
        kind is Equation || kind is Image || kind is Toggle,
        free_of(body, '{'),
    ensures
        templated(kind, body, status) == before_body(kind, status) + body + behind_body(kind),
{
    reveal_strlit("{}");
    reveal_strlit("$${}$$");
    reveal_strlit("$$");
    reveal_strlit("![{}]({file})");
    reveal_strlit("![");
    reveal_strlit("]({file})");
    reveal_strlit("<details><summary>{}</summary>{child}</details>");
    reveal_strlit("<details><summary>");
    reveal_strlit("</summary>{child}</details>");
    let pre = before_body(kind, status);
    let post = behind_body(kind);
    assert(kind.template() =~= pre + "{}"@ + post);
    lemma_frame_without_status(kind.template(), pre, post, body, status);
}

/// The frame of a to-do, a callout and a code block.
proof fn lemma_frame_status(kind: BlockType, body: Seq<char>, status: Seq<char>)
    requires
        kind is ToDo || kind is Callout || kind is Code,
        free_of(body, '{'),
    ensures
        templated(kind, body, status) == before_body(kind, status) + body + behind_body(kind),
{
    reveal_strlit("{}");
    reveal_strlit("{status}");
    reveal_strlit("- [{status}] {}");
    reveal_strlit("- [");
    reveal_strlit("] ");
    reveal_strlit("<aside>{status}{}</aside>");
    reveal_strlit("<aside>");
    reveal_strlit("</aside>");
    reveal_strlit("```{status}\n{}\n```");
    reveal_strlit("```");
    reveal_strlit("\n");
    reveal_strlit("\n```");
    let none = Seq::<char>::empty();
    let a = if kind is ToDo {
        "- ["@
    } else if kind is Callout {
        "<aside>"@
    } else {
        "```"@
    };
    let b = if kind is ToDo {
        "] "@
    } else if kind is Callout {
        none
    } else {
        "\n"@
    };
    let post = behind_body(kind);
    assert(kind.template() =~= a + "{status}"@ + b + "{}"@ + post);
    lemma_frame_with_status(kind.template(), a, b, post, body, status);
    assert(a + status + b + body + post =~= before_body(kind, status) + body + post);
}

/// Where the body holds no opening brace, the template of any kind but a
/// divider comes to the body inside its frame: what the kind puts before
/// it, with the status in its place, and what the kind puts behind it.
pub proof fn lemma_template_frames_body(kind: BlockType, body: Seq<char>, status: Seq<char>)
    requires
        !(kind is Divider),
        free_of(body, '{'),
    ensures
        templated(kind, body, status) == before_body(kind, status) + body + behind_body(kind),
{
    let none = Seq::<char>::empty();
    if kind is ToDo || kind is Callout || kind is Code {
        lemma_frame_status(kind, body, status);
    } else if kind is Equation || kind is Image || kind is Toggle {
        lemma_frame_closed(kind, body, status);
    } else if kind.is_heading() || kind is BulletedListItem || kind is NumberedListItem
        || kind is Quote {
        lemma_frame_marked(kind, body, status);
        assert(before_body(kind, status) + body + none =~= before_body(kind, status) + body);
    } else {
        lemma_frame_plain(kind, body, status);
        assert(none + body + none =~= body);
    }
}

/// A block with text whose body holds no opening brace, without children
/// and without a colour, and neither callout nor quote, renders as its
/// body inside the frame of its kind.
pub proof fn lemma_leaf_is_framed(b: BlockView)
    requires
        !(b.kind is Divider),
        !(b.kind is Callout),
        !(b.kind is Quote),
        b.runs.len() > 0,
        b.children.len() == 0,
        b.color is Default,
        free_of(body_text(b.runs), '{'),
    ensures
        rendered(b) == before_body(b.kind, b.status.text()) + body_text(b.runs) + behind_body(
            b.kind,
        ),
{
    lemma_template_frames_body(b.kind, body_text(b.runs), b.status.text());
}

/// A toggle takes its children in place: between its summary and its end
/// stand the children, joined and without white space at their end, and
/// nothing else. This holds where the body holds no opening brace and the
/// toggle has no colour.
pub proof fn lemma_toggle_takes_children_in_place(b: BlockView)
    requires
        b.kind is Toggle,
        b.runs.len() > 0,
        b.children.len() > 0,
        b.color is Default,
        free_of(body_text(b.runs), '{'),
    ensures
        rendered(b) == "<details><summary>"@ + body_text(b.runs) + "</summary>"@ + trim_end_of(
            joined(b.children, b.children.len() as int),
        ) + "</details>"@,
{
    reveal_strlit("{child}");
    reveal_strlit("<details><summary>");
    reveal_strlit("</summary>{child}</details>");
    reveal_strlit("</summary>");
    reveal_strlit("</details>");
    let body = body_text(b.runs);
    let kids = trim_end_of(joined(b.children, b.children.len() as int));
    lemma_template_frames_body(b.kind, body, b.status.text());
    let text = "<details><summary>"@ + body + "</summary>{child}</details>"@;
    let pre = "<details><summary>"@ + body + "</summary>"@;
    assert(text =~= pre + "{child}"@ + "</details>"@);
    assert(free_of(pre, '{')) by {
        assert forall|i: int| 0 <= i < pre.len() implies pre[i] != '{' by {
            if i < 18 {
                assert(pre[i] == "<details><summary>"@[i]);
            } else if i < 18 + body.len() {
                assert(pre[i] == body[i - 18]);
            } else {
                assert(pre[i] == "</summary>"@[i - 18 - body.len()]);
            }
        }
    }
    lemma_absent_without_first("</details>"@, "{child}"@);
    lemma_replace_one(pre, "{child}"@, "</details>"@, kids);
    let whole = pre + kids + "</details>"@;
    assert(whole.last() == '>');
    assert(trim_end_of(whole) == whole);
}

/// A colour other than the default wraps a text without opening brace in
/// a `font` tag that carries the colour's attribute.
pub proof fn lemma_colour_wraps(color: AnnoColor, text: Seq<char>)
    requires
        !(color is Default),
        free_of(text, '{'),
    ensures
        colored(color, text) == "<font "@ + color.token() + ">"@ + text + "</font>"@,
{
    reveal_strlit("{}");
    reveal_strlit("{color}");
    reveal_strlit("color}>");
    reveal_strlit("<font {color}>{}</font>");
    reveal_strlit("<font ");
    reveal_strlit(">");
    reveal_strlit("</font>");
    let a = "<font "@;
    let word = "color}>"@;
    let post = "</font>"@;
    assert("<font {color}>{}</font>"@ =~= a + seq!['{'] + word + "{}"@ + post);
    lemma_absent_without_first(post, "{}"@);
    lemma_replace_one_behind(a, word, "{}"@, post, text);
    let filled = a + seq!['{'] + word + text + post;
    let rest = ">"@ + text + post;
    assert(filled =~= a + "{color}"@ + rest);
    assert(free_of(rest, '{')) by {
        assert forall|i: int| 0 <= i < rest.len() implies rest[i] != '{' by {
            if i < 1 {
            } else if i < 1 + text.len() {
                assert(rest[i] == text[i - 1]);
            } else {
                assert(rest[i] == post[i - 1 - text.len()]);
            }
        }
    }
    lemma_absent_without_first(rest, "{color}"@);
    lemma_replace_one(a, "{color}"@, rest, color.token());
    assert(a + color.token() + rest =~= a + color.token() + ">"@ + text + post);
}

/// Two blocks, one behind the other, are parted by a single line break
/// where both stand close together, and by a blank line otherwise.
pub proof fn lemma_two_blocks_are_parted(a: BlockView, b: BlockView)
    ensures
        joined(seq![a, b], 2) == rendered(a) + (if a.kind.is_tight() && b.kind.is_tight() {
            "\n"@
        } else {
            "\n\n"@
        }) + rendered(b) + separator(b.kind, None),
{
    let both = seq![a, b];
    reveal_with_fuel(joined, 3);
    assert(joined(both, 0) =~= Seq::<char>::empty());
    assert(joined(both, 1) =~= rendered(a) + separator(a.kind, Some(b.kind)));
}

} // verus!
