//! What is decided when a page is stored as an article of the blog: the
//! record of the article, the record of a tag or category, and which tags
//! and categories change.

use vstd::prelude::*;
use vstd::string::StringExecFns;
use md5::{Digest, Md5};
use crate::block::document_text;
use crate::error::{CommErr, CommErrView};
use crate::page::{find_property, Page, PageView};
use crate::property::texts_view;
use crate::strings::same_text;

verus! {

/// The record of an article.
#[derive(Debug, PartialEq, Eq)]
pub struct Article {
    pub title: String,
    pub slug: String,
    /// The time of creation, in seconds since 1970.
    pub created: u32,
    /// The time of the last edit, in seconds since 1970.
    pub modified: u32,
    pub text: String,
}

/// The record of an article as a mathematical value.
pub struct ArticleView {
    pub title: Seq<char>,
    pub slug: Seq<char>,
    pub created: u32,
    pub modified: u32,
    pub text: Seq<char>,
}

impl View for Article {
    type V = ArticleView;

    open spec fn view(&self) -> ArticleView {
        ArticleView {
            title: self.title@,
            slug: self.slug@,
            created: self.created,
            modified: self.modified,
            text: self.text@,
        }
    }
}

/// The record of a tag or a category.
#[derive(Debug, PartialEq, Eq)]
pub struct Meta {
    pub name: String,
    pub slug: String,
    /// `tag` or `category`.
    pub mtype: String,
    /// The number of articles under it.
    pub count: u32,
    pub order: u32,
    pub parent: u32,
}

/// The record of a tag or a category as a mathematical value.
pub struct MetaView {
    pub name: Seq<char>,
    pub slug: Seq<char>,
    pub mtype: Seq<char>,
    pub count: u32,
    pub order: u32,
    pub parent: u32,
}

impl View for Meta {
    type V = MetaView;

    open spec fn view(&self) -> MetaView {
        MetaView {
            name: self.name@,
            slug: self.slug@,
            mtype: self.mtype@,
            count: self.count,
            order: self.order,
            parent: self.parent,
        }
    }
}

/// The seconds since 1970 of the time that an RFC 3339 text names; nothing
/// where the text names no time.
pub uninterp spec fn seconds_of(text: Seq<char>) -> Option<i64>;

/// The MD5 digest of the UTF-8 bytes of a text, in lower-case hexadecimal
/// digits.
pub uninterp spec fn md5_hex_of(text: Seq<char>) -> Seq<char>;

/// Reads an RFC 3339 time as seconds since 1970.
///
/// Wraps `chrono::DateTime::parse_from_rfc3339` and, on the time it gives,
/// `chrono::DateTime::timestamp`: the result is `None` where the parser
/// refuses the text, else the time's seconds since 1970. It depends on the
/// text alone: the text carries its own offset from UTC.
#[verifier::external_body]
fn rfc3339_seconds(text: &str) -> (r: Option<i64>)
    ensures
        r == seconds_of(text@),
{
    match chrono::DateTime::parse_from_rfc3339(text) {
        Ok(t) => Some(t.timestamp()),
        Err(_) => None,
    }
}

/// The MD5 digest of `text` in hexadecimal digits.
///
/// Wraps `md5::Md5::digest`, printed with `{:x}`: the result is the digest
/// of the text's bytes, which depends on the text alone.
#[verifier::external_body]
fn md5_hex(text: &str) -> (r: String)
    ensures
        r@ == md5_hex_of(text@),
{
    format!("{:x}", Md5::digest(text))
}

/// A number of seconds cut to 32 bits.
pub open spec fn low_32(seconds: int) -> int {
    seconds % 0x1_0000_0000
}

/// The time that a text names, in seconds since 1970 cut to 32 bits, given
/// what the parser made of the text: an error where it made nothing of it.
pub open spec fn stamp_of(text: Seq<char>, seconds: Option<i64>) -> Result<u32, CommErrView> {
    match seconds {
        Some(s) => Ok(low_32(s as int) as u32),
        None => Err(CommErrView::TimeTransErr(text)),
    }
}

/// The time that `text` names, given what the parser made of the text.
pub fn stamp(text: &str, seconds: Option<i64>) -> (r: Result<u32, CommErr>)
    ensures
        match r {
            Ok(t) => stamp_of(text@, seconds) == Ok::<u32, CommErrView>(t),
            Err(e) => stamp_of(text@, seconds) == Err::<u32, CommErrView>(e@),
        },
{
    match seconds {
        Some(s) => {
            let m: i64 = s % 0x1_0000_0000;
            let low: i64 = if m < 0 {
                m + 0x1_0000_0000
            } else {
                m
            };
            assert(low == low_32(s as int)) by {
                lemma_low_32(s as int, m as int);
            }
            Ok(low as u32)
        },
        None => Err(CommErr::TimeTransErr(String::from_str(text))),
    }
}

/// The remainder of a division that rounds toward zero, made positive, is
/// the remainder of the division that rounds down.
proof fn lemma_low_32(s: int, m: int)
    requires
        -0x1_0000_0000 < m < 0x1_0000_0000,
        (s - m) % 0x1_0000_0000 == 0,
    ensures
        low_32(s) == if m < 0 {
            m + 0x1_0000_0000
        } else {
            m
        },
{
}

/// The time that `text` names, in seconds since 1970 cut to 32 bits.
pub fn timestamp(text: &str) -> (r: Result<u32, CommErr>)
    ensures
        match r {
            Ok(t) => stamp_of(text@, seconds_of(text@)) == Ok::<u32, CommErrView>(t),
            Err(e) => stamp_of(text@, seconds_of(text@)) == Err::<u32, CommErrView>(e@),
        },
{
    let seconds = rfc3339_seconds(text);
    stamp(text, seconds)
}

/// The text of an article: the rendered content behind the mark that says
/// that it is markdown.
pub open spec fn article_text(content: Seq<char>) -> Seq<char> {
    "<!--markdown-->"@ + content
}

/// The one value of the property `key` of a page, which must have the
/// property.
pub open spec fn shown_property(page: PageView, key: Seq<char>) -> Result<Seq<char>, CommErrView> {
    match find_property(page.properties, key) {
        None => Err(CommErrView::MissingField(key)),
        Some(p) => p.shown(),
    }
}

/// The values of the property `key` of a page, which must have the
/// property.
pub open spec fn listed_property(page: PageView, key: Seq<char>) -> Result<
    Seq<Seq<char>>,
    CommErrView,
> {
    match find_property(page.properties, key) {
        None => Err(CommErrView::MissingField(key)),
        Some(p) => p.values(),
    }
}

/// The record of the article that a page makes: its title, the value of
/// its property `Slug`, its times and its rendered content.
pub open spec fn article_of(page: PageView) -> Result<ArticleView, CommErrView> {
    match shown_property(page, "Slug"@) {
        Err(e) => Err(e),
        Ok(slug) => match stamp_of(page.created_time, seconds_of(page.created_time)) {
            Err(e) => Err(e),
            Ok(created) => match stamp_of(page.edited_time, seconds_of(page.edited_time)) {
                Err(e) => Err(e),
                Ok(modified) => Ok(
                    ArticleView {
                        title: page.title,
                        slug,
                        created,
                        modified,
                        text: article_text(document_text(page.content)),
                    },
                ),
            },
        },
    }
}

/// The record of a new tag or category with its first article: its slug
/// is given, it counts one article and stands at the top.
pub open spec fn meta_of(name: Seq<char>, mtype: Seq<char>, slug: Seq<char>) -> MetaView {
    MetaView { name, slug, mtype, count: 1, order: 0, parent: 0 }
}

/// Whether `list` holds the text `t`.
pub open spec fn has_text(list: Seq<Seq<char>>, t: Seq<char>) -> bool {
    exists|i: int| 0 <= i < list.len() && #[trigger] list[i] == t
}

/// The indices, among the first `n` of `linked`, of the names that
/// `wanted` does not hold.
pub open spec fn dropped(linked: Seq<Seq<char>>, wanted: Seq<Seq<char>>, n: int) -> Seq<usize>
    decreases n,
{
    if n <= 0 || n > linked.len() {
        Seq::empty()
    } else if has_text(wanted, linked[n - 1]) {
        dropped(linked, wanted, n - 1)
    } else {
        dropped(linked, wanted, n - 1).push((n - 1) as usize)
    }
}

/// Those of the first `n` of `wanted` that `linked` does not hold.
pub open spec fn added(wanted: Seq<Seq<char>>, linked: Seq<Seq<char>>, n: int) -> Seq<Seq<char>>
    decreases n,
{
    if n <= 0 || n > wanted.len() {
        Seq::empty()
    } else if has_text(linked, wanted[n - 1]) {
        added(wanted, linked, n - 1)
    } else {
        added(wanted, linked, n - 1).push(wanted[n - 1])
    }
}

/// What changes among the tags and categories of an article when its page
/// is stored again.
#[derive(Debug, PartialEq, Eq)]
pub struct TagPlan {
    /// The places, in the list of what the article stands under, of what
    /// it stands under no longer.
    pub decrease: Vec<usize>,
    /// Whether the article comes under its category anew.
    pub add_category: bool,
    /// The tags under which the article comes anew.
    pub add_tags: Vec<String>,
}

/// A plan as a mathematical value.
pub struct TagPlanView {
    pub decrease: Seq<usize>,
    pub add_category: bool,
    pub add_tags: Seq<Seq<char>>,
}

impl View for TagPlan {
    type V = TagPlanView;

    open spec fn view(&self) -> TagPlanView {
        TagPlanView {
            decrease: self.decrease@,
            add_category: self.add_category,
            add_tags: texts_view(self.add_tags@),
        }
    }
}

/// The plan for an article whose page has the tags `page_tags` and the
/// category `category`, and which stands under `linked`: it leaves what
/// is no tag of the page, comes under the category unless it stands under
/// it, and comes under each tag of the page under which it does not
/// stand.
pub open spec fn plan_of(
    page_tags: Seq<Seq<char>>,
    category: Seq<char>,
    linked: Seq<Seq<char>>,
) -> TagPlanView {
    TagPlanView {
        decrease: dropped(linked, page_tags, linked.len() as int),
        add_category: !has_text(linked, category),
        add_tags: added(page_tags, linked, page_tags.len() as int),
    }
}

/// Whether `list` holds the text `t`.
pub fn holds_text(list: &Vec<String>, t: &str) -> (r: bool)
    ensures
        r == has_text(texts_view(list@), t@),
{
    let ghost texts = texts_view(list@);
    let mut i: usize = 0;
    while i < list.len()
        invariant
            i <= list.len(),
            texts == texts_view(list@),
            forall|j: int| 0 <= j < i ==> texts[j] != t@,
        decreases list.len() - i,
    {
        if same_text(list[i].as_str(), t) {
            assert(texts[i as int] == t@);
            return true;
        }
        i = i + 1;
    }
    false
}

/// The number of articles under a tag once one more stands under it;
/// nothing where the number would not fit.
pub fn increased(count: u32) -> (r: Option<u32>)
    ensures
        r == if count < u32::MAX {
            Some((count + 1) as u32)
        } else {
            None
        },
{
    if count < u32::MAX {
        Some(count + 1)
    } else {
        None
    }
}

/// The number of articles under a tag once one stands under it no longer:
/// one less, and none where there was none.
pub fn decreased(count: u32) -> (r: u32)
    ensures
        r == if count > 0 {
            count - 1
        } else {
            0
        },
{
    if count > 0 {
        count - 1
    } else {
        count
    }
}

/// The record of a new tag or category under the given slug.
pub fn meta_with_slug(name: String, mtype: String, slug: String) -> (r: Meta)
    ensures
        r@ == meta_of(name@, mtype@, slug@),
{
    Meta { name, slug, mtype, count: 1, order: 0, parent: 0 }
}

/// The record of a new tag or category: its slug is the MD5 digest of its
/// name.
pub fn new_meta(name: String, mtype: String) -> (r: Meta)
    ensures
        r@ == meta_of(name@, mtype@, md5_hex_of(name@)),
{
    let slug = md5_hex(name.as_str());
    meta_with_slug(name, mtype, slug)
}

/// The record of the article that `page` makes.
pub fn draft(page: &Page) -> (r: Result<Article, CommErr>)
    ensures
        match r {
            Ok(a) => article_of(page@) == Ok::<ArticleView, CommErrView>(a@),
            Err(e) => article_of(page@) == Err::<ArticleView, CommErrView>(e@),
        },
{
    let slug = match shown(page, "Slug") {
        Ok(s) => s,
        Err(e) => {
            return Err(e);
        },
    };
    let created = match timestamp(page.created_time.as_str()) {
        Ok(t) => t,
        Err(e) => {
            return Err(e);
        },
    };
    let modified = match timestamp(page.edited_time.as_str()) {
        Ok(t) => t,
        Err(e) => {
            return Err(e);
        },
    };
    let mut text = String::from_str("<!--markdown-->");
    let content = page.content.render();
    text.append(content.as_str());
    Ok(Article { title: page.title.clone(), slug, created, modified, text })
}

/// The one value of the property `key` of `page`.
pub fn shown(page: &Page, key: &str) -> (r: Result<String, CommErr>)
    ensures
        match r {
            Ok(t) => shown_property(page@, key@) == Ok::<Seq<char>, CommErrView>(t@),
            Err(e) => shown_property(page@, key@) == Err::<Seq<char>, CommErrView>(e@),
        },
{
    match page.search_property(key) {
        None => Err(CommErr::MissingField(String::from_str(key))),
        Some(p) => p.to_text(),
    }
}

/// The values of the property `key` of `page`.
pub fn listed(page: &Page, key: &str) -> (r: Result<Vec<String>, CommErr>)
    ensures
        match r {
            Ok(t) => listed_property(page@, key@) == Ok::<Seq<Seq<char>>, CommErrView>(
                texts_view(t@),
            ),
            Err(e) => listed_property(page@, key@) == Err::<Seq<Seq<char>>, CommErrView>(e@),
        },
{
    match page.search_property(key) {
        None => Err(CommErr::MissingField(String::from_str(key))),
        Some(p) => p.to_array(),
    }
}

/// Plans what changes among the tags and categories of an article: the
/// page has the tags `page_tags` and the category `category`, the article
/// stands under `linked`.
pub fn plan_update(page_tags: &Vec<String>, category: &str, linked: &Vec<String>) -> (r: TagPlan)
    ensures
        r@ == plan_of(texts_view(page_tags@), category@, texts_view(linked@)),
{
    let ghost wanted = texts_view(page_tags@);
    let ghost have = texts_view(linked@);
    let mut decrease: Vec<usize> = Vec::new();
    let mut i: usize = 0;
    while i < linked.len()
        invariant
            i <= linked.len(),
            wanted == texts_view(page_tags@),
            have == texts_view(linked@),
            decrease@ == dropped(have, wanted, i as int),
        decreases linked.len() - i,
    {
        if !holds_text(page_tags, linked[i].as_str()) {
            decrease.push(i);
        }
        i = i + 1;
    }
    let add_category = !holds_text(linked, category);
    let mut add_tags: Vec<String> = Vec::new();
    let mut k: usize = 0;
    assert(texts_view(add_tags@) =~= Seq::empty());
    while k < page_tags.len()
        invariant
            k <= page_tags.len(),
            wanted == texts_view(page_tags@),
            have == texts_view(linked@),
            texts_view(add_tags@) == added(wanted, have, k as int),
        decreases page_tags.len() - k,
    {
        if !holds_text(linked, page_tags[k].as_str()) {
            let ghost before = texts_view(add_tags@);
            add_tags.push(page_tags[k].clone());
            assert(texts_view(add_tags@) =~= before.push(wanted[k as int]));
        }
        k = k + 1;
    }
    TagPlan { decrease, add_category, add_tags }
}

} // verus!
