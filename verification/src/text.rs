//! The closed vocabularies of the renderer: the kinds of block, the inline
//! annotations and the colours, each with its tag and its markup.

use vstd::prelude::*;
use vstd::string::StringExecFns;
use crate::error::{CommErr, CommErrView};
use crate::strings::same_text;

verus! {

/// The kind of a block.
#[derive(Clone, Copy, Debug, PartialEq, Eq, Structural)]
pub enum BlockType {
    Paragraph,
    Heading1,
    Heading2,
    Heading3,
    BulletedListItem,
    NumberedListItem,
    ToDo,
    Toggle,
    Callout,
    Quote,
    Code,
    Divider,
    Equation,
    Image,
    Template,
    ChildPage,
    ChildDatabase,
    Embed,
    Video,
    File,
    Pdf,
    Bookmark,
    TableOfContents,
    Column,
    ColumnList,
    LinkPreview,
    SyncedBlock,
    LinkToPage,
    Table,
    TableRow,
    Unsupported,
}

impl BlockType {
    /// The kind that a type tag names.
    pub open spec fn of_tag(tag: Seq<char>) -> Option<BlockType> {
        if tag == "paragraph"@ {
            Some(BlockType::Paragraph)
        } else if tag == "heading_1"@ {
            Some(BlockType::Heading1)
        } else if tag == "heading_2"@ {
            Some(BlockType::Heading2)
        } else if tag == "heading_3"@ {
            Some(BlockType::Heading3)
        } else if tag == "bulleted_list_item"@ {
            Some(BlockType::BulletedListItem)
        } else if tag == "numbered_list_item"@ {
            Some(BlockType::NumberedListItem)
        } else if tag == "to_do"@ {
            Some(BlockType::ToDo)
        } else if tag == "toggle"@ {
            Some(BlockType::Toggle)
        } else if tag == "callout"@ {
            Some(BlockType::Callout)
        } else if tag == "quote"@ {
            Some(BlockType::Quote)
        } else if tag == "code"@ {
            Some(BlockType::Code)
        } else if tag == "divider"@ {
            Some(BlockType::Divider)
        } else if tag == "equation"@ {
            Some(BlockType::Equation)
        } else if tag == "image"@ {
            Some(BlockType::Image)
        } else if tag == "template"@ {
            Some(BlockType::Template)
        } else if tag == "child_page"@ {
            Some(BlockType::ChildPage)
        } else if tag == "child_database"@ {
            Some(BlockType::ChildDatabase)
        } else if tag == "embed"@ {
            Some(BlockType::Embed)
        } else if tag == "video"@ {
            Some(BlockType::Video)
        } else if tag == "file"@ {
            Some(BlockType::File)
        } else if tag == "pdf"@ {
            Some(BlockType::Pdf)
        } else if tag == "bookmark"@ {
            Some(BlockType::Bookmark)
        } else if tag == "table_of_contents"@ {
            Some(BlockType::TableOfContents)
        } else if tag == "column"@ {
            Some(BlockType::Column)
        } else if tag == "column_list"@ {
            Some(BlockType::ColumnList)
        } else if tag == "link_preview"@ {
            Some(BlockType::LinkPreview)
        } else if tag == "synced_block"@ {
            Some(BlockType::SyncedBlock)
        } else if tag == "link_to_page"@ {
            Some(BlockType::LinkToPage)
        } else if tag == "table"@ {
            Some(BlockType::Table)
        } else if tag == "table_row"@ {
            Some(BlockType::TableRow)
        } else if tag == "unsupported"@ {
            Some(BlockType::Unsupported)
        } else {
            None
        }
    }

    /// The tag that names the kind.
    pub open spec fn tag(self) -> Seq<char> {
        match self {
            BlockType::Paragraph => "paragraph"@,
            BlockType::Heading1 => "heading_1"@,
            BlockType::Heading2 => "heading_2"@,
            BlockType::Heading3 => "heading_3"@,
            BlockType::BulletedListItem => "bulleted_list_item"@,
            BlockType::NumberedListItem => "numbered_list_item"@,
            BlockType::ToDo => "to_do"@,
            BlockType::Toggle => "toggle"@,
            BlockType::Callout => "callout"@,
            BlockType::Quote => "quote"@,
            BlockType::Code => "code"@,
            BlockType::Divider => "divider"@,
            BlockType::Equation => "equation"@,
            BlockType::Image => "image"@,
            BlockType::Template => "template"@,
            BlockType::ChildPage => "child_page"@,
            BlockType::ChildDatabase => "child_database"@,
            BlockType::Embed => "embed"@,
            BlockType::Video => "video"@,
            BlockType::File => "file"@,
            BlockType::Pdf => "pdf"@,
            BlockType::Bookmark => "bookmark"@,
            BlockType::TableOfContents => "table_of_contents"@,
            BlockType::Column => "column"@,
            BlockType::ColumnList => "column_list"@,
            BlockType::LinkPreview => "link_preview"@,
            BlockType::SyncedBlock => "synced_block"@,
            BlockType::LinkToPage => "link_to_page"@,
            BlockType::Table => "table"@,
            BlockType::TableRow => "table_row"@,
            BlockType::Unsupported => "unsupported"@,
        }
    }

    /// The markup of the kind: a text with the placeholders `{}` for the
    /// body, `{status}` for the status and `{child}` for the children. A kind
    /// without markup of its own passes its body through.
    pub open spec fn template(self) -> Seq<char> {
        match self {
            BlockType::Paragraph => "{}"@,
            BlockType::Heading1 => "# {}"@,
            BlockType::Heading2 => "## {}"@,
            BlockType::Heading3 => "### {}"@,
            BlockType::BulletedListItem => "* {}"@,
            BlockType::NumberedListItem => "1. {}"@,
            BlockType::ToDo => "- [{status}] {}"@,
            BlockType::Toggle => "<details><summary>{}</summary>{child}</details>"@,
            BlockType::Callout => "<aside>{status}{}</aside>"@,
            BlockType::Quote => "> {}"@,
            BlockType::Code => "```{status}\n{}\n```"@,
            BlockType::Divider => "---"@,
            BlockType::Equation => "$${}$$"@,
            BlockType::Image => "![{}]({file})"@,
            _ => "{}"@,
        }
    }

    /// Whether blocks of this kind stand close together: a list item or a
    /// to-do is parted from the next one by a single line break.
    pub open spec fn is_tight(self) -> bool {
        self is ToDo || self is NumberedListItem || self is BulletedListItem
    }

    /// Whether a heading.
    pub open spec fn is_heading(self) -> bool {
        self is Heading1 || self is Heading2 || self is Heading3
    }

    /// Reads a kind from its type tag.
    pub fn from_str(tag: &str) -> (r: Result<BlockType, CommErr>)
        ensures
            match r {
                Ok(k) => BlockType::of_tag(tag@) == Some(k),
                Err(e) => BlockType::of_tag(tag@) is None && e@ == CommErrView::UnsupportedKind(
                    tag@,
                ),
            },
    {
        if same_text(tag, "paragraph") {
            Ok(BlockType::Paragraph)
        } else if same_text(tag, "heading_1") {
            Ok(BlockType::Heading1)
        } else if same_text(tag, "heading_2") {
            Ok(BlockType::Heading2)
        } else if same_text(tag, "heading_3") {
            Ok(BlockType::Heading3)
        } else if same_text(tag, "bulleted_list_item") {
            Ok(BlockType::BulletedListItem)
        } else if same_text(tag, "numbered_list_item") {
            Ok(BlockType::NumberedListItem)
        } else if same_text(tag, "to_do") {
            Ok(BlockType::ToDo)
        } else if same_text(tag, "toggle") {
            Ok(BlockType::Toggle)
        } else if same_text(tag, "callout") {
            Ok(BlockType::Callout)
        } else if same_text(tag, "quote") {
            Ok(BlockType::Quote)
        } else if same_text(tag, "code") {
            Ok(BlockType::Code)
        } else if same_text(tag, "divider") {
            Ok(BlockType::Divider)
        } else if same_text(tag, "equation") {
            Ok(BlockType::Equation)
        } else if same_text(tag, "image") {
            Ok(BlockType::Image)
        } else if same_text(tag, "template") {
            Ok(BlockType::Template)
        } else if same_text(tag, "child_page") {
            Ok(BlockType::ChildPage)
        } else if same_text(tag, "child_database") {
            Ok(BlockType::ChildDatabase)
        } else if same_text(tag, "embed") {
            Ok(BlockType::Embed)
        } else if same_text(tag, "video") {
            Ok(BlockType::Video)
        } else if same_text(tag, "file") {
            Ok(BlockType::File)
        } else if same_text(tag, "pdf") {
            Ok(BlockType::Pdf)
        } else if same_text(tag, "bookmark") {
            Ok(BlockType::Bookmark)
        } else if same_text(tag, "table_of_contents") {
            Ok(BlockType::TableOfContents)
        } else if same_text(tag, "column") {
            Ok(BlockType::Column)
        } else if same_text(tag, "column_list") {
            Ok(BlockType::ColumnList)
        } else if same_text(tag, "link_preview") {
            Ok(BlockType::LinkPreview)
        } else if same_text(tag, "synced_block") {
            Ok(BlockType::SyncedBlock)
        } else if same_text(tag, "link_to_page") {
            Ok(BlockType::LinkToPage)
        } else if same_text(tag, "table") {
            Ok(BlockType::Table)
        } else if same_text(tag, "table_row") {
            Ok(BlockType::TableRow)
        } else if same_text(tag, "unsupported") {
            Ok(BlockType::Unsupported)
        } else {
            Err(CommErr::UnsupportedKind(String::from_str(tag)))
        }
    }

    /// The tag that names the kind.
    pub fn to_str(&self) -> (r: &'static str)
        ensures
            r@ == self.tag(),
    {
        match self {
            BlockType::Paragraph => "paragraph",
            BlockType::Heading1 => "heading_1",
            BlockType::Heading2 => "heading_2",
            BlockType::Heading3 => "heading_3",
            BlockType::BulletedListItem => "bulleted_list_item",
            BlockType::NumberedListItem => "numbered_list_item",
            BlockType::ToDo => "to_do",
            BlockType::Toggle => "toggle",
            BlockType::Callout => "callout",
            BlockType::Quote => "quote",
            BlockType::Code => "code",
            BlockType::Divider => "divider",
            BlockType::Equation => "equation",
            BlockType::Image => "image",
            BlockType::Template => "template",
            BlockType::ChildPage => "child_page",
            BlockType::ChildDatabase => "child_database",
            BlockType::Embed => "embed",
            BlockType::Video => "video",
            BlockType::File => "file",
            BlockType::Pdf => "pdf",
            BlockType::Bookmark => "bookmark",
            BlockType::TableOfContents => "table_of_contents",
            BlockType::Column => "column",
            BlockType::ColumnList => "column_list",
            BlockType::LinkPreview => "link_preview",
            BlockType::SyncedBlock => "synced_block",
            BlockType::LinkToPage => "link_to_page",
            BlockType::Table => "table",
            BlockType::TableRow => "table_row",
            BlockType::Unsupported => "unsupported",
        }
    }

    /// The markup of the kind.
    pub fn md(&self) -> (r: &'static str)
        ensures
            r@ == self.template(),
    {
        match self {
            BlockType::Paragraph => "{}",
            BlockType::Heading1 => "# {}",
            BlockType::Heading2 => "## {}",
            BlockType::Heading3 => "### {}",
            BlockType::BulletedListItem => "* {}",
            BlockType::NumberedListItem => "1. {}",
            BlockType::ToDo => "- [{status}] {}",
            BlockType::Toggle => "<details><summary>{}</summary>{child}</details>",
            BlockType::Callout => "<aside>{status}{}</aside>",
            BlockType::Quote => "> {}",
            BlockType::Code => "```{status}\n{}\n```",
            BlockType::Divider => "---",
            BlockType::Equation => "$${}$$",
            BlockType::Image => "![{}]({file})",
            _ => "{}",
        }
    }

    /// Whether a block of this kind may stand without text. Only a divider
    /// may: any other kind without text renders as a line break.
    pub fn be_empty(&self) -> (r: bool)
        ensures
            r == (*self is Divider),
    {
        match self {
            BlockType::Divider => true,
            _ => false,
        }
    }

    /// Whether blocks of this kind stand close together.
    pub fn tight(&self) -> (r: bool)
        ensures
            r == self.is_tight(),
    {
        match self {
            BlockType::ToDo | BlockType::NumberedListItem | BlockType::BulletedListItem => true,
            _ => false,
        }
    }
}

/// A colour of text or of its background.
#[derive(Clone, Copy, Debug, PartialEq, Eq, Structural)]
pub enum AnnoColor {
    Default,
    Blue,
    BlueBackground,
    Brown,
    BrownBackground,
    Gray,
    GrayBackground,
    Green,
    GreenBackground,
    Orange,
    OrangeBackground,
    Pink,
    PinkBackground,
    Purple,
    PurpleBackground,
    Red,
    RedBackground,
    Yellow,
    YellowBackground,
}

impl Default for AnnoColor {
    fn default() -> (r: Self)
        ensures
            r == AnnoColor::Default,
    {
        AnnoColor::Default
    }
}

impl AnnoColor {
    /// The colour that a name stands for.
    pub open spec fn of_name(name: Seq<char>) -> Option<AnnoColor> {
        if name == "default"@ {
            Some(AnnoColor::Default)
        } else if name == "blue"@ {
            Some(AnnoColor::Blue)
        } else if name == "blue_background"@ {
            Some(AnnoColor::BlueBackground)
        } else if name == "brown"@ {
            Some(AnnoColor::Brown)
        } else if name == "brown_background"@ {
            Some(AnnoColor::BrownBackground)
        } else if name == "gray"@ {
            Some(AnnoColor::Gray)
        } else if name == "gray_background"@ {
            Some(AnnoColor::GrayBackground)
        } else if name == "green"@ {
            Some(AnnoColor::Green)
        } else if name == "green_background"@ {
            Some(AnnoColor::GreenBackground)
        } else if name == "orange"@ {
            Some(AnnoColor::Orange)
        } else if name == "orange_background"@ {
            Some(AnnoColor::OrangeBackground)
        } else if name == "pink"@ {
            Some(AnnoColor::Pink)
        } else if name == "pink_background"@ {
            Some(AnnoColor::PinkBackground)
        } else if name == "purple"@ {
            Some(AnnoColor::Purple)
        } else if name == "purple_background"@ {
            Some(AnnoColor::PurpleBackground)
        } else if name == "red"@ {
            Some(AnnoColor::Red)
        } else if name == "red_background"@ {
            Some(AnnoColor::RedBackground)
        } else if name == "yellow"@ {
            Some(AnnoColor::Yellow)
        } else if name == "yellow_background"@ {
            Some(AnnoColor::YellowBackground)
        } else {
            None
        }
    }

    /// The colour that a name stands for, the default colour where it
    /// stands for none.
    pub open spec fn of_name_or_default(name: Seq<char>) -> AnnoColor {
        match AnnoColor::of_name(name) {
            Some(c) => c,
            None => AnnoColor::Default,
        }
    }

    /// The attribute that sets the colour in a `font` tag; the default
    /// colour has none.
    pub open spec fn token(self) -> Seq<char> {
        match self {
            AnnoColor::Default => Seq::empty(),
            AnnoColor::Blue => "color=blue"@,
            AnnoColor::BlueBackground => "style=background:blue"@,
            AnnoColor::Brown => "color=brown"@,
            AnnoColor::BrownBackground => "style=background:brown"@,
            AnnoColor::Gray => "color=gray"@,
            AnnoColor::GrayBackground => "style=background:gray"@,
            AnnoColor::Green => "color=green"@,
            AnnoColor::GreenBackground => "style=background:green"@,
            AnnoColor::Orange => "color=orange"@,
            AnnoColor::OrangeBackground => "style=background:orange"@,
            AnnoColor::Pink => "color=pink"@,
            AnnoColor::PinkBackground => "style=background:pink"@,
            AnnoColor::Purple => "color=purple"@,
            AnnoColor::PurpleBackground => "style=background:purple"@,
            AnnoColor::Red => "color=red"@,
            AnnoColor::RedBackground => "style=background:red"@,
            AnnoColor::Yellow => "color=yellow"@,
            AnnoColor::YellowBackground => "style=background:yellow"@,
        }
    }

    /// Reads a colour from its name.
    pub fn from_str(name: &str) -> (r: Result<AnnoColor, CommErr>)
        ensures
            match r {
                Ok(c) => AnnoColor::of_name(name@) == Some(c),
                Err(e) => AnnoColor::of_name(name@) is None && e@ == CommErrView::UnsupportedKind(
                    name@,
                ),
            },
    {
        if same_text(name, "default") {
            Ok(AnnoColor::Default)
        } else if same_text(name, "blue") {
            Ok(AnnoColor::Blue)
        } else if same_text(name, "blue_background") {
            Ok(AnnoColor::BlueBackground)
        } else if same_text(name, "brown") {
            Ok(AnnoColor::Brown)
        } else if same_text(name, "brown_background") {
            Ok(AnnoColor::BrownBackground)
        } else if same_text(name, "gray") {
            Ok(AnnoColor::Gray)
        } else if same_text(name, "gray_background") {
            Ok(AnnoColor::GrayBackground)
        } else if same_text(name, "green") {
            Ok(AnnoColor::Green)
        } else if same_text(name, "green_background") {
            Ok(AnnoColor::GreenBackground)
        } else if same_text(name, "orange") {
            Ok(AnnoColor::Orange)
        } else if same_text(name, "orange_background") {
            Ok(AnnoColor::OrangeBackground)
        } else if same_text(name, "pink") {
            Ok(AnnoColor::Pink)
        } else if same_text(name, "pink_background") {
            Ok(AnnoColor::PinkBackground)
        } else if same_text(name, "purple") {
            Ok(AnnoColor::Purple)
        } else if same_text(name, "purple_background") {
            Ok(AnnoColor::PurpleBackground)
        } else if same_text(name, "red") {
            Ok(AnnoColor::Red)
        } else if same_text(name, "red_background") {
            Ok(AnnoColor::RedBackground)
        } else if same_text(name, "yellow") {
            Ok(AnnoColor::Yellow)
        } else if same_text(name, "yellow_background") {
            Ok(AnnoColor::YellowBackground)
        } else {
            Err(CommErr::UnsupportedKind(String::from_str(name)))
        }
    }

    /// The attribute that sets the colour in a `font` tag.
    pub fn md(&self) -> (r: &'static str)
        ensures
            r@ == self.token(),
    {
        match self {
            AnnoColor::Default => {
                proof {
                    reveal_strlit("");
                }
                assert(""@ =~= Seq::<char>::empty());
                ""
            },
            AnnoColor::Blue => "color=blue",
            AnnoColor::BlueBackground => "style=background:blue",
            AnnoColor::Brown => "color=brown",
            AnnoColor::BrownBackground => "style=background:brown",
            AnnoColor::Gray => "color=gray",
            AnnoColor::GrayBackground => "style=background:gray",
            AnnoColor::Green => "color=green",
            AnnoColor::GreenBackground => "style=background:green",
            AnnoColor::Orange => "color=orange",
            AnnoColor::OrangeBackground => "style=background:orange",
            AnnoColor::Pink => "color=pink",
            AnnoColor::PinkBackground => "style=background:pink",
            AnnoColor::Purple => "color=purple",
            AnnoColor::PurpleBackground => "style=background:purple",
            AnnoColor::Red => "color=red",
            AnnoColor::RedBackground => "style=background:red",
            AnnoColor::Yellow => "color=yellow",
            AnnoColor::YellowBackground => "style=background:yellow",
        }
    }
}

/// An inline style of a run of text.
#[derive(Clone, Copy, Debug, PartialEq, Eq, Structural)]
pub enum Annotation {
    Bold,
    Italic,
    Strikethrough,
    Underline,
    Code,
    Color(AnnoColor),
}

impl Annotation {
    /// The annotation that a key names; `color` names the default colour.
    pub open spec fn of_name(name: Seq<char>) -> Option<Annotation> {
        if name == "bold"@ {
            Some(Annotation::Bold)
        } else if name == "italic"@ {
            Some(Annotation::Italic)
        } else if name == "strikethrough"@ {
            Some(Annotation::Strikethrough)
        } else if name == "underline"@ {
            Some(Annotation::Underline)
        } else if name == "code"@ {
            Some(Annotation::Code)
        } else if name == "color"@ {
            Some(Annotation::Color(AnnoColor::Default))
        } else {
            None
        }
    }

    /// The place of the annotation in the canonical order: inline code,
    /// bold, italic, strikethrough, underline, colour.
    pub open spec fn rank(self) -> int {
        match self {
            Annotation::Code => 0,
            Annotation::Bold => 1,
            Annotation::Italic => 2,
            Annotation::Strikethrough => 3,
            Annotation::Underline => 4,
            Annotation::Color(_) => 5,
        }
    }

    /// Whether bold or italic: the two styles whose delimiters would
    /// collide.
    pub open spec fn is_emphasis(self) -> bool {
        self is Bold || self is Italic
    }

    /// What the annotation puts before the text. `alternate` chooses the
    /// second form of bold and italic. The default colour puts nothing.
    pub open spec fn opening(self, alternate: bool) -> Seq<char> {
        match self {
            Annotation::Bold => if alternate {
                "__"@
            } else {
                "**"@
            },
            Annotation::Italic => if alternate {
                "_"@
            } else {
                "*"@
            },
            Annotation::Strikethrough => "<del>"@,
            Annotation::Underline => "<u>"@,
            Annotation::Code => "`"@,
            Annotation::Color(c) => if c is Default {
                Seq::empty()
            } else {
                "<font "@ + c.token() + ">"@
            },
        }
    }

    /// What the annotation puts behind the text.
    pub open spec fn closing(self, alternate: bool) -> Seq<char> {
        match self {
            Annotation::Bold => if alternate {
                "__"@
            } else {
                "**"@
            },
            Annotation::Italic => if alternate {
                "_"@
            } else {
                "*"@
            },
            Annotation::Strikethrough => "</del>"@,
            Annotation::Underline => "</u>"@,
            Annotation::Code => "`"@,
            Annotation::Color(c) => if c is Default {
                Seq::empty()
            } else {
                "</font>"@
            },
        }
    }

    /// Reads an annotation from its key.
    pub fn from_str(name: &str) -> (r: Result<Annotation, CommErr>)
        ensures
            match r {
                Ok(a) => Annotation::of_name(name@) == Some(a),
                Err(e) => Annotation::of_name(name@) is None && e@
                    == CommErrView::UnsupportedKind(name@),
            },
    {
        if same_text(name, "bold") {
            Ok(Annotation::Bold)
        } else if same_text(name, "italic") {
            Ok(Annotation::Italic)
        } else if same_text(name, "strikethrough") {
            Ok(Annotation::Strikethrough)
        } else if same_text(name, "underline") {
            Ok(Annotation::Underline)
        } else if same_text(name, "code") {
            Ok(Annotation::Code)
        } else if same_text(name, "color") {
            Ok(Annotation::Color(AnnoColor::Default))
        } else {
            Err(CommErr::UnsupportedKind(String::from_str(name)))
        }
    }

    /// Gives a colour annotation the colour that `val` names, the default
    /// colour where it names none. Any other annotation stays as it is.
    pub fn reset_val(self, val: &str) -> (r: Annotation)
        ensures
            r == if self is Color {
                Annotation::Color(AnnoColor::of_name_or_default(val@))
            } else {
                self
            },
    {
        match self {
            Annotation::Color(_) => match AnnoColor::from_str(val) {
                Ok(c) => Annotation::Color(c),
                Err(_) => Annotation::Color(AnnoColor::Default),
            },
            _ => self,
        }
    }

    /// The place of the annotation in the canonical order.
    pub fn get_serial_num(&self) -> (r: usize)
        ensures
            r == self.rank(),
    {
        match self {
            Annotation::Code => 0,
            Annotation::Bold => 1,
            Annotation::Italic => 2,
            Annotation::Strikethrough => 3,
            Annotation::Underline => 4,
            Annotation::Color(_) => 5,
        }
    }

    /// What the annotation puts before the text.
    pub fn open_text(&self, alternate: bool) -> (r: String)
        ensures
            r@ == self.opening(alternate),
    {
        match self {
            Annotation::Bold => String::from_str(if alternate {
                "__"
            } else {
                "**"
            }),
            Annotation::Italic => String::from_str(if alternate {
                "_"
            } else {
                "*"
            }),
            Annotation::Strikethrough => String::from_str("<del>"),
            Annotation::Underline => String::from_str("<u>"),
            Annotation::Code => String::from_str("`"),
            Annotation::Color(c) => match c {
                AnnoColor::Default => String::new(),
                _ => {
                    let mut s = String::from_str("<font ");
                    s.append(c.md());
                    s.append(">");
                    s
                },
            },
        }
    }

    /// What the annotation puts behind the text.
    pub fn close_text(&self, alternate: bool) -> (r: &'static str)
        ensures
            r@ == self.closing(alternate),
    {
        match self {
            Annotation::Bold => if alternate {
                "__"
            } else {
                "**"
            },
            Annotation::Italic => if alternate {
                "_"
            } else {
                "*"
            },
            Annotation::Strikethrough => "</del>",
            Annotation::Underline => "</u>",
            Annotation::Code => "`",
            Annotation::Color(c) => match c {
                AnnoColor::Default => {
                    proof {
                        reveal_strlit("");
                    }
                    assert(""@ =~= Seq::<char>::empty());
                    ""
                },
                _ => "</font>",
            },
        }
    }
}

/// The annotations of `s` that stand at place `r` of the canonical order,
/// in the order in which `s` holds them.
pub open spec fn of_rank(s: Seq<Annotation>, r: int) -> Seq<Annotation>
    decreases s.len(),
{
    if s.len() == 0 {
        Seq::empty()
    } else if s.last().rank() == r {
        of_rank(s.drop_last(), r).push(s.last())
    } else {
        of_rank(s.drop_last(), r)
    }
}

/// The annotations of `s` whose place in the canonical order is below `r`,
/// place by place.
pub open spec fn ranks_below(s: Seq<Annotation>, r: int) -> Seq<Annotation>
    decreases r,
{
    if r <= 0 {
        Seq::empty()
    } else {
        ranks_below(s, r - 1) + of_rank(s, r - 1)
    }
}

/// `s` in canonical order: inline code first, then bold, italic,
/// strikethrough, underline and colour; annotations of one place keep the
/// order they had.
pub open spec fn canonical(s: Seq<Annotation>) -> Seq<Annotation> {
    ranks_below(s, 6)
}

impl Annotation {
    /// Puts a list of annotations into canonical order.
    pub fn sort(list: &mut Vec<Annotation>)
        ensures
            final(list)@ == canonical(old(list)@),
    {
        let mut out: Vec<Annotation> = Vec::new();
        let mut r: usize = 0;
        while r < 6
            invariant
                r <= 6,
                out@ == ranks_below(list@, r as int),
            decreases 6 - r,
        {
            let ghost before = out@;
            let mut i: usize = 0;
            while i < list.len()
                invariant
                    i <= list.len(),
                    out@ == before + of_rank(list@.take(i as int), r as int),
                decreases list.len() - i,
            {
                assert(list@.take(i + 1).drop_last() =~= list@.take(i as int));
                if list[i].get_serial_num() == r {
                    out.push(list[i]);
                }
                i = i + 1;
            }
            assert(list@.take(list.len() as int) =~= list@);
            r = r + 1;
        }
        *list = out;
    }
}

/// Whether no two annotations of `s` stand at the same place of the
/// canonical order: `s` holds each style, and a colour, at most once.
pub open spec fn one_of_each(s: Seq<Annotation>) -> bool {
    forall|i: int, j: int| 0 <= i < j < s.len() ==> (#[trigger] s[i]).rank() != (#[trigger] s[j]).rank()
}

/// Every annotation of `of_rank(s, r)` is one of `s` and stands at place
/// `r`.
pub proof fn lemma_of_rank_members(s: Seq<Annotation>, r: int)
    ensures
        forall|i: int|
            0 <= i < of_rank(s, r).len() ==> (#[trigger] of_rank(s, r)[i]).rank() == r && s.contains(
                of_rank(s, r)[i],
            ),
        of_rank(s, r).len() <= s.len(),
    decreases s.len(),
{
    if s.len() > 0 {
        let rest = s.drop_last();
        lemma_of_rank_members(rest, r);
        assert forall|i: int| 0 <= i < of_rank(s, r).len() implies (#[trigger] of_rank(
            s,
            r,
        )[i]).rank() == r && s.contains(of_rank(s, r)[i]) by {
            if i < of_rank(rest, r).len() {
                let x = of_rank(rest, r)[i];
                assert(rest.contains(x));
                let k = choose|k: int| 0 <= k < rest.len() && rest[k] == x;
                assert(s[k] == x);
            } else {
                assert(s[s.len() - 1] == s.last());
            }
        }
    }
}

/// Where `s` holds each style at most once: an annotation of `s` is alone
/// at its place, and a place at which `s` has nothing is empty.
pub proof fn lemma_of_rank_single(s: Seq<Annotation>, r: int)
    requires
        one_of_each(s),
    ensures
        forall|x: Annotation| s.contains(x) && x.rank() == r ==> of_rank(s, r) == seq![x],
        (forall|i: int| 0 <= i < s.len() ==> (#[trigger] s[i]).rank() != r) ==> of_rank(s, r)
            == Seq::<Annotation>::empty(),
    decreases s.len(),
{
    if s.len() > 0 {
        let rest = s.drop_last();
        assert(one_of_each(rest)) by {
            assert forall|i: int, j: int| 0 <= i < j < rest.len() implies (#[trigger] rest[i]).rank()
                != (#[trigger] rest[j]).rank() by {
                assert(s[i].rank() != s[j].rank());
            }
        }
        lemma_of_rank_single(rest, r);
        let last = s.last();
        if last.rank() == r {
            assert forall|i: int| 0 <= i < rest.len() implies (#[trigger] rest[i]).rank() != r by {
                assert(s[i].rank() != s[s.len() - 1].rank());
            }
            assert(of_rank(rest, r) == Seq::<Annotation>::empty());
            assert(Seq::<Annotation>::empty().push(last) =~= seq![last]);
            assert forall|x: Annotation| s.contains(x) && x.rank() == r implies of_rank(s, r)
                == seq![x] by {
                let k = choose|k: int| 0 <= k < s.len() && s[k] == x;
                if k < s.len() - 1 {
                    assert(s[k].rank() != s[s.len() - 1].rank());
                }
            }
        } else {
            assert forall|x: Annotation| s.contains(x) && x.rank() == r implies of_rank(s, r)
                == seq![x] by {
                let k = choose|k: int| 0 <= k < s.len() && s[k] == x;
                assert(k < s.len() - 1);
                assert(rest[k] == x);
                assert(rest.contains(x));
            }
            if forall|i: int| 0 <= i < s.len() ==> (#[trigger] s[i]).rank() != r {
                assert forall|i: int| 0 <= i < rest.len() implies (#[trigger] rest[i]).rank()
                    != r by {
                    assert(s[i].rank() != r);
                }
            }
        }
    }
}

/// The canonical order does not depend on the order in which the
/// annotations were found: two lists that hold the same annotations, each
/// style at most once, have the same canonical order.
pub proof fn lemma_canonical_of_same_members(a: Seq<Annotation>, b: Seq<Annotation>)
    requires
        one_of_each(a),
        one_of_each(b),
        forall|x: Annotation| a.contains(x) <==> b.contains(x),
    ensures
        canonical(a) == canonical(b),
{
    assert forall|r: int| of_rank(a, r) == of_rank(b, r) by {
        lemma_of_rank_single(a, r);
        lemma_of_rank_single(b, r);
        if exists|i: int| 0 <= i < a.len() && (#[trigger] a[i]).rank() == r {
            let i = choose|i: int| 0 <= i < a.len() && (#[trigger] a[i]).rank() == r;
            assert(a.contains(a[i]));
            assert(b.contains(a[i]));
        } else {
            assert forall|j: int| 0 <= j < b.len() implies (#[trigger] b[j]).rank() != r by {
                if b[j].rank() == r {
                    assert(b.contains(b[j]));
                    assert(a.contains(b[j]));
                    let k = choose|k: int| 0 <= k < a.len() && a[k] == b[j];
                    assert(a[k].rank() == r);
                }
            }
        }
    }
    reveal_with_fuel(ranks_below, 7);
}

/// The canonical order is in order: an annotation never stands behind one
/// of a later place.
pub proof fn lemma_canonical_sorted(s: Seq<Annotation>)
    ensures
        forall|i: int, j: int|
            0 <= i < j < canonical(s).len() ==> (#[trigger] canonical(s)[i]).rank() <= (
            #[trigger] canonical(s)[j]).rank(),
{
    lemma_ranks_below_sorted(s, 6);
}

/// Every annotation of `ranks_below(s, r)` stands at a place below `r`,
/// and none behind one of a later place.
pub proof fn lemma_ranks_below_sorted(s: Seq<Annotation>, r: int)
    ensures
        forall|i: int| 0 <= i < ranks_below(s, r).len() ==> (#[trigger] ranks_below(s, r)[i]).rank() < r,
        forall|i: int, j: int|
            0 <= i < j < ranks_below(s, r).len() ==> (#[trigger] ranks_below(s, r)[i]).rank() <= (
            #[trigger] ranks_below(s, r)[j]).rank(),
    decreases r,
{
    if r > 0 {
        lemma_ranks_below_sorted(s, r - 1);
        lemma_of_rank_members(s, r - 1);
        let low = ranks_below(s, r - 1);
        let top = of_rank(s, r - 1);
        let all = ranks_below(s, r);
        assert forall|i: int| 0 <= i < all.len() implies (#[trigger] all[i]).rank() < r by {
            if i < low.len() {
                assert(all[i] == low[i]);
            } else {
                assert(all[i] == top[i - low.len()]);
            }
        }
        assert forall|i: int, j: int| 0 <= i < j < all.len() implies (#[trigger] all[i]).rank() <= (
        #[trigger] all[j]).rank() by {
            if j < low.len() {
                assert(all[i] == low[i] && all[j] == low[j]);
            } else if i < low.len() {
                assert(all[i] == low[i] && all[j] == top[j - low.len()]);
            } else {
                assert(all[i] == top[i - low.len()] && all[j] == top[j - low.len()]);
            }
        }
    }
}

/// Of annotations that hold each style at most once, those of one place
/// are one or none.
pub proof fn lemma_of_rank_short(s: Seq<Annotation>, r: int)
    requires
        one_of_each(s),
    ensures
        of_rank(s, r).len() <= 1,
{
    lemma_of_rank_single(s, r);
    if exists|i: int| 0 <= i < s.len() && (#[trigger] s[i]).rank() == r {
        let i = choose|i: int| 0 <= i < s.len() && (#[trigger] s[i]).rank() == r;
        assert(s.contains(s[i]));
    }
}

/// The canonical order of annotations that hold each style at most once
/// holds each style at most once.
pub proof fn lemma_canonical_keeps_one_of_each(s: Seq<Annotation>)
    requires
        one_of_each(s),
    ensures
        one_of_each(canonical(s)),
{
    lemma_ranks_below_one_of_each(s, 6);
}

/// As `lemma_canonical_keeps_one_of_each`, for the places below `r`.
pub proof fn lemma_ranks_below_one_of_each(s: Seq<Annotation>, r: int)
    requires
        one_of_each(s),
    ensures
        one_of_each(ranks_below(s, r)),
    decreases r,
{
    if r > 0 {
        lemma_ranks_below_one_of_each(s, r - 1);
        lemma_ranks_below_sorted(s, r - 1);
        lemma_of_rank_members(s, r - 1);
        lemma_of_rank_short(s, r - 1);
        let low = ranks_below(s, r - 1);
        let top = of_rank(s, r - 1);
        let all = ranks_below(s, r);
        assert forall|i: int, j: int| 0 <= i < j < all.len() implies (#[trigger] all[i]).rank() != (
        #[trigger] all[j]).rank() by {
            if j < low.len() {
                assert(all[i] == low[i] && all[j] == low[j]);
            } else {
                assert(i < low.len());
                assert(all[i] == low[i] && all[j] == top[j - low.len()]);
            }
        }
    }
}

} // verus!
