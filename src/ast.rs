use vstd::prelude::*;

verus! {

/// Level of a heading, from the number (1 to 5) of leading `=` characters.
#[derive(Debug, PartialEq, Eq, Structural, Clone, Copy)]
pub enum HeadingLevel {
    Title,
    Level1,
    Level2,
    Level3,
    Level4,
}

/// Depth of a list item, as a closed set of levels.
#[derive(Debug, PartialEq, Eq, Structural, Clone, Copy)]
pub enum ListLevel {
    Level1,
    Level2,
    Level3,
    Level4,
    Level5,
}

/// Kind of an admonition footnote.
#[derive(Debug, PartialEq, Eq, Structural, Clone, Copy)]
pub enum FootnoteType {
    Note,
    Tip,
    Important,
    Warning,
    Caution,
}

/// Hosting service of an embedded video.
#[derive(Debug, PartialEq, Eq, Structural, Clone, Copy)]
pub enum VideoProvider {
    Youtube,
}

/// Header cell of a table.
#[derive(Debug, PartialEq, Eq)]
pub struct TableColumn {
    pub name: String,
}

/// Row of a table.
#[derive(Debug, PartialEq, Eq)]
pub struct TableRow {
    pub children: Box<Block>,
}

/// A structural unit of a document.
#[derive(Debug, PartialEq, Eq)]
#[allow(inconsistent_fields)]
pub enum Block {
    Paragraph { children: Vec<Inline> },
    Heading { level: HeadingLevel, children: Vec<Inline>, id: Option<String> },
    HorizontalRule,
    PageBreak,
    UnorderedList { items: Vec<ListItem> },
    OrderedList { items: Vec<ListItem> },
    Label { children: Vec<Inline>, key: Vec<Inline> },
    QandA { question: Vec<Inline>, answer: Vec<Inline> },
    CodeBlock { children: Vec<Inline>, title: Option<String>, file_type: Option<String> },
    GenericBlock { children: Vec<Inline>, title: Option<Vec<Inline>> },
    Table { columns: Vec<TableColumn>, rows: Vec<TableRow>, title: Option<String> },
    BlankSeparator,
}

/// A run-level unit of content inside a block.
#[derive(Debug, PartialEq, Eq)]
#[allow(inconsistent_fields)]
pub enum Inline {
    Text(String),
    SoftBreak,
    HardBreak,
    Literal { child: Box<Inline> },
    Footnote { kind: FootnoteType, child: Box<Inline> },
    Lead { child: Box<Inline> },
    Bold { child: Box<Inline> },
    Italic { child: Box<Inline> },
    Monospace { child: Box<Inline> },
    Marker { child: Box<Inline> },
    Underline { child: Box<Inline> },
    Strikethrough { child: Box<Inline> },
    Big { child: Box<Inline> },
    Link { href: String, child: Box<Inline> },
    Mail { to: String, child: Box<Inline> },
    Image { src: String, caption: Option<String> },
    InlineImage { src: String, caption: Option<String> },
    Video { id: String, provider: VideoProvider },
    InlineCode { child: Box<Inline> },
    Macro { attributes: Attributes, kind: String, id: String },
}

/// Bracketed metadata: an ordered list of bare tokens, or key/value pairs
/// with distinct keys, kept in the order in which the keys first appear.
#[derive(Debug, PartialEq, Eq)]
pub enum Attributes {
    Positional(Vec<String>),
    Named(Vec<(String, String)>),
}

/// An entry of an ordered or unordered list.
#[derive(Debug, PartialEq, Eq)]
pub enum ListItem {
    Normal { children: Vec<Inline>, level: u32 },
    Check { children: Vec<Inline>, level: u32, checked: bool },
}

/// Why a production did not match.
#[derive(Debug, PartialEq, Eq, Structural, Clone, Copy)]
pub enum ParseError {
    /// No alternative matches at this character position.
    StructuralMismatch { position: usize },
    /// The input ended before the construct was complete.
    UnexpectedEndOfInput,
}

// ---------------------------------------------------------------------------
// Mathematical model of the tree: strings as `Seq<char>`, vectors as `Seq`.

pub enum InlineV {
    Text(Seq<char>),
    SoftBreak,
    HardBreak,
    Literal(Box<InlineV>),
    Footnote(FootnoteType, Box<InlineV>),
    Lead(Box<InlineV>),
    Bold(Box<InlineV>),
    Italic(Box<InlineV>),
    Monospace(Box<InlineV>),
    Marker(Box<InlineV>),
    Underline(Box<InlineV>),
    Strikethrough(Box<InlineV>),
    Big(Box<InlineV>),
    Link(Seq<char>, Box<InlineV>),
    Mail(Seq<char>, Box<InlineV>),
    Image(Seq<char>, Option<Seq<char>>),
    InlineImage(Seq<char>, Option<Seq<char>>),
    Video(Seq<char>, VideoProvider),
    InlineCode(Box<InlineV>),
    Macro(AttributesV, Seq<char>, Seq<char>),
}

pub enum AttributesV {
    Positional(Seq<Seq<char>>),
    Named(Seq<(Seq<char>, Seq<char>)>),
}

pub enum ListItemV {
    Normal(Seq<InlineV>, nat),
    Check(Seq<InlineV>, nat, bool),
}

pub enum BlockV {
    Paragraph(Seq<InlineV>),
    Heading(HeadingLevel, Seq<InlineV>, Option<Seq<char>>),
    HorizontalRule,
    PageBreak,
    UnorderedList(Seq<ListItemV>),
    OrderedList(Seq<ListItemV>),
    Label(Seq<InlineV>, Seq<InlineV>),
    QandA(Seq<InlineV>, Seq<InlineV>),
    CodeBlock(Seq<InlineV>, Option<Seq<char>>, Option<Seq<char>>),
    GenericBlock(Seq<InlineV>, Option<Seq<InlineV>>),
    Table(Seq<Seq<char>>, Seq<BlockV>, Option<Seq<char>>),
    BlankSeparator,
}

pub open spec fn opt_str(o: Option<String>) -> Option<Seq<char>> {
    match o {
        Some(s) => Some(s@),
        None => None,
    }
}

pub open spec fn strs_view(v: Seq<String>) -> Seq<Seq<char>> {
    v.map_values(|s: String| s@)
}

pub open spec fn pairs_view(v: Seq<(String, String)>) -> Seq<(Seq<char>, Seq<char>)> {
    v.map_values(|p: (String, String)| (p.0@, p.1@))
}

impl View for Attributes {
    type V = AttributesV;

    open spec fn view(&self) -> AttributesV {
        match self {
            Attributes::Positional(v) => AttributesV::Positional(strs_view(v@)),
            Attributes::Named(v) => AttributesV::Named(pairs_view(v@)),
        }
    }
}

pub open spec fn inline_view(x: Inline) -> InlineV
    decreases x,
{
    match x {
        Inline::Text(t) => InlineV::Text(t@),
        Inline::SoftBreak => InlineV::SoftBreak,
        Inline::HardBreak => InlineV::HardBreak,
        Inline::Literal { child } => InlineV::Literal(Box::new(inline_view(*child))),
        Inline::Footnote { kind, child } => InlineV::Footnote(kind, Box::new(inline_view(*child))),
        Inline::Lead { child } => InlineV::Lead(Box::new(inline_view(*child))),
        Inline::Bold { child } => InlineV::Bold(Box::new(inline_view(*child))),
        Inline::Italic { child } => InlineV::Italic(Box::new(inline_view(*child))),
        Inline::Monospace { child } => InlineV::Monospace(Box::new(inline_view(*child))),
        Inline::Marker { child } => InlineV::Marker(Box::new(inline_view(*child))),
        Inline::Underline { child } => InlineV::Underline(Box::new(inline_view(*child))),
        Inline::Strikethrough { child } => InlineV::Strikethrough(Box::new(inline_view(*child))),
        Inline::Big { child } => InlineV::Big(Box::new(inline_view(*child))),
        Inline::Link { href, child } => InlineV::Link(href@, Box::new(inline_view(*child))),
        Inline::Mail { to, child } => InlineV::Mail(to@, Box::new(inline_view(*child))),
        Inline::Image { src, caption } => InlineV::Image(src@, opt_str(caption)),
        Inline::InlineImage { src, caption } => InlineV::InlineImage(src@, opt_str(caption)),
        Inline::Video { id, provider } => InlineV::Video(id@, provider),
        Inline::InlineCode { child } => InlineV::InlineCode(Box::new(inline_view(*child))),
        Inline::Macro { attributes, kind, id } => InlineV::Macro(attributes@, kind@, id@),
    }
}

impl View for Inline {
    type V = InlineV;

    open spec fn view(&self) -> InlineV {
        inline_view(*self)
    }
}

pub open spec fn inlines_view(v: Seq<Inline>) -> Seq<InlineV> {
    v.map_values(|x: Inline| x@)
}

impl View for ListItem {
    type V = ListItemV;

    open spec fn view(&self) -> ListItemV {
        match self {
            ListItem::Normal { children, level } => ListItemV::Normal(
                inlines_view(children@),
                *level as nat,
            ),
            ListItem::Check { children, level, checked } => ListItemV::Check(
                inlines_view(children@),
                *level as nat,
                *checked,
            ),
        }
    }
}

pub open spec fn items_view(v: Seq<ListItem>) -> Seq<ListItemV> {
    v.map_values(|x: ListItem| x@)
}

pub open spec fn block_view(b: Block) -> BlockV
    decreases b, 1nat,
{
    match b {
        Block::Paragraph { children } => BlockV::Paragraph(inlines_view(children@)),
        Block::Heading { level, children, id } => BlockV::Heading(
            level,
            inlines_view(children@),
            opt_str(id),
        ),
        Block::HorizontalRule => BlockV::HorizontalRule,
        Block::PageBreak => BlockV::PageBreak,
        Block::UnorderedList { items } => BlockV::UnorderedList(items_view(items@)),
        Block::OrderedList { items } => BlockV::OrderedList(items_view(items@)),
        Block::Label { children, key } => BlockV::Label(
            inlines_view(children@),
            inlines_view(key@),
        ),
        Block::QandA { question, answer } => BlockV::QandA(
            inlines_view(question@),
            inlines_view(answer@),
        ),
        Block::CodeBlock { children, title, file_type } => BlockV::CodeBlock(
            inlines_view(children@),
            opt_str(title),
            opt_str(file_type),
        ),
        Block::GenericBlock { children, title } => BlockV::GenericBlock(
            inlines_view(children@),
            match title {
                Some(t) => Some(inlines_view(t@)),
                None => None,
            },
        ),
        Block::Table { columns, rows, title } => BlockV::Table(
            columns@.map_values(|c: TableColumn| c.name@),
            rows_view(rows@),
            opt_str(title),
        ),
        Block::BlankSeparator => BlockV::BlankSeparator,
    }
}

pub open spec fn rows_view(rows: Seq<TableRow>) -> Seq<BlockV>
    decreases rows, 0nat,
{
    if rows.len() == 0 {
        Seq::empty()
    } else {
        seq![block_view(*rows[0].children)] + rows_view(rows.drop_first())
    }
}

impl View for Block {
    type V = BlockV;

    open spec fn view(&self) -> BlockV {
        block_view(*self)
    }
}

pub open spec fn blocks_view(v: Seq<Block>) -> Seq<BlockV> {
    v.map_values(|x: Block| x@)
}

} // verus!
