//! The events `pulldown-cmark` parses Markdown into, held as the library's
//! own values so that the rendering logic can read and change them: every
//! variant and field of `Event`, `Tag` and `TagEnd` has its counterpart
//! here, and the conversions each way are one for one. Parsing and writing
//! HTML stay `pulldown-cmark`'s work.
use vstd::prelude::*;

use pulldown_cmark::Event::{
    Code, DisplayMath, End, FootnoteReference, HardBreak, Html, InlineHtml, InlineMath, Rule,
    SoftBreak, Start, TaskListMarker, Text,
};
use pulldown_cmark::{
    Alignment, BlockQuoteKind, CodeBlockKind, CowStr, Event, HeadingLevel, LinkType,
    MetadataBlockKind, Tag, TagEnd,
};

use crate::md_ends::{plain_tag_pulldown, tag_end_model, tag_end_pulldown};
use crate::md_tags::{tag_model, tag_pulldown};

verus! {

#[verifier::external_type_specification]
#[verifier::external_body]
pub struct ExMdEvent<'a>(Event<'a>);

#[verifier::external_type_specification]
#[verifier::external_body]
pub struct ExMdTag<'a>(Tag<'a>);

#[verifier::external_type_specification]
#[verifier::external_body]
pub struct ExMdTagEnd(TagEnd);

#[verifier::external_type_specification]
#[verifier::external_body]
pub struct ExHeadingLevel(HeadingLevel);

#[verifier::external_type_specification]
#[verifier::external_body]
pub struct ExLinkType(LinkType);

#[verifier::external_type_specification]
#[verifier::external_body]
pub struct ExAlignment(Alignment);

#[verifier::external_type_specification]
#[verifier::external_body]
pub struct ExBlockQuoteKind(BlockQuoteKind);

#[verifier::external_type_specification]
#[verifier::external_body]
pub struct ExMetadataBlockKind(MetadataBlockKind);

#[verifier::external_type_specification]
#[verifier::external_body]
pub struct ExCodeBlockKind<'a>(CodeBlockKind<'a>);

#[verifier::external_type_specification]
#[verifier::external_body]
pub struct ExCowStr<'a>(CowStr<'a>);

// ---------------------------------------------------------------------------
// The events as plain values
// ---------------------------------------------------------------------------

/// A heading's level.
#[derive(Debug, Clone, Copy, PartialEq, Eq, Structural)]
pub enum MdLevel {
    H1,
    H2,
    H3,
    H4,
    H5,
    H6,
}

/// How a link was written.
#[derive(Debug, Clone, Copy, PartialEq, Eq, Structural)]
pub enum MdLinkKind {
    Inline,
    Reference,
    ReferenceUnknown,
    Collapsed,
    CollapsedUnknown,
    Shortcut,
    ShortcutUnknown,
    Autolink,
    Email,
}

/// A table column's alignment.
#[derive(Debug, Clone, Copy, PartialEq, Eq, Structural)]
pub enum MdAlign {
    Unaligned,
    Left,
    Center,
    Right,
}

/// The kind of a GitHub-style alert quote.
#[derive(Debug, Clone, Copy, PartialEq, Eq, Structural)]
pub enum MdQuote {
    Note,
    Tip,
    Important,
    Warning,
    Caution,
}

/// How a metadata block is fenced: `---` or `+++`.
#[derive(Debug, Clone, Copy, PartialEq, Eq, Structural)]
pub enum MdMeta {
    Yaml,
    Pluses,
}

/// An indented code block, or a fenced one with its info string.
#[derive(Debug)]
pub enum MdCodeKind {
    Indented,
    Fenced(String),
}

/// A link or an image: how it was written, its destination, title and
/// reference id.
#[derive(Debug)]
pub struct MdLink {
    pub kind: MdLinkKind,
    pub dest: String,
    pub title: String,
    pub id: String,
}

/// What a start event opens (`Tag`). A tag that carries nothing (a
/// paragraph, an item, emphasis, a table row, ...) is held by the end that
/// closes it.
#[derive(Debug)]
pub enum MdTag {
    /// Level, id, classes and other attributes.
    Heading(MdLevel, Option<String>, Vec<String>, Vec<(String, Option<String>)>),
    BlockQuote(Option<MdQuote>),
    CodeBlock(MdCodeKind),
    List(Option<u64>),
    FootnoteDefinition(String),
    Table(Vec<MdAlign>),
    Link(MdLink),
    Image(MdLink),
    MetadataBlock(MdMeta),
    Plain(MdTagEnd),
}

/// What an end event closes (`TagEnd`).
#[derive(Debug, Clone, Copy, PartialEq, Eq, Structural)]
pub enum MdTagEnd {
    Paragraph,
    Heading(MdLevel),
    BlockQuote(Option<MdQuote>),
    CodeBlock,
    HtmlBlock,
    List(bool),
    Item,
    FootnoteDefinition,
    DefinitionList,
    DefinitionListTitle,
    DefinitionListDefinition,
    Table,
    TableHead,
    TableRow,
    TableCell,
    Emphasis,
    Strong,
    Strikethrough,
    Link,
    Image,
    MetadataBlock(MdMeta),
}

/// A parser event (`Event`).
#[derive(Debug)]
pub enum MdEvent {
    Start(MdTag),
    End(MdTagEnd),
    Text(String),
    Code(String),
    InlineMath(String),
    DisplayMath(String),
    Html(String),
    InlineHtml(String),
    FootnoteReference(String),
    SoftBreak,
    HardBreak,
    Rule,
    TaskListMarker(bool),
}

// ---------------------------------------------------------------------------
// Their views
// ---------------------------------------------------------------------------

pub struct MdLinkV {
    pub kind: MdLinkKind,
    pub dest: Seq<char>,
    pub title: Seq<char>,
    pub id: Seq<char>,
}

pub enum MdTagV {
    Heading(MdLevel, Option<Seq<char>>, Seq<Seq<char>>, Seq<(Seq<char>, Option<Seq<char>>)>),
    BlockQuote(Option<MdQuote>),
    /// None for an indented block, else the info string.
    CodeBlock(Option<Seq<char>>),
    List(Option<u64>),
    FootnoteDefinition(Seq<char>),
    Table(Seq<MdAlign>),
    Link(MdLinkV),
    Image(MdLinkV),
    MetadataBlock(MdMeta),
    Plain(MdTagEnd),
}

pub enum MdEventV {
    Start(MdTagV),
    End(MdTagEnd),
    Text(Seq<char>),
    Code(Seq<char>),
    InlineMath(Seq<char>),
    DisplayMath(Seq<char>),
    Html(Seq<char>),
    InlineHtml(Seq<char>),
    FootnoteReference(Seq<char>),
    SoftBreak,
    HardBreak,
    Rule,
    TaskListMarker(bool),
}

pub open spec fn opt_view(o: Option<String>) -> Option<Seq<char>> {
    match o {
        Some(s) => Some(s@),
        None => None,
    }
}

impl View for MdLink {
    type V = MdLinkV;

    open spec fn view(&self) -> MdLinkV {
        MdLinkV { kind: self.kind, dest: self.dest@, title: self.title@, id: self.id@ }
    }
}

impl View for MdTag {
    type V = MdTagV;

    open spec fn view(&self) -> MdTagV {
        match self {
            MdTag::Heading(l, id, classes, attrs) => MdTagV::Heading(
                *l,
                opt_view(*id),
                classes@.map_values(|c: String| c@),
                attrs@.map_values(|a: (String, Option<String>)| (a.0@, opt_view(a.1))),
            ),
            MdTag::BlockQuote(k) => MdTagV::BlockQuote(*k),
            MdTag::CodeBlock(k) => MdTagV::CodeBlock(
                match k {
                    MdCodeKind::Indented => None,
                    MdCodeKind::Fenced(s) => Some(s@),
                },
            ),
            MdTag::List(n) => MdTagV::List(*n),
            MdTag::FootnoteDefinition(s) => MdTagV::FootnoteDefinition(s@),
            MdTag::Table(a) => MdTagV::Table(a@),
            MdTag::Link(l) => MdTagV::Link(l@),
            MdTag::Image(l) => MdTagV::Image(l@),
            MdTag::MetadataBlock(k) => MdTagV::MetadataBlock(*k),
            MdTag::Plain(e) => MdTagV::Plain(*e),
        }
    }
}

impl View for MdEvent {
    type V = MdEventV;

    open spec fn view(&self) -> MdEventV {
        match self {
            MdEvent::Start(t) => MdEventV::Start(t@),
            MdEvent::End(t) => MdEventV::End(*t),
            MdEvent::Text(s) => MdEventV::Text(s@),
            MdEvent::Code(s) => MdEventV::Code(s@),
            MdEvent::InlineMath(s) => MdEventV::InlineMath(s@),
            MdEvent::DisplayMath(s) => MdEventV::DisplayMath(s@),
            MdEvent::Html(s) => MdEventV::Html(s@),
            MdEvent::InlineHtml(s) => MdEventV::InlineHtml(s@),
            MdEvent::FootnoteReference(s) => MdEventV::FootnoteReference(s@),
            MdEvent::SoftBreak => MdEventV::SoftBreak,
            MdEvent::HardBreak => MdEventV::HardBreak,
            MdEvent::Rule => MdEventV::Rule,
            MdEvent::TaskListMarker(b) => MdEventV::TaskListMarker(*b),
        }
    }
}

pub open spec fn events_view(v: Seq<MdEvent>) -> Seq<MdEventV> {
    v.map_values(|e: MdEvent| e@)
}

/// The ends of the tags that carry nothing.
pub open spec fn plain_end(e: MdTagEnd) -> bool {
    match e {
        MdTagEnd::Paragraph | MdTagEnd::HtmlBlock | MdTagEnd::Item | MdTagEnd::DefinitionList
        | MdTagEnd::DefinitionListTitle | MdTagEnd::DefinitionListDefinition | MdTagEnd::TableHead
        | MdTagEnd::TableRow | MdTagEnd::TableCell | MdTagEnd::Emphasis | MdTagEnd::Strong
        | MdTagEnd::Strikethrough => true,
        _ => false,
    }
}

/// An event as the parser makes them: a start held by its end is that of
/// a tag that carries nothing.
pub open spec fn event_wf(e: MdEventV) -> bool {
    match e {
        MdEventV::Start(MdTagV::Plain(end)) => plain_end(end),
        _ => true,
    }
}

pub open spec fn events_wf(v: Seq<MdEventV>) -> bool {
    forall|i: int| 0 <= i < v.len() ==> event_wf(#[trigger] v[i])
}

// ---------------------------------------------------------------------------
// Parsing and writing HTML
// ---------------------------------------------------------------------------

/// The events `Parser::new_ext` parses out of `md` with the given
/// extensions on (tables, strikethrough, task lists, footnotes), in order.
pub uninterp spec fn md_events(
    md: Seq<char>,
    tables: bool,
    strikethrough: bool,
    tasklists: bool,
    footnotes: bool,
) -> Seq<MdEvent>;

/// The HTML `html::push_html` writes for these events.
pub uninterp spec fn pushed_html(events: Seq<MdEventV>) -> Seq<char>;

/// `Parser::new_ext` with the given extensions on: the events of `md`.
/// Only a tag that carries nothing is held by its end (`tag_model` takes
/// every other tag first).
#[verifier::external_body]
pub(crate) fn md_parse(md: &str, tables: bool, strikethrough: bool, tasklists: bool, footnotes: bool) -> (r: Vec<
    MdEvent,
>)
    ensures
        r@ == md_events(md@, tables, strikethrough, tasklists, footnotes),
        events_wf(events_view(r@)),
{
    let mut o = pulldown_cmark::Options::empty();
    o.set(pulldown_cmark::Options::ENABLE_TABLES, tables);
    o.set(pulldown_cmark::Options::ENABLE_STRIKETHROUGH, strikethrough);
    o.set(pulldown_cmark::Options::ENABLE_TASKLISTS, tasklists);
    o.set(pulldown_cmark::Options::ENABLE_FOOTNOTES, footnotes);
    pulldown_cmark::Parser::new_ext(md, o).map(|e| event_model(e.into_static())).collect()
}

/// `html::push_html` on the events: the HTML written for them.
#[verifier::external_body]
pub(crate) fn md_push_html(events: Vec<MdEvent>) -> (r: String)
    requires
        events_wf(events_view(events@)),
    ensures
        r@ == pushed_html(events_view(events@)),
{
    let mut out = String::new();
    pulldown_cmark::html::push_html(&mut out, events.into_iter().map(event_pulldown));
    out
}

// ---------------------------------------------------------------------------
// From pulldown-cmark's values
// ---------------------------------------------------------------------------

#[verifier::external_body]
pub(crate) fn level_model(l: HeadingLevel) -> MdLevel {
    match l {
        HeadingLevel::H1 => MdLevel::H1,
        HeadingLevel::H2 => MdLevel::H2,
        HeadingLevel::H3 => MdLevel::H3,
        HeadingLevel::H4 => MdLevel::H4,
        HeadingLevel::H5 => MdLevel::H5,
        HeadingLevel::H6 => MdLevel::H6,
    }
}

#[verifier::external_body]
pub(crate) fn link_kind_model(k: LinkType) -> MdLinkKind {
    match k {
        LinkType::Inline => MdLinkKind::Inline,
        LinkType::Reference => MdLinkKind::Reference,
        LinkType::ReferenceUnknown => MdLinkKind::ReferenceUnknown,
        LinkType::Collapsed => MdLinkKind::Collapsed,
        LinkType::CollapsedUnknown => MdLinkKind::CollapsedUnknown,
        LinkType::Shortcut => MdLinkKind::Shortcut,
        LinkType::ShortcutUnknown => MdLinkKind::ShortcutUnknown,
        LinkType::Autolink => MdLinkKind::Autolink,
        LinkType::Email => MdLinkKind::Email,
    }
}

#[verifier::external_body]
pub(crate) fn align_model(a: Alignment) -> MdAlign {
    match a {
        Alignment::None => MdAlign::Unaligned,
        Alignment::Left => MdAlign::Left,
        Alignment::Center => MdAlign::Center,
        Alignment::Right => MdAlign::Right,
    }
}

#[verifier::external_body]
pub(crate) fn aligns_model(a: Vec<Alignment>) -> Vec<MdAlign> {
    a.into_iter().map(align_model).collect()
}

#[verifier::external_body]
pub(crate) fn quote_model(k: BlockQuoteKind) -> MdQuote {
    match k {
        BlockQuoteKind::Note => MdQuote::Note,
        BlockQuoteKind::Tip => MdQuote::Tip,
        BlockQuoteKind::Important => MdQuote::Important,
        BlockQuoteKind::Warning => MdQuote::Warning,
        BlockQuoteKind::Caution => MdQuote::Caution,
    }
}

#[verifier::external_body]
pub(crate) fn meta_model(k: MetadataBlockKind) -> MdMeta {
    match k {
        MetadataBlockKind::YamlStyle => MdMeta::Yaml,
        MetadataBlockKind::PlusesStyle => MdMeta::Pluses,
    }
}

#[verifier::external_body]
pub(crate) fn code_kind_model(k: CodeBlockKind<'static>) -> MdCodeKind {
    match k {
        CodeBlockKind::Indented => MdCodeKind::Indented,
        CodeBlockKind::Fenced(s) => MdCodeKind::Fenced(s.into_string()),
    }
}

#[verifier::external_body]
pub(crate) fn link_model(kind: LinkType, dest: CowStr<'static>, title: CowStr<'static>, id: CowStr<'static>) -> MdLink {
    MdLink {
        kind: link_kind_model(kind),
        dest: dest.into_string(),
        title: title.into_string(),
        id: id.into_string(),
    }
}

#[verifier::external_body]
pub(crate) fn heading_model(
    level: HeadingLevel,
    id: Option<CowStr<'static>>,
    classes: Vec<CowStr<'static>>,
    attrs: Vec<(CowStr<'static>, Option<CowStr<'static>>)>,
) -> MdTag {
    MdTag::Heading(
        level_model(level),
        id.map(CowStr::into_string),
        classes.into_iter().map(CowStr::into_string).collect(),
        attrs.into_iter().map(|(k, v)| (k.into_string(), v.map(CowStr::into_string))).collect(),
    )
}

#[verifier::external_body]
fn event_model(e: Event<'static>) -> MdEvent {
    match e {
        Start(t) => MdEvent::Start(tag_model(t)), End(t) => MdEvent::End(tag_end_model(t)),
        Text(s) => MdEvent::Text(s.into_string()), Code(s) => MdEvent::Code(s.into_string()),
        InlineMath(s) => MdEvent::InlineMath(s.into_string()),
        DisplayMath(s) => MdEvent::DisplayMath(s.into_string()),
        Html(s) => MdEvent::Html(s.into_string()), InlineHtml(s) => MdEvent::InlineHtml(s.into_string()),
        FootnoteReference(s) => MdEvent::FootnoteReference(s.into_string()),
        SoftBreak => MdEvent::SoftBreak, HardBreak => MdEvent::HardBreak, Rule => MdEvent::Rule,
        TaskListMarker(b) => MdEvent::TaskListMarker(b),
    }
}

// ---------------------------------------------------------------------------
// Back to pulldown-cmark's values
// ---------------------------------------------------------------------------

#[verifier::external_body]
pub(crate) fn level_pulldown(l: MdLevel) -> HeadingLevel {
    match l {
        MdLevel::H1 => HeadingLevel::H1,
        MdLevel::H2 => HeadingLevel::H2,
        MdLevel::H3 => HeadingLevel::H3,
        MdLevel::H4 => HeadingLevel::H4,
        MdLevel::H5 => HeadingLevel::H5,
        MdLevel::H6 => HeadingLevel::H6,
    }
}

#[verifier::external_body]
pub(crate) fn link_kind_pulldown(k: MdLinkKind) -> LinkType {
    match k {
        MdLinkKind::Inline => LinkType::Inline,
        MdLinkKind::Reference => LinkType::Reference,
        MdLinkKind::ReferenceUnknown => LinkType::ReferenceUnknown,
        MdLinkKind::Collapsed => LinkType::Collapsed,
        MdLinkKind::CollapsedUnknown => LinkType::CollapsedUnknown,
        MdLinkKind::Shortcut => LinkType::Shortcut,
        MdLinkKind::ShortcutUnknown => LinkType::ShortcutUnknown,
        MdLinkKind::Autolink => LinkType::Autolink,
        MdLinkKind::Email => LinkType::Email,
    }
}

#[verifier::external_body]
pub(crate) fn align_pulldown(a: MdAlign) -> Alignment {
    match a {
        MdAlign::Unaligned => Alignment::None,
        MdAlign::Left => Alignment::Left,
        MdAlign::Center => Alignment::Center,
        MdAlign::Right => Alignment::Right,
    }
}

#[verifier::external_body]
pub(crate) fn aligns_pulldown(a: Vec<MdAlign>) -> Vec<Alignment> {
    a.into_iter().map(align_pulldown).collect()
}

#[verifier::external_body]
pub(crate) fn quote_pulldown(k: MdQuote) -> BlockQuoteKind {
    match k {
        MdQuote::Note => BlockQuoteKind::Note,
        MdQuote::Tip => BlockQuoteKind::Tip,
        MdQuote::Important => BlockQuoteKind::Important,
        MdQuote::Warning => BlockQuoteKind::Warning,
        MdQuote::Caution => BlockQuoteKind::Caution,
    }
}

#[verifier::external_body]
pub(crate) fn meta_pulldown(k: MdMeta) -> MetadataBlockKind {
    match k {
        MdMeta::Yaml => MetadataBlockKind::YamlStyle,
        MdMeta::Pluses => MetadataBlockKind::PlusesStyle,
    }
}

#[verifier::external_body]
pub(crate) fn code_kind_pulldown(k: MdCodeKind) -> CodeBlockKind<'static> {
    match k {
        MdCodeKind::Indented => CodeBlockKind::Indented,
        MdCodeKind::Fenced(s) => CodeBlockKind::Fenced(s.into()),
    }
}

#[verifier::external_body]
pub(crate) fn link_pulldown(l: MdLink) -> Tag<'static> {
    Tag::Link {
        link_type: link_kind_pulldown(l.kind),
        dest_url: l.dest.into(),
        title: l.title.into(),
        id: l.id.into(),
    }
}

#[verifier::external_body]
pub(crate) fn image_pulldown(l: MdLink) -> Tag<'static> {
    Tag::Image {
        link_type: link_kind_pulldown(l.kind),
        dest_url: l.dest.into(),
        title: l.title.into(),
        id: l.id.into(),
    }
}

#[verifier::external_body]
pub(crate) fn heading_pulldown(
    level: MdLevel,
    id: Option<String>,
    classes: Vec<String>,
    attrs: Vec<(String, Option<String>)>,
) -> Tag<'static> {
    Tag::Heading {
        level: level_pulldown(level),
        id: id.map(CowStr::from),
        classes: classes.into_iter().map(CowStr::from).collect(),
        attrs: attrs.into_iter().map(|(k, v)| (CowStr::from(k), v.map(CowStr::from))).collect(),
    }
}

#[verifier::external_body]
fn event_pulldown(e: MdEvent) -> Event<'static>
    requires
        event_wf(e@),
{
    match e {
        MdEvent::Start(t) => Start(tag_pulldown(t)), MdEvent::End(t) => End(tag_end_pulldown(t)),
        MdEvent::Text(s) => Text(s.into()), MdEvent::Code(s) => Code(s.into()),
        MdEvent::InlineMath(s) => InlineMath(s.into()), MdEvent::DisplayMath(s) => DisplayMath(s.into()),
        MdEvent::Html(s) => Html(s.into()), MdEvent::InlineHtml(s) => InlineHtml(s.into()),
        MdEvent::FootnoteReference(s) => FootnoteReference(s.into()),
        MdEvent::SoftBreak => SoftBreak, MdEvent::HardBreak => HardBreak, MdEvent::Rule => Rule,
        MdEvent::TaskListMarker(b) => TaskListMarker(b),
    }
}

} // verus!
