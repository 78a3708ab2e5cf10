//! What end events close (`TagEnd`), converted one for one to the
//! library's `MdTagEnd` and back.
use vstd::prelude::*;

use pulldown_cmark::{Tag, TagEnd};
use pulldown_cmark::TagEnd::{
    BlockQuote, CodeBlock, DefinitionList, DefinitionListDefinition, DefinitionListTitle,
    Emphasis, FootnoteDefinition, Heading, HtmlBlock, Image, Item, Link, List, MetadataBlock,
    Paragraph, Strikethrough, Strong, Table, TableCell, TableHead, TableRow,
};

use crate::md_events::{
    level_model, level_pulldown, meta_model, meta_pulldown, plain_end, quote_model, quote_pulldown,
    MdTagEnd,
};

verus! {

#[verifier::external_body]
pub(crate) fn tag_end_model(t: TagEnd) -> MdTagEnd {
    match t {
        Heading(l) => MdTagEnd::Heading(level_model(l)), BlockQuote(k) => MdTagEnd::BlockQuote(k.map(quote_model)),
        List(o) => MdTagEnd::List(o), MetadataBlock(k) => MdTagEnd::MetadataBlock(meta_model(k)),
        Paragraph => MdTagEnd::Paragraph, CodeBlock => MdTagEnd::CodeBlock, HtmlBlock => MdTagEnd::HtmlBlock,
        Item => MdTagEnd::Item, FootnoteDefinition => MdTagEnd::FootnoteDefinition, Table => MdTagEnd::Table,
        DefinitionList => MdTagEnd::DefinitionList, DefinitionListTitle => MdTagEnd::DefinitionListTitle,
        DefinitionListDefinition => MdTagEnd::DefinitionListDefinition, TableHead => MdTagEnd::TableHead,
        TableRow => MdTagEnd::TableRow, TableCell => MdTagEnd::TableCell, Emphasis => MdTagEnd::Emphasis,
        Strong => MdTagEnd::Strong, Strikethrough => MdTagEnd::Strikethrough, Link => MdTagEnd::Link,
        Image => MdTagEnd::Image,
    }
}

#[verifier::external_body]
pub(crate) fn tag_end_pulldown(t: MdTagEnd) -> TagEnd {
    match t {
        MdTagEnd::Heading(l) => Heading(level_pulldown(l)), MdTagEnd::BlockQuote(k) => BlockQuote(k.map(quote_pulldown)),
        MdTagEnd::List(o) => List(o), MdTagEnd::MetadataBlock(k) => MetadataBlock(meta_pulldown(k)),
        MdTagEnd::Paragraph => Paragraph, MdTagEnd::CodeBlock => CodeBlock, MdTagEnd::HtmlBlock => HtmlBlock,
        MdTagEnd::Item => Item, MdTagEnd::FootnoteDefinition => FootnoteDefinition, MdTagEnd::Table => Table,
        MdTagEnd::DefinitionList => DefinitionList, MdTagEnd::DefinitionListTitle => DefinitionListTitle,
        MdTagEnd::DefinitionListDefinition => DefinitionListDefinition, MdTagEnd::TableHead => TableHead,
        MdTagEnd::TableRow => TableRow, MdTagEnd::TableCell => TableCell, MdTagEnd::Emphasis => Emphasis,
        MdTagEnd::Strong => Strong, MdTagEnd::Strikethrough => Strikethrough, MdTagEnd::Link => Link,
        MdTagEnd::Image => Image,
    }
}

/// The tag that carries nothing and that this end closes (the inverse of
/// `Tag::to_end` on such tags).
#[verifier::external_body]
pub(crate) fn plain_tag_pulldown(e: MdTagEnd) -> Tag<'static>
    requires
        plain_end(e),
{
    match e {
        MdTagEnd::Paragraph => Tag::Paragraph, MdTagEnd::HtmlBlock => Tag::HtmlBlock, MdTagEnd::Item => Tag::Item,
        MdTagEnd::DefinitionList => Tag::DefinitionList, MdTagEnd::DefinitionListTitle => Tag::DefinitionListTitle,
        MdTagEnd::DefinitionListDefinition => Tag::DefinitionListDefinition, MdTagEnd::TableHead => Tag::TableHead,
        MdTagEnd::TableRow => Tag::TableRow, MdTagEnd::TableCell => Tag::TableCell, MdTagEnd::Emphasis => Tag::Emphasis,
        MdTagEnd::Strong => Tag::Strong, MdTagEnd::Strikethrough => Tag::Strikethrough,
        // Excluded by `requires`: the tags of these ends carry something.
        _ => Tag::Paragraph,
    }
}

} // verus!
