//! What start events open (`Tag`), converted one for one to the library's
//! `MdTag` and back.
use vstd::prelude::*;

use pulldown_cmark::Tag;
use pulldown_cmark::Tag::{
    BlockQuote, CodeBlock, FootnoteDefinition, Heading, Image, Link, List, MetadataBlock, Table,
};

use crate::md_ends::{plain_tag_pulldown, tag_end_model};
use crate::md_events::{
    aligns_model, aligns_pulldown, code_kind_model, code_kind_pulldown, heading_model,
    heading_pulldown, image_pulldown, link_model, link_pulldown, meta_model, meta_pulldown,
    quote_model, quote_pulldown, plain_end, MdTag, MdTagV,
};

verus! {

/// Every tag that carries something by its own variant; any other by the
/// end that closes it (`Tag::to_end`).
#[verifier::external_body]
pub(crate) fn tag_model(t: Tag<'static>) -> MdTag {
    match t {
        Heading { level, id, classes, attrs } => heading_model(level, id, classes, attrs),
        Link { link_type, dest_url, title, id } => MdTag::Link(link_model(link_type, dest_url, title, id)),
        Image { link_type, dest_url, title, id } => MdTag::Image(link_model(link_type, dest_url, title, id)),
        BlockQuote(k) => MdTag::BlockQuote(k.map(quote_model)),
        CodeBlock(k) => MdTag::CodeBlock(code_kind_model(k)),
        List(n) => MdTag::List(n),
        FootnoteDefinition(s) => MdTag::FootnoteDefinition(s.into_string()),
        Table(a) => MdTag::Table(aligns_model(a)),
        MetadataBlock(k) => MdTag::MetadataBlock(meta_model(k)),
        other => MdTag::Plain(tag_end_model(other.to_end())),
    }
}

#[verifier::external_body]
pub(crate) fn tag_pulldown(t: MdTag) -> Tag<'static>
    requires
        t@ matches MdTagV::Plain(e) ==> plain_end(e),
{
    match t {
        MdTag::Heading(level, id, classes, attrs) => heading_pulldown(level, id, classes, attrs),
        MdTag::Link(l) => link_pulldown(l),
        MdTag::Image(l) => image_pulldown(l),
        MdTag::BlockQuote(k) => BlockQuote(k.map(quote_pulldown)),
        MdTag::CodeBlock(k) => CodeBlock(code_kind_pulldown(k)),
        MdTag::List(n) => List(n),
        MdTag::FootnoteDefinition(s) => FootnoteDefinition(s.into()),
        MdTag::Table(a) => Table(aligns_pulldown(a)),
        MdTag::MetadataBlock(k) => MetadataBlock(meta_pulldown(k)),
        MdTag::Plain(e) => plain_tag_pulldown(e),
    }
}

} // verus!
