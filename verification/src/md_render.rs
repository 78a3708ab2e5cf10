//! Markdown to HTML: parsing and rendering are `pulldown-cmark`'s work,
//! and cleaning the HTML is `ammonia`'s. The library decides the rest: the
//! anchors of second- and third-level headings and the table of contents
//! they make, the wrapper that lets a table scroll, and which tags,
//! attributes and links survive the cleaning.
use vstd::prelude::*;

use crate::markdown::{
    anchor_choice, content_relative, is_lower_hex, names_of, slug_core, slugify, unique_id,
    TocItem,
};
use crate::text::{chars_of, push_char, push_str, squash, squash_vec, string_from_chars};
use crate::md_events::{
    event_wf, events_view, events_wf, md_events, md_parse, md_push_html, pushed_html, MdEvent,
    MdEventV, MdLevel, MdTag, MdTagEnd, MdTagV,
};

verus! {

#[verifier::external_type_specification]
#[verifier::external_body]
pub struct ExHtmlCleaner<'a>(ammonia::Builder<'a>);

// ---------------------------------------------------------------------------
// pulldown-cmark
// ---------------------------------------------------------------------------

/// An event as the library reads it.
#[derive(Debug, Clone)]
pub enum MdKind {
    /// The start of a heading, with its level.
    HeadingStart(u8),
    /// The end of a heading, with its level.
    HeadingEnd(u8),
    TableStart,
    TableEnd,
    /// Text or inline code.
    Text(String),
    /// A soft or hard line break.
    Break,
    Other,
}

/// A heading level as its number.
pub open spec fn level_num(l: MdLevel) -> u8 {
    match l {
        MdLevel::H1 => 1,
        MdLevel::H2 => 2,
        MdLevel::H3 => 3,
        MdLevel::H4 => 4,
        MdLevel::H5 => 5,
        MdLevel::H6 => 6,
    }
}

fn level_number(l: MdLevel) -> (r: u8)
    ensures
        r == level_num(l),
{
    match l {
        MdLevel::H1 => 1,
        MdLevel::H2 => 2,
        MdLevel::H3 => 3,
        MdLevel::H4 => 4,
        MdLevel::H5 => 5,
        MdLevel::H6 => 6,
    }
}

/// What the library reads of an event: a heading's level, a table's
/// bounds, the text of a text or code node, a line break.
pub open spec fn kind_of(e: MdEvent) -> MdKind {
    match e {
        MdEvent::Start(MdTag::Heading(l, _, _, _)) => MdKind::HeadingStart(level_num(l)),
        MdEvent::End(MdTagEnd::Heading(l)) => MdKind::HeadingEnd(level_num(l)),
        MdEvent::Start(MdTag::Table(_)) => MdKind::TableStart,
        MdEvent::End(MdTagEnd::Table) => MdKind::TableEnd,
        MdEvent::Text(t) => MdKind::Text(t),
        MdEvent::Code(t) => MdKind::Text(t),
        MdEvent::SoftBreak => MdKind::Break,
        MdEvent::HardBreak => MdKind::Break,
        _ => MdKind::Other,
    }
}

pub open spec fn kinds_of(events: Seq<MdEvent>) -> Seq<MdKind> {
    events.map_values(|e: MdEvent| kind_of(e))
}

fn event_kind(e: &MdEvent) -> (r: MdKind)
    ensures
        r == kind_of(*e),
{
    match e {
        MdEvent::Start(MdTag::Heading(l, _, _, _)) => MdKind::HeadingStart(level_number(*l)),
        MdEvent::End(MdTagEnd::Heading(l)) => MdKind::HeadingEnd(level_number(*l)),
        MdEvent::Start(MdTag::Table(_)) => MdKind::TableStart,
        MdEvent::End(MdTagEnd::Table) => MdKind::TableEnd,
        MdEvent::Text(t) => MdKind::Text(t.clone()),
        MdEvent::Code(t) => MdKind::Text(t.clone()),
        MdEvent::SoftBreak => MdKind::Break,
        MdEvent::HardBreak => MdKind::Break,
        _ => MdKind::Other,
    }
}

fn event_kinds(events: &Vec<MdEvent>) -> (r: Vec<MdKind>)
    ensures
        r@ == kinds_of(events@),
{
    let mut r: Vec<MdKind> = Vec::new();
    let mut i: usize = 0;
    while i < events.len()
        invariant
            0 <= i <= events.len(),
            r@ == kinds_of(events@.take(i as int)),
        decreases events.len() - i,
    {
        r.push(event_kind(&events[i]));
        i = i + 1;
        assert(kinds_of(events@.take(i as int)) =~= kinds_of(events@.take(i - 1)).push(
            kind_of(events@[i - 1]),
        ));
    }
    assert(events@.take(events@.len() as int) =~= events@);
    r
}

// ---------------------------------------------------------------------------
// ammonia
// ---------------------------------------------------------------------------

/// The tags a cleaner keeps (`Builder::tags`).
pub uninterp spec fn cleaner_tags(b: ammonia::Builder<'static>) -> Set<Seq<char>>;

/// The attributes a cleaner keeps on a tag, as (tag, attribute) pairs
/// (`Builder::tag_attributes`).
pub uninterp spec fn cleaner_tag_attributes(b: ammonia::Builder<'static>) -> Set<(Seq<char>, Seq<char>)>;

/// The attribute values a cleaner keeps, as (tag, attribute, value)
/// triples (`Builder::tag_attribute_values`).
pub uninterp spec fn cleaner_attribute_values(b: ammonia::Builder<'static>) -> Set<
    (Seq<char>, Seq<char>, Seq<char>),
>;

/// The attributes a cleaner sets on a tag, whatever the input held
/// (`Builder::set_tag_attribute_values`).
pub uninterp spec fn cleaner_set_attributes(b: ammonia::Builder<'static>) -> Map<
    (Seq<char>, Seq<char>),
    Seq<char>,
>;

/// The classes a cleaner keeps on a tag, as (tag, class) pairs
/// (`Builder::allowed_classes`).
pub uninterp spec fn cleaner_classes(b: ammonia::Builder<'static>) -> Set<(Seq<char>, Seq<char>)>;

/// The style properties a cleaner keeps: every one where no filter is set,
/// else those of the filter (`Builder::style_properties`).
pub uninterp spec fn cleaner_style_properties(b: ammonia::Builder<'static>) -> Set<Seq<char>>;

/// The `rel` a cleaner puts on links: none, or the one value set
/// (`Builder::link_rel`).
pub uninterp spec fn cleaner_link_rels(b: ammonia::Builder<'static>) -> Set<Seq<char>>;

/// The tags that have an entry among a cleaner's tag attributes (the keys
/// of `Builder::tag_attributes`).
pub uninterp spec fn cleaner_attribute_tags(b: ammonia::Builder<'static>) -> Set<Seq<char>>;

/// The tags that have an entry among a cleaner's allowed classes (the keys
/// of `Builder::allowed_classes`).
pub uninterp spec fn cleaner_class_tags(b: ammonia::Builder<'static>) -> Set<Seq<char>>;

/// The attributes a cleaner keeps on every tag (`Builder::generic_attributes`).
pub uninterp spec fn cleaner_generic_attributes(b: ammonia::Builder<'static>) -> Set<Seq<char>>;

/// The tags a cleaner drops with their content (`Builder::clean_content_tags`).
pub uninterp spec fn cleaner_clean_content_tags(b: ammonia::Builder<'static>) -> Set<Seq<char>>;

/// The text of the document `Builder::clean` makes of `html`.
pub uninterp spec fn cleaned_by(b: ammonia::Builder<'static>, html: Seq<char>) -> Seq<char>;

/// A cleaner whose lists agree, as `Builder::clean` asserts before it
/// cleans (it panics otherwise): no `rel` kept on links that get one, no
/// `class` attribute where classes are listed, no dropped-with-content tag
/// among the kept tags or tag attributes, and no style filter where `style`
/// tags are kept.
pub open spec fn cleaner_consistent(b: ammonia::Builder<'static>) -> bool {
    &&& cleaner_link_rels(b).len() > 0 ==> !cleaner_generic_attributes(b).contains("rel"@)
        && !cleaner_tag_attributes(b).contains(("a"@, "rel"@))
    &&& cleaner_class_tags(b).len() > 0 ==> !cleaner_generic_attributes(b).contains("class"@)
    &&& forall|t: Seq<char>| #[trigger] cleaner_class_tags(b).contains(t) ==> !cleaner_tag_attributes(b).contains((t, "class"@))
    &&& forall|t: Seq<char>|
        #[trigger] cleaner_clean_content_tags(b).contains(t) ==> !cleaner_tags(b).contains(t)
            && !cleaner_attribute_tags(b).contains(t)
    &&& cleaner_tags(b).contains("style"@) ==> cleaner_style_properties(b) == Set::<Seq<char>>::full()
}

/// `b` keeps what `a` keeps, but for the list numbered `which` (in the
/// order above) and the handling of relative links.
pub open spec fn same_cleaner_but(
    a: ammonia::Builder<'static>,
    b: ammonia::Builder<'static>,
    which: int,
) -> bool {
    &&& (which != 0 ==> cleaner_tags(b) == cleaner_tags(a))
    &&& (which != 1 ==> cleaner_tag_attributes(b) == cleaner_tag_attributes(a))
    &&& (which != 2 ==> cleaner_attribute_values(b) == cleaner_attribute_values(a))
    &&& (which != 3 ==> cleaner_set_attributes(b) == cleaner_set_attributes(a))
    &&& (which != 4 ==> cleaner_classes(b) == cleaner_classes(a))
    &&& (which != 5 ==> cleaner_style_properties(b) == cleaner_style_properties(a))
    &&& (which != 6 ==> cleaner_link_rels(b) == cleaner_link_rels(a))
    &&& (which != 1 ==> cleaner_attribute_tags(b) == cleaner_attribute_tags(a))
    &&& (which != 4 ==> cleaner_class_tags(b) == cleaner_class_tags(a))
    &&& cleaner_generic_attributes(b) == cleaner_generic_attributes(a)
    &&& cleaner_clean_content_tags(b) == cleaner_clean_content_tags(a)
}

/// `Builder::default()`: ammonia's default lists, of which this is stated:
/// no filter on style properties; `rel="noopener noreferrer"` on links;
/// `lang` and `title` kept on every tag; `script` and `style` dropped with
/// their content and neither kept nor given attributes; no classes; no
/// `class` attribute and no `rel` on `a`.
#[verifier::external_body]
fn cleaner_default() -> (b: ammonia::Builder<'static>)
    ensures
        cleaner_generic_attributes(b) == set!["lang"@, "title"@],
        cleaner_clean_content_tags(b) == set!["script"@, "style"@],
        cleaner_class_tags(b) == Set::<Seq<char>>::empty(),
        !cleaner_tags(b).contains("script"@),
        !cleaner_tags(b).contains("style"@),
        !cleaner_attribute_tags(b).contains("script"@),
        !cleaner_attribute_tags(b).contains("style"@),
        !cleaner_tag_attributes(b).contains(("a"@, "rel"@)),
        forall|t: Seq<char>| !(#[trigger] cleaner_tag_attributes(b).contains((t, "class"@))),
        cleaner_style_properties(b) == Set::<Seq<char>>::full(),
        cleaner_link_rels(b) == set!["noopener noreferrer"@],
{
    ammonia::Builder::default()
}

/// `Builder::link_rel(Some(rel))`: links get `rel`.
#[verifier::external_body]
fn cleaner_link_rel(b: &mut ammonia::Builder<'static>, rel: &'static str)
    ensures
        cleaner_link_rels(*final(b)) == set![rel@],
        same_cleaner_but(*old(b), *final(b), 6),
{
    b.link_rel(Some(rel));
}

/// `Builder::add_tags` with one tag.
#[verifier::external_body]
fn cleaner_add_tag(b: &mut ammonia::Builder<'static>, tag: &'static str)
    ensures
        cleaner_tags(*final(b)) == cleaner_tags(*old(b)).insert(tag@),
        same_cleaner_but(*old(b), *final(b), 0),
{
    b.add_tags([tag]);
}

/// `Builder::add_tag_attributes` with one attribute.
#[verifier::external_body]
fn cleaner_add_attribute(b: &mut ammonia::Builder<'static>, tag: &'static str, attr: &'static str)
    ensures
        cleaner_tag_attributes(*final(b)) == cleaner_tag_attributes(*old(b)).insert((tag@, attr@)),
        cleaner_attribute_tags(*final(b)) == cleaner_attribute_tags(*old(b)).insert(tag@),
        same_cleaner_but(*old(b), *final(b), 1),
{
    b.add_tag_attributes(tag, [attr]);
}

/// `Builder::add_tag_attribute_values` with one value.
#[verifier::external_body]
fn cleaner_add_attribute_value(
    b: &mut ammonia::Builder<'static>,
    tag: &'static str,
    attr: &'static str,
    value: &'static str,
)
    ensures
        cleaner_attribute_values(*final(b)) == cleaner_attribute_values(*old(b)).insert(
            (tag@, attr@, value@),
        ),
        same_cleaner_but(*old(b), *final(b), 2),
{
    b.add_tag_attribute_values(tag, attr, [value]);
}

/// `Builder::set_tag_attribute_value`.
#[verifier::external_body]
fn cleaner_set_attribute(
    b: &mut ammonia::Builder<'static>,
    tag: &'static str,
    attr: &'static str,
    value: &'static str,
)
    ensures
        cleaner_set_attributes(*final(b)) == cleaner_set_attributes(*old(b)).insert(
            (tag@, attr@),
            value@,
        ),
        same_cleaner_but(*old(b), *final(b), 3),
{
    b.set_tag_attribute_value(tag, attr, value);
}

/// `Builder::add_allowed_classes` with one class.
#[verifier::external_body]
fn cleaner_add_class(b: &mut ammonia::Builder<'static>, tag: &'static str, class: &'static str)
    ensures
        cleaner_classes(*final(b)) == cleaner_classes(*old(b)).insert((tag@, class@)),
        cleaner_class_tags(*final(b)) == cleaner_class_tags(*old(b)).insert(tag@),
        same_cleaner_but(*old(b), *final(b), 4),
{
    b.add_allowed_classes(tag, [class]);
}

/// `Builder::filter_style_properties` with one property: only it is kept.
#[verifier::external_body]
fn cleaner_style_property(b: &mut ammonia::Builder<'static>, property: &'static str)
    ensures
        cleaner_style_properties(*final(b)) == set![property@],
        same_cleaner_but(*old(b), *final(b), 5),
{
    b.filter_style_properties(std::collections::HashSet::from([property]));
}

/// `Builder::url_relative` with `content_url` deciding each relative link;
/// the lists are left as they were.
#[verifier::external_body]
fn cleaner_relative_links(b: &mut ammonia::Builder<'static>)
    ensures
        same_cleaner_but(*old(b), *final(b), -1),
{
    b.url_relative(ammonia::UrlRelative::Custom(Box::new(content_url)));
}

/// `Builder::clean`, as text; it is called only with a consistent cleaner
/// (`cleaner_consistent`), as it panics otherwise.
#[verifier::external_body]
fn cleaner_clean(b: &ammonia::Builder<'static>, html: &str) -> (r: String)
    requires
        cleaner_consistent(*b),
    ensures
        r@ == cleaned_by(*b, html@),
{
    b.clean(html).to_string()
}

/// The relative links content keeps (`content_relative`), in the form the
/// cleaner takes.
pub fn content_url(url: &str) -> (r: Option<std::borrow::Cow<'_, str>>)
    ensures
        match r {
            Some(c) => content_relative(url@) == Some(c@),
            None => content_relative(url@) is None,
        },
{
    match crate::markdown::allow_content_relative(url) {
        Some(s) => Some(std::borrow::Cow::Owned(s)),
        None => None,
    }
}

// ---------------------------------------------------------------------------
// Heading anchors and the table of contents
// ---------------------------------------------------------------------------

/// The level of a heading that gets an anchor (the second and third), where
/// `k` starts one.
pub open spec fn anchor_level(k: MdKind) -> Option<u8> {
    match k {
        MdKind::HeadingStart(l) => if l == 2 || l == 3 {
            Some(l)
        } else {
            None
        },
        _ => None,
    }
}

pub open spec fn closes_anchor(k: MdKind) -> bool {
    match k {
        MdKind::HeadingEnd(l) => l == 2 || l == 3,
        _ => false,
    }
}

/// The first end of a second- or third-level heading from `j` on, or the
/// end of the events.
pub open spec fn heading_end_from(ks: Seq<MdKind>, j: int) -> int
    decreases ks.len() - j,
{
    if j >= ks.len() {
        ks.len() as int
    } else if closes_anchor(ks[j]) {
        j
    } else {
        heading_end_from(ks, j + 1)
    }
}

pub proof fn lemma_heading_end_bounds(ks: Seq<MdKind>, j: int)
    ensures
        j <= ks.len() ==> j <= heading_end_from(ks, j) <= ks.len(),
    decreases ks.len() - j,
{
    if j < ks.len() && !closes_anchor(ks[j]) {
        lemma_heading_end_bounds(ks, j + 1);
    }
}

/// The headings that get anchors, from `i` on: where each starts, where it
/// ends, and its level. The scan goes on after each heading's end.
pub open spec fn heading_scan(ks: Seq<MdKind>, i: int) -> Seq<(int, int, u8)>
    decreases ks.len() - i,
{
    if i < 0 || i >= ks.len() {
        Seq::empty()
    } else {
        match anchor_level(ks[i]) {
            Some(l) => {
                let j = heading_end_from(ks, i + 1);
                if i < j < ks.len() {
                    seq![(i, j, l)] + heading_scan(ks, j + 1)
                } else {
                    seq![(i, j, l)]
                }
            },
            None => heading_scan(ks, i + 1),
        }
    }
}

/// The text of events: text and code as they are, a line break as a space.
pub open spec fn raw_text(ks: Seq<MdKind>) -> Seq<char>
    decreases ks.len(),
{
    if ks.len() == 0 {
        Seq::empty()
    } else {
        raw_text(ks.drop_last()) + match ks.last() {
            MdKind::Text(t) => t@,
            MdKind::Break => seq![' '],
            _ => Seq::empty(),
        }
    }
}

/// The plain text of a heading: the text between its start and its end,
/// white space squeezed.
pub open spec fn heading_text(ks: Seq<MdKind>, h: (int, int, u8)) -> Seq<char> {
    squash(raw_text(ks.subrange(h.0 + 1, h.1)))
}

/// The text that parser events carry: the contents of text and of inline
/// code spans as they stand, one space for each soft or hard line break,
/// nothing for the rest.
pub open spec fn events_text(evs: Seq<MdEvent>) -> Seq<char>
    decreases evs.len(),
{
    if evs.len() == 0 {
        Seq::empty()
    } else {
        events_text(evs.drop_last()) + match evs.last() {
            MdEvent::Text(t) => t@,
            MdEvent::Code(t) => t@,
            MdEvent::SoftBreak => seq![' '],
            MdEvent::HardBreak => seq![' '],
            _ => Seq::empty(),
        }
    }
}

/// What the library reads as text from a run of events is all their text:
/// the contents of every text event and every inline code span, in order,
/// with a space for each line break; no code span is dropped.
pub proof fn law_event_text_kept(evs: Seq<MdEvent>)
    ensures
        raw_text(kinds_of(evs)) == events_text(evs),
    decreases evs.len(),
{
    if evs.len() > 0 {
        law_event_text_kept(evs.drop_last());
        assert(kinds_of(evs).drop_last() =~= kinds_of(evs.drop_last()));
        assert(kinds_of(evs).last() == kind_of(evs.last()));
    }
}

/// A heading's text is the white-space-squeezed text of the events between
/// its start and its end, inline code spans included.
pub proof fn law_heading_text_of_events(evs: Seq<MdEvent>, h: (int, int, u8))
    requires
        0 <= h.0 + 1 <= h.1 <= evs.len(),
    ensures
        heading_text(kinds_of(evs), h) == squash(events_text(evs.subrange(h.0 + 1, h.1))),
{
    assert(kinds_of(evs).subrange(h.0 + 1, h.1) =~= kinds_of(evs.subrange(h.0 + 1, h.1)));
    law_event_text_kept(evs.subrange(h.0 + 1, h.1));
}

/// `s` is what `slugify` may make of `text`.
pub open spec fn slug_result(text: Seq<char>, s: Seq<char>) -> bool {
    if slug_core(text).len() > 0 {
        s == slug_core(text)
    } else {
        s.len() == 13 && s.take(5) == "post-"@ && forall|i: int|
            5 <= i < 13 ==> is_lower_hex(#[trigger] s[i])
    }
}

/// `id` is the anchor a heading with the text `text` gets where `used` are
/// taken: its slug, or the first free alternative to it.
pub open spec fn anchor_for(text: Seq<char>, used: Seq<Seq<char>>, id: Seq<char>) -> bool {
    exists|s: Seq<char>| slug_result(text, s) && anchor_choice(s, used, id)
}

pub open spec fn anchor_ids(a: Seq<(usize, String)>) -> Seq<Seq<char>> {
    a.map_values(|p: (usize, String)| p.1@)
}

/// The table of contents of the first `k` anchored headings: those whose
/// text is not empty, with their level, anchor and text.
pub open spec fn toc_upto(ks: Seq<MdKind>, hs: Seq<(int, int, u8)>, ids: Seq<Seq<char>>, k: nat) -> Seq<
    (u8, Seq<char>, Seq<char>),
>
    decreases k,
{
    if k == 0 {
        Seq::empty()
    } else {
        let prev = toc_upto(ks, hs, ids, (k - 1) as nat);
        let t = heading_text(ks, hs[k - 1]);
        if t.len() > 0 {
            prev.push((hs[k - 1].2, ids[k - 1], t))
        } else {
            prev
        }
    }
}

pub open spec fn toc_models(v: Seq<TocItem>) -> Seq<(u8, Seq<char>, Seq<char>)> {
    v.map_values(|t: TocItem| (t.level, t.id@, t.text@))
}

/// The anchors of the second- and third-level headings of `kinds` (where
/// each heading starts, and its anchor) and the table of contents they
/// make. Each anchor is the heading's slug, made unique among those before.
pub fn heading_anchors(kinds: &Vec<MdKind>) -> (r: (Vec<(usize, String)>, Vec<TocItem>))
    ensures
        r.0@.len() == heading_scan(kinds@, 0).len(),
        forall|k: int|
            0 <= k < r.0@.len() ==> {
                &&& (#[trigger] r.0@[k]).0 == heading_scan(kinds@, 0)[k].0
                &&& anchor_for(
                    heading_text(kinds@, heading_scan(kinds@, 0)[k]),
                    anchor_ids(r.0@.take(k)),
                    r.0@[k].1@,
                )
            },
        toc_models(r.1@) == toc_upto(
            kinds@,
            heading_scan(kinds@, 0),
            anchor_ids(r.0@),
            r.0@.len(),
        ),
        forall|a: int, b: int|
            0 <= a < b < r.0@.len() ==> (#[trigger] r.0@[a]).1@ != (#[trigger] r.0@[b]).1@,
{
    let ghost ks = kinds@;
    let n = kinds.len();
    let mut anchors: Vec<(usize, String)> = Vec::new();
    let mut toc: Vec<TocItem> = Vec::new();
    let mut used: Vec<String> = Vec::new();
    let ghost mut done: Seq<(int, int, u8)> = Seq::empty();
    let mut i: usize = 0;
    while i < n
        invariant
            n == ks.len(),
            ks == kinds@,
            i <= n,
            heading_scan(ks, 0) == done + heading_scan(ks, i as int),
            anchors@.len() == done.len(),
            names_of(used@) == anchor_ids(anchors@),
            forall|k: int|
                0 <= k < anchors@.len() ==> {
                    &&& (#[trigger] anchors@[k]).0 == done[k].0
                    &&& anchor_for(heading_text(ks, done[k]), anchor_ids(anchors@.take(k)), anchors@[k].1@)
                },
            toc_models(toc@) == toc_upto(ks, done, anchor_ids(anchors@), anchors@.len()),
            forall|a: int, b: int|
                0 <= a < b < anchors@.len() ==> (#[trigger] anchors@[a]).1@ != (#[trigger] anchors@[b]).1@,
        decreases n - i,
    {
        let level: u8 = match &kinds[i] {
            MdKind::HeadingStart(l) => *l,
            _ => 0,
        };
        if level == 2 || level == 3 {
            proof {
                assert(anchor_level(ks[i as int]) == Some(level));
                lemma_heading_end_bounds(ks, i + 1);
            }
            let mut j: usize = i + 1;
            let mut raw = crate::text::new_string();
            while j < n && !is_heading_close(&kinds[j])
                invariant
                    n == ks.len(),
                    ks == kinds@,
                    i < j <= n,
                    heading_end_from(ks, i + 1) == heading_end_from(ks, j as int),
                    raw@ == raw_text(ks.subrange(i + 1, j as int)),
                decreases n - j,
            {
                match &kinds[j] {
                    MdKind::Text(t) => push_str(&mut raw, t.as_str()),
                    MdKind::Break => push_char(&mut raw, ' '),
                    _ => {},
                }
                proof {
                    assert(ks.subrange(i + 1, j + 1).drop_last() =~= ks.subrange(i + 1, j as int));
                }
                j = j + 1;
            }
            let ghost h = (i as int, j as int, level);
            proof {
                assert(heading_end_from(ks, j as int) == j as int);
                assert(heading_scan(ks, i as int) == seq![h] + heading_scan(ks, j + 1));
            }
            let text_v = squash_vec(&chars_of(raw.as_str()));
            let text = string_from_chars(&text_v);
            let slug = slugify(text.as_str());
            let ghost before = anchors@;
            let id = unique_id(slug.as_str(), &mut used);
            proof {
                assert(slug_result(text@, slug@));
                assert(anchor_for(text@, anchor_ids(before), id@));
                lemma_anchor_fresh(slug@, anchor_ids(before), id@);
                assert forall|a: int| 0 <= a < before.len() implies before[a].1@ != id@ by {
                    assert(anchor_ids(before)[a] == before[a].1@);
                }
            }
            let ghost toc_before = toc@;
            proof {
                assert(text@ == heading_text(ks, h));
            }
            if text_v.len() > 0 {
                toc.push(TocItem { level, id: crate::text::string_of(id.as_str()), text });
                proof {
                    assert(toc_models(toc@) =~= toc_models(toc_before).push((level, id@, heading_text(ks, h))));
                }
            }
            anchors.push((i, id));
            let ghost done_old = done;
            proof {
                done = done.push(h);
                assert(done.drop_last() =~= done_old);
                assert(anchors@.take(before.len() as int) =~= before);
                assert(anchor_ids(anchors@) =~= anchor_ids(before).push(anchors@[before.len() as int].1@));
                assert forall|k: int| 0 <= k < before.len() implies anchors@.take(k) =~= before.take(k) by {}
                assert(toc_upto(ks, done, anchor_ids(anchors@), anchors@.len()) =~= ({
                    let prev = toc_upto(ks, done, anchor_ids(anchors@), before.len());
                    if heading_text(ks, h).len() > 0 {
                        prev.push((level, anchor_ids(anchors@)[before.len() as int], heading_text(ks, h)))
                    } else {
                        prev
                    }
                }));
                lemma_toc_upto_frame(ks, done.drop_last(), done, anchor_ids(before), anchor_ids(anchors@), before.len());
                assert(done.drop_last() =~= done.take(before.len() as int));
                assert(done + heading_scan(ks, j + 1) =~= done.drop_last() + heading_scan(ks, i as int));
                assert(toc_upto(ks, done.drop_last(), anchor_ids(before), before.len()) == toc_models(toc_before));
                assert(anchor_ids(anchors@)[before.len() as int] == id@);
                assert(done[before.len() as int] == h);
                assert(toc_models(toc@) == toc_upto(ks, done, anchor_ids(anchors@), anchors@.len()));
            }
            if j < n {
                i = j + 1;
            } else {
                i = n;
            }
        } else {
            proof {
                assert(anchor_level(ks[i as int]) is None);
            }
            i = i + 1;
        }
    }
    (anchors, toc)
}

fn is_heading_close(k: &MdKind) -> (r: bool)
    ensures
        r == closes_anchor(*k),
{
    match k {
        MdKind::HeadingEnd(l) => *l == 2 || *l == 3,
        _ => false,
    }
}

proof fn lemma_anchor_fresh(s: Seq<char>, used: Seq<Seq<char>>, id: Seq<char>)
    requires
        anchor_choice(s, used, id),
    ensures
        !used.contains(id),
{
}

proof fn lemma_toc_upto_frame(
    ks: Seq<MdKind>,
    hs1: Seq<(int, int, u8)>,
    hs2: Seq<(int, int, u8)>,
    ids1: Seq<Seq<char>>,
    ids2: Seq<Seq<char>>,
    k: nat,
)
    requires
        k <= hs1.len(),
        k <= hs2.len(),
        k <= ids1.len(),
        k <= ids2.len(),
        forall|m: int| 0 <= m < k ==> hs1[m] == hs2[m] && ids1[m] == ids2[m],
    ensures
        toc_upto(ks, hs1, ids1, k) == toc_upto(ks, hs2, ids2, k),
    decreases k,
{
    if k > 0 {
        lemma_toc_upto_frame(ks, hs1, hs2, ids1, ids2, (k - 1) as nat);
    }
}

pub proof fn lemma_heading_scan_bounds(ks: Seq<MdKind>, i: int)
    ensures
        forall|k: int|
            0 <= k < heading_scan(ks, i).len() ==> 0 <= #[trigger] heading_scan(ks, i)[k].0
                < ks.len(),
    decreases ks.len() - i,
{
    if 0 <= i < ks.len() {
        match anchor_level(ks[i]) {
            Some(l) => {
                let j = heading_end_from(ks, i + 1);
                if i < j < ks.len() {
                    lemma_heading_scan_bounds(ks, j + 1);
                    let rest = heading_scan(ks, j + 1);
                    assert forall|k: int| 0 <= k < heading_scan(ks, i).len() implies 0
                        <= #[trigger] heading_scan(ks, i)[k].0 < ks.len() by {
                        if k > 0 {
                            assert(heading_scan(ks, i)[k] == rest[k - 1]);
                        }
                    }
                } else {
                    assert(heading_scan(ks, i) == seq![(i, j, l)]);
                }
            },
            None => {
                lemma_heading_scan_bounds(ks, i + 1);
                assert(heading_scan(ks, i) == heading_scan(ks, i + 1));
            },
        }
    }
}

// ---------------------------------------------------------------------------
// Tables
// ---------------------------------------------------------------------------

/// Where the table open at depth `depth` before `j` ends, or the end of the
/// events where it does not.
pub open spec fn table_end_from(ks: Seq<MdKind>, j: int, depth: nat) -> int
    decreases ks.len() - j,
{
    if j < 0 || j >= ks.len() {
        ks.len() as int
    } else {
        match ks[j] {
            MdKind::TableStart => table_end_from(ks, j + 1, depth + 1),
            MdKind::TableEnd => if depth <= 1 {
                j
            } else {
                table_end_from(ks, j + 1, (depth - 1) as nat)
            },
            _ => table_end_from(ks, j + 1, depth),
        }
    }
}

/// The tables from `i` on: where each starts and, where it is closed, where
/// it ends. The scan goes on after each closed table's end.
pub open spec fn table_scan(ks: Seq<MdKind>, i: int) -> Seq<(int, Option<int>)>
    decreases ks.len() - i,
{
    if i < 0 || i >= ks.len() {
        Seq::empty()
    } else if ks[i] is TableStart {
        let j = table_end_from(ks, i + 1, 1);
        if i < j < ks.len() {
            seq![(i, Some(j))] + table_scan(ks, j + 1)
        } else {
            seq![(i, None::<int>)] + table_scan(ks, i + 1)
        }
    } else {
        table_scan(ks, i + 1)
    }
}

pub open spec fn wraps_view(v: Seq<(usize, Option<usize>)>) -> Seq<(int, Option<int>)> {
    v.map_values(
        |p: (usize, Option<usize>)|
            (
                p.0 as int,
                match p.1 {
                    Some(e) => Some(e as int),
                    None => None::<int>,
                },
            ),
    )
}

fn find_table_end(kinds: &Vec<MdKind>, from: usize) -> (r: usize)
    requires
        1 <= from <= kinds@.len(),
    ensures
        r == table_end_from(kinds@, from as int, 1),
{
    let n = kinds.len();
    let mut depth: usize = 1;
    let mut j = from;
    while j < n
        invariant
            1 <= from <= j <= n,
            n == kinds@.len(),
            1 <= depth <= j - from + 1,
            table_end_from(kinds@, from as int, 1) == table_end_from(kinds@, j as int, depth as nat),
        decreases n - j,
    {
        match &kinds[j] {
            MdKind::TableStart => {
                depth = depth + 1;
            },
            MdKind::TableEnd => {
                if depth <= 1 {
                    return j;
                }
                depth = depth - 1;
            },
            _ => {},
        }
        j = j + 1;
    }
    n
}

/// The tables of `kinds` that get the scrolling wrapper (`table_scan`):
/// where each starts, and where it ends where it is closed.
pub fn table_wraps(kinds: &Vec<MdKind>) -> (r: Vec<(usize, Option<usize>)>)
    ensures
        wraps_view(r@) == table_scan(kinds@, 0),
{
    let n = kinds.len();
    let mut out: Vec<(usize, Option<usize>)> = Vec::new();
    let mut i: usize = 0;
    while i < n
        invariant
            n == kinds@.len(),
            i <= n,
            table_scan(kinds@, 0) == wraps_view(out@) + table_scan(kinds@, i as int),
        decreases n - i,
    {
        let is_start = match &kinds[i] {
            MdKind::TableStart => true,
            _ => false,
        };
        if is_start {
            let j = find_table_end(kinds, i + 1);
            let ghost before = out@;
            if i < j && j < n {
                out.push((i, Some(j)));
                proof {
                    assert(wraps_view(out@) =~= wraps_view(before).push((i as int, Some(j as int))));
                    assert(table_scan(kinds@, i as int) == seq![(i as int, Some(j as int))]
                        + table_scan(kinds@, j + 1));
                    assert(wraps_view(out@) + table_scan(kinds@, j + 1) =~= wraps_view(before)
                        + table_scan(kinds@, i as int));
                }
                i = j + 1;
            } else {
                out.push((i, None));
                proof {
                    assert(wraps_view(out@) =~= wraps_view(before).push((i as int, None::<int>)));
                    assert(wraps_view(out@) + table_scan(kinds@, i + 1) =~= wraps_view(before)
                        + table_scan(kinds@, i as int));
                }
                i = i + 1;
            }
        } else {
            i = i + 1;
        }
    }
    out
}

pub open spec fn opens_at(plan: Seq<(usize, Option<usize>)>, m: int) -> bool {
    exists|k: int| 0 <= k < plan.len() && #[trigger] plan[k].0 == m
}

pub open spec fn closes_at(plan: Seq<(usize, Option<usize>)>, m: int) -> bool {
    exists|k: int| 0 <= k < plan.len() && #[trigger] plan[k].1 == Some(m as usize)
}

fn plan_opens(plan: &Vec<(usize, Option<usize>)>, m: usize) -> (r: bool)
    ensures
        r == opens_at(plan@, m as int),
{
    let mut k: usize = 0;
    while k < plan.len()
        invariant
            0 <= k <= plan.len(),
            forall|q: int| 0 <= q < k ==> plan@[q].0 != m,
        decreases plan.len() - k,
    {
        if plan[k].0 == m {
            return true;
        }
        k = k + 1;
    }
    false
}

fn plan_closes(plan: &Vec<(usize, Option<usize>)>, m: usize) -> (r: bool)
    ensures
        r == closes_at(plan@, m as int),
{
    let mut k: usize = 0;
    while k < plan.len()
        invariant
            0 <= k <= plan.len(),
            forall|q: int| 0 <= q < k ==> plan@[q].1 != Some(m),
        decreases plan.len() - k,
    {
        if plan[k].1 == Some(m) {
            return true;
        }
        k = k + 1;
    }
    false
}

/// The anchor `a` gives the event at `m`: the first one recorded for it.
pub open spec fn anchor_at(a: Seq<(usize, String)>, m: int) -> Option<Seq<char>>
    decreases a.len(),
{
    if a.len() == 0 {
        None
    } else if a[0].0 == m {
        Some(a[0].1@)
    } else {
        anchor_at(a.drop_first(), m)
    }
}

/// An event with its anchor: the start of a heading takes `id` as its id
/// where there is one; any other event is left as it is.
pub open spec fn with_anchor(e: MdEventV, id: Option<Seq<char>>) -> MdEventV {
    match id {
        Some(i) => match e {
            MdEventV::Start(MdTagV::Heading(l, _, c, at)) => MdEventV::Start(
                MdTagV::Heading(l, Some(i), c, at),
            ),
            _ => e,
        },
        None => e,
    }
}

/// The HTML that opens a table's scrolling wrapper.
pub open spec fn table_open() -> MdEventV {
    MdEventV::Html("<div class=\"md-table\">"@)
}

/// The HTML that closes it.
pub open spec fn table_close() -> MdEventV {
    MdEventV::Html("</div>"@)
}

/// The first `m` events as they are written: each heading start takes its
/// anchor from `a`, and each table of `plan` is wrapped (an opening wrapper
/// before its start, a closing one after its end).
pub open spec fn annotated(
    evs: Seq<MdEventV>,
    a: Seq<(usize, String)>,
    plan: Seq<(usize, Option<usize>)>,
    m: nat,
) -> Seq<MdEventV>
    decreases m,
{
    if m == 0 {
        Seq::empty()
    } else {
        let k = m - 1;
        annotated(evs, a, plan, (m - 1) as nat) + (if opens_at(plan, k) {
            seq![table_open()]
        } else {
            Seq::empty()
        }) + seq![with_anchor(evs[k], anchor_at(a, k))] + (if closes_at(plan, k) {
            seq![table_close()]
        } else {
            Seq::empty()
        })
    }
}

proof fn lemma_annotated_wf(
    evs: Seq<MdEventV>,
    a: Seq<(usize, String)>,
    plan: Seq<(usize, Option<usize>)>,
    m: nat,
)
    requires
        events_wf(evs),
        m <= evs.len(),
    ensures
        events_wf(annotated(evs, a, plan, m)),
    decreases m,
{
    if m > 0 {
        lemma_annotated_wf(evs, a, plan, (m - 1) as nat);
        let k = m - 1;
        assert(event_wf(evs[k]));
        assert(event_wf(with_anchor(evs[k], anchor_at(a, k))));
        let r = annotated(evs, a, plan, m);
        let prev = annotated(evs, a, plan, (m - 1) as nat);
        assert forall|i: int| 0 <= i < r.len() implies event_wf(#[trigger] r[i]) by {
            if i < prev.len() {
                assert(r[i] == prev[i]);
            }
        }
    }
}

fn anchor_index(a: &Vec<(usize, String)>, m: usize) -> (r: Option<usize>)
    ensures
        match r {
            Some(k) => k < a@.len() && anchor_at(a@, m as int) == Some(a@[k as int].1@),
            None => anchor_at(a@, m as int) is None,
        },
{
    let mut k: usize = 0;
    assert(a@.skip(0) =~= a@);
    while k < a.len()
        invariant
            0 <= k <= a@.len(),
            anchor_at(a@, m as int) == anchor_at(a@.skip(k as int), m as int),
        decreases a.len() - k,
    {
        assert(a@.skip(k as int)[0] == a@[k as int]);
        if a[k].0 == m {
            return Some(k);
        }
        assert(a@.skip(k as int).drop_first() =~= a@.skip(k + 1));
        k = k + 1;
    }
    None
}

fn set_anchor(e: MdEvent, id: String) -> (r: MdEvent)
    ensures
        r@ == with_anchor(e@, Some(id@)),
{
    match e {
        MdEvent::Start(MdTag::Heading(l, _, c, at)) => MdEvent::Start(MdTag::Heading(l, Some(id), c, at)),
        other => other,
    }
}

/// The events as they are written (`annotated`): anchors set on the
/// headings `anchors` names, and each table of `plan` wrapped.
pub fn annotate(
    events: Vec<MdEvent>,
    anchors: &Vec<(usize, String)>,
    plan: &Vec<(usize, Option<usize>)>,
) -> (r: Vec<MdEvent>)
    ensures
        events_view(r@) == annotated(events_view(events@), anchors@, plan@, events@.len()),
        events_wf(events_view(events@)) ==> events_wf(events_view(r@)),
{
    let ghost ev = events_view(events@);
    let ghost n0 = events@.len();
    let n = events.len();
    let mut events = events;
    let mut back: Vec<MdEvent> = Vec::new();
    while events.len() > 0
        invariant
            events_view(events@) =~= ev.take(events@.len() as int),
            events@.len() + back@.len() == ev.len(),
            ev.len() == n0,
            forall|k: int| 0 <= k < back@.len() ==> (#[trigger] back@[k])@ == ev[ev.len() - 1 - k],
        decreases events.len(),
    {
        let ghost before = events@;
        let e = events.pop().unwrap();
        assert(before == events@.push(e));
        assert(events_view(events@) =~= events_view(before).drop_last());
        assert(e@ == events_view(before).last());
        back.push(e);
    }
    let mut out: Vec<MdEvent> = Vec::new();
    let mut m: usize = 0;
    while m < n
        invariant
            n == ev.len(),
            m + back@.len() == n,
            forall|k: int| 0 <= k < back@.len() ==> (#[trigger] back@[k])@ == ev[ev.len() - 1 - k],
            events_view(out@) == annotated(ev, anchors@, plan@, m as nat),
        decreases n - m,
    {
        let ghost before = events_view(out@);
        let ghost bk = back@;
        let e = back.pop().unwrap();
        assert(e@ == ev[m as int]) by {
            assert(bk[bk.len() - 1] == e);
        }
        let opens = plan_opens(plan, m);
        let closes = plan_closes(plan, m);
        if opens {
            out.push(MdEvent::Html(crate::text::string_of("<div class=\"md-table\">")));
        }
        let e2 = match anchor_index(anchors, m) {
            Some(k) => set_anchor(e, anchors[k].1.clone()),
            None => e,
        };
        assert(e2@ == with_anchor(ev[m as int], anchor_at(anchors@, m as int)));
        out.push(e2);
        if closes {
            out.push(MdEvent::Html(crate::text::string_of("</div>")));
        }
        proof {
            assert(events_view(out@) =~= before + (if opens {
                seq![table_open()]
            } else {
                Seq::empty()
            }) + seq![with_anchor(ev[m as int], anchor_at(anchors@, m as int))] + (if closes {
                seq![table_close()]
            } else {
                Seq::empty()
            }));
            assert forall|k: int| 0 <= k < back@.len() implies (#[trigger] back@[k])@ == ev[ev.len() - 1 - k] by {
                assert(back@[k] == bk[k]);
            }
        }
        m = m + 1;
    }
    proof {
        if events_wf(ev) {
            lemma_annotated_wf(ev, anchors@, plan@, n as nat);
        }
    }
    out
}

// ---------------------------------------------------------------------------
// Rendering
// ---------------------------------------------------------------------------

/// The lists of the site's cleaner (`html_cleaner`), beyond ammonia's
/// defaults.
pub open spec fn site_cleaner(b: ammonia::Builder<'static>) -> bool {
    &&& cleaner_link_rels(b) == set!["noopener noreferrer"@]
    &&& cleaner_tags(b).contains("input"@)
    &&& cleaner_tag_attributes(b).contains(("code"@, "class"@))
    &&& cleaner_tag_attributes(b).contains(("pre"@, "class"@))
    &&& cleaner_tag_attributes(b).contains(("h2"@, "id"@))
    &&& cleaner_tag_attributes(b).contains(("h3"@, "id"@))
    &&& cleaner_tag_attributes(b).contains(("div"@, "id"@))
    &&& cleaner_tag_attributes(b).contains(("td"@, "style"@))
    &&& cleaner_tag_attributes(b).contains(("th"@, "style"@))
    &&& cleaner_tag_attributes(b).contains(("input"@, "checked"@))
    &&& cleaner_attribute_values(b).contains(("input"@, "type"@, "checkbox"@))
    &&& cleaner_set_attributes(b).contains_key(("input"@, "disabled"@))
    &&& cleaner_set_attributes(b)[("input"@, "disabled"@)] == ""@
    &&& cleaner_classes(b).contains(("div"@, "md-table"@))
    &&& cleaner_classes(b).contains(("div"@, "footnote-definition"@))
    &&& cleaner_classes(b).contains(("sup"@, "footnote-reference"@))
    &&& cleaner_classes(b).contains(("sup"@, "footnote-definition-label"@))
    &&& cleaner_style_properties(b) == set!["text-align"@]
}

/// The strings the site's cleaner is built from, as the characters they hold.
proof fn lemma_cleaner_words()
    ensures
        "noopener noreferrer"@ == seq!['n', 'o', 'o', 'p', 'e', 'n', 'e', 'r', ' ', 'n', 'o', 'r', 'e', 'f', 'e', 'r', 'r', 'e', 'r'],
        "input"@ == seq!['i', 'n', 'p', 'u', 't'],
        "code"@ == seq!['c', 'o', 'd', 'e'],
        "class"@ == seq!['c', 'l', 'a', 's', 's'],
        "pre"@ == seq!['p', 'r', 'e'],
        "h2"@ == seq!['h', '2'],
        "id"@ == seq!['i', 'd'],
        "h3"@ == seq!['h', '3'],
        "div"@ == seq!['d', 'i', 'v'],
        "td"@ == seq!['t', 'd'],
        "style"@ == seq!['s', 't', 'y', 'l', 'e'],
        "th"@ == seq!['t', 'h'],
        "checked"@ == seq!['c', 'h', 'e', 'c', 'k', 'e', 'd'],
        "sup"@ == seq!['s', 'u', 'p'],
        "a"@ == seq!['a'],
        "rel"@ == seq!['r', 'e', 'l'],
        "script"@ == seq!['s', 'c', 'r', 'i', 'p', 't'],
        "lang"@ == seq!['l', 'a', 'n', 'g'],
        "title"@ == seq!['t', 'i', 't', 'l', 'e'],
{
    reveal_strlit("noopener noreferrer");
    reveal_strlit("input");
    reveal_strlit("code");
    reveal_strlit("class");
    reveal_strlit("pre");
    reveal_strlit("h2");
    reveal_strlit("id");
    reveal_strlit("h3");
    reveal_strlit("div");
    reveal_strlit("td");
    reveal_strlit("style");
    reveal_strlit("th");
    reveal_strlit("checked");
    reveal_strlit("sup");
    reveal_strlit("a");
    reveal_strlit("rel");
    reveal_strlit("script");
    reveal_strlit("lang");
    reveal_strlit("title");
}

/// What the cleaner keeps of rendered Markdown: links get
/// `rel="noopener noreferrer"`; task-list checkboxes stay, always
/// disabled; code keeps its language class, second- and third-level
/// headings and footnote blocks their ids, table cells their alignment
/// (and no other style); the table wrapper and footnote classes stay; a
/// relative link stays only where `content_relative` allows it.
fn html_cleaner() -> (r: ammonia::Builder<'static>)
    ensures
        site_cleaner(r),
        cleaner_consistent(r),
{
    let mut b = cleaner_default();
    let ghost b0 = b;
    cleaner_link_rel(&mut b, "noopener noreferrer");
    cleaner_add_tag(&mut b, "input");
    cleaner_add_attribute(&mut b, "code", "class");
    cleaner_add_attribute(&mut b, "pre", "class");
    cleaner_add_attribute(&mut b, "h2", "id");
    cleaner_add_attribute(&mut b, "h3", "id");
    cleaner_add_attribute(&mut b, "div", "id");
    cleaner_add_attribute(&mut b, "td", "style");
    cleaner_add_attribute(&mut b, "th", "style");
    cleaner_add_attribute(&mut b, "input", "checked");
    cleaner_add_attribute_value(&mut b, "input", "type", "checkbox");
    cleaner_set_attribute(&mut b, "input", "disabled", "");
    cleaner_add_class(&mut b, "div", "md-table");
    cleaner_add_class(&mut b, "div", "footnote-definition");
    cleaner_add_class(&mut b, "sup", "footnote-reference");
    cleaner_add_class(&mut b, "sup", "footnote-definition-label");
    cleaner_style_property(&mut b, "text-align");
    cleaner_relative_links(&mut b);
    proof {
        lemma_cleaner_words();
        let ats = cleaner_attribute_tags(b0).insert("code"@).insert("pre"@).insert("h2"@).insert("h3"@).insert(
            "div"@,
        ).insert("td"@).insert("th"@).insert("input"@);
        assert(cleaner_attribute_tags(b) == ats);
        assert(cleaner_class_tags(b) == set!["div"@, "sup"@]) by {
            assert(cleaner_class_tags(b) =~= set!["div"@, "sup"@]);
        }
        assert(cleaner_tags(b) == cleaner_tags(b0).insert("input"@));
        let pairs = cleaner_tag_attributes(b0).insert(("code"@, "class"@)).insert(("pre"@, "class"@)).insert(
            ("h2"@, "id"@),
        ).insert(("h3"@, "id"@)).insert(("div"@, "id"@)).insert(("td"@, "style"@)).insert(
            ("th"@, "style"@),
        ).insert(("input"@, "checked"@));
        assert(cleaner_tag_attributes(b) == pairs);
        assert(!cleaner_tag_attributes(b).contains(("div"@, "class"@)));
        assert(!cleaner_tag_attributes(b).contains(("sup"@, "class"@)));
        assert(!cleaner_tag_attributes(b).contains(("a"@, "rel"@)));
        assert(!cleaner_tags(b).contains("style"@));
    }
    b
}

/// The extensions this site reads on top of CommonMark: tables,
/// strikethrough, task lists and footnotes.
pub open spec fn site_events(md: Seq<char>) -> Seq<MdEvent> {
    md_events(md, true, true, true, true)
}

pub open spec fn site_kinds(md: Seq<char>) -> Seq<MdKind> {
    kinds_of(site_events(md))
}

/// The HTML a Markdown text is written as before cleaning, given the
/// anchors `a` of its headings and the tables `plan` it wraps.
pub open spec fn site_html(md: Seq<char>, a: Seq<(usize, String)>, plan: Seq<(usize, Option<usize>)>) -> Seq<char> {
    pushed_html(annotated(events_view(site_events(md)), a, plan, site_events(md).len()))
}

/// `html` is what the site makes of the Markdown `md`: the HTML written for
/// its events, with the anchors `heading_anchors` gives and the tables
/// `table_wraps` finds, cleaned by the site's cleaner.
pub open spec fn rendered_from(md: Seq<char>, html: Seq<char>) -> bool {
    exists|a: Seq<(usize, String)>, plan: Seq<(usize, Option<usize>)>, b: ammonia::Builder<'static>|
        #![trigger anchors_of(site_kinds(md), a), wraps_view(plan), site_cleaner(b)]
        anchors_of(site_kinds(md), a) && wraps_view(plan) == table_scan(site_kinds(md), 0)
            && site_cleaner(b) && cleaner_consistent(b) && html == cleaned_by(b, site_html(md, a, plan))
}

/// `a` gives the second- and third-level headings of `ks` their anchors as
/// `heading_anchors` does: where each starts, and its slug made unique
/// among those before.
pub open spec fn anchors_of(ks: Seq<MdKind>, a: Seq<(usize, String)>) -> bool {
    &&& a.len() == heading_scan(ks, 0).len()
    &&& forall|k: int|
        0 <= k < a.len() ==> {
            &&& (#[trigger] a[k]).0 == heading_scan(ks, 0)[k].0
            &&& anchor_for(heading_text(ks, heading_scan(ks, 0)[k]), anchor_ids(a.take(k)), a[k].1@)
        }
    &&& forall|x: int, y: int| 0 <= x < y < a.len() ==> (#[trigger] a[x]).1@ != (#[trigger] a[y]).1@
}

/// `toc` is the table of contents of the events `ks`: the anchored
/// headings with text, with their level, anchor and text.
pub open spec fn toc_of(ks: Seq<MdKind>, toc: Seq<TocItem>) -> bool {
    exists|a: Seq<(usize, String)>| #[trigger] anchors_of(ks, a) && toc_models(toc) == toc_upto(
        ks,
        heading_scan(ks, 0),
        anchor_ids(a),
        a.len(),
    )
}

/// The entries of the first `k` headings' table of contents come from
/// strictly later and later headings: `m` says which.
proof fn lemma_toc_picks(ks: Seq<MdKind>, hs: Seq<(int, int, u8)>, ids: Seq<Seq<char>>, k: nat) -> (m:
    Seq<int>)
    requires
        k <= ids.len(),
        k <= hs.len(),
    ensures
        m.len() == toc_upto(ks, hs, ids, k).len(),
        forall|p: int|
            0 <= p < m.len() ==> 0 <= #[trigger] m[p] < k && toc_upto(ks, hs, ids, k)[p].1 == ids[m[p]],
        forall|p: int, q: int| 0 <= p < q < m.len() ==> #[trigger] m[p] < #[trigger] m[q],
    decreases k,
{
    if k == 0 {
        Seq::empty()
    } else {
        let m0 = lemma_toc_picks(ks, hs, ids, (k - 1) as nat);
        let t = heading_text(ks, hs[k - 1]);
        if t.len() > 0 {
            let m = m0.push(k - 1);
            assert forall|p: int| 0 <= p < m.len() implies 0 <= #[trigger] m[p] < k && toc_upto(
                ks,
                hs,
                ids,
                k,
            )[p].1 == ids[m[p]] by {
                if p < m0.len() {
                    assert(m[p] == m0[p]);
                }
            }
            assert forall|p: int, q: int| 0 <= p < q < m.len() implies #[trigger] m[p] < #[trigger] m[q] by {
                if q < m0.len() {
                    assert(m[p] == m0[p] && m[q] == m0[q]);
                } else {
                    assert(m[p] == m0[p]);
                }
            }
            m
        } else {
            m0
        }
    }
}

/// The table of contents names each anchor once.
pub proof fn law_toc_anchors_unique(ks: Seq<MdKind>, toc: Seq<TocItem>)
    requires
        toc_of(ks, toc),
    ensures
        forall|p: int, q: int| 0 <= p < q < toc.len() ==> (#[trigger] toc[p]).id@ != (#[trigger] toc[q]).id@,
{
    let a = choose|a: Seq<(usize, String)>| #[trigger] anchors_of(ks, a) && toc_models(toc) == toc_upto(
        ks,
        heading_scan(ks, 0),
        anchor_ids(a),
        a.len(),
    );
    let ids = anchor_ids(a);
    let m = lemma_toc_picks(ks, heading_scan(ks, 0), ids, a.len());
    assert forall|p: int, q: int| 0 <= p < q < toc.len() implies (#[trigger] toc[p]).id@ != (
    #[trigger] toc[q]).id@ by {
        assert(toc_models(toc)[p].1 == toc[p].id@);
        assert(toc_models(toc)[q].1 == toc[q].id@);
        assert(m[p] < m[q]);
        assert(ids[m[p]] == a[m[p]].1@);
        assert(ids[m[q]] == a[m[q]].1@);
    }
}

/// Markdown as clean HTML, with its table of contents: the second- and
/// third-level headings get their anchors (`heading_anchors`), tables their
/// scrolling wrapper (`table_wraps`), the events are written as HTML and
/// the HTML is cleaned as `html_cleaner` says (`rendered_from`). The table
/// of contents is that of the parsed events.
pub fn render_markdown_with_toc(md: &str) -> (r: (String, Vec<TocItem>))
    ensures
        toc_of(site_kinds(md@), r.1@),
        rendered_from(md@, r.0@),
{
    let events = md_parse(md, true, true, true, true);
    let kinds = event_kinds(&events);
    let (anchors, toc) = heading_anchors(&kinds);
    proof {
        lemma_heading_scan_bounds(kinds@, 0);
        assert(anchors_of(kinds@, anchors@));
    }
    let plan = table_wraps(&kinds);
    let events = annotate(events, &anchors, &plan);
    let html = md_push_html(events);
    let cleaner = html_cleaner();
    let out = cleaner_clean(&cleaner, html.as_str());
    assert(out@ == cleaned_by(cleaner, site_html(md@, anchors@, plan@)));
    assert(kinds@ == site_kinds(md@));
    assert(anchors_of(site_kinds(md@), anchors@));
    assert(wraps_view(plan@) == table_scan(site_kinds(md@), 0));
    assert(site_cleaner(cleaner));
    (out, toc)
}

/// Markdown as clean HTML (`render_markdown_with_toc`, without the table
/// of contents).
pub fn render_markdown(md: &str) -> (r: String)
    ensures
        rendered_from(md@, r@),
{
    render_markdown_with_toc(md).0
}

} // verus!
