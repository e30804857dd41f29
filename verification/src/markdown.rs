//! The markdown events that release-notes formatting consumes. Parsing is
//! delegated to a markdown pull parser behind trusted wrappers; every event
//! is converted to a plain value, and what the parser yields for a text is
//! named so the formatter's contract can be phrased over it.

use vstd::prelude::*;

verus! {

/// One markdown event, reduced to what the formatter reacts to.
#[derive(Clone, PartialEq, Eq, Debug)]
pub enum MdEvent {
    /// A heading, block quote, code block, table, table head or table row
    /// opens.
    BlockStart,
    /// A link or image opens; its title text passes through.
    TitleText(String),
    /// A list opens, ordered lists carrying their first item number.
    ListStart(Option<u64>),
    /// A list item opens.
    ItemStart,
    /// A heading, block quote, code block, table, table head or table row
    /// closes.
    BlockEnd,
    /// A list closes.
    ListEnd,
    /// A list item closes.
    ItemEnd,
    /// A text node.
    Text(String),
    /// An inline code node.
    Code(String),
    /// An inline HTML node.
    Html(String),
    /// A soft break, hard break or horizontal rule.
    LineBreak,
    /// Anything the formatter ignores.
    Nothing,
}

/// The mathematical value of a markdown event.
pub enum MdEventS {
    BlockStart,
    TitleText(Seq<char>),
    ListStart(Option<u64>),
    ItemStart,
    BlockEnd,
    ListEnd,
    ItemEnd,
    Text(Seq<char>),
    Code(Seq<char>),
    Html(Seq<char>),
    LineBreak,
    Nothing,
}

impl View for MdEvent {
    type V = MdEventS;

    open spec fn view(&self) -> MdEventS {
        match self {
            MdEvent::BlockStart => MdEventS::BlockStart,
            MdEvent::TitleText(t) => MdEventS::TitleText(t@),
            MdEvent::ListStart(n) => MdEventS::ListStart(*n),
            MdEvent::ItemStart => MdEventS::ItemStart,
            MdEvent::BlockEnd => MdEventS::BlockEnd,
            MdEvent::ListEnd => MdEventS::ListEnd,
            MdEvent::ItemEnd => MdEventS::ItemEnd,
            MdEvent::Text(t) => MdEventS::Text(t@),
            MdEvent::Code(t) => MdEventS::Code(t@),
            MdEvent::Html(t) => MdEventS::Html(t@),
            MdEvent::LineBreak => MdEventS::LineBreak,
            MdEvent::Nothing => MdEventS::Nothing,
        }
    }
}

/// The mathematical values of an event list.
pub open spec fn spec_events_view(events: Seq<MdEvent>) -> Seq<MdEventS> {
    events.map_values(|e: MdEvent| e@)
}

/// What the markdown parser yields for a text, with strikethrough and the
/// extended flavour enabled: a function of the text alone.
pub uninterp spec fn spec_md_events(body: Seq<char>) -> Seq<MdEventS>;

#[verifier::external_type_specification]
#[verifier::external_body]
pub struct ExEvent<'a>(pulldown_cmark::Event<'a>);

#[verifier::external_type_specification]
#[verifier::external_body]
pub struct ExTag<'a>(pulldown_cmark::Tag<'a>);

#[verifier::external_type_specification]
#[verifier::external_body]
pub struct ExTagEnd(pulldown_cmark::TagEnd);

/// Relies on `pulldown_cmark::Tag`: tells the opening tags apart, moving
/// the fields the formatter reads.
#[verifier::external_body]
fn md_event_of_tag(tag: pulldown_cmark::Tag<'_>) -> MdEvent {
    match tag {
        pulldown_cmark::Tag::Heading { .. } | pulldown_cmark::Tag::BlockQuote(_)
        | pulldown_cmark::Tag::CodeBlock(_) | pulldown_cmark::Tag::Table(_)
        | pulldown_cmark::Tag::TableHead | pulldown_cmark::Tag::TableRow => MdEvent::BlockStart,
        pulldown_cmark::Tag::Link { title, .. } | pulldown_cmark::Tag::Image { title, .. } => {
            MdEvent::TitleText(title.into_string())
        },
        pulldown_cmark::Tag::List(first_index) => MdEvent::ListStart(first_index),
        pulldown_cmark::Tag::Item => MdEvent::ItemStart,
        _ => MdEvent::Nothing,
    }
}

/// Relies on `pulldown_cmark::TagEnd`: tells the closing tags apart.
#[verifier::external_body]
fn md_event_of_tag_end(tag: pulldown_cmark::TagEnd) -> MdEvent {
    match tag {
        pulldown_cmark::TagEnd::Heading(_) | pulldown_cmark::TagEnd::BlockQuote(_)
        | pulldown_cmark::TagEnd::CodeBlock | pulldown_cmark::TagEnd::Table
        | pulldown_cmark::TagEnd::TableHead | pulldown_cmark::TagEnd::TableRow => MdEvent::BlockEnd,
        pulldown_cmark::TagEnd::List(_) => MdEvent::ListEnd,
        pulldown_cmark::TagEnd::Item => MdEvent::ItemEnd,
        _ => MdEvent::Nothing,
    }
}

/// Relies on `pulldown_cmark::Event`: tells the event kinds apart, moving
/// the text the formatter reads.
#[verifier::external_body]
fn md_event_of(event: pulldown_cmark::Event<'_>) -> MdEvent {
    match event {
        pulldown_cmark::Event::Start(tag) => md_event_of_tag(tag),
        pulldown_cmark::Event::End(tag) => md_event_of_tag_end(tag),
        pulldown_cmark::Event::Text(t) => MdEvent::Text(t.into_string()),
        pulldown_cmark::Event::Code(t) => MdEvent::Code(t.into_string()),
        pulldown_cmark::Event::InlineHtml(t) => MdEvent::Html(t.into_string()),
        pulldown_cmark::Event::SoftBreak | pulldown_cmark::Event::HardBreak
        | pulldown_cmark::Event::Rule => MdEvent::LineBreak,
        _ => MdEvent::Nothing,
    }
}

/// Relies on `pulldown_cmark::Parser::new_ext`: parses the text with
/// strikethrough and the extended flavour enabled; the events are a
/// function of the text alone.
#[verifier::external_body]
pub(crate) fn md_events(body: &str) -> (r: Vec<MdEvent>)
    ensures
        spec_events_view(r@) == spec_md_events(body@),
{
    pulldown_cmark::Parser::new_ext(
        body,
        pulldown_cmark::Options::ENABLE_STRIKETHROUGH | pulldown_cmark::Options::ENABLE_GFM,
    ).map(md_event_of).collect()
}

} // verus!
