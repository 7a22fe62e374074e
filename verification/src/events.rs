//! The Markdown document as an ordered sequence of events.
//!
//! The parser turns a document into a lazy, ordered sequence of block and
//! inline events. The renderer only distinguishes the events that concern
//! fenced code blocks — a block opener carrying its language tag, the block
//! terminator, and text — plus the literal HTML events it emits itself;
//! every other event passes through untouched, so it is carried opaquely.

use vstd::prelude::*;
use pulldown_cmark::{CodeBlockKind, Event, Tag, TagEnd};

verus! {

#[verifier::external_type_specification]
#[verifier::external_body]
pub struct ExEvent<'a>(Event<'a>);

/// One event of the parsed document, as the renderer sees it.
pub enum MdEvent {
    /// Start of a code block, with the language tag of its opening fence
    /// (empty for an untagged or indented block).
    CodeStart(String),
    /// End of a code block.
    CodeEnd,
    /// A text node.
    Text(String),
    /// A literal HTML fragment, emitted by the renderer itself.
    HtmlLit(String),
    /// Any other event; it passes through the renderer unchanged.
    Other(Event<'static>),
}

/// The mathematical model of an event: strings as character sequences,
/// opaque events as themselves.
pub enum EvModel {
    CodeStart(Seq<char>),
    CodeEnd,
    Text(Seq<char>),
    HtmlLit(Seq<char>),
    Other(Event<'static>),
}

impl View for MdEvent {
    type V = EvModel;

    open spec fn view(&self) -> EvModel {
        match self {
            MdEvent::CodeStart(t) => EvModel::CodeStart(t@),
            MdEvent::CodeEnd => EvModel::CodeEnd,
            MdEvent::Text(t) => EvModel::Text(t@),
            MdEvent::HtmlLit(h) => EvModel::HtmlLit(h@),
            MdEvent::Other(e) => EvModel::Other(*e),
        }
    }
}

/// The models of a sequence of events.
pub open spec fn views_of(s: Seq<MdEvent>) -> Seq<EvModel> {
    s.map_values(|e: MdEvent| e@)
}

pub proof fn lemma_views_of_skip(s: Seq<MdEvent>, k: int)
    requires
        0 <= k <= s.len(),
    ensures
        views_of(s).skip(k) == views_of(s.skip(k)),
{
    assert(views_of(s).skip(k) =~= views_of(s.skip(k)));
}

pub proof fn lemma_views_of_push(s: Seq<MdEvent>, e: MdEvent)
    ensures
        views_of(s.push(e)) == views_of(s).push(e@),
{
    assert(views_of(s.push(e)) =~= views_of(s).push(e@));
}

pub proof fn lemma_remove_front(s: Seq<MdEvent>)
    requires
        s.len() > 0,
    ensures
        s.remove(0) == s.skip(1),
{
    assert(s.remove(0) =~= s.skip(1));
}

/// What the Markdown parser produces for a document: its event sequence.
/// Uninterpreted; the parse wrapper is the only place it is assumed.
pub uninterp spec fn md_events_of(text: Seq<char>) -> Seq<EvModel>;

/// What the HTML serializer produces for an event sequence.
/// Uninterpreted; the serializer wrapper is the only place it is assumed.
pub uninterp spec fn html_of(events: Seq<EvModel>) -> Seq<char>;

/// Relies on `pulldown_cmark::Parser::new`: with fixed (default) options the
/// event sequence is a function of the input text alone. Code-block fences,
/// code-block ends and text nodes are told apart by their variant, one arm
/// each; every other event is kept as it came.
#[verifier::external_body]
pub fn parse_markdown(text: &str) -> (r: Vec<MdEvent>)
    ensures
        views_of(r@) == md_events_of(text@),
{
    pulldown_cmark::Parser::new(text)
        .map(|ev| match ev {
            Event::Start(Tag::CodeBlock(CodeBlockKind::Fenced(tag))) => {
                MdEvent::CodeStart(tag.to_string())
            },
            Event::Start(Tag::CodeBlock(CodeBlockKind::Indented)) => {
                MdEvent::CodeStart(String::new())
            },
            Event::End(TagEnd::CodeBlock) => MdEvent::CodeEnd,
            Event::Text(t) => MdEvent::Text(t.to_string()),
            other => MdEvent::Other(other.into_static()),
        })
        .collect()
}

/// Relies on `pulldown_cmark::html::push_html`: the serialized HTML is a
/// function of the event sequence alone, in order. Each event is converted
/// back to the parser's representation, one arm per variant.
#[verifier::external_body]
pub fn events_to_html(events: Vec<MdEvent>) -> (r: String)
    ensures
        r@ == html_of(views_of(events@)),
{
    let mut out = String::new();
    pulldown_cmark::html::push_html(
        &mut out,
        events.into_iter().map(|e| match e {
            MdEvent::CodeStart(t) => Event::Start(Tag::CodeBlock(CodeBlockKind::Fenced(t.into()))),
            MdEvent::CodeEnd => Event::End(TagEnd::CodeBlock),
            MdEvent::Text(t) => Event::Text(t.into()),
            MdEvent::HtmlLit(h) => Event::Html(h.into()),
            MdEvent::Other(ev) => ev,
        }),
    );
    out
}

} // verus!
