//! The rendering of a task's text for display: plain text stays as it is,
//! inline code is marked up, everything else that markdown knows is left
//! out.

use vstd::prelude::*;
use vstd::string::StringExecFns;

verus! {

/// What a markdown event holds, as plain values.
pub enum MarkdownEventView {
    Text(Seq<char>),
    Code(Seq<char>),
    Other,
}

/// One event of a markdown text, as far as the rendering reads it: a run of
/// text, a piece of inline code, or anything else.
#[derive(Clone, Debug, PartialEq, Eq)]
pub enum MarkdownEvent {
    Text(String),
    Code(String),
    Other,
}

impl View for MarkdownEvent {
    type V = MarkdownEventView;

    open spec fn view(&self) -> MarkdownEventView {
        match self {
            MarkdownEvent::Text(value) => MarkdownEventView::Text(value@),
            MarkdownEvent::Code(value) => MarkdownEventView::Code(value@),
            MarkdownEvent::Other => MarkdownEventView::Other,
        }
    }
}

/// The plain values of a sequence of events, in the same order.
pub open spec fn events_view(events: Seq<MarkdownEvent>) -> Seq<MarkdownEventView> {
    Seq::new(events.len(), |i: int| events[i]@)
}

/// The events that `pulldown_cmark::Parser` yields for a text, in order,
/// each reduced to what the rendering reads.
pub uninterp spec fn markdown_events(text: Seq<char>) -> Seq<MarkdownEventView>;

/// Runs `pulldown_cmark::Parser::new` over the text and collects the events
/// that it yields: `Event::Text` and `Event::Code` with their text, every
/// other event as `Other`. The parser works on the text alone, so the
/// result has a name.
#[verifier::external_body]
fn parse(text: &str) -> (events: Vec<MarkdownEvent>)
    ensures
        events_view(events@) == markdown_events(text@),
{
    let mut events = Vec::new();
    for event in pulldown_cmark::Parser::new(text) {
        events.push(
            match event {
                pulldown_cmark::Event::Text(value) => MarkdownEvent::Text(value.to_string()),
                pulldown_cmark::Event::Code(value) => MarkdownEvent::Code(value.to_string()),
                _ => MarkdownEvent::Other,
            },
        );
    }
    events
}

/// What one event contributes to the display.
pub open spec fn rendered_event(event: MarkdownEventView) -> Seq<char> {
    match event {
        MarkdownEventView::Text(value) => value,
        MarkdownEventView::Code(value) => "<code>"@ + value + "</code>"@,
        MarkdownEventView::Other => Seq::empty(),
    }
}

/// The display of a sequence of events: what each contributes, in order.
pub open spec fn rendered(events: Seq<MarkdownEventView>) -> Seq<char>
    decreases events.len(),
{
    if events.len() == 0 {
        Seq::empty()
    } else {
        rendered(events.drop_last()) + rendered_event(events.last())
    }
}

/// Renders a sequence of events for display.
pub fn render_events(events: &Vec<MarkdownEvent>) -> (display: String)
    ensures
        display@ == rendered(events_view(events@)),
{
    let mut display = String::new();
    let mut i: usize = 0;
    while i < events.len()
        invariant
            i <= events.len(),
            display@ == rendered(events_view(events@).take(i as int)),
        decreases events.len() - i,
    {
        proof {
            assert(events_view(events@).take(i + 1).drop_last() == events_view(events@).take(
                i as int,
            ));
        }
        match &events[i] {
            MarkdownEvent::Text(value) => {
                display.append(value.as_str());
            },
            MarkdownEvent::Code(value) => {
                display.append("<code>");
                display.append(value.as_str());
                display.append("</code>");
            },
            MarkdownEvent::Other => {
                assert(display@ + Seq::<char>::empty() == display@);
            },
        }
        i += 1;
    }
    proof {
        assert(events_view(events@).take(i as int) == events_view(events@));
    }
    display
}

/// Renders a markdown text for display.
pub fn render(text: &str) -> (display: String)
    ensures
        display@ == rendered(markdown_events(text@)),
{
    render_events(&parse(text))
}

} // verus!
