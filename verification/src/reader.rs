//! The rule of a line reader: what it hands to the renderer for each thing
//! it reads from its stream, and when it stops.
//!
//! A reader that has a stream of its own learns of the end from the stream.
//! Where several streams are merged into one transport before they reach the
//! reader, the end of any one of them is lost, and a line that holds nothing
//! but an agreed sentinel stands for it instead.

use vstd::prelude::*;
use vstd::string::*;
use crate::status::{Event, EventView};

verus! {

/// What one read of a stream gave.
#[derive(Debug, PartialEq, Eq)]
pub enum Reading {
    /// A line of text, without its line break.
    Line(String),
    /// A line that could not be read as text.
    Garbled,
    /// The end of the stream.
    End,
}

/// A reading as a mathematical value.
pub enum ReadingView {
    Line(Seq<char>),
    Garbled,
    End,
}

impl View for Reading {
    type V = ReadingView;

    open spec fn view(&self) -> ReadingView {
        match *self {
            Reading::Line(text) => ReadingView::Line(text@),
            Reading::Garbled => ReadingView::Garbled,
            Reading::End => ReadingView::End,
        }
    }
}

/// What a reader does after one read.
#[derive(Debug, PartialEq, Eq)]
pub struct Emission {
    /// The events to send to the renderer, in this order.
    pub events: Vec<Event>,
    /// Whether the reader goes on reading.
    pub more: bool,
}

/// Whether `reading` ends the stream: its end was reached, or the line read
/// is the sentinel.
pub open spec fn ends_stream(reading: ReadingView, sentinel: Option<Seq<char>>) -> bool {
    match reading {
        ReadingView::End => true,
        ReadingView::Line(text) => sentinel == Some(text),
        ReadingView::Garbled => false,
    }
}

/// The events that `reading` gives rise to.
///
/// A line is shown, and a tick right behind it brings the running line back
/// at once. A line that cannot be decoded is shown as an empty one, so that
/// the reader keeps going. The end of the stream is told once.
pub open spec fn events_for(reading: ReadingView, sentinel: Option<Seq<char>>) -> Seq<EventView> {
    if ends_stream(reading, sentinel) {
        seq![EventView::StreamEnded]
    } else {
        match reading {
            ReadingView::Line(text) => seq![EventView::Output(text), EventView::Tick],
            _ => seq![EventView::Output(Seq::empty()), EventView::Tick],
        }
    }
}

/// The view of an optional sentinel.
pub open spec fn sentinel_view(sentinel: Option<&str>) -> Option<Seq<char>> {
    match sentinel {
        Some(text) => Some(text@),
        None => None,
    }
}

/// Decides what a reader sends for `reading`, and whether it reads on.
pub fn emit(reading: Reading, sentinel: Option<&str>) -> (out: Emission)
    ensures
        out.events.deep_view() == events_for(reading@, sentinel_view(sentinel)),
        out.more == !ends_stream(reading@, sentinel_view(sentinel)),
{
    let mut events: Vec<Event> = Vec::new();
    let more = match reading {
        Reading::End => false,
        Reading::Garbled => {
            events.push(Event::Output(String::new()));
            true
        },
        Reading::Line(text) => {
            let is_sentinel = match sentinel {
                Some(mark) => text == String::from_str(mark),
                None => false,
            };
            if !is_sentinel {
                events.push(Event::Output(text));
            }
            !is_sentinel
        },
    };
    if more {
        events.push(Event::Tick);
    } else {
        events.push(Event::StreamEnded);
    }
    Emission { events, more }
}

} // verus!
