//! The renderer's state machine.
//!
//! The renderer is the single consumer of the events that the line readers
//! and the ticker produce. It folds them, one at a time and in the order in
//! which they arrive, into a small status value, and decides for each what
//! is drawn. An event acts on the status by its kind and by the elapsed
//! seconds measured when it arrived, and by nothing else.

use vstd::prelude::*;
use crate::frame::{frame_width, output_rows, rows_for, Frame, FrameView};

verus! {

/// How many events may wait for the renderer in the channel that merges the
/// producers. With room for one, no producer gets more than one event ahead
/// of the renderer, and what is drawn is never older than that.
pub const CHANNEL_SLOTS: usize = 1;

/// What a producer hands to the renderer.
#[derive(Debug, PartialEq, Eq)]
pub enum Event {
    /// A line of text that the child wrote.
    Output(String),
    /// The elapsed time is to be looked at again.
    Tick,
    /// One of the captured streams has come to its end.
    StreamEnded,
}

/// An event as a mathematical value.
pub enum EventView {
    Output(Seq<char>),
    Tick,
    StreamEnded,
}

impl View for Event {
    type V = EventView;

    open spec fn view(&self) -> EventView {
        match *self {
            Event::Output(text) => EventView::Output(text@),
            Event::Tick => EventView::Tick,
            Event::StreamEnded => EventView::StreamEnded,
        }
    }
}

impl DeepView for Event {
    type V = EventView;

    open spec fn deep_view(&self) -> EventView {
        self.view()
    }
}

/// The kind of thing that was drawn last.
#[derive(Clone, Copy, Debug, PartialEq, Eq, Structural)]
pub enum Rendered {
    /// The running line: the cursor stands on it, and it may be drawn over.
    Time,
    /// A row of output, or nothing yet: the cursor stands on a fresh line.
    Output,
}

/// What the renderer remembers between two events.
#[derive(Clone, Copy, Debug, PartialEq, Eq, Structural)]
pub struct Status {
    /// The kind of thing that was drawn last.
    pub last_kind: Rendered,
    /// The elapsed seconds that were shown when something was last drawn.
    pub last_secs: u64,
    /// How many streams have ended so far.
    pub finished: u64,
    /// How many streams are to end before the renderer is done.
    pub expected: u64,
}

/// The columns there are to draw on: those that the terminal told, and none
/// where it could not be asked, so that nothing is drawn that would have to
/// be fitted.
pub open spec fn columns(width: Option<usize>) -> nat {
    match width {
        Some(columns) => columns as nat,
        None => 0,
    }
}

/// What the renderer answers to one event.
#[derive(Debug, PartialEq, Eq)]
pub struct Step {
    /// The status from here on.
    pub status: Status,
    /// What to write to the terminal, in this order.
    pub frames: Vec<Frame>,
    /// Whether every expected stream has ended: the ticker is to be stopped
    /// and no further event consumed.
    pub done: bool,
}

impl Status {
    /// The status before the first event, with `expected` streams to end.
    ///
    /// Nothing stands on the current line, so the first tick draws the
    /// running line whatever the elapsed time.
    pub open spec fn initial(expected: u64) -> Status {
        Status { last_kind: Rendered::Output, last_secs: 0, finished: 0, expected }
    }

    /// No more streams have ended than were expected to.
    pub open spec fn wf(self) -> bool {
        self.finished <= self.expected
    }

    /// Whether the next tick redraws the running line even if the elapsed
    /// seconds have not changed: it does after output, which left the cursor
    /// on a line without one.
    pub open spec fn forced(self) -> bool {
        self.last_kind == Rendered::Output
    }

    /// Whether a tick at `secs` seconds redraws the running line.
    pub open spec fn redraws(self, secs: u64) -> bool {
        self.forced() || secs != self.last_secs
    }

    /// Whether every expected stream has ended.
    pub open spec fn done(self) -> bool {
        self.finished >= self.expected
    }

    /// The status after a tick at `secs` seconds.
    pub open spec fn after_tick(self, secs: u64) -> Status {
        if self.redraws(secs) {
            Status { last_kind: Rendered::Time, last_secs: secs, ..self }
        } else {
            self
        }
    }

    /// The status after a line of output at `secs` seconds, whether or not
    /// the terminal had room to draw it: the status follows the events, not
    /// the terminal.
    pub open spec fn after_output(self, secs: u64) -> Status {
        Status { last_kind: Rendered::Output, last_secs: secs, ..self }
    }

    /// The status after a stream has ended. The count stops at the number of
    /// streams expected.
    pub open spec fn after_stream_ended(self) -> Status {
        if self.finished < self.expected {
            Status { finished: (self.finished + 1) as u64, ..self }
        } else {
            self
        }
    }

    /// The status after `event`, which arrived at `secs` seconds.
    pub open spec fn after(self, event: EventView, secs: u64) -> Status {
        match event {
            EventView::Tick => self.after_tick(secs),
            EventView::Output(_) => self.after_output(secs),
            EventView::StreamEnded => self.after_stream_ended(),
        }
    }

    /// What a tick at `secs` seconds draws.
    pub open spec fn tick_frames(self, secs: u64) -> Seq<FrameView> {
        if self.redraws(secs) {
            seq![FrameView::Running { secs }]
        } else {
            Seq::empty()
        }
    }

    /// What the line `text` draws when it arrives at `secs` seconds on a
    /// terminal of `width` columns: its rows, below the running line if one
    /// stands.
    pub open spec fn output_frames(self, text: Seq<char>, secs: u64, width: nat) -> Seq<FrameView> {
        let rows = output_rows(text, secs, width);
        if rows.len() > 0 && self.last_kind == Rendered::Time {
            seq![FrameView::Break] + rows
        } else {
            rows
        }
    }

    /// What `event` draws when it arrives at `secs` seconds on a terminal of
    /// `width` columns.
    pub open spec fn frames(self, event: EventView, secs: u64, width: nat) -> Seq<FrameView> {
        match event {
            EventView::Tick => self.tick_frames(secs),
            EventView::Output(text) => self.output_frames(text, secs, width),
            EventView::StreamEnded => Seq::empty(),
        }
    }

    /// What is drawn at shutdown, `secs` seconds having elapsed: the total
    /// time, below the running line if one stands.
    pub open spec fn closing_frames(self, secs: u64) -> Seq<FrameView> {
        if self.last_kind == Rendered::Time {
            seq![FrameView::Break, FrameView::Total { secs }]
        } else {
            seq![FrameView::Total { secs }]
        }
    }

    /// The status at the start of a run that captures the two output
    /// streams of a child.
    pub fn init() -> (status: Status)
        ensures
            status == Status::initial(2),
    {
        Status::expecting(2)
    }

    /// The status at the start of a run in which `expected` streams are to
    /// end.
    pub fn expecting(expected: u64) -> (status: Status)
        ensures
            status == Status::initial(expected),
            status.wf(),
    {
        Status { last_kind: Rendered::Output, last_secs: 0, finished: 0, expected }
    }

    /// Whether the next tick redraws the running line whatever the elapsed
    /// time.
    pub fn forced_redraw(&self) -> (forced: bool)
        ensures
            forced == self.forced(),
    {
        match self.last_kind {
            Rendered::Output => true,
            Rendered::Time => false,
        }
    }

    /// Whether the running line stands on the line of the cursor, so that
    /// what is drawn next has to go below it.
    fn running_line_stands(&self) -> (stands: bool)
        ensures
            stands == (self.last_kind == Rendered::Time),
    {
        match self.last_kind {
            Rendered::Time => true,
            Rendered::Output => false,
        }
    }

    /// Whether every expected stream has ended.
    pub fn is_done(&self) -> (done: bool)
        ensures
            done == self.done(),
    {
        self.finished >= self.expected
    }

    /// Handles a tick at `secs` seconds: the running line is redrawn if the
    /// seconds shown would change, or if output has been drawn since.
    pub fn on_tick(self, secs: u64) -> (step: Step)
        ensures
            step.status == self.after_tick(secs),
            step.frames.deep_view() == self.tick_frames(secs),
            step.done == step.status.done(),
            self.wf() ==> step.status.wf(),
    {
        let mut frames: Vec<Frame> = Vec::new();
        let status = if self.forced_redraw() || secs != self.last_secs {
            frames.push(Frame::Running { secs });
            Status { last_kind: Rendered::Time, last_secs: secs, ..self }
        } else {
            self
        };
        Step { status, frames, done: status.is_done() }
    }

    /// Handles the captured line `text`, which arrived at `secs` seconds,
    /// on a terminal of `width` columns: the line is wrapped into rows that
    /// fit the terminal, and drawn below the running line if one stands.
    pub fn on_output(self, text: &str, secs: u64, width: usize) -> (step: Step)
        ensures
            step.status == self.after_output(secs),
            step.frames.deep_view() == self.output_frames(text@, secs, width as nat),
            forall|i: int|
                0 <= i < step.frames.len() ==> frame_width(#[trigger] step.frames[i]@) <= width,
            step.done == step.status.done(),
            self.wf() ==> step.status.wf(),
    {
        let mut rows = rows_for(text, secs, width);
        let mut frames: Vec<Frame> = Vec::new();
        if rows.len() > 0 && self.running_line_stands() {
            frames.push(Frame::Break);
        }
        frames.append(&mut rows);
        let status = Status { last_kind: Rendered::Output, last_secs: secs, ..self };
        Step { status, frames, done: status.is_done() }
    }

    /// Handles the end of a stream.
    pub fn on_stream_ended(self) -> (step: Step)
        ensures
            step.status == self.after_stream_ended(),
            step.frames.deep_view() == Seq::<FrameView>::empty(),
            step.done == step.status.done(),
            self.wf() ==> step.status.wf(),
    {
        let status = if self.finished < self.expected {
            Status { finished: self.finished + 1, ..self }
        } else {
            self
        };
        let frames: Vec<Frame> = Vec::new();
        Step { status, frames, done: status.is_done() }
    }

    /// Handles one event, which arrived at `secs` seconds while the terminal
    /// was `width` columns wide, if it could be asked.
    pub fn step(self, event: &Event, secs: u64, width: Option<usize>) -> (step: Step)
        ensures
            step.status == self.after(event@, secs),
            step.frames.deep_view() == self.frames(event@, secs, columns(width)),
            step.done == step.status.done(),
            self.wf() ==> step.status.wf(),
    {
        match event {
            Event::Tick => self.on_tick(secs),
            Event::Output(text) => {
                let width: usize = match width {
                    Some(columns) => columns,
                    None => 0,
                };
                self.on_output(text.as_str(), secs, width)
            },
            Event::StreamEnded => self.on_stream_ended(),
        }
    }

    /// What to write at shutdown, `secs` seconds having elapsed.
    pub fn finish(&self, secs: u64) -> (frames: Vec<Frame>)
        ensures
            frames.deep_view() == self.closing_frames(secs),
    {
        let mut frames: Vec<Frame> = Vec::new();
        if self.running_line_stands() {
            frames.push(Frame::Break);
        }
        frames.push(Frame::Total { secs });
        frames
    }
}

} // verus!
