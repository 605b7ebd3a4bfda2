//! A whole run of the renderer: the fold over the events as they arrive, up
//! to the end of the last expected stream, and the closing readout.

use vstd::prelude::*;
use crate::frame::{Frame, FrameView};
use crate::status::{columns, Event, EventView, Status, Step};

verus! {

/// An event together with what was measured when it arrived: the seconds
/// elapsed since the start, and the width of the terminal.
#[derive(Debug, PartialEq, Eq)]
pub struct Arrival {
    /// What arrived.
    pub event: Event,
    /// The whole seconds elapsed since the start of the run.
    pub secs: u64,
    /// The columns of the terminal, if it could be asked.
    pub width: Option<usize>,
}

/// An arrival as a mathematical value. Its width is the number of columns
/// there are to draw on.
pub struct ArrivalView {
    pub event: EventView,
    pub secs: u64,
    pub width: nat,
}

impl View for Arrival {
    type V = ArrivalView;

    open spec fn view(&self) -> ArrivalView {
        ArrivalView { event: self.event@, secs: self.secs, width: columns(self.width) }
    }
}

impl DeepView for Arrival {
    type V = ArrivalView;

    open spec fn deep_view(&self) -> ArrivalView {
        self.view()
    }
}

/// The status that `arrivals` leave behind, starting from `status`. Once
/// every expected stream has ended, nothing more is consumed.
pub open spec fn status_after(status: Status, arrivals: Seq<ArrivalView>) -> Status
    decreases arrivals.len(),
{
    if arrivals.len() == 0 || status.done() {
        status
    } else {
        status_after(status.after(arrivals[0].event, arrivals[0].secs), arrivals.drop_first())
    }
}

/// What `arrivals` draw, starting from `status`.
pub open spec fn frames_of(status: Status, arrivals: Seq<ArrivalView>) -> Seq<FrameView>
    decreases arrivals.len(),
{
    if arrivals.len() == 0 || status.done() {
        Seq::empty()
    } else {
        status.frames(arrivals[0].event, arrivals[0].secs, arrivals[0].width) + frames_of(
            status.after(arrivals[0].event, arrivals[0].secs),
            arrivals.drop_first(),
        )
    }
}

/// Everything that a run draws: what its arrivals draw, then the closing
/// readout of `total_secs` seconds.
pub open spec fn transcript(status: Status, arrivals: Seq<ArrivalView>, total_secs: u64) -> Seq<
    FrameView,
> {
    frames_of(status, arrivals) + status_after(status, arrivals).closing_frames(total_secs)
}

/// How many of `arrivals` tell the end of a stream.
pub open spec fn ends(arrivals: Seq<ArrivalView>) -> nat
    decreases arrivals.len(),
{
    if arrivals.len() == 0 {
        0
    } else if arrivals[0].event is StreamEnded {
        ends(arrivals.drop_first()) + 1
    } else {
        ends(arrivals.drop_first())
    }
}

/// Whether arrival `i` is consumed and is a tick that redraws the running
/// line.
pub open spec fn redraws_at(status: Status, arrivals: Seq<ArrivalView>, i: int) -> bool {
    let before = status_after(status, arrivals.take(i));
    &&& !before.done()
    &&& arrivals[i].event is Tick
    &&& before.redraws(arrivals[i].secs)
}

impl Status {
    /// Consumes `arrivals` in order, up to the one with which the last
    /// expected stream ends, and gives the status they leave and all that
    /// they draw.
    pub fn run(self, arrivals: &Vec<Arrival>) -> (out: Step)
        ensures
            out.status == status_after(self, arrivals.deep_view()),
            out.frames.deep_view() == frames_of(self, arrivals.deep_view()),
            out.done == out.status.done(),
            self.wf() ==> out.status.wf(),
    {
        let ghost all = arrivals.deep_view();
        let mut status = self;
        let mut frames: Vec<Frame> = Vec::new();
        let mut i: usize = 0;
        assert(all.skip(0) =~= all);
        while i < arrivals.len() && !status.is_done()
            invariant
                i <= arrivals.len(),
                all == arrivals.deep_view(),
                status_after(self, all) == status_after(status, all.skip(i as int)),
                frames_of(self, all) == frames.deep_view() + frames_of(status, all.skip(i as int)),
                self.wf() ==> status.wf(),
            decreases arrivals.len() - i,
        {
            let arrival = &arrivals[i];
            assert(all.skip(i as int).drop_first() =~= all.skip(i + 1));
            let mut step = status.step(&arrival.event, arrival.secs, arrival.width);
            frames.append(&mut step.frames);
            status = step.status;
            i = i + 1;
        }
        Step { status, frames, done: status.is_done() }
    }
}

/// Renders a whole run in which `expected` streams are to end: what
/// `arrivals` draw from the start, then the closing readout of `total_secs`
/// seconds.
pub fn render(arrivals: &Vec<Arrival>, expected: u64, total_secs: u64) -> (frames: Vec<Frame>)
    ensures
        frames.deep_view() == transcript(
            Status::initial(expected),
            arrivals.deep_view(),
            total_secs,
        ),
{
    let start = Status::expecting(expected);
    let out = start.run(arrivals);
    let mut frames = out.frames;
    let mut closing = out.status.finish(total_secs);
    frames.append(&mut closing);
    frames
}

/// A run is a fold of the transition of single events: to consume a stream
/// of arrivals is to consume a first part of it and then, from the status
/// that this left, the rest. What came before an event bears on it through
/// the status alone.
pub proof fn lemma_run_in_parts(status: Status, first: Seq<ArrivalView>, rest: Seq<ArrivalView>)
    ensures
        status_after(status, first + rest) == status_after(status_after(status, first), rest),
        frames_of(status, first + rest) == frames_of(status, first) + frames_of(
            status_after(status, first),
            rest,
        ),
    decreases first.len(),
{
    if first.len() > 0 && !status.done() {
        let next = status.after(first[0].event, first[0].secs);
        assert((first + rest).drop_first() =~= first.drop_first() + rest);
        lemma_run_in_parts(next, first.drop_first(), rest);
    }
}

/// Once every expected stream has ended, arrivals change nothing and draw
/// nothing.
pub proof fn lemma_done_draws_nothing(status: Status, arrivals: Seq<ArrivalView>)
    requires
        status.done(),
    ensures
        status_after(status, arrivals) == status,
        frames_of(status, arrivals) == Seq::<FrameView>::empty(),
{
}

/// The end of the run is found by counting, in whatever order the events of
/// the producers came: the streams that ended are counted up to the number
/// expected, and the run is over as soon as that many have ended, wherever
/// among the other events their ends arrived.
pub proof fn lemma_ends_are_counted(status: Status, arrivals: Seq<ArrivalView>)
    requires
        status.wf(),
    ensures
        status_after(status, arrivals).expected == status.expected,
        status_after(status, arrivals).wf(),
        status_after(status, arrivals).finished == if status.finished + ends(arrivals)
            <= status.expected {
            status.finished + ends(arrivals)
        } else {
            status.expected as int
        },
        status_after(status, arrivals).done() <==> status.finished + ends(arrivals)
            >= status.expected,
    decreases arrivals.len(),
{
    if arrivals.len() > 0 && !status.done() {
        lemma_ends_are_counted(
            status.after(arrivals[0].event, arrivals[0].secs),
            arrivals.drop_first(),
        );
    }
}

/// The status that a run leaves depends on the kinds of the events and on
/// the seconds at which they arrived: not on the text of the output, nor on
/// the width of the terminal.
pub proof fn lemma_status_by_kind_and_time(
    status: Status,
    one: Seq<ArrivalView>,
    other: Seq<ArrivalView>,
)
    requires
        one.len() == other.len(),
        forall|i: int|
            0 <= i < one.len() ==> {
                &&& #[trigger] one[i].secs == other[i].secs
                &&& one[i].event is Tick <==> other[i].event is Tick
                &&& one[i].event is Output <==> other[i].event is Output
                &&& one[i].event is StreamEnded <==> other[i].event is StreamEnded
            },
    ensures
        status_after(status, one) == status_after(status, other),
    decreases one.len(),
{
    if one.len() > 0 && !status.done() {
        let next = status.after(one[0].event, one[0].secs);
        lemma_status_by_kind_and_time(next, one.drop_first(), other.drop_first());
    }
}

/// The status before arrival `i + 1` is the one before arrival `i`, moved on
/// by arrival `i` unless the run was over by then.
pub proof fn lemma_status_step(status: Status, arrivals: Seq<ArrivalView>, i: int)
    requires
        0 <= i < arrivals.len(),
    ensures
        status_after(status, arrivals.take(i + 1)) == {
            let before = status_after(status, arrivals.take(i));
            if before.done() {
                before
            } else {
                before.after(arrivals[i].event, arrivals[i].secs)
            }
        },
{
    let before = status_after(status, arrivals.take(i));
    let one = seq![arrivals[i]];
    assert(arrivals.take(i + 1) =~= arrivals.take(i) + one);
    lemma_run_in_parts(status, arrivals.take(i), one);
    if !before.done() {
        let next = before.after(arrivals[i].event, arrivals[i].secs);
        assert(status_after(next, one.drop_first()) == next);
    }
}

/// A run that is over stays over: the count of ended streams never falls,
/// and the number expected never changes.
pub proof fn lemma_done_is_final(status: Status, arrivals: Seq<ArrivalView>, i: int, j: int)
    requires
        0 <= i <= j <= arrivals.len(),
        status_after(status, arrivals.take(i)).done(),
    ensures
        status_after(status, arrivals.take(j)) == status_after(status, arrivals.take(i)),
    decreases j - i,
{
    if i < j {
        lemma_done_is_final(status, arrivals, i, j - 1);
        lemma_status_step(status, arrivals, j - 1);
    }
}

/// The running line is never drawn twice in a row with the same seconds,
/// unless output came in between and forced it: of two redrawing ticks with
/// neither output nor another redraw between them, the second shows other
/// seconds than the first.
pub proof fn lemma_no_repeated_redraw(
    status: Status,
    arrivals: Seq<ArrivalView>,
    i: int,
    j: int,
)
    requires
        0 <= i < j < arrivals.len(),
        redraws_at(status, arrivals, i),
        redraws_at(status, arrivals, j),
        forall|k: int| i < k < j ==> !redraws_at(status, arrivals, k),
        forall|k: int| i < k < j ==> !(#[trigger] arrivals[k].event is Output),
    ensures
        arrivals[i].secs != arrivals[j].secs,
{
    lemma_quiet_after_redraw(status, arrivals, i, j);
}

/// After a redrawing tick, and as long as neither output nor another redraw
/// follows, the status says that the running line stands and shows the
/// seconds of that tick.
proof fn lemma_quiet_after_redraw(status: Status, arrivals: Seq<ArrivalView>, i: int, k: int)
    requires
        0 <= i < k <= arrivals.len(),
        redraws_at(status, arrivals, i),
        forall|m: int| i < m < k ==> !redraws_at(status, arrivals, m),
        forall|m: int| i < m < k ==> !(#[trigger] arrivals[m].event is Output),
    ensures
        !status_after(status, arrivals.take(k)).forced(),
        status_after(status, arrivals.take(k)).last_secs == arrivals[i].secs,
    decreases k - i,
{
    lemma_status_step(status, arrivals, k - 1);
    if k - 1 > i {
        lemma_quiet_after_redraw(status, arrivals, i, k - 1);
        assert(!redraws_at(status, arrivals, k - 1));
    }
}

/// Right after output, the next tick redraws the running line, whether or
/// not the seconds have changed: if arrival `i` is output, arrival `j` is
/// the first tick after it, and the run is not over by then, that tick draws
/// the running line.
pub proof fn lemma_redraw_after_output(
    status: Status,
    arrivals: Seq<ArrivalView>,
    i: int,
    j: int,
)
    requires
        0 <= i < j < arrivals.len(),
        arrivals[i].event is Output,
        arrivals[j].event is Tick,
        forall|k: int| i < k < j ==> !(#[trigger] arrivals[k].event is Tick),
        !status_after(status, arrivals.take(j)).done(),
    ensures
        redraws_at(status, arrivals, j),
        status_after(status, arrivals.take(j)).frames(
            arrivals[j].event,
            arrivals[j].secs,
            arrivals[j].width,
        ) == seq![FrameView::Running { secs: arrivals[j].secs }],
{
    if status_after(status, arrivals.take(i)).done() {
        lemma_done_is_final(status, arrivals, i, j);
    }
    lemma_forced_after_output(status, arrivals, i, j);
}

/// After output that was consumed, and as long as no tick follows, the
/// status says that the next tick is to redraw.
proof fn lemma_forced_after_output(status: Status, arrivals: Seq<ArrivalView>, i: int, k: int)
    requires
        0 <= i < k <= arrivals.len(),
        arrivals[i].event is Output,
        forall|m: int| i < m < k ==> !(#[trigger] arrivals[m].event is Tick),
        !status_after(status, arrivals.take(i)).done(),
    ensures
        status_after(status, arrivals.take(k)).forced(),
    decreases k - i,
{
    lemma_status_step(status, arrivals, k - 1);
    if k - 1 > i {
        lemma_forced_after_output(status, arrivals, i, k - 1);
    }
}

/// A run draws the total time exactly once, as its last frame, whatever
/// arrived and whatever arrived last.
pub proof fn lemma_one_total(status: Status, arrivals: Seq<ArrivalView>, total_secs: u64)
    ensures
        transcript(status, arrivals, total_secs).len() > 0,
        transcript(status, arrivals, total_secs).last() == (FrameView::Total { secs: total_secs }),
        forall|i: int|
            0 <= i < transcript(status, arrivals, total_secs).len() - 1 ==> !(
            #[trigger] transcript(status, arrivals, total_secs)[i] is Total),
{
    let drawn = frames_of(status, arrivals);
    let all = transcript(status, arrivals, total_secs);
    assert forall|i: int| 0 <= i < all.len() - 1 implies !(#[trigger] all[i] is Total) by {
        if i < drawn.len() {
            lemma_no_total_before_the_end(status, arrivals, i);
        }
    }
}

/// No event draws the total time.
proof fn lemma_no_total_before_the_end(status: Status, arrivals: Seq<ArrivalView>, i: int)
    requires
        0 <= i < frames_of(status, arrivals).len(),
    ensures
        !(frames_of(status, arrivals)[i] is Total),
    decreases arrivals.len(),
{
    if arrivals.len() > 0 && !status.done() {
        let head = status.frames(arrivals[0].event, arrivals[0].secs, arrivals[0].width);
        if i >= head.len() {
            lemma_no_total_before_the_end(
                status.after(arrivals[0].event, arrivals[0].secs),
                arrivals.drop_first(),
                i - head.len(),
            );
        }
    }
}

} // verus!
