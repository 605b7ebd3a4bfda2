//! What the renderer puts on the terminal: frames, and the characters that
//! draw them.
//!
//! The terminal is written a frame at a time. Every frame that draws text
//! starts by returning to the first column, so a frame never depends on where
//! the one before it left the cursor within the line.

use vstd::prelude::*;
use vstd::string::*;
use crate::elapsed::{get_string_time, time_text};
use crate::wrap::{lemma_row_bounds, lemma_wrap_round_trip, row, row_count, split_str_len, wrap};

verus! {

/// One write to the terminal.
#[derive(Debug, PartialEq, Eq)]
pub enum Frame {
    /// The running line: the elapsed time, drawn over the current line.
    Running { secs: u64 },
    /// Leaves the running line as it stands and goes on below it.
    Break,
    /// One physical row of a captured line. The first row of a line carries
    /// the elapsed time in front, each row after it a blank field as wide.
    Row { secs: u64, first: bool, content: String },
    /// The closing readout of the total time.
    Total { secs: u64 },
}

/// A frame as a mathematical value.
pub enum FrameView {
    Running { secs: u64 },
    Break,
    Row { secs: u64, first: bool, content: Seq<char> },
    Total { secs: u64 },
}

impl View for Frame {
    type V = FrameView;

    open spec fn view(&self) -> FrameView {
        match *self {
            Frame::Running { secs } => FrameView::Running { secs },
            Frame::Break => FrameView::Break,
            Frame::Row { secs, first, content } => FrameView::Row { secs, first, content: content@ },
            Frame::Total { secs } => FrameView::Total { secs },
        }
    }
}

impl DeepView for Frame {
    type V = FrameView;

    open spec fn deep_view(&self) -> FrameView {
        self.view()
    }
}

impl Clone for Frame {
    fn clone(&self) -> (copy: Frame)
        ensures
            copy@ == self@,
    {
        match self {
            Frame::Running { secs } => Frame::Running { secs: *secs },
            Frame::Break => Frame::Break,
            Frame::Row { secs, first, content } => Frame::Row {
                secs: *secs,
                first: *first,
                content: content.clone(),
            },
            Frame::Total { secs } => Frame::Total { secs: *secs },
        }
    }
}

/// The control sequence that erases the line the cursor is on.
pub open spec fn clear_line() -> Seq<char> {
    seq!['\u{1b}', '[', '2', 'K']
}

/// `n` spaces.
pub open spec fn blank(n: nat) -> Seq<char> {
    Seq::new(n, |i: int| ' ')
}

/// What stands in front of a row of output that was captured at `secs`
/// seconds: the elapsed time on the first row of a line, as many spaces on
/// the rows that continue it.
pub open spec fn row_prefix(secs: u64, first: bool) -> Seq<char> {
    if first {
        time_text(secs as nat)
    } else {
        blank(time_text(secs as nat).len())
    }
}

/// What a frame shows on its line.
pub open spec fn shown(frame: FrameView) -> Seq<char> {
    match frame {
        FrameView::Running { secs } => time_text(secs as nat) + "  ..."@,
        FrameView::Break => Seq::empty(),
        FrameView::Row { secs, first, content } => row_prefix(secs, first) + "|"@ + content,
        FrameView::Total { secs } => "Total time: "@ + time_text(secs as nat),
    }
}

/// The columns that a frame takes on its line.
pub open spec fn frame_width(frame: FrameView) -> nat {
    shown(frame).len()
}

/// What stands for a frame where there is no terminal to draw on: the total
/// as a plain line, and nothing for a frame that only steers or redraws.
pub open spec fn plain_text(frame: FrameView) -> Option<Seq<char>> {
    match frame {
        FrameView::Total { .. } => Some(shown(frame) + "\n"@),
        _ => None,
    }
}

/// The characters that draw a frame.
///
/// The running line is drawn over the line of the cursor and leaves the
/// cursor on it. A row is drawn over the line of the cursor and goes on to
/// the next. The total closes its line in full, with a carriage return, so
/// that what follows the program starts in the first column whether or not
/// the terminal turns line feeds into line breaks.
pub open spec fn frame_text(frame: FrameView) -> Seq<char> {
    match frame {
        FrameView::Running { .. } => "\r"@ + clear_line() + shown(frame),
        FrameView::Break => "\n"@,
        FrameView::Row { .. } => "\r"@ + clear_line() + shown(frame) + "\n"@,
        FrameView::Total { .. } => "\r"@ + shown(frame) + "\r\n"@,
    }
}

/// The rows that show the captured line `text` on a terminal of `width`
/// columns, the elapsed time being `secs` seconds.
///
/// With `p` the width of the elapsed time, each row holds `p` columns of
/// prefix, one separator and at most `width - p - 1` characters of the line.
/// Where not even one character of the line fits, nothing is drawn.
pub open spec fn output_rows(text: Seq<char>, secs: u64, width: nat) -> Seq<FrameView> {
    let p = time_text(secs as nat).len();
    if width <= p + 1 {
        Seq::empty()
    } else {
        let len = (width - p - 1) as nat;
        Seq::new(
            row_count(text.len(), len),
            |i: int| FrameView::Row { secs, first: i == 0, content: row(text, len, i) },
        )
    }
}

/// The control sequence that `termion::clear::CurrentLine` stands for, had by
/// formatting it.
///
/// Taken on trust from termion, not proved: that its `Display` writes the
/// escape character, `[`, `2` and `K`, and nothing besides.
#[verifier::external_body]
fn clear_current_line() -> (code: String)
    ensures
        code@ == clear_line(),
{
    format!("{}", termion::clear::CurrentLine)
}

/// A string of `n` spaces.
fn blanks(n: usize) -> (out: String)
    ensures
        out@ == blank(n as nat),
{
    let mut out = String::new();
    let mut i: usize = 0;
    while i < n
        invariant
            i <= n,
            out@ == blank(i as nat),
        decreases n - i,
    {
        proof {
            reveal_strlit(" ");
        }
        out.append(" ");
        i = i + 1;
    }
    out
}

impl Frame {
    /// What this frame shows on its line, without the characters that
    /// steer the terminal.
    pub fn shown(&self) -> (out: String)
        ensures
            out@ == shown(self@),
    {
        let mut out = String::new();
        match self {
            Frame::Running { secs } => {
                out.append(get_string_time(*secs).as_str());
                out.append("  ...");
            },
            Frame::Break => {},
            Frame::Row { secs, first, content } => {
                let time = get_string_time(*secs);
                if *first {
                    out.append(time.as_str());
                } else {
                    out.append(blanks(time.as_str().unicode_len()).as_str());
                }
                out.append("|");
                out.append(content.as_str());
            },
            Frame::Total { secs } => {
                out.append("Total time: ");
                out.append(get_string_time(*secs).as_str());
            },
        }
        out
    }

    /// What to print for this frame where there is no terminal to draw on,
    /// if anything.
    pub fn plain(&self) -> (out: Option<String>)
        ensures
            match out {
                Some(text) => plain_text(self@) == Some(text@),
                None => plain_text(self@) is None,
            },
    {
        match self {
            Frame::Total { .. } => {
                let mut text = self.shown();
                text.append("\n");
                Some(text)
            },
            _ => None,
        }
    }

    /// The characters to send to the terminal for this frame.
    pub fn text(&self) -> (out: String)
        ensures
            out@ == frame_text(self@),
    {
        let mut out = String::new();
        match self {
            Frame::Running { .. } => {
                out.append("\r");
                out.append(clear_current_line().as_str());
                out.append(self.shown().as_str());
            },
            Frame::Break => {
                out.append("\n");
            },
            Frame::Row { .. } => {
                out.append("\r");
                out.append(clear_current_line().as_str());
                out.append(self.shown().as_str());
                out.append("\n");
            },
            Frame::Total { .. } => {
                out.append("\r");
                out.append(self.shown().as_str());
                out.append("\r\n");
            },
        }
        out
    }
}

/// Wraps the captured line `text` for a terminal of `width` columns and
/// gives its rows, top to bottom.
pub fn rows_for(text: &str, secs: u64, width: usize) -> (rows: Vec<Frame>)
    ensures
        rows.deep_view() == output_rows(text@, secs, width as nat),
        forall|i: int| 0 <= i < rows.len() ==> frame_width(#[trigger] rows[i]@) <= width,
{
    let time = get_string_time(secs);
    let p: usize = time.as_str().unicode_len();
    let mut rows: Vec<Frame> = Vec::new();
    if width <= p || width - p <= 1 {
        return rows;
    }
    let len: usize = width - p - 1;
    let pieces = split_str_len(text, len);
    let ghost all = pieces.deep_view();
    let total: usize = pieces.len();
    let mut i: usize = 0;
    while i < total
        invariant
            i <= total,
            total == pieces.len(),
            pieces.deep_view() == all,
            all == wrap(text@, len as nat),
            rows.len() == i,
            forall|j: int|
                0 <= j < i ==> (#[trigger] rows[j])@ == (FrameView::Row {
                    secs,
                    first: j == 0,
                    content: row(text@, len as nat, j),
                }),
        decreases total - i,
    {
        let content = pieces[i].clone();
        assert(all.len() == total);
        assert(all[i as int] == row(text@, len as nat, i as int));
        rows.push(Frame::Row { secs, first: i == 0, content });
        i = i + 1;
    }
    proof {
        assert(all.len() == total);
        assert forall|j: int| 0 <= j < rows.len() implies frame_width(#[trigger] rows[j]@)
            <= width by {
            assert(rows.deep_view()[j] == rows[j]@);
            lemma_rows_fit(text@, secs, width as nat, j);
        }
    }
    rows
}

/// Every row of a wrapped line fits the terminal it was wrapped for, holds at
/// least one character of the line, and takes the same columns for what
/// stands in front.
pub proof fn lemma_rows_fit(text: Seq<char>, secs: u64, width: nat, i: int)
    requires
        0 <= i < output_rows(text, secs, width).len(),
    ensures
        output_rows(text, secs, width)[i] is Row,
        frame_width(output_rows(text, secs, width)[i]) <= width,
        output_rows(text, secs, width)[i]->content.len() > 0,
        row_prefix(secs, i == 0).len() == time_text(secs as nat).len(),
{
    let p = time_text(secs as nat).len();
    let len = (width - p - 1) as nat;
    lemma_row_bounds(text.len(), len, i);
    reveal_strlit("|");
}

/// The rows of a wrapped line hold the line and nothing else: what stands
/// behind the separator in each row, joined from the top row down, is the
/// line as it came.
pub proof fn lemma_rows_hold_the_line(text: Seq<char>, secs: u64, width: nat)
    requires
        width > time_text(secs as nat).len() + 1,
    ensures
        Seq::new(
            output_rows(text, secs, width).len(),
            |i: int| output_rows(text, secs, width)[i]->content,
        ).flatten() == text,
{
    let len = (width - time_text(secs as nat).len() - 1) as nat;
    let contents = Seq::new(
        output_rows(text, secs, width).len(),
        |i: int| output_rows(text, secs, width)[i]->content,
    );
    assert(contents =~= wrap(text, len));
    lemma_wrap_round_trip(text, len);
}

} // verus!
