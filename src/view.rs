//! The viewport's own state: its size, the lines it shows and where the
//! terminal cursor stands. Painting it is left to the program around the
//! library.
use vstd::prelude::*;
use vstd::view::View as _;
use crate::color::{Color, SetColor};
use crate::text_buffer::{TextPosition, Textbuffer};

verus! {

/// Width and height of the terminal window, in characters.
pub struct WinDim(pub u16, pub u16);

/// The window size as the terminal reports it.
pub struct WinSize {
    pub ws_row: u16,
    pub ws_col: u16,
    pub ws_xpixel: u16,
    pub ws_ypixel: u16,
}

impl WinSize {
    pub fn new() -> (r: WinSize)
        ensures
            r.ws_row == 0 && r.ws_col == 0 && r.ws_xpixel == 0 && r.ws_ypixel == 0,
    {
        WinSize { ws_row: 0, ws_col: 0, ws_xpixel: 0, ws_ypixel: 0 }
    }
}

impl From<WinSize> for WinDim {
    fn from(ws: WinSize) -> (r: WinDim) {
        WinDim(ws.ws_col, ws.ws_row)
    }
}

impl vstd::std_specs::convert::FromSpecImpl<WinSize> for WinDim {
    open spec fn obeys_from_spec() -> bool {
        true
    }

    open spec fn from_spec(ws: WinSize) -> WinDim {
        WinDim(ws.ws_col, ws.ws_row)
    }
}

/// A painter of the screen, whole or one row at a time.
pub trait ScreenUpdate {
    fn update(&self);

    fn update_at(&self, row: usize);
}

/// Cursor movements and clearing that the terminal understands.
#[derive(Clone, Copy, Debug, PartialEq, Eq, Structural)]
pub enum ViewOperations {
    ClearLineRest,
    StepRight,
    StepLeft,
    StepUp,
    StepDown,
    LineStart,
}

impl ViewOperations {
    /// The ANSI sequence of the operation.
    pub fn as_output(&self) -> (r: &'static str)
        ensures
            r@ == match *self {
                ViewOperations::ClearLineRest => "\x1b[0K"@,
                ViewOperations::StepRight => "\x1b[1C"@,
                ViewOperations::StepLeft => "\x1b[1D"@,
                ViewOperations::StepUp => "\x1b[1A"@,
                ViewOperations::StepDown => "\x1b[1B"@,
                ViewOperations::LineStart => "\x1b[9D"@,
            },
    {
        match self {
            ViewOperations::ClearLineRest => "\x1b[0K",
            ViewOperations::StepRight => "\x1b[1C",
            ViewOperations::StepLeft => "\x1b[1D",
            ViewOperations::StepUp => "\x1b[1A",
            ViewOperations::StepDown => "\x1b[1B",
            ViewOperations::LineStart => "\x1b[9D",
        }
    }
}

/// Colours of the text area and of the status line.
pub struct ViewConfig {
    pub bg_color: SetColor,
    pub fg_color: SetColor,
    pub stat_line_color: (SetColor, SetColor),
}

impl Default for ViewConfig {
    fn default() -> (r: ViewConfig)
        ensures
            r.bg_color == SetColor::Background(Color::Blue),
            r.fg_color == SetColor::Foreground(Color::White),
            r.stat_line_color == (SetColor::Background(Color::BrightCyan), SetColor::Background(
                Color::Black,
            )),
    {
        ViewConfig {
            bg_color: SetColor::Background(Color::Blue),
            fg_color: SetColor::Foreground(Color::White),
            stat_line_color: (SetColor::Background(Color::BrightCyan), SetColor::Background(Color::Black)),
        }
    }
}

/// A one-based terminal cell.
#[derive(Clone, Copy, Debug, PartialEq, Eq, Structural)]
pub struct ViewCursor {
    pub row: usize,
    pub col: usize,
}

impl Default for ViewCursor {
    fn default() -> (r: ViewCursor)
        ensures
            r == (ViewCursor { row: 1, col: 1 }),
    {
        ViewCursor { row: 1, col: 1 }
    }
}

impl ViewCursor {
    /// The cell that shows a text position: its line below the top, its
    /// column to the right of the left edge.
    pub fn from_position(tp: TextPosition) -> (r: ViewCursor)
        requires
            tp.line_start_absolute <= tp.absolute,
            tp.line_number < usize::MAX,
            tp.absolute < usize::MAX,
        ensures
            r.row == tp.line_number + 1,
            r.col == tp.absolute - tp.line_start_absolute + 1,
    {
        ViewCursor { row: tp.line_number + 1, col: tp.get_line_position() + 1 }
    }
}

/// A range of line indices that can slide.
pub trait ViewRange {
    spec fn first(&self) -> int;

    spec fn past_last(&self) -> int;

    fn shift_forward(&mut self, len: usize)
        requires
            old(self).first() + len <= usize::MAX,
            old(self).past_last() + len <= usize::MAX,
        ensures
            final(self).first() == old(self).first() + len,
            final(self).past_last() == old(self).past_last() + len,
    ;

    fn shift_backward(&mut self, len: usize)
        requires
            len <= old(self).first(),
            len <= old(self).past_last(),
        ensures
            final(self).first() == old(self).first() - len,
            final(self).past_last() == old(self).past_last() - len,
    ;
}

impl ViewRange for std::ops::Range<usize> {
    open spec fn first(&self) -> int {
        self.start as int
    }

    open spec fn past_last(&self) -> int {
        self.end as int
    }

    fn shift_forward(&mut self, len: usize) {
        self.start = self.start + len;
        self.end = self.end + len;
    }

    fn shift_backward(&mut self, len: usize) {
        self.start = self.start - len;
        self.end = self.end - len;
    }
}

/// What the viewport shows of a text buffer: the range of lines on screen,
/// the first of them, and where the cursors stand.
pub struct View {
    pub view_cursor: ViewCursor,
    pub statline_view_cursor: ViewCursor,
    pub size: (usize, usize),
    pub line_range: std::ops::Range<usize>,
    pub top_line: TextPosition,
    pub status_line_position: ViewCursor,
    pub win_size: WinDim,
    pub view_cfg: ViewConfig,
}

impl View {
    /// A view of a window of the given size: the text area spans all rows
    /// but the last, which holds the status line.
    pub fn with_size(win_size: WinDim) -> (r: View)
        requires
            win_size.1 >= 1,
        ensures
            r.win_size == win_size,
            r.line_range == (0..(win_size.1 - 1) as usize),
            r.status_line_position == (ViewCursor { row: win_size.1 as usize, col: 1 }),
            r.statline_view_cursor == r.status_line_position,
            r.view_cursor == (ViewCursor { row: 1, col: 1 }),
            r.top_line.absolute == 0,
    {
        let rows = win_size.1 as usize;
        View {
            view_cursor: ViewCursor { row: 1, col: 1 },
            statline_view_cursor: ViewCursor { row: rows, col: 1 },
            size: (0, 0),
            line_range: 0..rows - 1,
            top_line: TextPosition::new(),
            status_line_position: ViewCursor { row: rows, col: 1 },
            win_size,
            view_cfg: ViewConfig::default(),
        }
    }

    /// Rows of the text area: all but the status line.
    pub fn get_text_area_height(&self) -> (r: usize)
        requires
            self.win_size.1 >= 1,
        ensures
            r == self.win_size.1 - 1,
    {
        self.win_size.1 as usize - 1
    }

    /// Puts the top line at the start of the first line in range, when the
    /// text has that line.
    fn anchor_top_line(&mut self, tb: &Textbuffer)
        requires
            tb.wf(),
        ensures
            final(self).line_range == old(self).line_range,
            final(self).win_size == old(self).win_size,
    {
        match tb.get_line_start_abs(self.line_range.start) {
            Some(tp) => {
                self.top_line = tp;
            },
            None => {},
        }
    }

    /// Slides the shown lines half a screen down.
    pub fn scroll_down(&mut self, tb: &Textbuffer)
        requires
            tb.wf(),
            old(self).win_size.1 >= 1,
            old(self).line_range.start + old(self).win_size.1 <= usize::MAX,
            old(self).line_range.end + old(self).win_size.1 <= usize::MAX,
        ensures
            final(self).line_range.start == old(self).line_range.start + (old(self).win_size.1 - 1) / 2,
            final(self).line_range.end == old(self).line_range.end + (old(self).win_size.1 - 1) / 2,
    {
        let shift = self.get_text_area_height() / 2;
        self.line_range.shift_forward(shift);
        self.anchor_top_line(tb);
    }

    /// Slides the shown lines half a screen up, stopping at the first line.
    pub fn scroll_up(&mut self, tb: &Textbuffer)
        requires
            tb.wf(),
            old(self).win_size.1 >= 1,
            old(self).line_range.start <= old(self).line_range.end,
        ensures
            ({
                let shift = (old(self).win_size.1 - 1) / 2;
                let back = if shift <= old(self).line_range.start {
                    shift as int
                } else {
                    old(self).line_range.start as int
                };
                &&& final(self).line_range.start == old(self).line_range.start - back
                &&& final(self).line_range.end == old(self).line_range.end - back
            }),
    {
        let shift = self.get_text_area_height() / 2;
        if shift > self.line_range.start && self.line_range.start != 0 {
            let back = self.line_range.start;
            self.line_range.shift_backward(back);
            self.anchor_top_line(tb);
        } else if shift <= self.line_range.start {
            self.line_range.shift_backward(shift);
            self.anchor_top_line(tb);
        }
    }

    /// Slides the shown lines just far enough that the buffer's cursor line
    /// is among them, and puts the view cursor on the cursor's cell.
    pub fn check_at_boundary_cross(&mut self, tb: &Textbuffer)
        requires
            tb.wf(),
            old(self).line_range.start < old(self).line_range.end,
            old(self).line_range.end < usize::MAX / 2,
        ensures
            final(self).line_range.end - final(self).line_range.start == old(self).line_range.end
                - old(self).line_range.start,
            final(self).line_range.start <= tb.spec_cursor().line_number < final(self).line_range.end,
            tb.spec_cursor().line_number < old(self).line_range.start ==> final(self).line_range.start
                == tb.spec_cursor().line_number,
            tb.spec_cursor().line_number >= old(self).line_range.end ==> final(self).line_range.end
                == tb.spec_cursor().line_number + 1,
            old(self).line_range.start <= tb.spec_cursor().line_number < old(self).line_range.end
                ==> final(self).line_range == old(self).line_range,
            final(self).view_cursor.row == tb.spec_cursor().line_number - final(self).line_range.start + 1,
            final(self).view_cursor.col == tb.spec_cursor().absolute - tb.spec_cursor().line_start_absolute + 1,
    {
        proof {
            tb.lemma_wf_consequences();
            crate::scan::lemma_rfind_range(tb@, tb.spec_cursor().absolute as int, false);
            crate::scan::lemma_newline_count_bound(tb@.subrange(0, tb.spec_cursor().absolute as int));
        }
        let tp = tb.get_textpos();
        let line = tp.line_number;
        if line < self.line_range.start {
            let back = self.line_range.start - line;
            self.line_range.shift_backward(back);
            self.anchor_top_line(tb);
        } else if line >= self.line_range.end {
            let ahead = line - self.line_range.end + 1;
            self.line_range.shift_forward(ahead);
            self.anchor_top_line(tb);
        }
        self.view_cursor = ViewCursor {
            row: line - self.line_range.start + 1,
            col: tp.absolute - tp.line_start_absolute + 1,
        };
    }

    /// Asks `tb` to announce its insertions to this view.
    pub fn register_as_listener(&self, tb: &mut Textbuffer)
        requires
            old(tb).wf(),
        ensures
            final(tb).wf(),
            final(tb)@ == old(tb)@,
            final(tb).spec_cursor() == old(tb).spec_cursor(),
            final(tb).spec_listening(),
            final(tb).pending_events() == old(tb).pending_events(),
    {
        tb.register_view();
    }
}

} // verus!
