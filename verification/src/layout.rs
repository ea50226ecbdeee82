//! Where things stand in the window, in pixels.
use crate::selection::Selection;
#[allow(unused_imports)]
use crate::selection::{opt_sel, sel_end, sel_start, Sel};
use vstd::prelude::*;

verus! {

/// The width of the column of line numbers.
pub const GUTTER_WIDTH: i64 = 64;

/// The height of the tab bar.
pub const TAB_BAR_HEIGHT: i64 = 30;

/// The width of one tab.
pub const TAB_WIDTH: i64 = 220;

/// The height of the status bar.
pub const STATUS_BAR_HEIGHT: i64 = 28;

/// The measures that everything else follows from.
#[derive(Debug, Clone, Copy, PartialEq, Eq, Structural)]
pub struct Layout {
    pub width: u32,
    pub height: u32,
    pub padding: u32,
    pub line_height: u32,
    pub show_line_numbers: bool,
}

/// A line of text on the screen.
#[derive(Debug, Clone, Copy, PartialEq, Eq, Structural)]
pub struct Row {
    pub line: usize,
    pub y: i64,
}

/// A tab in the tab bar.
#[derive(Debug, Clone, Copy, PartialEq, Eq, Structural)]
pub struct TabBox {
    pub x: i64,
    pub width: i64,
}

/// The position and size of a window.
#[derive(Debug, Clone, Copy, PartialEq, Eq, Structural)]
pub struct Frame {
    pub x: i64,
    pub y: i64,
    pub width: u32,
    pub height: u32,
}

/// The larger of two numbers.
pub open spec fn at_least(low: int, n: int) -> int {
    if n < low {
        low
    } else {
        n
    }
}

/// The smaller of two numbers.
pub open spec fn at_most(high: int, n: int) -> int {
    if n > high {
        high
    } else {
        n
    }
}

impl Layout {
    /// The first pixel row of the text.
    pub open spec fn top(self) -> int {
        TAB_BAR_HEIGHT + self.padding
    }

    /// The first pixel row of the status bar.
    pub open spec fn status_top(self) -> int {
        self.height - STATUS_BAR_HEIGHT
    }

    /// The first pixel row below the text; there is always one row of text.
    pub open spec fn bottom(self) -> int {
        at_least(self.top() + 1, self.status_top() - self.padding)
    }

    /// The height of a line.
    pub open spec fn step(self) -> int {
        at_least(1, self.line_height as int)
    }

    /// How many lines fit.
    pub open spec fn capacity(self) -> int {
        (self.bottom() - self.top()) / self.step()
    }

    /// The width of the column of line numbers.
    pub open spec fn gutter(self) -> int {
        if self.show_line_numbers {
            GUTTER_WIDTH as int
        } else {
            0
        }
    }

    /// The first pixel column of the text.
    pub open spec fn text_left(self) -> int {
        self.gutter() + self.padding
    }

    /// The first pixel row of a row of text.
    pub open spec fn row_top(self, row: int) -> int {
        self.top() + row * self.step()
    }

    /// The row of the cursor, if it is on the screen: its pixel row and its
    /// height.
    pub open spec fn caret_at(self, cursor_line: int, top_line: int) -> Option<(int, int)> {
        if top_line <= cursor_line < top_line + self.capacity() {
            Some((self.row_top(cursor_line - top_line), at_least(1, self.step() - 1)))
        } else {
            None
        }
    }

    /// The line at a pixel row, if that belongs to the text.
    pub open spec fn line_at(self, y: int, top_line: int, line_count: int) -> Option<int> {
        if self.top() <= y < self.bottom() {
            Some(at_most(line_count - 1, top_line + (y - self.top()) / self.step()))
        } else {
            None
        }
    }

    /// What is at a pixel.
    pub open spec fn target_at(self, x: int, y: int, top_line: int, line_count: int) -> PointerTarget {
        if y < TAB_BAR_HEIGHT {
            PointerTarget::Tab { index: tab_over(x) as usize }
        } else {
            match self.line_at(y, top_line, line_count) {
                Some(line) => PointerTarget::Text {
                    line: line as usize,
                    x: at_least(0, x - self.text_left()) as i64,
                },
                None => PointerTarget::Nowhere,
            }
        }
    }

    /// The first pixel row of the text.
    pub fn content_top(&self) -> (out: i64)
        ensures
            out == self.top(),
    {
        TAB_BAR_HEIGHT + self.padding as i64
    }

    /// The first pixel row of the status bar.
    pub fn status_bar_top(&self) -> (out: i64)
        ensures
            out == self.status_top(),
    {
        self.height as i64 - STATUS_BAR_HEIGHT
    }

    /// The first pixel row below the text.
    pub fn content_bottom(&self) -> (out: i64)
        ensures
            out == self.bottom(),
    {
        let top: i64 = self.content_top();
        let bottom: i64 = self.status_bar_top() - self.padding as i64;
        if bottom < top + 1 {
            top + 1
        } else {
            bottom
        }
    }

    fn line_step(&self) -> (out: i64)
        ensures
            out == self.step(),
    {
        if self.line_height < 1 {
            1
        } else {
            self.line_height as i64
        }
    }

    /// How many lines fit.
    pub fn visible_line_capacity(&self) -> (out: usize)
        ensures
            out == self.capacity(),
            out * self.step() <= self.bottom() - self.top(),
    {
        let usable: i64 = self.content_bottom() - self.content_top();
        let step: i64 = self.line_step();
        let lines: i64 = usable / step;
        proof {
            lemma_quotient(usable as int, step as int);
        }
        lines as usize
    }

    /// The width of the column of line numbers.
    pub fn gutter_width(&self) -> (out: i64)
        ensures
            out == self.gutter(),
    {
        if self.show_line_numbers {
            GUTTER_WIDTH
        } else {
            0
        }
    }

    /// The first pixel column of the text.
    pub fn text_origin_x(&self) -> (out: i64)
        ensures
            out == self.text_left(),
    {
        self.gutter_width() + self.padding as i64
    }

    /// The lines on the screen, from the top line of the viewport down. Each
    /// of them fits above the status bar.
    pub fn visible_rows(&self, top_line: usize, line_count: usize) -> (out: Vec<Row>)
        ensures
            out@.len() == at_most(self.capacity(), at_least(0, line_count - top_line)),
            forall|i: int|
                0 <= i < out@.len() ==> (#[trigger] out@[i]).line == top_line + i && out@[i].y
                    == self.row_top(i) && out@[i].y + self.step() <= self.bottom(),
    {
        let capacity: usize = self.visible_line_capacity();
        let step: i64 = self.line_step();
        let top: i64 = self.content_top();
        let bottom: i64 = self.content_bottom();
        let mut out: Vec<Row> = Vec::new();
        let mut y: i64 = top;
        let mut row: usize = 0;
        proof {
            assert(0 * step == 0) by (nonlinear_arith);
        }
        while row < capacity && row < line_count && top_line < line_count - row
            invariant
                capacity == self.capacity(),
                step == self.step(),
                top == self.top(),
                bottom == self.bottom(),
                1 <= step <= u32::MAX,
                bottom <= u32::MAX + 31,
                capacity * step <= bottom - top,
                row <= capacity,
                row <= at_least(0, line_count - top_line),
                y == top + row * step,
                out@.len() == row,
                forall|i: int|
                    0 <= i < out@.len() ==> (#[trigger] out@[i]).line == top_line + i && out@[i].y
                        == top + i * step && out@[i].y + step <= bottom,
            decreases capacity - row,
        {
            proof {
                assert((row + 1) * step == row * step + step) by (nonlinear_arith);
                assert((row + 1) * step <= capacity * step) by (nonlinear_arith)
                    requires
                        row + 1 <= capacity,
                        step >= 1,
                ;
            }
            out.push(Row { line: top_line + row, y });
            y = y + step;
            row += 1;
        }
        out
    }

    /// The row of the cursor, if it is on the screen: its pixel row and its
    /// height.
    pub fn caret(&self, cursor_line: usize, top_line: usize) -> (out: Option<(i64, i64)>)
        ensures
            match out {
                Some(caret) => self.caret_at(cursor_line as int, top_line as int) == Some(
                    (caret.0 as int, caret.1 as int),
                ),
                None => self.caret_at(cursor_line as int, top_line as int) is None,
            },
    {
        let capacity: usize = self.visible_line_capacity();
        if cursor_line < top_line || cursor_line - top_line >= capacity {
            return None;
        }
        let step: i64 = self.line_step();
        let row: usize = cursor_line - top_line;
        proof {
            assert(row * step <= capacity * step) by (nonlinear_arith)
                requires
                    row <= capacity,
                    step >= 1,
            ;
            assert(0 <= row * step) by (nonlinear_arith)
                requires
                    step >= 1,
                    0 <= row,
            ;
            assert(row <= u32::MAX) by {
                assert(capacity <= capacity * step) by (nonlinear_arith)
                    requires
                        step >= 1,
                        capacity >= 0,
                ;
            }
        }
        let y: i64 = self.content_top() + row as i64 * step;
        let height: i64 = if step - 1 < 1 {
            1
        } else {
            step - 1
        };
        Some((y, height))
    }

    /// The line under the pointer, if it is over the text.
    pub fn pointer_line(&self, pointer_y: i32, top_line: usize, line_count: usize) -> (out: Option<
        usize,
    >)
        requires
            line_count > 0,
        ensures
            match out {
                Some(line) => self.line_at(pointer_y as int, top_line as int, line_count as int)
                    == Some(line as int),
                None => self.line_at(pointer_y as int, top_line as int, line_count as int) is None,
            },
    {
        let top: i64 = self.content_top();
        if (pointer_y as i64) < top || pointer_y as i64 >= self.content_bottom() {
            return None;
        }
        let step: i64 = self.line_step();
        let offset: i64 = (pointer_y as i64 - top) / step;
        proof {
            lemma_quotient(pointer_y - top, step as int);
        }
        let line: usize = top_line.saturating_add(offset as usize);
        if line < line_count - 1 {
            Some(line)
        } else {
            Some(line_count - 1)
        }
    }

    /// How far right of the start of the text the pointer is.
    pub fn pointer_text_x(&self, pointer_x: i32) -> (out: i64)
        ensures
            out == at_least(0, pointer_x - self.text_left()),
    {
        let x: i64 = pointer_x as i64 - self.text_origin_x();
        if x < 0 {
            0
        } else {
            x
        }
    }

    /// What is under the pointer.
    pub fn pointer_target(
        &self,
        pointer_x: i32,
        pointer_y: i32,
        top_line: usize,
        line_count: usize,
    ) -> (out: PointerTarget)
        requires
            line_count > 0,
        ensures
            out == self.target_at(
                pointer_x as int,
                pointer_y as int,
                top_line as int,
                line_count as int,
            ),
    {
        if (pointer_y as i64) < TAB_BAR_HEIGHT {
            return PointerTarget::Tab { index: tab_at(pointer_x) };
        }
        match self.pointer_line(pointer_y, top_line, line_count) {
            Some(line) => PointerTarget::Text { line, x: self.pointer_text_x(pointer_x) },
            None => PointerTarget::Nowhere,
        }
    }

    /// The tabs that can be seen.
    pub fn tab_boxes(&self, tabs: usize) -> (out: Vec<TabBox>)
        ensures
            out@.len() == at_most(tabs as int, tabs_in(self.width as int)),
            forall|i: int|
                0 <= i < out@.len() ==> (#[trigger] out@[i]).x == tab_left(i) && out@[i].width
                    == tab_room(self.width as int, i) && out@[i].width >= 1,
    {
        let mut out: Vec<TabBox> = Vec::new();
        let width: i64 = self.width as i64;
        let mut x: i64 = 0;
        let mut index: usize = 0;
        while index < tabs && x < width
            invariant
                width == self.width,
                index <= tabs,
                x == index * TAB_WIDTH,
                index <= (self.width + TAB_WIDTH - 1) / TAB_WIDTH as int,
                out@.len() == index,
                forall|i: int|
                    0 <= i < out@.len() ==> (#[trigger] out@[i]).x == i * TAB_WIDTH && out@[i].width
                        == at_most(TAB_WIDTH as int, self.width - i * TAB_WIDTH) && out@[i].width
                        >= 1,
            decreases tabs - index,
        {
            let left: i64 = width - x;
            out.push(
                TabBox {
                    x,
                    width: if left < TAB_WIDTH {
                        left
                    } else {
                        TAB_WIDTH
                    },
                },
            );
            x = x + TAB_WIDTH;
            index += 1;
        }
        out
    }

    /// The place of the text in the status bar: its pixel row, where the right
    /// part starts, and how wide the left part may be.
    pub fn status_texts(&self, text_width: u32, text_height: u32) -> (out: (i64, i64, i64))
        ensures
            out.0 == self.status_top() + status_inset(text_height as int),
            out.1 == self.width - self.padding - text_width,
            out.2 == at_least(40, out.1 - 2 * self.padding),
    {
        let top: i64 = self.status_bar_top();
        let height: i64 = text_height as i64;
        let y: i64 = if height <= STATUS_BAR_HEIGHT {
            top + (STATUS_BAR_HEIGHT - height) / 2
        } else {
            top - (height - STATUS_BAR_HEIGHT) / 2
        };
        let right: i64 = self.width as i64 - self.padding as i64 - text_width as i64;
        let room: i64 = right - 2 * self.padding as i64;
        let left: i64 = if room < 40 {
            40
        } else {
            room
        };
        (y, right, left)
    }
}

proof fn lemma_quotient(n: int, d: int)
    requires
        n >= 0,
        d >= 1,
    ensures
        0 <= n / d <= n,
        (n / d) * d <= n,
{
    assert(0 <= n / d <= n && (n / d) * d <= n) by (nonlinear_arith)
        requires
            n >= 0,
            d >= 1,
    ;
}

/// The height of a line: the measured height of the font and some space, or a
/// guess from its size where it could not be measured.
pub fn line_height(measured: Option<u32>, font_size: u32) -> (out: u64)
    ensures
        out == match measured {
            Some(height) => height + 4,
            None => font_size + 6,
        },
{
    match measured {
        Some(height) => height as u64 + 4,
        None => font_size as u64 + 6,
    }
}

/// What is under the pointer.
#[derive(Debug, Clone, Copy, PartialEq, Eq, Structural)]
pub enum PointerTarget {
    /// A place of the tab bar; there may be no such tab.
    Tab { index: usize },
    /// A line of the text, and how far right of its start.
    Text { line: usize, x: i64 },
    /// Neither.
    Nowhere,
}

/// The first pixel column of a tab.
pub open spec fn tab_left(index: int) -> int {
    index * TAB_WIDTH
}

/// How much of a tab can be seen.
pub open spec fn tab_room(width: int, index: int) -> int {
    at_most(TAB_WIDTH as int, width - tab_left(index))
}

/// How many tabs can be seen.
pub open spec fn tabs_in(width: int) -> int {
    (width + TAB_WIDTH - 1) / TAB_WIDTH as int
}

/// The width of a rectangle between two pixel columns; it can always be seen.
pub open spec fn shown_width(from: int, to: int) -> int {
    at_least(2, to - from)
}

/// How far below the top of the status bar its text stands.
pub open spec fn status_inset(text_height: int) -> int {
    if text_height <= STATUS_BAR_HEIGHT {
        (STATUS_BAR_HEIGHT - text_height) / 2
    } else {
        -((text_height - STATUS_BAR_HEIGHT) / 2)
    }
}

/// The tab at a pixel column of the tab bar.
pub open spec fn tab_over(x: int) -> int {
    at_least(0, x) / TAB_WIDTH as int
}

/// The tab under the pointer.
pub fn tab_at(pointer_x: i32) -> (out: usize)
    ensures
        out == tab_over(pointer_x as int),
{
    let x: i64 = if pointer_x < 0 {
        0
    } else {
        pointer_x as i64
    };
    (x / TAB_WIDTH) as usize
}

/// A window of the wanted size, as far as it fits the monitor, in its middle.
pub fn centered(monitor: Frame, width: u32, height: u32) -> (out: Frame)
    requires
        -0x8000_0000 <= monitor.x <= 0x7fff_ffff,
        -0x8000_0000 <= monitor.y <= 0x7fff_ffff,
    ensures
        out.width == at_most(monitor.width as int, width as int),
        out.height == at_most(monitor.height as int, height as int),
        out.x == monitor.x + (monitor.width - out.width) / 2,
        out.y == monitor.y + (monitor.height - out.height) / 2,
        0 <= (monitor.x + monitor.width) - (out.x + out.width) - (out.x - monitor.x) <= 1,
        0 <= (monitor.y + monitor.height) - (out.y + out.height) - (out.y - monitor.y) <= 1,
        width <= monitor.width ==> out.width == width,
        height <= monitor.height ==> out.height == height,
{
    let w: u32 = if width > monitor.width {
        monitor.width
    } else {
        width
    };
    let h: u32 = if height > monitor.height {
        monitor.height
    } else {
        height
    };
    Frame {
        x: monitor.x + ((monitor.width - w) / 2) as i64,
        y: monitor.y + ((monitor.height - h) / 2) as i64,
        width: w,
        height: h,
    }
}

/// The width of the first `k` columns of a line. `widths[k - 1]` is what was
/// measured; where that failed, the width before it counts.
pub open spec fn width_to(widths: Seq<Option<i32>>, k: int) -> int
    decreases k,
{
    if k <= 0 {
        0
    } else {
        match widths[k - 1] {
            Some(w) => w as int,
            None => width_to(widths, k - 1),
        }
    }
}

/// The first column at or after `k` that reaches `x`, or one past the line.
pub open spec fn reaching(widths: Seq<Option<i32>>, x: int, k: int) -> int
    decreases widths.len() + 1 - k,
{
    if k > widths.len() || width_to(widths, k) >= x {
        k
    } else {
        reaching(widths, x, k + 1)
    }
}

/// The distance between two pixel columns.
pub open spec fn distance(a: int, b: int) -> int {
    if a < b {
        b - a
    } else {
        a - b
    }
}

/// The column nearest to `x`.
pub open spec fn nearest_column(widths: Seq<Option<i32>>, x: int) -> int {
    let k = reaching(widths, x, 1);
    if widths.len() == 0 || x <= 0 {
        0
    } else if k > widths.len() {
        widths.len() as int
    } else if distance(x, width_to(widths, k - 1)) <= distance(width_to(widths, k), x) {
        k - 1
    } else {
        k
    }
}

fn gap(a: i64, b: i64) -> (out: i64)
    requires
        -0x1_0000_0000 <= a <= 0x1_0000_0000,
        -0x1_0000_0000 <= b <= 0x1_0000_0000,
    ensures
        out == distance(a as int, b as int),
{
    if a < b {
        b - a
    } else {
        a - b
    }
}

/// The column nearest to `target_x`, given the widths of all prefixes of the
/// line.
pub fn column_from_x(widths: &Vec<Option<i32>>, target_x: i64) -> (out: usize)
    requires
        target_x <= 0x1_0000_0000,
    ensures
        out == nearest_column(widths@, target_x as int),
{
    if widths.len() == 0 || target_x <= 0 {
        return 0;
    }
    let mut prev: i64 = 0;
    let mut column: usize = 0;
    while column < widths.len()
        invariant
            0 < target_x <= 0x1_0000_0000,
            widths@.len() > 0,
            column <= widths@.len(),
            prev == width_to(widths@, column as int),
            i32::MIN <= prev <= i32::MAX,
            reaching(widths@, target_x as int, 1) == reaching(
                widths@,
                target_x as int,
                column + 1,
            ),
        decreases widths@.len() - column,
    {
        let width: i64 = match widths[column] {
            Some(w) => w as i64,
            None => prev,
        };
        assert(width == width_to(widths@, column + 1));
        if width >= target_x {
            return if gap(target_x, prev) <= gap(width, target_x) {
                column
            } else {
                column + 1
            };
        }
        prev = width;
        column += 1;
    }
    column
}

/// The columns of a line that a selection covers.
pub open spec fn covered(selection: Option<Sel>, line: int, len: int) -> Option<(int, int)> {
    match selection {
        None => None,
        Some(s) => {
            let from = if line == sel_start(s).line {
                sel_start(s).column
            } else {
                0
            };
            let to = if line == sel_end(s).line {
                sel_end(s).column
            } else {
                len
            };
            if s.anchor == s.active || line < sel_start(s).line || line > sel_end(s).line || to
                <= from {
                None
            } else {
                Some((from, to))
            }
        },
    }
}

/// The columns of a line that a selection covers.
pub fn selection_span(selection: Option<Selection>, line: usize, len: usize) -> (out: Option<
    (usize, usize),
>)
    ensures
        match out {
            Some(span) => covered(opt_sel(selection), line as int, len as int) == Some(
                (span.0 as int, span.1 as int),
            ),
            None => covered(opt_sel(selection), line as int, len as int) is None,
        },
{
    match selection {
        None => None,
        Some(sel) => {
            if sel.is_collapsed() {
                return None;
            }
            let (start, end) = sel.normalized();
            if line < start.line || line > end.line {
                return None;
            }
            let from: usize = if line == start.line {
                start.column
            } else {
                0
            };
            let to: usize = if line == end.line {
                end.column
            } else {
                len
            };
            if to <= from {
                None
            } else {
                Some((from, to))
            }
        },
    }
}

/// The width of a rectangle between two pixel columns.
pub fn span_width(x_start: i64, x_end: i64) -> (out: i64)
    requires
        -0x4000_0000_0000 <= x_start <= 0x4000_0000_0000,
        -0x4000_0000_0000 <= x_end <= 0x4000_0000_0000,
    ensures
        out == shown_width(x_start as int, x_end as int),
{
    if x_end - x_start < 2 {
        2
    } else {
        x_end - x_start
    }
}

/// The nearest column never lies outside the line.
pub proof fn law_nearest_column_is_on_the_line(widths: Seq<Option<i32>>, x: int)
    ensures
        0 <= nearest_column(widths, x) <= widths.len(),
{
    lemma_reaching(widths, x, 1);
}

proof fn lemma_reaching(widths: Seq<Option<i32>>, x: int, k: int)
    requires
        1 <= k <= widths.len() + 1,
    ensures
        k <= reaching(widths, x, k) <= widths.len() + 1,
    decreases widths.len() + 1 - k,
{
    if k <= widths.len() && width_to(widths, k) < x {
        lemma_reaching(widths, x, k + 1);
    }
}

/// The rows of text follow one another without a gap from the top of the text,
/// each is as high as a line, and as many of them are shown as fit.
pub proof fn law_rows_fill_the_text(l: Layout, row: int)
    ensures
        l.row_top(0) == 30 + l.padding,
        l.row_top(row + 1) == l.row_top(row) + l.step(),
        l.step() == l.line_height || l.line_height == 0 && l.step() == 1,
        l.row_top(l.capacity()) <= l.bottom() < l.row_top(l.capacity() + 1),
        l.height >= 59 + 2 * l.padding ==> l.bottom() == l.height - 28 - l.padding,
{
    let step = l.step();
    let room = l.bottom() - l.top();
    assert(0 * step == 0);
    assert((row + 1) * step == row * step + step) by (nonlinear_arith);
    assert((room / step) * step <= room < (room / step + 1) * step) by (nonlinear_arith)
        requires
            room >= 0,
            step >= 1,
    ;
}

/// The line under the pointer is the one whose row the pointer is in, or the
/// last line if there is no text so far down.
pub proof fn law_pointing_at_a_row(l: Layout, row: int, y: int, top_line: int, line_count: int)
    requires
        0 <= row < l.capacity(),
        l.row_top(row) <= y < l.row_top(row + 1),
        0 <= top_line < line_count,
    ensures
        top_line + row < line_count ==> l.line_at(y, top_line, line_count) == Some(top_line + row),
        top_line + row >= line_count ==> l.line_at(y, top_line, line_count) == Some(line_count - 1),
        top_line + row < line_count ==> ({
            let caret = l.caret_at(top_line + row, top_line);
            caret is Some && (caret->0).0 == l.row_top(row)
        }),
{
    let step = l.step();
    let d = y - l.top();
    law_rows_fill_the_text(l, row);
    assert((row + 1) * step <= l.capacity() * step) by (nonlinear_arith)
        requires
            row + 1 <= l.capacity(),
            step >= 1,
    ;
    assert(row * step >= 0) by (nonlinear_arith)
        requires
            row >= 0,
            step >= 1,
    ;
    assert(d / step == row) by (nonlinear_arith)
        requires
            row * step <= d < (row + 1) * step,
            step >= 1,
    ;
}

/// The pointer is over the tab whose part of the tab bar it is in, over the text
/// or over neither; no place belongs to both.
pub proof fn law_what_is_pointed_at(l: Layout, x: int, y: int, top_line: int, line_count: int)
    requires
        0 <= top_line < line_count <= usize::MAX,
        -0x8000_0000 <= x <= 0x7fff_ffff,
        -0x8000_0000 <= y <= 0x7fff_ffff,
    ensures
        ({
            let target = l.target_at(x, y, top_line, line_count);
            &&& target is Tab <==> y < 30
            &&& target is Text <==> l.top() <= y < l.bottom()
            &&& target is Tab && x >= 0 ==> 220 * target->index <= x < 220 * (target->index + 1)
            &&& target is Tab && x < 0 ==> target->index == 0
            &&& target is Text ==> l.line_at(y, top_line, line_count) == Some(target->line as int)
            &&& target is Text && x < l.text_left() ==> target->x == 0
            &&& target is Text && x >= l.text_left() ==> target->x == x - l.text_left()
            &&& l.show_line_numbers ==> l.text_left() == 64 + l.padding
            &&& !l.show_line_numbers ==> l.text_left() == l.padding
        }),
{
    if l.top() <= y < l.bottom() {
        let d = y - l.top();
        lemma_quotient(d, l.step());
    }
}

proof fn lemma_not_reached(widths: Seq<Option<i32>>, x: int, k: int, j: int)
    requires
        1 <= k <= j < reaching(widths, x, k),
    ensures
        width_to(widths, j) < x,
        j <= widths.len(),
    decreases j - k,
{
    if k <= widths.len() && width_to(widths, k) < x && k < j {
        lemma_not_reached(widths, x, k + 1, j);
    }
}

proof fn lemma_reached(widths: Seq<Option<i32>>, x: int, k: int)
    requires
        1 <= k,
        reaching(widths, x, k) <= widths.len(),
    ensures
        width_to(widths, reaching(widths, x, k)) >= x,
    decreases widths.len() + 1 - k,
{
    if k <= widths.len() && width_to(widths, k) < x {
        lemma_reached(widths, x, k + 1);
    }
}

/// Where the columns of a line go from left to right, no column is nearer to
/// the pointer than the one that is found.
pub proof fn law_the_nearest_column_is_nearest(widths: Seq<Option<i32>>, x: int, j: int)
    requires
        forall|a: int, b: int|
            0 <= a <= b <= widths.len() ==> #[trigger] width_to(widths, a) <= #[trigger] width_to(
                widths,
                b,
            ),
        x > 0,
        0 <= j <= widths.len(),
    ensures
        ({
            let found = nearest_column(widths, x);
            distance(x, width_to(widths, found)) <= distance(x, width_to(widths, j))
        }),
{
    let k = reaching(widths, x, 1);
    lemma_reaching(widths, x, 1);
    assert(width_to(widths, 0) == 0);
    if k <= widths.len() {
        lemma_reached(widths, x, 1);
    }
    if k >= 2 {
        lemma_not_reached(widths, x, 1, k - 1);
    }
    if 1 <= j < k {
        lemma_not_reached(widths, x, 1, j);
    }
    if j < k {
        assert(width_to(widths, j) <= width_to(widths, k - 1));
    } else {
        assert(width_to(widths, k) <= width_to(widths, j));
    }
}

/// A column of a line is marked exactly if the selection begins at or before
/// it and ends behind it.
pub proof fn law_marked_columns_are_selected(s: Sel, line: int, len: int, column: int)
    requires
        0 <= column < len,
        sel_start(s).column >= 0,
    ensures
        ({
            let marked = match covered(Some(s), line, len) {
                Some(span) => span.0 <= column < span.1,
                None => false,
            };
            let start = sel_start(s);
            let end = sel_end(s);
            let begun = start.line < line || start.line == line && start.column <= column;
            let ended = end.line < line || end.line == line && end.column <= column;
            marked <==> begun && !ended
        }),
        covered(None, line, len) is None,
{
}

/// The tabs stand side by side from the left edge on, the last one is cut off at
/// the right edge, and pressing a tab means that tab.
pub proof fn law_tabs_fill_the_bar(width: int, index: int, x: int)
    requires
        width > 0,
        0 <= index < tabs_in(width),
    ensures
        tab_left(0) == 0,
        tab_left(index + 1) == tab_left(index) + 220,
        1 <= tab_room(width, index) <= 220,
        index + 1 < tabs_in(width) ==> tab_room(width, index) == 220,
        index + 1 == tabs_in(width) ==> tab_left(index) + tab_room(width, index) == width,
        tab_left(index) <= x < tab_left(index) + tab_room(width, index) ==> tab_over(x) == index,
{
}

/// A marked part is as wide as its text, but never too narrow to be seen.
pub proof fn law_marks_can_be_seen(from: int, to: int)
    ensures
        shown_width(from, to) >= 2,
        to - from >= 2 ==> from + shown_width(from, to) == to,
        to - from < 2 ==> shown_width(from, to) == 2,
{
}

/// The text of the status bar stands in its middle.
pub proof fn law_the_status_is_centred(text_height: int)
    requires
        text_height >= 0,
    ensures
        ({
            let above = status_inset(text_height);
            let below = 28 - text_height - above;
            -1 <= above - below <= 1
        }),
{
}

} // verus!
