//! The grid of character cells, the cursor, the current rendition and the
//! scrollback history.
//!
//! Each operation is a spec function on `ScreenView`; the executable
//! methods of `ScreenBuffer` are proved to do exactly that.
use vstd::prelude::*;
use crate::parser::params_view;

verus! {

/// Distance between tab stops.
pub const TAB_WIDTH: usize = 8;

#[derive(Clone, Copy, Debug, PartialEq, Eq, Structural)]
pub enum Color {
    Default,
    /// An entry of the palette: 0 to 15 are the basic colours, the rest are
    /// reached by extended codes.
    Indexed(u8),
}

#[derive(Clone, Copy, Debug, PartialEq, Eq, Structural)]
pub struct Style {
    pub fg: Color,
    pub bg: Color,
    pub bold: bool,
    pub underline: bool,
    pub inverse: bool,
}

#[derive(Clone, Copy, Debug, PartialEq, Eq, Structural)]
pub struct Cell {
    pub ch: char,
    pub style: Style,
}

#[derive(Clone, Copy, Debug, PartialEq, Eq, Structural)]
pub enum ScreenError {
    /// A grid needs at least one row and one column.
    ZeroSize,
}

pub open spec fn default_style() -> Style {
    Style { fg: Color::Default, bg: Color::Default, bold: false, underline: false, inverse: false }
}

pub open spec fn blank(pen: Style) -> Cell {
    Cell { ch: ' ', style: pen }
}

pub open spec fn is_blank(c: Cell) -> bool {
    c.ch == ' '
}

pub open spec fn blank_row(cols: nat, pen: Style) -> Seq<Cell> {
    Seq::new(cols, |j: int| blank(pen))
}

/// The screen's whole state as plain values.
pub struct ScreenView {
    pub rows: nat,
    pub cols: nat,
    pub grid: Seq<Seq<Cell>>,
    pub row: nat,
    pub col: nat,
    pub pen: Style,
    pub scrollback: Seq<Seq<Cell>>,
    pub limit: nat,
}

/// Every grid position holds a cell, the cursor is on the grid, and the
/// scrollback holds no more than its limit.
pub open spec fn screen_wf(v: ScreenView) -> bool {
    &&& v.rows > 0
    &&& v.cols > 0
    &&& v.grid.len() == v.rows
    &&& forall|i: int| 0 <= i < v.rows ==> (#[trigger] v.grid[i]).len() == v.cols
    &&& v.row < v.rows
    &&& v.col < v.cols
    &&& v.scrollback.len() <= v.limit
}

/// The newest `n` entries of `s`.
pub open spec fn keep_newest<T>(s: Seq<T>, n: nat) -> Seq<T> {
    if s.len() > n {
        s.subrange(s.len() - n, s.len() as int)
    } else {
        s
    }
}

/// The top row leaves the grid for the scrollback; a blank row enters below.
pub open spec fn scroll_up(v: ScreenView) -> ScreenView {
    ScreenView {
        grid: v.grid.drop_first().push(blank_row(v.cols, v.pen)),
        scrollback: keep_newest(v.scrollback.push(v.grid[0]), v.limit),
        ..v
    }
}

pub open spec fn line_feed(v: ScreenView) -> ScreenView {
    if v.row + 1 < v.rows {
        ScreenView { row: v.row + 1, ..v }
    } else {
        scroll_up(v)
    }
}

pub open spec fn put(g: Seq<Seq<Cell>>, r: nat, c: nat, x: Cell) -> Seq<Seq<Cell>> {
    g.update(r as int, g[r as int].update(c as int, x))
}

/// Writes `ch` at the cursor with the current rendition, then advances,
/// wrapping to the next line at the right edge.
pub open spec fn print(v: ScreenView, ch: char) -> ScreenView {
    let w = ScreenView { grid: put(v.grid, v.row, v.col, Cell { ch, style: v.pen }), ..v };
    if v.col + 1 < v.cols {
        ScreenView { col: v.col + 1, ..w }
    } else {
        line_feed(ScreenView { col: 0, ..w })
    }
}

pub open spec fn carriage_return(v: ScreenView) -> ScreenView {
    ScreenView { col: 0, ..v }
}

pub open spec fn backspace(v: ScreenView) -> ScreenView {
    ScreenView { col: if v.col > 0 { (v.col - 1) as nat } else { 0 }, ..v }
}

pub open spec fn next_tab_stop(col: nat, cols: nat) -> nat {
    let t = (col / TAB_WIDTH as nat + 1) * TAB_WIDTH as nat;
    if t < cols {
        t
    } else {
        (cols - 1) as nat
    }
}

pub open spec fn tab(v: ScreenView) -> ScreenView {
    ScreenView { col: next_tab_stop(v.col, v.cols), ..v }
}

/// `(r, c)` lies in the span from `(r0, c0)` inclusive to `(r1, c1)`
/// exclusive, in reading order.
pub open spec fn in_span(r: int, c: int, r0: int, c0: int, r1: int, c1: int) -> bool {
    &&& (r > r0 || (r == r0 && c >= c0))
    &&& (r < r1 || (r == r1 && c < c1))
}

/// Blanks, with the current rendition, every cell of a span.
pub open spec fn erase_span(v: ScreenView, r0: int, c0: int, r1: int, c1: int) -> ScreenView {
    ScreenView {
        grid: Seq::new(
            v.rows,
            |r: int|
                Seq::new(
                    v.cols,
                    |c: int|
                        if in_span(r, c, r0, c0, r1, c1) {
                            blank(v.pen)
                        } else {
                            v.grid[r][c]
                        },
                ),
        ),
        ..v
    }
}

/// Mode 0 erases from the cursor to the end of the screen, 1 from the start
/// to the cursor, 2 all of it; other modes change nothing.
pub open spec fn erase_display(v: ScreenView, mode: u16) -> ScreenView {
    if mode == 0 {
        erase_span(v, v.row as int, v.col as int, v.rows as int, 0)
    } else if mode == 1 {
        erase_span(v, 0, 0, v.row as int, v.col + 1 as int)
    } else if mode == 2 {
        erase_span(v, 0, 0, v.rows as int, 0)
    } else {
        v
    }
}

/// The three modes of `erase_display`, on the cursor's row alone.
pub open spec fn erase_line(v: ScreenView, mode: u16) -> ScreenView {
    if mode == 0 {
        erase_span(v, v.row as int, v.col as int, v.row + 1 as int, 0)
    } else if mode == 1 {
        erase_span(v, v.row as int, 0, v.row as int, v.col + 1 as int)
    } else if mode == 2 {
        erase_span(v, v.row as int, 0, v.row + 1 as int, 0)
    } else {
        v
    }
}

/// One rendition code applied to a style; unknown codes leave it as it is.
pub open spec fn sgr_code(s: Style, p: u16) -> Style {
    if p == 0 {
        default_style()
    } else if p == 1 {
        Style { bold: true, ..s }
    } else if p == 4 {
        Style { underline: true, ..s }
    } else if p == 7 {
        Style { inverse: true, ..s }
    } else if p == 22 {
        Style { bold: false, ..s }
    } else if p == 24 {
        Style { underline: false, ..s }
    } else if p == 27 {
        Style { inverse: false, ..s }
    } else if 30 <= p && p <= 37 {
        Style { fg: Color::Indexed((p - 30) as u8), ..s }
    } else if p == 39 {
        Style { fg: Color::Default, ..s }
    } else if 40 <= p && p <= 47 {
        Style { bg: Color::Indexed((p - 40) as u8), ..s }
    } else if p == 49 {
        Style { bg: Color::Default, ..s }
    } else if 90 <= p && p <= 97 {
        Style { fg: Color::Indexed((p - 82) as u8), ..s }
    } else if 100 <= p && p <= 107 {
        Style { bg: Color::Indexed((p - 92) as u8), ..s }
    } else {
        s
    }
}

/// Whether `p` introduces an extended colour (foreground or background).
pub open spec fn is_extended(p: u16) -> bool {
    p == 38 || p == 48
}

pub open spec fn set_extended(s: Style, which: u16, c: Color) -> Style {
    if which == 38 {
        Style { fg: c, ..s }
    } else {
        Style { bg: c, ..s }
    }
}

/// One parameter applied to a style. `38:5:n` and `48:5:n` pick entry `n`
/// of the palette from the parameter's own sub-parameters; any other form
/// of 38 or 48 (a direct colour, or one cut short) changes nothing; other
/// codes act by their value alone.
pub open spec fn sgr_param(s: Style, p: Seq<u16>) -> Style {
    if p.len() == 0 {
        s
    } else if is_extended(p[0]) {
        if p.len() >= 3 && p[1] == 5 && p[2] <= 255 {
            set_extended(s, p[0], Color::Indexed(p[2] as u8))
        } else {
            s
        }
    } else {
        sgr_code(s, p[0])
    }
}

/// The parameters applied one after another, left to right.
pub open spec fn sgr_params(s: Style, ps: Seq<Seq<u16>>) -> Style
    decreases ps.len(),
{
    if ps.len() == 0 {
        s
    } else {
        sgr_param(sgr_params(s, ps.drop_last()), ps.last())
    }
}

/// An empty list means a reset, as a lone `0` does.
pub open spec fn set_graphic_rendition(v: ScreenView, ps: Seq<Seq<u16>>) -> ScreenView {
    ScreenView { pen: if ps.len() == 0 { default_style() } else { sgr_params(v.pen, ps) }, ..v }
}

/// A 1-based coordinate (0 counts as 1) as a 0-based one below `n`.
pub open spec fn clamp_pos(p: u16, n: nat) -> nat {
    let q: nat = if p == 0 { 0 } else { (p - 1) as nat };
    if q < n {
        q
    } else {
        (n - 1) as nat
    }
}

pub open spec fn set_cursor_position(v: ScreenView, row: u16, col: u16) -> ScreenView {
    ScreenView { row: clamp_pos(row, v.rows), col: clamp_pos(col, v.cols), ..v }
}

/// A count of a relative move: 0 counts as 1.
pub open spec fn count(n: u16) -> nat {
    if n == 0 {
        1
    } else {
        n as nat
    }
}

pub open spec fn toward_zero(x: nat, n: u16) -> nat {
    if x >= count(n) {
        (x - count(n)) as nat
    } else {
        0
    }
}

pub open spec fn toward_end(x: nat, n: u16, len: nat) -> nat {
    if x + count(n) < len {
        x + count(n)
    } else {
        (len - 1) as nat
    }
}

pub open spec fn cursor_up(v: ScreenView, n: u16) -> ScreenView {
    ScreenView { row: toward_zero(v.row, n), ..v }
}

pub open spec fn cursor_down(v: ScreenView, n: u16) -> ScreenView {
    ScreenView { row: toward_end(v.row, n, v.rows), ..v }
}

pub open spec fn cursor_forward(v: ScreenView, n: u16) -> ScreenView {
    ScreenView { col: toward_end(v.col, n, v.cols), ..v }
}

pub open spec fn cursor_back(v: ScreenView, n: u16) -> ScreenView {
    ScreenView { col: toward_zero(v.col, n), ..v }
}

/// A new grid of `rows` by `cols`, keeping the top-left part of the old
/// one that fits and filling the rest with default blanks.
pub open spec fn resize(v: ScreenView, rows: nat, cols: nat) -> ScreenView {
    ScreenView {
        rows,
        cols,
        grid: Seq::new(
            rows,
            |r: int|
                Seq::new(
                    cols,
                    |c: int|
                        if r < v.rows && c < v.cols {
                            v.grid[r][c]
                        } else {
                            blank(default_style())
                        },
                ),
        ),
        row: if v.row < rows { v.row } else { (rows - 1) as nat },
        col: if v.col < cols { v.col } else { (cols - 1) as nat },
        ..v
    }
}

pub open spec fn initial(rows: nat, cols: nat, limit: nat) -> ScreenView {
    ScreenView {
        rows,
        cols,
        grid: Seq::new(rows, |r: int| blank_row(cols, default_style())),
        row: 0,
        col: 0,
        pen: default_style(),
        scrollback: Seq::empty(),
        limit,
    }
}

proof fn lemma_scroll_up_wf(v: ScreenView)
    requires
        screen_wf(v),
    ensures
        screen_wf(scroll_up(v)),
{
    let w = scroll_up(v);
    assert forall|i: int| 0 <= i < w.rows implies (#[trigger] w.grid[i]).len() == w.cols by {
        if i + 1 < v.rows {
            assert(w.grid[i] == v.grid[i + 1]);
        }
    }
}

proof fn lemma_line_feed_wf(v: ScreenView)
    requires
        screen_wf(v),
    ensures
        screen_wf(line_feed(v)),
{
    if v.row + 1 >= v.rows {
        lemma_scroll_up_wf(v);
    }
}

/// Printing a character keeps the screen well formed; in particular the
/// cursor stays within the grid.
pub proof fn lemma_print_keeps_cursor_on_grid(v: ScreenView, ch: char)
    requires
        screen_wf(v),
    ensures
        screen_wf(print(v, ch)),
        print(v, ch).row < print(v, ch).rows,
        print(v, ch).col < print(v, ch).cols,
        print(v, ch).rows == v.rows,
        print(v, ch).cols == v.cols,
{
    let w = ScreenView { grid: put(v.grid, v.row, v.col, Cell { ch, style: v.pen }), ..v };
    assert forall|i: int| 0 <= i < w.rows implies (#[trigger] w.grid[i]).len() == w.cols by {
        if i != v.row {
            assert(w.grid[i] == v.grid[i]);
        }
    }
    if v.col + 1 >= v.cols {
        lemma_line_feed_wf(ScreenView { col: 0, ..w });
    }
}

/// After the whole display is erased, printing a visible character leaves
/// exactly one non-blank cell, at the cursor's position before the erase,
/// unless the cursor was in the bottom-right corner, where the print
/// scrolls the grid.
pub proof fn lemma_erase_then_print(v: ScreenView, ch: char)
    requires
        screen_wf(v),
        ch != ' ',
        !(v.row + 1 == v.rows && v.col + 1 == v.cols),
    ensures
        ({
            let w = print(erase_display(v, 2), ch);
            forall|i: int, j: int|
                0 <= i < w.rows && 0 <= j < w.cols ==> (!is_blank(#[trigger] w.grid[i][j]) <==> (i
                    == v.row && j == v.col))
        }),
{
    let e = erase_display(v, 2);
    let w = print(e, ch);
    assert forall|i: int, j: int|
        0 <= i < w.rows && 0 <= j < w.cols implies (!is_blank(#[trigger] w.grid[i][j]) <==> (i
        == v.row && j == v.col)) by {
        assert(e.grid[i][j] == blank(v.pen));
    }
}

/// A tab moves only the cursor, and only along its row: to the next multiple
/// of the tab width, or to the last column where that lies beyond the grid.
/// No cell changes.
pub proof fn lemma_tab_moves_only_cursor(v: ScreenView)
    requires
        screen_wf(v),
    ensures
        tab(v).grid == v.grid,
        tab(v).row == v.row,
        tab(v).scrollback == v.scrollback,
        tab(v).pen == v.pen,
        tab(v).col < v.cols,
        tab(v).col == v.cols - 1 || (tab(v).col > v.col && tab(v).col % 8 == 0 && tab(v).col - v.col <= 8),
{
}

/// `n` scrolls of the grid, one after another.
pub open spec fn scroll_times(v: ScreenView, n: nat) -> ScreenView
    decreases n,
{
    if n == 0 {
        v
    } else {
        scroll_up(scroll_times(v, (n - 1) as nat))
    }
}

/// The rows that `n` scrolls push off the top, oldest first.
pub open spec fn scrolled_off(v: ScreenView, n: nat) -> Seq<Seq<Cell>>
    decreases n,
{
    if n == 0 {
        Seq::empty()
    } else {
        scrolled_off(v, (n - 1) as nat).push(scroll_times(v, (n - 1) as nat).grid[0])
    }
}

proof fn lemma_keep_newest_push<T>(s: Seq<T>, x: T, n: nat)
    ensures
        keep_newest(keep_newest(s, n).push(x), n) == keep_newest(s.push(x), n),
{
    assert(keep_newest(keep_newest(s, n).push(x), n) =~= keep_newest(s.push(x), n));
}

/// However many rows scroll off the top, the scrollback keeps at most its
/// limit of rows: the newest ones, in order, the oldest being discarded
/// first.
pub proof fn lemma_scrollback_capped(v: ScreenView, n: nat)
    requires
        screen_wf(v),
    ensures
        screen_wf(scroll_times(v, n)),
        scroll_times(v, n).limit == v.limit,
        scroll_times(v, n).scrollback.len() <= v.limit,
        scroll_times(v, n).scrollback == keep_newest(v.scrollback + scrolled_off(v, n), v.limit),
    decreases n,
{
    if n == 0 {
        assert(v.scrollback + Seq::<Seq<Cell>>::empty() =~= v.scrollback);
    } else {
        let m = (n - 1) as nat;
        lemma_scrollback_capped(v, m);
        let p = scroll_times(v, m);
        lemma_scroll_up_wf(p);
        let all = v.scrollback + scrolled_off(v, m);
        lemma_keep_newest_push(all, p.grid[0], v.limit);
        assert(all.push(p.grid[0]) =~= v.scrollback + scrolled_off(v, n));
    }
}

pub open spec fn grid_view(g: Seq<Vec<Cell>>) -> Seq<Seq<Cell>> {
    g.map_values(|r: Vec<Cell>| r@)
}

proof fn lemma_grid_view_push(g: Seq<Vec<Cell>>, x: Vec<Cell>)
    ensures
        grid_view(g.push(x)) == grid_view(g).push(x@),
{
    assert(grid_view(g.push(x)) =~= grid_view(g).push(x@));
}

pub struct ScreenBuffer {
    rows: usize,
    cols: usize,
    grid: Vec<Vec<Cell>>,
    row: usize,
    col: usize,
    pen: Style,
    scrollback: Vec<Vec<Cell>>,
    limit: usize,
}

impl View for ScreenBuffer {
    type V = ScreenView;

    closed spec fn view(&self) -> ScreenView {
        ScreenView {
            rows: self.rows as nat,
            cols: self.cols as nat,
            grid: grid_view(self.grid@),
            row: self.row as nat,
            col: self.col as nat,
            pen: self.pen,
            scrollback: grid_view(self.scrollback@),
            limit: self.limit as nat,
        }
    }
}

fn default_pen() -> (r: Style)
    ensures
        r == default_style(),
{
    Style { fg: Color::Default, bg: Color::Default, bold: false, underline: false, inverse: false }
}

fn make_blank_row(cols: usize, pen: Style) -> (r: Vec<Cell>)
    ensures
        r@ == blank_row(cols as nat, pen),
{
    let mut r: Vec<Cell> = Vec::new();
    let mut j: usize = 0;
    while j < cols
        invariant
            j <= cols,
            r@ =~= Seq::new(j as nat, |k: int| blank(pen)),
        decreases cols - j,
    {
        r.push(Cell { ch: ' ', style: pen });
        j = j + 1;
    }
    r
}

fn in_span_exec(r: usize, c: usize, r0: usize, c0: usize, r1: usize, c1: usize) -> (b: bool)
    ensures
        b == in_span(r as int, c as int, r0 as int, c0 as int, r1 as int, c1 as int),
{
    (r > r0 || (r == r0 && c >= c0)) && (r < r1 || (r == r1 && c < c1))
}

impl ScreenBuffer {
    pub open spec fn wf(&self) -> bool {
        screen_wf(self@)
    }

    /// A blank grid with the cursor at the top left; a zero dimension is
    /// refused.
    pub fn new(rows: usize, cols: usize, scrollback_limit: usize) -> (r: Result<
        ScreenBuffer,
        ScreenError,
    >)
        ensures
            r is Ok <==> rows > 0 && cols > 0,
            r matches Ok(s) ==> s.wf() && s@ == initial(
                rows as nat,
                cols as nat,
                scrollback_limit as nat,
            ),
    {
        if rows == 0 || cols == 0 {
            return Err(ScreenError::ZeroSize);
        }
        let pen = default_pen();
        let mut grid: Vec<Vec<Cell>> = Vec::new();
        let mut i: usize = 0;
        while i < rows
            invariant
                i <= rows,
                grid_view(grid@) =~= Seq::new(i as nat, |k: int| blank_row(cols as nat, pen)),
                pen == default_style(),
            decreases rows - i,
        {
            let row = make_blank_row(cols, pen);
            proof {
                lemma_grid_view_push(grid@, row);
            }
            grid.push(row);
            i = i + 1;
        }
        let s = ScreenBuffer {
            rows,
            cols,
            grid,
            row: 0,
            col: 0,
            pen,
            scrollback: Vec::new(),
            limit: scrollback_limit,
        };
        assert(s@.scrollback =~= Seq::<Seq<Cell>>::empty());
        assert(s@ == initial(rows as nat, cols as nat, scrollback_limit as nat));
        Ok(s)
    }

    pub fn rows(&self) -> (r: usize)
        ensures
            r == self@.rows,
    {
        self.rows
    }

    pub fn cols(&self) -> (r: usize)
        ensures
            r == self@.cols,
    {
        self.cols
    }

    /// The cursor as (row, column), both from 0.
    pub fn cursor(&self) -> (r: (usize, usize))
        ensures
            r.0 == self@.row,
            r.1 == self@.col,
    {
        (self.row, self.col)
    }

    /// The rendition applied to the next printed character.
    pub fn pen(&self) -> (r: Style)
        ensures
            r == self@.pen,
    {
        self.pen
    }

    pub fn cell(&self, row: usize, col: usize) -> (r: Cell)
        requires
            self.wf(),
            row < self@.rows,
            col < self@.cols,
        ensures
            r == self@.grid[row as int][col as int],
    {
        self.grid[row][col]
    }

    pub fn scrollback_len(&self) -> (r: usize)
        ensures
            r == self@.scrollback.len(),
    {
        self.scrollback.len()
    }

    /// A row of history, 0 being the oldest kept.
    pub fn scrollback_row(&self, i: usize) -> (r: Vec<Cell>)
        requires
            i < self@.scrollback.len(),
        ensures
            r@ == self@.scrollback[i as int],
    {
        let src = &self.scrollback[i];
        let mut r: Vec<Cell> = Vec::new();
        let mut j: usize = 0;
        while j < src.len()
            invariant
                j <= src@.len(),
                r@ =~= src@.subrange(0, j as int),
            decreases src@.len() - j,
        {
            r.push(src[j]);
            j = j + 1;
        }
        r
    }

    /// The visible rows, top to bottom.
    pub fn snapshot(&self) -> (r: Vec<Vec<Cell>>)
        requires
            self.wf(),
        ensures
            grid_view(r@) == self@.grid,
    {
        let mut out: Vec<Vec<Cell>> = Vec::new();
        let mut i: usize = 0;
        while i < self.rows
            invariant
                self.wf(),
                i <= self.rows,
                grid_view(out@) =~= self@.grid.subrange(0, i as int),
            decreases self.rows - i,
        {
            let src = &self.grid[i];
            let mut r: Vec<Cell> = Vec::new();
            let mut j: usize = 0;
            while j < src.len()
                invariant
                    j <= src@.len(),
                    r@ =~= src@.subrange(0, j as int),
                decreases src@.len() - j,
            {
                r.push(src[j]);
                j = j + 1;
            }
            assert(r@ =~= src@);
            proof {
                lemma_grid_view_push(out@, r);
            }
            out.push(r);
            i = i + 1;
        }
        assert(grid_view(out@) =~= self@.grid);
        out
    }

    fn set_cell(&mut self, r: usize, c: usize, x: Cell)
        requires
            old(self).wf(),
            r < old(self)@.rows,
            c < old(self)@.cols,
        ensures
            final(self)@ == (ScreenView { grid: put(old(self)@.grid, r as nat, c as nat, x), ..old(self)@ }),
            final(self).wf(),
    {
        let mut line = self.grid.remove(r);
        line.set(c, x);
        self.grid.insert(r, line);
        assert(grid_view(self.grid@) =~= put(old(self)@.grid, r as nat, c as nat, x));
    }

    fn scroll_up(&mut self)
        requires
            old(self).wf(),
        ensures
            final(self)@ == scroll_up(old(self)@),
            final(self).wf(),
    {
        let top = self.grid.remove(0);
        let fresh = make_blank_row(self.cols, self.pen);
        self.grid.push(fresh);
        let ghost sb = old(self)@.scrollback.push(top@);
        if self.limit > 0 {
            self.scrollback.push(top);
            if self.scrollback.len() > self.limit {
                self.scrollback.remove(0);
            }
        }
        assert(grid_view(self.grid@) =~= old(self)@.grid.drop_first().push(
            blank_row(old(self)@.cols, old(self)@.pen),
        ));
        assert(grid_view(self.scrollback@) =~= keep_newest(sb, old(self)@.limit));
    }

    pub fn line_feed(&mut self)
        requires
            old(self).wf(),
        ensures
            final(self)@ == line_feed(old(self)@),
            final(self).wf(),
    {
        if self.row + 1 < self.rows {
            self.row = self.row + 1;
        } else {
            self.scroll_up();
        }
    }

    pub fn print(&mut self, ch: char)
        requires
            old(self).wf(),
        ensures
            final(self)@ == print(old(self)@, ch),
            final(self).wf(),
    {
        let cell = Cell { ch, style: self.pen };
        self.set_cell(self.row, self.col, cell);
        if self.col + 1 < self.cols {
            self.col = self.col + 1;
        } else {
            self.col = 0;
            self.line_feed();
        }
    }

    pub fn carriage_return(&mut self)
        requires
            old(self).wf(),
        ensures
            final(self)@ == carriage_return(old(self)@),
            final(self).wf(),
    {
        self.col = 0;
    }

    pub fn backspace(&mut self)
        requires
            old(self).wf(),
        ensures
            final(self)@ == backspace(old(self)@),
            final(self).wf(),
    {
        if self.col > 0 {
            self.col = self.col - 1;
        }
    }

    pub fn tab(&mut self)
        requires
            old(self).wf(),
        ensures
            final(self)@ == tab(old(self)@),
            final(self).wf(),
    {
        let base = self.col / TAB_WIDTH * TAB_WIDTH;
        assert(base <= self.col) by (nonlinear_arith)
            requires base == self.col / 8 * 8;
        if self.cols - base > TAB_WIDTH {
            self.col = base + TAB_WIDTH;
        } else {
            self.col = self.cols - 1;
        }
    }

    fn erase_span(&mut self, r0: usize, c0: usize, r1: usize, c1: usize)
        requires
            old(self).wf(),
        ensures
            final(self)@ == erase_span(old(self)@, r0 as int, c0 as int, r1 as int, c1 as int),
            final(self).wf(),
    {
        let ghost want = erase_span(old(self)@, r0 as int, c0 as int, r1 as int, c1 as int).grid;
        let mut grid: Vec<Vec<Cell>> = Vec::new();
        let mut r: usize = 0;
        while r < self.rows
            invariant
                self == old(self),
                self.wf(),
                r <= self.rows,
                want.len() == self.rows,
                forall|i: int| 0 <= i < self.rows ==> (#[trigger] want[i]).len() == self.cols,
                forall|i: int, j: int|
                    0 <= i < self.rows && 0 <= j < self.cols ==> #[trigger] want[i][j] == (if in_span(
                        i,
                        j,
                        r0 as int,
                        c0 as int,
                        r1 as int,
                        c1 as int,
                    ) {
                        blank(self.pen)
                    } else {
                        self@.grid[i][j]
                    }),
                grid_view(grid@) =~= want.subrange(0, r as int),
            decreases self.rows - r,
        {
            let mut line: Vec<Cell> = Vec::new();
            let mut c: usize = 0;
            while c < self.cols
                invariant
                    self == old(self),
                    self.wf(),
                    r < self.rows,
                    c <= self.cols,
                    want.len() == self.rows,
                    forall|i: int| 0 <= i < self.rows ==> (#[trigger] want[i]).len() == self.cols,
                    forall|i: int, j: int|
                        0 <= i < self.rows && 0 <= j < self.cols ==> #[trigger] want[i][j] == (if in_span(
                            i,
                            j,
                            r0 as int,
                            c0 as int,
                            r1 as int,
                            c1 as int,
                        ) {
                            blank(self.pen)
                        } else {
                            self@.grid[i][j]
                        }),
                    line@ =~= want[r as int].subrange(0, c as int),
                decreases self.cols - c,
            {
                assert(self@.grid[r as int].len() == self.cols);
                if in_span_exec(r, c, r0, c0, r1, c1) {
                    line.push(Cell { ch: ' ', style: self.pen });
                } else {
                    line.push(self.grid[r][c]);
                }
                c = c + 1;
            }
            assert(line@ =~= want[r as int]);
            proof {
                lemma_grid_view_push(grid@, line);
            }
            grid.push(line);
            r = r + 1;
        }
        self.grid = grid;
        assert(grid_view(self.grid@) =~= want);
    }

    pub fn erase_display(&mut self, mode: u16)
        requires
            old(self).wf(),
        ensures
            final(self)@ == erase_display(old(self)@, mode),
            final(self).wf(),
    {
        if mode == 0 {
            self.erase_span(self.row, self.col, self.rows, 0);
        } else if mode == 1 {
            self.erase_span(0, 0, self.row, self.col + 1);
        } else if mode == 2 {
            self.erase_span(0, 0, self.rows, 0);
        }
    }

    pub fn erase_line(&mut self, mode: u16)
        requires
            old(self).wf(),
        ensures
            final(self)@ == erase_line(old(self)@, mode),
            final(self).wf(),
    {
        if mode == 0 {
            self.erase_span(self.row, self.col, self.row + 1, 0);
        } else if mode == 1 {
            self.erase_span(self.row, 0, self.row, self.col + 1);
        } else if mode == 2 {
            self.erase_span(self.row, 0, self.row + 1, 0);
        }
    }

    pub fn set_graphic_rendition(&mut self, params: &Vec<Vec<u16>>)
        requires
            old(self).wf(),
        ensures
            final(self)@ == set_graphic_rendition(old(self)@, params_view(params@)),
            final(self).wf(),
    {
        if params.len() == 0 {
            self.pen = default_pen();
            return;
        }
        let ghost ps = params_view(params@);
        let mut i: usize = 0;
        let mut s = self.pen;
        while i < params.len()
            invariant
                i <= params@.len(),
                ps == params_view(params@),
                s == sgr_params(old(self)@.pen, ps.subrange(0, i as int)),
            decreases params@.len() - i,
        {
            assert(ps.subrange(0, i + 1).drop_last() =~= ps.subrange(0, i as int));
            s = sgr_param_exec(s, &params[i]);
            i = i + 1;
        }
        assert(ps.subrange(0, i as int) =~= ps);
        self.pen = s;
    }

    pub fn set_cursor_position(&mut self, row: u16, col: u16)
        requires
            old(self).wf(),
        ensures
            final(self)@ == set_cursor_position(old(self)@, row, col),
            final(self).wf(),
    {
        self.row = clamp_pos_exec(row, self.rows);
        self.col = clamp_pos_exec(col, self.cols);
    }

    pub fn cursor_up(&mut self, n: u16)
        requires
            old(self).wf(),
        ensures
            final(self)@ == cursor_up(old(self)@, n),
            final(self).wf(),
    {
        self.row = toward_zero_exec(self.row, n);
    }

    pub fn cursor_down(&mut self, n: u16)
        requires
            old(self).wf(),
        ensures
            final(self)@ == cursor_down(old(self)@, n),
            final(self).wf(),
    {
        self.row = toward_end_exec(self.row, n, self.rows);
    }

    pub fn cursor_forward(&mut self, n: u16)
        requires
            old(self).wf(),
        ensures
            final(self)@ == cursor_forward(old(self)@, n),
            final(self).wf(),
    {
        self.col = toward_end_exec(self.col, n, self.cols);
    }

    pub fn cursor_back(&mut self, n: u16)
        requires
            old(self).wf(),
        ensures
            final(self)@ == cursor_back(old(self)@, n),
            final(self).wf(),
    {
        self.col = toward_zero_exec(self.col, n);
    }

    /// Changes the grid's size; a zero dimension is refused and changes
    /// nothing.
    pub fn resize(&mut self, rows: usize, cols: usize) -> (r: Result<(), ScreenError>)
        requires
            old(self).wf(),
        ensures
            r is Ok <==> rows > 0 && cols > 0,
            r is Ok ==> final(self)@ == resize(old(self)@, rows as nat, cols as nat),
            r is Err ==> final(self)@ == old(self)@,
            final(self).wf(),
    {
        if rows == 0 || cols == 0 {
            return Err(ScreenError::ZeroSize);
        }
        let ghost want = resize(old(self)@, rows as nat, cols as nat).grid;
        let blank_default = Cell { ch: ' ', style: default_pen() };
        let mut grid: Vec<Vec<Cell>> = Vec::new();
        let mut r: usize = 0;
        while r < rows
            invariant
                self == old(self),
                self.wf(),
                r <= rows,
                blank_default == blank(default_style()),
                want.len() == rows,
                forall|i: int| 0 <= i < rows ==> (#[trigger] want[i]).len() == cols,
                forall|i: int, j: int|
                    0 <= i < rows && 0 <= j < cols ==> #[trigger] want[i][j] == (if i < self.rows && j
                        < self.cols {
                        self@.grid[i][j]
                    } else {
                        blank(default_style())
                    }),
                grid_view(grid@) =~= want.subrange(0, r as int),
            decreases rows - r,
        {
            let mut line: Vec<Cell> = Vec::new();
            let mut c: usize = 0;
            while c < cols
                invariant
                    self == old(self),
                    self.wf(),
                    r < rows,
                    c <= cols,
                    blank_default == blank(default_style()),
                    want.len() == rows,
                    forall|i: int| 0 <= i < rows ==> (#[trigger] want[i]).len() == cols,
                    forall|i: int, j: int|
                        0 <= i < rows && 0 <= j < cols ==> #[trigger] want[i][j] == (if i < self.rows && j
                            < self.cols {
                            self@.grid[i][j]
                        } else {
                            blank(default_style())
                        }),
                    line@ =~= want[r as int].subrange(0, c as int),
                decreases cols - c,
            {
                if r < self.rows && c < self.cols {
                    assert(self@.grid[r as int].len() == self.cols);
                    line.push(self.grid[r][c]);
                } else {
                    line.push(blank_default);
                }
                c = c + 1;
            }
            assert(line@ =~= want[r as int]);
            proof {
                lemma_grid_view_push(grid@, line);
            }
            grid.push(line);
            r = r + 1;
        }
        assert(grid_view(grid@) =~= want);
        self.grid = grid;
        self.rows = rows;
        self.cols = cols;
        if self.row >= rows {
            self.row = rows - 1;
        }
        if self.col >= cols {
            self.col = cols - 1;
        }
        Ok(())
    }
}

fn sgr_param_exec(s: Style, p: &Vec<u16>) -> (r: Style)
    ensures
        r == sgr_param(s, p@),
{
    if p.len() == 0 {
        s
    } else if p[0] == 38 || p[0] == 48 {
        if p.len() >= 3 && p[1] == 5 && p[2] <= 255 {
            let c = Color::Indexed(p[2] as u8);
            if p[0] == 38 {
                Style { fg: c, ..s }
            } else {
                Style { bg: c, ..s }
            }
        } else {
            s
        }
    } else {
        sgr_code_exec(s, p[0])
    }
}

fn sgr_code_exec(s: Style, p: u16) -> (r: Style)
    ensures
        r == sgr_code(s, p),
{
    if p == 0 {
        default_pen()
    } else if p == 1 {
        Style { bold: true, ..s }
    } else if p == 4 {
        Style { underline: true, ..s }
    } else if p == 7 {
        Style { inverse: true, ..s }
    } else if p == 22 {
        Style { bold: false, ..s }
    } else if p == 24 {
        Style { underline: false, ..s }
    } else if p == 27 {
        Style { inverse: false, ..s }
    } else if 30 <= p && p <= 37 {
        Style { fg: Color::Indexed((p - 30) as u8), ..s }
    } else if p == 39 {
        Style { fg: Color::Default, ..s }
    } else if 40 <= p && p <= 47 {
        Style { bg: Color::Indexed((p - 40) as u8), ..s }
    } else if p == 49 {
        Style { bg: Color::Default, ..s }
    } else if 90 <= p && p <= 97 {
        Style { fg: Color::Indexed((p - 82) as u8), ..s }
    } else if 100 <= p && p <= 107 {
        Style { bg: Color::Indexed((p - 92) as u8), ..s }
    } else {
        s
    }
}

fn clamp_pos_exec(p: u16, n: usize) -> (r: usize)
    requires
        n > 0,
    ensures
        r == clamp_pos(p, n as nat),
{
    let q: usize = if p == 0 { 0 } else { (p - 1) as usize };
    if q < n { q } else { n - 1 }
}

fn toward_zero_exec(x: usize, n: u16) -> (r: usize)
    ensures
        r == toward_zero(x as nat, n),
{
    let k: usize = if n == 0 { 1 } else { n as usize };
    if x >= k { x - k } else { 0 }
}

fn toward_end_exec(x: usize, n: u16, len: usize) -> (r: usize)
    requires
        x < len,
    ensures
        r == toward_end(x as nat, n, len as nat),
{
    let k: usize = if n == 0 { 1 } else { n as usize };
    if len - x > k { x + k } else { len - 1 }
}

} // verus!
