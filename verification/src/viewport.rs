use vstd::prelude::*;
use vstd::std_specs::iter::IteratorSpec;
use crate::blend::{blend_weight, lemma_parameter_saturates, spec_blend_weight, MAX_WEIGHT};
use crate::color::{ink, parchment, shadow, spec_ink, spec_parchment, spec_shadow, Background, Cell};
use crate::geom::Point;
use crate::layout::{
    first_line, lemma_empty_document_chars, spec_grid_chars, spec_skip, spec_text, wrap_lines,
    BLANK,
};

verus! {

/// What the pager's user can do, as decoded from keyboard and mouse.
#[derive(Clone, Copy, Debug, PartialEq, Eq, Structural)]
pub enum Input {
    /// The space key.
    Space,
    Up,
    Down,
    PageUp,
    PageDown,
    /// Any mouse event at cell `at`; `wheel` is the vertical direction of a
    /// scroll-wheel event and `None` for every other mouse event.
    Mouse { at: Point, wheel: Option<i32> },
    Quit,
    /// Anything else.
    Other,
}

/// What the event loop does after an input.
#[derive(Clone, Copy, Debug, PartialEq, Eq, Structural)]
pub enum Action {
    Repaint,
    Quit,
    Ignore,
}

/// One scroll request of any magnitude.
pub enum Scroll {
    Up(nat),
    Down(nat),
}

/// The lines scrolled by one notch of the wheel.
pub const WHEEL_STEP: usize = 3;

/// The pager's state as plain mathematical values.
pub struct AppView {
    pub lines: Seq<Seq<char>>,
    pub pos: nat,
    pub enabled: bool,
    pub pointer: Point,
}

/// The text of a document held as strings.
pub open spec fn spec_strings(lines: Seq<String>) -> Seq<Seq<char>> {
    Seq::new(lines.len(), |i: int| lines[i]@)
}

/// The coordinate of the `i`-th cell, row-major, of a grid `w` wide.
pub open spec fn spec_cell_point(i: int, w: u16) -> Point {
    Point { x: (i % (w as int)) as u16, y: (i / (w as int)) as u16 }
}

impl AppView {
    /// The scroll position lies within the document.
    pub open spec fn wf(self) -> bool {
        self.pos <= self.lines.len()
    }

    /// The state a pager starts in: scrolled to the end, spotlight off,
    /// pointer at the origin.
    pub open spec fn start(lines: Seq<Seq<char>>) -> AppView {
        AppView { lines, pos: lines.len(), enabled: false, pointer: Point::spec_origin() }
    }

    pub open spec fn scroll_up(self, delta: nat) -> AppView {
        AppView {
            pos: if delta >= self.pos {
                0
            } else {
                (self.pos - delta) as nat
            },
            ..self
        }
    }

    pub open spec fn scroll_down(self, delta: nat) -> AppView {
        AppView {
            pos: if self.pos + delta >= self.lines.len() {
                self.lines.len()
            } else {
                self.pos + delta
            },
            ..self
        }
    }

    pub open spec fn toggle_spotlight(self) -> AppView {
        AppView { enabled: !self.enabled, ..self }
    }

    pub open spec fn set_pointer(self, at: Point) -> AppView {
        AppView { pointer: at, ..self }
    }

    pub open spec fn scroll(self, step: Scroll) -> AppView {
        match step {
            Scroll::Up(delta) => self.scroll_up(delta),
            Scroll::Down(delta) => self.scroll_down(delta),
        }
    }

    /// The state after all of `steps`, in order.
    pub open spec fn scroll_all(self, steps: Seq<Scroll>) -> AppView
        decreases steps.len(),
    {
        if steps.len() == 0 {
            self
        } else {
            self.scroll_all(steps.drop_last()).scroll(steps.last())
        }
    }

    /// The state after one input, for a viewport `height` rows high.
    pub open spec fn handle(self, input: Input, height: u16) -> AppView {
        match input {
            Input::Space => self.toggle_spotlight(),
            Input::Up => self.scroll_down(1),
            Input::Down => self.scroll_up(1),
            Input::PageUp => self.scroll_down(2 * (height as nat)),
            Input::PageDown => self.scroll_up(2 * (height as nat)),
            Input::Mouse { at, wheel } => {
                let scrolled = match wheel {
                    None => self,
                    Some(dy) => if dy < 0 {
                        self.scroll_up(WHEEL_STEP as nat)
                    } else {
                        self.scroll_down(WHEEL_STEP as nat)
                    },
                };
                scrolled.set_pointer(at)
            },
            Input::Quit => self,
            Input::Other => self,
        }
    }

    /// The background of the cell at `at`.
    pub open spec fn background(self, at: Point) -> Background {
        if self.enabled {
            Background::Mixed {
                base: spec_parchment(),
                toward: spec_shadow(),
                hundredths: spec_blend_weight(at, self.pointer) as u8,
            }
        } else {
            Background::Plain(spec_parchment())
        }
    }

    /// The cell that shows `ch` at `at`.
    pub open spec fn cell(self, at: Point, ch: char) -> Cell {
        Cell { ch, fg: spec_ink(), bg: self.background(at) }
    }

    /// The characters of the grid, row-major.
    pub open spec fn grid_chars(self, w: u16, h: u16) -> Seq<char> {
        spec_grid_chars(
            self.lines,
            spec_skip(self.lines.len(), self.pos, h as nat),
            w as nat,
            h as nat,
        )
    }

    /// The whole grid, row-major: `w * h` cells.
    pub open spec fn grid(self, w: u16, h: u16) -> Seq<Cell> {
        Seq::new(
            (w * h) as nat,
            |i: int| self.cell(spec_cell_point(i, w), self.grid_chars(w, h)[i]),
        )
    }
}

/// What the event loop does after `input`.
pub open spec fn spec_action(input: Input) -> Action {
    match input {
        Input::Quit => Action::Quit,
        Input::Other => Action::Ignore,
        _ => Action::Repaint,
    }
}

/// The pager: the document, the scroll position, the spotlight switch and
/// the pointer.
pub struct App {
    cursor: Point,
    enabled: bool,
    lines: Vec<Vec<char>>,
    pos: usize,
}

impl View for App {
    type V = AppView;

    closed spec fn view(&self) -> AppView {
        AppView {
            lines: spec_text(self.lines@),
            pos: self.pos as nat,
            enabled: self.enabled,
            pointer: self.cursor,
        }
    }
}

/// The characters of `s`, one by one.
fn chars_of(s: &str) -> (v: Vec<char>)
    ensures
        v@ == s@,
{
    broadcast use vstd::string::group_string_axioms;

    let mut it = s.chars();
    let mut v: Vec<char> = Vec::new();
    proof {
        assert(v@ + it.remaining() =~= s@);
    }
    loop
        invariant
            it.obeys_prophetic_iter_laws(),
            it.decrease() is Some,
            v@ + it.remaining() == s@,
        ensures
            v@ == s@,
        decreases it.decrease()->0,
    {
        let ghost before = it.remaining();
        let ghost sofar = v@;
        match it.next() {
            Some(c) => {
                v.push(c);
                proof {
                    assert(v@ + it.remaining() =~= sofar + before);
                }
            },
            None => {
                proof {
                    assert(v@ + before =~= v@);
                }
                break ;
            },
        }
    }
    v
}

impl App {
    /// The scroll position lies within the document.
    pub open spec fn wf(&self) -> bool {
        self@.wf()
    }

    /// A pager over `lines`, scrolled to the end.
    pub fn new(lines: Vec<String>) -> (app: App)
        ensures
            app@ == AppView::start(spec_strings(lines@)),
            app.wf(),
    {
        let n: usize = lines.len();
        let mut text: Vec<Vec<char>> = Vec::new();
        let mut i: usize = 0;
        while i < n
            invariant
                i <= n,
                n == lines@.len(),
                text@.len() == i,
                forall|j: int| 0 <= j < i ==> (#[trigger] text@[j])@ == lines@[j]@,
            decreases n - i,
        {
            text.push(chars_of(lines[i].as_str()));
            i += 1;
        }
        proof {
            assert(spec_text(text@) =~= spec_strings(lines@));
        }
        App { cursor: Point::origin(), enabled: false, pos: n, lines: text }
    }

    pub fn pos(&self) -> (p: usize)
        ensures
            p == self@.pos,
    {
        self.pos
    }

    pub fn line_count(&self) -> (n: usize)
        ensures
            n == self@.lines.len(),
    {
        self.lines.len()
    }

    pub fn enabled(&self) -> (e: bool)
        ensures
            e == self@.enabled,
    {
        self.enabled
    }

    pub fn pointer(&self) -> (p: Point)
        ensures
            p == self@.pointer,
    {
        self.cursor
    }

    /// Moves the scroll position `delta` lines toward the start, stopping
    /// there.
    pub fn scroll_up(&mut self, delta: usize)
        ensures
            final(self)@ == old(self)@.scroll_up(delta as nat),
            old(self).wf() ==> final(self).wf(),
    {
        self.pos = if delta >= self.pos {
            0
        } else {
            self.pos - delta
        };
    }

    /// Moves the scroll position `delta` lines toward the end, stopping
    /// there.
    pub fn scroll_down(&mut self, delta: usize)
        ensures
            final(self)@ == old(self)@.scroll_down(delta as nat),
            final(self).wf(),
    {
        let n: usize = self.lines.len();
        self.pos = if self.pos >= n || delta >= n - self.pos {
            n
        } else {
            self.pos + delta
        };
    }

    /// Switches the spotlight on or off.
    pub fn toggle_spotlight(&mut self)
        ensures
            final(self)@ == old(self)@.toggle_spotlight(),
    {
        self.enabled = !self.enabled;
    }

    /// Records where the pointer is.
    pub fn set_pointer(&mut self, at: Point)
        ensures
            final(self)@ == old(self)@.set_pointer(at),
    {
        self.cursor = at;
    }

    /// Applies one input and says what the event loop is to do next.
    pub fn handle(&mut self, input: Input, height: u16) -> (action: Action)
        ensures
            final(self)@ == old(self)@.handle(input, height),
            action == spec_action(input),
            old(self).wf() ==> final(self).wf(),
    {
        match input {
            Input::Space => {
                self.toggle_spotlight();
                Action::Repaint
            },
            Input::Up => {
                self.scroll_down(1);
                Action::Repaint
            },
            Input::Down => {
                self.scroll_up(1);
                Action::Repaint
            },
            Input::PageUp => {
                self.scroll_down(2 * (height as usize));
                Action::Repaint
            },
            Input::PageDown => {
                self.scroll_up(2 * (height as usize));
                Action::Repaint
            },
            Input::Mouse { at, wheel } => {
                match wheel {
                    None => {},
                    Some(dy) => {
                        if dy < 0 {
                            self.scroll_up(WHEEL_STEP);
                        } else {
                            self.scroll_down(WHEEL_STEP);
                        }
                    },
                }
                self.set_pointer(at);
                Action::Repaint
            },
            Input::Quit => Action::Quit,
            Input::Other => Action::Ignore,
        }
    }

    /// The styled cell that shows `c` at `pos`: ink on parchment, the
    /// parchment tinted toward the shadow while the spotlight is on.
    pub fn maybe_blend(&self, pos: Point, c: char) -> (cell: Cell)
        ensures
            cell == self@.cell(pos, c),
    {
        if !self.enabled {
            return Cell { ch: c, fg: ink(), bg: Background::Plain(parchment()) };
        }
        let weight: u8 = blend_weight(pos, self.cursor);
        Cell {
            ch: c,
            fg: ink(),
            bg: Background::Mixed { base: parchment(), toward: shadow(), hundredths: weight },
        }
    }

    /// Renders the whole grid, `w` cells wide and `h` rows high, row by row.
    pub fn draw_ui(&self, w: u16, h: u16) -> (grid: Vec<Cell>)
        ensures
            grid@ == self@.grid(w, h),
            grid@.len() == w * h,
    {
        let skip: usize = first_line(self.lines.len(), self.pos, h);
        let chars: Vec<char> = wrap_lines(&self.lines, skip, w, h);
        let n: usize = chars.len();
        let mut grid: Vec<Cell> = Vec::new();
        let mut i: usize = 0;
        while i < n
            invariant
                i <= n,
                n == chars@.len(),
                n == w * h,
                chars@ == self@.grid_chars(w, h),
                grid@.len() == i,
                forall|j: int| 0 <= j < i ==> #[trigger] grid@[j] == self@.grid(w, h)[j],
            decreases n - i,
        {
            assert(w > 0 && i / (w as usize) < h) by (nonlinear_arith)
                requires
                    i < n,
                    n == w * h,
            ;
            let x: u16 = (i % (w as usize)) as u16;
            let y: u16 = (i / (w as usize)) as u16;
            grid.push(self.maybe_blend(Point { x, y }, chars[i]));
            i += 1;
        }
        proof {
            assert(grid@ =~= self@.grid(w, h));
        }
        grid
    }
}

/// Scrolling down and then up by the same amount returns to the position
/// scrolled from, provided the scroll down did not stop at the end.
pub proof fn lemma_scroll_round_trip(v: AppView, delta: nat)
    requires
        v.wf(),
        v.pos + delta <= v.lines.len(),
    ensures
        v.scroll_down(delta).scroll_up(delta) == v,
{
}

/// Whatever is scrolled, by whatever amounts, the position lies within the
/// document after every step.
pub proof fn lemma_scrolls_stay_in_bounds(v: AppView, steps: Seq<Scroll>)
    requires
        v.wf(),
    ensures
        forall|k: int| 0 <= k <= steps.len() ==> (#[trigger] v.scroll_all(steps.take(k))).wf(),
        v.scroll_all(steps).wf(),
        v.scroll_all(steps).lines == v.lines,
    decreases steps.len(),
{
    if steps.len() > 0 {
        lemma_scrolls_stay_in_bounds(v, steps.drop_last());
        assert forall|k: int| 0 <= k <= steps.len() implies (#[trigger] v.scroll_all(
            steps.take(k),
        )).wf() by {
            if k < steps.len() {
                assert(steps.take(k) =~= steps.drop_last().take(k));
            } else {
                assert(steps.take(k) =~= steps);
            }
        }
    } else {
        assert forall|k: int| 0 <= k <= steps.len() implies (#[trigger] v.scroll_all(
            steps.take(k),
        )).wf() by {
            assert(steps.take(k) =~= steps);
        }
    }
}

/// Every input leaves the position within the document.
pub proof fn lemma_handle_stays_in_bounds(v: AppView, input: Input, height: u16)
    requires
        v.wf(),
    ensures
        v.handle(input, height).wf(),
        v.handle(input, height).lines == v.lines,
{
}

/// Switching the spotlight twice gives back the state, and so the very same
/// grid.
pub proof fn lemma_toggle_twice(v: AppView, w: u16, h: u16)
    ensures
        v.toggle_spotlight().toggle_spotlight() == v,
        v.toggle_spotlight().toggle_spotlight().grid(w, h) == v.grid(w, h),
{
}

/// The grid has one cell for each position, each in ink, each with the
/// background of the current mode: plain parchment, or parchment tinted
/// toward the shadow by the maximal weight.
pub proof fn lemma_grid_colors(v: AppView, w: u16, h: u16)
    ensures
        v.grid(w, h).len() == w * h,
        forall|i: int|
            0 <= i < w * h ==> (#[trigger] v.grid(w, h)[i]).fg == spec_ink() && v.grid(w, h)[i].bg
                == (if v.enabled {
                Background::Mixed {
                    base: spec_parchment(),
                    toward: spec_shadow(),
                    hundredths: MAX_WEIGHT,
                }
            } else {
                Background::Plain(spec_parchment())
            }),
{
    assert forall|i: int| 0 <= i < w * h implies (#[trigger] v.grid(w, h)[i]).fg == spec_ink()
        && v.grid(w, h)[i].bg == (if v.enabled {
        Background::Mixed { base: spec_parchment(), toward: spec_shadow(), hundredths: MAX_WEIGHT }
    } else {
        Background::Plain(spec_parchment())
    }) by {
        lemma_parameter_saturates(spec_cell_point(i, w), v.pointer);
    }
}

/// Scrolling, switching the spotlight and moving the pointer write different
/// parts of the state, so any two of them give the same state in either
/// order; of two pointer moves the later one stands.
pub proof fn lemma_mutators_commute(v: AppView, step: Scroll, at: Point, then: Point)
    ensures
        v.scroll(step).toggle_spotlight() == v.toggle_spotlight().scroll(step),
        v.scroll(step).set_pointer(at) == v.set_pointer(at).scroll(step),
        v.toggle_spotlight().set_pointer(at) == v.set_pointer(at).toggle_spotlight(),
        v.set_pointer(at).set_pointer(then) == v.set_pointer(then),
        v.set_pointer(at).set_pointer(at) == v.set_pointer(at),
{
}

/// An empty document renders as filler in every cell, coloured as the mode
/// asks.
pub proof fn lemma_empty_document_grid(v: AppView, w: u16, h: u16)
    requires
        v.lines.len() == 0,
    ensures
        v.grid(w, h).len() == w * h,
        forall|i: int|
            0 <= i < w * h ==> #[trigger] v.grid(w, h)[i] == v.cell(spec_cell_point(i, w), BLANK),
{
    lemma_empty_document_chars(w as nat, h as nat);
    assert(v.lines =~= Seq::empty());
}

} // verus!
