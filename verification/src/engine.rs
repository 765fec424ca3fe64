//! The engine: two grids (back and front), the action table, the typed
//! effect queues, and the two-phase render tick.
//!
//! Construction detects the terminal size and refuses dimensions that
//! exceed it; it seeds the action table with the two hard-coded safety
//! exits (Ctrl-C and Escape), which no public operation can remove.
//! Key handling classifies every matching action in table order and
//! forwards the resolved work onto the queues; a tick drains the
//! queues in a fixed order — callbacks, grid mutations, dispatched
//! effects, raw text — diffs back against front, and hands the caller
//! the minimal set of cell writes.

use vstd::prelude::*;

use crate::action::classify;
use crate::action::classify_spec;
use crate::action::matches_spec;
use crate::action::Action;
use crate::action::ActionManager;
use crate::action::ActionType;
use crate::action::ConfigError;
use crate::action::Key;
use crate::action::Resolved;
use crate::action::ScreenAction;
use crate::cell::blank_cell;
use crate::cell::Cell;
use crate::cell::SCREEN_PIXEL_WIDTH;
use crate::grid::Grid;
use crate::grid::GridError;

verus! {

/// A fatal condition the engine reports instead of proceeding.
#[derive(Clone, Copy, PartialEq, Eq, Structural, Debug)]
pub enum EngineError {
    /// The requested grid dimensions exceed the detected terminal size.
    DimensionsExceedTerminal,
    /// The terminal size could not be detected.
    TerminalUnavailable,
    /// A registered produced effect resolved to a disallowed kind.
    Config(ConfigError),
    /// A mutation effect named a coordinate outside the grid.
    Bounds(GridError),
    /// An effect kind the dispatch channel does not carry.
    UnsupportedDispatch,
}

/// The abstract state of an engine: dimensions, the two grids as
/// sequences of rows, the action table, the live queues, and the
/// staging area of a tick in progress.
#[verifier::ext_equal]
pub struct EngineView {
    pub width: usize,
    pub height: usize,
    pub front: Seq<Seq<Cell>>,
    pub back: Seq<Seq<Cell>>,
    pub table: Seq<(u16, Action)>,
    pub next_handle: u16,
    pub callbacks: Seq<u64>,
    pub pixels: Seq<(usize, usize, Cell)>,
    pub texts: Seq<(u16, u16, String)>,
    pub master: Seq<ScreenAction>,
    pub staged_pixels: Seq<(usize, usize, Cell)>,
    pub staged_texts: Seq<(u16, u16, String)>,
    pub staged_master: Seq<ScreenAction>,
    pub in_tick: bool,
}

/// The double-buffered character-grid display engine.
pub struct TerminalScreen {
    dimensions: (usize, usize),
    front: Grid,
    back: Grid,
    actions: ActionManager,
    callback_queue: Vec<u64>,
    pixel_queue: Vec<(usize, usize, Cell)>,
    text_queue: Vec<(u16, u16, String)>,
    master_queue: Vec<ScreenAction>,
    staged_pixels: Vec<(usize, usize, Cell)>,
    staged_texts: Vec<(u16, u16, String)>,
    staged_master: Vec<ScreenAction>,
    in_tick: bool,
}

impl View for TerminalScreen {
    type V = EngineView;

    closed spec fn view(&self) -> EngineView {
        EngineView {
            width: self.dimensions.0,
            height: self.dimensions.1,
            front: self.front@,
            back: self.back@,
            table: self.actions@,
            next_handle: self.actions.spec_next_key(),
            callbacks: self.callback_queue@,
            pixels: self.pixel_queue@,
            texts: self.text_queue@,
            master: self.master_queue@,
            staged_pixels: self.staged_pixels@,
            staged_texts: self.staged_texts@,
            staged_master: self.staged_master@,
            in_tick: self.in_tick,
        }
    }
}

/// The built-in Ctrl-C safety exit, seeded at construction.
pub open spec fn builtin_ctrl_c() -> Action {
    Action { t: ActionType::KEY(Key::Ctrl('c')), f: ScreenAction::Exit(130) }
}

/// The built-in Escape safety exit, seeded at construction.
pub open spec fn builtin_esc() -> Action {
    Action { t: ActionType::KEY(Key::Esc), f: ScreenAction::Exit(0) }
}

/// The table a freshly constructed engine starts with.
pub open spec fn builtin_table() -> Seq<(u16, Action)> {
    seq![(0u16, builtin_ctrl_c()), (1u16, builtin_esc())]
}

/// The first two table entries are the two built-in safety exits.
pub open spec fn builtins_seeded(v: EngineView) -> bool {
    &&& v.table.len() >= 2
    &&& v.table[0] == (0u16, builtin_ctrl_c())
    &&& v.table[1] == (1u16, builtin_esc())
}

/// A grid of the given extent with every cell equal to `fill`.
pub open spec fn grid_filled(g: Seq<Seq<Cell>>, w: int, h: int, fill: Cell) -> bool {
    &&& g.len() == h
    &&& forall|y: int| 0 <= y < h ==> (#[trigger] g[y]).len() == w
    &&& forall|x: int, y: int| 0 <= x < w && 0 <= y < h ==> g[y][x] == fill
}

/// No queued work and no tick in progress.
pub open spec fn queues_idle(v: EngineView) -> bool {
    &&& v.callbacks.len() == 0
    &&& v.pixels.len() == 0
    &&& v.texts.len() == 0
    &&& v.master.len() == 0
    &&& v.staged_pixels.len() == 0
    &&& v.staged_texts.len() == 0
    &&& v.staged_master.len() == 0
    &&& !v.in_tick
}

/// The actions of the table entries, in table order.
pub open spec fn table_actions(t: Seq<(u16, Action)>) -> Seq<Action> {
    t.map_values(|p: (u16, Action)| p.1)
}

/// Relies on termion::terminal_size: the (columns, rows) of the
/// terminal behind standard output, or nothing when the probe fails.
/// The result depends on the terminal the process runs under, so
/// nothing is promised of it.
#[verifier::external_body]
fn probe_terminal_size() -> (r: Option<(u16, u16)>) {
    match termion::terminal_size() {
        Ok(size) => Some(size),
        Err(_) => None,
    }
}

impl TerminalScreen {
    /// Internal consistency: rectangular grids of the stated
    /// dimensions, small enough for terminal coordinates, a well-formed
    /// table, and the two built-in exits seeded at the head.
    pub closed spec fn wf(&self) -> bool {
        &&& self.front.wf()
        &&& self.back.wf()
        &&& self.front.spec_width() == self.dimensions.0
        &&& self.front.spec_height() == self.dimensions.1
        &&& self.back.spec_width() == self.dimensions.0
        &&& self.back.spec_height() == self.dimensions.1
        &&& self.dimensions.0 <= 32767
        &&& self.dimensions.1 <= 65535
        &&& self.actions.wf()
        &&& builtins_seeded(self@)
        &&& self.actions.spec_next_key() >= 2
    }

    /// Law: every well-formed engine still holds the two built-in
    /// safety exits at the head of its table; no public operation
    /// removes them.
    pub proof fn lemma_builtins_never_removed(&self)
        requires
            self.wf(),
        ensures
            builtins_seeded(self@),
    {
    }

    /// Construct an engine against an explicitly given terminal size of
    /// `cols` columns and `rows` rows. Fails — constructing nothing —
    /// exactly when the requested dimensions exceed what the terminal
    /// can show; the requested (0, 0) means "use the whole terminal".
    pub fn with_terminal_size(dimensions: (usize, usize), cols: u16, rows: u16) -> (r: Result<
        TerminalScreen,
        EngineError,
    >)
        ensures
            ({
                let usable_cols = cols as usize / SCREEN_PIXEL_WIDTH;
                let fits = dimensions.0 <= usable_cols && dimensions.1 <= rows as usize;
                let w = if dimensions.0 == 0 && dimensions.1 == 0 {
                    usable_cols
                } else {
                    dimensions.0
                };
                let h = if dimensions.0 == 0 && dimensions.1 == 0 {
                    rows as usize
                } else {
                    dimensions.1
                };
                &&& fits <==> r is Ok
                &&& !fits ==> r == Err::<TerminalScreen, EngineError>(
                    EngineError::DimensionsExceedTerminal,
                )
                &&& r matches Ok(e) ==> {
                    &&& e.wf()
                    &&& e@.width == w
                    &&& e@.height == h
                    &&& grid_filled(e@.front, w as int, h as int, blank_cell())
                    &&& grid_filled(e@.back, w as int, h as int, blank_cell())
                    &&& e@.table == builtin_table()
                    &&& e@.next_handle == 2
                    &&& queues_idle(e@)
                }
            }),
    {
        let usable_cols: usize = cols as usize / SCREEN_PIXEL_WIDTH;
        let usable_rows: usize = rows as usize;
        if dimensions.0 > usable_cols || dimensions.1 > usable_rows {
            return Err(EngineError::DimensionsExceedTerminal);
        }
        let (width, height) = if dimensions.0 == 0 && dimensions.1 == 0 {
            (usable_cols, usable_rows)
        } else {
            dimensions
        };
        let front = Grid::new(width, height, Cell::blank());
        let back = Grid::new(width, height, Cell::blank());
        let mut actions = ActionManager::new();
        actions.push(Action::new(ActionType::KEY(Key::Ctrl('c')), ScreenAction::Exit(130)));
        actions.push(Action::new(ActionType::KEY(Key::Esc), ScreenAction::Exit(0)));
        proof {
            assert(actions@ =~= builtin_table());
            assert forall|x: int, y: int|
                0 <= x < width && 0 <= y < height implies front@[y][x] == blank_cell() by {
                assert(front.cell_at(x, y) == blank_cell());
            }
            assert forall|x: int, y: int|
                0 <= x < width && 0 <= y < height implies back@[y][x] == blank_cell() by {
                assert(back.cell_at(x, y) == blank_cell());
            }
        }
        Ok(
            TerminalScreen {
                dimensions: (width, height),
                front,
                back,
                actions,
                callback_queue: Vec::new(),
                pixel_queue: Vec::new(),
                text_queue: Vec::new(),
                master_queue: Vec::new(),
                staged_pixels: Vec::new(),
                staged_texts: Vec::new(),
                staged_master: Vec::new(),
                in_tick: false,
            },
        )
    }

    /// Construct an engine against the detected terminal size. Fails
    /// when no terminal size can be detected, or — per
    /// [`Self::with_terminal_size`] — when the requested dimensions
    /// exceed it.
    pub fn new(dimensions: (usize, usize)) -> (r: Result<TerminalScreen, EngineError>)
        ensures
            r matches Ok(e) ==> {
                &&& e.wf()
                &&& grid_filled(e@.front, e@.width as int, e@.height as int, blank_cell())
                &&& grid_filled(e@.back, e@.width as int, e@.height as int, blank_cell())
                &&& e@.table == builtin_table()
                &&& e@.next_handle == 2
                &&& queues_idle(e@)
                &&& !(dimensions.0 == 0 && dimensions.1 == 0) ==> e@.width == dimensions.0
                    && e@.height == dimensions.1
            },
    {
        match probe_terminal_size() {
            None => Err(EngineError::TerminalUnavailable),
            Some((cols, rows)) => Self::with_terminal_size(dimensions, cols, rows),
        }
    }

    /// The engine's (width, height) in grid cells.
    pub fn dimensions(&self) -> (r: (usize, usize))
        ensures
            r.0 == self@.width,
            r.1 == self@.height,
    {
        self.dimensions
    }

    /// The handle the next registered action will receive.
    pub fn next_handle(&self) -> (r: u16)
        ensures
            r == self@.next_handle,
    {
        self.actions.next_key()
    }

    /// Whether a tick is in progress (between `tick_begin` and
    /// `tick_finish`).
    pub fn in_tick(&self) -> (r: bool)
        ensures
            r == self@.in_tick,
    {
        self.in_tick
    }

    /// Read a cell of the front grid — the state last flushed.
    pub fn get_front(&self, x: usize, y: usize) -> (r: Result<Cell, GridError>)
        requires
            self.wf(),
        ensures
            x < self@.width && y < self@.height ==> r == Ok::<Cell, GridError>(
                self@.front[y as int][x as int],
            ),
            !(x < self@.width && y < self@.height) ==> r == Err::<Cell, GridError>(
                GridError::OutOfBounds,
            ),
    {
        self.front.get(x, y)
    }

    /// Read a cell of the back grid — the write target of effects.
    pub fn get_back(&self, x: usize, y: usize) -> (r: Result<Cell, GridError>)
        requires
            self.wf(),
        ensures
            x < self@.width && y < self@.height ==> r == Ok::<Cell, GridError>(
                self@.back[y as int][x as int],
            ),
            !(x < self@.width && y < self@.height) ==> r == Err::<Cell, GridError>(
                GridError::OutOfBounds,
            ),
    {
        self.back.get(x, y)
    }

    /// Whether front and back hold the same cells everywhere, as they
    /// do right after a completed tick.
    pub fn buffers_match(&self) -> (r: bool)
        requires
            self.wf(),
        ensures
            r <==> forall|x: int, y: int|
                0 <= x < self@.width && 0 <= y < self@.height ==> self@.front[y][x]
                    == self@.back[y][x],
    {
        let (w, h) = self.dimensions;
        let mut same = true;
        for y in 0..h
            invariant
                self.wf(),
                w == self@.width,
                h == self@.height,
                same <==> forall|i: int, j: int|
                    0 <= i < w && 0 <= j < y ==> self@.front[j][i] == self@.back[j][i],
        {
            for x in 0..w
                invariant
                    self.wf(),
                    w == self@.width,
                    h == self@.height,
                    y < h,
                    same <==> (forall|i: int, j: int|
                        0 <= i < w && 0 <= j < y ==> self@.front[j][i] == self@.back[j][i])
                        && (forall|i: int|
                        0 <= i < x ==> self@.front[y as int][i] == self@.back[y as int][i]),
            {
                let a = self.front.at(x, y);
                let b = self.back.at(x, y);
                let eq = a.ch == b.ch && a.width == b.width;
                proof {
                    if eq {
                        assert(self@.front[y as int][x as int] == self@.back[y as int][x as int]);
                    } else {
                        assert(self@.front[y as int][x as int] != self@.back[y as int][x as int]);
                    }
                }
                if !eq {
                    same = false;
                }
            }
            proof {
                if same {
                    assert forall|i: int, j: int|
                        0 <= i < w && 0 <= j < y + 1 implies self@.front[j][i]
                        == self@.back[j][i] by {
                        if j < y {
                        } else {
                            assert(self@.front[y as int][i] == self@.back[y as int][i]);
                        }
                    }
                }
            }
        }
        same
    }

    /// Write a literal cell straight into the back grid, outside the
    /// queued effect path; out-of-range coordinates are refused.
    pub fn set_pixel_at(&mut self, x: usize, y: usize, c: char) -> (r: Result<(), EngineError>)
        requires
            old(self).wf(),
        ensures
            final(self).wf(),
            x < old(self)@.width && y < old(self)@.height ==> {
                &&& r == Ok::<(), EngineError>(())
                &&& final(self)@ == EngineView {
                    back: old(self)@.back.update(
                        y as int,
                        old(self)@.back[y as int].update(
                            x as int,
                            Cell { ch: c, width: SCREEN_PIXEL_WIDTH },
                        ),
                    ),
                    ..old(self)@
                }
            },
            !(x < old(self)@.width && y < old(self)@.height) ==> {
                &&& r == Err::<(), EngineError>(EngineError::Bounds(GridError::OutOfBounds))
                &&& final(self)@ == old(self)@
            },
    {
        let cell = Cell::new(c);
        match self.back.set(x, y, cell) {
            Ok(()) => Ok(()),
            Err(e) => Err(EngineError::Bounds(e)),
        }
    }

    /// Register an action at the end of the table, returning the handle
    /// it can later be removed by.
    pub fn add_action(&mut self, action: Action) -> (handle: u16)
        requires
            old(self).wf(),
            old(self)@.next_handle < u16::MAX,
        ensures
            final(self).wf(),
            handle == old(self)@.next_handle,
            final(self)@ == (EngineView {
                table: old(self)@.table.push((handle, action)),
                next_handle: (old(self)@.next_handle + 1) as u16,
                ..old(self)@
            }),
    {
        let handle = self.actions.next_key();
        self.actions.push(action);
        handle
    }

    /// Remove the action registered under `handle`. The two built-in
    /// safety exits (handles 0 and 1) are refused; the result says
    /// whether an action was removed.
    pub fn rem_action(&mut self, handle: u16) -> (r: bool)
        requires
            old(self).wf(),
        ensures
            final(self).wf(),
            handle < 2 ==> !r && final(self)@ == old(self)@,
            handle >= 2 ==> {
                &&& r <==> exists|i: int|
                    0 <= i < old(self)@.table.len() && (#[trigger] old(self)@.table[i]).0 == handle
                &&& r ==> exists|i: int|
                    2 <= i < old(self)@.table.len() && (#[trigger] old(self)@.table[i]).0 == handle
                        && final(self)@ == EngineView {
                        table: old(self)@.table.remove(i),
                        ..old(self)@
                    }
                &&& !r ==> final(self)@ == old(self)@
            },
    {
        if handle < 2 {
            return false;
        }
        let found = self.actions.get(handle).is_some();
        if found {
            self.actions.rem(handle);
            proof {
                let i = choose|i: int|
                    0 <= i < old(self)@.table.len() && old(self)@.table[i].0 == handle
                        && final(self)@.table == old(self)@.table.remove(i);
                assert(old(self)@.table[0].0 == 0 && old(self)@.table[1].0 == 1);
                assert(i >= 2);
                assert(final(self)@ =~= EngineView { table: old(self)@.table.remove(i), ..old(self)@ });
                assert(final(self)@.table[0] == old(self)@.table[0]);
                assert(final(self)@.table[1] == old(self)@.table[1]);
            }
        }
        found
    }

    /// Send an effect through the dispatch channel: it is applied on
    /// the tick after the one in which it was sent, never the same
    /// tick.
    pub fn do_action(&mut self, action: ScreenAction)
        requires
            old(self).wf(),
        ensures
            final(self).wf(),
            final(self)@ == (EngineView {
                master: old(self)@.master.push(action),
                ..old(self)@
            }),
    {
        self.master_queue.push(action);
        proof {
            assert(final(self)@ =~= EngineView {
                master: old(self)@.master.push(action),
                ..old(self)@
            });
        }
    }

    /// Supply the cell a producer effect computed: the caller runs the
    /// producer named by a request and feeds the result back; it joins
    /// the mutation queue and lands on the next tick.
    pub fn supply_cell(&mut self, x: usize, y: usize, cell: Cell)
        requires
            old(self).wf(),
        ensures
            final(self).wf(),
            final(self)@ == (EngineView {
                pixels: old(self)@.pixels.push((x, y, cell)),
                ..old(self)@
            }),
    {
        self.pixel_queue.push((x, y, cell));
        proof {
            assert(final(self)@ =~= EngineView {
                pixels: old(self)@.pixels.push((x, y, cell)),
                ..old(self)@
            });
        }
    }

    /// A snapshot of the actions whose trigger equals `want`, in table
    /// order.
    pub fn actions_for(&self, want: ActionType) -> (r: Vec<Action>)
        requires
            self.wf(),
        ensures
            r@ == matches_spec(self@.table, want),
    {
        let snapshot = self.actions.iter();
        let n = snapshot.len();
        let mut r: Vec<Action> = Vec::new();
        for i in 0..n
            invariant
                self.wf(),
                n == snapshot@.len(),
                snapshot@.len() == self@.table.len(),
                forall|j: int| 0 <= j < n ==> snapshot@[j] == (#[trigger] self@.table[j]).1,
                r@ == matches_spec(self@.table.take(i as int), want),
        {
            proof {
                assert(self@.table.take(i + 1).drop_last() =~= self@.table.take(i as int));
                assert(self@.table.take(i + 1).last() == self@.table[i as int]);
            }
            if snapshot[i].t == want {
                r.push(snapshot[i].duplicate());
            }
        }
        proof {
            assert(self@.table.take(self@.table.len() as int) =~= self@.table);
        }
        r
    }
}

/// Law: looking the built-in triggers up in a freshly seeded table
/// finds exactly one action each — Ctrl-C exiting with status 130 and
/// Escape exiting with status 0.
pub proof fn lemma_builtin_lookup()
    ensures
        matches_spec(builtin_table(), ActionType::KEY(Key::Ctrl('c'))) == seq![builtin_ctrl_c()],
        matches_spec(builtin_table(), ActionType::KEY(Key::Esc)) == seq![builtin_esc()],
{
    let t = builtin_table();
    let t1 = seq![(0u16, builtin_ctrl_c())];
    let t0 = Seq::<(u16, Action)>::empty();
    let want_c = ActionType::KEY(Key::Ctrl('c'));
    let want_e = ActionType::KEY(Key::Esc);
    assert(t.drop_last() =~= t1);
    assert(t1.drop_last() =~= t0);
    assert(matches_spec(t0, want_c) =~= Seq::<Action>::empty());
    assert(matches_spec(t0, want_e) =~= Seq::<Action>::empty());
    assert(t1.last() == (0u16, builtin_ctrl_c()));
    assert(matches_spec(t1, want_c) =~= seq![builtin_ctrl_c()]);
    assert(matches_spec(t1, want_e) =~= Seq::<Action>::empty());
    assert(t.last() == (1u16, builtin_esc()));
    assert(matches_spec(t, want_c) =~= seq![builtin_ctrl_c()]);
    assert(matches_spec(t, want_e) =~= seq![builtin_esc()]);
}


/// What processing a run of table entries against one trigger yields:
/// the work items forwarded to each queue, the producer requests, and
/// whether processing ran to completion, hit an exit, or failed.
pub struct ProcOut {
    pub pixels: Seq<(usize, usize, Cell)>,
    pub texts: Seq<(u16, u16, String)>,
    pub callbacks: Seq<u64>,
    pub requests: Seq<u64>,
    pub outcome: ProcOutcome,
}

/// How processing a run of actions ended.
pub enum ProcOutcome {
    /// Every action was evaluated.
    Continue,
    /// An exit effect matched: terminate with this code, evaluating
    /// nothing further.
    Exit(i32),
    /// A matching effect was misconfigured: fatal, evaluating nothing
    /// further.
    Fail(ConfigError),
}

/// Processing before any action was looked at.
pub open spec fn empty_proc() -> ProcOut {
    ProcOut {
        pixels: Seq::empty(),
        texts: Seq::empty(),
        callbacks: Seq::empty(),
        requests: Seq::empty(),
        outcome: ProcOutcome::Continue,
    }
}

/// One action evaluated: skipped unless its trigger equals `want` and
/// processing is still running; a matching effect is classified and its
/// resolved work appended.
pub open spec fn proc_step(p: ProcOut, a: Action, want: ActionType) -> ProcOut {
    if !(p.outcome is Continue) {
        p
    } else if a.t != want {
        p
    } else {
        match classify_spec(a.f) {
            Err(e) => ProcOut { outcome: ProcOutcome::Fail(e), ..p },
            Ok(Resolved::Exit(c)) => ProcOut { outcome: ProcOutcome::Exit(c), ..p },
            Ok(Resolved::Pixel(x, y, cell)) => ProcOut { pixels: p.pixels.push((x, y, cell)), ..p },
            Ok(Resolved::Text(col, row, s)) => ProcOut { texts: p.texts.push((col, row, s)), ..p },
            Ok(Resolved::Callback(id)) => ProcOut { callbacks: p.callbacks.push(id), ..p },
            Ok(Resolved::Producer(id)) => ProcOut { requests: p.requests.push(id), ..p },
        }
    }
}

/// The first `n` actions evaluated in order against `want`.
pub open spec fn process_upto(acts: Seq<Action>, want: ActionType, n: int) -> ProcOut
    decreases n,
{
    if n <= 0 {
        empty_proc()
    } else {
        proc_step(process_upto(acts, want, n - 1), acts[n - 1], want)
    }
}

/// All actions evaluated in order against `want`: the trigger-equality
/// lookup and effect classification of one key event (or of one tick's
/// recurring pass).
pub open spec fn process_actions(acts: Seq<Action>, want: ActionType) -> ProcOut {
    process_upto(acts, want, acts.len() as int)
}

/// The collected work of one processing pass, in executable form.
struct Collected {
    pixels: Vec<(usize, usize, Cell)>,
    texts: Vec<(u16, u16, String)>,
    callbacks: Vec<u64>,
    requests: Vec<u64>,
    stopped: Option<Result<i32, ConfigError>>,
}

/// Evaluate every snapshot action whose trigger equals `want`, in
/// order, collecting the resolved work.
fn collect_matches(snapshot: &Vec<Action>, want: ActionType) -> (c: Collected)
    ensures
        ({
            let p = process_actions(snapshot@, want);
            &&& c.pixels@ == p.pixels
            &&& c.texts@ == p.texts
            &&& c.callbacks@ == p.callbacks
            &&& c.requests@ == p.requests
            &&& (match p.outcome {
                ProcOutcome::Continue => c.stopped is None,
                ProcOutcome::Exit(code) => c.stopped == Some(Ok::<i32, ConfigError>(code)),
                ProcOutcome::Fail(e) => c.stopped == Some(Err::<i32, ConfigError>(e)),
            })
        }),
{
    let mut pixels: Vec<(usize, usize, Cell)> = Vec::new();
    let mut texts: Vec<(u16, u16, String)> = Vec::new();
    let mut callbacks: Vec<u64> = Vec::new();
    let mut requests: Vec<u64> = Vec::new();
    let mut stopped: Option<Result<i32, ConfigError>> = None;
    let n = snapshot.len();
    for i in 0..n
        invariant
            n == snapshot@.len(),
            ({
                let p = process_upto(snapshot@, want, i as int);
                &&& pixels@ == p.pixels
                &&& texts@ == p.texts
                &&& callbacks@ == p.callbacks
                &&& requests@ == p.requests
                &&& (match p.outcome {
                    ProcOutcome::Continue => stopped is None,
                    ProcOutcome::Exit(code) => stopped == Some(Ok::<i32, ConfigError>(code)),
                    ProcOutcome::Fail(e) => stopped == Some(Err::<i32, ConfigError>(e)),
                })
            }),
    {
        if stopped.is_none() {
            let a = &snapshot[i];
            if a.t == want {
                let eff = a.f.duplicate();
                match classify(eff) {
                    Err(e) => {
                        stopped = Some(Err(e));
                    },
                    Ok(Resolved::Exit(code)) => {
                        stopped = Some(Ok(code));
                    },
                    Ok(Resolved::Pixel(x, y, cell)) => {
                        pixels.push((x, y, cell));
                    },
                    Ok(Resolved::Text(col, row, s)) => {
                        texts.push((col, row, s));
                    },
                    Ok(Resolved::Callback(id)) => {
                        callbacks.push(id);
                    },
                    Ok(Resolved::Producer(id)) => {
                        requests.push(id);
                    },
                }
            }
        }
    }
    Collected { pixels, texts, callbacks, requests, stopped }
}

/// Move every element of `src` to the end of `dst`, in order.
fn append_all<T>(dst: &mut Vec<T>, src: Vec<T>)
    ensures
        final(dst)@ == old(dst)@ + src@,
{
    let ghost src0 = src@;
    let mut rest = src;
    while rest.len() > 0
        invariant
            dst@ + rest@ == old(dst)@ + src0,
        decreases rest@.len(),
    {
        let e = rest.remove(0);
        dst.push(e);
        proof {
            assert(dst@ + rest@ =~= old(dst)@ + src0);
        }
    }
    proof {
        assert(dst@ =~= dst@ + rest@);
    }
}

/// How one key event was resolved.
pub enum KeyOutcome {
    /// An exit effect matched: terminate with this status code.
    Exit(i32),
    /// Matching effects were queued; the listed producers must be run
    /// and their cells supplied before a tick applies the mutations.
    Handled(Vec<u64>),
}

/// What `tick_begin` hands the caller: the callbacks to invoke now, in
/// enqueue order, and the producers to resolve. When a recurring exit
/// effect fired, `exit` carries its code and nothing was staged.
pub struct TickBegin {
    pub exit: Option<i32>,
    pub callbacks: Vec<u64>,
    pub producer_requests: Vec<u64>,
}

/// What `tick_finish` hands the caller: the callbacks dispatched from
/// outside, the raw text writes, and the diffed cells to flush. When an
/// exit effect arrived through the dispatch channel, `exit` carries its
/// code and nothing further was processed.
pub struct TickResult {
    pub exit: Option<i32>,
    pub callbacks: Vec<u64>,
    pub writes: Vec<(u16, u16, String)>,
    pub changed: Vec<(usize, usize, Cell)>,
}

impl TerminalScreen {
    /// Handle one key event, as the input-capture side does: evaluate
    /// every action whose trigger is exactly this key, in table order,
    /// and forward each resolved effect onto its queue. An exit effect
    /// resolves immediately, evaluating nothing further; a
    /// misconfigured produced effect is a fatal error. Work queued
    /// before the stopping action stays queued. Grids are never touched
    /// here.
    pub fn handle_key(&mut self, key: Key) -> (r: Result<KeyOutcome, EngineError>)
        requires
            old(self).wf(),
        ensures
            final(self).wf(),
            ({
                let p = process_actions(table_actions(old(self)@.table), ActionType::KEY(key));
                &&& final(self)@ == (EngineView {
                    callbacks: old(self)@.callbacks + p.callbacks,
                    pixels: old(self)@.pixels + p.pixels,
                    texts: old(self)@.texts + p.texts,
                    ..old(self)@
                })
                &&& (match p.outcome {
                    ProcOutcome::Continue => (r matches Ok(o) && (o matches KeyOutcome::Handled(
                        reqs,
                    ) && reqs@ == p.requests)),
                    ProcOutcome::Exit(code) => r == Ok::<KeyOutcome, EngineError>(
                        KeyOutcome::Exit(code),
                    ),
                    ProcOutcome::Fail(e) => r == Err::<KeyOutcome, EngineError>(
                        EngineError::Config(e),
                    ),
                })
            }),
    {
        let snapshot = self.actions.iter();
        proof {
            assert(snapshot@ =~= table_actions(self@.table));
        }
        let c = collect_matches(&snapshot, ActionType::KEY(key));
        append_all(&mut self.pixel_queue, c.pixels);
        append_all(&mut self.text_queue, c.texts);
        append_all(&mut self.callback_queue, c.callbacks);
        proof {
            assert(self@ =~= (EngineView {
                callbacks: old(self)@.callbacks + process_actions(
                    table_actions(old(self)@.table),
                    ActionType::KEY(key),
                ).callbacks,
                pixels: old(self)@.pixels + process_actions(
                    table_actions(old(self)@.table),
                    ActionType::KEY(key),
                ).pixels,
                texts: old(self)@.texts + process_actions(
                    table_actions(old(self)@.table),
                    ActionType::KEY(key),
                ).texts,
                ..old(self)@
            }));
        }
        match c.stopped {
            None => Ok(KeyOutcome::Handled(c.requests)),
            Some(Ok(code)) => Ok(KeyOutcome::Exit(code)),
            Some(Err(e)) => Err(EngineError::Config(e)),
        }
    }
}


/// One cell of a grid-as-rows replaced.
pub open spec fn update_cell(g: Seq<Seq<Cell>>, x: int, y: int, c: Cell) -> Seq<Seq<Cell>> {
    g.update(y, g[y].update(x, c))
}

/// The first `n` queued mutations applied to the back grid in order;
/// nothing when one of them names a coordinate out of range.
pub open spec fn apply_pixels_upto(
    g: Seq<Seq<Cell>>,
    w: int,
    h: int,
    ps: Seq<(usize, usize, Cell)>,
    n: int,
) -> Option<Seq<Seq<Cell>>>
    decreases n,
{
    if n <= 0 {
        Some(g)
    } else {
        match apply_pixels_upto(g, w, h, ps, n - 1) {
            None => None,
            Some(g2) => {
                let (x, y, c) = ps[n - 1];
                if x < w && y < h {
                    Some(update_cell(g2, x as int, y as int, c))
                } else {
                    None
                }
            },
        }
    }
}

/// All queued mutations applied to the back grid in order.
pub open spec fn apply_pixels(
    g: Seq<Seq<Cell>>,
    w: int,
    h: int,
    ps: Seq<(usize, usize, Cell)>,
) -> Option<Seq<Seq<Cell>>> {
    apply_pixels_upto(g, w, h, ps, ps.len() as int)
}

/// What draining the dispatch channel yields: the back grid after the
/// applied mutations, the callbacks to invoke, and how the drain ended.
pub struct MasterOut {
    pub grid: Seq<Seq<Cell>>,
    pub callbacks: Seq<u64>,
    pub outcome: MasterOutcome,
}

/// How draining the dispatch channel ended.
pub enum MasterOutcome {
    /// Every dispatched effect was applied.
    Continue,
    /// An exit effect arrived: terminate with this code, applying
    /// nothing further.
    Exit(i32),
    /// A dispatched mutation named a coordinate out of range.
    OutOfRange,
    /// A dispatched effect of a kind the channel does not carry.
    Unsupported,
}

/// One dispatched effect applied. The channel carries cell mutations,
/// callbacks and exits; anything else is fatal.
pub open spec fn master_step(m: MasterOut, e: ScreenAction, w: int, h: int) -> MasterOut {
    if !(m.outcome is Continue) {
        m
    } else {
        match e {
            ScreenAction::Exit(c) => MasterOut { outcome: MasterOutcome::Exit(c), ..m },
            ScreenAction::SetCell(x, y, c) => if x < w && y < h {
                MasterOut { grid: update_cell(m.grid, x as int, y as int, c), ..m }
            } else {
                MasterOut { outcome: MasterOutcome::OutOfRange, ..m }
            },
            ScreenAction::RunCallback(id) => MasterOut { callbacks: m.callbacks.push(id), ..m },
            _ => MasterOut { outcome: MasterOutcome::Unsupported, ..m },
        }
    }
}

/// The first `n` dispatched effects applied in order, starting from
/// back grid `g0`.
pub open spec fn master_upto(
    g0: Seq<Seq<Cell>>,
    w: int,
    h: int,
    ms: Seq<ScreenAction>,
    n: int,
) -> MasterOut
    decreases n,
{
    if n <= 0 {
        MasterOut { grid: g0, callbacks: Seq::empty(), outcome: MasterOutcome::Continue }
    } else {
        master_step(master_upto(g0, w, h, ms, n - 1), ms[n - 1], w, h)
    }
}

/// All dispatched effects applied in order.
pub open spec fn process_master(
    g0: Seq<Seq<Cell>>,
    w: int,
    h: int,
    ms: Seq<ScreenAction>,
) -> MasterOut {
    master_upto(g0, w, h, ms, ms.len() as int)
}

proof fn lemma_apply_pixels_none_stays(
    g: Seq<Seq<Cell>>,
    w: int,
    h: int,
    ps: Seq<(usize, usize, Cell)>,
    i: int,
    j: int,
)
    requires
        0 <= i <= j <= ps.len(),
        apply_pixels_upto(g, w, h, ps, i) is None,
    ensures
        apply_pixels_upto(g, w, h, ps, j) is None,
    decreases j - i,
{
    if j > i {
        lemma_apply_pixels_none_stays(g, w, h, ps, i, j - 1);
    }
}

proof fn lemma_master_stopped_stays(
    g0: Seq<Seq<Cell>>,
    w: int,
    h: int,
    ms: Seq<ScreenAction>,
    i: int,
    j: int,
)
    requires
        0 <= i <= j <= ms.len(),
        !(master_upto(g0, w, h, ms, i).outcome is Continue),
    ensures
        master_upto(g0, w, h, ms, j) == master_upto(g0, w, h, ms, i),
    decreases j - i,
{
    if j > i {
        lemma_master_stopped_stays(g0, w, h, ms, i, j - 1);
    }
}

impl TerminalScreen {
    /// Open a tick: evaluate the recurring actions, then drain every
    /// queue into the tick's staging area and hand back the callbacks
    /// to invoke now — before any staged mutation is applied — along
    /// with the producers to resolve. A recurring exit or configuration
    /// failure is reported with the engine left untouched. Effects
    /// enqueued from here on (by callbacks, say) land on the next tick.
    pub fn tick_begin(&mut self) -> (r: Result<TickBegin, EngineError>)
        requires
            old(self).wf(),
            !old(self)@.in_tick,
        ensures
            final(self).wf(),
            ({
                let p = process_actions(table_actions(old(self)@.table), ActionType::RUN);
                match p.outcome {
                    ProcOutcome::Fail(e) => r is Err && (r matches Err(err) && err
                        == EngineError::Config(e)) && final(self)@ == old(self)@,
                    ProcOutcome::Exit(code) => (r matches Ok(tb) && {
                        &&& tb.exit == Some(code)
                        &&& tb.callbacks@.len() == 0
                        &&& tb.producer_requests@.len() == 0
                    }) && final(self)@ == old(self)@,
                    ProcOutcome::Continue => (r matches Ok(tb) && {
                        &&& tb.exit is None
                        &&& tb.callbacks@ == old(self)@.callbacks + p.callbacks
                        &&& tb.producer_requests@ == p.requests
                    }) && final(self)@ == (EngineView {
                        callbacks: Seq::<u64>::empty(),
                        pixels: Seq::<(usize, usize, Cell)>::empty(),
                        texts: Seq::<(u16, u16, String)>::empty(),
                        master: Seq::<ScreenAction>::empty(),
                        staged_pixels: old(self)@.pixels + p.pixels,
                        staged_texts: old(self)@.texts + p.texts,
                        staged_master: old(self)@.master,
                        in_tick: true,
                        ..old(self)@
                    }),
                }
            }),
    {
        let snapshot = self.actions.iter();
        proof {
            assert(snapshot@ =~= table_actions(self@.table));
        }
        let c = collect_matches(&snapshot, ActionType::RUN);
        match c.stopped {
            Some(Err(e)) => {
                return Err(EngineError::Config(e));
            },
            Some(Ok(code)) => {
                return Ok(
                    TickBegin {
                        exit: Some(code),
                        callbacks: Vec::new(),
                        producer_requests: Vec::new(),
                    },
                );
            },
            None => {},
        }
        let mut staged_pixels: Vec<(usize, usize, Cell)> = Vec::new();
        core::mem::swap(&mut staged_pixels, &mut self.pixel_queue);
        append_all(&mut staged_pixels, c.pixels);
        self.staged_pixels = staged_pixels;
        let mut staged_texts: Vec<(u16, u16, String)> = Vec::new();
        core::mem::swap(&mut staged_texts, &mut self.text_queue);
        append_all(&mut staged_texts, c.texts);
        self.staged_texts = staged_texts;
        let mut staged_master: Vec<ScreenAction> = Vec::new();
        core::mem::swap(&mut staged_master, &mut self.master_queue);
        self.staged_master = staged_master;
        let mut callbacks: Vec<u64> = Vec::new();
        core::mem::swap(&mut callbacks, &mut self.callback_queue);
        append_all(&mut callbacks, c.callbacks);
        self.in_tick = true;
        proof {
            let p = process_actions(table_actions(old(self)@.table), ActionType::RUN);
            assert(self@ =~= (EngineView {
                callbacks: Seq::<u64>::empty(),
                pixels: Seq::<(usize, usize, Cell)>::empty(),
                texts: Seq::<(u16, u16, String)>::empty(),
                master: Seq::<ScreenAction>::empty(),
                staged_pixels: old(self)@.pixels + p.pixels,
                staged_texts: old(self)@.texts + p.texts,
                staged_master: old(self)@.master,
                in_tick: true,
                ..old(self)@
            }));
        }
        Ok(TickBegin { exit: None, callbacks, producer_requests: c.requests })
    }

    /// Close a tick: apply the staged grid mutations to the back grid
    /// in order, then the staged dispatched effects, hand out the raw
    /// text writes, diff back against front, and copy back over front.
    /// A mutation out of range or an unsupported dispatched effect is
    /// fatal and leaves the engine exactly as it was; an exit arriving
    /// through the dispatch channel commits the mutations applied
    /// before it and skips the repaint.
    pub fn tick_finish(&mut self) -> (r: Result<TickResult, EngineError>)
        requires
            old(self).wf(),
            old(self)@.in_tick,
        ensures
            final(self).wf(),
            ({
                let v = old(self)@;
                let w = v.width as int;
                let h = v.height as int;
                match apply_pixels(v.back, w, h, v.staged_pixels) {
                    None => r == Err::<TickResult, EngineError>(
                        EngineError::Bounds(GridError::OutOfBounds),
                    ) && final(self)@ == v,
                    Some(g1) => ({
                        let m = process_master(g1, w, h, v.staged_master);
                        match m.outcome {
                            MasterOutcome::OutOfRange => r == Err::<TickResult, EngineError>(
                                EngineError::Bounds(GridError::OutOfBounds),
                            ) && final(self)@ == v,
                            MasterOutcome::Unsupported => r == Err::<TickResult, EngineError>(
                                EngineError::UnsupportedDispatch,
                            ) && final(self)@ == v,
                            MasterOutcome::Exit(code) => (r matches Ok(t) && {
                                &&& t.exit == Some(code)
                                &&& t.callbacks@ == m.callbacks
                                &&& t.writes@.len() == 0
                                &&& t.changed@.len() == 0
                            }) && final(self)@ == (EngineView {
                                back: m.grid,
                                staged_pixels: Seq::<(usize, usize, Cell)>::empty(),
                                staged_texts: Seq::<(u16, u16, String)>::empty(),
                                staged_master: Seq::<ScreenAction>::empty(),
                                in_tick: false,
                                ..v
                            }),
                            MasterOutcome::Continue => (r matches Ok(t) && {
                                &&& t.exit is None
                                &&& t.callbacks@ == m.callbacks
                                &&& t.writes@ == v.staged_texts
                                &&& t.changed@ == Grid::diff_upto(m.grid, v.front, w, h)
                            }) && final(self)@ == (EngineView {
                                back: m.grid,
                                front: m.grid,
                                staged_pixels: Seq::<(usize, usize, Cell)>::empty(),
                                staged_texts: Seq::<(u16, u16, String)>::empty(),
                                staged_master: Seq::<ScreenAction>::empty(),
                                in_tick: false,
                                ..v
                            }),
                        }
                    }),
                }
            }),
    {
        let ghost v = self@;
        let ghost w = self@.width as int;
        let ghost h = self@.height as int;
        let mut newback = self.back.snapshot();
        let np = self.staged_pixels.len();
        for i in 0..np
            invariant
                self.wf(),
                self@ == v,
                np == v.staged_pixels.len(),
                newback.wf(),
                newback.spec_width() == v.width,
                newback.spec_height() == v.height,
                apply_pixels_upto(v.back, w, h, v.staged_pixels, i as int) == Some(newback@),
                w == v.width as int,
                h == v.height as int,
        {
            let (x, y, c) = self.staged_pixels[i];
            match newback.set(x, y, c) {
                Ok(()) => {},
                Err(_) => {
                    proof {
                        assert(apply_pixels_upto(v.back, w, h, v.staged_pixels, i + 1) is None);
                        lemma_apply_pixels_none_stays(
                            v.back,
                            w,
                            h,
                            v.staged_pixels,
                            i + 1,
                            v.staged_pixels.len() as int,
                        );
                    }
                    return Err(EngineError::Bounds(GridError::OutOfBounds));
                },
            }
        }
        let ghost g1 = newback@;
        let mut callbacks: Vec<u64> = Vec::new();
        let mut exit_code: Option<i32> = None;
        let nm = self.staged_master.len();
        for i in 0..nm
            invariant
                self.wf(),
                self@ == v,
                nm == v.staged_master.len(),
                newback.wf(),
                newback.spec_width() == v.width,
                newback.spec_height() == v.height,
                w == v.width as int,
                h == v.height as int,
                apply_pixels(v.back, w, h, v.staged_pixels) == Some(g1),
                ({
                    let m = master_upto(g1, w, h, v.staged_master, i as int);
                    &&& m.grid == newback@
                    &&& m.callbacks == callbacks@
                    &&& (match exit_code {
                        None => m.outcome is Continue,
                        Some(code) => m.outcome == MasterOutcome::Exit(code),
                    })
                }),
        {
            if exit_code.is_none() {
                let act = &self.staged_master[i];
                match act {
                    ScreenAction::Exit(code) => {
                        exit_code = Some(*code);
                    },
                    ScreenAction::SetCell(x, y, c) => {
                        match newback.set(*x, *y, *c) {
                            Ok(()) => {},
                            Err(_) => {
                                proof {
                                    assert(master_upto(g1, w, h, v.staged_master, i + 1).outcome
                                        == MasterOutcome::OutOfRange);
                                    lemma_master_stopped_stays(
                                        g1,
                                        w,
                                        h,
                                        v.staged_master,
                                        i + 1,
                                        v.staged_master.len() as int,
                                    );
                                }
                                return Err(EngineError::Bounds(GridError::OutOfBounds));
                            },
                        }
                    },
                    ScreenAction::RunCallback(id) => {
                        callbacks.push(*id);
                    },
                    _ => {
                        proof {
                            assert(master_upto(g1, w, h, v.staged_master, i + 1).outcome
                                == MasterOutcome::Unsupported);
                            lemma_master_stopped_stays(
                                g1,
                                w,
                                h,
                                v.staged_master,
                                i + 1,
                                v.staged_master.len() as int,
                            );
                        }
                        return Err(EngineError::UnsupportedDispatch);
                    },
                }
            }
        }
        match exit_code {
            Some(code) => {
                self.back = newback;
                self.staged_pixels = Vec::new();
                self.staged_texts = Vec::new();
                self.staged_master = Vec::new();
                self.in_tick = false;
                proof {
                    let m = process_master(g1, w, h, v.staged_master);
                    assert(self@ =~= (EngineView {
                        back: m.grid,
                        staged_pixels: Seq::<(usize, usize, Cell)>::empty(),
                        staged_texts: Seq::<(u16, u16, String)>::empty(),
                        staged_master: Seq::<ScreenAction>::empty(),
                        in_tick: false,
                        ..v
                    }));
                }
                Ok(
                    TickResult {
                        exit: Some(code),
                        callbacks,
                        writes: Vec::new(),
                        changed: Vec::new(),
                    },
                )
            },
            None => {
                let changed = newback.diff(&self.front);
                let new_front = newback.snapshot();
                self.back = newback;
                self.front = new_front;
                let mut writes: Vec<(u16, u16, String)> = Vec::new();
                core::mem::swap(&mut writes, &mut self.staged_texts);
                self.staged_pixels = Vec::new();
                self.staged_master = Vec::new();
                self.in_tick = false;
                proof {
                    let m = process_master(g1, w, h, v.staged_master);
                    assert(self@ =~= (EngineView {
                        back: m.grid,
                        front: m.grid,
                        staged_pixels: Seq::<(usize, usize, Cell)>::empty(),
                        staged_texts: Seq::<(u16, u16, String)>::empty(),
                        staged_master: Seq::<ScreenAction>::empty(),
                        in_tick: false,
                        ..v
                    }));
                }
                Ok(TickResult { exit: None, callbacks, writes, changed })
            },
        }
    }
}


/// The repaint commands for the first `xn` cells of row `y`, in column
/// order: each cell at its 1-based terminal position, columns scaled by
/// the default cell width.
pub open spec fn draw_row(front: Seq<Seq<Cell>>, y: int, xn: int) -> Seq<(u16, u16, Cell)>
    decreases xn,
{
    if xn <= 0 {
        Seq::empty()
    } else {
        draw_row(front, y, xn - 1).push(
            (
                ((xn - 1) * (SCREEN_PIXEL_WIDTH as int) + 1) as u16,
                (y + 1) as u16,
                front[y][xn - 1],
            ),
        )
    }
}

/// The repaint commands for the first `yn` full rows, in row-major
/// order.
pub open spec fn draw_upto(front: Seq<Seq<Cell>>, w: int, yn: int) -> Seq<(u16, u16, Cell)>
    decreases yn,
{
    if yn <= 0 {
        Seq::empty()
    } else {
        draw_upto(front, w, yn - 1) + draw_row(front, yn - 1, w)
    }
}

/// One full repaint: every front-grid cell with the terminal position
/// it is written at, in row-major order.
pub open spec fn draw_spec(front: Seq<Seq<Cell>>, w: int, h: int) -> Seq<(u16, u16, Cell)> {
    draw_upto(front, w, h)
}

impl TerminalScreen {
    /// The full repaint of the front grid: for every cell, the 1-based
    /// terminal (column, row) to position the cursor at — columns
    /// scaled by the default cell width — and the cell whose glyph is
    /// written there, repeated its own width many times.
    pub fn draw(&self) -> (r: Vec<(u16, u16, Cell)>)
        requires
            self.wf(),
        ensures
            r@ == draw_spec(self@.front, self@.width as int, self@.height as int),
    {
        let (w, h) = self.dimensions;
        let mut r: Vec<(u16, u16, Cell)> = Vec::new();
        for y in 0..h
            invariant
                self.wf(),
                w == self@.width,
                h == self@.height,
                r@ == draw_upto(self@.front, w as int, y as int),
        {
            for x in 0..w
                invariant
                    self.wf(),
                    w == self@.width,
                    h == self@.height,
                    y < h,
                    r@ == draw_upto(self@.front, w as int, y as int) + draw_row(
                        self@.front,
                        y as int,
                        x as int,
                    ),
            {
                let cell = self.front.at(x, y);
                proof {
                    assert(x < 32767 && y < 65535);
                }
                let col = x * SCREEN_PIXEL_WIDTH + 1;
                let colu: u16 = col as u16;
                let rowu: u16 = (y + 1) as u16;
                r.push((colu, rowu, cell));
                proof {
                    assert(r@ =~= draw_upto(self@.front, w as int, y as int) + draw_row(
                        self@.front,
                        y as int,
                        x as int + 1,
                    ));
                }
            }
        }
        r
    }
}


} // verus!
