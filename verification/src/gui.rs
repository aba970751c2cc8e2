//! The per-window orchestrator: the layout-engine registry, the dirty flag,
//! the interaction state and the window-level signal bus, together with the
//! reactive-cell arenas that signal handlers act on.
//!
//! Every notification the runtime performs is recorded in a ghost trace, so
//! the contracts can say not only what state a call leaves behind but also
//! which notifications it delivered, and how many.

use vstd::prelude::*;

use crate::engine::NodeRec;
use crate::engine::RectRec;
use crate::engine::child_ranked;
use crate::engine::engine_compute;
use crate::engine::engine_model;
use crate::engine::engine_new;
use crate::engine::engine_new_with_children;
use crate::engine::engine_border;
use crate::engine::engine_rect;
use crate::graphics::PaintOp;
use crate::graphics::TextSection;
use crate::graphics::VisualStyle;
use crate::model::CellState;
use crate::numfmt::dec_str;
use crate::signal::ActivateHandler;
use crate::signal::BoolSource;
use crate::signal::Handler;
use crate::signal::PointerButton;
use crate::signal::Signals;
use crate::widget::WidgetData;
use crate::widget::WidgetKind;
use crate::widget::button::ButtonState;
use crate::widget::button::activate_ok;
use crate::widget::button::source_ok;
use crate::widget::button::visual_for;
use crate::widget::button::visual_for_state;

verus! {

/// The pointer relation of one widget: not under the pointer, under it, or
/// under it with the primary button held.
#[derive(Clone, Copy, PartialEq, Eq, Structural, Debug)]
pub enum PointerState {
    Idle,
    Over,
    Press,
}

/// One delivered notification, as recorded in the ghost trace.
pub enum Ev {
    /// A widget's pointer state was set.
    PointerSet { widget: int, state: PointerState },
    /// A widget's activation fired.
    Activated { widget: int },
    /// A cell's change signal was delivered carrying `value`.
    Changed { cell: int, value: int },
    /// A boolean cell's change signal was delivered carrying `value`.
    BoolChanged { cell: int, value: bool },
}

/// The interaction state: the widget currently highlighted (by id), and
/// whether the primary button is held.
pub struct GuiState {
    pub highlight: Option<u64>,
    pub pointer_press: bool,
}

/// The per-window orchestrator.
pub struct Gui {
    /// The layout engine instance used as the widget-handle registry.
    pub engine: taffy::Taffy,
    /// Set by every mutating operation, cleared once per redraw poll.
    pub dirty: bool,
    /// The pointer interaction state.
    pub state: GuiState,
    /// The window-level signal bus.
    pub signals: Signals,
    /// Integer reactive cells.
    pub cells: Vec<CellState>,
    /// Boolean reactive cells.
    pub bools: Vec<bool>,
    /// Per-button interaction state (shared by buttons and checkboxes).
    pub buttons: Vec<ButtonState>,
    /// Per-label text sections.
    pub texts: Vec<TextSection>,
    /// Per-widget visuals, indexed by each widget's visual slot.
    pub visuals: Vec<Option<VisualStyle>>,
    /// The next widget id to issue.
    pub next_id: u64,
    /// Every notification delivered so far.
    pub trace: Ghost<Seq<Ev>>,
}

/// `b` is `a` with the text of label `label` replaced by `s`, all else equal.
pub open spec fn texts_with_shown(a: Seq<TextSection>, b: Seq<TextSection>, label: int, s: Seq<char>) -> bool {
    &&& b.len() == a.len()
    &&& forall|j: int| 0 <= j < a.len() && j != label ==> b[j] == #[trigger] a[j]
    &&& b[label].text@ == s
    &&& b[label].font@ == a[label].font@
    &&& b[label].h_align == a[label].h_align
    &&& b[label].v_align == a[label].v_align
}

impl Gui {
    /// The registry contents, node by node.
    pub open spec fn nodes(self) -> Map<taffy::node::Node, NodeRec> {
        engine_model(self.engine)
    }

    /// Every stored handler points into the arenas it acts on.
    pub open spec fn wf(self) -> bool {
        &&& forall|i: int|
            0 <= i < self.cells@.len() ==> (#[trigger] self.cells@[i]).wf(self.texts@.len() as int)
        &&& forall|i: int|
            0 <= i < self.buttons@.len() ==> (#[trigger] self.buttons@[i]).wf(
                self.cells@.len() as int,
                self.bools@.len() as int,
            )
    }

    /// All parts not named by a contract clause are equal between `self`
    /// and `other` (the registry, bus, arenas, interaction state and id
    /// counter are compared individually by each contract).
    pub open spec fn same_arenas(self, other: Gui) -> bool {
        &&& other.cells@ == self.cells@
        &&& other.bools@ == self.bools@
        &&& other.buttons@ == self.buttons@
        &&& other.texts@ == self.texts@
        &&& other.visuals@ == self.visuals@
    }

    pub open spec fn same_frame(self, other: Gui) -> bool {
        &&& other.engine == self.engine
        &&& other.state == self.state
        &&& other.signals == self.signals
        &&& other.next_id == self.next_id
    }

    /// Sets the dirty flag; called by every mutating operation.
    pub(crate) fn mark_dirty(&mut self)
        ensures
            final(self).dirty,
            old(self).same_arenas(*final(self)),
            old(self).same_frame(*final(self)),
            final(self).trace@ == old(self).trace@,
    {
        self.dirty = true;
    }

    /// Atomically reads and clears the dirty flag: the redraw-decision poll.
    /// Between two polls any number of mutations raises the flag once; the
    /// first poll reads it and the immediately following poll reads false.
    pub fn check_dirty(&mut self) -> (was: bool)
        ensures
            was == old(self).dirty,
            !final(self).dirty,
            old(self).same_arenas(*final(self)),
            old(self).same_frame(*final(self)),
            final(self).trace@ == old(self).trace@,
    {
        let was = self.dirty;
        self.dirty = false;
        was
    }

    /// Delivers the change signal of cell `c` carrying `v`: records exactly
    /// one `Changed` notification and, if a handler is connected, renders
    /// `v` into the handler's label.
    pub(crate) fn deliver_change(&mut self, c: usize, v: i32)
        requires
            old(self).wf(),
            c < old(self).cells@.len(),
        ensures
            final(self).wf(),
            final(self).cells@ == old(self).cells@,
            final(self).bools@ == old(self).bools@,
            final(self).buttons@ == old(self).buttons@,
            final(self).visuals@ == old(self).visuals@,
            old(self).same_frame(*final(self)),
            final(self).dirty == old(self).dirty,
            final(self).trace@ == old(self).trace@ + seq![Ev::Changed { cell: c as int, value: v as int }],
            old(self).cells@[c as int].on_change is None ==> final(self).texts@ == old(self).texts@,
            old(self).cells@[c as int].on_change matches Some(h) ==> texts_with_shown(
                old(self).texts@,
                final(self).texts@,
                h.label as int,
                h.prefix@ + dec_str(v as int),
            ),
    {
        self.trace = Ghost(self.trace@ + seq![Ev::Changed { cell: c as int, value: v as int }]);
        let (label, prefix) = match &self.cells[c].on_change {
            Option::None => {
                return ;
            },
            Option::Some(h) => (h.label, h.prefix.clone()),
        };
        let digits = crate::numfmt::format_i32(v);
        let shown = prefix.concat(digits.as_str());
        let section = &mut self.texts[label];
        section.text = shown;
    }
}

// ---------------------------------------------------------------------------
// Hit-testing
// ---------------------------------------------------------------------------

/// Where hit-testing lands in `w`, with `x`, `y` relative to `w`'s parent:
/// the point is translated into `w`'s local space and must fall inside
/// `w`'s rectangle; children are tested before the widget itself,
/// last-added first, so overlapping siblings resolve to the most recently
/// inserted one; a widget is returned only if it is highlight-eligible,
/// and a non-eligible widget bounds the search without being a result.
pub open spec fn hit_spec(w: WidgetData, x: int, y: int) -> Option<u64>
    decreases w, 1int,
{
    let lx = x - w.rect.x;
    let ly = y - w.rect.y;
    if 0 <= lx && 0 <= ly && lx < w.rect.width && ly < w.rect.height {
        match hit_children(w.children@, w.children@.len() as int, lx, ly) {
            Some(id) => Some(id),
            None => if w.can_highlight {
                Some(w.id)
            } else {
                None
            },
        }
    } else {
        None
    }
}

/// Hit-testing over the last `n` children of `s`, tested from index `n - 1`
/// downward.
pub open spec fn hit_children(s: Seq<WidgetData>, n: int, x: int, y: int) -> Option<u64>
    decreases s, n, 0int,
{
    if n <= 0 || n > s.len() {
        None
    } else {
        match hit_spec(s[n - 1], x, y) {
            Some(id) => Some(id),
            None => hit_children(s, n - 1, x, y),
        }
    }
}

/// The hit-test walk, top-down and depth-first in reverse child order.
pub fn hit_highlightable_widget(w: &WidgetData, x: i64, y: i64) -> (r: Option<u64>)
    requires
        -0x1_0000_0000 <= x <= 0x1_0000_0000,
        -0x1_0000_0000 <= y <= 0x1_0000_0000,
    ensures
        r == hit_spec(*w, x as int, y as int),
    decreases *w,
{
    let lx: i64 = x - (w.rect.x as i64);
    let ly: i64 = y - (w.rect.y as i64);
    if 0 <= lx && 0 <= ly && lx < (w.rect.width as i64) && ly < (w.rect.height as i64) {
        let mut i: usize = w.children.len();
        #[verifier::loop_isolation(false)]
        while i > 0
            invariant
                i <= w.children@.len(),
                hit_children(w.children@, w.children@.len() as int, lx as int, ly as int)
                    == hit_children(w.children@, i as int, lx as int, ly as int),
            decreases i,
        {
            i = i - 1;
            proof {
                assert(decreases_to!(*w => w.children));
                assert(decreases_to!(w.children => w.children@));
                assert(decreases_to!(w.children@ => w.children@[i as int]));
            }
            let r = hit_highlightable_widget(&w.children[i], lx, ly);
            if r.is_some() {
                return r;
            }
        }
        if w.can_highlight {
            Some(w.id)
        } else {
            None
        }
    } else {
        None
    }
}

// ---------------------------------------------------------------------------
// Locating a widget by id
// ---------------------------------------------------------------------------

/// The kind and visual slot of the first widget with id `target`, in
/// depth-first pre-order.
pub open spec fn locate(w: WidgetData, target: u64) -> Option<(WidgetKind, usize)>
    decreases w, 1int,
{
    if w.id == target {
        Some((w.kind, w.visual_slot))
    } else {
        locate_in(w.children@, 0, target)
    }
}

/// [`locate`] over the children of a widget, from index `i` on.
pub open spec fn locate_in(s: Seq<WidgetData>, i: int, target: u64) -> Option<(WidgetKind, usize)>
    decreases s, s.len() - i, 0int,
{
    if i < 0 || i >= s.len() {
        None
    } else {
        match locate(s[i], target) {
            Some(p) => Some(p),
            None => locate_in(s, i + 1, target),
        }
    }
}

/// What [`locate`] returns points into the arenas of any `g` the tree is
/// well formed against.
pub proof fn lemma_locate_wf(w: WidgetData, g: Gui, target: u64)
    requires
        w.tree_wf(g),
        locate(w, target) is Some,
    ensures
        crate::widget::kind_ok(locate(w, target).unwrap().0, g),
        locate(w, target).unwrap().1 < g.visuals@.len(),
    decreases w, 1int,
{
    if w.id != target {
        lemma_locate_in_wf(w.children@, w.children@.len() as int, 0, g, target);
    }
}

proof fn lemma_locate_in_wf(s: Seq<WidgetData>, n: int, i: int, g: Gui, target: u64)
    requires
        crate::widget::seq_tree_wf(s, n, g),
        n == s.len(),
        0 <= i <= s.len(),
        locate_in(s, i, target) is Some,
    ensures
        crate::widget::kind_ok(locate_in(s, i, target).unwrap().0, g),
        locate_in(s, i, target).unwrap().1 < g.visuals@.len(),
    decreases s, s.len() - i, 0int,
{
    if i < s.len() {
        if locate(s[i], target) is Some {
            crate::widget::lemma_seq_tree_wf_at(s, n, i, g);
            lemma_locate_wf(s[i], g, target);
        } else {
            lemma_locate_in_wf(s, n, i + 1, g, target);
        }
    }
}

/// A miss over a suffix of children is a miss in each of them.
pub proof fn lemma_locate_in_none(s: Seq<WidgetData>, i: int, j: int, target: u64)
    requires
        locate_in(s, i, target) is None,
        0 <= i <= j < s.len(),
    ensures
        locate(s[j], target) is None,
    decreases j - i,
{
    if i < j {
        lemma_locate_in_none(s, i + 1, j, target);
    }
}

/// The executable form of [`locate`].
pub fn find_widget(w: &WidgetData, target: u64) -> (r: Option<(WidgetKind, usize)>)
    ensures
        r == locate(*w, target),
    decreases *w,
{
    if w.id == target {
        return Some((w.kind, w.visual_slot));
    }
    let mut i: usize = 0;
    #[verifier::loop_isolation(false)]
    while i < w.children.len()
        invariant
            0 <= i <= w.children@.len(),
            locate_in(w.children@, 0, target) == locate_in(w.children@, i as int, target),
        decreases w.children@.len() - i,
    {
        proof {
            assert(decreases_to!(*w => w.children));
            assert(decreases_to!(w.children => w.children@));
            assert(decreases_to!(w.children@ => w.children@[i as int]));
        }
        let r = find_widget(&w.children[i], target);
        if r.is_some() {
            return r;
        }
        i = i + 1;
    }
    None
}

// ---------------------------------------------------------------------------
// Pointer-state transitions
// ---------------------------------------------------------------------------

/// Which button-arena slot a kind carries, if it is button-like.
pub open spec fn buttonlike_slot(kind: WidgetKind) -> Option<usize> {
    match kind {
        WidgetKind::Button { slot, label_slot: _ } => Some(slot),
        WidgetKind::Checkbox { slot, rocker: _ } => Some(slot),
        WidgetKind::Container => None,
        WidgetKind::Label { slot: _ } => None,
    }
}

/// The boolean a source currently reads.
pub open spec fn source_value(g: Gui, src: Option<BoolSource>) -> bool {
    match src {
        None => false,
        Some(BoolSource::Cell { bool_cell }) => g.bools@[bool_cell as int],
        Some(BoolSource::Select { cell, value }) => g.cells@[cell as int].value == value,
    }
}

/// The integer cells after a toggle: toggling a selection lens that does
/// not currently hold writes its value; everything else leaves the cells
/// alone.
pub open spec fn cells_after_toggle(cells: Seq<CellState>, toggle: Option<BoolSource>) -> Seq<CellState> {
    match toggle {
        Some(BoolSource::Select { cell, value }) => if 0 <= cell < cells.len() && cells[cell as int].value != value {
            cells.update(cell as int, CellState { value, on_change: cells[cell as int].on_change })
        } else {
            cells
        },
        _ => cells,
    }
}

/// The boolean cells after a toggle: a boolean source flips.
pub open spec fn bools_after_toggle(bools: Seq<bool>, toggle: Option<BoolSource>) -> Seq<bool> {
    match toggle {
        Some(BoolSource::Cell { bool_cell }) => if 0 <= bool_cell < bools.len() {
            bools.update(bool_cell as int, !bools[bool_cell as int])
        } else {
            bools
        },
        _ => bools,
    }
}

/// The cell and value an activation handler writes, given the cells it
/// sees when it runs.
pub open spec fn handler_write(cells: Seq<CellState>, h: ActivateHandler) -> (int, i32) {
    match h {
        ActivateHandler::Increment { cell } => (
            cell as int,
            crate::model::wrap_inc(cells[cell as int].value as int) as i32,
        ),
        ActivateHandler::Decrement { cell } => (
            cell as int,
            crate::model::wrap_dec(cells[cell as int].value as int) as i32,
        ),
        ActivateHandler::SetTo { cell, value } => (cell as int, value),
    }
}

/// The integer cells after the activation handler ran.
pub open spec fn cells_after_handler(cells: Seq<CellState>, handler: Option<ActivateHandler>) -> Seq<CellState> {
    match handler {
        None => cells,
        Some(h) => {
            let (c, v) = handler_write(cells, h);
            if 0 <= c < cells.len() {
                cells.update(c, CellState { value: v, on_change: cells[c].on_change })
            } else {
                cells
            }
        },
    }
}

/// The change notifications a toggle delivers: flipping a boolean cell
/// delivers its new value; toggling a selection lens that does not
/// currently hold delivers the selected value through the integer cell.
pub open spec fn toggle_events(cells: Seq<CellState>, bools: Seq<bool>, toggle: Option<BoolSource>) -> Seq<Ev> {
    match toggle {
        Some(BoolSource::Cell { bool_cell }) => if 0 <= bool_cell < bools.len() {
            seq![Ev::BoolChanged { cell: bool_cell as int, value: !bools[bool_cell as int] }]
        } else {
            Seq::empty()
        },
        Some(BoolSource::Select { cell, value }) => if 0 <= cell < cells.len() && cells[cell as int].value != value {
            seq![Ev::Changed { cell: cell as int, value: value as int }]
        } else {
            Seq::empty()
        },
        None => Seq::empty(),
    }
}

/// The change notifications an activation handler delivers.
pub open spec fn handler_events(cells: Seq<CellState>, handler: Option<ActivateHandler>) -> Seq<Ev> {
    match handler {
        None => Seq::empty(),
        Some(h) => {
            let (c, v) = handler_write(cells, h);
            seq![Ev::Changed { cell: c, value: v as int }]
        },
    }
}

/// Everything one activation delivers: the toggle's change, the activation
/// itself, then the handler's change against the toggled cells.
pub open spec fn activation_events(cells: Seq<CellState>, bools: Seq<bool>, widget: u64, toggle: Option<BoolSource>, handler: Option<ActivateHandler>) -> Seq<Ev> {
    toggle_events(cells, bools, toggle) + seq![Ev::Activated { widget: widget as int }]
        + handler_events(cells_after_toggle(cells, toggle), handler)
}

/// The label write a toggle's change delivery performs, if any.
pub open spec fn toggle_text_write(cells: Seq<CellState>, toggle: Option<BoolSource>) -> Option<(int, Seq<char>)> {
    match toggle {
        Some(BoolSource::Select { cell, value }) => if 0 <= cell < cells.len() && cells[cell as int].value != value {
            match cells[cell as int].on_change {
                Some(h) => Some((h.label as int, h.prefix@ + dec_str(value as int))),
                None => None,
            }
        } else {
            None
        },
        _ => None,
    }
}

/// The label write an activation handler's change delivery performs.
pub open spec fn handler_text_write(cells: Seq<CellState>, handler: Option<ActivateHandler>) -> Option<(int, Seq<char>)> {
    match handler {
        None => None,
        Some(h) => {
            let (c, v) = handler_write(cells, h);
            if 0 <= c < cells.len() {
                match cells[c].on_change {
                    Some(hh) => Some((hh.label as int, hh.prefix@ + dec_str(v as int))),
                    None => None,
                }
            } else {
                None
            }
        },
    }
}

/// `b` is `a` after the given optional label write.
pub open spec fn shown_opt(a: Seq<TextSection>, b: Seq<TextSection>, w: Option<(int, Seq<char>)>) -> bool {
    match w {
        None => b == a,
        Some((l, s)) => texts_with_shown(a, b, l, s),
    }
}

/// How one `set_pointer_state` delivery changes the orchestrator: the
/// located widget is notified; a button-like widget updates its press
/// bookkeeping, repaints its background (marking dirty), and — on a
/// release over a press — activates exactly once; any other widget's
/// reaction is a no-op. A target absent from the tree changes nothing.
pub open spec fn transition_rel(a: Gui, b: Gui, root: WidgetData, target: u64, st: PointerState) -> bool {
    &&& b.trace@ == a.trace@ + transition_events(a, root, target, st)
    &&& b.engine == a.engine
    &&& b.state == a.state
    &&& b.signals == a.signals
    &&& b.next_id == a.next_id
    &&& match locate(root, target) {
        None => a.same_arenas(b) && b.dirty == a.dirty,
        Some((kind, vs)) => match buttonlike_slot(kind) {
            None => a.same_arenas(b) && b.dirty == a.dirty,
            Some(slot) => {
                let fired = st is Over && a.buttons@[slot as int].was_pressed;
                &&& b.buttons@ == a.buttons@.update(
                    slot as int,
                    ButtonState { was_pressed: st is Press, ..a.buttons@[slot as int] },
                )
                &&& b.visuals@ == a.visuals@.update(vs as int, Some(visual_for(st)))
                &&& b.dirty
                &&& if fired {
                    &&& b.cells@ == cells_after_handler(
                        cells_after_toggle(a.cells@, a.buttons@[slot as int].toggle),
                        a.buttons@[slot as int].on_activate,
                    )
                    &&& b.bools@ == bools_after_toggle(a.bools@, a.buttons@[slot as int].toggle)
                    &&& exists|mid: Seq<TextSection>|
                        shown_opt(a.texts@, mid, toggle_text_write(a.cells@, a.buttons@[slot as int].toggle))
                            && shown_opt(
                            mid,
                            b.texts@,
                            handler_text_write(
                                cells_after_toggle(a.cells@, a.buttons@[slot as int].toggle),
                                a.buttons@[slot as int].on_activate,
                            ),
                        )
                } else {
                    b.cells@ == a.cells@ && b.bools@ == a.bools@ && b.texts@ == a.texts@
                }
            },
        },
    }
}

/// The notifications one `set_pointer_state` delivery records.
pub open spec fn transition_events(a: Gui, root: WidgetData, target: u64, st: PointerState) -> Seq<Ev> {
    match locate(root, target) {
        None => Seq::empty(),
        Some((kind, vs)) => seq![Ev::PointerSet { widget: target as int, state: st }] + (
        match buttonlike_slot(kind) {
            Some(slot) => if st is Over && a.buttons@[slot as int].was_pressed {
                activation_events(
                    a.cells@,
                    a.bools@,
                    target,
                    a.buttons@[slot as int].toggle,
                    a.buttons@[slot as int].on_activate,
                )
            } else {
                Seq::empty()
            },
            None => Seq::empty(),
        }),
    }
}

impl Gui {
    /// Writes `v` into integer cell `c` and delivers its change signal.
    pub(crate) fn write_cell(&mut self, c: usize, v: i32)
        requires
            old(self).wf(),
            c < old(self).cells@.len(),
        ensures
            final(self).wf(),
            final(self).cells@ == old(self).cells@.update(
                c as int,
                CellState { value: v, on_change: old(self).cells@[c as int].on_change },
            ),
            final(self).trace@ == old(self).trace@ + seq![Ev::Changed { cell: c as int, value: v as int }],
            old(self).cells@[c as int].on_change is None ==> final(self).texts@ == old(self).texts@,
            old(self).cells@[c as int].on_change matches Some(h) ==> texts_with_shown(
                old(self).texts@,
                final(self).texts@,
                h.label as int,
                h.prefix@ + dec_str(v as int),
            ),
            final(self).bools@ == old(self).bools@,
            final(self).buttons@ == old(self).buttons@,
            final(self).visuals@ == old(self).visuals@,
            old(self).same_frame(*final(self)),
            final(self).dirty == old(self).dirty,
    {
        {
            let cell = &mut self.cells[c];
            cell.value = v;
        }
        self.deliver_change(c, v);
    }

    /// Runs one activation: the toggled model flips, the activation is
    /// recorded, and the activation handler acts on its cell — each change
    /// delivering its own notification in turn.
    pub(crate) fn run_activation(&mut self, widget: u64, toggle: Option<BoolSource>, handler: Option<ActivateHandler>)
        requires
            old(self).wf(),
            toggle matches Some(s) ==> source_ok(s, old(self).cells@.len() as int, old(self).bools@.len() as int),
            handler matches Some(h) ==> activate_ok(h, old(self).cells@.len() as int),
        ensures
            final(self).wf(),
            final(self).trace@ == old(self).trace@ + activation_events(
                old(self).cells@,
                old(self).bools@,
                widget,
                toggle,
                handler,
            ),
            final(self).cells@ == cells_after_handler(cells_after_toggle(old(self).cells@, toggle), handler),
            final(self).bools@ == bools_after_toggle(old(self).bools@, toggle),
            final(self).buttons@ == old(self).buttons@,
            final(self).visuals@ == old(self).visuals@,
            old(self).same_frame(*final(self)),
            final(self).dirty == old(self).dirty,
            exists|mid: Seq<TextSection>|
                shown_opt(old(self).texts@, mid, toggle_text_write(old(self).cells@, toggle)) && shown_opt(
                    mid,
                    final(self).texts@,
                    handler_text_write(cells_after_toggle(old(self).cells@, toggle), handler),
                ),
    {
        match toggle {
            None => {},
            Some(BoolSource::Cell { bool_cell }) => {
                let cur = self.bools[bool_cell];
                self.bools.set(bool_cell, !cur);
                self.trace = Ghost(
                    self.trace@ + seq![Ev::BoolChanged { cell: bool_cell as int, value: !cur }],
                );
            },
            Some(BoolSource::Select { cell, value }) => {
                if self.cells[cell].value != value {
                    self.write_cell(cell, value);
                }
            },
        }
        let ghost mid_texts = self.texts@;
        self.trace = Ghost(self.trace@ + seq![Ev::Activated { widget: widget as int }]);
        match handler {
            None => {},
            Some(ActivateHandler::Increment { cell }) => {
                let v = self.cells[cell].value;
                let next: i32 = if v == i32::MAX {
                    i32::MIN
                } else {
                    v + 1
                };
                self.write_cell(cell, next);
            },
            Some(ActivateHandler::Decrement { cell }) => {
                let v = self.cells[cell].value;
                let next: i32 = if v == i32::MIN {
                    i32::MAX
                } else {
                    v - 1
                };
                self.write_cell(cell, next);
            },
            Some(ActivateHandler::SetTo { cell, value }) => {
                self.write_cell(cell, value);
            },
        }
        proof {
            assert(final(self).trace@ =~= old(self).trace@ + activation_events(
                old(self).cells@,
                old(self).bools@,
                widget,
                toggle,
                handler,
            ));
            assert(final(self).cells@ =~= cells_after_handler(
                cells_after_toggle(old(self).cells@, toggle),
                handler,
            ));
            assert(final(self).bools@ =~= bools_after_toggle(old(self).bools@, toggle));
            assert(shown_opt(old(self).texts@, mid_texts, toggle_text_write(old(self).cells@, toggle)));
            assert(shown_opt(
                mid_texts,
                final(self).texts@,
                handler_text_write(cells_after_toggle(old(self).cells@, toggle), handler),
            ));
        }
    }

    /// Delivers one `set_pointer_state` to the widget with id `target`.
    pub(crate) fn transition_widget(&mut self, root: &WidgetData, target: u64, st: PointerState)
        requires
            old(self).wf(),
            root.tree_wf(*old(self)),
        ensures
            final(self).wf(),
            root.tree_wf(*final(self)),
            transition_rel(*old(self), *final(self), *root, target, st),
    {
        let found = find_widget(root, target);
        match found {
            None => {
                proof {
                    assert(final(self).trace@ =~= old(self).trace@ + transition_events(
                        *old(self),
                        *root,
                        target,
                        st,
                    ));
                }
            },
            Some((kind, vs)) => {
                proof {
                    lemma_locate_wf(*root, *old(self), target);
                }
                self.trace = Ghost(self.trace@ + seq![Ev::PointerSet { widget: target as int, state: st }]);
                match kind {
                    WidgetKind::Button { slot, label_slot: _ } | WidgetKind::Checkbox { slot, rocker: _ } => {
                        let was = self.buttons[slot].was_pressed;
                        let toggle = self.buttons[slot].toggle;
                        let handler = self.buttons[slot].on_activate;
                        {
                            let bs = &mut self.buttons[slot];
                            bs.was_pressed = matches!(st, PointerState::Press);
                        }
                        self.visuals.set(vs, Some(visual_for_state(st)));
                        self.mark_dirty();
                        if matches!(st, PointerState::Over) && was {
                            self.run_activation(target, toggle, handler);
                        }
                        proof {
                            assert(final(self).trace@ =~= old(self).trace@ + transition_events(
                                *old(self),
                                *root,
                                target,
                                st,
                            ));
                            assert(final(self).buttons@ =~= old(self).buttons@.update(
                                slot as int,
                                ButtonState {
                                    was_pressed: st is Press,
                                    ..old(self).buttons@[slot as int]
                                },
                            ));
                            assert(final(self).visuals@ =~= old(self).visuals@.update(
                                vs as int,
                                Some(visual_for(st)),
                            ));
                        }
                    },
                    WidgetKind::Container => {
                        proof {
                            assert(final(self).trace@ =~= old(self).trace@ + transition_events(
                                *old(self),
                                *root,
                                target,
                                st,
                            ));
                        }
                    },
                    WidgetKind::Label { slot: _ } => {
                        proof {
                            assert(final(self).trace@ =~= old(self).trace@ + transition_events(
                                *old(self),
                                *root,
                                target,
                                st,
                            ));
                        }
                    },
                }
            },
        }
        proof {
            crate::widget::lemma_tree_wf_preserved(
                *root,
                *old(self),
                *final(self),
                root.nodes_of(),
            );
        }
    }
}


// ---------------------------------------------------------------------------
// The interaction state machine
// ---------------------------------------------------------------------------

/// Equality on optional widget ids.
fn opt_eq(a: Option<u64>, b: Option<u64>) -> (r: bool)
    ensures
        r == (a == b),
{
    match (a, b) {
        (Option::None, Option::None) => true,
        (Option::Some(x), Option::Some(y)) => x == y,
        _ => false,
    }
}

/// What a pointer-motion emission does: with no handler connected it is a
/// no-op; otherwise the point is hit-tested from the root, and only when
/// the hit differs from the current highlight does anything happen — the
/// previous target (if any) is set to `Idle`, the new target (if any) to
/// `Press` or `Over` according to the held button, and the hit becomes the
/// highlight. The machine never notifies any other widget, and never skips
/// notifying the previous target.
pub open spec fn motion_rel(a: Gui, b: Gui, root: WidgetData, x: int, y: int) -> bool {
    if !a.signals.pointer_motion {
        b == a
    } else {
        let hit = hit_spec(root, x, y);
        if hit == a.state.highlight {
            b == a
        } else {
            exists|m1: Gui, m2: Gui| #[trigger] motion_steps(a, b, m1, m2, root, x, y)
        }
    }
}

/// The two deliveries of one pointer motion, through their intermediate
/// states: the previous highlight target to `Idle`, then the new target to
/// `Press` or `Over`, then the highlight is stored.
pub open spec fn motion_steps(a: Gui, b: Gui, m1: Gui, m2: Gui, root: WidgetData, x: int, y: int) -> bool {
    let hit = hit_spec(root, x, y);
    &&& (match a.state.highlight {
        Some(t0) => transition_rel(a, m1, root, t0, PointerState::Idle),
        None => m1 == a,
    })
    &&& (match hit {
        Some(t1) => transition_rel(
            m1,
            m2,
            root,
            t1,
            if a.state.pointer_press {
                PointerState::Press
            } else {
                PointerState::Over
            },
        ),
        None => m2 == m1,
    })
    &&& b == (Gui { state: GuiState { highlight: hit, pointer_press: a.state.pointer_press }, ..m2 })
}

/// What a pointer-button emission does: with no handler connected, or for
/// a non-primary button, it is a no-op; otherwise the highlighted widget
/// (if any) is set to `Press` or `Over`, and the pressed flag is stored
/// unconditionally.
pub open spec fn button_rel(a: Gui, b: Gui, root: WidgetData, pb: PointerButton) -> bool {
    if !a.signals.pointer_button || pb.button != 1 {
        b == a
    } else {
        exists|m1: Gui| #[trigger] button_step(a, b, m1, root, pb)
    }
}

/// The one delivery of a pointer-button change, through its intermediate
/// state: the highlighted widget is set to `Press` or `Over`, then the
/// pressed flag is stored unconditionally.
pub open spec fn button_step(a: Gui, b: Gui, m1: Gui, root: WidgetData, pb: PointerButton) -> bool {
    &&& (match a.state.highlight {
        Some(t) => transition_rel(
            a,
            m1,
            root,
            t,
            if pb.state {
                PointerState::Press
            } else {
                PointerState::Over
            },
        ),
        None => m1 == a,
    })
    &&& b == (Gui { state: GuiState { highlight: a.state.highlight, pointer_press: pb.state }, ..m1 })
}

impl Gui {
    /// Forwards a pointer motion into the interaction state machine.
    pub fn emit_pointer_motion(&mut self, root: &WidgetData, x: i32, y: i32)
        requires
            old(self).wf(),
            root.tree_wf(*old(self)),
        ensures
            final(self).wf(),
            root.tree_wf(*final(self)),
            motion_rel(*old(self), *final(self), *root, x as int, y as int),
    {
        if !self.signals.pointer_motion {
            return ;
        }
        let hit = hit_highlightable_widget(root, x as i64, y as i64);
        let cur = self.state.highlight;
        if !opt_eq(hit, cur) {
            if let Option::Some(t0) = cur {
                self.transition_widget(root, t0, PointerState::Idle);
            }
            let ghost m1 = *self;
            if let Option::Some(t1) = hit {
                let st = if self.state.pointer_press {
                    PointerState::Press
                } else {
                    PointerState::Over
                };
                self.transition_widget(root, t1, st);
            }
            let ghost m2 = *self;
            self.state.highlight = hit;
            proof {
                assert(motion_steps(*old(self), *final(self), m1, m2, *root, x as int, y as int));
                crate::widget::lemma_tree_wf_preserved(*root, m2, *final(self), root.nodes_of());
            }
        }
    }

    /// Forwards a pointer-button change into the interaction state
    /// machine.
    pub fn emit_pointer_button(&mut self, root: &WidgetData, button: PointerButton)
        requires
            old(self).wf(),
            root.tree_wf(*old(self)),
        ensures
            final(self).wf(),
            root.tree_wf(*final(self)),
            button_rel(*old(self), *final(self), *root, button),
    {
        if !self.signals.pointer_button {
            return ;
        }
        if button.button != 1 {
            return ;
        }
        if let Option::Some(t) = self.state.highlight {
            let st = if button.state {
                PointerState::Press
            } else {
                PointerState::Over
            };
            self.transition_widget(root, t, st);
        }
        let ghost m1 = *self;
        self.state.pointer_press = button.state;
        proof {
            assert(button_step(*old(self), *final(self), m1, *root, button));
            crate::widget::lemma_tree_wf_preserved(*root, m1, *final(self), root.nodes_of());
        }
    }
}


// ---------------------------------------------------------------------------
// The layout pass
// ---------------------------------------------------------------------------

/// A scratch-engine mirror of one widget subtree, built afresh for each
/// layout computation: the engine edges are derived from the tree's own
/// child lists, so the two structures cannot diverge. It appears in
/// `emit_layout`'s contract as the witness tying each widget to the
/// engine node whose computed rectangle it received.
pub struct ScratchTree {
    pub n: taffy::node::Node,
    pub kids: Vec<ScratchTree>,
}

/// The root nodes of a mirror sequence, in order.
pub open spec fn kid_nodes_of(s: Seq<ScratchTree>) -> Seq<taffy::node::Node> {
    Seq::new(s.len(), |i: int| s[i].n)
}

/// Every registry node of a mirror.
pub open spec fn mirror_nodes(st: ScratchTree) -> Set<taffy::node::Node>
    decreases st, 0int,
{
    seq_mirror_nodes(st.kids@, st.kids@.len() as int).insert(st.n)
}

pub open spec fn seq_mirror_nodes(s: Seq<ScratchTree>, n: int) -> Set<taffy::node::Node>
    decreases s, n, 1int,
{
    if n <= 0 || n > s.len() {
        Set::empty()
    } else {
        seq_mirror_nodes(s, n - 1).union(mirror_nodes(s[n - 1]))
    }
}

/// `st` mirrors the widget subtree `w` in the engine model `m`: node by
/// node, the engine holds the widget's own box style and exactly the
/// mirror's child list.
pub open spec fn mirrors(st: ScratchTree, w: WidgetData, m: Map<taffy::node::Node, NodeRec>) -> bool
    decreases st, 1int,
{
    &&& m.contains_key(st.n)
    &&& m[st.n].style == w.style.rec()
    &&& m[st.n].kids == kid_nodes_of(st.kids@)
    &&& st.kids@.len() == w.children@.len()
    &&& seq_mirrors(st.kids@, w.children@, st.kids@.len() as int, m)
}

pub open spec fn seq_mirrors(s: Seq<ScratchTree>, t: Seq<WidgetData>, n: int, m: Map<taffy::node::Node, NodeRec>) -> bool
    decreases s, n, 2int,
{
    if n <= 0 || n > s.len() || n > t.len() {
        true
    } else {
        seq_mirrors(s, t, n - 1, m) && mirrors(s[n - 1], t[n - 1], m)
    }
}

/// `b` keeps the style and child list of every entry `a` holds.
pub open spec fn styles_kept(a: Map<taffy::node::Node, NodeRec>, b: Map<taffy::node::Node, NodeRec>) -> bool {
    forall|n: taffy::node::Node|
        a.contains_key(n) ==> b.contains_key(n) && (#[trigger] b[n]).style == a[n].style
            && b[n].kids == a[n].kids
}

/// Mirroring reads only styles and child lists, so it survives any change
/// that keeps them.
proof fn lemma_mirrors_stable(st: ScratchTree, w: WidgetData, m1: Map<taffy::node::Node, NodeRec>, m2: Map<taffy::node::Node, NodeRec>)
    requires
        mirrors(st, w, m1),
        styles_kept(m1, m2),
    ensures
        mirrors(st, w, m2),
    decreases st, 1int,
{
    lemma_seq_mirrors_stable(st.kids@, w.children@, st.kids@.len() as int, m1, m2);
}

proof fn lemma_seq_mirrors_stable(s: Seq<ScratchTree>, t: Seq<WidgetData>, n: int, m1: Map<taffy::node::Node, NodeRec>, m2: Map<taffy::node::Node, NodeRec>)
    requires
        seq_mirrors(s, t, n, m1),
        styles_kept(m1, m2),
    ensures
        seq_mirrors(s, t, n, m2),
    decreases s, n, 2int,
{
    if 0 < n <= s.len() && n <= t.len() {
        lemma_seq_mirrors_stable(s, t, n - 1, m1, m2);
        lemma_mirrors_stable(s[n - 1], t[n - 1], m1, m2);
    }
}

proof fn lemma_seq_mirrors_at(s: Seq<ScratchTree>, t: Seq<WidgetData>, n: int, i: int, m: Map<taffy::node::Node, NodeRec>)
    requires
        seq_mirrors(s, t, n, m),
        0 <= i < n <= s.len(),
        n <= t.len(),
    ensures
        mirrors(s[i], t[i], m),
    decreases n,
{
    if i < n - 1 {
        lemma_seq_mirrors_at(s, t, n - 1, i, m);
    }
}

proof fn lemma_seq_mirrors_build(s: Seq<ScratchTree>, t: Seq<WidgetData>, n: int, m: Map<taffy::node::Node, NodeRec>)
    requires
        n <= s.len(),
        n <= t.len(),
        forall|j: int| 0 <= j < n ==> mirrors(#[trigger] s[j], t[j], m),
    ensures
        seq_mirrors(s, t, n, m),
    decreases n,
{
    if n > 0 {
        lemma_seq_mirrors_build(s, t, n - 1, m);
    }
}

/// A member's mirror nodes are among the union of its prefix.
proof fn lemma_seq_mirror_nodes_contains(s: Seq<ScratchTree>, n: int, i: int)
    requires
        0 <= i < n <= s.len(),
    ensures
        mirror_nodes(s[i]).subset_of(seq_mirror_nodes(s, n)),
    decreases n,
{
    if i < n - 1 {
        lemma_seq_mirror_nodes_contains(s, n - 1, i);
    }
}

/// A mirrored subtree's nodes all live in the model.
proof fn lemma_mirror_nodes_in_dom(st: ScratchTree, w: WidgetData, m: Map<taffy::node::Node, NodeRec>)
    requires
        mirrors(st, w, m),
    ensures
        mirror_nodes(st).subset_of(m.dom()),
    decreases st, 1int,
{
    lemma_seq_mirror_nodes_in_dom(st.kids@, w.children@, st.kids@.len() as int, m);
}

proof fn lemma_seq_mirror_nodes_in_dom(s: Seq<ScratchTree>, t: Seq<WidgetData>, n: int, m: Map<taffy::node::Node, NodeRec>)
    requires
        seq_mirrors(s, t, n, m),
        n <= s.len(),
        n <= t.len(),
    ensures
        seq_mirror_nodes(s, n).subset_of(m.dom()),
    decreases s, n, 2int,
{
    if 0 < n <= s.len() {
        lemma_seq_mirror_nodes_in_dom(s, t, n - 1, m);
        lemma_mirror_nodes_in_dom_sub(s[n - 1], t[n - 1], m);
    }
}

proof fn lemma_mirror_nodes_in_dom_sub(st: ScratchTree, w: WidgetData, m: Map<taffy::node::Node, NodeRec>)
    requires
        mirrors(st, w, m),
    ensures
        mirror_nodes(st).subset_of(m.dom()),
    decreases st, 1int,
{
    lemma_seq_mirror_nodes_in_dom(st.kids@, w.children@, st.kids@.len() as int, m);
}

/// Sequences equal on a prefix have the same prefix facts.
proof fn lemma_st_prefix_congruent(s: Seq<ScratchTree>, s2: Seq<ScratchTree>, t: Seq<WidgetData>, n: int, m: Map<taffy::node::Node, NodeRec>)
    requires
        0 <= n <= s.len(),
        n <= s2.len(),
        forall|i: int| 0 <= i < n ==> s[i] == s2[i],
    ensures
        seq_mirror_nodes(s, n) == seq_mirror_nodes(s2, n),
        seq_mirrors(s, t, n, m) == seq_mirrors(s2, t, n, m),
    decreases n,
{
    if n > 0 {
        lemma_st_prefix_congruent(s, s2, t, n - 1, m);
    }
}

/// Every rank in `rk` for a node of `m` lies below `bound`.
spec fn ranks_below(m: Map<taffy::node::Node, NodeRec>, rk: Map<taffy::node::Node, nat>, bound: nat) -> bool {
    forall|n: taffy::node::Node| m.contains_key(n) ==> #[trigger] rk[n] < bound
}

/// Builds the scratch mirror of `w` bottom-up: each node is created with
/// its children already in place, so the scratch engine's child edges are
/// exactly the tree's child lists. The returned rank map witnesses that
/// the scratch edges strictly descend (children are created before their
/// parent), which the layout computation needs to terminate.
fn build_scratch(t: &mut taffy::Taffy, w: &WidgetData, rk: Ghost<Map<taffy::node::Node, nat>>, bound: Ghost<nat>) -> (res: (ScratchTree, Ghost<Map<taffy::node::Node, nat>>, Ghost<nat>))
    requires
        child_ranked(engine_model(*old(t)), rk@),
        ranks_below(engine_model(*old(t)), rk@, bound@),
    ensures
        child_ranked(engine_model(*final(t)), res.1@),
        ranks_below(engine_model(*final(t)), res.1@, res.2@),
        engine_model(*old(t)).dom().subset_of(engine_model(*final(t)).dom()),
        styles_kept(engine_model(*old(t)), engine_model(*final(t))),
        mirrors(res.0, *w, engine_model(*final(t))),
        engine_model(*final(t)).dom() == engine_model(*old(t)).dom().union(mirror_nodes(res.0)),
    decreases *w,
{
    let mut kid_trees: Vec<ScratchTree> = Vec::new();
    let mut kid_nodes: Vec<taffy::node::Node> = Vec::new();
    let mut rk_cur: Ghost<Map<taffy::node::Node, nat>> = rk;
    let mut bound_cur: Ghost<nat> = bound;
    let mut i: usize = 0;
    #[verifier::loop_isolation(false)]
    while i < w.children.len()
        invariant
            i <= w.children@.len(),
            child_ranked(engine_model(*t), rk_cur@),
            ranks_below(engine_model(*t), rk_cur@, bound_cur@),
            engine_model(*old(t)).dom().subset_of(engine_model(*t).dom()),
            styles_kept(engine_model(*old(t)), engine_model(*t)),
            kid_trees@.len() == i,
            kid_nodes@.len() == i,
            forall|j: int|
                0 <= j < i ==> mirrors(#[trigger] kid_trees@[j], w.children@[j], engine_model(*t)),
            forall|j: int| 0 <= j < i ==> kid_nodes@[j] == (#[trigger] kid_trees@[j]).n,
            engine_model(*t).dom() == engine_model(*old(t)).dom().union(
                seq_mirror_nodes(kid_trees@, i as int),
            ),
        decreases w.children@.len() - i,
    {
        let ghost m_before = engine_model(*t);
        let ghost kids_before = kid_trees@;
        proof {
            assert(decreases_to!(*w => w.children));
            assert(decreases_to!(w.children => w.children@));
            assert(decreases_to!(w.children@ => w.children@[i as int]));
        }
        let (st, rk2, b2) = build_scratch(t, &w.children[i], rk_cur, bound_cur);
        rk_cur = rk2;
        bound_cur = b2;
        kid_nodes.push(st.n);
        kid_trees.push(st);
        i = i + 1;
        proof {
            let m_now = engine_model(*t);
            assert forall|j: int| 0 <= j < i implies mirrors(
                #[trigger] kid_trees@[j],
                w.children@[j],
                m_now,
            ) by {
                if j < i - 1 {
                    lemma_mirrors_stable(kid_trees@[j], w.children@[j], m_before, m_now);
                }
            }
            assert(styles_kept(engine_model(*old(t)), m_now)) by {
                assert forall|n: taffy::node::Node|
                    engine_model(*old(t)).contains_key(n) implies m_now.contains_key(n) && (
                #[trigger] m_now[n]).style == engine_model(*old(t))[n].style && m_now[n].kids
                    == engine_model(*old(t))[n].kids by {
                    assert(m_before.contains_key(n));
                    assert(m_before[n].style == engine_model(*old(t))[n].style);
                    assert(m_before[n].kids == engine_model(*old(t))[n].kids);
                }
            }
            lemma_st_prefix_congruent(kids_before, kid_trees@, w.children@, i - 1, m_now);
            assert(seq_mirror_nodes(kid_trees@, i as int) =~= seq_mirror_nodes(
                kids_before,
                i - 1,
            ).union(mirror_nodes(kid_trees@[i - 1])));
            assert(m_now.dom() =~= engine_model(*old(t)).dom().union(
                seq_mirror_nodes(kid_trees@, i as int),
            ));
        }
    }
    let ghost m0 = engine_model(*t);
    proof {
        assert forall|j: int|
            0 <= j < kid_nodes@.len() implies engine_model(*t).contains_key(
            #[trigger] kid_nodes@[j],
        ) by {
            assert(mirrors(kid_trees@[j], w.children@[j], engine_model(*t)));
        }
    }
    let n = engine_new_with_children(
        t,
        w.style.min_width,
        w.style.min_height,
        w.style.flex_grow,
        w.style.border,
        &kid_nodes,
    );
    let res_tree = ScratchTree { n, kids: kid_trees };
    proof {
        let m1 = engine_model(*t);
        let rk3 = rk_cur@.insert(n, bound_cur@);
        assert(child_ranked(m1, rk3)) by {
            assert forall|nd: taffy::node::Node, j: int|
                m1.contains_key(nd) && 0 <= j < m1[nd].kids.len() implies {
                &&& m1.contains_key(#[trigger] m1[nd].kids[j])
                &&& rk3[m1[nd].kids[j]] < rk3[nd]
            } by {
                if nd == n {
                    let kd = m1[nd].kids[j];
                    assert(kd == kid_nodes@[j]);
                    assert(mirrors(kid_trees@[j], w.children@[j], m0));
                    assert(kd == kid_trees@[j].n);
                    assert(m0.contains_key(kd));
                    assert(kd != n);
                    assert(rk_cur@[kd] < bound_cur@);
                } else {
                    assert(m0.contains_key(nd));
                    assert(m1[nd].kids == m0[nd].kids);
                    let kd = m0[nd].kids[j];
                    assert(m0.contains_key(kd));
                    assert(kd != n);
                }
            }
        }
        assert(ranks_below(m1, rk3, bound_cur@ + 1)) by {
            assert forall|nd: taffy::node::Node| m1.contains_key(nd) implies #[trigger] rk3[nd]
                < bound_cur@ + 1 by {
                if nd != n {
                    assert(m0.contains_key(nd));
                }
            }
        }
        assert(styles_kept(m0, m1)) by {
            assert forall|nd: taffy::node::Node|
                m0.contains_key(nd) implies m1.contains_key(nd) && (#[trigger] m1[nd]).style
                == m0[nd].style && m1[nd].kids == m0[nd].kids by {
                assert(nd != n);
            }
        }
        assert(styles_kept(engine_model(*old(t)), m1)) by {
            assert forall|nd: taffy::node::Node|
                engine_model(*old(t)).contains_key(nd) implies m1.contains_key(nd) && (
            #[trigger] m1[nd]).style == engine_model(*old(t))[nd].style && m1[nd].kids
                == engine_model(*old(t))[nd].kids by {
                assert(m0.contains_key(nd));
                assert(m0[nd].style == engine_model(*old(t))[nd].style);
                assert(m0[nd].kids == engine_model(*old(t))[nd].kids);
                assert(nd != n);
            }
        }
        assert(mirrors(res_tree, *w, m1)) by {
            assert(kid_nodes@ =~= kid_nodes_of(kid_trees@));
            assert forall|j: int| 0 <= j < kid_trees@.len() implies mirrors(
                #[trigger] kid_trees@[j],
                w.children@[j],
                m1,
            ) by {
                lemma_mirrors_stable(kid_trees@[j], w.children@[j], m0, m1);
            }
            lemma_seq_mirrors_build(kid_trees@, w.children@, kid_trees@.len() as int, m1);
        }
        assert(m1.dom() =~= engine_model(*old(t)).dom().union(mirror_nodes(res_tree)));
    }
    (res_tree, Ghost(rk_cur@.insert(n, bound_cur@)), Ghost(bound_cur@ + 1))
}

/// `b` is `a` with only computed rectangles changed, anywhere in the
/// subtree.
pub open spec fn same_shape(a: WidgetData, b: WidgetData) -> bool
    decreases a, 0int,
{
    &&& b.id == a.id
    &&& b.node == a.node
    &&& b.style == a.style
    &&& b.visual_slot == a.visual_slot
    &&& b.can_highlight == a.can_highlight
    &&& b.kind == a.kind
    &&& b.children@.len() == a.children@.len()
    &&& seq_same_shape(a.children@, b.children@, a.children@.len() as int)
}

pub open spec fn seq_same_shape(s: Seq<WidgetData>, t: Seq<WidgetData>, n: int) -> bool
    decreases s, n, 1int,
{
    if n <= 0 || n > s.len() || n > t.len() {
        true
    } else {
        seq_same_shape(s, t, n - 1) && same_shape(s[n - 1], t[n - 1])
    }
}

/// `w` carries the rectangles `rects` assigns to its mirror's nodes,
/// throughout the subtree.
pub open spec fn rects_from(w: WidgetData, st: ScratchTree, rects: Map<taffy::node::Node, RectRec>) -> bool
    decreases st, 1int,
{
    &&& w.rect.x as int == rects[st.n].x
    &&& w.rect.y as int == rects[st.n].y
    &&& w.rect.width as int == rects[st.n].width
    &&& w.rect.height as int == rects[st.n].height
    &&& w.children@.len() == st.kids@.len()
    &&& seq_rects_from(w.children@, st.kids@, st.kids@.len() as int, rects)
}

pub open spec fn seq_rects_from(t: Seq<WidgetData>, s: Seq<ScratchTree>, n: int, rects: Map<taffy::node::Node, RectRec>) -> bool
    decreases s, n, 2int,
{
    if n <= 0 || n > s.len() || n > t.len() {
        true
    } else {
        seq_rects_from(t, s, n - 1, rects) && rects_from(t[n - 1], s[n - 1], rects)
    }
}

/// The engine holds rectangle `rects[n]` for every node `n` of `nodes`.
pub open spec fn model_rects_match(m: Map<taffy::node::Node, NodeRec>, nodes: Set<taffy::node::Node>, rects: Map<taffy::node::Node, RectRec>) -> bool {
    forall|n: taffy::node::Node| nodes.contains(n) ==> (#[trigger] m[n]).rect == rects[n]
}

/// Writes the computed rectangle of each mirror node back into its widget.
fn apply_rects(t: &taffy::Taffy, st: &ScratchTree, w: &mut WidgetData, rects: Ghost<Map<taffy::node::Node, RectRec>>)
    requires
        mirrors(*st, *old(w), engine_model(*t)),
        model_rects_match(engine_model(*t), mirror_nodes(*st), rects@),
    ensures
        same_shape(*old(w), *final(w)),
        rects_from(*final(w), *st, rects@),
    decreases *st,
{
    proof {
        assert(mirror_nodes(*st).contains(st.n));
    }
    let r = engine_rect(t, st.n);
    w.rect = crate::widget::Rect { x: r.0, y: r.1, width: r.2, height: r.3 };
    let mut i: usize = 0;
    #[verifier::loop_isolation(false)]
    while i < st.kids.len()
        invariant
            i <= st.kids@.len(),
            w.children@.len() == old(w).children@.len(),
            w.id == old(w).id,
            w.node == old(w).node,
            w.style == old(w).style,
            w.visual_slot == old(w).visual_slot,
            w.can_highlight == old(w).can_highlight,
            w.kind == old(w).kind,
            w.rect.x as int == rects@[st.n].x,
            w.rect.y as int == rects@[st.n].y,
            w.rect.width as int == rects@[st.n].width,
            w.rect.height as int == rects@[st.n].height,
            forall|j: int|
                0 <= j < i ==> same_shape(old(w).children@[j], #[trigger] w.children@[j]),
            forall|j: int|
                0 <= j < i ==> rects_from(#[trigger] w.children@[j], st.kids@[j], rects@),
            forall|j: int|
                i <= j < w.children@.len() ==> #[trigger] w.children@[j] == old(w).children@[j],
        decreases st.kids@.len() - i,
    {
        proof {
            lemma_seq_mirrors_at(
                st.kids@,
                old(w).children@,
                st.kids@.len() as int,
                i as int,
                engine_model(*t),
            );
            lemma_seq_mirror_nodes_contains(st.kids@, st.kids@.len() as int, i as int);
            assert(model_rects_match(engine_model(*t), mirror_nodes(st.kids@[i as int]), rects@))
                by {
                assert forall|n: taffy::node::Node|
                    mirror_nodes(st.kids@[i as int]).contains(n) implies (#[trigger] engine_model(
                    *t,
                )[n]).rect == rects@[n] by {
                    assert(mirror_nodes(*st).contains(n));
                }
            }
            assert(decreases_to!(*st => st.kids));
            assert(decreases_to!(st.kids => st.kids@));
            assert(decreases_to!(st.kids@ => st.kids@[i as int]));
        }
        apply_rects(t, &st.kids[i], &mut w.children[i], rects);
        i = i + 1;
    }
    proof {
        lemma_seq_same_shape_build(old(w).children@, w.children@, old(w).children@.len() as int);
        lemma_seq_rects_from_build(w.children@, st.kids@, st.kids@.len() as int, rects@);
    }
}

proof fn lemma_seq_rects_from_build(t: Seq<WidgetData>, s: Seq<ScratchTree>, n: int, rects: Map<taffy::node::Node, RectRec>)
    requires
        n <= s.len(),
        n <= t.len(),
        forall|j: int| 0 <= j < n ==> rects_from(#[trigger] t[j], s[j], rects),
    ensures
        seq_rects_from(t, s, n, rects),
    decreases n,
{
    if n > 0 {
        lemma_seq_rects_from_build(t, s, n - 1, rects);
    }
}

proof fn lemma_seq_same_shape_build(s: Seq<WidgetData>, t: Seq<WidgetData>, n: int)
    requires
        n <= s.len(),
        n <= t.len(),
        forall|j: int| 0 <= j < n ==> same_shape(s[j], #[trigger] t[j]),
    ensures
        seq_same_shape(s, t, n),
    decreases n,
{
    if n > 0 {
        lemma_seq_same_shape_build(s, t, n - 1);
    }
}

/// A shape-preserving change keeps well-formedness and the registry node
/// set: only stored rectangles moved.
pub proof fn lemma_same_shape_wf(a: WidgetData, b: WidgetData, g: Gui)
    requires
        same_shape(a, b),
        a.tree_wf(g),
    ensures
        b.tree_wf(g),
        b.nodes_of() == a.nodes_of(),
    decreases a, 1int,
{
    lemma_seq_same_shape_wf(a.children@, b.children@, a.children@.len() as int, g);
    assert(b.nodes_of() =~= a.nodes_of());
}

proof fn lemma_seq_same_shape_wf(s: Seq<WidgetData>, t: Seq<WidgetData>, n: int, g: Gui)
    requires
        seq_same_shape(s, t, n),
        crate::widget::seq_tree_wf(s, n, g),
        crate::widget::sub_disjoint(s, n),
        n <= s.len(),
        n <= t.len(),
    ensures
        crate::widget::seq_tree_wf(t, n, g),
        crate::widget::sub_disjoint(t, n),
        crate::widget::sub_nodes(t, n) == crate::widget::sub_nodes(s, n),
    decreases s, n, 2int,
{
    if 0 < n <= s.len() {
        lemma_seq_same_shape_wf(s, t, n - 1, g);
        lemma_same_shape_wf_sub(s[n - 1], t[n - 1], g);
        assert(crate::widget::sub_nodes(t, n) =~= crate::widget::sub_nodes(s, n));
    } else {
        assert(crate::widget::sub_nodes(t, n) =~= crate::widget::sub_nodes(s, n));
    }
}

proof fn lemma_same_shape_wf_sub(a: WidgetData, b: WidgetData, g: Gui)
    requires
        same_shape(a, b),
        a.tree_wf(g),
    ensures
        b.tree_wf(g),
        b.nodes_of() == a.nodes_of(),
    decreases a, 1int,
{
    lemma_seq_same_shape_wf(a.children@, b.children@, a.children@.len() as int, g);
    assert(b.nodes_of() =~= a.nodes_of());
}

/// What one layout pass leaves behind: `st` and `m0` witness the scratch
/// mirror the pass built for the tree — the engine model whose styles and
/// child lists are exactly the tree's own — and the tree afterwards
/// carries, widget by widget, the rectangles the engine computed for that
/// model under the given available space: the named
/// [`layout_rects`](crate::engine::layout_rects).
pub open spec fn laid_out(before: WidgetData, after: WidgetData, st: ScratchTree, m0: Map<taffy::node::Node, NodeRec>, available: Option<(u16, u16)>) -> bool {
    &&& mirrors(st, before, m0)
    &&& m0.dom() == mirror_nodes(st)
    &&& rects_from(after, st, crate::engine::layout_rects(m0, st.n, available))
}

impl Gui {
    /// Computes the whole tree's layout under the given available space
    /// (`None` asks for max-content sizing) and stores each widget's
    /// computed rectangle — afterwards every widget carries the engine's
    /// computed rectangle for its node, as `laid_out` states. A no-op
    /// while no layout handler is connected. Must run before a draw pass
    /// reads computed rectangles.
    pub fn emit_layout(&self, root: &mut WidgetData, available: Option<(u16, u16)>)
        ensures
            !self.signals.layout ==> *final(root) == *old(root),
            self.signals.layout ==> same_shape(*old(root), *final(root)),
            self.signals.layout ==> exists|st: ScratchTree, m0: Map<taffy::node::Node, NodeRec>|
                #[trigger] laid_out(*old(root), *final(root), st, m0, available),
    {
        if !self.signals.layout {
            return ;
        }
        let mut scratch = engine_new();
        let (st, _rk, _bound) = build_scratch(
            &mut scratch,
            root,
            Ghost(Map::empty()),
            Ghost(0nat),
        );
        let ghost m_pre = engine_model(scratch);
        let ghost rects = crate::engine::layout_rects(m_pre, st.n, available);
        proof {
            assert(m_pre.dom() =~= mirror_nodes(st));
        }
        engine_compute(&mut scratch, st.n, available);
        proof {
            let m_post = engine_model(scratch);
            assert(styles_kept(m_pre, m_post));
            lemma_mirrors_stable(st, *root, m_pre, m_post);
            lemma_mirror_nodes_in_dom(st, *root, m_pre);
            assert(model_rects_match(m_post, mirror_nodes(st), rects)) by {
                assert forall|n: taffy::node::Node|
                    mirror_nodes(st).contains(n) implies (#[trigger] m_post[n]).rect == rects[n] by {
                    assert(m_pre.contains_key(n));
                }
            }
        }
        apply_rects(&scratch, &st, root, Ghost(rects));
        proof {
            assert(laid_out(*old(root), *final(root), st, m_pre, available));
        }
    }
}

// ---------------------------------------------------------------------------
// The paint traversal
// ---------------------------------------------------------------------------

/// The checkbox's own marks: its hairline box, and — depending on the
/// model and whether it is a rocker — the knob, in quarters of the box.
pub open spec fn checkbox_ops(checked: bool, rocker: bool, wd: u32, ht: u32) -> Seq<PaintOp> {
    let wi = wd as int;
    let hi = ht as int;
    seq![PaintOp::StrokeBorder { width: wd, height: ht, border: 1u16 }] + if checked && !rocker {
        seq![
            PaintOp::FillRectAt {
                x: (wi / 4) as i64,
                y: (hi / 4) as i64,
                width: (wi / 2) as i64,
                height: (hi / 2) as i64,
            },
        ]
    } else if checked && rocker {
        seq![
            PaintOp::FillRectAt {
                x: (wi * 3 / 4 - hi / 4) as i64,
                y: (hi / 4) as i64,
                width: (hi / 2) as i64,
                height: (hi / 2) as i64,
            },
        ]
    } else if !checked && rocker {
        seq![
            PaintOp::FillRectAt {
                x: (wi / 4 - hi / 4) as i64,
                y: (hi / 4) as i64,
                width: (hi / 2) as i64,
                height: (hi / 2) as i64,
            },
        ]
    } else {
        Seq::empty()
    }
}

/// What a widget's own object paints, once its foreground color is set:
/// nothing for a container, its text block for a label, a border whose
/// width reflects the toggle model for a button, box and knob for a
/// checkbox.
pub open spec fn object_ops(g: Gui, w: WidgetData) -> Seq<PaintOp> {
    match w.kind {
        WidgetKind::Container => Seq::empty(),
        WidgetKind::Label { slot } => seq![
            PaintOp::Text {
                width: w.rect.width,
                height: w.rect.height,
                section: g.texts@[slot as int],
            },
        ],
        WidgetKind::Button { slot, label_slot: _ } => seq![
            PaintOp::StrokeBorder {
                width: w.rect.width,
                height: w.rect.height,
                border: if source_value(g, g.buttons@[slot as int].toggle) {
                    3u16
                } else {
                    1u16
                },
            },
        ],
        WidgetKind::Checkbox { slot, rocker } => checkbox_ops(
            source_value(g, g.buttons@[slot as int].toggle),
            rocker,
            w.rect.width,
            w.rect.height,
        ),
    }
}

/// What one widget's visual layers paint: background as a filled
/// rectangle, border with the width the layout engine stores for the
/// node, then the object's own foreground painting. An absent visual
/// paints nothing at all.
pub open spec fn visual_ops(g: Gui, w: WidgetData) -> Seq<PaintOp> {
    match g.visuals@[w.visual_slot as int] {
        None => Seq::empty(),
        Some(v) => (match v.background {
            Some(c) => seq![
                PaintOp::SetColor { color: c },
                PaintOp::FillRect { width: w.rect.width, height: w.rect.height },
            ],
            None => Seq::empty(),
        }) + (match v.border {
            Some(c) => seq![
                PaintOp::SetColor { color: c },
                PaintOp::StrokeBorder {
                    width: w.rect.width,
                    height: w.rect.height,
                    border: g.nodes()[w.node].style.border as u16,
                },
            ],
            None => Seq::empty(),
        }) + (match v.foreground {
            Some(c) => seq![PaintOp::SetColor { color: c }] + object_ops(g, w),
            None => Seq::empty(),
        }),
    }
}

/// The pre-order paint of a subtree: save, translate to the widget's
/// position, paint its layers, recurse into the children in insertion
/// order, restore.
pub open spec fn draw_ops(g: Gui, w: WidgetData) -> Seq<PaintOp>
    decreases w, 1int,
{
    seq![PaintOp::Save, PaintOp::Translate { dx: w.rect.x, dy: w.rect.y }] + visual_ops(g, w)
        + children_ops(g, w.children@, 0) + seq![PaintOp::Restore]
}

pub open spec fn children_ops(g: Gui, s: Seq<WidgetData>, i: int) -> Seq<PaintOp>
    decreases s, s.len() - i, 0int,
{
    if i < 0 || i >= s.len() {
        Seq::empty()
    } else {
        draw_ops(g, s[i]) + children_ops(g, s, i + 1)
    }
}

/// Reads the boolean a source points at.
fn read_source(gui: &Gui, src: Option<BoolSource>) -> (r: bool)
    requires
        src matches Some(s) ==> source_ok(s, gui.cells@.len() as int, gui.bools@.len() as int),
    ensures
        r == source_value(*gui, src),
{
    match src {
        Option::None => false,
        Option::Some(BoolSource::Cell { bool_cell }) => gui.bools[bool_cell],
        Option::Some(BoolSource::Select { cell, value }) => gui.cells[cell].value == value,
    }
}

/// Pushes a checkbox's own marks.
fn push_checkbox_ops(checked: bool, rocker: bool, wd32: u32, ht32: u32, ops: &mut Vec<PaintOp>)
    ensures
        final(ops)@ == old(ops)@ + checkbox_ops(checked, rocker, wd32, ht32),
{
    ops.push(PaintOp::StrokeBorder { width: wd32, height: ht32, border: 1 });
    let wd: u64 = wd32 as u64;
    let ht: u64 = ht32 as u64;
    if checked && !rocker {
        ops.push(PaintOp::FillRectAt {
            x: (wd / 4) as i64,
            y: (ht / 4) as i64,
            width: (wd / 2) as i64,
            height: (ht / 2) as i64,
        });
    } else if checked && rocker {
        ops.push(PaintOp::FillRectAt {
            x: (wd * 3 / 4) as i64 - (ht / 4) as i64,
            y: (ht / 4) as i64,
            width: (ht / 2) as i64,
            height: (ht / 2) as i64,
        });
    } else if !checked && rocker {
        ops.push(PaintOp::FillRectAt {
            x: (wd / 4) as i64 - (ht / 4) as i64,
            y: (ht / 4) as i64,
            width: (ht / 2) as i64,
            height: (ht / 2) as i64,
        });
    }
    proof {
        assert(final(ops)@ =~= old(ops)@ + checkbox_ops(checked, rocker, wd32, ht32));
    }
}

/// Pushes what a widget's own object paints.
fn push_object_ops(gui: &Gui, w: &WidgetData, ops: &mut Vec<PaintOp>)
    requires
        gui.wf(),
        w.tree_wf(*gui),
    ensures
        final(ops)@ == old(ops)@ + object_ops(*gui, *w),
{
    match w.kind {
        WidgetKind::Container => {},
        WidgetKind::Label { slot } => {
            ops.push(PaintOp::Text {
                width: w.rect.width,
                height: w.rect.height,
                section: gui.texts[slot].clone(),
            });
        },
        WidgetKind::Button { slot, label_slot: _ } => {
            let on = read_source(gui, gui.buttons[slot].toggle);
            ops.push(PaintOp::StrokeBorder {
                width: w.rect.width,
                height: w.rect.height,
                border: if on {
                    3
                } else {
                    1
                },
            });
        },
        WidgetKind::Checkbox { slot, rocker } => {
            let checked = read_source(gui, gui.buttons[slot].toggle);
            push_checkbox_ops(checked, rocker, w.rect.width, w.rect.height, ops);
        },
    }
    proof {
        assert(final(ops)@ =~= old(ops)@ + object_ops(*gui, *w));
    }
}

/// Pushes one widget's visual layers.
fn push_visual_ops(gui: &Gui, w: &WidgetData, ops: &mut Vec<PaintOp>)
    requires
        gui.wf(),
        w.tree_wf(*gui),
    ensures
        final(ops)@ == old(ops)@ + visual_ops(*gui, *w),
{
    let vis = gui.visuals[w.visual_slot];
    if let Option::Some(v) = vis {
        if let Option::Some(c) = v.background {
            ops.push(PaintOp::SetColor { color: c });
            ops.push(PaintOp::FillRect { width: w.rect.width, height: w.rect.height });
        }
        if let Option::Some(c) = v.border {
            ops.push(PaintOp::SetColor { color: c });
            let b = engine_border(&gui.engine, w.node);
            ops.push(PaintOp::StrokeBorder { width: w.rect.width, height: w.rect.height, border: b });
        }
        if let Option::Some(c) = v.foreground {
            ops.push(PaintOp::SetColor { color: c });
            push_object_ops(gui, w, ops);
        }
    }
    proof {
        assert(final(ops)@ =~= old(ops)@ + visual_ops(*gui, *w));
    }
}

/// Paints one subtree into `ops`.
fn draw_widget(gui: &Gui, w: &WidgetData, ops: &mut Vec<PaintOp>)
    requires
        gui.wf(),
        w.tree_wf(*gui),
    ensures
        final(ops)@ == old(ops)@ + draw_ops(*gui, *w),
    decreases *w,
{
    ops.push(PaintOp::Save);
    ops.push(PaintOp::Translate { dx: w.rect.x, dy: w.rect.y });
    push_visual_ops(gui, w, ops);
    proof {
        assert(ops@ =~= old(ops)@ + seq![
            PaintOp::Save,
            PaintOp::Translate { dx: w.rect.x, dy: w.rect.y },
        ] + visual_ops(*gui, *w));
    }
    let ghost before_children = ops@;
    let mut i: usize = 0;
    #[verifier::loop_isolation(false)]
    while i < w.children.len()
        invariant
            i <= w.children@.len(),
            ops@ == before_children + children_ops_upto(*gui, w.children@, i as int),
        decreases w.children@.len() - i,
    {
        proof {
            crate::widget::lemma_seq_tree_wf_at(
                w.children@,
                w.children@.len() as int,
                i as int,
                *gui,
            );
            assert(decreases_to!(*w => w.children));
            assert(decreases_to!(w.children => w.children@));
            assert(decreases_to!(w.children@ => w.children@[i as int]));
        }
        draw_widget(gui, &w.children[i], ops);
        i = i + 1;
        proof {
            assert(ops@ =~= before_children + children_ops_upto(*gui, w.children@, i as int));
        }
    }
    ops.push(PaintOp::Restore);
    proof {
        lemma_children_ops_upto_full(*gui, w.children@);
        assert(ops@ =~= old(ops)@ + draw_ops(*gui, *w));
    }
}

/// The paint of the first `i` children, for the traversal's loop.
pub open spec fn children_ops_upto(g: Gui, s: Seq<WidgetData>, i: int) -> Seq<PaintOp>
    decreases i,
{
    if i <= 0 || i > s.len() {
        Seq::empty()
    } else {
        children_ops_upto(g, s, i - 1) + draw_ops(g, s[i - 1])
    }
}

/// Prefix-paint and suffix-paint agree on the whole sequence.
proof fn lemma_children_ops_split(g: Gui, s: Seq<WidgetData>, i: int)
    requires
        0 <= i <= s.len(),
    ensures
        children_ops_upto(g, s, i) + children_ops(g, s, i) =~= children_ops(g, s, 0),
    decreases i,
{
    if i > 0 {
        lemma_children_ops_split(g, s, i - 1);
        assert(children_ops_upto(g, s, i - 1) + children_ops(g, s, i - 1) =~= children_ops(
            g,
            s,
            0,
        ));
        assert(children_ops(g, s, i - 1) =~= draw_ops(g, s[i - 1]) + children_ops(g, s, i));
        assert(children_ops_upto(g, s, i) + children_ops(g, s, i) =~= children_ops(g, s, 0));
    }
}

proof fn lemma_children_ops_upto_full(g: Gui, s: Seq<WidgetData>)
    ensures
        children_ops_upto(g, s, s.len() as int) =~= children_ops(g, s, 0),
{
    lemma_children_ops_split(g, s, s.len() as int);
    assert(children_ops(g, s, s.len() as int) =~= Seq::empty());
    assert(children_ops_upto(g, s, s.len() as int) + Seq::empty() =~= children_ops_upto(
        g,
        s,
        s.len() as int,
    ));
}

impl Gui {
    /// Clears the dirty flag and produces the full paint list of the tree:
    /// a pre-order traversal that paints each widget's background, border
    /// and foreground before its children, in insertion order.
    pub fn draw(&mut self, root: &WidgetData) -> (ops: Vec<PaintOp>)
        requires
            old(self).wf(),
            root.tree_wf(*old(self)),
        ensures
            final(self).wf(),
            root.tree_wf(*final(self)),
            !final(self).dirty,
            old(self).same_arenas(*final(self)),
            old(self).same_frame(*final(self)),
            final(self).trace@ == old(self).trace@,
            ops@ == draw_ops(*old(self), *root),
    {
        let mut ops: Vec<PaintOp> = Vec::new();
        draw_widget(&*self, root, &mut ops);
        self.dirty = false;
        proof {
            crate::widget::lemma_tree_wf_preserved(
                *root,
                *old(self),
                *final(self),
                root.nodes_of(),
            );
        }
        ops
    }

    /// Creates the orchestrator with its own bus handlers registered, and
    /// the root container of its window.
    pub fn new() -> (r: (Gui, WidgetData))
        ensures
            r.0.wf(),
            r.1.tree_wf(r.0),
            r.1.kind == WidgetKind::Container,
            !r.1.can_highlight,
            r.1.children@.len() == 0,
            r.1.rect == crate::widget::Rect::zero_spec(),
            !r.0.dirty,
            r.0.state.highlight is None,
            !r.0.state.pointer_press,
            r.0.signals.layout,
            r.0.signals.pointer_motion,
            r.0.signals.pointer_button,
            r.0.signals.activate is None,
            r.0.signals.change is None,
            r.0.cells@.len() == 0,
            r.0.bools@.len() == 0,
            r.0.buttons@.len() == 0,
            r.0.texts@.len() == 0,
            r.0.visuals@ == seq![Option::<VisualStyle>::None],
            r.0.next_id == 1,
            r.0.trace@ == Seq::<Ev>::empty(),
            r.0.nodes().dom() == Set::<taffy::node::Node>::empty().insert(r.1.node),
    {
        let mut gui = Gui {
            engine: engine_new(),
            dirty: false,
            state: GuiState { highlight: None, pointer_press: false },
            signals: Signals::new(),
            cells: Vec::new(),
            bools: Vec::new(),
            buttons: Vec::new(),
            texts: Vec::new(),
            visuals: Vec::new(),
            next_id: 0,
            trace: Ghost(Seq::empty()),
        };
        gui.signals.connect(Handler::Layout);
        gui.signals.connect(Handler::PointerMotion);
        gui.signals.connect(Handler::PointerButton);
        let root = crate::widget::Container::new(&mut gui);
        proof {
            assert(gui.visuals@ =~= seq![Option::<VisualStyle>::None]);
            assert(gui.nodes().dom() =~= Set::<taffy::node::Node>::empty().insert(root.node));
        }
        (gui, root)
    }
}


} // verus!
