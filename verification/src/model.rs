//! Reactive value cells: observable single-value containers that notify on
//! every write, including the initial subscription.
//!
//! The cells live in arenas owned by the [`Gui`](crate::gui::Gui); the types
//! here are copyable handles into those arenas, so a cell can be shared by
//! any number of widgets and handlers.

use vstd::prelude::*;

use crate::gui::Ev;
use crate::gui::Gui;
use crate::gui::texts_with_shown;
use crate::numfmt::dec_str;
use crate::signal::ChangeHandler;

verus! {

/// What the gui stores for one integer cell: its value and the one change
/// handler slot.
pub struct CellState {
    pub value: i32,
    pub on_change: Option<ChangeHandler>,
}

impl CellState {
    /// The handler, if any, points at an existing label.
    pub open spec fn wf(self, texts_len: int) -> bool {
        self.on_change matches Some(h) ==> h.label < texts_len
    }
}

/// An observable value container: reading never mutates, and every write
/// delivers one change notification.
pub trait Model<T>: Sized {
    /// Whether this handle points into the arenas of `g`.
    spec fn model_ok(&self, g: Gui) -> bool;

    /// Reads the current value.
    fn get(&self, gui: &Gui) -> T
        requires
            self.model_ok(*gui),
    ;

    /// Writes `val` and delivers the change signal, even when `val` equals
    /// the current value.
    fn set(&self, gui: &mut Gui, val: T)
        requires
            old(gui).wf(),
            self.model_ok(*old(gui)),
    ;
}

/// A handle to an integer reactive cell.
#[derive(Clone, Copy, PartialEq, Eq, Structural, Debug)]
pub struct CellModel {
    pub idx: usize,
}

impl CellModel {
    /// Creates a fresh integer cell holding `val`, with no handler.
    pub fn new(gui: &mut Gui, val: i32) -> (c: CellModel)
        requires
            old(gui).wf(),
        ensures
            final(gui).wf(),
            c.idx == old(gui).cells@.len(),
            final(gui).cells@ == old(gui).cells@.push(CellState { value: val, on_change: None }),
            final(gui).bools@ == old(gui).bools@,
            final(gui).buttons@ == old(gui).buttons@,
            final(gui).texts@ == old(gui).texts@,
            final(gui).visuals@ == old(gui).visuals@,
            old(gui).same_frame(*final(gui)),
            final(gui).dirty == old(gui).dirty,
            final(gui).trace@ == old(gui).trace@,
    {
        let idx = gui.cells.len();
        gui.cells.push(CellState { value: val, on_change: None });
        CellModel { idx }
    }

    /// Registers `handler` for this cell's change signal, after first
    /// invoking it once with the value present at connection time — an
    /// observer never misses the initial state. A handler registered
    /// earlier is overwritten.
    pub fn connect_change(&self, gui: &mut Gui, handler: ChangeHandler)
        requires
            old(gui).wf(),
            self.idx < old(gui).cells@.len(),
            handler.label < old(gui).texts@.len(),
        ensures
            final(gui).wf(),
            final(gui).cells@.len() == old(gui).cells@.len(),
            forall|j: int|
                0 <= j < old(gui).cells@.len() && j != self.idx ==> final(gui).cells@[j]
                    == #[trigger] old(gui).cells@[j],
            final(gui).cells@[self.idx as int].value == old(gui).cells@[self.idx as int].value,
            final(gui).cells@[self.idx as int].on_change matches Some(h2) && h2.label
                == handler.label && h2.prefix@ == handler.prefix@,
            texts_with_shown(
                old(gui).texts@,
                final(gui).texts@,
                handler.label as int,
                handler.prefix@ + dec_str(old(gui).cells@[self.idx as int].value as int),
            ),
            final(gui).trace@ == old(gui).trace@ + seq![
                Ev::Changed {
                    cell: self.idx as int,
                    value: old(gui).cells@[self.idx as int].value as int,
                },
            ],
            final(gui).bools@ == old(gui).bools@,
            final(gui).buttons@ == old(gui).buttons@,
            final(gui).visuals@ == old(gui).visuals@,
            old(gui).same_frame(*final(gui)),
            final(gui).dirty == old(gui).dirty,
    {
        let value = gui.cells[self.idx].value;
        {
            let cell = &mut gui.cells[self.idx];
            cell.on_change = Some(handler);
        }
        gui.deliver_change(self.idx, value);
    }

    /// Adds one to the cell (wrapping at the integer boundary) and delivers
    /// the change signal.
    pub fn increment(&self, gui: &mut Gui)
        requires
            old(gui).wf(),
            self.idx < old(gui).cells@.len(),
        ensures
            final(gui).wf(),
            cell_written(
                *old(gui),
                *final(gui),
                self.idx as int,
                wrap_inc(old(gui).cells@[self.idx as int].value as int) as i32,
            ),
    {
        let v = gui.cells[self.idx].value;
        let next: i32 = if v == i32::MAX {
            i32::MIN
        } else {
            v + 1
        };
        self.set(gui, next);
    }

    /// Subtracts one from the cell (wrapping at the integer boundary) and
    /// delivers the change signal.
    pub fn decrement(&self, gui: &mut Gui)
        requires
            old(gui).wf(),
            self.idx < old(gui).cells@.len(),
        ensures
            final(gui).wf(),
            cell_written(
                *old(gui),
                *final(gui),
                self.idx as int,
                wrap_dec(old(gui).cells@[self.idx as int].value as int) as i32,
            ),
    {
        let v = gui.cells[self.idx].value;
        let next: i32 = if v == i32::MIN {
            i32::MAX
        } else {
            v - 1
        };
        self.set(gui, next);
    }
}

/// Incrementing, wrapped to the 32-bit signed range.
pub open spec fn wrap_inc(v: int) -> int {
    if v == i32::MAX {
        i32::MIN as int
    } else {
        v + 1
    }
}

/// Decrementing, wrapped to the 32-bit signed range.
pub open spec fn wrap_dec(v: int) -> int {
    if v == i32::MIN {
        i32::MAX as int
    } else {
        v - 1
    }
}

/// `b` is `a` after writing `v` to integer cell `c`: the value stored, one
/// `Changed` notification recorded, and the connected handler (if any)
/// rendered `v` into its label. Nothing else moved.
pub open spec fn cell_written(a: Gui, b: Gui, c: int, v: i32) -> bool {
    &&& b.cells@.len() == a.cells@.len()
    &&& forall|j: int| 0 <= j < a.cells@.len() && j != c ==> b.cells@[j] == #[trigger] a.cells@[j]
    &&& b.cells@[c].value == v
    &&& b.cells@[c].on_change == a.cells@[c].on_change
    &&& b.trace@ == a.trace@ + seq![Ev::Changed { cell: c, value: v as int }]
    &&& (a.cells@[c].on_change is None ==> b.texts@ == a.texts@)
    &&& (a.cells@[c].on_change matches Some(h) ==> texts_with_shown(
        a.texts@,
        b.texts@,
        h.label as int,
        h.prefix@ + dec_str(v as int),
    ))
    &&& b.bools@ == a.bools@
    &&& b.buttons@ == a.buttons@
    &&& b.visuals@ == a.visuals@
    &&& a.same_frame(b)
    &&& b.dirty == a.dirty
}

impl Model<i32> for CellModel {
    open spec fn model_ok(&self, g: Gui) -> bool {
        self.idx < g.cells@.len()
    }

    /// Reads the cell's value; never mutates.
    fn get(&self, gui: &Gui) -> (v: i32)
        ensures
            v == gui.cells@[self.idx as int].value,
    {
        gui.cells[self.idx].value
    }

    /// Writes `val` and delivers exactly one change notification, with no
    /// deduplication when `val` equals the current value.
    fn set(&self, gui: &mut Gui, val: i32)
        ensures
            final(gui).wf(),
            cell_written(*old(gui), *final(gui), self.idx as int, val),
    {
        {
            let cell = &mut gui.cells[self.idx];
            cell.value = val;
        }
        gui.deliver_change(self.idx, val);
    }
}

/// A handle to a boolean reactive cell. Boolean cells carry no handler
/// slot: they are observed by the widgets that read them at paint time.
#[derive(Clone, Copy, PartialEq, Eq, Structural, Debug)]
pub struct BoolModel {
    pub idx: usize,
}

impl BoolModel {
    /// Creates a fresh boolean cell holding `val`.
    pub fn new(gui: &mut Gui, val: bool) -> (c: BoolModel)
        requires
            old(gui).wf(),
        ensures
            final(gui).wf(),
            c.idx == old(gui).bools@.len(),
            final(gui).bools@ == old(gui).bools@.push(val),
            final(gui).cells@ == old(gui).cells@,
            final(gui).buttons@ == old(gui).buttons@,
            final(gui).texts@ == old(gui).texts@,
            final(gui).visuals@ == old(gui).visuals@,
            old(gui).same_frame(*final(gui)),
            final(gui).dirty == old(gui).dirty,
            final(gui).trace@ == old(gui).trace@,
    {
        let idx = gui.bools.len();
        gui.bools.push(val);
        BoolModel { idx }
    }
}

impl Model<bool> for BoolModel {
    open spec fn model_ok(&self, g: Gui) -> bool {
        self.idx < g.bools@.len()
    }

    fn get(&self, gui: &Gui) -> (v: bool)
        ensures
            v == gui.bools@[self.idx as int],
    {
        gui.bools[self.idx]
    }

    /// Writes `val` and delivers exactly one change notification, with no
    /// deduplication when `val` equals the current value.
    fn set(&self, gui: &mut Gui, val: bool)
        ensures
            final(gui).bools@ == old(gui).bools@.update(self.idx as int, val),
            final(gui).cells@ == old(gui).cells@,
            final(gui).buttons@ == old(gui).buttons@,
            final(gui).texts@ == old(gui).texts@,
            final(gui).visuals@ == old(gui).visuals@,
            old(gui).same_frame(*final(gui)),
            final(gui).dirty == old(gui).dirty,
            final(gui).trace@ == old(gui).trace@ + seq![
                Ev::BoolChanged { cell: self.idx as int, value: val },
            ],
    {
        gui.bools.set(self.idx, val);
        proof {
            gui.trace@ = gui.trace@ + seq![Ev::BoolChanged { cell: self.idx as int, value: val }];
        }
    }
}

/// An integer cell observed through the "equals this value" lens: reading
/// yields whether the cell holds `value`; writing true stores `value` into
/// the cell (delivering its change signal), writing false does nothing.
#[derive(Clone, Copy, PartialEq, Eq, Structural, Debug)]
pub struct SelectValue {
    pub cell: CellModel,
    pub value: i32,
}

impl SelectValue {
    /// The lens over `model` that selects `value`.
    pub fn new(model: CellModel, value: i32) -> (s: SelectValue)
        ensures
            s.cell == model,
            s.value == value,
    {
        SelectValue { cell: model, value }
    }
}

impl Model<bool> for SelectValue {
    open spec fn model_ok(&self, g: Gui) -> bool {
        self.cell.idx < g.cells@.len()
    }

    fn get(&self, gui: &Gui) -> (v: bool)
        ensures
            v == (gui.cells@[self.cell.idx as int].value == self.value),
    {
        gui.cells[self.cell.idx].value == self.value
    }

    fn set(&self, gui: &mut Gui, val: bool)
        ensures
            final(gui).wf(),
            val ==> cell_written(*old(gui), *final(gui), self.cell.idx as int, self.value),
            !val ==> *final(gui) == *old(gui),
    {
        if val {
            self.cell.set(gui, self.value);
        }
    }
}

} // verus!
