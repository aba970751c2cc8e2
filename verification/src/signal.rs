//! The single-slot-per-kind signal bus.
//!
//! A bus owner reacts to at most one handler per signal kind: connecting a
//! second handler for the same kind overwrites the first. Emitting a kind
//! with no connected handler is a silent no-op. Handlers are drawn from the
//! closed vocabulary below: the orchestrator's own reactions for the
//! platform-level kinds, and the model/widget reactions for `Activate` and
//! `Change`.

use vstd::prelude::*;

verus! {

/// Marker for signal payload types carried by a bus.
pub trait Signal {}

/// A reactive cell changed (or delivered its value on subscription).
pub struct Change;

impl Signal for Change {}

/// A button-like widget was activated by a release over a press.
pub struct Activate;

impl Signal for Activate {}

/// The available space changed; `None` asks for max-content sizing.
pub struct Layout(pub Option<(u16, u16)>);

impl Signal for Layout {}

/// The pointer moved, in window-local whole units.
pub struct PointerMotion {
    pub x: i32,
    pub y: i32,
}

impl Signal for PointerMotion {}

/// A pointer button changed state; button 1 is the primary button and
/// `state` is true on press, false on release.
pub struct PointerButton {
    pub button: u8,
    pub state: bool,
}

impl Signal for PointerButton {}

/// A reference to a reactive boolean: either a boolean cell, or an integer
/// cell observed through the "equals this value" lens.
#[derive(Clone, Copy, PartialEq, Eq, Structural, Debug)]
pub enum BoolSource {
    Cell { bool_cell: usize },
    Select { cell: usize, value: i32 },
}

/// What a widget's `Activate` signal may do: mutate an integer cell.
#[derive(Clone, Copy, PartialEq, Eq, Structural, Debug)]
pub enum ActivateHandler {
    Increment { cell: usize },
    Decrement { cell: usize },
    SetTo { cell: usize, value: i32 },
}

/// What a cell's `Change` signal may do: render the cell's value into a
/// label as `prefix` followed by the decimal value.
#[derive(Debug)]
pub struct ChangeHandler {
    pub label: usize,
    pub prefix: String,
}

impl Clone for ChangeHandler {
    fn clone(&self) -> (r: Self)
        ensures
            r.label == self.label,
            r.prefix@ == self.prefix@,
    {
        ChangeHandler { label: self.label, prefix: self.prefix.clone() }
    }
}

/// A handler together with the signal kind it reacts to. The first three
/// stand for the orchestrator's own built-in reactions, registered once at
/// construction.
pub enum Handler {
    Layout,
    PointerMotion,
    PointerButton,
    Activate(ActivateHandler),
    Change(ChangeHandler),
}

/// The slot record of one bus owner: at most one handler per signal kind.
/// The orchestrator's window-level bus carries the three platform kinds;
/// a button's one `Activate` slot and a cell's one `Change` slot live in
/// their own arena records, which keep the same single-slot contract.
pub struct Signals {
    pub layout: bool,
    pub pointer_motion: bool,
    pub pointer_button: bool,
    pub activate: Option<ActivateHandler>,
    pub change: Option<ChangeHandler>,
}

impl Signals {
    /// Which slots a fresh bus has: none.
    pub open spec fn empty_spec() -> Signals {
        Signals { layout: false, pointer_motion: false, pointer_button: false, activate: None, change: None }
    }

    /// The bus after `connect`: exactly the slot of the handler's kind is
    /// replaced.
    pub open spec fn connect_spec(self, handler: Handler) -> Signals {
        match handler {
            Handler::Layout => Signals { layout: true, ..self },
            Handler::PointerMotion => Signals { pointer_motion: true, ..self },
            Handler::PointerButton => Signals { pointer_button: true, ..self },
            Handler::Activate(a) => Signals { activate: Some(a), ..self },
            Handler::Change(c) => Signals { change: Some(c), ..self },
        }
    }

    /// A bus with no connected handlers.
    pub fn new() -> (s: Signals)
        ensures
            s == Self::empty_spec(),
    {
        Signals { layout: false, pointer_motion: false, pointer_button: false, activate: None, change: None }
    }

    /// Registers `handler` for its signal kind, overwriting any handler
    /// previously registered for that kind and leaving every other slot
    /// alone.
    pub fn connect(&mut self, handler: Handler)
        ensures
            *final(self) == old(self).connect_spec(handler),
    {
        match handler {
            Handler::Layout => self.layout = true,
            Handler::PointerMotion => self.pointer_motion = true,
            Handler::PointerButton => self.pointer_button = true,
            Handler::Activate(a) => self.activate = Some(a),
            Handler::Change(c) => self.change = Some(c),
        }
    }
}

} // verus!
