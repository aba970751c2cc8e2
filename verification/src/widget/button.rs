//! Button-like widgets: the press/release bookkeeping shared by push
//! buttons and checkboxes, and their constructors.

use vstd::prelude::*;

use crate::graphics::HorizontalAlign;
use crate::graphics::ThemeColor;
use crate::graphics::VerticalAlign;
use crate::graphics::VisualStyle;
use crate::gui::Gui;
use crate::gui::PointerState;
use crate::gui::source_value;
use crate::signal::ActivateHandler;
use crate::signal::BoolSource;
use crate::widget::LayoutStyle;
use crate::widget::WidgetData;
use crate::widget::WidgetKind;
use crate::widget::label::Label;

verus! {

/// The background a button-like widget shows for a pointer state.
pub open spec fn background_for(st: PointerState) -> ThemeColor {
    match st {
        PointerState::Idle => ThemeColor::ButtonNormal,
        PointerState::Over => ThemeColor::ButtonOver,
        PointerState::Press => ThemeColor::ButtonPress,
    }
}

/// The whole visual a button-like widget shows for a pointer state: the
/// button visual with the background picked by the state.
pub open spec fn visual_for(st: PointerState) -> VisualStyle {
    VisualStyle {
        background: Some(background_for(st)),
        border: Some(ThemeColor::Border),
        foreground: Some(ThemeColor::Foreground),
    }
}

/// Executable form of [`visual_for`].
pub fn visual_for_state(st: PointerState) -> (v: VisualStyle)
    ensures
        v == visual_for(st),
{
    let background = match st {
        PointerState::Idle => ThemeColor::ButtonNormal,
        PointerState::Over => ThemeColor::ButtonOver,
        PointerState::Press => ThemeColor::ButtonPress,
    };
    VisualStyle { background: Some(background), border: Some(ThemeColor::Border), foreground: Some(ThemeColor::Foreground) }
}

/// What a button-like widget's activation may reference.
pub open spec fn activate_ok(a: ActivateHandler, cells_len: int) -> bool {
    match a {
        ActivateHandler::Increment { cell } => cell < cells_len,
        ActivateHandler::Decrement { cell } => cell < cells_len,
        ActivateHandler::SetTo { cell, value: _ } => cell < cells_len,
    }
}

/// What a boolean source references.
pub open spec fn source_ok(s: BoolSource, cells_len: int, bools_len: int) -> bool {
    match s {
        BoolSource::Cell { bool_cell } => bool_cell < bools_len,
        BoolSource::Select { cell, value: _ } => cell < cells_len,
    }
}

/// The interaction state one button-like widget keeps in the
/// orchestrator's arena: whether the last pointer state was a press, the
/// optional toggled model, and the activation handler slot.
pub struct ButtonState {
    pub was_pressed: bool,
    pub toggle: Option<BoolSource>,
    pub on_activate: Option<ActivateHandler>,
}

impl ButtonState {
    /// The stored references point into the arenas.
    pub open spec fn wf(self, cells_len: int, bools_len: int) -> bool {
        &&& (self.toggle matches Some(s) ==> source_ok(s, cells_len, bools_len))
        &&& (self.on_activate matches Some(a) ==> activate_ok(a, cells_len))
    }
}

/// A copyable handle to a push button: its slot in the button arena and
/// the handle of its caption label.
#[derive(Clone, Copy, PartialEq, Eq, Structural, Debug)]
pub struct Button {
    pub slot: usize,
    pub caption: Label,
}

impl Button {
    /// Builds a button widget: a pressable box with a centered caption
    /// label as its one child.
    fn build(gui: &mut Gui, label_text: String, toggle: Option<BoolSource>) -> (r: (Button, WidgetData))
        requires
            old(gui).wf(),
            old(gui).next_id < u64::MAX - 1,
            toggle matches Some(src) ==> source_ok(
                src,
                old(gui).cells@.len() as int,
                old(gui).bools@.len() as int,
            ),
        ensures
            final(gui).wf(),
            r.1.tree_wf(*final(gui)),
            r.0.slot == old(gui).buttons@.len(),
            r.0.caption.slot == old(gui).texts@.len(),
            r.1.kind == (WidgetKind::Button { slot: r.0.slot, label_slot: r.0.caption.slot }),
            r.1.can_highlight,
            r.1.children@.len() == 1,
            r.1.children@[0].kind == (WidgetKind::Label { slot: r.0.caption.slot }),
            !r.1.children@[0].can_highlight,
            r.1.children@[0].children@.len() == 0,
            r.1.children@[0].rect == crate::widget::Rect::zero_spec(),
            r.1.rect == crate::widget::Rect::zero_spec(),
            r.1.children@[0].id == old(gui).next_id,
            r.1.id == old(gui).next_id + 1,
            r.1.nodes_of() == Set::<taffy::node::Node>::empty().insert(
                r.1.children@[0].node,
            ).insert(r.1.node),
            final(gui).buttons@ == old(gui).buttons@.push(
                ButtonState { was_pressed: false, toggle, on_activate: None },
            ),
            final(gui).texts@.len() == old(gui).texts@.len() + 1,
            forall|j: int|
                0 <= j < old(gui).texts@.len() ==> final(gui).texts@[j] == #[trigger] old(
                    gui,
                ).texts@[j],
            final(gui).texts@[r.0.caption.slot as int].text@ == label_text@,
            final(gui).texts@[r.0.caption.slot as int].h_align == HorizontalAlign::Center,
            final(gui).texts@[r.0.caption.slot as int].v_align == VerticalAlign::Center,
            final(gui).visuals@ == old(gui).visuals@.push(
                Some(VisualStyle::default_spec()),
            ).push(Some(VisualStyle::button_spec())),
            r.1.visual_slot == old(gui).visuals@.len() + 1,
            r.1.children@[0].visual_slot == old(gui).visuals@.len(),
            final(gui).cells@ == old(gui).cells@,
            final(gui).bools@ == old(gui).bools@,
            final(gui).dirty,
            final(gui).state == old(gui).state,
            final(gui).signals == old(gui).signals,
            final(gui).next_id == old(gui).next_id + 2,
            final(gui).trace@ == old(gui).trace@,
            !old(gui).nodes().contains_key(r.1.node),
            !old(gui).nodes().contains_key(r.1.children@[0].node),
            final(gui).nodes().dom() == old(gui).nodes().dom().insert(
                r.1.children@[0].node,
            ).insert(r.1.node),
    {
        let (caption, mut caption_widget) = Label::with_text(gui, label_text);
        let ghost g1 = *gui;
        caption.set_halign(gui, HorizontalAlign::Center);
        caption.set_valign(gui, VerticalAlign::Center);
        proof {
            crate::widget::lemma_tree_wf_preserved(
                caption_widget,
                g1,
                *gui,
                caption_widget.nodes_of(),
            );
        }
        caption_widget.set_layout(
            gui,
            LayoutStyle { min_width: 0, min_height: 0, flex_grow: 1, border: 0 },
        );
        let slot = gui.buttons.len();
        let ghost g_before_push = *gui;
        gui.buttons.push(ButtonState { was_pressed: false, toggle, on_activate: None });
        proof {
            assert forall|i: int|
                0 <= i < gui.buttons@.len() implies (#[trigger] gui.buttons@[i]).wf(
                gui.cells@.len() as int,
                gui.bools@.len() as int,
            ) by {
                if i < g_before_push.buttons@.len() {
                    assert(g_before_push.buttons@[i].wf(
                        g_before_push.cells@.len() as int,
                        g_before_push.bools@.len() as int,
                    ));
                }
            }
            crate::widget::lemma_tree_wf_preserved(
                caption_widget,
                g_before_push,
                *gui,
                caption_widget.nodes_of(),
            );
        }
        let ghost g_before_btn = *gui;
        let mut button_widget = WidgetData::with_style(
            gui,
            LayoutStyle { min_width: 128, min_height: 32, flex_grow: 0, border: 0 },
            Some(VisualStyle::button()),
            WidgetKind::Button { slot, label_slot: caption.slot },
        );
        proof {
            assert(gui.nodes().contains_key(caption_widget.node));
            crate::widget::lemma_tree_wf_preserved(
                caption_widget,
                g_before_btn,
                *gui,
                caption_widget.nodes_of(),
            );
            assert(caption_widget.nodes_of().disjoint(button_widget.nodes_of()));
        }
        button_widget.add_child(gui, caption_widget);
        proof {
            assert(button_widget.nodes_of() =~= Set::<taffy::node::Node>::empty().insert(
                button_widget.children@[0].node,
            ).insert(button_widget.node));
            assert(final(gui).nodes().dom() =~= old(gui).nodes().dom().insert(
                button_widget.children@[0].node,
            ).insert(button_widget.node));
            assert(final(gui).visuals@ =~= old(gui).visuals@.push(
                Some(VisualStyle::default_spec()),
            ).push(Some(VisualStyle::button_spec())));
        }
        (Button { slot, caption }, button_widget)
    }

    /// A plain push button with the given caption.
    pub fn with_label(gui: &mut Gui, label_text: String) -> (r: (Button, WidgetData))
        requires
            old(gui).wf(),
            old(gui).next_id < u64::MAX - 1,
        ensures
            final(gui).wf(),
            r.1.tree_wf(*final(gui)),
            r.0.slot == old(gui).buttons@.len(),
            r.0.caption.slot == old(gui).texts@.len(),
            r.1.kind == (WidgetKind::Button { slot: r.0.slot, label_slot: r.0.caption.slot }),
            r.1.can_highlight,
            r.1.children@.len() == 1,
            r.1.children@[0].kind == (WidgetKind::Label { slot: r.0.caption.slot }),
            !r.1.children@[0].can_highlight,
            r.1.children@[0].children@.len() == 0,
            r.1.children@[0].rect == crate::widget::Rect::zero_spec(),
            r.1.rect == crate::widget::Rect::zero_spec(),
            r.1.children@[0].id == old(gui).next_id,
            r.1.id == old(gui).next_id + 1,
            r.1.nodes_of() == Set::<taffy::node::Node>::empty().insert(
                r.1.children@[0].node,
            ).insert(r.1.node),
            !old(gui).nodes().contains_key(r.1.node),
            !old(gui).nodes().contains_key(r.1.children@[0].node),
            final(gui).nodes().dom() == old(gui).nodes().dom().insert(
                r.1.children@[0].node,
            ).insert(r.1.node),
            final(gui).buttons@ == old(gui).buttons@.push(
                ButtonState { was_pressed: false, toggle: None, on_activate: None },
            ),
            final(gui).texts@.len() == old(gui).texts@.len() + 1,
            forall|j: int|
                0 <= j < old(gui).texts@.len() ==> final(gui).texts@[j] == #[trigger] old(
                    gui,
                ).texts@[j],
            final(gui).texts@[r.0.caption.slot as int].text@ == label_text@,
            final(gui).cells@ == old(gui).cells@,
            final(gui).bools@ == old(gui).bools@,
            final(gui).dirty,
            final(gui).state == old(gui).state,
            final(gui).signals == old(gui).signals,
            final(gui).next_id == old(gui).next_id + 2,
            final(gui).trace@ == old(gui).trace@,
    {
        Self::build(gui, label_text, None)
    }

    /// A push button whose activation also toggles the given boolean
    /// model.
    pub fn with_label_toggle(gui: &mut Gui, label_text: String, toggle: BoolSource) -> (r: (Button, WidgetData))
        requires
            old(gui).wf(),
            old(gui).next_id < u64::MAX - 1,
            source_ok(toggle, old(gui).cells@.len() as int, old(gui).bools@.len() as int),
        ensures
            final(gui).wf(),
            r.1.tree_wf(*final(gui)),
            r.0.slot == old(gui).buttons@.len(),
            r.0.caption.slot == old(gui).texts@.len(),
            r.1.kind == (WidgetKind::Button { slot: r.0.slot, label_slot: r.0.caption.slot }),
            r.1.can_highlight,
            r.1.children@.len() == 1,
            r.1.children@[0].kind == (WidgetKind::Label { slot: r.0.caption.slot }),
            !r.1.children@[0].can_highlight,
            r.1.children@[0].children@.len() == 0,
            r.1.children@[0].rect == crate::widget::Rect::zero_spec(),
            r.1.rect == crate::widget::Rect::zero_spec(),
            r.1.children@[0].id == old(gui).next_id,
            r.1.id == old(gui).next_id + 1,
            r.1.nodes_of() == Set::<taffy::node::Node>::empty().insert(
                r.1.children@[0].node,
            ).insert(r.1.node),
            !old(gui).nodes().contains_key(r.1.node),
            !old(gui).nodes().contains_key(r.1.children@[0].node),
            final(gui).nodes().dom() == old(gui).nodes().dom().insert(
                r.1.children@[0].node,
            ).insert(r.1.node),
            final(gui).buttons@ == old(gui).buttons@.push(
                ButtonState { was_pressed: false, toggle: Some(toggle), on_activate: None },
            ),
            final(gui).texts@[r.0.caption.slot as int].text@ == label_text@,
            final(gui).cells@ == old(gui).cells@,
            final(gui).bools@ == old(gui).bools@,
            final(gui).state == old(gui).state,
            final(gui).signals == old(gui).signals,
            final(gui).trace@ == old(gui).trace@,
    {
        Self::build(gui, label_text, Some(toggle))
    }

    /// The button's caption label.
    pub fn label(&self) -> (l: Label)
        ensures
            l == self.caption,
    {
        self.caption
    }

    /// Registers `handler` for this button's activation signal,
    /// overwriting any earlier handler: one reaction per button.
    pub fn connect_activate(&self, gui: &mut Gui, handler: ActivateHandler)
        requires
            old(gui).wf(),
            self.slot < old(gui).buttons@.len(),
            activate_ok(handler, old(gui).cells@.len() as int),
        ensures
            final(gui).wf(),
            final(gui).buttons@ == old(gui).buttons@.update(
                self.slot as int,
                ButtonState { on_activate: Some(handler), ..old(gui).buttons@[self.slot as int] },
            ),
            final(gui).cells@ == old(gui).cells@,
            final(gui).bools@ == old(gui).bools@,
            final(gui).texts@ == old(gui).texts@,
            final(gui).visuals@ == old(gui).visuals@,
            old(gui).same_frame(*final(gui)),
            final(gui).dirty == old(gui).dirty,
            final(gui).trace@ == old(gui).trace@,
    {
        let bs = &mut gui.buttons[self.slot];
        bs.on_activate = Some(handler);
        proof {
            assert(final(gui).buttons@ =~= old(gui).buttons@.update(
                self.slot as int,
                ButtonState { on_activate: Some(handler), ..old(gui).buttons@[self.slot as int] },
            ));
        }
    }
}

/// A copyable handle to a checkbox: its slot in the button arena.
#[derive(Clone, Copy, PartialEq, Eq, Structural, Debug)]
pub struct Checkbox {
    pub slot: usize,
}

impl Checkbox {
    /// Builds a checkbox widget over the given boolean model.
    fn build(gui: &mut Gui, model: BoolSource, rocker: bool, min_width: u16, min_height: u16) -> (r: (Checkbox, WidgetData))
        requires
            old(gui).wf(),
            old(gui).next_id < u64::MAX,
            source_ok(model, old(gui).cells@.len() as int, old(gui).bools@.len() as int),
        ensures
            final(gui).wf(),
            r.1.tree_wf(*final(gui)),
            r.0.slot == old(gui).buttons@.len(),
            r.1.kind == (WidgetKind::Checkbox { slot: r.0.slot, rocker }),
            r.1.can_highlight,
            r.1.children@.len() == 0,
            r.1.rect == crate::widget::Rect::zero_spec(),
            r.1.id == old(gui).next_id,
            r.1.nodes_of() == Set::<taffy::node::Node>::empty().insert(r.1.node),
            final(gui).buttons@ == old(gui).buttons@.push(
                ButtonState { was_pressed: false, toggle: Some(model), on_activate: None },
            ),
            final(gui).visuals@ == old(gui).visuals@.push(Some(VisualStyle::button_spec())),
            final(gui).cells@ == old(gui).cells@,
            final(gui).bools@ == old(gui).bools@,
            final(gui).texts@ == old(gui).texts@,
            final(gui).dirty == old(gui).dirty,
            final(gui).state == old(gui).state,
            final(gui).signals == old(gui).signals,
            final(gui).next_id == old(gui).next_id + 1,
            final(gui).trace@ == old(gui).trace@,
            !old(gui).nodes().contains_key(r.1.node),
            final(gui).nodes().dom() == old(gui).nodes().dom().insert(r.1.node),
    {
        let slot = gui.buttons.len();
        let ghost g_before_push = *gui;
        gui.buttons.push(ButtonState { was_pressed: false, toggle: Some(model), on_activate: None });
        proof {
            assert forall|i: int|
                0 <= i < gui.buttons@.len() implies (#[trigger] gui.buttons@[i]).wf(
                gui.cells@.len() as int,
                gui.bools@.len() as int,
            ) by {
                if i < g_before_push.buttons@.len() {
                    assert(g_before_push.buttons@[i].wf(
                        g_before_push.cells@.len() as int,
                        g_before_push.bools@.len() as int,
                    ));
                }
            }
        }
        let w = WidgetData::with_style(
            gui,
            LayoutStyle { min_width, min_height, flex_grow: 0, border: 0 },
            Some(VisualStyle::button()),
            WidgetKind::Checkbox { slot, rocker },
        );
        proof {
            assert(final(gui).nodes().dom() =~= old(gui).nodes().dom().insert(w.node));
        }
        (Checkbox { slot }, w)
    }

    /// A square checkbox.
    pub fn new(gui: &mut Gui, model: BoolSource) -> (r: (Checkbox, WidgetData))
        requires
            old(gui).wf(),
            old(gui).next_id < u64::MAX,
            source_ok(model, old(gui).cells@.len() as int, old(gui).bools@.len() as int),
        ensures
            final(gui).wf(),
            r.1.tree_wf(*final(gui)),
            r.0.slot == old(gui).buttons@.len(),
            r.1.kind == (WidgetKind::Checkbox { slot: r.0.slot, rocker: false }),
            r.1.can_highlight,
            r.1.children@.len() == 0,
            r.1.rect == crate::widget::Rect::zero_spec(),
            r.1.id == old(gui).next_id,
            r.1.nodes_of() == Set::<taffy::node::Node>::empty().insert(r.1.node),
            !old(gui).nodes().contains_key(r.1.node),
            final(gui).nodes().dom() == old(gui).nodes().dom().insert(r.1.node),
            final(gui).buttons@ == old(gui).buttons@.push(
                ButtonState { was_pressed: false, toggle: Some(model), on_activate: None },
            ),
            final(gui).cells@ == old(gui).cells@,
            final(gui).bools@ == old(gui).bools@,
            final(gui).texts@ == old(gui).texts@,
            final(gui).state == old(gui).state,
            final(gui).signals == old(gui).signals,
            final(gui).trace@ == old(gui).trace@,
    {
        Self::build(gui, model, false, 24, 24)
    }

    /// A wide rocker switch over the same model contract.
    pub fn new_rocker(gui: &mut Gui, model: BoolSource) -> (r: (Checkbox, WidgetData))
        requires
            old(gui).wf(),
            old(gui).next_id < u64::MAX,
            source_ok(model, old(gui).cells@.len() as int, old(gui).bools@.len() as int),
        ensures
            final(gui).wf(),
            r.1.tree_wf(*final(gui)),
            r.0.slot == old(gui).buttons@.len(),
            r.1.kind == (WidgetKind::Checkbox { slot: r.0.slot, rocker: true }),
            r.1.can_highlight,
            r.1.children@.len() == 0,
            r.1.rect == crate::widget::Rect::zero_spec(),
            r.1.id == old(gui).next_id,
            r.1.nodes_of() == Set::<taffy::node::Node>::empty().insert(r.1.node),
            !old(gui).nodes().contains_key(r.1.node),
            final(gui).nodes().dom() == old(gui).nodes().dom().insert(r.1.node),
            final(gui).buttons@ == old(gui).buttons@.push(
                ButtonState { was_pressed: false, toggle: Some(model), on_activate: None },
            ),
            final(gui).cells@ == old(gui).cells@,
            final(gui).bools@ == old(gui).bools@,
            final(gui).texts@ == old(gui).texts@,
            final(gui).state == old(gui).state,
            final(gui).signals == old(gui).signals,
            final(gui).trace@ == old(gui).trace@,
    {
        Self::build(gui, model, true, 48, 24)
    }

    /// The boolean the checkbox's model currently holds.
    pub fn value(&self, gui: &Gui) -> (v: bool)
        requires
            gui.wf(),
            self.slot < gui.buttons@.len(),
        ensures
            v == source_value(*gui, gui.buttons@[self.slot as int].toggle),
    {
        let src = gui.buttons[self.slot].toggle;
        match src {
            Option::None => false,
            Option::Some(BoolSource::Cell { bool_cell }) => gui.bools[bool_cell],
            Option::Some(BoolSource::Select { cell, value }) => gui.cells[cell].value == value,
        }
    }
}

} // verus!
