//! Text labels: a widget painting one text section.

use vstd::prelude::*;

use crate::graphics::HorizontalAlign;
use crate::graphics::TextSection;
use crate::graphics::VerticalAlign;
use crate::gui::Gui;
use crate::gui::texts_with_shown;
use crate::widget::WidgetData;
use crate::widget::WidgetKind;

verus! {

/// A copyable handle to a label's text slot; the widget itself lives in
/// the tree, while all of its mutable text state lives in the
/// orchestrator's text arena, so the handle stays usable after the widget
/// has been added to a tree.
#[derive(Clone, Copy, PartialEq, Eq, Structural, Debug)]
pub struct Label {
    pub slot: usize,
}

impl Label {
    /// Creates a label widget with the default (empty) text section and
    /// the default drawable visual.
    pub fn new(gui: &mut Gui) -> (r: (Label, WidgetData))
        requires
            old(gui).wf(),
            old(gui).next_id < u64::MAX,
        ensures
            final(gui).wf(),
            r.0.slot == old(gui).texts@.len(),
            final(gui).texts@.len() == old(gui).texts@.len() + 1,
            forall|j: int|
                0 <= j < old(gui).texts@.len() ==> final(gui).texts@[j] == #[trigger] old(gui).texts@[j],
            final(gui).texts@[r.0.slot as int].is_default_shape(),
            r.1.id == old(gui).next_id,
            r.1.tree_wf(*final(gui)),
            r.1.kind == (WidgetKind::Label { slot: r.0.slot }),
            r.1.children@.len() == 0,
            r.1.rect == crate::widget::Rect::zero_spec(),
            !r.1.can_highlight,
            !old(gui).nodes().contains_key(r.1.node),
            r.1.nodes_of() == Set::<taffy::node::Node>::empty().insert(r.1.node),
            final(gui).nodes() == old(gui).nodes().insert(
                r.1.node,
                crate::engine::NodeRec {
                    style: r.1.style.rec(),
                    parent: None,
                    kids: Seq::empty(),
                    rect: crate::engine::RectRec::zero(),
                },
            ),
            final(gui).cells@ == old(gui).cells@,
            final(gui).bools@ == old(gui).bools@,
            final(gui).buttons@ == old(gui).buttons@,
            r.1.visual_slot == old(gui).visuals@.len(),
            final(gui).visuals@ == old(gui).visuals@.push(Some(crate::graphics::VisualStyle::default_spec())),
            final(gui).dirty == old(gui).dirty,
            final(gui).state == old(gui).state,
            final(gui).signals == old(gui).signals,
            final(gui).next_id == old(gui).next_id + 1,
            final(gui).trace@ == old(gui).trace@,
    {
        let slot = gui.texts.len();
        gui.texts.push(TextSection::default());
        let w = WidgetData::new(gui, true, WidgetKind::Label { slot });
        (Label { slot }, w)
    }

    /// A label created with `text` already set.
    pub fn with_text(gui: &mut Gui, text: String) -> (r: (Label, WidgetData))
        requires
            old(gui).wf(),
            old(gui).next_id < u64::MAX,
        ensures
            final(gui).wf(),
            r.0.slot == old(gui).texts@.len(),
            final(gui).texts@.len() == old(gui).texts@.len() + 1,
            forall|j: int|
                0 <= j < old(gui).texts@.len() ==> final(gui).texts@[j] == #[trigger] old(gui).texts@[j],
            final(gui).texts@[r.0.slot as int].text@ == text@,
            r.1.id == old(gui).next_id,
            r.1.tree_wf(*final(gui)),
            r.1.kind == (WidgetKind::Label { slot: r.0.slot }),
            r.1.children@.len() == 0,
            r.1.rect == crate::widget::Rect::zero_spec(),
            !r.1.can_highlight,
            !old(gui).nodes().contains_key(r.1.node),
            r.1.nodes_of() == Set::<taffy::node::Node>::empty().insert(r.1.node),
            final(gui).nodes() == old(gui).nodes().insert(
                r.1.node,
                crate::engine::NodeRec {
                    style: r.1.style.rec(),
                    parent: None,
                    kids: Seq::empty(),
                    rect: crate::engine::RectRec::zero(),
                },
            ),
            final(gui).cells@ == old(gui).cells@,
            final(gui).bools@ == old(gui).bools@,
            final(gui).buttons@ == old(gui).buttons@,
            r.1.visual_slot == old(gui).visuals@.len(),
            final(gui).visuals@ == old(gui).visuals@.push(Some(crate::graphics::VisualStyle::default_spec())),
            final(gui).dirty == old(gui).dirty,
            final(gui).state == old(gui).state,
            final(gui).signals == old(gui).signals,
            final(gui).next_id == old(gui).next_id + 1,
            final(gui).trace@ == old(gui).trace@,
    {
        let (label, w) = Self::new(gui);
        label.set_text(gui, text);
        (label, w)
    }

    /// The label's current text.
    pub fn text(&self, gui: &Gui) -> (t: String)
        requires
            self.slot < gui.texts@.len(),
        ensures
            t@ == gui.texts@[self.slot as int].text@,
    {
        gui.texts[self.slot].text.clone()
    }

    /// Replaces the label's text.
    pub fn set_text(&self, gui: &mut Gui, text: String)
        requires
            old(gui).wf(),
            self.slot < old(gui).texts@.len(),
        ensures
            final(gui).wf(),
            texts_with_shown(old(gui).texts@, final(gui).texts@, self.slot as int, text@),
            final(gui).cells@ == old(gui).cells@,
            final(gui).bools@ == old(gui).bools@,
            final(gui).buttons@ == old(gui).buttons@,
            final(gui).visuals@ == old(gui).visuals@,
            old(gui).same_frame(*final(gui)),
            final(gui).dirty == old(gui).dirty,
            final(gui).trace@ == old(gui).trace@,
    {
        let section = &mut gui.texts[self.slot];
        section.text = text;
    }

    /// Replaces the label's font descriptor.
    pub fn set_font(&self, gui: &mut Gui, font: String)
        requires
            old(gui).wf(),
            self.slot < old(gui).texts@.len(),
        ensures
            final(gui).wf(),
            final(gui).texts@.len() == old(gui).texts@.len(),
            forall|j: int|
                0 <= j < old(gui).texts@.len() && j != self.slot ==> final(gui).texts@[j]
                    == #[trigger] old(gui).texts@[j],
            final(gui).texts@[self.slot as int].font@ == font@,
            final(gui).texts@[self.slot as int].text@ == old(gui).texts@[self.slot as int].text@,
            final(gui).texts@[self.slot as int].h_align == old(gui).texts@[self.slot as int].h_align,
            final(gui).texts@[self.slot as int].v_align == old(gui).texts@[self.slot as int].v_align,
            final(gui).cells@ == old(gui).cells@,
            final(gui).bools@ == old(gui).bools@,
            final(gui).buttons@ == old(gui).buttons@,
            final(gui).visuals@ == old(gui).visuals@,
            old(gui).same_frame(*final(gui)),
            final(gui).dirty == old(gui).dirty,
            final(gui).trace@ == old(gui).trace@,
    {
        let section = &mut gui.texts[self.slot];
        section.font = font;
    }

    /// Replaces the label's horizontal alignment.
    pub fn set_halign(&self, gui: &mut Gui, h_align: HorizontalAlign)
        requires
            old(gui).wf(),
            self.slot < old(gui).texts@.len(),
        ensures
            final(gui).wf(),
            final(gui).texts@.len() == old(gui).texts@.len(),
            forall|j: int|
                0 <= j < old(gui).texts@.len() && j != self.slot ==> final(gui).texts@[j]
                    == #[trigger] old(gui).texts@[j],
            final(gui).texts@[self.slot as int].h_align == h_align,
            final(gui).texts@[self.slot as int].text@ == old(gui).texts@[self.slot as int].text@,
            final(gui).texts@[self.slot as int].font@ == old(gui).texts@[self.slot as int].font@,
            final(gui).texts@[self.slot as int].v_align == old(gui).texts@[self.slot as int].v_align,
            final(gui).cells@ == old(gui).cells@,
            final(gui).bools@ == old(gui).bools@,
            final(gui).buttons@ == old(gui).buttons@,
            final(gui).visuals@ == old(gui).visuals@,
            old(gui).same_frame(*final(gui)),
            final(gui).dirty == old(gui).dirty,
            final(gui).trace@ == old(gui).trace@,
    {
        let section = &mut gui.texts[self.slot];
        section.h_align = h_align;
    }

    /// Replaces the label's vertical alignment.
    pub fn set_valign(&self, gui: &mut Gui, v_align: VerticalAlign)
        requires
            old(gui).wf(),
            self.slot < old(gui).texts@.len(),
        ensures
            final(gui).wf(),
            final(gui).texts@.len() == old(gui).texts@.len(),
            forall|j: int|
                0 <= j < old(gui).texts@.len() && j != self.slot ==> final(gui).texts@[j]
                    == #[trigger] old(gui).texts@[j],
            final(gui).texts@[self.slot as int].v_align == v_align,
            final(gui).texts@[self.slot as int].text@ == old(gui).texts@[self.slot as int].text@,
            final(gui).texts@[self.slot as int].font@ == old(gui).texts@[self.slot as int].font@,
            final(gui).texts@[self.slot as int].h_align == old(gui).texts@[self.slot as int].h_align,
            final(gui).cells@ == old(gui).cells@,
            final(gui).bools@ == old(gui).bools@,
            final(gui).buttons@ == old(gui).buttons@,
            final(gui).visuals@ == old(gui).visuals@,
            old(gui).same_frame(*final(gui)),
            final(gui).dirty == old(gui).dirty,
            final(gui).trace@ == old(gui).trace@,
    {
        let section = &mut gui.texts[self.slot];
        section.v_align = v_align;
    }
}

} // verus!
