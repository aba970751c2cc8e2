//! The widget tree: a generic container node owning its children, bound to
//! one layout-engine node for its whole life.
//!
//! The tree is held by ordinary ownership (a node owns its children), so it
//! is tree-shaped by construction; there are no parent back-references, and
//! ancestor queries are answered by walking down from the root. Each widget
//! owns exactly one registry node, created at construction and released
//! exactly once at `destroy`.

use vstd::prelude::*;

use crate::engine::NodeRec;
use crate::engine::RectRec;
use crate::engine::StyleRec;
use crate::engine::engine_new_leaf;
use crate::engine::engine_remove;
use crate::engine::engine_set_style;
use crate::engine::style_rec;
use crate::graphics::VisualStyle;
use crate::gui::Gui;
use crate::gui::GuiState;
use crate::gui::find_widget;
use crate::gui::lemma_locate_in_none;
use crate::gui::locate;

pub mod button;
pub mod label;

verus! {

/// The box-style fields a widget pushes to the layout engine: a minimum
/// size, a flex-grow weight, and a uniform border width, in whole units.
/// Every other engine style field keeps its default.
#[derive(Clone, Copy, PartialEq, Eq, Structural, Debug)]
pub struct LayoutStyle {
    pub min_width: u16,
    pub min_height: u16,
    pub flex_grow: u16,
    pub border: u16,
}

impl LayoutStyle {
    /// The same fields as the engine model records them.
    pub open spec fn rec(self) -> StyleRec {
        style_rec(self.min_width, self.min_height, self.flex_grow, self.border)
    }

    /// The default style: no minimum size, no growth, no border.
    pub fn plain() -> (s: LayoutStyle)
        ensures
            s == (LayoutStyle { min_width: 0, min_height: 0, flex_grow: 0, border: 0 }),
    {
        LayoutStyle { min_width: 0, min_height: 0, flex_grow: 0, border: 0 }
    }
}

/// A computed rectangle relative to the parent's origin, in whole units;
/// zero (and meaningless) until the first layout pass.
#[derive(Clone, Copy, PartialEq, Eq, Structural, Debug)]
pub struct Rect {
    pub x: i32,
    pub y: i32,
    pub width: u32,
    pub height: u32,
}

impl Rect {
    pub open spec fn zero_spec() -> Rect {
        Rect { x: 0, y: 0, width: 0, height: 0 }
    }

    pub fn zero() -> (r: Rect)
        ensures
            r == Rect::zero_spec(),
    {
        Rect { x: 0, y: 0, width: 0, height: 0 }
    }
}

/// The payload of a widget: which behavior it carries, with its slots into
/// the orchestrator's arenas.
#[derive(Clone, Copy, PartialEq, Eq, Structural, Debug)]
pub enum WidgetKind {
    /// Pure layout container; paints nothing of its own.
    Container,
    /// A text block; `slot` indexes the orchestrator's text arena.
    Label { slot: usize },
    /// A push button; `slot` indexes the button arena, `label_slot` the
    /// text of its child label.
    Button { slot: usize, label_slot: usize },
    /// A checkbox (or rocker switch); `slot` indexes the button arena.
    Checkbox { slot: usize, rocker: bool },
}

/// Whether a kind's slots point into the orchestrator's arenas.
pub open spec fn kind_ok(kind: WidgetKind, g: Gui) -> bool {
    match kind {
        WidgetKind::Container => true,
        WidgetKind::Label { slot } => slot < g.texts@.len(),
        WidgetKind::Button { slot, label_slot } => slot < g.buttons@.len() && label_slot
            < g.texts@.len(),
        WidgetKind::Checkbox { slot, rocker: _ } => slot < g.buttons@.len(),
    }
}

/// One widget-tree node: the uniform, type-erased contract every concrete
/// widget satisfies. It owns its children in insertion order, its layout
/// handle, and an optional visual; `can_highlight` is fixed at construction
/// from whether the initial visual had a background, and later visual
/// changes never alter it.
pub struct WidgetData {
    pub id: u64,
    pub node: taffy::node::Node,
    pub style: LayoutStyle,
    pub rect: Rect,
    /// Index of this widget's visual in the orchestrator's visual arena:
    /// like a label's text, the mutable visual lives with the orchestrator
    /// so that signal handlers can repaint a widget without reaching into
    /// the tree.
    pub visual_slot: usize,
    pub can_highlight: bool,
    pub kind: WidgetKind,
    pub children: Vec<WidgetData>,
}

impl WidgetData {
    /// Every registry node of this subtree.
    pub open spec fn nodes_of(self) -> Set<taffy::node::Node>
        decreases self, 0int,
    {
        sub_nodes(self.children@, self.children@.len() as int).insert(self.node)
    }

    /// The subtree is well formed against `g`: every node of it is
    /// registered, edge-free and carries the widget's own style; slots
    /// point into the arenas; and the registry nodes of separate branches
    /// are distinct.
    pub open spec fn tree_wf(self, g: Gui) -> bool
        decreases self, 1int,
    {
        &&& g.nodes().contains_key(self.node)
        &&& g.nodes()[self.node].parent is None
        &&& g.nodes()[self.node].kids.len() == 0
        &&& g.nodes()[self.node].style == self.style.rec()
        &&& self.visual_slot < g.visuals@.len()
        &&& kind_ok(self.kind, g)
        &&& seq_tree_wf(self.children@, self.children@.len() as int, g)
        &&& sub_disjoint(self.children@, self.children@.len() as int)
        &&& !sub_nodes(self.children@, self.children@.len() as int).contains(self.node)
    }
}

/// The union of the registry nodes of the first `n` widgets of `s`.
pub open spec fn sub_nodes(s: Seq<WidgetData>, n: int) -> Set<taffy::node::Node>
    decreases s, n, 1int,
{
    if n <= 0 || n > s.len() {
        Set::empty()
    } else {
        sub_nodes(s, n - 1).union(s[n - 1].nodes_of())
    }
}

/// The first `n` widgets of `s` are each well formed against `g`.
pub open spec fn seq_tree_wf(s: Seq<WidgetData>, n: int, g: Gui) -> bool
    decreases s, n, 2int,
{
    if n <= 0 || n > s.len() {
        true
    } else {
        seq_tree_wf(s, n - 1, g) && s[n - 1].tree_wf(g)
    }
}

/// Among the first `n` widgets of `s`, each one's registry nodes are
/// disjoint from all earlier ones'.
pub open spec fn sub_disjoint(s: Seq<WidgetData>, n: int) -> bool
    decreases s, n, 2int,
{
    if n <= 0 || n > s.len() {
        true
    } else {
        sub_disjoint(s, n - 1) && s[n - 1].nodes_of().disjoint(sub_nodes(s, n - 1))
    }
}

/// `b` preserves the registry entries of `kept` that `a` holds.
pub open spec fn entries_kept(a: Gui, b: Gui, kept: Set<taffy::node::Node>) -> bool {
    forall|nd: taffy::node::Node|
        kept.contains(nd) && a.nodes().contains_key(nd) ==> b.nodes().contains_key(nd)
            && b.nodes()[nd] == #[trigger] a.nodes()[nd]
}

/// A member's registry nodes are among the union of its prefix.
pub proof fn lemma_sub_nodes_contains(s: Seq<WidgetData>, n: int, i: int)
    requires
        0 <= i < n <= s.len(),
    ensures
        s[i].nodes_of().subset_of(sub_nodes(s, n)),
    decreases n,
{
    if i < n - 1 {
        lemma_sub_nodes_contains(s, n - 1, i);
    }
}

/// Well-formedness of a prefix gives well-formedness of each member.
pub proof fn lemma_seq_tree_wf_at(s: Seq<WidgetData>, n: int, i: int, g: Gui)
    requires
        seq_tree_wf(s, n, g),
        0 <= i < n <= s.len(),
    ensures
        s[i].tree_wf(g),
    decreases n,
{
    if i < n - 1 {
        lemma_seq_tree_wf_at(s, n - 1, i, g);
    }
}

/// Well-formedness only reads the registry entries of the subtree's own
/// nodes and the arena lengths, so it survives any change that preserves
/// those entries and does not shrink the arenas.
pub proof fn lemma_tree_wf_preserved(w: WidgetData, a: Gui, b: Gui, kept: Set<taffy::node::Node>)
    requires
        w.tree_wf(a),
        w.nodes_of().subset_of(kept),
        entries_kept(a, b, kept),
        b.texts@.len() >= a.texts@.len(),
        b.buttons@.len() >= a.buttons@.len(),
        b.visuals@.len() >= a.visuals@.len(),
    ensures
        w.tree_wf(b),
    decreases w, 1int,
{
    assert(w.nodes_of().contains(w.node));
    assert(sub_nodes(w.children@, w.children@.len() as int).subset_of(w.nodes_of()));
    lemma_seq_tree_wf_preserved(w.children@, w.children@.len() as int, a, b, kept);
}

/// The prefix form of [`lemma_tree_wf_preserved`].
pub proof fn lemma_seq_tree_wf_preserved(s: Seq<WidgetData>, n: int, a: Gui, b: Gui, kept: Set<taffy::node::Node>)
    requires
        seq_tree_wf(s, n, a),
        n <= s.len(),
        sub_nodes(s, n).subset_of(kept),
        entries_kept(a, b, kept),
        b.texts@.len() >= a.texts@.len(),
        b.buttons@.len() >= a.buttons@.len(),
        b.visuals@.len() >= a.visuals@.len(),
    ensures
        seq_tree_wf(s, n, b),
    decreases s, n, 2int,
{
    if 0 < n <= s.len() {
        lemma_seq_tree_wf_preserved(s, n - 1, a, b, kept);
        assert(s[n - 1].nodes_of().subset_of(sub_nodes(s, n)));
        lemma_tree_wf_preserved(s[n - 1], a, b, kept);
    }
}

/// Two sequences that agree on their first `n` members have the same
/// prefix facts.
pub proof fn lemma_prefix_congruent(s: Seq<WidgetData>, s2: Seq<WidgetData>, n: int, g: Gui)
    requires
        0 <= n <= s.len(),
        n <= s2.len(),
        forall|i: int| 0 <= i < n ==> s[i] == s2[i],
    ensures
        sub_nodes(s, n) == sub_nodes(s2, n),
        seq_tree_wf(s, n, g) == seq_tree_wf(s2, n, g),
        sub_disjoint(s, n) == sub_disjoint(s2, n),
    decreases n,
{
    if n > 0 {
        lemma_prefix_congruent(s, s2, n - 1, g);
    }
}

/// Later members are disjoint from earlier ones.
pub proof fn lemma_pairwise_disjoint(s: Seq<WidgetData>, n: int, i: int, j: int)
    requires
        sub_disjoint(s, n),
        0 <= i < j < n <= s.len(),
    ensures
        s[j].nodes_of().disjoint(s[i].nodes_of()),
    decreases n,
{
    if j == n - 1 {
        lemma_sub_nodes_contains(s, n - 1, i);
    } else {
        lemma_pairwise_disjoint(s, n - 1, i, j);
    }
}

/// The union of the registry nodes of the widgets of `s` from `k` on.
pub open spec fn suffix_nodes(s: Seq<WidgetData>, k: int) -> Set<taffy::node::Node>
    decreases s.len() - k,
{
    if k < 0 || k >= s.len() {
        Set::empty()
    } else {
        suffix_nodes(s, k + 1).union(s[k].nodes_of())
    }
}

/// A member is disjoint from the union of the members after it.
pub proof fn lemma_disjoint_suffix(s: Seq<WidgetData>, i: int, k: int)
    requires
        sub_disjoint(s, s.len() as int),
        0 <= i < k <= s.len(),
    ensures
        s[i].nodes_of().disjoint(suffix_nodes(s, k)),
    decreases s.len() - k,
{
    if k < s.len() {
        lemma_disjoint_suffix(s, i, k + 1);
        lemma_pairwise_disjoint(s, s.len() as int, i, k);
    }
}

/// Prefix union and suffix union together cover the whole sequence.
pub proof fn lemma_sub_suffix_union(s: Seq<WidgetData>, k: int)
    requires
        0 <= k <= s.len(),
    ensures
        sub_nodes(s, s.len() as int) =~= sub_nodes(s, k).union(suffix_nodes(s, k)),
    decreases s.len() - k,
{
    if k < s.len() {
        lemma_sub_suffix_union(s, k + 1);
    }
}

impl WidgetData {
    /// Creates a widget bound to a fresh registry node carrying `style`.
    /// Highlight eligibility is decided here, once: the widget can be
    /// highlighted exactly when `visual` has a background.
    pub fn with_style(gui: &mut Gui, style: LayoutStyle, visual: Option<VisualStyle>, kind: WidgetKind) -> (w: WidgetData)
        requires
            old(gui).wf(),
            kind_ok(kind, *old(gui)),
            old(gui).next_id < u64::MAX,
        ensures
            final(gui).wf(),
            w.tree_wf(*final(gui)),
            !old(gui).nodes().contains_key(w.node),
            w.nodes_of() == Set::<taffy::node::Node>::empty().insert(w.node),
            final(gui).nodes() == old(gui).nodes().insert(
                w.node,
                NodeRec { style: style.rec(), parent: None, kids: Seq::empty(), rect: RectRec::zero() },
            ),
            w.id == old(gui).next_id,
            final(gui).next_id == old(gui).next_id + 1,
            w.style == style,
            w.visual_slot == old(gui).visuals@.len(),
            final(gui).visuals@ == old(gui).visuals@.push(visual),
            w.kind == kind,
            w.children@.len() == 0,
            w.rect == Rect::zero_spec(),
            w.can_highlight == (visual matches Some(v) && v.background is Some),
            final(gui).cells@ == old(gui).cells@,
            final(gui).bools@ == old(gui).bools@,
            final(gui).buttons@ == old(gui).buttons@,
            final(gui).texts@ == old(gui).texts@,
            final(gui).dirty == old(gui).dirty,
            final(gui).state == old(gui).state,
            final(gui).signals == old(gui).signals,
            final(gui).trace@ == old(gui).trace@,
    {
        let node = engine_new_leaf(&mut gui.engine, style.min_width, style.min_height, style.flex_grow, style.border);
        let can_highlight = match &visual {
            Option::Some(v) => v.background.is_some(),
            Option::None => false,
        };
        let visual_slot = gui.visuals.len();
        gui.visuals.push(visual);
        let id = gui.next_id;
        gui.next_id = gui.next_id + 1;
        let w = WidgetData {
            id,
            node,
            style,
            rect: Rect::zero(),
            visual_slot,
            can_highlight,
            kind,
            children: Vec::new(),
        };
        proof {
            assert(w.nodes_of() =~= Set::<taffy::node::Node>::empty().insert(w.node));
        }
        w
    }

    /// Creates a widget with the default style; `draw` decides whether it
    /// gets the default visual (border and foreground) or none at all — and
    /// with no background either way, no highlight eligibility.
    pub fn new(gui: &mut Gui, draw: bool, kind: WidgetKind) -> (w: WidgetData)
        requires
            old(gui).wf(),
            kind_ok(kind, *old(gui)),
            old(gui).next_id < u64::MAX,
        ensures
            final(gui).wf(),
            w.tree_wf(*final(gui)),
            !old(gui).nodes().contains_key(w.node),
            w.nodes_of() == Set::<taffy::node::Node>::empty().insert(w.node),
            final(gui).nodes() == old(gui).nodes().insert(
                w.node,
                NodeRec {
                    style: (LayoutStyle { min_width: 0, min_height: 0, flex_grow: 0, border: 0 }).rec(),
                    parent: None,
                    kids: Seq::empty(),
                    rect: RectRec::zero(),
                },
            ),
            w.id == old(gui).next_id,
            final(gui).next_id == old(gui).next_id + 1,
            w.style == (LayoutStyle { min_width: 0, min_height: 0, flex_grow: 0, border: 0 }),
            w.visual_slot == old(gui).visuals@.len(),
            final(gui).visuals@ == old(gui).visuals@.push(
                if draw {
                    Some(VisualStyle::default_spec())
                } else {
                    Option::<VisualStyle>::None
                },
            ),
            w.kind == kind,
            w.children@.len() == 0,
            w.rect == Rect::zero_spec(),
            w.can_highlight == false,
            final(gui).cells@ == old(gui).cells@,
            final(gui).bools@ == old(gui).bools@,
            final(gui).buttons@ == old(gui).buttons@,
            final(gui).texts@ == old(gui).texts@,
            final(gui).dirty == old(gui).dirty,
            final(gui).state == old(gui).state,
            final(gui).signals == old(gui).signals,
            final(gui).trace@ == old(gui).trace@,
    {
        let visual = if draw {
            Option::Some(VisualStyle::default())
        } else {
            Option::None
        };
        Self::with_style(gui, LayoutStyle::plain(), visual, kind)
    }

    /// Pushes a new box style to the layout engine for this widget's node
    /// and marks the owning orchestrator dirty.
    pub fn set_layout(&mut self, gui: &mut Gui, style: LayoutStyle)
        requires
            old(gui).wf(),
            old(self).tree_wf(*old(gui)),
        ensures
            final(gui).wf(),
            final(self).tree_wf(*final(gui)),
            final(self).style == style,
            final(self).id == old(self).id,
            final(self).node == old(self).node,
            final(self).rect == old(self).rect,
            final(self).visual_slot == old(self).visual_slot,
            final(self).can_highlight == old(self).can_highlight,
            final(self).kind == old(self).kind,
            final(self).children@ == old(self).children@,
            final(self).nodes_of() == old(self).nodes_of(),
            final(gui).nodes() == old(gui).nodes().insert(
                old(self).node,
                NodeRec { style: style.rec(), ..old(gui).nodes()[old(self).node] },
            ),
            final(gui).dirty,
            final(gui).cells@ == old(gui).cells@,
            final(gui).bools@ == old(gui).bools@,
            final(gui).buttons@ == old(gui).buttons@,
            final(gui).texts@ == old(gui).texts@,
            final(gui).visuals@ == old(gui).visuals@,
            final(gui).state == old(gui).state,
            final(gui).signals == old(gui).signals,
            final(gui).next_id == old(gui).next_id,
            final(gui).trace@ == old(gui).trace@,
    {
        engine_set_style(&mut gui.engine, self.node, style.min_width, style.min_height, style.flex_grow, style.border);
        self.style = style;
        gui.mark_dirty();
        proof {
            let s = old(self).children@;
            let n = s.len() as int;
            lemma_prefix_congruent(s, final(self).children@, n, *old(gui));
            lemma_prefix_congruent(s, final(self).children@, n, *final(gui));
            assert(final(self).nodes_of() =~= old(self).nodes_of());
            assert(entries_kept(*old(gui), *final(gui), sub_nodes(s, n))) by {
                assert(!sub_nodes(s, n).contains(old(self).node));
            }
            lemma_seq_tree_wf_preserved(s, n, *old(gui), *final(gui), sub_nodes(s, n));
        }
    }

    /// Replaces the widget's visual and marks the orchestrator dirty.
    /// Highlight eligibility does not change: it was fixed at construction.
    pub fn set_visual(&self, gui: &mut Gui, visual: Option<VisualStyle>)
        requires
            old(gui).wf(),
            self.visual_slot < old(gui).visuals@.len(),
        ensures
            final(gui).wf(),
            final(gui).visuals@ == old(gui).visuals@.update(self.visual_slot as int, visual),
            final(gui).dirty,
            final(gui).cells@ == old(gui).cells@,
            final(gui).bools@ == old(gui).bools@,
            final(gui).buttons@ == old(gui).buttons@,
            final(gui).texts@ == old(gui).texts@,
            old(gui).same_frame(*final(gui)),
            final(gui).trace@ == old(gui).trace@,
    {
        gui.visuals.set(self.visual_slot, visual);
        gui.mark_dirty();
    }

    /// The widget's current visual.
    pub fn visual(&self, gui: &Gui) -> (v: Option<VisualStyle>)
        requires
            self.visual_slot < gui.visuals@.len(),
        ensures
            v == gui.visuals@[self.visual_slot as int],
    {
        gui.visuals[self.visual_slot]
    }

    /// Appends `child` to this widget's children, in insertion order, and
    /// marks the orchestrator dirty. The engine edge for the new branch is
    /// derived from the child sequence at the next layout pass, so the
    /// engine's edges and the tree's own child list cannot diverge.
    pub fn add_child(&mut self, gui: &mut Gui, child: WidgetData)
        requires
            old(gui).wf(),
            old(self).tree_wf(*old(gui)),
            child.tree_wf(*old(gui)),
            child.nodes_of().disjoint(old(self).nodes_of()),
        ensures
            final(gui).wf(),
            final(self).tree_wf(*final(gui)),
            final(self).children@ == old(self).children@.push(child),
            final(self).id == old(self).id,
            final(self).node == old(self).node,
            final(self).rect == old(self).rect,
            final(self).style == old(self).style,
            final(self).visual_slot == old(self).visual_slot,
            final(self).can_highlight == old(self).can_highlight,
            final(self).kind == old(self).kind,
            final(self).nodes_of() == old(self).nodes_of().union(child.nodes_of()),
            final(gui).dirty,
            old(gui).same_arenas(*final(gui)),
            old(gui).same_frame(*final(gui)),
            final(gui).trace@ == old(gui).trace@,
    {
        self.children.push(child);
        gui.mark_dirty();
        proof {
            let s = old(self).children@;
            let s2 = final(self).children@;
            let n = s.len() as int;
            lemma_prefix_congruent(s, s2, n, *old(gui));
            lemma_prefix_congruent(s, s2, n, *final(gui));
            assert(s2[n] == child);
            // prefix facts carry over, the new member is the child
            assert(entries_kept(*old(gui), *final(gui), sub_nodes(s, n)));
            lemma_seq_tree_wf_preserved(s, n, *old(gui), *final(gui), sub_nodes(s, n));
            assert(seq_tree_wf(s2, n, *final(gui)) == seq_tree_wf(s, n, *final(gui)));
            assert(entries_kept(*old(gui), *final(gui), child.nodes_of()));
            lemma_tree_wf_preserved(child, *old(gui), *final(gui), child.nodes_of());
            assert(seq_tree_wf(s2, n + 1, *final(gui)));
            assert(sub_nodes(s2, n) == sub_nodes(s, n));
            assert(sub_nodes(s, n).subset_of(old(self).nodes_of()));
            assert(child.nodes_of().disjoint(sub_nodes(s2, n)));
            assert(sub_disjoint(s2, n + 1));
            assert(sub_nodes(s2, n + 1) =~= sub_nodes(s, n).union(child.nodes_of()));
            assert(old(self).nodes_of().contains(old(self).node));
            assert(!sub_nodes(s2, n + 1).contains(final(self).node));
            assert(final(self).nodes_of() =~= old(self).nodes_of().union(child.nodes_of()));
        }
    }

    /// The width and height of the widget's computed rectangle; stale (and
    /// zero at first) until a layout pass has run. After `emit_layout`
    /// the stored rectangle is the engine's computed one (see
    /// `crate::gui::laid_out`).
    pub fn size(&self) -> (s: (u32, u32))
        ensures
            s.0 == self.rect.width,
            s.1 == self.rect.height,
    {
        (self.rect.width, self.rect.height)
    }

    /// Destroys the widget and all its descendants, releasing every
    /// registry node of the subtree exactly once. A highlight pointing
    /// into the destroyed subtree is cleared first: the stored highlight
    /// always names a live widget or is absent.
    pub fn destroy(self, gui: &mut Gui)
        requires
            old(gui).wf(),
            self.tree_wf(*old(gui)),
        ensures
            final(gui).wf(),
            final(gui).nodes() == old(gui).nodes().remove_keys(self.nodes_of()),
            final(gui).cells@ == old(gui).cells@,
            final(gui).bools@ == old(gui).bools@,
            final(gui).buttons@ == old(gui).buttons@,
            final(gui).texts@ == old(gui).texts@,
            final(gui).visuals@ == old(gui).visuals@,
            final(gui).dirty == old(gui).dirty,
            final(gui).state.pointer_press == old(gui).state.pointer_press,
            final(gui).state.highlight == (match old(gui).state.highlight {
                Option::Some(h) => if locate(self, h) is Some {
                    Option::<u64>::None
                } else {
                    Option::Some(h)
                },
                Option::None => Option::<u64>::None,
            }),
            final(gui).signals == old(gui).signals,
            final(gui).next_id == old(gui).next_id,
            final(gui).trace@ == old(gui).trace@,
        decreases self,
    {
        let clear = match gui.state.highlight {
            Option::Some(h) => find_widget(&self, h).is_some(),
            Option::None => false,
        };
        if clear {
            gui.state.highlight = Option::None;
        }
        let ghost orig = self;
        proof {
            assert(entries_kept(*old(gui), *old(gui), orig.nodes_of()));
        }
        let ghost g0 = *old(gui);
        let ghost state_now = gui.state;
        let WidgetData { node, mut children, .. } = self;
        let ghost all = orig.children@;
        proof {
            assert(children@ == all.subrange(0, children@.len() as int));
        }
        #[verifier::loop_isolation(false)]
        while children.len() > 0
            invariant
                g0.wf(),
                orig.tree_wf(g0),
                all == orig.children@,
                children@.len() <= all.len(),
                children@ == all.subrange(0, children@.len() as int),
                node == orig.node,
                gui.nodes() == g0.nodes().remove_keys(suffix_nodes(all, children@.len() as int)),
                gui.wf(),
                gui.cells@ == g0.cells@,
                gui.bools@ == g0.bools@,
                gui.buttons@ == g0.buttons@,
                gui.texts@ == g0.texts@,
                gui.visuals@ == g0.visuals@,
                gui.dirty == g0.dirty,
                gui.state == state_now,
                state_now.highlight matches Some(h) ==> locate(orig, h) is None,
                gui.signals == g0.signals,
                gui.next_id == g0.next_id,
                gui.trace@ == g0.trace@,
            decreases children@.len(),
        {
            let ghost k = children@.len() as int;
            let ghost g_pre = *gui;
            let child = children.pop().unwrap();
            proof {
                assert(child == all[k - 1]);
                assert(children@ == all.subrange(0, k - 1));
                // the child is well formed against the current registry
                lemma_seq_tree_wf_at(all, all.len() as int, k - 1, g0);
                lemma_disjoint_suffix(all, k - 1, k);
                assert(entries_kept(g0, g_pre, child.nodes_of())) by {
                    assert forall|nd: taffy::node::Node|
                        child.nodes_of().contains(nd) && g0.nodes().contains_key(nd)
                            implies g_pre.nodes().contains_key(nd) && g_pre.nodes()[nd]
                            == g0.nodes()[nd] by {
                        assert(!suffix_nodes(all, k).contains(nd));
                    }
                }
                lemma_tree_wf_preserved(child, g0, g_pre, child.nodes_of());
                // termination: the child is a structural piece of the original
                assert(decreases_to!(orig => child)) by {
                    assert(decreases_to!(orig => orig.children));
                    assert(decreases_to!(orig.children => orig.children@));
                    assert(decreases_to!(orig.children@ => orig.children@[k - 1]));
                }
            }
            child.destroy(gui);
            proof {
                assert(suffix_nodes(all, k - 1) =~= suffix_nodes(all, k).union(child.nodes_of()));
                assert(gui.nodes() =~= g0.nodes().remove_keys(suffix_nodes(all, k - 1)));
                if state_now.highlight is Some {
                    lemma_locate_in_none(all, 0, k - 1, state_now.highlight.unwrap());
                }
            }
        }
        proof {
            lemma_sub_suffix_union(all, 0);
            assert(suffix_nodes(all, 0) =~= sub_nodes(all, all.len() as int));
            // the root's own node survived the children's removal
            assert(!sub_nodes(all, all.len() as int).contains(node));
            assert(gui.nodes().contains_key(node));
            assert(gui.nodes()[node] == g0.nodes()[node]);
        }
        engine_remove(&mut gui.engine, node);
        proof {
            assert(gui.nodes() =~= g0.nodes().remove_keys(orig.nodes_of()));
        }
    }
}

/// The root-level plain container.
pub struct Container;

impl Container {
    /// A container widget: laid out, never painted, never highlighted.
    pub fn new(gui: &mut Gui) -> (w: WidgetData)
        requires
            old(gui).wf(),
            old(gui).next_id < u64::MAX,
        ensures
            final(gui).wf(),
            w.tree_wf(*final(gui)),
            w.kind == WidgetKind::Container,
            w.visual_slot == old(gui).visuals@.len(),
            final(gui).visuals@ == old(gui).visuals@.push(Option::<VisualStyle>::None),
            !w.can_highlight,
            w.children@.len() == 0,
            w.rect == Rect::zero_spec(),
            !old(gui).nodes().contains_key(w.node),
            w.nodes_of() == Set::<taffy::node::Node>::empty().insert(w.node),
            final(gui).nodes() == old(gui).nodes().insert(
                w.node,
                NodeRec {
                    style: (LayoutStyle { min_width: 0, min_height: 0, flex_grow: 0, border: 0 }).rec(),
                    parent: None,
                    kids: Seq::empty(),
                    rect: RectRec::zero(),
                },
            ),
            w.id == old(gui).next_id,
            final(gui).next_id == old(gui).next_id + 1,
            final(gui).cells@ == old(gui).cells@,
            final(gui).bools@ == old(gui).bools@,
            final(gui).buttons@ == old(gui).buttons@,
            final(gui).texts@ == old(gui).texts@,
            final(gui).dirty == old(gui).dirty,
            final(gui).state == old(gui).state,
            final(gui).signals == old(gui).signals,
            final(gui).trace@ == old(gui).trace@,
    {
        WidgetData::new(gui, false, WidgetKind::Container)
    }
}

} // verus!
