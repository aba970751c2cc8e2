//! The runtime's cross-cutting guarantees, stated and proved over the
//! contracts of the modules: redraw coalescing, cell notification counts,
//! hit-test order and containment, pointer activation counts, and
//! highlight eligibility.

use vstd::prelude::*;

use crate::gui::Ev;
use crate::gui::Gui;
use crate::gui::PointerState;
use crate::gui::activation_events;
use crate::gui::buttonlike_slot;
use crate::gui::handler_events;
use crate::gui::hit_children;
use crate::gui::hit_spec;
use crate::gui::locate;
use crate::gui::button_rel;
use crate::gui::button_step;
use crate::gui::motion_rel;
use crate::gui::motion_steps;
use crate::gui::toggle_events;
use crate::gui::transition_events;
use crate::gui::transition_rel;
use crate::model::cell_written;
use crate::widget::WidgetData;

verus! {

// ---------------------------------------------------------------------------
// Dirty-flag coalescing
// ---------------------------------------------------------------------------

/// What one redraw poll does, per `check_dirty`'s contract: it reads the
/// flag, clears it, and moves nothing else.
pub open spec fn polled(a: Gui, b: Gui, read: bool) -> bool {
    &&& read == a.dirty
    &&& !b.dirty
    &&& a.same_arenas(b)
    &&& a.same_frame(b)
    &&& b.trace@ == a.trace@
}

/// Dirty-flag coalescing: between two polls, run any nonempty sequence of
/// mutating operations — each one's contract leaves the flag set, which
/// is what the premise records. Then the first poll reads true, exactly
/// once, and the immediately following poll reads false.
pub proof fn lemma_dirty_coalescing(after_mutations: Seq<Gui>, after_first: Gui, after_second: Gui, first: bool, second: bool)
    requires
        after_mutations.len() >= 1,
        forall|i: int| 0 <= i < after_mutations.len() ==> (#[trigger] after_mutations[i]).dirty,
        polled(after_mutations.last(), after_first, first),
        polled(after_first, after_second, second),
    ensures
        first,
        !second,
{
}

// ---------------------------------------------------------------------------
// Cell notification
// ---------------------------------------------------------------------------

/// Cell notification: any write to a cell — even one writing the value
/// already held — delivers exactly one change notification, carrying the
/// written value. (Connecting a handler delivers one notification too,
/// with the value present at connection time: `connect_change`'s contract
/// extends the trace by exactly that event.)
pub proof fn lemma_cell_notification(a: Gui, b: Gui, c: int, v: i32)
    requires
        cell_written(a, b, c, v),
    ensures
        b.trace@.len() == a.trace@.len() + 1,
        b.trace@.last() == (Ev::Changed { cell: c, value: v as int }),
        b.trace@.subrange(0, a.trace@.len() as int) == a.trace@,
{
    assert(b.trace@.subrange(0, a.trace@.len() as int) =~= a.trace@);
}

// ---------------------------------------------------------------------------
// Hit-test order and containment
// ---------------------------------------------------------------------------

/// Whether a point lies inside a rectangle.
pub open spec fn rect_contains(r: crate::widget::Rect, x: int, y: int) -> bool {
    &&& 0 <= x - r.x
    &&& x - r.x < r.width
    &&& 0 <= y - r.y
    &&& y - r.y < r.height
}

/// Hit-test z-order: when a parent contains the point and two of its
/// highlight-eligible children both contain it too, the one added later
/// wins. The winner is the front-most at the point (every sibling added
/// after it misses), and a leaf — a highlightable descendant of the
/// winner would itself win, children being tested before their parent.
pub proof fn lemma_hit_z_order(p: WidgetData, i: int, j: int, x: int, y: int)
    requires
        rect_contains(p.rect, x, y),
        0 <= i < j < p.children@.len(),
        p.children@[i].can_highlight,
        p.children@[j].can_highlight,
        p.children@[j].children@.len() == 0,
        rect_contains(p.children@[i].rect, x - p.rect.x, y - p.rect.y),
        rect_contains(p.children@[j].rect, x - p.rect.x, y - p.rect.y),
        forall|k: int|
            j < k < p.children@.len() ==> hit_spec(
                #[trigger] p.children@[k],
                x - p.rect.x,
                y - p.rect.y,
            ) is None,
    ensures
        hit_spec(p, x, y) == Some(p.children@[j].id),
{
    let lx = x - p.rect.x;
    let ly = y - p.rect.y;
    let b = p.children@[j];
    assert(hit_children(b.children@, 0, lx - b.rect.x, ly - b.rect.y) is None);
    assert(hit_spec(b, lx, ly) == Some(b.id));
    lemma_hit_children_later_miss(p.children@, p.children@.len() as int, j, lx, ly);
}

/// When every child after index `j` misses the point and child `j` hits,
/// the reverse-order search lands on child `j`.
proof fn lemma_hit_children_later_miss(s: Seq<WidgetData>, n: int, j: int, x: int, y: int)
    requires
        0 <= j < n <= s.len(),
        hit_spec(s[j], x, y) is Some,
        forall|k: int| j < k < n ==> hit_spec(#[trigger] s[k], x, y) is None,
    ensures
        hit_children(s, n, x, y) == hit_spec(s[j], x, y),
    decreases n,
{
    if j < n - 1 {
        lemma_hit_children_later_miss(s, n - 1, j, x, y);
    }
}

/// Hit-test containment, inward: a hit implies the point lies in the
/// widget's own rectangle, so a point outside every rectangle yields no
/// widget — and then a pointer motion with nothing highlighted performs
/// no state-machine call at all.
pub proof fn lemma_hit_requires_containment(w: WidgetData, x: int, y: int)
    ensures
        hit_spec(w, x, y) is Some ==> rect_contains(w.rect, x, y),
{
}

/// The no-call half of hit-test containment: a motion whose hit-test
/// misses, arriving with no current highlight, changes nothing and
/// notifies nobody.
pub proof fn lemma_miss_is_no_call(a: Gui, b: Gui, root: WidgetData, x: int, y: int)
    requires
        motion_rel(a, b, root, x, y),
        hit_spec(root, x, y) is None,
        a.state.highlight is None,
    ensures
        b == a,
{
}

// ---------------------------------------------------------------------------
// Highlight eligibility
// ---------------------------------------------------------------------------

/// Some widget with this id in the subtree was built highlight-eligible.
pub open spec fn highlightable_in(w: WidgetData, id: u64) -> bool
    decreases w, 1int,
{
    ||| (w.id == id && w.can_highlight)
    ||| seq_highlightable_in(w.children@, w.children@.len() as int, id)
}

pub open spec fn seq_highlightable_in(s: Seq<WidgetData>, n: int, id: u64) -> bool
    decreases s, n, 2int,
{
    if n <= 0 || n > s.len() {
        false
    } else {
        seq_highlightable_in(s, n - 1, id) || highlightable_in(s[n - 1], id)
    }
}

/// Highlight eligibility: hit-testing only ever returns a widget whose
/// `can_highlight` was fixed true at construction. Since no later visual
/// change alters `can_highlight` (see `set_visual`), a widget built with
/// no background is never returned, whatever is assigned later.
pub proof fn lemma_hit_only_highlightable(w: WidgetData, x: int, y: int, id: u64)
    requires
        hit_spec(w, x, y) == Some(id),
    ensures
        highlightable_in(w, id),
    decreases w, 1int,
{
    let lx = x - w.rect.x;
    let ly = y - w.rect.y;
    if hit_children(w.children@, w.children@.len() as int, lx, ly) is Some {
        lemma_seq_hit_only_highlightable(w.children@, w.children@.len() as int, lx, ly, id);
    }
}

proof fn lemma_seq_hit_only_highlightable(s: Seq<WidgetData>, n: int, x: int, y: int, id: u64)
    requires
        hit_children(s, n, x, y) == Some(id),
    ensures
        seq_highlightable_in(s, n, id),
    decreases s, n, 2int,
{
    if 0 < n <= s.len() {
        if hit_spec(s[n - 1], x, y) == Some(id) {
            lemma_hit_only_highlightable(s[n - 1], x, y, id);
        } else {
            lemma_seq_hit_only_highlightable(s, n - 1, x, y, id);
        }
    }
}

// ---------------------------------------------------------------------------
// Pointer-state transitions and activation counts
// ---------------------------------------------------------------------------

/// How many activations a trace segment records.
pub open spec fn activations_in(evs: Seq<Ev>) -> int
    decreases evs.len(),
{
    if evs.len() == 0 {
        0
    } else {
        activations_in(evs.drop_last()) + if evs.last() is Activated {
            1int
        } else {
            0int
        }
    }
}

/// How many pointer-state deliveries a trace segment records.
pub open spec fn pointer_sets_in(evs: Seq<Ev>) -> int
    decreases evs.len(),
{
    if evs.len() == 0 {
        0
    } else {
        pointer_sets_in(evs.drop_last()) + if evs.last() is PointerSet {
            1int
        } else {
            0int
        }
    }
}

/// Event counts add over concatenation.
pub proof fn lemma_counts_add(a: Seq<Ev>, b: Seq<Ev>)
    ensures
        activations_in(a + b) == activations_in(a) + activations_in(b),
        pointer_sets_in(a + b) == pointer_sets_in(a) + pointer_sets_in(b),
    decreases b.len(),
{
    if b.len() == 0 {
        assert(a + b =~= a);
    } else {
        lemma_counts_add(a, b.drop_last());
        assert((a + b).drop_last() =~= a + b.drop_last());
        assert((a + b).last() == b.last());
    }
}

/// Pointer-state transition counts: one delivery notifies its target
/// exactly once, and it activates exactly once when — and only when — it
/// is a release (`Over`) arriving on a pressed button-like widget.
pub proof fn lemma_transition_counts(g: Gui, root: WidgetData, target: u64, st: PointerState)
    ensures
        locate(root, target) is None ==> transition_events(g, root, target, st) == Seq::<Ev>::empty(),
        locate(root, target) is Some ==> pointer_sets_in(transition_events(g, root, target, st)) == 1,
        ({
            let fired = locate(root, target) matches Some((kind, vs))
                && buttonlike_slot(kind) matches Some(slot) && st is Over
                && g.buttons@[slot as int].was_pressed;
            activations_in(transition_events(g, root, target, st)) == if fired {
                1int
            } else {
                0int
            }
        }),
{
    reveal_with_fuel(activations_in, 3);
    reveal_with_fuel(pointer_sets_in, 3);
    match locate(root, target) {
        None => {},
        Some((kind, vs)) => {
            let ps = seq![Ev::PointerSet { widget: target as int, state: st }];
            assert(activations_in(ps) == 0);
            assert(pointer_sets_in(ps) == 1);
            match buttonlike_slot(kind) {
                None => {
                    assert(transition_events(g, root, target, st) =~= ps + Seq::<Ev>::empty());
                    lemma_counts_add(ps, Seq::empty());
                },
                Some(slot) => {
                    let fired = st is Over && g.buttons@[slot as int].was_pressed;
                    if fired {
                        let bs = g.buttons@[slot as int];
                        let te = toggle_events(g.cells@, g.bools@, bs.toggle);
                        let he = handler_events(
                            crate::gui::cells_after_toggle(g.cells@, bs.toggle),
                            bs.on_activate,
                        );
                        assert(activations_in(te) == 0 && pointer_sets_in(te) == 0) by {
                            reveal_with_fuel(activations_in, 3);
                            reveal_with_fuel(pointer_sets_in, 3);
                        }
                        assert(activations_in(he) == 0 && pointer_sets_in(he) == 0) by {
                            reveal_with_fuel(activations_in, 3);
                            reveal_with_fuel(pointer_sets_in, 3);
                        }
                        let act = seq![Ev::Activated { widget: target as int }];
                        lemma_counts_add(te, act);
                        lemma_counts_add(te + act, he);
                        lemma_counts_add(ps, te + act + he);
                        assert(transition_events(g, root, target, st) =~= ps + (te + act + he));
                        assert(activation_events(
                            g.cells@,
                            g.bools@,
                            target,
                            bs.toggle,
                            bs.on_activate,
                        ) =~= te + act + he);
                    } else {
                        assert(transition_events(g, root, target, st) =~= ps + Seq::<Ev>::empty());
                        lemma_counts_add(ps, Seq::empty());
                    }
                },
            }
        },
    }
}

/// Pointer-state transitions at the machine level: arriving with no
/// highlight and the button up, a motion over widget `t` delivers exactly
/// one `Over` to `t`, stores it as the highlight, and activates nothing
/// unless `t` was left pressed.
pub proof fn lemma_motion_onto_widget(a: Gui, b: Gui, root: WidgetData, x: int, y: int, t: u64)
    requires
        motion_rel(a, b, root, x, y),
        a.signals.pointer_motion,
        a.state.highlight is None,
        !a.state.pointer_press,
        hit_spec(root, x, y) == Some(t),
    ensures
        b.trace@ == a.trace@ + transition_events(a, root, t, PointerState::Over),
        b.state.highlight == Some(t),
        !b.state.pointer_press,
{
    let (m1, m2) = choose|m1: Gui, m2: Gui| #[trigger] motion_steps(a, b, m1, m2, root, x, y);
    assert(motion_steps(a, b, m1, m2, root, x, y));
    assert(m1 == a);
    assert(transition_rel(m1, m2, root, t, PointerState::Over));
}

/// The highlight invariant: a pointer motion either keeps the stored
/// highlight or replaces it by the hit-test result — and a hit-test
/// result always names a highlight-eligible widget (see
/// `lemma_hit_only_highlightable`), so the machine never highlights a
/// widget that was built without a background.
pub proof fn lemma_highlight_only_eligible(a: Gui, b: Gui, root: WidgetData, x: int, y: int)
    requires
        motion_rel(a, b, root, x, y),
    ensures
        b.state.highlight == a.state.highlight || b.state.highlight == hit_spec(root, x, y),
        ({
            let hit = hit_spec(root, x, y);
            (b.state.highlight == hit && hit is Some) ==> highlightable_in(root, hit.unwrap())
        }),
{
    let hit = hit_spec(root, x, y);
    if a.signals.pointer_motion && hit != a.state.highlight {
        let (m1, m2) = choose|m1: Gui, m2: Gui| #[trigger] motion_steps(a, b, m1, m2, root, x, y);
        assert(motion_steps(a, b, m1, m2, root, x, y));
        assert(b.state.highlight == hit);
    }
    if b.state.highlight == hit && hit is Some {
        lemma_hit_only_highlightable(root, x, y, hit.unwrap());
    }
}

/// Pointer-state transitions at the machine level, release half: a
/// primary-button release arriving with widget `t` highlighted delivers
/// exactly one `Over` to `t` — and so, by `lemma_transition_counts`,
/// activates `t` exactly once when it was pressed and never otherwise —
/// and stores the released flag.
pub proof fn lemma_release_delivers_over(a: Gui, b: Gui, root: WidgetData, t: u64)
    requires
        button_rel(a, b, root, crate::signal::PointerButton { button: 1u8, state: false }),
        a.signals.pointer_button,
        a.state.highlight == Some(t),
    ensures
        b.trace@ == a.trace@ + transition_events(a, root, t, PointerState::Over),
        b.state.highlight == Some(t),
        !b.state.pointer_press,
{
    let pb = crate::signal::PointerButton { button: 1u8, state: false };
    let m1 = choose|m1: Gui| #[trigger] button_step(a, b, m1, root, pb);
    assert(button_step(a, b, m1, root, pb));
    assert(transition_rel(a, m1, root, t, PointerState::Over));
}

} // verus!
