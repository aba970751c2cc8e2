//! The trusted boundary to the flex layout engine (the `taffy` crate).
//!
//! The runtime keeps one engine instance as a node registry: every widget
//! owns exactly one engine node, created at construction and removed at
//! destruction, and the node stores the widget's box style. Registry nodes
//! never carry parent/child edges, so every registry operation below touches
//! exactly one node. For a layout pass a second, short-lived instance is
//! built bottom-up with explicit child lists and computed once; its
//! rectangles are read back as integers (the engine rounds computed layouts
//! to whole units by default).
//!
//! Everything the contracts say about an engine instance is said over
//! `engine_model`, a map from node handle to the record the engine stores
//! for it. Each wrapper's contract states what `taffy`'s source shows for
//! that call.

use vstd::prelude::*;

verus! {

#[verifier::external_type_specification]
#[verifier::external_body]
pub struct ExTaffy(taffy::Taffy);

#[verifier::external_type_specification]
#[verifier::external_body]
pub struct ExNode(taffy::node::Node);

/// The box-style fields the runtime uses, as the contracts see them: a
/// minimum size, a flex-grow weight and a uniform border width, all in whole
/// units. Every other style field keeps the engine's default.
pub struct StyleRec {
    pub min_width: int,
    pub min_height: int,
    pub flex_grow: int,
    pub border: int,
}

/// A computed rectangle in whole units, relative to the node's parent.
pub struct RectRec {
    pub x: int,
    pub y: int,
    pub width: int,
    pub height: int,
}

impl RectRec {
    pub open spec fn zero() -> RectRec {
        RectRec { x: 0, y: 0, width: 0, height: 0 }
    }
}

/// What the engine stores for one node: its style, its edges, and the
/// rectangle of the last layout pass (zero until then).
pub struct NodeRec {
    pub style: StyleRec,
    pub parent: Option<taffy::node::Node>,
    pub kids: Seq<taffy::node::Node>,
    pub rect: RectRec,
}

/// The contents of an engine instance, node by node.
pub uninterp spec fn engine_model(t: taffy::Taffy) -> Map<taffy::node::Node, NodeRec>;

/// The rectangles a layout computation stores, node by node: a name for
/// what `taffy::Taffy::compute_layout` computes. The engine's layout is a
/// function of its stored styles and edges (the model), the root it is
/// asked to lay out, and the available space — the instances here carry no
/// measure functions and the default whole-unit rounding — so the outcome
/// deserves a name even though stating it would take pages of flexbox
/// arithmetic. A node outside the tree under `root` keeps its stored
/// rectangle, so for such a node this reads as the model's own entry.
pub uninterp spec fn layout_rects(m: Map<taffy::node::Node, NodeRec>, root: taffy::node::Node, available: Option<(u16, u16)>) -> Map<taffy::node::Node, RectRec>;

/// The style record for the given whole-unit fields.
pub open spec fn style_rec(min_width: u16, min_height: u16, flex_grow: u16, border: u16) -> StyleRec {
    StyleRec {
        min_width: min_width as int,
        min_height: min_height as int,
        flex_grow: flex_grow as int,
        border: border as int,
    }
}

/// A rank witness that every child edge in `m` strictly descends: it bounds
/// the depth of the engine's child lists, so a downward traversal of `m`
/// terminates.
pub open spec fn child_ranked(m: Map<taffy::node::Node, NodeRec>, rk: Map<taffy::node::Node, nat>) -> bool {
    forall|n: taffy::node::Node, i: int|
        m.contains_key(n) && 0 <= i < m[n].kids.len() ==> {
            &&& m.contains_key(#[trigger] m[n].kids[i])
            &&& rk[m[n].kids[i]] < rk[n]
        }
}

/// Relies on `taffy::Taffy::new`: a fresh engine instance holds no nodes.
#[verifier::external_body]
pub fn engine_new() -> (t: taffy::Taffy)
    ensures
        engine_model(t) =~= Map::empty(),
{
    taffy::Taffy::new()
}

/// Relies on `taffy::Taffy::new_leaf`: it stores the given style under a
/// handle distinct from every live one, with no edges and a zero layout, and
/// touches no other node.
#[verifier::external_body]
pub fn engine_new_leaf(t: &mut taffy::Taffy, min_width: u16, min_height: u16, flex_grow: u16, border: u16) -> (n: taffy::node::Node)
    ensures
        !engine_model(*old(t)).contains_key(n),
        engine_model(*final(t)) == engine_model(*old(t)).insert(
            n,
            NodeRec {
                style: style_rec(min_width, min_height, flex_grow, border),
                parent: None,
                kids: Seq::empty(),
                rect: RectRec::zero(),
            },
        ),
{
    let b = taffy::style::LengthPercentage::Points(border.into());
    let style = taffy::style::Style {
        min_size: taffy::geometry::Size {
            width: taffy::style::Dimension::Points(min_width.into()),
            height: taffy::style::Dimension::Points(min_height.into()),
        },
        flex_grow: flex_grow.into(),
        border: taffy::geometry::Rect { left: b, right: b, top: b, bottom: b },
        ..taffy::style::Style::DEFAULT
    };
    t.new_leaf(style).unwrap()
}

/// Relies on `taffy::Taffy::set_style`: it replaces the node's style and
/// leaves its edges and stored layout alone. The node must be live and
/// parentless: the call walks up the parent chain to invalidate caches.
#[verifier::external_body]
pub fn engine_set_style(t: &mut taffy::Taffy, n: taffy::node::Node, min_width: u16, min_height: u16, flex_grow: u16, border: u16)
    requires
        engine_model(*old(t)).contains_key(n),
        engine_model(*old(t))[n].parent is None,
    ensures
        engine_model(*final(t)) == engine_model(*old(t)).insert(
            n,
            NodeRec {
                style: style_rec(min_width, min_height, flex_grow, border),
                ..engine_model(*old(t))[n]
            },
        ),
{
    let b = taffy::style::LengthPercentage::Points(border.into());
    let style = taffy::style::Style {
        min_size: taffy::geometry::Size {
            width: taffy::style::Dimension::Points(min_width.into()),
            height: taffy::style::Dimension::Points(min_height.into()),
        },
        flex_grow: flex_grow.into(),
        border: taffy::geometry::Rect { left: b, right: b, top: b, bottom: b },
        ..taffy::style::Style::DEFAULT
    };
    let _ = t.set_style(n, style);
}

/// Relies on `taffy::Taffy::remove`: it drops exactly the given node. The
/// node must be live, parentless and childless (a registry node always is),
/// so the call's edge repair has nothing to do.
#[verifier::external_body]
pub fn engine_remove(t: &mut taffy::Taffy, n: taffy::node::Node)
    requires
        engine_model(*old(t)).contains_key(n),
        engine_model(*old(t))[n].parent is None,
        engine_model(*old(t))[n].kids.len() == 0,
    ensures
        engine_model(*final(t)) == engine_model(*old(t)).remove(n),
{
    let _ = t.remove(n);
}

/// Relies on `taffy::Taffy::new_with_children`: it stores the style under a
/// fresh handle whose child list is exactly `kids`, sets each child's parent
/// to the new node, and leaves every other node alone.
#[verifier::external_body]
pub fn engine_new_with_children(t: &mut taffy::Taffy, min_width: u16, min_height: u16, flex_grow: u16, border: u16, kids: &Vec<taffy::node::Node>) -> (n: taffy::node::Node)
    requires
        forall|i: int| 0 <= i < kids@.len() ==> engine_model(*old(t)).contains_key(#[trigger] kids@[i]),
    ensures
        !engine_model(*old(t)).contains_key(n),
        engine_model(*final(t)).dom() == engine_model(*old(t)).dom().insert(n),
        engine_model(*final(t))[n] == (NodeRec {
            style: style_rec(min_width, min_height, flex_grow, border),
            parent: None,
            kids: kids@,
            rect: RectRec::zero(),
        }),
        forall|k: taffy::node::Node|
            engine_model(*old(t)).contains_key(k) ==> #[trigger] engine_model(*final(t))[k] == if kids@.contains(k) {
                NodeRec { parent: Some(n), ..engine_model(*old(t))[k] }
            } else {
                engine_model(*old(t))[k]
            },
{
    let b = taffy::style::LengthPercentage::Points(border.into());
    let style = taffy::style::Style {
        min_size: taffy::geometry::Size {
            width: taffy::style::Dimension::Points(min_width.into()),
            height: taffy::style::Dimension::Points(min_height.into()),
        },
        flex_grow: flex_grow.into(),
        border: taffy::geometry::Rect { left: b, right: b, top: b, bottom: b },
        ..taffy::style::Style::DEFAULT
    };
    t.new_with_children(style, kids).unwrap()
}

/// Relies on `taffy::Taffy::compute_layout`: it recomputes stored layouts
/// and changes no style or edge, and what it computes is a function of the
/// stored styles and edges, the root and the available space alone — the
/// named [`layout_rects`]. The caller supplies a rank witness that the
/// child edges strictly descend, so the engine's downward traversal from
/// the root terminates.
#[verifier::external_body]
pub fn engine_compute(t: &mut taffy::Taffy, root: taffy::node::Node, available: Option<(u16, u16)>)
    requires
        engine_model(*old(t)).contains_key(root),
        exists|rk: Map<taffy::node::Node, nat>| child_ranked(engine_model(*old(t)), rk),
    ensures
        engine_model(*final(t)).dom() == engine_model(*old(t)).dom(),
        forall|k: taffy::node::Node|
            engine_model(*old(t)).contains_key(k) ==> {
                &&& (#[trigger] engine_model(*final(t))[k]).style == engine_model(*old(t))[k].style
                &&& engine_model(*final(t))[k].parent == engine_model(*old(t))[k].parent
                &&& engine_model(*final(t))[k].kids == engine_model(*old(t))[k].kids
                &&& engine_model(*final(t))[k].rect == layout_rects(
                    engine_model(*old(t)),
                    root,
                    available,
                )[k]
            },
{
    let space = match available {
        Some((w, h)) => taffy::geometry::Size {
            width: taffy::style::AvailableSpace::Definite(w.into()),
            height: taffy::style::AvailableSpace::Definite(h.into()),
        },
        None => taffy::geometry::Size {
            width: taffy::style::AvailableSpace::MaxContent,
            height: taffy::style::AvailableSpace::MaxContent,
        },
    };
    let _ = t.compute_layout(root, space);
}

/// Relies on `taffy::Taffy::layout`: it returns the node's stored rectangle
/// from the last layout pass, which the engine rounds to whole units; a
/// negative stored extent reads back as zero.
#[verifier::external_body]
pub fn engine_rect(t: &taffy::Taffy, n: taffy::node::Node) -> (r: (i32, i32, u32, u32))
    requires
        engine_model(*t).contains_key(n),
    ensures
        r.0 as int == engine_model(*t)[n].rect.x,
        r.1 as int == engine_model(*t)[n].rect.y,
        r.2 as int == engine_model(*t)[n].rect.width,
        r.3 as int == engine_model(*t)[n].rect.height,
{
    let l = t.layout(n).unwrap();
    (l.location.x as i32, l.location.y as i32, l.size.width as u32, l.size.height as u32)
}

/// Relies on `taffy::Taffy::style`: it returns the style the node was given;
/// the uniform border width set by the wrappers above is read back from its
/// left edge.
#[verifier::external_body]
pub fn engine_border(t: &taffy::Taffy, n: taffy::node::Node) -> (b: u16)
    requires
        engine_model(*t).contains_key(n),
    ensures
        b as int == engine_model(*t)[n].style.border,
{
    match t.style(n).unwrap().border.left {
        taffy::style::LengthPercentage::Points(p) => p as u16,
        taffy::style::LengthPercentage::Percent(_) => 0,
    }
}

} // verus!
