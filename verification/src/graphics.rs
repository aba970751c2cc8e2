//! The flat theme palette, per-widget visual styles, and text sections.

use vstd::prelude::*;

verus! {

/// The closed theme palette. Every paintable layer of a widget names one of
/// these; each maps to a fixed RGBA constant and nothing is customizable at
/// run time.
#[derive(Clone, Copy, PartialEq, Eq, Structural, Debug)]
pub enum ThemeColor {
    Background,
    ButtonNormal,
    ButtonOver,
    ButtonPress,
    ButtonDisable,
    Border,
    Foreground,
}

impl ThemeColor {
    /// The fixed palette entry for this color, as 8-bit RGBA channels.
    pub fn to_rgba(self) -> (rgba: [u8; 4])
        ensures
            rgba@ == self.rgba_spec(),
    {
        match self {
            ThemeColor::Background => [216, 216, 216, 255],
            ThemeColor::ButtonNormal | ThemeColor::ButtonDisable => [200, 200, 200, 255],
            ThemeColor::ButtonOver => [184, 184, 184, 255],
            ThemeColor::ButtonPress => [168, 168, 168, 255],
            ThemeColor::Border => [24, 24, 24, 255],
            ThemeColor::Foreground => [24, 24, 24, 255],
        }
    }

    /// The palette table, stated value by value.
    pub open spec fn rgba_spec(self) -> Seq<u8> {
        match self {
            ThemeColor::Background => seq![216u8, 216u8, 216u8, 255u8],
            ThemeColor::ButtonNormal => seq![200u8, 200u8, 200u8, 255u8],
            ThemeColor::ButtonDisable => seq![200u8, 200u8, 200u8, 255u8],
            ThemeColor::ButtonOver => seq![184u8, 184u8, 184u8, 255u8],
            ThemeColor::ButtonPress => seq![168u8, 168u8, 168u8, 255u8],
            ThemeColor::Border => seq![24u8, 24u8, 24u8, 255u8],
            ThemeColor::Foreground => seq![24u8, 24u8, 24u8, 255u8],
        }
    }
}

/// Which layers a widget paints: a `None` layer is simply not painted. A
/// widget whose whole visual is absent is laid out but never painted, and is
/// never eligible for pointer highlighting.
#[derive(Clone, Copy, PartialEq, Eq, Structural, Debug)]
pub struct VisualStyle {
    pub background: Option<ThemeColor>,
    pub border: Option<ThemeColor>,
    pub foreground: Option<ThemeColor>,
}

impl VisualStyle {
    /// The visual of a freshly created drawable widget: no background, a
    /// border and a foreground in the theme's line color.
    pub open spec fn default_spec() -> VisualStyle {
        VisualStyle {
            background: None,
            border: Some(ThemeColor::Border),
            foreground: Some(ThemeColor::Foreground),
        }
    }

    /// The visual of a button-like widget in its normal state.
    pub open spec fn button_spec() -> VisualStyle {
        VisualStyle {
            background: Some(ThemeColor::ButtonNormal),
            border: Some(ThemeColor::Border),
            foreground: Some(ThemeColor::Foreground),
        }
    }

    /// The button visual, with the background chosen for a pointer state.
    pub fn button() -> (v: VisualStyle)
        ensures
            v == Self::button_spec(),
    {
        VisualStyle {
            background: Some(ThemeColor::ButtonNormal),
            border: Some(ThemeColor::Border),
            foreground: Some(ThemeColor::Foreground),
        }
    }
}

impl Default for VisualStyle {
    fn default() -> (v: VisualStyle)
        ensures
            v == Self::default_spec(),
    {
        VisualStyle {
            background: None,
            border: Some(ThemeColor::Border),
            foreground: Some(ThemeColor::Foreground),
        }
    }
}

/// Horizontal placement of a text block inside its widget.
#[derive(Clone, Copy, PartialEq, Eq, Structural, Debug)]
pub enum HorizontalAlign {
    Left,
    Center,
    Right,
}

/// Vertical placement of a text block inside its widget.
#[derive(Clone, Copy, PartialEq, Eq, Structural, Debug)]
pub enum VerticalAlign {
    Top,
    Center,
    Bottom,
}

/// A block of text with its font descriptor and alignment, as handed to the
/// backend's text primitive.
#[derive(Debug)]
pub struct TextSection {
    pub font: String,
    pub text: String,
    pub h_align: HorizontalAlign,
    pub v_align: VerticalAlign,
}

impl TextSection {
    /// Whether this section carries the default font and alignment.
    pub open spec fn is_default_shape(self) -> bool {
        &&& self.font@ == "sans 14"@
        &&& self.text@ == Seq::<char>::empty()
        &&& self.h_align == HorizontalAlign::Left
        &&& self.v_align == VerticalAlign::Center
    }
}

impl Clone for TextSection {
    fn clone(&self) -> (r: Self)
        ensures
            r == *self,
    {
        TextSection {
            font: self.font.clone(),
            text: self.text.clone(),
            h_align: self.h_align,
            v_align: self.v_align,
        }
    }
}

impl Default for TextSection {
    fn default() -> (t: TextSection)
        ensures
            t.is_default_shape(),
    {
        TextSection {
            font: String::from_str("sans 14"),
            text: String::new(),
            h_align: HorizontalAlign::Left,
            v_align: VerticalAlign::Center,
        }
    }
}

/// One paint command, in the order the tree traversal emits them. The
/// backend interprets the list against its drawing context: `Save`,
/// `Restore` and `Translate` manage the transform stack; the rest paint in
/// the current local coordinate space, with the most recent `SetColor` in
/// effect.
#[derive(Clone, Debug)]
pub enum PaintOp {
    Save,
    Restore,
    Translate { dx: i32, dy: i32 },
    SetColor { color: ThemeColor },
    /// Fill a rectangle from the local origin.
    FillRect { width: u32, height: u32 },
    /// Fill a rectangle at an offset in local coordinates.
    FillRectAt { x: i64, y: i64, width: i64, height: i64 },
    /// Stroke the box's border with a uniform width (zero strokes nothing).
    StrokeBorder { width: u32, height: u32, border: u16 },
    /// Paint a text block within the box.
    Text { width: u32, height: u32, section: TextSection },
}

/// The drawing-context interface the runtime exposes: the platform
/// collaborator implements these primitives (a transform stack, a current
/// color, and box/text painting in local whole units), and a paint list
/// produced by the runtime's draw pass is replayed onto it in order.
pub trait GraphicsContext {
    fn save(&mut self);

    fn restore(&mut self);

    fn translate(&mut self, dx: i32, dy: i32);

    fn set_color(&mut self, color: ThemeColor);

    fn draw_rect(&mut self, width: u32, height: u32);

    fn draw_rect_at(&mut self, x: i64, y: i64, width: i64, height: i64);

    fn draw_border(&mut self, width: u32, height: u32, border: u16);

    fn draw_text(&mut self, width: u32, height: u32, section: &TextSection);
}

/// Replays a paint list onto a drawing context, one primitive per
/// command, in order.
pub fn replay<G: GraphicsContext>(ops: &Vec<PaintOp>, context: &mut G) {
    let mut i: usize = 0;
    while i < ops.len()
        decreases ops@.len() - i,
    {
        match &ops[i] {
            PaintOp::Save => context.save(),
            PaintOp::Restore => context.restore(),
            PaintOp::Translate { dx, dy } => context.translate(*dx, *dy),
            PaintOp::SetColor { color } => context.set_color(*color),
            PaintOp::FillRect { width, height } => context.draw_rect(*width, *height),
            PaintOp::FillRectAt { x, y, width, height } => context.draw_rect_at(
                *x,
                *y,
                *width,
                *height,
            ),
            PaintOp::StrokeBorder { width, height, border } => context.draw_border(
                *width,
                *height,
                *border,
            ),
            PaintOp::Text { width, height, section } => context.draw_text(*width, *height, section),
        }
        i = i + 1;
    }
}

} // verus!
