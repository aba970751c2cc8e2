//! Tests of the palette, text sections, decimal rendering, the layout
//! pass, and the paint-command traversal.

use silica::Gui;
use silica::LayoutStyle;
use silica::ThemeColor;
use silica::VisualStyle;
use silica::graphics::PaintOp;
use silica::graphics::TextSection;
use silica::model::BoolModel;
use silica::signal::BoolSource;
use silica::widget::button::Button;
use silica::widget::button::Checkbox;
use silica::numfmt::format_i32;

#[test]
fn palette_values() {
    assert_eq!(ThemeColor::Background.to_rgba(), [216, 216, 216, 255]);
    assert_eq!(ThemeColor::ButtonNormal.to_rgba(), [200, 200, 200, 255]);
    assert_eq!(ThemeColor::ButtonDisable.to_rgba(), [200, 200, 200, 255]);
    assert_eq!(ThemeColor::ButtonOver.to_rgba(), [184, 184, 184, 255]);
    assert_eq!(ThemeColor::ButtonPress.to_rgba(), [168, 168, 168, 255]);
    assert_eq!(ThemeColor::Border.to_rgba(), [24, 24, 24, 255]);
    assert_eq!(ThemeColor::Foreground.to_rgba(), [24, 24, 24, 255]);
}

#[test]
fn text_section_default() {
    let t = TextSection::default();
    assert_eq!(t.font, "sans 14");
    assert_eq!(t.text, "");
}

#[test]
fn decimal_rendering() {
    assert_eq!(format_i32(0), "0");
    assert_eq!(format_i32(7), "7");
    assert_eq!(format_i32(10), "10");
    assert_eq!(format_i32(409), "409");
    assert_eq!(format_i32(-1), "-1");
    assert_eq!(format_i32(-120034), "-120034");
    assert_eq!(format_i32(i32::MAX), "2147483647");
    assert_eq!(format_i32(i32::MIN), "-2147483648");
}

#[test]
fn layout_computes_rectangles() {
    let (mut gui, mut root) = Gui::new();
    root.set_layout(
        &mut gui,
        LayoutStyle { min_width: 640, min_height: 480, flex_grow: 0, border: 0 },
    );
    let (_button, bw) = Button::with_label(&mut gui, String::from("Click Me!"));
    root.add_child(&mut gui, bw);
    gui.emit_layout(&mut root, Some((640, 480)));
    assert_eq!(root.size(), (640, 480));
    // the button keeps its minimum width and stretches to the row height
    assert_eq!(root.children[0].rect.width, 128);
    assert_eq!(root.children[0].rect.height, 480);
    // the caption label fills the button
    assert_eq!(root.children[0].children[0].rect.width, 128);
}

#[test]
fn bare_container_paints_nothing() {
    let (mut gui, mut root) = Gui::new();
    gui.emit_layout(&mut root, Some((50, 50)));
    let ops = gui.draw(&root);
    assert_eq!(ops.len(), 3);
    assert!(matches!(ops[0], PaintOp::Save));
    assert!(matches!(ops[1], PaintOp::Translate { .. }));
    assert!(matches!(ops[2], PaintOp::Restore));
}

#[test]
fn draw_clears_dirty() {
    let (mut gui, mut root) = Gui::new();
    root.set_visual(&mut gui, Some(VisualStyle::button()));
    assert!(gui.dirty);
    let _ = gui.draw(&root);
    assert!(!gui.check_dirty());
}

#[test]
fn button_paint_layers() {
    let (mut gui, mut root) = Gui::new();
    let (_button, bw) = Button::with_label(&mut gui, String::from("hi"));
    root.add_child(&mut gui, bw);
    gui.emit_layout(&mut root, Some((300, 300)));
    let ops = gui.draw(&root);
    // background fill in the button's normal color
    assert!(ops.iter().any(|op| matches!(
        op,
        PaintOp::SetColor { color: ThemeColor::ButtonNormal }
    )));
    assert!(ops.iter().any(|op| matches!(op, PaintOp::FillRect { .. })));
    // the visual border uses the engine's stored width for the node (zero
    // here), while the button's own foreground strokes a one-unit border
    assert!(ops.iter().any(|op| matches!(op, PaintOp::StrokeBorder { border: 0, .. })));
    assert!(ops.iter().any(|op| matches!(op, PaintOp::StrokeBorder { border: 1, .. })));
    // the caption reaches the text primitive
    assert!(ops.iter().any(|op| match op {
        PaintOp::Text { section, .. } => section.text == "hi",
        _ => false,
    }));
}

#[test]
fn engine_border_width_roundtrip() {
    let (mut gui, mut root) = Gui::new();
    root.set_layout(
        &mut gui,
        LayoutStyle { min_width: 60, min_height: 60, flex_grow: 0, border: 2 },
    );
    root.set_visual(
        &mut gui,
        Some(VisualStyle { background: None, border: Some(ThemeColor::Border), foreground: None }),
    );
    gui.emit_layout(&mut root, Some((60, 60)));
    let ops = gui.draw(&root);
    // the border width painted is the one the engine stores for the node
    assert!(ops.iter().any(|op| matches!(op, PaintOp::StrokeBorder { border: 2, .. })));
}

#[test]
fn checkbox_knob_positions() {
    let (mut gui, mut root) = Gui::new();
    let on = BoolModel::new(&mut gui, true);
    let (_cb, cbw) = Checkbox::new(&mut gui, BoolSource::Cell { bool_cell: on.idx });
    root.add_child(&mut gui, cbw);
    gui.emit_layout(&mut root, None);
    let ops = gui.draw(&root);
    // a checked plain checkbox fills the centered quarter knob
    assert!(ops.iter().any(|op| matches!(
        op,
        PaintOp::FillRectAt { x: 6, y: 6, width: 12, height: 12 }
    )));

    let (mut gui2, mut root2) = Gui::new();
    let off = BoolModel::new(&mut gui2, false);
    let (_r, rw) = Checkbox::new_rocker(&mut gui2, BoolSource::Cell { bool_cell: off.idx });
    root2.add_child(&mut gui2, rw);
    gui2.emit_layout(&mut root2, None);
    let ops2 = gui2.draw(&root2);
    // an unchecked rocker (48 by 24) parks its knob left of center
    assert!(ops2.iter().any(|op| matches!(
        op,
        PaintOp::FillRectAt { x: 6, y: 6, width: 12, height: 12 }
    )));
}

#[test]
fn rocker_checked_knob_position() {
    let (mut gui, mut root) = Gui::new();
    let on = BoolModel::new(&mut gui, true);
    let (_r, rw) = Checkbox::new_rocker(&mut gui, BoolSource::Cell { bool_cell: on.idx });
    root.add_child(&mut gui, rw);
    gui.emit_layout(&mut root, None);
    let ops = gui.draw(&root);
    // a checked rocker (48 by 24) parks its knob right of center:
    // 48 * 3 / 4 - 24 / 4 = 30
    assert!(ops.iter().any(|op| matches!(
        op,
        PaintOp::FillRectAt { x: 30, y: 6, width: 12, height: 12 }
    )));
}

#[test]
fn toggle_button_border_width() {
    let (mut gui, mut root) = Gui::new();
    let flag = BoolModel::new(&mut gui, true);
    let (_button, bw) = Button::with_label_toggle(
        &mut gui,
        String::from("t"),
        BoolSource::Cell { bool_cell: flag.idx },
    );
    root.add_child(&mut gui, bw);
    gui.emit_layout(&mut root, None);
    let ops = gui.draw(&root);
    // with the toggled model set, the button strokes a thick border
    assert!(ops.iter().any(|op| matches!(op, PaintOp::StrokeBorder { border: 3, .. })));
}
