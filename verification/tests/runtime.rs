//! End-to-end tests of the widget runtime: reactive cells, the pointer
//! state machine, dirty-flag coalescing, and the click scenario.

use silica::Gui;
use silica::LayoutStyle;
use silica::VisualStyle;
use silica::ThemeColor;
use silica::model::BoolModel;
use silica::model::CellModel;
use silica::model::Model;
use silica::model::SelectValue;
use silica::signal::ActivateHandler;
use silica::signal::BoolSource;
use silica::signal::ChangeHandler;
use silica::signal::PointerButton;
use silica::widget::button::Button;
use silica::widget::button::Checkbox;
use silica::widget::label::Label;

#[test]
fn click_scenario() {
    let (mut gui, mut root) = Gui::new();
    root.set_layout(
        &mut gui,
        LayoutStyle { min_width: 640, min_height: 480, flex_grow: 0, border: 0 },
    );
    let (button, button_widget) = Button::with_label(&mut gui, String::from("Click Me!"));
    let button_id = button_widget.id;
    let cell = CellModel::new(&mut gui, 0);
    button.connect_activate(&mut gui, ActivateHandler::Increment { cell: cell.idx });
    let (shown, shown_widget) = Label::new(&mut gui);
    cell.connect_change(
        &mut gui,
        ChangeHandler { label: shown.slot, prefix: String::from("Times Clicked: ") },
    );
    // the handler was invoked immediately with the connection-time value
    assert_eq!(shown.text(&gui), "Times Clicked: 0");
    root.add_child(&mut gui, button_widget);
    root.add_child(&mut gui, shown_widget);
    gui.emit_layout(&mut root, Some((640, 480)));

    // aim at the center of the button's computed rectangle
    let b = &root.children[0];
    let cx = root.rect.x + b.rect.x + (b.rect.width as i32) / 2;
    let cy = root.rect.y + b.rect.y + (b.rect.height as i32) / 2;
    gui.emit_pointer_motion(&root, cx, cy);
    assert_eq!(gui.state.highlight, Some(button_id));

    // press, stay, release: exactly one activation
    gui.emit_pointer_button(&root, PointerButton { button: 1, state: true });
    assert!(gui.check_dirty()); // the press repainted the button
    gui.emit_pointer_motion(&root, cx, cy); // motion within the button changes nothing
    gui.emit_pointer_button(&root, PointerButton { button: 1, state: false });
    assert_eq!(cell.get(&gui), 1);
    assert_eq!(shown.text(&gui), "Times Clicked: 1");
    assert!(gui.check_dirty()); // and the release repainted it again
    assert!(!gui.check_dirty());
}

#[test]
fn dirty_flag_coalesces() {
    let (mut gui, mut root) = Gui::new();
    assert!(!gui.check_dirty());
    // several mutating operations between two polls
    root.set_layout(
        &mut gui,
        LayoutStyle { min_width: 100, min_height: 100, flex_grow: 0, border: 0 },
    );
    root.set_visual(&mut gui, Some(VisualStyle::button()));
    let (_, label_widget) = Label::new(&mut gui);
    root.add_child(&mut gui, label_widget);
    // the flag reads true exactly once, then false
    assert!(gui.check_dirty());
    assert!(!gui.check_dirty());
}

#[test]
fn cell_notifies_on_equal_write() {
    let (mut gui, _root) = Gui::new();
    let cell = CellModel::new(&mut gui, 5);
    let (shown, _w) = Label::new(&mut gui);
    cell.connect_change(
        &mut gui,
        ChangeHandler { label: shown.slot, prefix: String::from("n=") },
    );
    assert_eq!(shown.text(&gui), "n=5");
    // overwrite the label, then write the same value again: the change
    // signal is re-delivered with no deduplication
    shown.set_text(&mut gui, String::from("overwritten"));
    assert_eq!(shown.text(&gui), "overwritten");
    cell.set(&mut gui, 5);
    assert_eq!(shown.text(&gui), "n=5");
}

#[test]
fn connect_change_single_slot() {
    let (mut gui, _root) = Gui::new();
    let cell = CellModel::new(&mut gui, 1);
    let (first, _w1) = Label::new(&mut gui);
    let (second, _w2) = Label::new(&mut gui);
    cell.connect_change(&mut gui, ChangeHandler { label: first.slot, prefix: String::from("a") });
    cell.connect_change(&mut gui, ChangeHandler { label: second.slot, prefix: String::from("b") });
    first.set_text(&mut gui, String::from("stale"));
    cell.set(&mut gui, 2);
    // only the later handler reacts: one slot per signal kind
    assert_eq!(first.text(&gui), "stale");
    assert_eq!(second.text(&gui), "b2");
}

#[test]
fn increment_decrement_wrap() {
    let (mut gui, _root) = Gui::new();
    let cell = CellModel::new(&mut gui, i32::MAX);
    cell.increment(&mut gui);
    assert_eq!(cell.get(&gui), i32::MIN);
    cell.decrement(&mut gui);
    assert_eq!(cell.get(&gui), i32::MAX);
    cell.decrement(&mut gui);
    assert_eq!(cell.get(&gui), i32::MAX - 1);
}

#[test]
fn select_value_lens() {
    let (mut gui, _root) = Gui::new();
    let cell = CellModel::new(&mut gui, 1);
    let lens = SelectValue::new(cell, 2);
    assert!(!lens.get(&gui));
    lens.set(&mut gui, false); // writing false does nothing
    assert_eq!(cell.get(&gui), 1);
    lens.set(&mut gui, true); // writing true stores the selected value
    assert_eq!(cell.get(&gui), 2);
    assert!(lens.get(&gui));
}

#[test]
fn hit_test_z_order() {
    let (mut gui, mut root) = Gui::new();
    let m1 = BoolModel::new(&mut gui, false);
    let m2 = BoolModel::new(&mut gui, false);
    let (_a, first) = Checkbox::new(&mut gui, BoolSource::Cell { bool_cell: m1.idx });
    let (_b, second) = Checkbox::new(&mut gui, BoolSource::Cell { bool_cell: m2.idx });
    let second_id = second.id;
    root.add_child(&mut gui, first);
    root.add_child(&mut gui, second);
    // overlap the two siblings fully at the same spot
    root.rect = silica::widget::Rect { x: 0, y: 0, width: 100, height: 100 };
    root.children[0].rect = silica::widget::Rect { x: 10, y: 10, width: 50, height: 50 };
    root.children[1].rect = silica::widget::Rect { x: 10, y: 10, width: 50, height: 50 };
    gui.emit_pointer_motion(&root, 20, 20);
    // the sibling added second is front-most
    assert_eq!(gui.state.highlight, Some(second_id));
}

#[test]
fn hit_test_containment_miss() {
    let (mut gui, mut root) = Gui::new();
    let m = BoolModel::new(&mut gui, false);
    let (_c, boxw) = Checkbox::new(&mut gui, BoolSource::Cell { bool_cell: m.idx });
    root.add_child(&mut gui, boxw);
    root.rect = silica::widget::Rect { x: 0, y: 0, width: 100, height: 100 };
    root.children[0].rect = silica::widget::Rect { x: 10, y: 10, width: 20, height: 20 };
    let _ = gui.check_dirty();
    // a point outside every rectangle highlights nothing and calls nobody
    gui.emit_pointer_motion(&root, 500, 500);
    assert_eq!(gui.state.highlight, None);
    assert!(!gui.check_dirty());
}

#[test]
fn pointer_press_release_activates_once() {
    let (mut gui, mut root) = Gui::new();
    let (button, bw) = Button::with_label(&mut gui, String::from("go"));
    let bid = bw.id;
    let cell = CellModel::new(&mut gui, 0);
    button.connect_activate(&mut gui, ActivateHandler::Increment { cell: cell.idx });
    root.add_child(&mut gui, bw);
    root.rect = silica::widget::Rect { x: 0, y: 0, width: 200, height: 200 };
    root.children[0].rect = silica::widget::Rect { x: 0, y: 0, width: 100, height: 100 };

    gui.emit_pointer_motion(&root, 50, 50);
    assert_eq!(gui.state.highlight, Some(bid));
    gui.emit_pointer_button(&root, PointerButton { button: 1, state: true });
    assert_eq!(cell.get(&gui), 0); // pressing alone does not activate
    gui.emit_pointer_button(&root, PointerButton { button: 1, state: false });
    assert_eq!(cell.get(&gui), 1); // release over the button: exactly once
    gui.emit_pointer_button(&root, PointerButton { button: 1, state: false });
    assert_eq!(cell.get(&gui), 1); // a second release does not re-activate
}

#[test]
fn release_off_widget_does_not_activate() {
    let (mut gui, mut root) = Gui::new();
    let (button, bw) = Button::with_label(&mut gui, String::from("go"));
    let cell = CellModel::new(&mut gui, 0);
    button.connect_activate(&mut gui, ActivateHandler::Increment { cell: cell.idx });
    root.add_child(&mut gui, bw);
    root.rect = silica::widget::Rect { x: 0, y: 0, width: 200, height: 200 };
    root.children[0].rect = silica::widget::Rect { x: 0, y: 0, width: 100, height: 100 };

    gui.emit_pointer_motion(&root, 50, 50);
    gui.emit_pointer_button(&root, PointerButton { button: 1, state: true });
    gui.emit_pointer_motion(&root, 150, 150); // move off the button while held
    assert_eq!(gui.state.highlight, None);
    gui.emit_pointer_button(&root, PointerButton { button: 1, state: false });
    assert_eq!(cell.get(&gui), 0); // no activation
}

#[test]
fn non_primary_button_ignored() {
    let (mut gui, mut root) = Gui::new();
    let (button, bw) = Button::with_label(&mut gui, String::from("go"));
    let cell = CellModel::new(&mut gui, 0);
    button.connect_activate(&mut gui, ActivateHandler::Increment { cell: cell.idx });
    root.add_child(&mut gui, bw);
    root.rect = silica::widget::Rect { x: 0, y: 0, width: 200, height: 200 };
    root.children[0].rect = silica::widget::Rect { x: 0, y: 0, width: 100, height: 100 };
    gui.emit_pointer_motion(&root, 50, 50);
    gui.emit_pointer_button(&root, PointerButton { button: 3, state: true });
    gui.emit_pointer_button(&root, PointerButton { button: 3, state: false });
    assert_eq!(cell.get(&gui), 0);
    assert!(!gui.state.pointer_press);
}

#[test]
fn highlight_eligibility_fixed_at_construction() {
    let (mut gui, mut root) = Gui::new();
    let (_label, lw) = Label::new(&mut gui); // a label has no background
    root.add_child(&mut gui, lw);
    root.rect = silica::widget::Rect { x: 0, y: 0, width: 100, height: 100 };
    root.children[0].rect = silica::widget::Rect { x: 0, y: 0, width: 100, height: 100 };
    gui.emit_pointer_motion(&root, 10, 10);
    assert_eq!(gui.state.highlight, None);
    // assigning a background later does not make it eligible
    root.children[0].set_visual(
        &mut gui,
        Some(VisualStyle {
            background: Some(ThemeColor::ButtonNormal),
            border: None,
            foreground: None,
        }),
    );
    gui.emit_pointer_motion(&root, 11, 10);
    assert_eq!(gui.state.highlight, None);
}

#[test]
fn checkbox_click_toggles_model() {
    let (mut gui, mut root) = Gui::new();
    let model = BoolModel::new(&mut gui, false);
    let (cb, cbw) = Checkbox::new(&mut gui, BoolSource::Cell { bool_cell: model.idx });
    let cb_id = cbw.id;
    root.add_child(&mut gui, cbw);
    root.rect = silica::widget::Rect { x: 0, y: 0, width: 100, height: 100 };
    root.children[0].rect = silica::widget::Rect { x: 0, y: 0, width: 24, height: 24 };
    gui.emit_pointer_motion(&root, 5, 5);
    assert_eq!(gui.state.highlight, Some(cb_id));
    gui.emit_pointer_button(&root, PointerButton { button: 1, state: true });
    gui.emit_pointer_button(&root, PointerButton { button: 1, state: false });
    assert!(cb.value(&gui));
    assert!(model.get(&gui));
    // a second click toggles it back
    gui.emit_pointer_button(&root, PointerButton { button: 1, state: true });
    gui.emit_pointer_button(&root, PointerButton { button: 1, state: false });
    assert!(!cb.value(&gui));
}

#[test]
fn select_value_checkboxes_act_as_radio_group() {
    let (mut gui, mut root) = Gui::new();
    let choice = CellModel::new(&mut gui, 1);
    let (first, fw) = Checkbox::new(&mut gui, BoolSource::Select { cell: choice.idx, value: 1 });
    let (second, sw) = Checkbox::new(&mut gui, BoolSource::Select { cell: choice.idx, value: 2 });
    let second_id = sw.id;
    root.add_child(&mut gui, fw);
    root.add_child(&mut gui, sw);
    assert!(first.value(&gui));
    assert!(!second.value(&gui));
    // click the second: it writes its value into the shared cell
    root.rect = silica::widget::Rect { x: 0, y: 0, width: 100, height: 100 };
    root.children[0].rect = silica::widget::Rect { x: 0, y: 0, width: 24, height: 24 };
    root.children[1].rect = silica::widget::Rect { x: 30, y: 0, width: 24, height: 24 };
    gui.emit_pointer_motion(&root, 35, 5);
    assert_eq!(gui.state.highlight, Some(second_id));
    gui.emit_pointer_button(&root, PointerButton { button: 1, state: true });
    gui.emit_pointer_button(&root, PointerButton { button: 1, state: false });
    assert_eq!(choice.get(&gui), 2);
    assert!(!first.value(&gui));
    assert!(second.value(&gui));
    // clicking it again writes false into the lens, which does nothing
    gui.emit_pointer_button(&root, PointerButton { button: 1, state: true });
    gui.emit_pointer_button(&root, PointerButton { button: 1, state: false });
    assert_eq!(choice.get(&gui), 2);
}

#[test]
fn teardown_clears_stale_highlight() {
    let (mut gui, mut root) = Gui::new();
    let (_button, bw) = Button::with_label(&mut gui, String::from("gone"));
    let bid = bw.id;
    root.add_child(&mut gui, bw);
    root.rect = silica::widget::Rect { x: 0, y: 0, width: 200, height: 200 };
    root.children[0].rect = silica::widget::Rect { x: 0, y: 0, width: 100, height: 100 };
    gui.emit_pointer_motion(&root, 50, 50);
    assert_eq!(gui.state.highlight, Some(bid));
    // destroying the tree that holds the highlighted widget clears it:
    // the highlight always names a live widget or is absent
    root.destroy(&mut gui);
    assert_eq!(gui.state.highlight, None);
}

#[test]
fn teardown_releases_and_runtime_survives() {
    let (mut gui, mut root) = Gui::new();
    let (_button, bw) = Button::with_label(&mut gui, String::from("bye"));
    root.add_child(&mut gui, bw);
    root.destroy(&mut gui);
    // every handle was released exactly once; the registry keeps working
    let (_gui2_label, lw) = Label::new(&mut gui);
    assert_eq!(lw.children.len(), 0);
}
