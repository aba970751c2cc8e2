//! A retained-mode widget-tree runtime: a tree of widgets sharing a flex
//! layout engine, a single-slot-per-kind signal bus, reactive value cells,
//! pointer hit-testing with a highlight/press state machine, and
//! dirty-flag-driven redraw scheduling.
//!
//! The platform backend (windowing, painting) is not part of this crate: the
//! runtime consumes integer pointer events and produces a list of paint
//! commands that a backend interprets.

pub mod engine;
pub mod graphics;
pub mod gui;
pub mod laws;
pub mod model;
pub mod numfmt;
pub mod signal;
pub mod widget;

pub use graphics::HorizontalAlign;
pub use graphics::TextSection;
pub use graphics::ThemeColor;
pub use graphics::VerticalAlign;
pub use graphics::GraphicsContext;
pub use graphics::PaintOp;
pub use graphics::VisualStyle;
pub use gui::Gui;
pub use gui::GuiState;
pub use gui::PointerState;
pub use signal::Signal;
pub use signal::Signals;
pub use widget::Container;
pub use widget::LayoutStyle;
pub use widget::WidgetData;
pub use widget::WidgetKind;

