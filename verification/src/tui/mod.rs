pub mod labels;
pub mod text_width;
pub mod theme;
pub mod ui_events;

pub use theme::{StyleRole, Theme};
pub use ui_events::{DeltaSign, UiEventKind, UiMotion, UiPriority, UiVisibility};
