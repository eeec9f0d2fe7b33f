//! Input/output core of a terminal text editor: a modal single-row text
//! input overlay, and a screen buffer that tracks which character cells
//! changed since the last paint so a host can repaint only those.

pub mod keyboard;
pub mod overlay;
pub mod uibuf;
pub mod width;

pub use keyboard::Key;
pub use overlay::Overlay;
pub use overlay::OverlayEvent;
pub use overlay::OverlayType;
pub use uibuf::Cell;
pub use uibuf::CharColor;
pub use uibuf::CharStyle;
pub use uibuf::UIBuffer;
