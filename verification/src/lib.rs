//! Window-manager logic: per-workspace focus memory, display bookkeeping,
//! strip scrolling geometry, the workspace observer's subscriptions, and
//! the Mach message framing and reactor bookkeeping of the IPC transport.

pub mod display;
pub mod error;
pub mod focus;
pub mod geometry;
pub mod msg;
pub mod reactor;
pub mod rights;
pub mod scroll;
pub mod workspace;

pub use display::FloatingLayer;
pub use error::Malformed;
pub use focus::{FocusHistory, TierMemory, Unmanaged};
pub use msg::{parse, reply, Incoming, Outgoing, Parsed, SendFrame};
pub use reactor::Interest;
pub use rights::{RecvRight, SendOnceRight, SendRight};
pub use scroll::{is_snap_gesture, ScrollEventsPlugin};
pub use workspace::Ivars;
