//! The resource-cache and scheduler core of a GUI framework: opaque handles
//! for images, fonts, texts and timers; lazily resolved asset caches with
//! CSS-id aliasing; a recurring-timer registry driven by a per-frame tick;
//! a FIFO queue of background tasks; and event-filter matching with an
//! aggregated redraw decision.

pub mod handles;
pub mod strutil;
pub mod uidmap;
pub mod strmap;
pub mod resources;
pub mod timers;
pub mod tasks;
pub mod dispatch;
pub mod dom;
pub mod widgets;
pub mod laws;
