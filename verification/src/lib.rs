//! Engine of a live stream dashboard: per-stream probes that classify and
//! count messages, the paginated tab layout, and the controller that applies
//! keyboard, tick and message events to both.

pub mod probe;
