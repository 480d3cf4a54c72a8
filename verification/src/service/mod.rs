//! Services as the engine sees them: which of their changes matter, and which
//! DDNS objects a change concerns.

pub mod trigger;
pub mod watch;
