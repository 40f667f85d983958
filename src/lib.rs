//! Room-scoped chat relay: connection registry, fan-out, upgrade gate,
//! connection lifecycle, history selection and session checks.

pub mod registry;
pub mod relay;
pub mod history;
pub mod session;
pub mod lifecycle;
pub mod cookie;
pub mod views;
