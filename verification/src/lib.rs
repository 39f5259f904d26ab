//! A desktop notification directory service: the in-memory store of active
//! notifications, the RPC method handlers of the standard desktop
//! notification interface, the urgency ordering of the store, and the
//! snapshot line that is published to a widget renderer after every change.

pub mod chars;
pub mod client;
pub mod codec;
pub mod decimal;
pub mod directory;
pub mod hints;
pub mod jsontext;
pub mod upgrade;
pub mod workspaces;
